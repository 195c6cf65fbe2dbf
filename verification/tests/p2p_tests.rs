use markchain::blockchain::BlockChain;
use markchain::p2p::{Message, MessageBody, NodeState, Receiver, TriggerEvent, Vote};
use markchain::peer::PeerId;

fn peer(b: u8) -> PeerId {
    PeerId::from_bytes(vec![b, 1, 2])
}

fn node(me: u8) -> NodeState {
    NodeState::new(peer(me), BlockChain::try_new().unwrap())
}

fn msg(from: u8, to: Receiver, content: MessageBody) -> Message {
    Message { to, from: peer(from), content }
}

fn register(n: &mut NodeState, v: u8) {
    let r = n
        .handle_message(msg(v, Receiver::All, MessageBody::RegisterValidator(peer(v))))
        .unwrap();
    assert!(r.is_none());
}

fn vote(n: &mut NodeState, from: u8, to: u8, index: usize) {
    let r = n
        .handle_message(msg(from, Receiver::All, MessageBody::Vote(Vote { to: peer(to), index })))
        .unwrap();
    assert!(r.is_none());
}

#[test]
fn peers_rank_lexicographically() {
    let a = PeerId::from_bytes(vec![1, 2, 3]);
    let b = PeerId::from_bytes(vec![1, 3]);
    let c = PeerId::from_bytes(vec![1, 2]);
    assert!(a.ranks_below(&b));
    assert!(!b.ranks_below(&a));
    assert!(c.ranks_below(&a));
    assert!(!a.ranks_below(&a));
    assert!(a.same_as(&PeerId::from_bytes(vec![1, 2, 3])));
    assert!(!a.same_as(&c));
    assert_eq!(a.as_bytes(), &[1, 2, 3]);
}

#[test]
fn new_node_knows_itself_as_validator() {
    let n = node(1);
    assert_eq!(n.validator_count(), 1);
    assert!(n.is_validator(&peer(1)));
    assert!(!n.is_validator(&peer(2)));
    assert_eq!(n.blockchain().len(), 1);
    assert!(n.peer_id().same_as(&peer(1)));
    assert_eq!(n.count_votes_at(1), 0);
    assert!(n.choose_validator().is_none());
}

#[test]
fn validators_register_once_and_expire() {
    let mut n = node(1);
    register(&mut n, 2);
    register(&mut n, 2);
    register(&mut n, 3);
    assert_eq!(n.validator_count(), 3);
    n.remove_validator(&peer(2));
    assert_eq!(n.validator_count(), 2);
    assert!(!n.is_validator(&peer(2)));
    assert!(n.is_validator(&peer(3)));
    n.add_validator(peer(4));
    assert_eq!(n.validator_count(), 3);
}

#[test]
fn a_later_vote_replaces_an_earlier_one() {
    let mut n = node(1);
    vote(&mut n, 2, 3, 1);
    assert_eq!(n.count_votes_for(1, &peer(3)), 1);
    vote(&mut n, 2, 4, 1);
    assert_eq!(n.count_votes_for(1, &peer(3)), 0);
    assert_eq!(n.count_votes_for(1, &peer(4)), 1);
    assert_eq!(n.count_votes_at(1), 1);
    n.insert_vote(peer(5), Vote { to: peer(4), index: 1 });
    assert_eq!(n.count_votes_for(1, &peer(4)), 2);
    assert_eq!(n.count_votes_at(1), 2);
}

#[test]
fn votes_for_past_blocks_are_ignored() {
    let mut n = node(1);
    vote(&mut n, 2, 3, 0);
    assert_eq!(n.count_votes_at(0), 0);
    vote(&mut n, 2, 3, 5);
    assert_eq!(n.count_votes_at(5), 1);
}

#[test]
fn quorum_needs_three_validators_and_three_quarters_of_votes() {
    let mut n = node(1);
    register(&mut n, 2);
    vote(&mut n, 1, 1, 1);
    vote(&mut n, 2, 1, 1);
    assert!(!n.has_quorum());
    register(&mut n, 3);
    assert!(!n.has_quorum());
    vote(&mut n, 3, 1, 1);
    assert!(n.has_quorum());
    register(&mut n, 4);
    assert!(n.has_quorum());
    register(&mut n, 5);
    assert!(!n.has_quorum());
}

#[test]
fn most_voted_validator_wins_and_ties_go_to_the_higher_peer() {
    let mut n = node(1);
    vote(&mut n, 1, 2, 1);
    vote(&mut n, 2, 3, 1);
    assert!(n.choose_validator().unwrap().same_as(&peer(3)));
    vote(&mut n, 3, 2, 1);
    assert!(n.choose_validator().unwrap().same_as(&peer(2)));
    vote(&mut n, 4, 3, 1);
    vote(&mut n, 5, 3, 1);
    assert!(n.choose_validator().unwrap().same_as(&peer(3)));
}

#[test]
fn deprecated_votes_are_dropped() {
    let mut n = node(1);
    n.insert_vote(peer(2), Vote { to: peer(2), index: 0 });
    n.insert_vote(peer(2), Vote { to: peer(2), index: 1 });
    n.insert_vote(peer(3), Vote { to: peer(2), index: 2 });
    n.remove_deprecated_votes();
    assert_eq!(n.count_votes_at(0), 0);
    assert_eq!(n.count_votes_at(1), 1);
    assert_eq!(n.count_votes_at(2), 1);
}

#[test]
fn request_block_is_answered_with_the_block() {
    let mut n = node(1);
    let reply = n
        .handle_message(msg(7, Receiver::All, MessageBody::RequestBlock(0)))
        .unwrap()
        .unwrap();
    assert!(reply.from.same_as(&peer(1)));
    match (reply.to, reply.content) {
        (Receiver::One(p), MessageBody::SyncBlock(b)) => {
            assert!(p.same_as(&peer(7)));
            assert_eq!(b.header().index(), 0);
        }
        _ => panic!("unexpected reply"),
    }
    assert!(n
        .handle_message(msg(7, Receiver::All, MessageBody::RequestBlock(1)))
        .unwrap()
        .is_none());
}

#[test]
fn synced_block_is_appended_and_the_next_one_requested() {
    let mut n = node(1);
    let other = BlockChain::try_new().unwrap();
    let block = other.generate_next_block(None).unwrap();
    let reply = n
        .handle_message(msg(2, Receiver::One(peer(1)), MessageBody::SyncBlock(block.clone())))
        .unwrap()
        .unwrap();
    assert_eq!(n.blockchain().len(), 2);
    assert!(matches!(reply.to, Receiver::All));
    assert!(matches!(reply.content, MessageBody::RequestBlock(2)));
    // The same block again is not appended and nothing is requested.
    let again = n
        .handle_message(msg(2, Receiver::All, MessageBody::SyncBlock(block)))
        .unwrap();
    assert!(again.is_none());
    assert_eq!(n.blockchain().len(), 2);
}

#[test]
fn new_block_is_appended_without_reply() {
    let mut n = node(1);
    let block = n.blockchain().generate_next_block(Some(vec![4])).unwrap();
    assert!(n
        .handle_message(msg(2, Receiver::All, MessageBody::NewBlock(block)))
        .unwrap()
        .is_none());
    assert_eq!(n.blockchain().len(), 2);
}

#[test]
fn validator_request_is_answered_with_registration() {
    let mut n = node(1);
    let reply = n
        .handle_message(msg(2, Receiver::All, MessageBody::RequestAllValidators))
        .unwrap()
        .unwrap();
    assert!(matches!(reply.to, Receiver::All));
    match reply.content {
        MessageBody::RegisterValidator(p) => assert!(p.same_as(&peer(1))),
        _ => panic!("unexpected reply"),
    }
}

#[test]
fn messages_for_other_peers_are_ignored() {
    let mut n = node(1);
    let m = msg(2, Receiver::One(peer(9)), MessageBody::RegisterValidator(peer(2)));
    assert!(!n.is_addressed_to_me(&m));
    assert!(n.handle_floodsub_message(m).unwrap().is_none());
    assert_eq!(n.validator_count(), 1);
    let m = msg(2, Receiver::One(peer(1)), MessageBody::RegisterValidator(peer(2)));
    assert!(n.is_addressed_to_me(&m));
    n.handle_floodsub_message(m).unwrap();
    assert_eq!(n.validator_count(), 2);
    n.handle_floodsub_message(msg(3, Receiver::All, MessageBody::RegisterValidator(peer(3))))
        .unwrap();
    assert_eq!(n.validator_count(), 3);
}

#[test]
fn scheduled_requests_are_broadcast() {
    let mut n = node(1);
    let r = n.handle_trigger(TriggerEvent::RequestBlock(4)).unwrap().unwrap();
    assert!(matches!(r.to, Receiver::All));
    assert!(matches!(r.content, MessageBody::RequestBlock(4)));
    assert!(r.from.same_as(&peer(1)));
    let r = n.handle_trigger(TriggerEvent::RequestAllValidators).unwrap().unwrap();
    assert!(matches!(r.content, MessageBody::RequestAllValidators));
    let r = n.handle_trigger(TriggerEvent::RegisterValidator).unwrap().unwrap();
    match r.content {
        MessageBody::RegisterValidator(p) => assert!(p.same_as(&peer(1))),
        _ => panic!("unexpected message"),
    }
}

#[test]
fn scheduled_vote_goes_to_a_known_validator() {
    let mut n = node(1);
    register(&mut n, 2);
    let r = n.handle_trigger(TriggerEvent::Vote).unwrap().unwrap();
    match r.content {
        MessageBody::Vote(v) => {
            assert_eq!(v.index, 1);
            assert!(n.is_validator(&v.to));
            assert_eq!(n.count_votes_for(1, &v.to), 1);
        }
        _ => panic!("unexpected message"),
    }
    assert_eq!(n.count_votes_at(1), 1);
}

#[test]
fn vote_for_records_and_announces_the_vote() {
    let mut n = node(1);
    register(&mut n, 2);
    let m = n.vote_for(1);
    match m.content {
        MessageBody::Vote(v) => {
            assert!(v.to.same_as(&peer(2)));
            assert_eq!(v.index, 1);
        }
        _ => panic!("unexpected message"),
    }
    assert_eq!(n.count_votes_for(1, &peer(2)), 1);
}

#[test]
fn elected_node_creates_the_next_block() {
    let mut n = node(1);
    register(&mut n, 2);
    register(&mut n, 3);
    vote(&mut n, 1, 1, 1);
    vote(&mut n, 2, 1, 1);
    vote(&mut n, 3, 2, 1);
    let r = n.handle_trigger(TriggerEvent::CreateBlock).unwrap().unwrap();
    assert!(matches!(r.to, Receiver::All));
    match r.content {
        MessageBody::NewBlock(b) => assert_eq!(b.header().index(), 1),
        _ => panic!("unexpected message"),
    }
    assert_eq!(n.blockchain().len(), 2);
    // The votes for block 1 are now deprecated and dropped on the next round.
    assert!(n.handle_trigger(TriggerEvent::CreateBlock).unwrap().is_none());
    assert_eq!(n.count_votes_at(1), 0);
}

#[test]
fn node_that_is_not_elected_creates_nothing() {
    let mut n = node(1);
    register(&mut n, 2);
    register(&mut n, 3);
    vote(&mut n, 1, 2, 1);
    vote(&mut n, 2, 2, 1);
    vote(&mut n, 3, 2, 1);
    assert!(n.handle_trigger(TriggerEvent::CreateBlock).unwrap().is_none());
    assert_eq!(n.blockchain().len(), 1);
}

#[test]
fn no_block_without_quorum() {
    let mut n = node(1);
    register(&mut n, 2);
    register(&mut n, 3);
    vote(&mut n, 1, 1, 1);
    vote(&mut n, 2, 1, 1);
    assert!(n.handle_trigger(TriggerEvent::CreateBlock).unwrap().is_none());
    assert_eq!(n.blockchain().len(), 1);
}

#[test]
fn create_block_appends_and_announces() {
    let mut n = node(1);
    let m = n.create_block().unwrap().unwrap();
    match m.content {
        MessageBody::NewBlock(b) => assert_eq!(b.header().index(), 1),
        _ => panic!("unexpected message"),
    }
    assert_eq!(n.blockchain().len(), 2);
}
