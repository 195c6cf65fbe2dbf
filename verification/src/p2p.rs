//! The decisions of a node: what it does with each message it receives and
//! each piece of work it schedules, and the messages it sends in reply.

use vstd::prelude::*;

use rand::rngs::ThreadRng;
use rand::Rng;

use crate::blockchain::{
    accepts, lemma_next_block_is_accepted, linked_at, next_block, valid_chain, Block, BlockChain,
    BlockView,
};
use crate::election::{
    after_vote, ballot_views, dominates, elected, lemma_elected_unique,
    lemma_filter_keeps_one_ballot_per_voter,
    lemma_vote_keeps_one_ballot_per_voter, not_deprecated, one_ballot_per_voter, quorum, tally,
    votes_at, without_voter, Ballot, BallotView, MIN_VALIDATORS, MIN_VOTE_DENOMINATOR,
    MIN_VOTE_NUMERATOR,
};
use crate::error::Result;
use crate::filter::{lemma_filter_keeps_no_duplicates, lemma_filter_take_step};
use crate::peer::{lemma_peer_lt_total, lemma_peer_lt_transitive, peer_lt, PeerId};

verus! {

broadcast use vstd::seq_lib::group_filter_ensures;

/// The abstract content of a [`Vote`].
pub struct VoteView {
    pub to: Seq<u8>,
    pub index: usize,
}

/// A vote for the peer `to` to produce the block at `index`.
#[derive(Debug)]
pub struct Vote {
    pub to: PeerId,
    pub index: usize,
}

impl View for Vote {
    type V = VoteView;

    open spec fn view(&self) -> VoteView {
        VoteView { to: self.to@, index: self.index }
    }
}

impl Clone for Vote {
    fn clone(&self) -> (r: Self)
        ensures
            r@ == self@,
    {
        Vote { to: self.to.clone(), index: self.index }
    }
}

/// Work a node schedules for itself.
#[derive(Debug, Clone, Copy, PartialEq, Eq, Structural)]
pub enum TriggerEvent {
    RequestAllValidators,
    RegisterValidator,
    RequestBlock(usize),
    Vote,
    CreateBlock,
}

/// The abstract content of a [`MessageBody`].
pub enum MessageBodyView {
    RequestBlock(usize),
    SyncBlock(BlockView),
    RequestAllValidators,
    RegisterValidator(Seq<u8>),
    Vote(VoteView),
    NewBlock(BlockView),
}

/// What a message asks for or announces.
#[derive(Debug)]
pub enum MessageBody {
    RequestBlock(usize),
    SyncBlock(Block),
    RequestAllValidators,
    RegisterValidator(PeerId),
    Vote(Vote),
    NewBlock(Block),
}

impl View for MessageBody {
    type V = MessageBodyView;

    open spec fn view(&self) -> MessageBodyView {
        match self {
            MessageBody::RequestBlock(i) => MessageBodyView::RequestBlock(*i),
            MessageBody::SyncBlock(b) => MessageBodyView::SyncBlock(b@),
            MessageBody::RequestAllValidators => MessageBodyView::RequestAllValidators,
            MessageBody::RegisterValidator(p) => MessageBodyView::RegisterValidator(p@),
            MessageBody::Vote(v) => MessageBodyView::Vote(v@),
            MessageBody::NewBlock(b) => MessageBodyView::NewBlock(b@),
        }
    }
}

/// The abstract content of a [`Receiver`].
pub enum ReceiverView {
    All,
    One(Seq<u8>),
}

/// Who a message is meant for.
#[derive(Debug)]
pub enum Receiver {
    All,
    One(PeerId),
}

impl View for Receiver {
    type V = ReceiverView;

    open spec fn view(&self) -> ReceiverView {
        match self {
            Receiver::All => ReceiverView::All,
            Receiver::One(p) => ReceiverView::One(p@),
        }
    }
}

/// The abstract content of a [`Message`].
pub struct MessageView {
    pub to: ReceiverView,
    pub from: Seq<u8>,
    pub content: MessageBodyView,
}

/// A message between peers.
#[derive(Debug)]
pub struct Message {
    pub to: Receiver,
    pub from: PeerId,
    pub content: MessageBody,
}

impl View for Message {
    type V = MessageView;

    open spec fn view(&self) -> MessageView {
        MessageView { to: self.to@, from: self.from@, content: self.content@ }
    }
}

/// The abstract content of an optional message.
pub open spec fn option_message_view(m: Option<Message>) -> Option<MessageView> {
    match m {
        Some(m) => Some(m@),
        None => None,
    }
}

/// A message is for the node `me` when it goes to all peers or to `me`.
pub open spec fn addressed_to(to: ReceiverView, me: Seq<u8>) -> bool {
    match to {
        ReceiverView::All => true,
        ReceiverView::One(p) => p == me,
    }
}

/// The validators after `v` registers.
pub open spec fn with_validator(validators: Seq<Seq<u8>>, v: Seq<u8>) -> Seq<Seq<u8>> {
    if validators.contains(v) {
        validators
    } else {
        validators.push(v)
    }
}

/// The validators after `v` goes away.
pub open spec fn without_validator(validators: Seq<Seq<u8>>, v: Seq<u8>) -> Seq<Seq<u8>> {
    validators.filter(|x: Seq<u8>| x != v)
}

/// The chain after it is offered `block`.
pub open spec fn after_block(chain: Seq<BlockView>, block: BlockView) -> Seq<BlockView> {
    if accepts(chain, block) {
        chain.push(block)
    } else {
        chain
    }
}

/// The abstract state of a node.
pub struct NodeView {
    pub chain: Seq<BlockView>,
    pub peer_id: Seq<u8>,
    pub validators: Seq<Seq<u8>>,
    pub ballots: Seq<BallotView>,
}

impl NodeView {
    /// The index of the block the node waits for next.
    pub open spec fn next_index(self) -> usize {
        self.chain.len() as usize
    }
}

/// The message `me` sends to all peers.
pub open spec fn broadcast_from(me: Seq<u8>, content: MessageBodyView) -> MessageView {
    MessageView { to: ReceiverView::All, from: me, content }
}

/// `new` is `old` after the node created the block that follows its latest
/// block (with no transactions) and announced it in `reply`.
pub open spec fn block_created(old: NodeView, new: NodeView, reply: Option<MessageView>) -> bool {
    &&& reply matches Some(msg)
    &&& msg.to == ReceiverView::All
    &&& msg.from == old.peer_id
    &&& msg.content matches MessageBodyView::NewBlock(b)
    &&& b == next_block(old.chain.last().header, None, b.header.time)
    &&& new == NodeView { chain: old.chain.push(b), ..old }
}

/// `new` is `old` after it voted as `reply` announces: for a validator it
/// knows, for its next block.
pub open spec fn voted(old: NodeView, new: NodeView, reply: Option<MessageView>) -> bool {
    &&& reply matches Some(msg)
    &&& msg.to == ReceiverView::All
    &&& msg.from == old.peer_id
    &&& msg.content matches MessageBodyView::Vote(v)
    &&& old.validators.contains(v.to)
    &&& v.index == old.next_index()
    &&& new == NodeView { ballots: after_vote(old.ballots, old.peer_id, v), ..old }
}

/// `new` and `reply` are what handling `message` in state `old` gives.
pub open spec fn handled(
    old: NodeView,
    message: MessageView,
    new: NodeView,
    reply: Option<MessageView>,
) -> bool {
    match message.content {
        MessageBodyView::RequestBlock(index) => {
            &&& new == old
            &&& reply == if index < old.chain.len() {
                Some(
                    MessageView {
                        to: ReceiverView::One(message.from),
                        from: old.peer_id,
                        content: MessageBodyView::SyncBlock(old.chain[index as int]),
                    },
                )
            } else {
                None
            }
        },
        MessageBodyView::SyncBlock(block) => {
            &&& new == NodeView { chain: after_block(old.chain, block), ..old }
            &&& reply == if accepts(old.chain, block) {
                Some(
                    broadcast_from(
                        old.peer_id,
                        MessageBodyView::RequestBlock((old.chain.len() + 1) as usize),
                    ),
                )
            } else {
                None
            }
        },
        MessageBodyView::NewBlock(block) => {
            &&& reply is None
            &&& new == NodeView { chain: after_block(old.chain, block), ..old }
        },
        MessageBodyView::RequestAllValidators => {
            &&& new == old
            &&& reply == Some(
                broadcast_from(old.peer_id, MessageBodyView::RegisterValidator(old.peer_id)),
            )
        },
        MessageBodyView::RegisterValidator(v) => {
            &&& reply is None
            &&& new == NodeView { validators: with_validator(old.validators, v), ..old }
        },
        MessageBodyView::Vote(v) => {
            &&& reply is None
            &&& new == NodeView {
                ballots: if v.index >= old.chain.len() {
                    after_vote(old.ballots, message.from, v)
                } else {
                    old.ballots
                },
                ..old
            }
        },
    }
}

/// `new` and `reply` are what the scheduled work `event` gives in state
/// `old`.
pub open spec fn triggered(
    old: NodeView,
    event: TriggerEvent,
    new: NodeView,
    reply: Option<MessageView>,
) -> bool {
    match event {
        TriggerEvent::RequestBlock(index) => {
            &&& new == old
            &&& reply == Some(broadcast_from(old.peer_id, MessageBodyView::RequestBlock(index)))
        },
        TriggerEvent::RequestAllValidators => {
            &&& new == old
            &&& reply == Some(broadcast_from(old.peer_id, MessageBodyView::RequestAllValidators))
        },
        TriggerEvent::RegisterValidator => {
            &&& new == old
            &&& reply == Some(
                broadcast_from(old.peer_id, MessageBodyView::RegisterValidator(old.peer_id)),
            )
        },
        TriggerEvent::Vote => voted(old, new, reply),
        TriggerEvent::CreateBlock => {
            let pruned = NodeView {
                ballots: not_deprecated(old.ballots, old.chain.len()),
                ..old
            };
            if quorum(old.validators.len(), votes_at(pruned.ballots, old.next_index()).len())
                && elected(pruned.ballots, old.next_index(), old.peer_id) {
                block_created(pruned, new, reply)
            } else {
                reply is None && new == pruned
            }
        },
    }
}

/// A message for one peer is for this node exactly when that peer is this
/// node, and a message for all peers is for every node.
pub proof fn lemma_addressed_to_one_peer(p: Seq<u8>, me: Seq<u8>)
    ensures
        addressed_to(ReceiverView::One(p), me) <==> p == me,
        addressed_to(ReceiverView::All, me),
{
}

/// Asked for the block at `index`, a node answers the asker alone, as
/// itself, with the block at that position of its chain (whose header
/// carries that index) when it has one, and stays silent otherwise; its
/// state does not change.
pub proof fn lemma_request_block_answer(
    old: NodeView,
    message: MessageView,
    new: NodeView,
    reply: Option<MessageView>,
    index: usize,
)
    requires
        valid_chain(old.chain),
        message.content == MessageBodyView::RequestBlock(index),
        handled(old, message, new, reply),
    ensures
        new == old,
        index < old.chain.len() ==> reply == Some(
            MessageView {
                to: ReceiverView::One(message.from),
                from: old.peer_id,
                content: MessageBodyView::SyncBlock(old.chain[index as int]),
            },
        ),
        index < old.chain.len() ==> old.chain[index as int].header.index == index,
        index >= old.chain.len() ==> reply is None,
{
    if 0 < index < old.chain.len() {
        assert(linked_at(old.chain, index as int));
    }
}

/// A block-creation round drops the ballots for blocks the chain already
/// holds, then appends a block exactly when at least `MIN_VALIDATORS`
/// validators are known, at least 3/4 of them voted for the next block, and
/// this node has votes, no peer has more, and it ranks above every peer with
/// as many. Then it appends one block and announces it to all; otherwise
/// the chain stays as it was and nothing is sent.
pub proof fn lemma_create_block_only_when_elected(
    old: NodeView,
    new: NodeView,
    reply: Option<MessageView>,
)
    requires
        triggered(old, TriggerEvent::CreateBlock, new, reply),
    ensures
        ({
            let s = not_deprecated(old.ballots, old.chain.len());
            let next = old.chain.len() as usize;
            let me = old.peer_id;
            let won = old.validators.len() >= MIN_VALIDATORS && votes_at(s, next).len()
                * MIN_VOTE_DENOMINATOR >= old.validators.len() * MIN_VOTE_NUMERATOR && tally(
                s,
                next,
                me,
            ) > 0 && (forall|p: Seq<u8>| #[trigger]
                tally(s, next, p) <= tally(s, next, me)) && (forall|p: Seq<u8>|
                #[trigger] tally(s, next, p) == tally(s, next, me) && p != me ==> peer_lt(p, me));
            &&& new.ballots == s
            &&& new.validators == old.validators
            &&& new.peer_id == old.peer_id
            &&& (new.chain.len() > old.chain.len() <==> won)
            &&& won ==> new.chain.len() == old.chain.len() + 1 && new.chain.drop_last() == old.chain
                && reply == Some(broadcast_from(me, MessageBodyView::NewBlock(new.chain.last())))
            &&& !won ==> new.chain == old.chain && reply is None
        }),
{
    let s = not_deprecated(old.ballots, old.chain.len());
    let next = old.chain.len() as usize;
    let me = old.peer_id;
    if elected(s, next, me) {
        assert forall|p: Seq<u8>| #[trigger] tally(s, next, p) <= tally(s, next, me) by {}
    }
    if new.chain.len() > old.chain.len() {
        assert(new.chain.drop_last() =~= old.chain);
    }
}

/// The decision-making state of a node: its chain, its identity, the
/// validators it knows and the votes it has seen.
#[derive(Debug)]
pub struct NodeState {
    blockchain: BlockChain,
    peer_id: PeerId,
    validators: Vec<PeerId>,
    votes: Vec<Ballot>,
}

impl View for NodeState {
    type V = NodeView;

    closed spec fn view(&self) -> NodeView {
        NodeView {
            chain: self.blockchain@,
            peer_id: self.peer_id@,
            validators: self.validators@.map_values(|p: PeerId| p@),
            ballots: ballot_views(self.votes@),
        }
    }
}

impl NodeState {
    /// The chain is valid, no validator is listed twice and each voter has
    /// at most one ballot per block index.
    pub open spec fn wf(&self) -> bool {
        &&& valid_chain(self@.chain)
        &&& self@.validators.no_duplicates()
        &&& one_ballot_per_voter(self@.ballots)
    }

    /// A node that knows only itself as validator and has seen no vote.
    pub fn new(peer_id: PeerId, blockchain: BlockChain) -> (s: NodeState)
        requires
            blockchain.wf(),
        ensures
            s.wf(),
            s@ == (NodeView {
                chain: blockchain@,
                peer_id: peer_id@,
                validators: seq![peer_id@],
                ballots: seq![],
            }),
    {
        let mut validators = Vec::new();
        validators.push(peer_id.clone());
        let s = NodeState { blockchain, peer_id, validators, votes: Vec::new() };
        assert(s@.validators =~= seq![peer_id@]);
        assert(s@.ballots =~= seq![]);
        s
    }

    pub fn blockchain(&self) -> (c: &BlockChain)
        ensures
            c@ == self@.chain,
    {
        &self.blockchain
    }

    pub fn validator_count(&self) -> (n: usize)
        ensures
            n == self@.validators.len(),
    {
        self.validators.len()
    }

    pub fn peer_id(&self) -> (p: &PeerId)
        ensures
            p@ == self@.peer_id,
    {
        &self.peer_id
    }

    /// `message` stamped as sent by this node.
    fn envelope(&self, to: Receiver, content: MessageBody) -> (m: Message)
        ensures
            m@ == (MessageView { to: to@, from: self@.peer_id, content: content@ }),
    {
        Message { to, from: self.peer_id.clone(), content }
    }

    fn request_block_at(&self, index: usize) -> (m: Message)
        ensures
            m@ == broadcast_from(self@.peer_id, MessageBodyView::RequestBlock(index)),
    {
        self.envelope(Receiver::All, MessageBody::RequestBlock(index))
    }

    fn sync_block(&self, peer_id: PeerId, block: Block) -> (m: Message)
        ensures
            m@ == (MessageView {
                to: ReceiverView::One(peer_id@),
                from: self@.peer_id,
                content: MessageBodyView::SyncBlock(block@),
            }),
    {
        self.envelope(Receiver::One(peer_id), MessageBody::SyncBlock(block))
    }

    fn request_validators(&self) -> (m: Message)
        ensures
            m@ == broadcast_from(self@.peer_id, MessageBodyView::RequestAllValidators),
    {
        self.envelope(Receiver::All, MessageBody::RequestAllValidators)
    }

    fn register_validator(&self, validator: PeerId) -> (m: Message)
        ensures
            m@ == broadcast_from(self@.peer_id, MessageBodyView::RegisterValidator(validator@)),
    {
        self.envelope(Receiver::All, MessageBody::RegisterValidator(validator))
    }

    /// Whether `peer` is a known validator.
    pub fn is_validator(&self, peer: &PeerId) -> (r: bool)
        ensures
            r == self@.validators.contains(peer@),
    {
        let ghost vs = self@.validators;
        let n = self.validators.len();
        let mut j: usize = 0;
        while j < n
            invariant
                n == vs.len(),
                vs == self.validators@.map_values(|p: PeerId| p@),
                j <= n,
                forall|k: int| 0 <= k < j ==> vs[k] != peer@,
            decreases n - j,
        {
            assert(vs[j as int] == self.validators@[j as int]@);
            if self.validators[j].same_as(peer) {
                return true;
            }
            j = j + 1;
        }
        false
    }

    /// Registers `validator`, unless it is known already.
    pub fn add_validator(&mut self, validator: PeerId)
        requires
            old(self).wf(),
        ensures
            final(self).wf(),
            final(self)@ == (NodeView {
                validators: with_validator(old(self)@.validators, validator@),
                ..old(self)@
            }),
    {
        if !self.is_validator(&validator) {
            let ghost vs = self@.validators;
            self.validators.push(validator);
            assert(self@.validators =~= vs.push(validator@));
            assert(self@.validators.no_duplicates()) by {
                let out = self@.validators;
                assert forall|i: int, j: int|
                    0 <= i < out.len() && 0 <= j < out.len() && i != j implies out[i] != out[j] by {
                    if i < vs.len() && j < vs.len() {
                    } else if i < vs.len() {
                        assert(vs.contains(out[i]));
                    } else {
                        assert(vs.contains(out[j]));
                    }
                }
            }
        }
    }

    /// Forgets `peer` as a validator.
    pub fn remove_validator(&mut self, peer: &PeerId)
        requires
            old(self).wf(),
        ensures
            final(self).wf(),
            final(self)@ == (NodeView {
                validators: without_validator(old(self)@.validators, peer@),
                ..old(self)@
            }),
    {
        let ghost vs = self@.validators;
        let n = self.validators.len();
        let mut kept: Vec<PeerId> = Vec::new();
        let mut j: usize = 0;
        assert(vs.take(0) =~= Seq::<Seq<u8>>::empty());
        assert(kept@.map_values(|p: PeerId| p@) =~= Seq::<Seq<u8>>::empty());
        while j < n
            invariant
                n == vs.len(),
                vs == self.validators@.map_values(|p: PeerId| p@),
                j <= n,
                kept@.map_values(|p: PeerId| p@) == without_validator(vs.take(j as int), peer@),
            decreases n - j,
        {
            let v = &self.validators[j];
            assert(vs[j as int] == v@);
            proof {
                lemma_filter_take_step(vs, |x: Seq<u8>| x != peer@, j as int);
            }
            if !v.same_as(peer) {
                let ghost before = kept@;
                kept.push(v.clone());
                assert(kept@.map_values(|p: PeerId| p@) =~= before.map_values(|p: PeerId| p@).push(
                    v@,
                ));
            }
            j = j + 1;
        }
        assert(vs.take(n as int) =~= vs);
        self.validators = kept;
        proof {
            lemma_filter_keeps_no_duplicates(vs, |x: Seq<u8>| x != peer@);
        }
    }

    /// Votes for the validator at position `choice` to produce the next
    /// block, and returns the vote to announce.
    pub fn vote_for(&mut self, choice: usize) -> (m: Message)
        requires
            old(self).wf(),
            choice < old(self)@.validators.len(),
        ensures
            final(self).wf(),
            voted(old(self)@, final(self)@, Some(m@)),
            m@.content == MessageBodyView::Vote(
                VoteView { to: old(self)@.validators[choice as int], index: old(self)@.next_index() },
            ),
    {
        let index = self.blockchain.len();
        let to = self.validators[choice].clone();
        assert(to@ == self@.validators[choice as int]);
        let vote = Vote { to, index };
        let me = self.peer_id.clone();
        self.insert_vote(me, vote.clone());
        self.envelope(Receiver::All, MessageBody::Vote(vote))
    }

    /// Votes for a validator picked at random to produce the next block,
    /// and returns the vote to announce.
    pub fn vote(&mut self) -> (m: Message)
        requires
            old(self).wf(),
            old(self)@.validators.len() > 0,
        ensures
            final(self).wf(),
            voted(old(self)@, final(self)@, Some(m@)),
    {
        let mut rng = thread_random_generator();
        let choice = random_index_below(&mut rng, self.validators.len());
        self.vote_for(choice)
    }

    /// Produces the block that follows the latest one, appends it and
    /// returns its announcement.
    pub fn create_block(&mut self) -> (r: Result<Option<Message>>)
        requires
            old(self).wf(),
        ensures
            final(self).wf(),
            r matches Ok(m) && block_created(old(self)@, final(self)@, option_message_view(m)),
    {
        let block = self.blockchain.generate_next_block(None)?;
        let before = self.blockchain.len();
        proof {
            lemma_next_block_is_accepted(self@.chain, None, block@.header.time);
        }
        self.blockchain.add_block(block.clone())?;
        if self.blockchain.len() > before {
            Ok(Some(self.envelope(Receiver::All, MessageBody::NewBlock(block))))
        } else {
            Ok(None)
        }
    }

    /// Offers `block` to the chain; returns whether it was appended.
    fn offer_block(&mut self, block: Block) -> (r: Result<bool>)
        requires
            old(self).wf(),
        ensures
            final(self).wf(),
            r matches Ok(added) && added == accepts(old(self)@.chain, block@),
            final(self)@ == (NodeView {
                chain: after_block(old(self)@.chain, block@),
                ..old(self)@
            }),
    {
        let before = self.blockchain.len();
        self.blockchain.add_block(block)?;
        Ok(self.blockchain.len() > before)
    }

    /// Applies a message from a peer and returns the reply to send, if any.
    pub fn handle_message(&mut self, message: Message) -> (r: Result<Option<Message>>)
        requires
            old(self).wf(),
        ensures
            final(self).wf(),
            r matches Ok(m) && handled(old(self)@, message@, final(self)@, option_message_view(m)),
    {
        let from = message.from;
        match message.content {
            MessageBody::RequestBlock(index) => match self.blockchain.get_block(index) {
                None => Ok(None),
                Some(block) => {
                    let block = block.clone();
                    Ok(Some(self.sync_block(from, block)))
                },
            },
            MessageBody::SyncBlock(block) => {
                if self.offer_block(block)? {
                    let next_block_index = self.blockchain.len();
                    Ok(Some(self.request_block_at(next_block_index)))
                } else {
                    Ok(None)
                }
            },
            MessageBody::NewBlock(block) => {
                self.offer_block(block)?;
                Ok(None)
            },
            MessageBody::RequestAllValidators => {
                let me = self.peer_id.clone();
                Ok(Some(self.register_validator(me)))
            },
            MessageBody::RegisterValidator(validator) => {
                self.add_validator(validator);
                Ok(None)
            },
            MessageBody::Vote(vote) => {
                if vote.index >= self.blockchain.len() {
                    self.insert_vote(from, vote);
                }
                Ok(None)
            },
        }
    }

    /// Whether `message` is meant for this node.
    pub fn is_addressed_to_me(&self, message: &Message) -> (r: bool)
        ensures
            r == addressed_to(message@.to, self@.peer_id),
            r == (message@.to == ReceiverView::All || message@.to == ReceiverView::One(
                self@.peer_id,
            )),
    {
        match &message.to {
            Receiver::All => true,
            Receiver::One(peer_id) => peer_id.same_as(&self.peer_id),
        }
    }

    /// Applies a message received on the topic when it is meant for this
    /// node, and ignores it otherwise.
    pub fn handle_floodsub_message(&mut self, message: Message) -> (r: Result<Option<Message>>)
        requires
            old(self).wf(),
        ensures
            final(self).wf(),
            r matches Ok(m) && if addressed_to(message@.to, old(self)@.peer_id) {
                handled(old(self)@, message@, final(self)@, option_message_view(m))
            } else {
                m is None && final(self)@ == old(self)@
            },
            message@.to != ReceiverView::All && message@.to != ReceiverView::One(old(self)@.peer_id)
                ==> (r matches Ok(None) && final(self)@ == old(self)@),
    {
        if self.is_addressed_to_me(&message) {
            self.handle_message(message)
        } else {
            Ok(None)
        }
    }

    /// Carries out scheduled work and returns the message to send, if any.
    pub fn handle_trigger(&mut self, event: TriggerEvent) -> (r: Result<Option<Message>>)
        requires
            old(self).wf(),
            event == TriggerEvent::Vote ==> old(self)@.validators.len() > 0,
        ensures
            final(self).wf(),
            r matches Ok(m) && triggered(old(self)@, event, final(self)@, option_message_view(m)),
    {
        match event {
            TriggerEvent::RequestBlock(index) => Ok(Some(self.request_block_at(index))),
            TriggerEvent::RequestAllValidators => Ok(Some(self.request_validators())),
            TriggerEvent::RegisterValidator => {
                let me = self.peer_id.clone();
                Ok(Some(self.register_validator(me)))
            },
            TriggerEvent::Vote => Ok(Some(self.vote())),
            TriggerEvent::CreateBlock => {
                self.remove_deprecated_votes();
                let ghost pruned = self@;
                if self.has_quorum() {
                    if let Some(peer_id) = self.choose_validator() {
                        if self.peer_id.same_as(&peer_id) {
                            return self.create_block();
                        } else {
                            proof {
                                if elected(pruned.ballots, pruned.next_index(), pruned.peer_id) {
                                    lemma_elected_unique(
                                        pruned.ballots,
                                        pruned.next_index(),
                                        peer_id@,
                                        pruned.peer_id,
                                    );
                                }
                            }
                        }
                    } else {
                        proof {
                            if elected(pruned.ballots, pruned.next_index(), pruned.peer_id) {
                                let s = pruned.ballots;
                                let cur = pruned.next_index();
                                let me = pruned.peer_id;
                                let opred = |b: BallotView| b.index == cur && b.to == me;
                                let f = s.filter(opred);
                                assert(opred(f[0]));
                                assert(f.contains(f[0]));
                                s.lemma_filter_contains_rev(opred, f[0]);
                                let j = choose|j: int| 0 <= j < s.len() && s[j] == f[0];
                                let cpred = |b: BallotView| b.index == cur;
                                assert(cpred(s[j]));
                                assert(s.filter(cpred).contains(s[j]));
                            }
                        }
                    }
                }
                Ok(None)
            },
        }
    }

    /// The number of ballots for `candidate` to produce the block at `index`.
    pub fn count_votes_for(&self, index: usize, candidate: &PeerId) -> (c: usize)
        ensures
            c == tally(self@.ballots, index, candidate@),
    {
        let ghost s = self@.ballots;
        let n = self.votes.len();
        let mut count: usize = 0;
        let mut j: usize = 0;
        assert(s.take(0) =~= Seq::<BallotView>::empty());
        while j < n
            invariant
                n == s.len(),
                s == ballot_views(self.votes@),
                j <= n,
                count <= j,
                count == tally(s.take(j as int), index, candidate@),
            decreases n - j,
        {
            let b = &self.votes[j];
            assert(s[j as int] == b@);
            proof {
                lemma_filter_take_step(s, |b: BallotView| b.index == index && b.to == candidate@, j as int);
            }
            if b.index == index && b.to.same_as(candidate) {
                count = count + 1;
            }
            j = j + 1;
        }
        assert(s.take(n as int) =~= s);
        count
    }

    /// The number of ballots cast for the block at `index`.
    pub fn count_votes_at(&self, index: usize) -> (c: usize)
        ensures
            c == votes_at(self@.ballots, index).len(),
    {
        let ghost s = self@.ballots;
        let n = self.votes.len();
        let mut count: usize = 0;
        let mut j: usize = 0;
        assert(s.take(0) =~= Seq::<BallotView>::empty());
        while j < n
            invariant
                n == s.len(),
                s == ballot_views(self.votes@),
                j <= n,
                count <= j,
                count == votes_at(s.take(j as int), index).len(),
            decreases n - j,
        {
            assert(s[j as int] == self.votes@[j as int]@);
            proof {
                lemma_filter_take_step(s, |b: BallotView| b.index == index, j as int);
            }
            if self.votes[j].index == index {
                count = count + 1;
            }
            j = j + 1;
        }
        assert(s.take(n as int) =~= s);
        count
    }

    /// Records `vote` as cast by `from`, replacing any earlier ballot of
    /// `from` for the same block index.
    pub fn insert_vote(&mut self, from: PeerId, vote: Vote)
        requires
            old(self).wf(),
        ensures
            final(self).wf(),
            final(self)@ == (NodeView {
                ballots: after_vote(old(self)@.ballots, from@, vote@),
                ..old(self)@
            }),
    {
        let ghost s = self@.ballots;
        let n = self.votes.len();
        let mut kept: Vec<Ballot> = Vec::new();
        let mut j: usize = 0;
        assert(s.take(0) =~= Seq::<BallotView>::empty());
        assert(ballot_views(kept@) =~= Seq::<BallotView>::empty());
        while j < n
            invariant
                n == s.len(),
                s == ballot_views(self.votes@),
                j <= n,
                ballot_views(kept@) == without_voter(s.take(j as int), vote@.index, from@),
            decreases n - j,
        {
            let b = &self.votes[j];
            assert(s[j as int] == b@);
            proof {
                lemma_filter_take_step(s, |b: BallotView| !(b.index == vote@.index && b.from == from@), j as int);
            }
            if !(b.index == vote.index && b.from.same_as(&from)) {
                let ghost before = kept@;
                kept.push(b.clone());
                assert(ballot_views(kept@) =~= ballot_views(before).push(b@));
            }
            j = j + 1;
        }
        assert(s.take(n as int) =~= s);
        let ghost before = kept@;
        let ghost new_ballot = BallotView { index: vote@.index, from: from@, to: vote@.to };
        kept.push(Ballot { index: vote.index, from, to: vote.to });
        assert(ballot_views(kept@) =~= ballot_views(before).push(new_ballot));
        self.votes = kept;
        proof {
            lemma_vote_keeps_one_ballot_per_voter(s, from@, vote@);
        }
    }

    /// Drops the ballots for blocks the chain already holds.
    pub fn remove_deprecated_votes(&mut self)
        requires
            old(self).wf(),
        ensures
            final(self).wf(),
            final(self)@ == (NodeView {
                ballots: not_deprecated(old(self)@.ballots, old(self)@.chain.len()),
                ..old(self)@
            }),
    {
        let current_index = self.blockchain.len();
        let ghost s = self@.ballots;
        let n = self.votes.len();
        let mut kept: Vec<Ballot> = Vec::new();
        let mut j: usize = 0;
        assert(s.take(0) =~= Seq::<BallotView>::empty());
        assert(ballot_views(kept@) =~= Seq::<BallotView>::empty());
        while j < n
            invariant
                n == s.len(),
                s == ballot_views(self.votes@),
                current_index == self@.chain.len(),
                j <= n,
                ballot_views(kept@) == not_deprecated(s.take(j as int), current_index as nat),
            decreases n - j,
        {
            let b = &self.votes[j];
            assert(s[j as int] == b@);
            proof {
                lemma_filter_take_step(s, |b: BallotView| b.index >= current_index as nat, j as int);
            }
            if b.index >= current_index {
                let ghost before = kept@;
                kept.push(b.clone());
                assert(ballot_views(kept@) =~= ballot_views(before).push(b@));
            }
            j = j + 1;
        }
        assert(s.take(n as int) =~= s);
        self.votes = kept;
        proof {
            lemma_filter_keeps_one_ballot_per_voter(
                s,
                |b: BallotView| b.index >= current_index as nat,
            );
        }
    }

    /// Enough validators are known and enough of them voted for the next
    /// block.
    pub fn has_quorum(&self) -> (r: bool)
        requires
            self.wf(),
        ensures
            r == quorum(
                self@.validators.len(),
                votes_at(self@.ballots, self@.next_index()).len(),
            ),
    {
        let validator_count = self.validators.len();
        let current_votes = self.count_votes_at(self.blockchain.len());
        validator_count >= MIN_VALIDATORS && (current_votes as u128) * (MIN_VOTE_DENOMINATOR as u128)
            >= (validator_count as u128) * (MIN_VOTE_NUMERATOR as u128)
    }

    /// The winner of the election for the next block, if anyone voted.
    pub fn choose_validator(&self) -> (r: Option<PeerId>)
        requires
            self.wf(),
        ensures
            r is None <==> votes_at(self@.ballots, self@.next_index()).len() == 0,
            r matches Some(p) ==> elected(self@.ballots, self@.next_index(), p@),
    {
        let current_index = self.blockchain.len();
        let ghost s = self@.ballots;
        let ghost cur = self@.next_index();
        let n = self.votes.len();
        let mut best: Option<(usize, usize)> = None;
        let mut k: usize = 0;
        while k < n
            invariant
                n == s.len(),
                s == ballot_views(self.votes@),
                current_index == cur,
                k <= n,
                best is None ==> forall|j: int| 0 <= j < k ==> (#[trigger] s[j]).index != cur,
                best matches Some(b) ==> {
                    &&& b.1 < k
                    &&& s[b.1 as int].index == cur
                    &&& b.0 == tally(s, cur, s[b.1 as int].to)
                    &&& forall|j: int|
                        0 <= j < k && (#[trigger] s[j]).index == cur ==> dominates(
                            s,
                            cur,
                            s[b.1 as int].to,
                            s[j].to,
                        )
                },
            decreases n - k,
        {
            let ballot = &self.votes[k];
            assert(s[k as int] == ballot@);
            if ballot.index == current_index {
                let c = self.count_votes_for(current_index, &ballot.to);
                match best {
                    None => {
                        best = Some((c, k));
                    },
                    Some((bc, bk)) => {
                        let ghost old_best = s[bk as int].to;
                        let ghost new_to = s[k as int].to;
                        assert(s[bk as int] == self.votes@[bk as int]@);
                        if c > bc || (c == bc && self.votes[bk].to.ranks_below(&ballot.to)) {
                            proof {
                                assert forall|j: int|
                                    0 <= j < k + 1 && (#[trigger] s[j]).index == cur implies dominates(
                                    s,
                                    cur,
                                    new_to,
                                    s[j].to,
                                ) by {
                                    if j < k {
                                        assert(dominates(s, cur, old_best, s[j].to));
                                        if c == bc && peer_lt(s[j].to, old_best) {
                                            lemma_peer_lt_transitive(s[j].to, old_best, new_to);
                                        }
                                    }
                                }
                            }
                            best = Some((c, k));
                        } else {
                            proof {
                                lemma_peer_lt_total(old_best, new_to);
                            }
                        }
                    },
                }
            }
            k = k + 1;
        }
        match best {
            None => {
                proof {
                    if votes_at(s, cur).len() > 0 {
                        let f = votes_at(s, cur);
                        let pred = |b: BallotView| b.index == cur;
                        assert(pred(f[0]));
                        assert(f.contains(f[0]));
                        s.lemma_filter_contains_rev(pred, f[0]);
                    }
                }
                None
            },
            Some((bc, bk)) => {
                let winner = self.votes[bk].to.clone();
                proof {
                    let w = s[bk as int].to;
                    assert(s[bk as int] == self.votes@[bk as int]@);
                    let wpred = |b: BallotView| b.index == cur && b.to == w;
                    assert(wpred(s[bk as int]));
                    assert(s.filter(wpred).contains(s[bk as int]));
                    assert(tally(s, cur, w) > 0);
                    let cpred = |b: BallotView| b.index == cur;
                    assert(cpred(s[bk as int]));
                    assert(s.filter(cpred).contains(s[bk as int]));
                    assert forall|other: Seq<u8>|
                        #![trigger tally(s, cur, other)]
                        tally(s, cur, other) <= tally(s, cur, w) && (tally(s, cur, other) == tally(
                            s,
                            cur,
                            w,
                        ) && other != w ==> peer_lt(other, w)) by {
                        if tally(s, cur, other) > 0 {
                            let opred = |b: BallotView| b.index == cur && b.to == other;
                            let f = s.filter(opred);
                            assert(opred(f[0]));
                            assert(f.contains(f[0]));
                            s.lemma_filter_contains_rev(opred, f[0]);
                            let j = choose|j: int| 0 <= j < s.len() && s[j] == f[0];
                            assert(s[j].index == cur);
                            assert(dominates(s, cur, w, s[j].to));
                        }
                    }
                }
                Some(winner)
            },
        }
    }
}

/// `rand::rngs::ThreadRng`, carried through unchanged.
#[verifier::external_type_specification]
#[verifier::external_body]
pub struct ExThreadRng(ThreadRng);

/// Calls `rand::thread_rng`: the thread's random number generator, about
/// which nothing is said.
#[verifier::external_body]
fn thread_random_generator() -> (rng: ThreadRng) {
    rand::thread_rng()
}

/// Calls `Rng::gen_range(0..n)`: an index drawn at random below `n` (the
/// range is never empty, as `requires` asks; an empty one would panic).
#[verifier::external_body]
fn random_index_below(rng: &mut ThreadRng, n: usize) -> (r: usize)
    requires
        n > 0,
    ensures
        r < n,
{
    rng.gen_range(0..n)
}

} // verus!
