//! Vote bookkeeping and the rule that elects the producer of the next block.

use vstd::prelude::*;

use crate::filter::{
    lemma_filter_filter, lemma_filter_keeps_pairwise_unrelated, lemma_filter_none,
    lemma_filter_of_filter, lemma_filter_push,
};
use crate::p2p::VoteView;
use crate::peer::{lemma_peer_lt_total, peer_lt, PeerId};

verus! {

broadcast use vstd::seq_lib::group_filter_ensures;

/// The minimum number of validators to vote for a validator. If less than
/// this validator no new block will be created.
pub const MIN_VALIDATORS: usize = 3;

/// An election is valid when at least `MIN_VOTE_NUMERATOR /
/// MIN_VOTE_DENOMINATOR` (75%) of the validators have voted.
pub const MIN_VOTE_NUMERATOR: usize = 3;

/// See [`MIN_VOTE_NUMERATOR`].
pub const MIN_VOTE_DENOMINATOR: usize = 4;

/// A recorded vote: `from` votes for `to` to produce the block at `index`.
pub struct BallotView {
    pub index: usize,
    pub from: Seq<u8>,
    pub to: Seq<u8>,
}

/// A vote as the node records it, with its voter.
#[derive(Debug)]
pub struct Ballot {
    pub index: usize,
    pub from: PeerId,
    pub to: PeerId,
}

impl View for Ballot {
    type V = BallotView;

    open spec fn view(&self) -> BallotView {
        BallotView { index: self.index, from: self.from@, to: self.to@ }
    }
}

impl Clone for Ballot {
    fn clone(&self) -> (r: Self)
        ensures
            r@ == self@,
    {
        Ballot { index: self.index, from: self.from.clone(), to: self.to.clone() }
    }
}

/// The abstract contents of a vector of ballots.
pub open spec fn ballot_views(v: Seq<Ballot>) -> Seq<BallotView> {
    v.map_values(|b: Ballot| b@)
}

/// Both ballots come from the same voter for the same block.
pub open spec fn same_voter(a: BallotView, b: BallotView) -> bool {
    a.index == b.index && a.from == b.from
}

/// Each voter has at most one ballot for each block index.
pub open spec fn one_ballot_per_voter(s: Seq<BallotView>) -> bool {
    forall|i: int, j: int|
        0 <= i < s.len() && 0 <= j < s.len() && i != j ==> !same_voter(#[trigger] s[i], #[trigger] s[j])
}

/// The ballots cast for the block at `index`.
pub open spec fn votes_at(s: Seq<BallotView>, index: usize) -> Seq<BallotView> {
    s.filter(|b: BallotView| b.index == index)
}

/// The number of ballots for `candidate` to produce the block at `index`.
pub open spec fn tally(s: Seq<BallotView>, index: usize, candidate: Seq<u8>) -> nat {
    s.filter(|b: BallotView| b.index == index && b.to == candidate).len()
}

/// The ballots other than the one `from` cast for the block at `index`.
pub open spec fn without_voter(s: Seq<BallotView>, index: usize, from: Seq<u8>) -> Seq<BallotView> {
    s.filter(|b: BallotView| !(b.index == index && b.from == from))
}

/// The ballots after `from` casts `vote`: any earlier ballot of `from` for
/// the same index is replaced.
pub open spec fn after_vote(s: Seq<BallotView>, from: Seq<u8>, vote: VoteView) -> Seq<BallotView> {
    without_voter(s, vote.index, from).push(BallotView { index: vote.index, from, to: vote.to })
}

/// The ballots that remain once those for blocks below `next_index` are
/// dropped.
pub open spec fn not_deprecated(s: Seq<BallotView>, next_index: nat) -> Seq<BallotView> {
    s.filter(|b: BallotView| b.index >= next_index)
}

/// At least `MIN_VALIDATORS` validators, and at least 75% of them voted.
pub open spec fn quorum(validator_count: nat, vote_count: nat) -> bool {
    &&& validator_count >= MIN_VALIDATORS
    &&& vote_count * MIN_VOTE_DENOMINATOR >= validator_count * MIN_VOTE_NUMERATOR
}

/// `candidate` wins the election for the block at `index`: it has votes, no
/// peer has more, and it ranks above every other peer with as many.
pub open spec fn elected(s: Seq<BallotView>, index: usize, candidate: Seq<u8>) -> bool {
    &&& tally(s, index, candidate) > 0
    &&& forall|other: Seq<u8>|
        #![trigger tally(s, index, other)]
        tally(s, index, other) <= tally(s, index, candidate) && (tally(s, index, other) == tally(
            s,
            index,
            candidate,
        ) && other != candidate ==> peer_lt(other, candidate))
}

/// An election has at most one winner.
pub proof fn lemma_elected_unique(s: Seq<BallotView>, index: usize, a: Seq<u8>, b: Seq<u8>)
    requires
        elected(s, index, a),
        elected(s, index, b),
    ensures
        a == b,
{
    assert(tally(s, index, a) == tally(s, index, b));
    lemma_peer_lt_total(a, b);
}

/// Filtering keeps each voter to at most one ballot per index.
pub proof fn lemma_filter_keeps_one_ballot_per_voter(
    s: Seq<BallotView>,
    pred: spec_fn(BallotView) -> bool,
)
    requires
        one_ballot_per_voter(s),
    ensures
        one_ballot_per_voter(s.filter(pred)),
{
    let rel = |a: BallotView, b: BallotView| same_voter(a, b);
    lemma_filter_keeps_pairwise_unrelated(s, rel, pred);
    let f = s.filter(pred);
    assert forall|i: int, j: int| 0 <= i < f.len() && 0 <= j < f.len() && i != j implies !same_voter(
        #[trigger] f[i],
        #[trigger] f[j],
    ) by {
        assert(!rel(f[i], f[j]));
    }
}

/// Casting a vote keeps each voter to at most one ballot per index.
pub proof fn lemma_vote_keeps_one_ballot_per_voter(
    s: Seq<BallotView>,
    from: Seq<u8>,
    vote: VoteView,
)
    requires
        one_ballot_per_voter(s),
    ensures
        one_ballot_per_voter(after_vote(s, from, vote)),
{
    let pred = |b: BallotView| !(b.index == vote.index && b.from == from);
    lemma_filter_keeps_one_ballot_per_voter(s, pred);
    let f = s.filter(pred);
    assert(f == without_voter(s, vote.index, from));
    let out = after_vote(s, from, vote);
    assert(out == f.push(BallotView { index: vote.index, from, to: vote.to }));
    assert forall|i: int, j: int|
        0 <= i < out.len() && 0 <= j < out.len() && i != j implies !same_voter(
        #[trigger] out[i],
        #[trigger] out[j],
    ) by {
        if i < f.len() && j < f.len() {
            assert(out[i] == f[i] && out[j] == f[j]);
        } else if i < f.len() {
            assert(pred(f[i]));
        } else if j < f.len() {
            assert(pred(f[j]));
        }
    }
}

/// Casting a vote touches only the voter's own ballot for that block: the
/// ballots for every other block stay as they were, the other voters'
/// ballots for that block stay as they were, and the voter is left with
/// exactly one ballot for it, naming the new choice.
pub proof fn lemma_vote_replaces_only_own_ballot(s: Seq<BallotView>, from: Seq<u8>, vote: VoteView)
    ensures
        forall|j: usize|
            j != vote.index ==> #[trigger] votes_at(after_vote(s, from, vote), j) == votes_at(s, j),
        votes_at(after_vote(s, from, vote), vote.index).filter(|b: BallotView| b.from != from)
            == votes_at(s, vote.index).filter(|b: BallotView| b.from != from),
        after_vote(s, from, vote).filter(|b: BallotView| b.index == vote.index && b.from == from)
            == seq![BallotView { index: vote.index, from, to: vote.to }],
{
    let q = |b: BallotView| !(b.index == vote.index && b.from == from);
    let w = s.filter(q);
    let nb = BallotView { index: vote.index, from, to: vote.to };
    let after = after_vote(s, from, vote);
    assert(after == w.push(nb));
    assert forall|j: usize| j != vote.index implies #[trigger] votes_at(after, j) == votes_at(s, j) by {
        let at = |b: BallotView| b.index == j;
        lemma_filter_push(w, at, nb);
        lemma_filter_filter(s, q, at);
        assert((|x: BallotView| q(x) && at(x)) =~= at);
    }
    let at = |b: BallotView| b.index == vote.index;
    let other = |b: BallotView| b.from != from;
    lemma_filter_push(w, at, nb);
    lemma_filter_push(w.filter(at), other, nb);
    lemma_filter_filter(s, q, at);
    let both = |x: BallotView| q(x) && at(x);
    lemma_filter_filter(s, both, other);
    lemma_filter_filter(s, at, other);
    assert((|x: BallotView| both(x) && other(x)) =~= (|x: BallotView| at(x) && other(x)));
    let mine = |b: BallotView| b.index == vote.index && b.from == from;
    lemma_filter_push(w, mine, nb);
    lemma_filter_filter(s, q, mine);
    lemma_filter_none(s, |x: BallotView| q(x) && mine(x));
    assert(seq![nb] =~= Seq::<BallotView>::empty().push(nb));
}

/// `best` is at least as good a choice as `other` in the election for the
/// block at `index`: fewer votes for `other`, or as many and `other` ranks
/// no higher.
pub open spec fn dominates(s: Seq<BallotView>, index: usize, best: Seq<u8>, other: Seq<u8>) -> bool {
    ||| tally(s, index, other) < tally(s, index, best)
    ||| tally(s, index, other) == tally(s, index, best) && (other == best || peer_lt(other, best))
}

/// Dropping the ballots for blocks below the next index leaves the vote
/// count and the tallies for the next block as they were.
pub proof fn lemma_pruning_keeps_next_election(s: Seq<BallotView>, next: usize)
    ensures
        votes_at(not_deprecated(s, next as nat), next) == votes_at(s, next),
        forall|c: Seq<u8>| #[trigger] tally(not_deprecated(s, next as nat), next, c) == tally(s, next, c),
{
    let first = |b: BallotView| b.index >= next as nat;
    lemma_filter_of_filter(s, first, |b: BallotView| b.index == next);
    assert forall|c: Seq<u8>| #[trigger] tally(not_deprecated(s, next as nat), next, c) == tally(s, next, c) by {
        lemma_filter_of_filter(s, first, |b: BallotView| b.index == next && b.to == c);
    }
}

} // verus!
