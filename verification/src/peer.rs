//! Peer identities and the order in which they are ranked.

use vstd::prelude::*;

use crate::blockchain::bytes_equal;

verus! {

/// Strict lexicographic order on byte strings: the order in which peers are
/// ranked when their vote counts tie.
pub open spec fn peer_lt(a: Seq<u8>, b: Seq<u8>) -> bool
    decreases a.len(),
{
    if a.len() == 0 {
        b.len() > 0
    } else if b.len() == 0 {
        false
    } else if a[0] != b[0] {
        a[0] < b[0]
    } else {
        peer_lt(a.drop_first(), b.drop_first())
    }
}

/// No byte string is below itself.
pub proof fn lemma_peer_lt_irreflexive(a: Seq<u8>)
    ensures
        !peer_lt(a, a),
    decreases a.len(),
{
    if a.len() > 0 {
        lemma_peer_lt_irreflexive(a.drop_first());
    }
}

/// Of two different byte strings exactly one is below the other.
pub proof fn lemma_peer_lt_total(a: Seq<u8>, b: Seq<u8>)
    ensures
        a != b ==> (peer_lt(a, b) || peer_lt(b, a)),
        !(peer_lt(a, b) && peer_lt(b, a)),
    decreases a.len(),
{
    if a.len() > 0 && b.len() > 0 && a[0] == b[0] {
        lemma_peer_lt_total(a.drop_first(), b.drop_first());
        if a != b {
            assert(a =~= seq![a[0]] + a.drop_first());
            assert(b =~= seq![b[0]] + b.drop_first());
        }
    } else if a.len() == 0 && b.len() == 0 {
        assert(a =~= b);
    }
}

/// The order is transitive.
pub proof fn lemma_peer_lt_transitive(a: Seq<u8>, b: Seq<u8>, c: Seq<u8>)
    requires
        peer_lt(a, b),
        peer_lt(b, c),
    ensures
        peer_lt(a, c),
    decreases a.len(),
{
    if a.len() > 0 && b.len() > 0 && c.len() > 0 && a[0] == b[0] && b[0] == c[0] {
        lemma_peer_lt_transitive(a.drop_first(), b.drop_first(), c.drop_first());
    }
}

/// The identity of a peer: the bytes that name it, ordered lexicographically.
#[derive(Debug)]
pub struct PeerId {
    bytes: Vec<u8>,
}

impl View for PeerId {
    type V = Seq<u8>;

    closed spec fn view(&self) -> Seq<u8> {
        self.bytes@
    }
}

impl Clone for PeerId {
    fn clone(&self) -> (r: Self)
        ensures
            r@ == self@,
    {
        PeerId { bytes: crate::block::copy_bytes(&self.bytes) }
    }
}

impl PeerId {
    pub fn from_bytes(bytes: Vec<u8>) -> (p: PeerId)
        ensures
            p@ == bytes@,
    {
        PeerId { bytes }
    }

    pub fn as_bytes(&self) -> (b: &[u8])
        ensures
            b@ == self@,
    {
        self.bytes.as_slice()
    }

    /// Whether both name the same peer.
    pub fn same_as(&self, other: &PeerId) -> (r: bool)
        ensures
            r == (self@ == other@),
    {
        bytes_equal(self.bytes.as_slice(), other.bytes.as_slice())
    }

    /// Whether `self` ranks below `other`.
    pub fn ranks_below(&self, other: &PeerId) -> (r: bool)
        ensures
            r == peer_lt(self@, other@),
    {
        let a = self.bytes.as_slice();
        let b = other.bytes.as_slice();
        let mut i: usize = 0;
        assert(a@.skip(0) =~= a@);
        assert(b@.skip(0) =~= b@);
        while i < a.len() && i < b.len()
            invariant
                a@ == self@,
                b@ == other@,
                i <= a@.len(),
                i <= b@.len(),
                peer_lt(a@, b@) == peer_lt(a@.skip(i as int), b@.skip(i as int)),
            decreases a@.len() - i,
        {
            assert(a@.skip(i as int)[0] == a@[i as int]);
            assert(b@.skip(i as int)[0] == b@[i as int]);
            if a[i] != b[i] {
                return a[i] < b[i];
            }
            assert(a@.skip(i as int).drop_first() =~= a@.skip(i + 1));
            assert(b@.skip(i as int).drop_first() =~= b@.skip(i + 1));
            i = i + 1;
        }
        a.len() < b.len()
    }
}


} // verus!
