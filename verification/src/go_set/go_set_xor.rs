//! The XOR digest of a collection of feed identifiers.

use crate::feed_id::{same_bytes, FeedId};
use vstd::prelude::*;
#[allow(unused_imports)]
use vstd::seq_lib::{commutative_foldl, lemma_fold_left_permutation};

verus! {

/// The digest of a set: the bytes of all its members XORed together,
/// position by position.
#[derive(Debug, Clone, Copy)]
pub struct GOSetXor(pub [u8; 32]);

impl View for GOSetXor {
    type V = Seq<u8>;

    open spec fn view(&self) -> Seq<u8> {
        self.0@
    }
}

/// The digest of no members: 32 zero bytes.
pub open spec fn zero_digest() -> Seq<u8> {
    Seq::new(32, |i: int| 0u8)
}

/// `acc` with the bytes of `b` XORed in, position by position.
pub open spec fn xor_bytes(acc: Seq<u8>, b: Seq<u8>) -> Seq<u8> {
    Seq::new(acc.len(), |i: int| acc[i] ^ b[i])
}

/// The digest of `ids`: starting from zero, every identifier XORed in.
pub open spec fn xor_fold(ids: Seq<FeedId>) -> Seq<u8>
    decreases ids.len(),
{
    if ids.len() == 0 {
        zero_digest()
    } else {
        xor_bytes(xor_fold(ids.drop_last()), ids.last()@)
    }
}

/// The identifiers of `ids` other than `id`, in their order.
pub open spec fn without(ids: Seq<FeedId>, id: FeedId) -> Seq<FeedId> {
    ids.filter(|other: FeedId| other != id)
}

/// XORing two byte strings in, one after the other, gives the same in
/// either order.
pub proof fn lemma_xor_bytes_commutes(acc: Seq<u8>, a: Seq<u8>, b: Seq<u8>)
    ensures
        xor_bytes(xor_bytes(acc, a), b) == xor_bytes(xor_bytes(acc, b), a),
{
    assert forall|i: int| 0 <= i < acc.len() implies (acc[i] ^ a[i]) ^ b[i] == (acc[i] ^ b[i])
        ^ a[i] by {
        let (p, q, r) = (acc[i], a[i], b[i]);
        assert((p ^ q) ^ r == (p ^ r) ^ q) by (bit_vector);
    }
    assert(xor_bytes(xor_bytes(acc, a), b) =~= xor_bytes(xor_bytes(acc, b), a));
}

/// XORing the same byte string in twice changes nothing.
pub proof fn lemma_xor_bytes_cancels(acc: Seq<u8>, a: Seq<u8>)
    ensures
        xor_bytes(xor_bytes(acc, a), a) == acc,
{
    assert forall|i: int| 0 <= i < acc.len() implies (acc[i] ^ a[i]) ^ a[i] == acc[i] by {
        let (p, q) = (acc[i], a[i]);
        assert((p ^ q) ^ q == p) by (bit_vector);
    }
    assert(xor_bytes(xor_bytes(acc, a), a) =~= acc);
}

spec fn xor_step() -> spec_fn(Seq<u8>, FeedId) -> Seq<u8> {
    |acc: Seq<u8>, id: FeedId| xor_bytes(acc, id@)
}

proof fn lemma_xor_fold_is_fold_left(ids: Seq<FeedId>)
    ensures
        xor_fold(ids) == ids.fold_left(zero_digest(), xor_step()),
    decreases ids.len(),
{
    if ids.len() > 0 {
        lemma_xor_fold_is_fold_left(ids.drop_last());
    }
}

/// The digest does not depend on the order of the identifiers: two
/// sequences that hold the same identifiers the same number of times have
/// the same digest.
pub proof fn lemma_xor_fold_ignores_order(a: Seq<FeedId>, b: Seq<FeedId>)
    requires
        a.to_multiset() == b.to_multiset(),
    ensures
        xor_fold(a) == xor_fold(b),
{
    assert(commutative_foldl(xor_step())) by {
        assert forall|x: FeedId, y: FeedId, v: Seq<u8>| #[trigger]
            xor_step()(xor_step()(v, x), y) == xor_step()(xor_step()(v, y), x) by {
            lemma_xor_bytes_commutes(v, x@, y@);
        }
    }
    lemma_fold_left_permutation(a, b, xor_step(), zero_digest());
    lemma_xor_fold_is_fold_left(a);
    lemma_xor_fold_is_fold_left(b);
}

/// What the copies of one identifier contribute to a digest: nothing when
/// their number is even, the identifier itself when it is odd.
pub proof fn lemma_xor_fold_copies(ids: Seq<FeedId>, id: FeedId)
    ensures
        ids.to_multiset().count(id) % 2 == 0 ==> xor_fold(ids) == xor_fold(without(ids, id)),
        ids.to_multiset().count(id) % 2 == 1 ==> xor_fold(ids) == xor_bytes(
            xor_fold(without(ids, id)),
            id@,
        ),
    decreases ids.len(),
{
    broadcast use vstd::seq_lib::group_to_multiset_ensures;

    if ids.len() == 0 {
        assert(ids.to_multiset().count(id) == 0);
    } else {
        let init = ids.drop_last();
        let last = ids.last();
        let rest = xor_fold(without(init, id));
        lemma_xor_fold_copies(init, id);
        reveal(Seq::filter);
        assert(ids =~= init.push(last));
        assert(init.push(last).to_multiset() =~= init.to_multiset().insert(last));
        if last == id {
            assert(without(ids, id) == without(init, id));
            lemma_xor_bytes_cancels(rest, id@);
        } else {
            assert(without(ids, id) == without(init, id).push(last));
            assert(without(init, id).push(last).drop_last() =~= without(init, id));
            lemma_xor_bytes_commutes(rest, id@, last@);
        }
    }
}

impl GOSetXor {
    /// Number of bytes in a digest.
    pub const LENGTH: usize = 32;

    /// The raw bytes of the digest, as they go on the wire.
    pub fn encode(&self) -> (bytes: [u8; 32])
        ensures
            bytes == self.0,
            bytes@ == self@,
    {
        self.0
    }
}

impl PartialEq for GOSetXor {
    /// Digests are equal when all their bytes are.
    fn eq(&self, other: &GOSetXor) -> (r: bool) {
        same_bytes(&self.0, &other.0)
    }
}

impl Eq for GOSetXor {

}

impl vstd::std_specs::cmp::PartialEqSpecImpl for GOSetXor {
    open spec fn obeys_eq_spec() -> bool {
        true
    }

    open spec fn eq_spec(&self, other: &GOSetXor) -> bool {
        *self == *other
    }
}

} // verus!
