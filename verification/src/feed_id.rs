//! Feed identifiers and their byte-wise order.

use mem_cmp::MemOrd;
use std::cmp::Ordering;
use vstd::prelude::*;

verus! {

/// An opaque 32-byte identifier of a feed. Every 32-byte value is valid.
#[derive(Debug, Clone, Copy)]
pub struct FeedId(pub [u8; 32]);

impl View for FeedId {
    type V = Seq<u8>;

    open spec fn view(&self) -> Seq<u8> {
        self.0@
    }
}

/// `a` and `b` hold the same byte at every position before `i`.
pub open spec fn agree_before(a: Seq<u8>, b: Seq<u8>, i: int) -> bool {
    forall|j: int| 0 <= j < i ==> a[j] == b[j]
}

/// The byte-wise order, most significant byte first: `a` comes before `b`
/// when the first position at which they differ holds the smaller byte in `a`.
pub open spec fn lex_lt(a: Seq<u8>, b: Seq<u8>) -> bool {
    exists|i: int|
        0 <= i < a.len() && i < b.len() && #[trigger] agree_before(a, b, i) && a[i] < b[i]
}

/// `a` does not come after `b` in the byte-wise order.
pub open spec fn lex_le(a: Seq<u8>, b: Seq<u8>) -> bool {
    a == b || lex_lt(a, b)
}

/// The three-way outcome of comparing `a` with `b` byte by byte.
pub open spec fn byte_order(a: Seq<u8>, b: Seq<u8>) -> Ordering {
    if lex_lt(a, b) {
        Ordering::Less
    } else if lex_lt(b, a) {
        Ordering::Greater
    } else {
        Ordering::Equal
    }
}

/// The order on identifiers as a relation: the first does not come after
/// the second.
pub open spec fn feed_order() -> spec_fn(FeedId, FeedId) -> bool {
    |a: FeedId, b: FeedId| lex_le(a@, b@)
}

/// Calls `MemOrd::mem_cmp` of the `mem_cmp` crate on two 32-byte arrays.
/// For operands of this size that method hands both to the C library's
/// `memcmp` over all 32 bytes and turns the sign of its result into an
/// ordering: the contract states that this is the byte-wise order, decided by
/// the first position at which the arrays differ, bytes read as unsigned.
#[verifier::external_body]
fn memory_order(a: &[u8; 32], b: &[u8; 32]) -> (r: Ordering)
    ensures
        r == byte_order(a@, b@),
{
    a.mem_cmp(b)
}

impl FeedId {
    /// Number of bytes in an identifier.
    pub const LENGTH: usize = 32;

    /// The raw bytes of the identifier, as they go on the wire.
    pub fn encode(&self) -> (bytes: [u8; 32])
        ensures
            bytes == self.0,
            bytes@ == self@,
    {
        self.0
    }

    /// Compares two identifiers byte by byte, most significant byte first.
    pub fn cmp(&self, other: &FeedId) -> (r: Ordering)
        ensures
            r == byte_order(self@, other@),
            r == Ordering::Equal <==> *self == *other,
    {
        proof {
            lemma_lex_lt_irreflexive(self@);
            if self@ != other@ {
                lemma_lex_lt_connected(self@, other@);
            } else {
                lemma_same_bytes_same_id(*self, *other);
            }
        }
        memory_order(&self.0, &other.0)
    }
}

/// Whether two 32-byte arrays hold the same bytes.
pub fn same_bytes(a: &[u8; 32], b: &[u8; 32]) -> (same: bool)
    ensures
        same == (a@ == b@),
        same == (*a == *b),
{
    let mut i: usize = 0;
    while i < 32
        invariant
            i <= 32,
            forall|j: int| 0 <= j < i ==> a@[j] == b@[j],
        decreases 32 - i,
    {
        if a[i] != b[i] {
            return false;
        }
        i += 1;
    }
    assert(a@ =~= b@);
    assert(*a =~= *b);
    true
}

impl PartialEq for FeedId {
    /// Identifiers are equal when all their bytes are.
    fn eq(&self, other: &FeedId) -> (r: bool) {
        same_bytes(&self.0, &other.0)
    }
}

impl Eq for FeedId {

}

impl vstd::std_specs::cmp::PartialEqSpecImpl for FeedId {
    open spec fn obeys_eq_spec() -> bool {
        true
    }

    open spec fn eq_spec(&self, other: &FeedId) -> bool {
        *self == *other
    }
}

impl PartialOrd for FeedId {
    /// The byte-wise order; any two identifiers are comparable.
    fn partial_cmp(&self, other: &FeedId) -> (r: Option<Ordering>) {
        Some(self.cmp(other))
    }
}

impl vstd::std_specs::cmp::PartialOrdSpecImpl for FeedId {
    open spec fn obeys_partial_cmp_spec() -> bool {
        true
    }

    open spec fn partial_cmp_spec(&self, other: &FeedId) -> Option<Ordering> {
        Some(byte_order(self@, other@))
    }
}

/// Identifiers with the same bytes are the same identifier.
pub proof fn lemma_same_bytes_same_id(a: FeedId, b: FeedId)
    requires
        a@ == b@,
    ensures
        a == b,
{
    assert(a.0 =~= b.0);
}

/// No byte string comes before itself.
pub proof fn lemma_lex_lt_irreflexive(a: Seq<u8>)
    ensures
        !lex_lt(a, a),
{
}

/// Of two byte strings at most one comes before the other.
pub proof fn lemma_lex_lt_asymmetric(a: Seq<u8>, b: Seq<u8>)
    ensures
        !(lex_lt(a, b) && lex_lt(b, a)),
{
    if lex_lt(a, b) && lex_lt(b, a) {
        let i = choose|i: int|
            0 <= i < a.len() && i < b.len() && #[trigger] agree_before(a, b, i) && a[i] < b[i];
        let k = choose|k: int|
            0 <= k < b.len() && k < a.len() && #[trigger] agree_before(b, a, k) && b[k] < a[k];
        if i < k {
            assert(b[i] == a[i]);
        } else if k < i {
            assert(a[k] == b[k]);
        }
    }
}

/// The byte-wise order is transitive.
pub proof fn lemma_lex_lt_transitive(a: Seq<u8>, b: Seq<u8>, c: Seq<u8>)
    requires
        lex_lt(a, b),
        lex_lt(b, c),
    ensures
        lex_lt(a, c),
{
    let i = choose|i: int|
        0 <= i < a.len() && i < b.len() && #[trigger] agree_before(a, b, i) && a[i] < b[i];
    let k = choose|k: int|
        0 <= k < b.len() && k < c.len() && #[trigger] agree_before(b, c, k) && b[k] < c[k];
    let m = if i <= k { i } else { k };
    assert(agree_before(a, c, m)) by {
        assert forall|j: int| 0 <= j < m implies a[j] == c[j] by {
            assert(a[j] == b[j]);
            assert(b[j] == c[j]);
        }
    }
    if i < k {
        assert(b[i] == c[i]);
    } else if k < i {
        assert(a[k] == b[k]);
    }
    assert(a[m] < c[m]);
}

/// Two different byte strings of one length are ordered one way or the other.
pub proof fn lemma_lex_lt_connected(a: Seq<u8>, b: Seq<u8>)
    requires
        a.len() == b.len(),
        a != b,
    ensures
        lex_lt(a, b) || lex_lt(b, a),
{
    let i = first_difference(a, b, 0);
    lemma_first_difference(a, b, 0);
    assert(agree_before(a, b, i));
    assert(agree_before(b, a, i));
}

/// Of two byte strings of one length, the first comes before the second,
/// or is the second, or comes after it.
pub proof fn lemma_lex_le_total(a: Seq<u8>, b: Seq<u8>)
    requires
        a.len() == b.len(),
    ensures
        lex_le(a, b) || lex_lt(b, a),
{
    if a != b {
        lemma_lex_lt_connected(a, b);
    }
}

/// The order stays transitive when one of the two steps may be an equality.
pub proof fn lemma_lex_le_transitive(a: Seq<u8>, b: Seq<u8>, c: Seq<u8>)
    requires
        lex_le(a, b),
        lex_le(b, c),
    ensures
        lex_le(a, c),
        lex_lt(a, b) || lex_lt(b, c) ==> lex_lt(a, c),
{
    if lex_lt(a, b) && lex_lt(b, c) {
        lemma_lex_lt_transitive(a, b, c);
    }
}

/// The byte-wise order is a total order on identifiers: reflexive,
/// antisymmetric, transitive, and any two identifiers are comparable.
pub proof fn lemma_feed_order_total()
    ensures
        vstd::relations::total_ordering(feed_order()),
{
    let leq = feed_order();
    assert forall|a: FeedId, b: FeedId| #[trigger] leq(a, b) && #[trigger] leq(b, a) implies a
        == b by {
        lemma_lex_lt_asymmetric(a@, b@);
        lemma_same_bytes_same_id(a, b);
    }
    assert forall|a: FeedId, b: FeedId, c: FeedId| #[trigger] leq(a, b) && #[trigger] leq(
        b,
        c,
    ) implies leq(a, c) by {
        lemma_lex_le_transitive(a@, b@, c@);
    }
    assert forall|a: FeedId, b: FeedId| #[trigger] leq(a, b) || #[trigger] leq(b, a) by {
        lemma_lex_le_total(a@, b@);
    }
}

/// The first position at or after `from` at which `a` and `b` differ, or
/// their common length when there is none.
spec fn first_difference(a: Seq<u8>, b: Seq<u8>, from: int) -> int
    decreases a.len() - from,
{
    if from < 0 || from >= a.len() || a[from] != b[from] {
        from
    } else {
        first_difference(a, b, from + 1)
    }
}

proof fn lemma_first_difference(a: Seq<u8>, b: Seq<u8>, from: int)
    requires
        a.len() == b.len(),
        0 <= from <= a.len(),
        agree_before(a, b, from),
        a != b,
    ensures
        from <= first_difference(a, b, from) < a.len(),
        agree_before(a, b, first_difference(a, b, from)),
        a[first_difference(a, b, from)] != b[first_difference(a, b, from)],
    decreases a.len() - from,
{
    if from >= a.len() {
        assert(a =~= b);
    } else if a[from] == b[from] {
        assert(agree_before(a, b, from + 1));
        lemma_first_difference(a, b, from + 1);
    }
}

} // verus!
