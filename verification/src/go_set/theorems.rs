//! What holds of sets, digests and claims together.

#[allow(unused_imports)]
use crate::feed_id::{feed_order, lemma_feed_order_total, FeedId};
#[allow(unused_imports)]
use crate::go_set::go_set_claim::{theorem_claim_round_trip, wire_error, GOSetClaim};
#[allow(unused_imports)]
use crate::go_set::go_set_xor::{
    lemma_xor_fold_copies, lemma_xor_fold_ignores_order, without, xor_fold,
};
#[allow(unused_imports)]
use crate::go_set::{ascending, GOSet};
use vstd::prelude::*;
#[allow(unused_imports)]
use vstd::std_specs::cmp::PartialEqSpec;

verus! {

/// There is one way only to list given identifiers in ascending order.
pub proof fn lemma_ascending_unique(a: Seq<FeedId>, b: Seq<FeedId>)
    requires
        ascending(a),
        ascending(b),
        a.to_multiset() == b.to_multiset(),
    ensures
        a == b,
{
    lemma_feed_order_total();
    assert(vstd::relations::sorted_by(a, feed_order()));
    assert(vstd::relations::sorted_by(b, feed_order()));
    vstd::seq_lib::lemma_sorted_unique(a, b, feed_order());
}

/// Order independence: sets built from the same identifiers given in any
/// two orders list the same members, and so agree in count, digest, lowest
/// and highest member. The digest is that of the identifiers as given.
pub proof fn theorem_order_independence(a: Seq<FeedId>, b: Seq<FeedId>, of_a: GOSet, of_b: GOSet)
    requires
        a.to_multiset() == b.to_multiset(),
        of_a.holds(a),
        of_b.holds(b),
    ensures
        of_a@ == of_b@,
        of_a@.len() == of_b@.len() == a.len(),
        xor_fold(of_a@) == xor_fold(of_b@),
        xor_fold(of_a@) == xor_fold(a),
        of_a@.len() > 0 ==> of_a@.first() == of_b@.first() && of_a@.last() == of_b@.last(),
{
    vstd::seq_lib::to_multiset_len(of_a@);
    vstd::seq_lib::to_multiset_len(a);
    lemma_ascending_unique(of_a@, of_b@);
    lemma_xor_fold_ignores_order(of_a@, a);
}

/// XOR cancellation: where an identifier is given an even number of times,
/// the set has the digest of the set built without that identifier.
pub proof fn theorem_even_copies_cancel(
    members: Seq<FeedId>,
    id: FeedId,
    with_copies: GOSet,
    without_copies: GOSet,
)
    requires
        members.to_multiset().count(id) % 2 == 0,
        with_copies.holds(members),
        without_copies.holds(without(members, id)),
    ensures
        xor_fold(with_copies@) == xor_fold(without_copies@),
{
    lemma_xor_fold_ignores_order(with_copies@, members);
    lemma_xor_fold_ignores_order(without_copies@, without(members, id));
    lemma_xor_fold_copies(members, id);
}

/// Round trip of a set's claim: for a set built from `members`, the claim
/// read back from the encoding of its claim is the claim of every set built
/// from the same members, field by field.
pub proof fn theorem_set_claim_round_trip(
    members: Seq<FeedId>,
    set: GOSet,
    claim: GOSetClaim,
    decoded: GOSetClaim,
    fresh_set: GOSet,
    fresh: GOSetClaim,
)
    requires
        set.holds(members),
        set.matches_claim(&claim),
        decoded.wire() == claim.wire(),
        fresh_set.holds(members),
        fresh_set.matches_claim(&fresh),
    ensures
        wire_error(claim.wire()) is None,
        decoded.lowest_feed_id == fresh.lowest_feed_id,
        decoded.highest_feed_id == fresh.highest_feed_id,
        decoded.xor == fresh.xor,
        decoded.count == fresh.count,
{
    theorem_claim_round_trip(claim, decoded);
    lemma_ascending_unique(set@, fresh_set@);
    assert(decoded.xor.0 =~= fresh.xor.0);
}

/// The bytes that `encode_go_set` gives for a set are the encoding of the
/// set's claim.
pub proof fn lemma_wire_of_claim(set: GOSet, claim: GOSetClaim)
    requires
        set.matches_claim(&claim),
    ensures
        claim.wire() == GOSetClaim::wire_of(set@),
{
}

/// A set equals the claim read back from the encoding of its own claim, and
/// the comparison says the same whichever side the set stands on.
pub proof fn theorem_set_equals_decoded_claim(set: GOSet, claim: GOSetClaim, decoded: GOSetClaim)
    requires
        set.matches_claim(&claim),
        decoded.wire() == claim.wire(),
    ensures
        set.eq_spec(&decoded),
        decoded.eq_spec(&set),
{
    theorem_claim_round_trip(claim, decoded);
}

/// Comparing a set with a claim and the claim with the set is one relation.
pub proof fn theorem_equality_symmetric(set: GOSet, claim: GOSetClaim)
    ensures
        set.eq_spec(&claim) == claim.eq_spec(&set),
{
}

/// A claim never equals two sets of different sizes.
pub proof fn theorem_claim_tells_sizes_apart(a: GOSet, b: GOSet, claim: GOSetClaim)
    requires
        a.eq_spec(&claim),
        a@.len() != b@.len(),
    ensures
        !b.eq_spec(&claim),
{
}

} // verus!
