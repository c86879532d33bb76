//! Sorted sets of feed identifiers and their summaries.

#[allow(unused_imports)]
use crate::feed_id::{lemma_lex_le_total, lemma_lex_le_transitive, lex_le, lex_lt, FeedId};
use crate::Error;
use vstd::prelude::*;

pub mod go_set_claim;
pub mod go_set_xor;
pub mod theorems;

pub use go_set_claim::{GOSetClaim, GOSetClaimError};
pub use go_set_xor::GOSetXor;

#[allow(unused_imports)]
use go_set_xor::{xor_bytes, xor_fold};

verus! {

/// The largest number of members a set can have: what the one-byte count of
/// a claim can hold.
pub const MAX_MEMBERS: usize = 255;

/// No identifier of `ids` comes after a later one.
pub open spec fn ascending(ids: Seq<FeedId>) -> bool {
    forall|i: int, j: int|
        #![trigger ids[i], ids[j]]
        0 <= i < j < ids.len() ==> lex_le(ids[i]@, ids[j]@)
}

/// A collection of feed identifiers kept in ascending order. Identifiers
/// given more than once are kept as often as they were given.
pub struct GOSet {
    feed_ids: Vec<FeedId>,
}

impl View for GOSet {
    type V = Seq<FeedId>;

    /// The members, lowest first.
    closed spec fn view(&self) -> Seq<FeedId> {
        self.feed_ids@
    }
}

impl GOSet {
    /// What holds of every set: at most 255 members, in ascending order.
    #[verifier::type_invariant]
    spec fn well_formed(&self) -> bool {
        &&& self.feed_ids@.len() <= MAX_MEMBERS
        &&& ascending(self.feed_ids@)
    }

    /// The set lists exactly the identifiers of `members`, each as often as
    /// `members` does, in ascending order.
    pub open spec fn holds(&self, members: Seq<FeedId>) -> bool {
        &&& ascending(self@)
        &&& self@.to_multiset() == members.to_multiset()
    }

    /// Builds the set of the given identifiers, sorted. More than 255
    /// identifiers are refused.
    pub fn new(feed_ids: &[FeedId]) -> (r: Result<GOSet, Error>)
        ensures
            match r {
                Ok(set) => feed_ids.len() <= MAX_MEMBERS && set.holds(feed_ids@) && set@.len()
                    == feed_ids.len(),
                Err(e) => feed_ids.len() > MAX_MEMBERS && e == Error::TooManyMembers,
            },
    {
        if feed_ids.len() > MAX_MEMBERS {
            return Err(Error::TooManyMembers);
        }
        let mut sorted: Vec<FeedId> = Vec::new();
        let mut n: usize = 0;
        assert(feed_ids@.take(0) =~= sorted@);
        while n < feed_ids.len()
            invariant
                n <= feed_ids.len() <= MAX_MEMBERS,
                sorted@.len() == n,
                ascending(sorted@),
                sorted@.to_multiset() == feed_ids@.take(n as int).to_multiset(),
            decreases feed_ids.len() - n,
        {
            insert_in_order(&mut sorted, feed_ids[n]);
            proof {
                broadcast use vstd::seq_lib::group_to_multiset_ensures;

                assert(feed_ids@.take(n + 1) =~= feed_ids@.take(n as int).push(feed_ids@[n as int]));
            }
            n += 1;
        }
        assert(feed_ids@.take(n as int) =~= feed_ids@);
        Ok(GOSet { feed_ids: sorted })
    }

    /// The number of members.
    pub fn count(&self) -> (n: u8)
        ensures
            n == self@.len(),
    {
        proof {
            use_type_invariant(self);
        }
        self.feed_ids.len() as u8
    }

    /// The digest of the set: the bytes of all members XORed together.
    pub fn xor(&self) -> (digest: GOSetXor)
        ensures
            digest@ == xor_fold(self@),
    {
        let mut xor: [u8; 32] = [0; 32];
        let mut n: usize = 0;
        assert(xor@ =~= xor_fold(self.feed_ids@.take(0)));
        while n < self.feed_ids.len()
            invariant
                n <= self.feed_ids@.len(),
                xor@ == xor_fold(self.feed_ids@.take(n as int)),
            decreases self.feed_ids@.len() - n,
        {
            let feed_id = &self.feed_ids[n];
            let ghost before = xor@;
            for i in 0..32
                invariant
                    forall|j: int| 0 <= j < i ==> xor@[j] == before[j] ^ feed_id@[j],
                    forall|j: int| i <= j < 32 ==> xor@[j] == before[j],
            {
                xor[i] = xor[i] ^ feed_id.0[i];
            }
            proof {
                let seen = self.feed_ids@.take(n + 1);
                assert(seen.drop_last() =~= self.feed_ids@.take(n as int));
                assert(xor@ =~= xor_bytes(before, feed_id@));
            }
            n += 1;
        }
        assert(self.feed_ids@.take(n as int) =~= self.feed_ids@);
        GOSetXor(xor)
    }

    /// The member that comes last in the order; none in an empty set.
    pub fn highest_feed_id(&self) -> (highest: Option<&FeedId>)
        ensures
            highest is None <==> self@.len() == 0,
            highest matches Some(id) ==> {
                &&& *id == self@.last()
                &&& forall|k: int| 0 <= k < self@.len() ==> lex_le(#[trigger] self@[k]@, id@)
            },
    {
        proof {
            use_type_invariant(self);
        }
        self.feed_ids.last()
    }

    /// The member that comes first in the order; none in an empty set.
    pub fn lowest_feed_id(&self) -> (lowest: Option<&FeedId>)
        ensures
            lowest is None <==> self@.len() == 0,
            lowest matches Some(id) ==> {
                &&& *id == self@.first()
                &&& forall|k: int| 0 <= k < self@.len() ==> lex_le(id@, #[trigger] self@[k]@)
            },
    {
        proof {
            use_type_invariant(self);
        }
        self.feed_ids.first()
    }

    /// `claim` reports this set: the set is not empty, and the claim's
    /// lowest and highest identifier, digest and count are the set's.
    pub open spec fn matches_claim(&self, claim: &GOSetClaim) -> bool {
        &&& self@.len() > 0
        &&& claim.lowest_feed_id == self@.first()
        &&& claim.highest_feed_id == self@.last()
        &&& claim.xor@ == xor_fold(self@)
        &&& claim.count == self@.len()
    }

    /// A snapshot of the set's lowest and highest member, digest and count.
    /// An empty set has no claim.
    pub fn create_claim(&self) -> (claim: Option<GOSetClaim>)
        ensures
            claim is None <==> self@.len() == 0,
            claim matches Some(c) ==> self.matches_claim(&c),
            self@.len() == 1 ==> (claim matches Some(c) && c.lowest_feed_id == c.highest_feed_id),
    {
        match (self.lowest_feed_id(), self.highest_feed_id()) {
            (Some(lowest), Some(highest)) => Some(
                GOSetClaim {
                    lowest_feed_id: *lowest,
                    highest_feed_id: *highest,
                    xor: self.xor(),
                    count: self.count(),
                },
            ),
            _ => None,
        }
    }
}

impl PartialEq<GOSetClaim> for GOSet {
    /// Whether the claim reports this set.
    fn eq(&self, claim: &GOSetClaim) -> (r: bool) {
        match self.create_claim() {
            Some(own) => {
                proof {
                    if own.xor@ == claim.xor@ {
                        assert(own.xor.0 =~= claim.xor.0);
                    }
                }
                own.xor == claim.xor && own.lowest_feed_id == claim.lowest_feed_id
                    && own.highest_feed_id == claim.highest_feed_id && own.count == claim.count
            },
            None => false,
        }
    }
}

impl vstd::std_specs::cmp::PartialEqSpecImpl<GOSetClaim> for GOSet {
    open spec fn obeys_eq_spec() -> bool {
        true
    }

    open spec fn eq_spec(&self, claim: &GOSetClaim) -> bool {
        self.matches_claim(claim)
    }
}

impl PartialEq<GOSet> for GOSetClaim {
    /// Whether this claim reports the set.
    fn eq(&self, set: &GOSet) -> (r: bool) {
        set == self
    }
}

impl vstd::std_specs::cmp::PartialEqSpecImpl<GOSet> for GOSetClaim {
    open spec fn obeys_eq_spec() -> bool {
        true
    }

    open spec fn eq_spec(&self, set: &GOSet) -> bool {
        set.matches_claim(self)
    }
}

/// Puts `id` into the ascending `ids`, after the identifiers that do not
/// come after it.
fn insert_in_order(ids: &mut Vec<FeedId>, id: FeedId)
    requires
        ascending(old(ids)@),
    ensures
        ascending(final(ids)@),
        final(ids)@.len() == old(ids)@.len() + 1,
        final(ids)@.to_multiset() == old(ids)@.to_multiset().insert(id),
{
    let mut at: usize = 0;
    while at < ids.len() && !(id < ids[at])
        invariant
            at <= ids@.len(),
            ids@ == old(ids)@,
            forall|k: int| 0 <= k < at ==> lex_le(#[trigger] ids@[k]@, id@),
        decreases ids@.len() - at,
    {
        proof {
            lemma_lex_le_total(ids@[at as int]@, id@);
        }
        at += 1;
    }
    proof {
        let before = ids@;
        let after = before.insert(at as int, id);
        vstd::seq_lib::to_multiset_insert(before, at as int, id);
        assert forall|i: int, j: int| 0 <= i < j < after.len() implies lex_le(
            after[i]@,
            after[j]@,
        ) by {
            if j == at {
                assert(after[i] == before[i]);
            } else if i == at {
                assert(after[j] == before[j - 1]);
                assert(lex_lt(id@, before[at as int]@));
                if j - 1 > at {
                    lemma_lex_le_transitive(id@, before[at as int]@, before[j - 1]@);
                }
            } else {
                let bi = if i < at { i } else { i - 1 };
                let bj = if j < at { j } else { j - 1 };
                assert(after[i] == before[bi]);
                assert(after[j] == before[bj]);
            }
        }
    }
    ids.insert(at, id);
}

} // verus!
