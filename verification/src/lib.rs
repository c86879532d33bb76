//! Set summaries for feed replication: an ordered identifier type, a sorted
//! identifier set with an XOR digest, and the fixed-width claim record that
//! announces a set's extremes, size and digest to a peer.

use vstd::prelude::*;

pub mod feed_id;
pub mod go_set;

verus! {

/// Why a set of feed identifiers could not be built.
#[derive(Debug, Clone, Copy, PartialEq, Eq, Structural)]
pub enum Error {
    /// More members were supplied than the one-byte count of a claim can hold.
    TooManyMembers,
}

} // verus!
