//! The claim: a fixed-width record that announces a set's lowest and
//! highest member, its digest and its size.

use crate::feed_id::FeedId;
#[allow(unused_imports)]
use crate::go_set::go_set_xor::{xor_fold, GOSetXor};
use crate::go_set::GOSet;
use vstd::prelude::*;

verus! {

/// Number of bytes in an encoded claim.
pub const CLAIM_LENGTH: usize = 105;

/// The leading bytes that mark a record of this protocol. The value is a
/// stand-in until the protocol fixes the derived one; peers interoperate
/// only if they agree on it.
pub const GOSET_DMX: [u8; 7] = [0, 1, 2, 3, 4, 5, 6];

/// The byte after the marker that says the record is a claim: ASCII `c`.
pub const CLAIM_TYPE_CODE: u8 = 0x63;

/// Where the type code stands in an encoded claim.
pub const TYPE_CODE_OFFSET: usize = 7;

/// Where the lowest identifier starts in an encoded claim.
pub const LOWEST_OFFSET: usize = 8;

/// Where the highest identifier starts in an encoded claim.
pub const HIGHEST_OFFSET: usize = 40;

/// Where the digest starts in an encoded claim.
pub const XOR_OFFSET: usize = 72;

/// Where the count stands in an encoded claim.
pub const COUNT_OFFSET: usize = 104;

/// Why a byte string is not an encoded claim.
#[derive(Debug, Clone, Copy, PartialEq, Eq, Structural)]
pub enum GOSetClaimError {
    /// The input is not exactly 105 bytes long.
    InvalidLength,
    /// The first seven bytes are not the protocol's marker.
    InvalidDMX,
    /// The eighth byte is not the type code of a claim.
    InvalidTypeCode,
}

/// A snapshot of a set's summary: its lowest and highest member, its digest
/// and the number of its members. `GOSet::create_claim` makes one of a
/// non-empty set only; `decode` takes the four fields as the bytes give them.
#[derive(Debug, Clone, Copy)]
pub struct GOSetClaim {
    pub lowest_feed_id: FeedId,
    pub highest_feed_id: FeedId,
    pub xor: GOSetXor,
    pub count: u8,
}

/// The reason for which `bytes` is rejected, if it is: the length is
/// checked first, then the marker, then the type code.
pub open spec fn wire_error(bytes: Seq<u8>) -> Option<GOSetClaimError> {
    if bytes.len() != CLAIM_LENGTH {
        Some(GOSetClaimError::InvalidLength)
    } else if bytes.subrange(0, TYPE_CODE_OFFSET as int) != GOSET_DMX@ {
        Some(GOSetClaimError::InvalidDMX)
    } else if bytes[TYPE_CODE_OFFSET as int] != CLAIM_TYPE_CODE {
        Some(GOSetClaimError::InvalidTypeCode)
    } else {
        None
    }
}

impl GOSetClaim {
    /// The encoded claim: marker, type code, lowest identifier, highest
    /// identifier, digest and count, one after the other.
    pub open spec fn wire(&self) -> Seq<u8> {
        GOSET_DMX@ + seq![CLAIM_TYPE_CODE] + self.lowest_feed_id@ + self.highest_feed_id@
            + self.xor@ + seq![self.count]
    }

    /// Encodes the claim into its 105 bytes.
    pub fn encode(&self) -> (bytes: [u8; 105])
        ensures
            bytes@ == self.wire(),
    {
        let mut claim = [0u8; 105];
        let type_code: [u8; 1] = [CLAIM_TYPE_CODE];
        let count: [u8; 1] = [self.count];
        let mut offset: usize = 0;
        offset = write_chunk(&mut claim, offset, &GOSET_DMX);
        offset = write_chunk(&mut claim, offset, &type_code);
        offset = write_chunk(&mut claim, offset, &self.lowest_feed_id.0);
        offset = write_chunk(&mut claim, offset, &self.highest_feed_id.0);
        offset = write_chunk(&mut claim, offset, &self.xor.0);
        write_chunk(&mut claim, offset, &count);
        assert(claim@ =~= self.wire());
        claim
    }

    /// The encoding of the claim of a set with the given members, lowest
    /// first. It is meant for at least one and at most 255 members.
    pub open spec fn wire_of(members: Seq<FeedId>) -> Seq<u8> {
        GOSET_DMX@ + seq![CLAIM_TYPE_CODE] + members.first()@ + members.last()@ + xor_fold(
            members,
        ) + seq![members.len() as u8]
    }

    /// Encodes the claim of `go_set`. An empty set has no claim.
    pub fn encode_go_set(go_set: &GOSet) -> (bytes: Option<[u8; 105]>)
        ensures
            bytes is None <==> go_set@.len() == 0,
            bytes matches Some(b) ==> b@ == Self::wire_of(go_set@),
    {
        match go_set.create_claim() {
            Some(claim) => Some(claim.encode()),
            None => None,
        }
    }

    /// Decodes a claim from its 105 bytes. The length is checked first, then
    /// the marker, then the type code; the four fields are read only when
    /// all three are right.
    pub fn decode(bytes: &[u8]) -> (r: Result<GOSetClaim, GOSetClaimError>)
        ensures
            match r {
                Ok(claim) => wire_error(bytes@) is None && claim.wire() == bytes@,
                Err(e) => wire_error(bytes@) == Some(e),
            },
            r matches Ok(claim) ==> {
                &&& claim.lowest_feed_id@ == bytes@.subrange(
                    LOWEST_OFFSET as int,
                    HIGHEST_OFFSET as int,
                )
                &&& claim.highest_feed_id@ == bytes@.subrange(
                    HIGHEST_OFFSET as int,
                    XOR_OFFSET as int,
                )
                &&& claim.xor@ == bytes@.subrange(XOR_OFFSET as int, COUNT_OFFSET as int)
                &&& claim.count == bytes@[COUNT_OFFSET as int]
            },
    {
        if bytes.len() != CLAIM_LENGTH {
            return Err(GOSetClaimError::InvalidLength);
        }
        if !chunk_matches(bytes, 0, &GOSET_DMX) {
            return Err(GOSetClaimError::InvalidDMX);
        }
        if bytes[TYPE_CODE_OFFSET] != CLAIM_TYPE_CODE {
            return Err(GOSetClaimError::InvalidTypeCode);
        }
        let claim = GOSetClaim {
            lowest_feed_id: FeedId(read_chunk(bytes, LOWEST_OFFSET)),
            highest_feed_id: FeedId(read_chunk(bytes, HIGHEST_OFFSET)),
            xor: GOSetXor(read_chunk(bytes, XOR_OFFSET)),
            count: bytes[COUNT_OFFSET],
        };
        assert(claim.wire() =~= bytes@);
        Ok(claim)
    }
}

/// Two claims with the same encoding are the same claim.
pub proof fn lemma_wire_injective(a: GOSetClaim, b: GOSetClaim)
    requires
        a.wire() == b.wire(),
    ensures
        a == b,
{
    let wire = a.wire();
    assert(a.lowest_feed_id@ =~= wire.subrange(8, 40));
    assert(b.lowest_feed_id@ =~= wire.subrange(8, 40));
    assert(a.highest_feed_id@ =~= wire.subrange(40, 72));
    assert(b.highest_feed_id@ =~= wire.subrange(40, 72));
    assert(a.xor@ =~= wire.subrange(72, 104));
    assert(b.xor@ =~= wire.subrange(72, 104));
    assert(a.count == wire[104]);
    assert(b.count == wire[104]);
    assert(a.lowest_feed_id.0 =~= b.lowest_feed_id.0);
    assert(a.highest_feed_id.0 =~= b.highest_feed_id.0);
    assert(a.xor.0 =~= b.xor.0);
}

/// Round trip: the encoding of a claim passes every check of `decode`, and
/// the claim that `decode` reads from it is the claim that was encoded.
pub proof fn theorem_claim_round_trip(claim: GOSetClaim, decoded: GOSetClaim)
    requires
        decoded.wire() == claim.wire(),
    ensures
        wire_error(claim.wire()) is None,
        decoded == claim,
{
    assert(claim.wire().subrange(0, 7) =~= GOSET_DMX@);
    lemma_wire_injective(decoded, claim);
}

/// An encoded claim with one byte of its marker changed is rejected for its
/// marker.
pub proof fn theorem_altered_marker_rejected(claim: GOSetClaim, at: int, byte: u8)
    requires
        0 <= at < 7,
        byte != GOSET_DMX@[at],
    ensures
        wire_error(claim.wire().update(at, byte)) == Some(GOSetClaimError::InvalidDMX),
{
    let altered = claim.wire().update(at, byte);
    assert(altered.subrange(0, 7)[at] == byte);
}

/// An encoded claim with only its type code changed is rejected for its
/// type code.
pub proof fn theorem_altered_type_code_rejected(claim: GOSetClaim, byte: u8)
    requires
        byte != CLAIM_TYPE_CODE,
    ensures
        wire_error(claim.wire().update(7, byte)) == Some(GOSetClaimError::InvalidTypeCode),
{
    let altered = claim.wire().update(7, byte);
    assert(altered.subrange(0, 7) =~= GOSET_DMX@);
}

/// Copies `chunk` into `buf` at `offset` and returns the offset just after it.
fn write_chunk(buf: &mut [u8; 105], offset: usize, chunk: &[u8]) -> (next: usize)
    requires
        offset + chunk.len() <= 105,
    ensures
        next == offset + chunk.len(),
        final(buf)@ == old(buf)@.subrange(0, offset as int) + chunk@ + old(buf)@.subrange(
            next as int,
            105,
        ),
{
    let mut k: usize = 0;
    while k < chunk.len()
        invariant
            k <= chunk.len(),
            offset + chunk.len() <= 105,
            buf@.len() == 105,
            forall|j: int| 0 <= j < offset ==> buf@[j] == old(buf)@[j],
            forall|j: int| 0 <= j < k ==> buf@[offset + j] == chunk@[j],
            forall|j: int| offset + k <= j < 105 ==> buf@[j] == old(buf)@[j],
        decreases chunk.len() - k,
    {
        buf[offset + k] = chunk[k];
        k += 1;
    }
    assert(buf@ =~= old(buf)@.subrange(0, offset as int) + chunk@ + old(buf)@.subrange(
        offset + chunk.len(),
        105,
    ));
    offset + chunk.len()
}

/// Whether the bytes of `bytes` from `offset` on start with `expected`.
fn chunk_matches(bytes: &[u8], offset: usize, expected: &[u8]) -> (same: bool)
    requires
        offset + expected.len() <= bytes.len(),
    ensures
        same == (bytes@.subrange(offset as int, offset + expected.len()) == expected@),
{
    let mut k: usize = 0;
    while k < expected.len()
        invariant
            k <= expected.len(),
            offset + expected.len() <= bytes.len(),
            forall|j: int| 0 <= j < k ==> bytes@[offset + j] == expected@[j],
        decreases expected.len() - k,
    {
        if bytes[offset + k] != expected[k] {
            assert(bytes@.subrange(offset as int, offset + expected.len())[k as int]
                != expected@[k as int]);
            return false;
        }
        k += 1;
    }
    assert(bytes@.subrange(offset as int, offset + expected.len()) =~= expected@);
    true
}

/// The 32 bytes of `bytes` that start at `offset`.
fn read_chunk(bytes: &[u8], offset: usize) -> (chunk: [u8; 32])
    requires
        offset + 32 <= bytes.len(),
    ensures
        chunk@ == bytes@.subrange(offset as int, offset + 32),
{
    let mut chunk = [0u8; 32];
    let mut k: usize = 0;
    while k < 32
        invariant
            k <= 32,
            offset + 32 <= bytes.len(),
            forall|j: int| 0 <= j < k ==> chunk@[j] == bytes@[offset + j],
        decreases 32 - k,
    {
        chunk[k] = bytes[offset + k];
        k += 1;
    }
    assert(chunk@ =~= bytes@.subrange(offset as int, offset + 32));
    chunk
}

} // verus!
