use goset::feed_id::FeedId;
use goset::go_set::go_set_claim::{CLAIM_LENGTH, CLAIM_TYPE_CODE, GOSET_DMX};
use goset::go_set::{GOSet, GOSetClaim, GOSetClaimError, GOSetXor};

#[test]
fn claim_round_trip() {
    let feed_a = FeedId([255; 32]);
    let feed_b = FeedId([1; 32]);
    let feed_c = FeedId([2; 32]);
    let go_set = GOSet::new(&[feed_a, feed_b, feed_c]).unwrap();

    let claim = go_set.create_claim().unwrap();
    let encoded_claim = claim.encode();
    println!("encoded claim:\n {:?}", claim);

    let result = GOSetClaim::decode(&encoded_claim).unwrap();
    println!("decoded claim:\n {:?}", result);

    assert_eq!(&result.lowest_feed_id, go_set.lowest_feed_id().unwrap());
    assert_eq!(&result.highest_feed_id, go_set.highest_feed_id().unwrap());
    assert_eq!(result.xor, go_set.xor());
    assert_eq!(result.count, go_set.count());
}

#[test]
fn claim_wrong_dmx() {
    let feed_a = FeedId([255; 32]);
    let go_set = GOSet::new(&[feed_a]).unwrap();

    let claim = go_set.create_claim().unwrap();
    let mut encoded_claim = claim.encode();
    let wrong_dmx = [6; 7];
    encoded_claim[0..7].copy_from_slice(&wrong_dmx);
    println!("claim with incorrect dmx:\n {:?}", claim);

    match GOSetClaim::decode(&encoded_claim) {
        Err(GOSetClaimError::InvalidDMX) => {} // passed
        _ => panic!("Expected InvalidDMX error"),
    }
}

#[test]
fn claim_wrong_type_code() {
    let feed_a = FeedId([255; 32]);
    let go_set = GOSet::new(&[feed_a]).unwrap();

    let claim = go_set.create_claim().unwrap();
    let mut encoded_claim = claim.encode();
    let wrong_type_code = [b'W'];
    encoded_claim[7..8].copy_from_slice(&wrong_type_code);
    println!("claim with incorrect type_code:\n {:?}", claim);

    match GOSetClaim::decode(&encoded_claim) {
        Err(GOSetClaimError::InvalidTypeCode) => {} // passed
        _ => panic!("Expected InvalidTypeCode error"),
    }
}

fn sample_claim() -> GOSetClaim {
    let mut lowest = [0u8; 32];
    let mut highest = [0u8; 32];
    let mut xor = [0u8; 32];
    for i in 0..32 {
        lowest[i] = i as u8;
        highest[i] = 100 + i as u8;
        xor[i] = 200 + i as u8;
    }
    GOSetClaim {
        lowest_feed_id: FeedId(lowest),
        highest_feed_id: FeedId(highest),
        xor: GOSetXor(xor),
        count: 77,
    }
}

#[test]
fn wire_constants() {
    assert_eq!(CLAIM_LENGTH, 105);
    assert_eq!(GOSET_DMX, [0, 1, 2, 3, 4, 5, 6]);
    assert_eq!(CLAIM_TYPE_CODE, b'c');
}

#[test]
fn encode_lays_the_fields_out_in_order() {
    let bytes = sample_claim().encode();
    assert_eq!(bytes.len(), 105);
    assert_eq!(&bytes[0..7], &[0u8, 1, 2, 3, 4, 5, 6][..]);
    assert_eq!(bytes[7], b'c');
    for i in 0..32 {
        assert_eq!(bytes[8 + i], i as u8);
        assert_eq!(bytes[40 + i], 100 + i as u8);
        assert_eq!(bytes[72 + i], 200 + i as u8);
    }
    assert_eq!(bytes[104], 77);
}

#[test]
fn end_to_end_example() {
    let members = [FeedId([0xff; 32]), FeedId([0x01; 32]), FeedId([0x02; 32])];
    let set = GOSet::new(&members).unwrap();
    assert_eq!(set.count(), 3);
    assert_eq!(set.lowest_feed_id().unwrap(), &FeedId([0x01; 32]));
    assert_eq!(set.highest_feed_id().unwrap(), &FeedId([0xff; 32]));
    assert_eq!(set.xor().encode(), [0xfc; 32]);

    let mut expected = Vec::new();
    expected.extend_from_slice(&[0, 1, 2, 3, 4, 5, 6]);
    expected.push(b'c');
    expected.extend_from_slice(&[0x01; 32]);
    expected.extend_from_slice(&[0xff; 32]);
    expected.extend_from_slice(&[0xfc; 32]);
    expected.push(0x03);
    assert_eq!(expected.len(), 105);

    let encoded = set.create_claim().unwrap().encode();
    assert_eq!(&encoded[..], &expected[..]);
    assert_eq!(GOSetClaim::encode_go_set(&set).unwrap(), encoded);
}

#[test]
fn decode_reads_the_fields_at_their_offsets() {
    let mut bytes = [0u8; 105];
    bytes[0..7].copy_from_slice(&GOSET_DMX);
    bytes[7] = b'c';
    for i in 8..105 {
        bytes[i] = (i as u8).wrapping_mul(7);
    }
    let claim = GOSetClaim::decode(&bytes).unwrap();
    assert_eq!(&claim.lowest_feed_id.0[..], &bytes[8..40]);
    assert_eq!(&claim.highest_feed_id.0[..], &bytes[40..72]);
    assert_eq!(&claim.xor.0[..], &bytes[72..104]);
    assert_eq!(claim.count, bytes[104]);
    // decoding does not judge the fields: encoding gives the bytes back
    assert_eq!(claim.encode(), bytes);
}

#[test]
fn decode_gives_back_what_encode_was_given() {
    let claim = sample_claim();
    let decoded = GOSetClaim::decode(&claim.encode()).unwrap();
    assert_eq!(decoded.lowest_feed_id, claim.lowest_feed_id);
    assert_eq!(decoded.highest_feed_id, claim.highest_feed_id);
    assert_eq!(decoded.xor, claim.xor);
    assert_eq!(decoded.count, claim.count);

    for count in [0u8, 1, 254, 255] {
        let mut claim = sample_claim();
        claim.count = count;
        assert_eq!(GOSetClaim::decode(&claim.encode()).unwrap().count, count);
    }
}

#[test]
fn round_trip_matches_a_fresh_claim() {
    let members: Vec<FeedId> = (0..200u8).map(|i| FeedId([i.wrapping_mul(37); 32])).collect();
    let set = GOSet::new(&members).unwrap();
    let decoded = GOSetClaim::decode(&set.create_claim().unwrap().encode()).unwrap();

    let mut reversed = members.clone();
    reversed.reverse();
    let fresh = GOSet::new(&reversed).unwrap().create_claim().unwrap();
    assert_eq!(decoded.lowest_feed_id, fresh.lowest_feed_id);
    assert_eq!(decoded.highest_feed_id, fresh.highest_feed_id);
    assert_eq!(decoded.xor, fresh.xor);
    assert_eq!(decoded.count, fresh.count);
    assert_eq!(decoded.count, 200);
}

#[test]
fn any_altered_marker_byte_is_rejected() {
    let valid = sample_claim().encode();
    for at in 0..7 {
        let mut bytes = valid;
        bytes[at] ^= 0x01;
        assert_eq!(GOSetClaim::decode(&bytes).err(), Some(GOSetClaimError::InvalidDMX));
        bytes[at] = 0xff;
        assert_eq!(GOSetClaim::decode(&bytes).err(), Some(GOSetClaimError::InvalidDMX));
    }
}

#[test]
fn any_other_type_code_is_rejected() {
    let valid = sample_claim().encode();
    for code in 0..=255u8 {
        let mut bytes = valid;
        bytes[7] = code;
        let result = GOSetClaim::decode(&bytes);
        if code == b'c' {
            assert!(result.is_ok());
        } else {
            assert_eq!(result.err(), Some(GOSetClaimError::InvalidTypeCode));
        }
    }
}

#[test]
fn marker_is_checked_before_type_code() {
    let mut bytes = sample_claim().encode();
    bytes[3] = 0x33;
    bytes[7] = b'x';
    assert_eq!(GOSetClaim::decode(&bytes).err(), Some(GOSetClaimError::InvalidDMX));
}

#[test]
fn wrong_length_is_rejected() {
    let valid = sample_claim().encode();
    assert_eq!(GOSetClaim::decode(&[]).err(), Some(GOSetClaimError::InvalidLength));
    assert_eq!(GOSetClaim::decode(&valid[..104]).err(), Some(GOSetClaimError::InvalidLength));
    assert_eq!(GOSetClaim::decode(&valid[..8]).err(), Some(GOSetClaimError::InvalidLength));
    let mut longer = valid.to_vec();
    longer.push(0);
    assert_eq!(GOSetClaim::decode(&longer).err(), Some(GOSetClaimError::InvalidLength));
    // the length is checked before anything else
    assert_eq!(GOSetClaim::decode(&[9u8; 104]).err(), Some(GOSetClaimError::InvalidLength));
    assert!(GOSetClaim::decode(&valid[..]).is_ok());
}

#[test]
fn encode_go_set_is_the_encoded_claim() {
    let members = [FeedId([9; 32]), FeedId([4; 32]), FeedId([6; 32]), FeedId([4; 32])];
    let set = GOSet::new(&members).unwrap();
    let bytes = GOSetClaim::encode_go_set(&set).unwrap();
    assert_eq!(bytes, set.create_claim().unwrap().encode());
    assert_eq!(&bytes[8..40], &[4u8; 32][..]);
    assert_eq!(&bytes[40..72], &[9u8; 32][..]);
    assert_eq!(&bytes[72..104], &[9u8 ^ 6; 32][..]);
    assert_eq!(bytes[104], 4);
    assert!(GOSetClaim::encode_go_set(&GOSet::new(&[]).unwrap()).is_none());
}
