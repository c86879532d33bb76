use goset::feed_id::{same_bytes, FeedId};
use std::cmp::Ordering;

#[test]
fn partial_eq() {
    let feed_a = FeedId([0; 32]);
    let feed_b = FeedId([0; 32]);
    let feed_c = FeedId([4; 32]);

    assert_eq!(feed_a, feed_b);
    assert_ne!(feed_a, feed_c);
}

#[test]
fn partial_ord() {
    let feed_a = FeedId([0; 32]);
    let feed_b = FeedId([4; 32]);

    assert!(feed_a.lt(&feed_b));
    assert!(feed_b.gt(&feed_a));

    assert!(!feed_a.lt(&feed_a));
}

#[test]
fn encode_returns_the_bytes() {
    let mut bytes = [0u8; 32];
    for (i, b) in bytes.iter_mut().enumerate() {
        *b = (i as u8) * 3;
    }
    assert_eq!(FeedId(bytes).encode(), bytes);
    assert_eq!(FeedId::LENGTH, 32);
}

#[test]
fn cmp_is_three_way() {
    let low = FeedId([1; 32]);
    let high = FeedId([2; 32]);
    assert_eq!(low.cmp(&high), Ordering::Less);
    assert_eq!(high.cmp(&low), Ordering::Greater);
    assert_eq!(low.cmp(&low), Ordering::Equal);
    assert_eq!(low.cmp(&FeedId([1; 32])), Ordering::Equal);
}

#[test]
fn cmp_reads_bytes_as_unsigned() {
    let below = FeedId([0x7f; 32]);
    let above = FeedId([0x80; 32]);
    assert_eq!(below.cmp(&above), Ordering::Less);
    assert_eq!(above.cmp(&below), Ordering::Greater);
    assert_eq!(FeedId([0x00; 32]).cmp(&FeedId([0xff; 32])), Ordering::Less);
}

#[test]
fn cmp_is_decided_by_the_first_difference() {
    let mut a = [0xffu8; 32];
    a[0] = 0;
    let mut b = [0u8; 32];
    b[0] = 1;
    // a is smaller in the first byte and larger in all the others
    assert_eq!(FeedId(a).cmp(&FeedId(b)), Ordering::Less);
    assert_eq!(FeedId(b).cmp(&FeedId(a)), Ordering::Greater);

    let mut c = [7u8; 32];
    let mut d = [7u8; 32];
    c[31] = 1;
    d[31] = 2;
    assert_eq!(FeedId(c).cmp(&FeedId(d)), Ordering::Less);
    c[16] = 9;
    assert_eq!(FeedId(c).cmp(&FeedId(d)), Ordering::Greater);
}

#[test]
fn partial_cmp_agrees_with_cmp() {
    let ids = [FeedId([0; 32]), FeedId([4; 32]), FeedId([0x80; 32]), FeedId([0xff; 32])];
    for a in ids.iter() {
        for b in ids.iter() {
            assert_eq!(a.partial_cmp(b), Some(a.cmp(b)));
            assert_eq!(a < b, a.cmp(b) == Ordering::Less);
            assert_eq!(a >= b, a.cmp(b) != Ordering::Less);
            assert_eq!(a == b, a.cmp(b) == Ordering::Equal);
        }
    }
}

#[test]
fn order_is_total_on_samples() {
    let mut ids = Vec::new();
    for first in [0u8, 1, 0x7f, 0x80, 0xff] {
        for last in [0u8, 1, 0xff] {
            let mut bytes = [5u8; 32];
            bytes[0] = first;
            bytes[31] = last;
            ids.push(FeedId(bytes));
        }
    }
    for a in ids.iter() {
        assert_eq!(a.cmp(a), Ordering::Equal);
        for b in ids.iter() {
            // the order agrees with the order of the byte arrays
            assert_eq!(a.cmp(b), a.0.cmp(&b.0));
            assert_eq!(a.cmp(b), b.cmp(a).reverse());
            for c in ids.iter() {
                if a.cmp(b) == Ordering::Less && b.cmp(c) == Ordering::Less {
                    assert_eq!(a.cmp(c), Ordering::Less);
                }
            }
        }
    }
}

#[test]
fn same_bytes_compares_every_position() {
    let a = [9u8; 32];
    let mut b = [9u8; 32];
    assert!(same_bytes(&a, &b));
    b[31] = 8;
    assert!(!same_bytes(&a, &b));
    b[31] = 9;
    b[0] = 10;
    assert!(!same_bytes(&a, &b));
}
