use merkle_action_solana::digest::{digest_eq, digest_le, sorted_pair, DIGEST_BYTES};

fn filled(byte: u8) -> [u8; 32] {
    [byte; 32]
}

fn with_byte(base: [u8; 32], at: usize, byte: u8) -> [u8; 32] {
    let mut out = base;
    out[at] = byte;
    out
}

#[test]
fn digest_has_thirty_two_bytes() {
    assert_eq!(DIGEST_BYTES, 32);
}

#[test]
fn equal_digests_compare_equal_and_before() {
    let a = filled(0x5a);
    assert!(digest_eq(&a, &a));
    assert!(digest_le(&a, &a));
}

#[test]
fn digests_differing_in_last_byte_are_not_equal() {
    let a = filled(0);
    let b = with_byte(a, 31, 1);
    assert!(!digest_eq(&a, &b));
    assert!(!digest_eq(&b, &a));
    assert!(digest_le(&a, &b));
    assert!(!digest_le(&b, &a));
}

#[test]
fn digests_differing_in_first_byte_are_not_equal() {
    let a = filled(7);
    let b = with_byte(a, 0, 8);
    assert!(!digest_eq(&a, &b));
    assert!(digest_le(&a, &b));
    assert!(!digest_le(&b, &a));
}

#[test]
fn first_difference_decides_the_order() {
    // Equal up to position 2, `a` smaller at position 3, larger after it.
    let mut a = filled(0xff);
    let mut b = filled(0x00);
    for i in 0..3 {
        a[i] = 0x20;
        b[i] = 0x20;
    }
    a[3] = 0x10;
    b[3] = 0x11;
    assert!(digest_le(&a, &b));
    assert!(!digest_le(&b, &a));
}

#[test]
fn bytes_compare_unsigned() {
    let low = with_byte(filled(0), 0, 0x7f);
    let high = with_byte(filled(0), 0, 0x80);
    assert!(digest_le(&low, &high));
    assert!(!digest_le(&high, &low));
}

#[test]
fn order_agrees_with_array_order() {
    let samples = [
        filled(0),
        filled(1),
        filled(0xff),
        with_byte(filled(1), 31, 0),
        with_byte(filled(1), 15, 200),
        with_byte(filled(0), 0, 0x80),
    ];
    for a in samples.iter() {
        for b in samples.iter() {
            assert_eq!(digest_le(a, b), a <= b);
            assert_eq!(digest_eq(a, b), a == b);
        }
    }
}

#[test]
fn order_is_total_and_antisymmetric_on_samples() {
    let samples = [filled(3), with_byte(filled(3), 30, 4), with_byte(filled(3), 2, 1)];
    for a in samples.iter() {
        for b in samples.iter() {
            assert!(digest_le(a, b) || digest_le(b, a));
            if digest_le(a, b) && digest_le(b, a) {
                assert_eq!(a, b);
            }
        }
    }
}

#[test]
fn sorted_pair_puts_smaller_first() {
    let small = with_byte(filled(0), 31, 1);
    let large = with_byte(filled(0), 31, 2);
    assert_eq!(sorted_pair(small, large), (small, large));
    assert_eq!(sorted_pair(large, small), (small, large));
}

#[test]
fn sorted_pair_of_equal_digests() {
    let a = filled(9);
    assert_eq!(sorted_pair(a, a), (a, a));
}
