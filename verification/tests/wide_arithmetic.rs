use pool_xyk::wide::{mul_div_ceil, mul_div_floor, Wide};

const MAX: u128 = u128::MAX;

#[test]
fn product_of_small_words_stays_in_the_low_word() {
    let p = Wide::product(6, 7);
    assert_eq!((p.hi, p.lo), (0, 42));
}

#[test]
fn product_of_largest_words_is_exact() {
    let p = Wide::product(MAX, MAX);
    assert_eq!((p.hi, p.lo), (MAX - 1, 1));
}

#[test]
fn product_carries_into_the_high_word() {
    let p = Wide::product(1u128 << 127, 6);
    assert_eq!((p.hi, p.lo), (3, 0));
    let q = Wide::product(0, MAX);
    assert_eq!((q.hi, q.lo), (0, 0));
}

#[test]
fn product_is_commutative_on_mixed_halves() {
    let a: u128 = 0x1234_5678_9abc_def0_0fed_cba9_8765_4321;
    let b: u128 = 0xffff_0000_ffff_0000_1111_2222_3333_4444;
    let p = Wide::product(a, b);
    let q = Wide::product(b, a);
    assert_eq!((p.hi, p.lo), (q.hi, q.lo));
    let (quotient, rest) = p.div_rem(a + 0);
    assert_eq!((quotient, rest), (b, 0));
}

#[test]
fn div_rem_of_two_words() {
    let n = Wide { hi: 3, lo: 5 };
    assert_eq!(n.div_rem(7), (145835300108973627198589117470757804910, 3));
}

#[test]
fn div_rem_with_largest_divisor() {
    let n = Wide { hi: MAX - 1, lo: MAX };
    assert_eq!(n.div_rem(MAX), (MAX, MAX - 1));
}

#[test]
fn div_rem_of_one_word() {
    let n = Wide { hi: 0, lo: 100 };
    assert_eq!(n.div_rem(7), (14, 2));
    assert_eq!(n.div_rem(1), (100, 0));
}

#[test]
fn le_orders_by_high_word_first() {
    let small = Wide { hi: 1, lo: MAX };
    let large = Wide { hi: 2, lo: 0 };
    assert!(small.le(&large));
    assert!(!large.le(&small));
    assert!(small.le(&small));
    assert!(Wide { hi: 2, lo: 0 }.le(&Wide { hi: 2, lo: 1 }));
    assert!(!Wide { hi: 2, lo: 2 }.le(&Wide { hi: 2, lo: 1 }));
}

#[test]
fn le_scaled_compares_with_a_multiple() {
    let d = Wide { hi: 2, lo: 7 };
    assert!(Wide { hi: 22, lo: 77 }.le_scaled(&d, 11));
    assert!(!Wide { hi: 22, lo: 78 }.le_scaled(&d, 11));
    assert!(Wide { hi: 22, lo: 76 }.le_scaled(&d, 11));
    assert!(!Wide { hi: 0, lo: 1 }.le_scaled(&d, 0));
    assert!(Wide { hi: 0, lo: 0 }.le_scaled(&d, 0));
}

#[test]
fn le_scaled_when_the_multiple_leaves_two_words() {
    let d = Wide::product(MAX, MAX);
    let n = Wide { hi: MAX, lo: MAX };
    assert!(n.le_scaled(&d, 11));
    assert!(!n.le_scaled(&d, 1));
    let carry = Wide { hi: MAX / 2, lo: MAX };
    assert!(n.le_scaled(&carry, 3));
}

#[test]
fn mul_div_floor_rounds_down() {
    assert_eq!(mul_div_floor(7, 3, 2), Some(10));
    assert_eq!(mul_div_floor(10, 3, 3), Some(10));
    assert_eq!(mul_div_floor(0, 3, 3), Some(0));
}

#[test]
fn mul_div_floor_through_a_wide_product() {
    assert_eq!(mul_div_floor(MAX, MAX, MAX), Some(MAX));
    let e30: u128 = 1_000_000_000_000_000_000_000_000_000_000;
    let e25: u128 = 10_000_000_000_000_000_000_000_000;
    assert_eq!(mul_div_floor(e30, e30, e25), Some(100_000 * e30));
}

#[test]
fn mul_div_floor_refuses_zero_divisor_and_overflow() {
    assert_eq!(mul_div_floor(1, 1, 0), None);
    assert_eq!(mul_div_floor(MAX, 7, 3), None);
    assert_eq!(mul_div_floor(MAX, 2, 1), None);
    let e30: u128 = 1_000_000_000_000_000_000_000_000_000_000;
    assert_eq!(mul_div_floor(e30, e30, 1_000_000_000_000_000_000_000), None);
}

#[test]
fn mul_div_ceil_rounds_up() {
    assert_eq!(mul_div_ceil(5, 2, 3), Some(4));
    assert_eq!(mul_div_ceil(7, 3, 2), Some(11));
    assert_eq!(mul_div_ceil(10, 3, 3), Some(10));
    assert_eq!(mul_div_ceil(0, 3, 3), Some(0));
    assert_eq!(mul_div_ceil(MAX, 3, 3), Some(MAX));
}

#[test]
fn mul_div_ceil_refuses_zero_divisor_and_overflow() {
    assert_eq!(mul_div_ceil(1, 1, 0), None);
    assert_eq!(mul_div_ceil(MAX, MAX, MAX - 1), None);
    let a: u128 = (1u128 << 65) - 1;
    let b: u128 = (1u128 << 65) + 1;
    assert_eq!(mul_div_floor(a, b, 4), Some(MAX));
    assert_eq!(mul_div_ceil(a, b, 4), None);
}
