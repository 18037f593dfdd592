use amm_core::math::{checked_mul_div, fee_of, sqrt};

#[test]
fn sqrt_of_small_numbers() {
    assert_eq!(sqrt(0), 0);
    assert_eq!(sqrt(1), 1);
    assert_eq!(sqrt(2), 1);
    assert_eq!(sqrt(3), 1);
    assert_eq!(sqrt(4), 2);
    assert_eq!(sqrt(15), 3);
    assert_eq!(sqrt(16), 4);
    assert_eq!(sqrt(17), 4);
}

#[test]
fn sqrt_is_a_root_and_not_a_square() {
    assert_eq!(sqrt(2000 * 2000), 2000);
    assert_eq!(sqrt(1_000_000), 1_000);
    assert_eq!(sqrt(1_000_001), 1_000);
    assert_eq!(sqrt(999_999), 999);
    assert_eq!(sqrt(1_002_000), 1_000);
    assert_eq!(sqrt(1_002_001), 1_001);
}

#[test]
fn sqrt_of_the_largest_numbers() {
    assert_eq!(sqrt(u128::MAX), 18_446_744_073_709_551_615);
    assert_eq!(sqrt(1u128 << 126), 1u128 << 63);
    assert_eq!(sqrt((1u128 << 126) - 1), (1u128 << 63) - 1);
    let root: u128 = 18_446_744_073_709_551_615;
    assert_eq!(sqrt(root * root), root);
    assert_eq!(sqrt(root * root - 1), root - 1);
}

#[test]
fn sqrt_brackets_every_argument() {
    let mut n: u128 = 0;
    while n < 5_000 {
        let r = sqrt(n);
        assert!(r * r <= n);
        assert!((r + 1) * (r + 1) > n);
        n += 1;
    }
}

#[test]
fn mul_div_rounds_down() {
    assert_eq!(checked_mul_div(100, 3000, 1000), Some(300));
    assert_eq!(checked_mul_div(100, 3000, 2000), Some(150));
    assert_eq!(checked_mul_div(7, 3, 2), Some(10));
    assert_eq!(checked_mul_div(1, 1, 2), Some(0));
    assert_eq!(checked_mul_div(0, 5, 9), Some(0));
}

#[test]
fn mul_div_refuses_a_zero_divisor() {
    assert_eq!(checked_mul_div(1, 1, 0), None);
    assert_eq!(checked_mul_div(0, 0, 0), None);
}

#[test]
fn mul_div_refuses_a_product_that_overflows() {
    assert_eq!(checked_mul_div(u128::MAX, 2, 2), None);
    assert_eq!(checked_mul_div(1u128 << 64, 1u128 << 64, 1), None);
    assert_eq!(checked_mul_div(u128::MAX, 1, 1), Some(u128::MAX));
    assert_eq!(checked_mul_div((1u128 << 64) - 1, (1u128 << 64) + 1, 1), Some(u128::MAX));
}

#[test]
fn fee_is_proportional_and_rounded_down() {
    assert_eq!(fee_of(1000, 3, 1000), 3);
    assert_eq!(fee_of(999, 3, 1000), 2);
    assert_eq!(fee_of(333, 3, 1000), 0);
    assert_eq!(fee_of(334, 3, 1000), 1);
    assert_eq!(fee_of(100, 0, 1000), 0);
    assert_eq!(fee_of(0, 999, 1000), 0);
    assert_eq!(fee_of(12_345, 1000, 1000), 12_345);
    assert_eq!(fee_of(10, 1, 3), 3);
}

#[test]
fn fee_of_the_largest_amount_does_not_overflow() {
    assert_eq!(fee_of(u128::MAX, 1000, 1000), u128::MAX);
    assert_eq!(fee_of(u128::MAX, 500, 1000), u128::MAX / 2);
    assert_eq!(fee_of(u128::MAX, 3, 1000), 1_020_847_100_762_815_390_390_123_822_295_304_634);
}
