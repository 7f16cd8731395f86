use graphics::scalar::{floor_sqrt, ONE_RAW};
use graphics::Scalar;

#[test]
fn one_is_65536_raw_units() {
    assert_eq!(ONE_RAW, 65536);
    assert_eq!(Scalar::one().raw(), 65536);
    assert_eq!(Scalar::from_int(1), Scalar::one());
    assert_eq!(Scalar::zero().raw(), 0);
}

#[test]
fn from_int_scales_and_saturates() {
    assert_eq!(Scalar::from_int(3).raw(), 3 * 65536);
    assert_eq!(Scalar::from_int(-7).raw(), -7 * 65536);
    assert_eq!(Scalar::from_int(i64::MAX).raw(), i64::MAX);
    assert_eq!(Scalar::from_int(i64::MIN).raw(), i64::MIN);
}

#[test]
fn from_ratio_rounds_toward_zero() {
    assert_eq!(Scalar::from_ratio(1, 2).raw(), 32768);
    assert_eq!(Scalar::from_ratio(1, 3).raw(), 21845);
    assert_eq!(Scalar::from_ratio(-1, 3).raw(), -21845);
    assert_eq!(Scalar::from_ratio(1, -3).raw(), -21845);
    assert_eq!(Scalar::from_ratio(-1, -3).raw(), 21845);
    assert_eq!(Scalar::from_ratio(7, 1), Scalar::from_int(7));
}

#[test]
fn addition_and_subtraction_saturate() {
    let a = Scalar::from_raw(i64::MAX - 5);
    assert_eq!(a.add(Scalar::from_raw(10)).raw(), i64::MAX);
    assert_eq!(a.add(Scalar::from_raw(3)).raw(), i64::MAX - 2);
    let b = Scalar::from_raw(i64::MIN + 5);
    assert_eq!(b.sub(Scalar::from_raw(10)).raw(), i64::MIN);
    assert_eq!(b.sub(Scalar::from_raw(3)).raw(), i64::MIN + 2);
    assert_eq!(Scalar::from_int(2).add(Scalar::from_int(3)), Scalar::from_int(5));
    assert_eq!(Scalar::from_int(2).sub(Scalar::from_int(3)), Scalar::from_int(-1));
}

#[test]
fn multiplication_rounds_toward_zero_and_saturates() {
    let half = Scalar::from_ratio(1, 2);
    assert_eq!(Scalar::from_int(3).mul(half).raw(), 98304);
    assert_eq!(Scalar::from_raw(3).mul(half).raw(), 1);
    assert_eq!(Scalar::from_raw(-3).mul(half).raw(), -1);
    assert_eq!(Scalar::from_int(-4).mul(Scalar::from_int(-5)), Scalar::from_int(20));
    let big = Scalar::from_raw(i64::MAX);
    assert_eq!(big.mul(big).raw(), i64::MAX);
    assert_eq!(big.mul(Scalar::from_int(-2)).raw(), i64::MIN);
    assert_eq!(big.mul(Scalar::one()), big);
    assert_eq!(big.mul(Scalar::zero()), Scalar::zero());
}

#[test]
fn mul_int_and_div_int() {
    assert_eq!(Scalar::from_ratio(1, 2).mul_int(6), Scalar::from_int(3));
    assert_eq!(Scalar::from_raw(i64::MAX).mul_int(2).raw(), i64::MAX);
    assert_eq!(Scalar::from_int(7).div_int(2).raw(), 7 * 65536 / 2);
    assert_eq!(Scalar::from_raw(7).div_int(2).raw(), 3);
    assert_eq!(Scalar::from_raw(-7).div_int(2).raw(), -3);
    assert_eq!(Scalar::from_raw(i64::MIN).div_int(1).raw(), i64::MIN);
}

#[test]
fn negation_magnitude_and_sign() {
    assert_eq!(Scalar::from_int(4).neg(), Scalar::from_int(-4));
    assert_eq!(Scalar::from_raw(i64::MIN).neg().raw(), i64::MAX);
    assert_eq!(Scalar::from_int(-4).abs(), Scalar::from_int(4));
    assert_eq!(Scalar::from_int(4).abs(), Scalar::from_int(4));
    assert_eq!(Scalar::from_raw(i64::MIN).abs().raw(), i64::MAX);
    assert_eq!(Scalar::from_raw(-1).signum(), Scalar::from_int(-1));
    assert_eq!(Scalar::from_raw(0).signum(), Scalar::zero());
    assert_eq!(Scalar::from_raw(1).signum(), Scalar::one());
}

#[test]
fn order_and_whole_part() {
    assert!(Scalar::from_int(1).lt(Scalar::from_int(2)));
    assert!(!Scalar::from_int(2).lt(Scalar::from_int(2)));
    assert_eq!(Scalar::from_int(1).max(Scalar::from_int(2)), Scalar::from_int(2));
    assert_eq!(Scalar::from_int(3).max(Scalar::from_int(2)), Scalar::from_int(3));
    assert_eq!(Scalar::from_ratio(7, 2).trunc(), 3);
    assert_eq!(Scalar::from_ratio(-7, 2).trunc(), -3);
    assert_eq!(Scalar::from_raw(65535).trunc(), 0);
    assert_eq!(Scalar::from_raw(-65535).trunc(), 0);
    assert_eq!(Scalar::from_raw(i64::MIN).trunc(), -(1i64 << 47));
}

#[test]
fn negative_infinity_is_the_least_scalar() {
    assert_eq!(Scalar::neg_infinity().raw(), i64::MIN);
    assert!(Scalar::neg_infinity().lt(Scalar::from_raw(i64::MIN + 1)));
}

#[test]
fn floor_sqrt_rounds_down() {
    assert_eq!(floor_sqrt(0), 0);
    assert_eq!(floor_sqrt(1), 1);
    assert_eq!(floor_sqrt(3), 1);
    assert_eq!(floor_sqrt(4), 2);
    assert_eq!(floor_sqrt(24), 4);
    assert_eq!(floor_sqrt(25), 5);
    assert_eq!(floor_sqrt(1u128 << 64), 1u64 << 32);
    assert_eq!(floor_sqrt((1u128 << 64) - 1), (1u64 << 32) - 1);
    assert_eq!(floor_sqrt(u128::MAX), u64::MAX);
}
