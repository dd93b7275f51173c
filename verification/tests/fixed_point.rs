use gear_opt::fixed::{Fixed, SCALE};

fn fx(n: i64, d: i64) -> Fixed {
    Fixed::from_ratio(n, d)
}

#[test]
fn scale_is_a_million() {
    assert_eq!(SCALE, 1_000_000);
    assert_eq!(Fixed::one().raw, 1_000_000);
    assert_eq!(Fixed::zero().raw, 0);
    assert_eq!(Fixed::default(), Fixed::zero());
}

#[test]
fn from_int_and_ratio() {
    assert_eq!(Fixed::from_int(895).raw, 895_000_000);
    assert_eq!(Fixed::from_int(-3).raw, -3_000_000);
    assert_eq!(fx(6, 100).raw, 60_000);
    assert_eq!(fx(155, 1000).raw, 155_000);
    assert_eq!(fx(1, 3).raw, 333_333);
    assert_eq!(fx(-1, 3).raw, -333_333);
    assert_eq!(fx(1, -3).raw, -333_333);
    assert_eq!(fx(-1, -3).raw, 333_333);
    assert_eq!(fx(5, 0), Fixed::zero());
    assert_eq!(Fixed::from_raw(42).raw, 42);
}

#[test]
fn from_int_saturates() {
    assert_eq!(Fixed::from_int(i64::MAX).raw, i64::MAX);
    assert_eq!(Fixed::from_int(i64::MIN).raw, i64::MIN);
}

#[test]
fn addition_and_subtraction() {
    assert_eq!(fx(3, 2).add(fx(1, 4)), fx(7, 4));
    assert_eq!(fx(3, 2).sub(fx(1, 4)), fx(5, 4));
    assert_eq!(fx(1, 4).sub(fx(3, 2)), fx(-5, 4));
    assert_eq!(fx(1, 4).neg(), fx(-1, 4));
}

#[test]
fn addition_saturates() {
    let max = Fixed::from_raw(i64::MAX);
    let min = Fixed::from_raw(i64::MIN);
    assert_eq!(max.add(Fixed::one()), max);
    assert_eq!(min.sub(Fixed::one()), min);
    assert_eq!(min.neg(), max);
    assert_eq!(max.add(min).raw, -1);
}

#[test]
fn multiplication_rounds_toward_zero() {
    assert_eq!(fx(3, 2).mul(fx(1, 2)), fx(3, 4));
    assert_eq!(Fixed::from_raw(1).mul(Fixed::from_raw(999_999)).raw, 0);
    assert_eq!(Fixed::from_raw(-1).mul(Fixed::from_raw(999_999)).raw, 0);
    assert_eq!(Fixed::from_raw(3).mul(fx(1, 2)).raw, 1);
    assert_eq!(Fixed::from_raw(-3).mul(fx(1, 2)).raw, -1);
    assert_eq!(Fixed::from_int(-7).mul(Fixed::from_int(6)), Fixed::from_int(-42));
}

#[test]
fn multiplication_saturates() {
    let big = Fixed::from_raw(i64::MAX);
    assert_eq!(big.mul(Fixed::from_int(2)).raw, i64::MAX);
    assert_eq!(big.mul(Fixed::from_int(-2)).raw, i64::MIN);
    let small = Fixed::from_raw(i64::MIN);
    assert_eq!(small.mul(small).raw, i64::MAX);
}

#[test]
fn division_rounds_toward_zero() {
    assert_eq!(Fixed::from_int(1).div(Fixed::from_int(3)).raw, 333_333);
    assert_eq!(Fixed::from_int(-1).div(Fixed::from_int(3)).raw, -333_333);
    assert_eq!(Fixed::from_int(10).div(fx(1, 4)), Fixed::from_int(40));
    assert_eq!(Fixed::from_int(105).div(Fixed::from_int(21)), Fixed::from_int(5));
}

#[test]
fn division_by_zero_is_zero() {
    assert_eq!(Fixed::from_int(7).div(Fixed::zero()), Fixed::zero());
    assert_eq!(Fixed::from_int(-7).div(Fixed::zero()), Fixed::zero());
    assert_eq!(Fixed::zero().div(Fixed::zero()), Fixed::zero());
}

#[test]
fn division_saturates() {
    let r = Fixed::from_raw(i64::MAX).div(Fixed::from_raw(1));
    assert_eq!(r.raw, i64::MAX);
    let r = Fixed::from_raw(i64::MIN).div(Fixed::from_raw(1));
    assert_eq!(r.raw, i64::MIN);
}

#[test]
fn min_max_clamp() {
    let a = fx(1, 2);
    let b = fx(3, 2);
    assert_eq!(a.min(b), a);
    assert_eq!(a.max(b), b);
    assert_eq!(Fixed::from_int(150).clamp(Fixed::zero(), Fixed::from_int(100)), Fixed::from_int(100));
    assert_eq!(Fixed::from_int(-5).clamp(Fixed::zero(), Fixed::from_int(100)), Fixed::zero());
    assert_eq!(Fixed::from_int(50).clamp(Fixed::zero(), Fixed::from_int(100)), Fixed::from_int(50));
    // Where the bounds cross, the lower one wins.
    assert_eq!(Fixed::from_int(50).clamp(Fixed::from_int(10), Fixed::from_int(5)), Fixed::from_int(10));
}

#[test]
fn rounding_to_whole_numbers() {
    assert_eq!(fx(5, 2).round(), Fixed::from_int(3));
    assert_eq!(fx(-5, 2).round(), Fixed::from_int(-3));
    assert_eq!(fx(249, 100).round(), Fixed::from_int(2));
    assert_eq!(fx(-249, 100).round(), Fixed::from_int(-2));
    assert_eq!(Fixed::from_raw(499_999).round(), Fixed::zero());
    assert_eq!(Fixed::from_raw(500_000).round(), Fixed::one());
    assert_eq!(Fixed::from_int(7).round(), Fixed::from_int(7));
}

#[test]
fn comparisons() {
    let a = fx(1, 2);
    let b = fx(3, 2);
    assert!(a.lt(b) && a.le(b) && !a.gt(b) && !a.ge(b));
    assert!(a.le(a) && a.ge(a) && !a.lt(a) && !a.gt(a));
    assert!(a < b);
}
