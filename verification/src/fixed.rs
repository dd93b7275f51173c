//! Saturating decimal fixed-point numbers.
//!
//! Every quantity of the engine (attribute points, percentages, rates, objective values) is a
//! [`Fixed`]: a signed count of millionths.  All operations are total: results outside the
//! representable range saturate at the nearest bound, quotients are rounded toward zero, and a
//! division by zero yields zero.

use vstd::prelude::*;

verus! {

/// Number of raw units in one whole.
pub const SCALE: i64 = 1_000_000;

/// Absolute value of a mathematical integer.
pub open spec fn abs(x: int) -> int {
    if x < 0 { -x } else { x }
}

/// Nearest representable raw value to `x`.
pub open spec fn sat(x: int) -> int {
    if x < i64::MIN {
        i64::MIN as int
    } else if x > i64::MAX {
        i64::MAX as int
    } else {
        x
    }
}

/// Quotient of `n` by `d`, rounded toward zero.
pub open spec fn tdiv(n: int, d: int) -> int
    recommends
        d != 0,
{
    let q = abs(n) / abs(d);
    if (n < 0) != (d < 0) { -q } else { q }
}

/// Quotient of `n` by `d > 0`, rounded to the nearest integer, halves away from zero.
pub open spec fn rdiv(n: int, d: int) -> int
    recommends
        d > 0,
{
    let q = (2 * abs(n) + d) / (2 * d);
    if n < 0 { -q } else { q }
}

/// A fixed-point number: `raw` millionths.
#[derive(Clone, Copy, Debug, PartialEq, Eq, Structural, Hash, PartialOrd, Ord)]
pub struct Fixed {
    pub raw: i64,
}

/// The value of the wide number, saturated.
fn narrow(x: i128) -> (r: i64)
    ensures
        r == sat(x as int),
{
    if x < i64::MIN as i128 {
        i64::MIN
    } else if x > i64::MAX as i128 {
        i64::MAX
    } else {
        x as i64
    }
}

/// The magnitude of the number.
fn magnitude(x: i64) -> (r: u128)
    ensures
        r == abs(x as int),
        r <= 0x8000_0000_0000_0000,
{
    if x < 0 {
        (-(x as i128)) as u128
    } else {
        x as u128
    }
}

/// The number of the given sign and magnitude, saturated.
fn signed(negative: bool, m: u128) -> (r: i64)
    ensures
        r == sat(if negative { -(m as int) } else { m as int }),
{
    if m > 0x8000_0000_0000_0000u128 {
        if negative { i64::MIN } else { i64::MAX }
    } else if negative {
        narrow(-(m as i128))
    } else {
        narrow(m as i128)
    }
}

impl Fixed {
    /// The number zero.
    pub open spec fn spec_zero() -> Fixed {
        Fixed { raw: 0 }
    }

    /// The number one.
    pub open spec fn spec_one() -> Fixed {
        Fixed { raw: SCALE }
    }

    /// The whole number `n`, saturated.
    pub open spec fn spec_from_int(n: i64) -> Fixed {
        Fixed { raw: sat(n * SCALE) as i64 }
    }

    /// The fraction `n / d`, rounded toward zero and saturated; zero where `d` is zero.
    pub open spec fn spec_from_ratio(n: i64, d: i64) -> Fixed {
        if d == 0 {
            Fixed { raw: 0 }
        } else {
            Fixed { raw: sat(tdiv(n * SCALE, d as int)) as i64 }
        }
    }

    /// The sum, saturated.
    pub open spec fn spec_add(self, rhs: Fixed) -> Fixed {
        Fixed { raw: sat(self.raw + rhs.raw) as i64 }
    }

    /// The difference, saturated.
    pub open spec fn spec_sub(self, rhs: Fixed) -> Fixed {
        Fixed { raw: sat(self.raw - rhs.raw) as i64 }
    }

    /// The number negated, saturated.
    pub open spec fn spec_neg(self) -> Fixed {
        Fixed { raw: sat(-self.raw) as i64 }
    }

    /// The product, rounded toward zero and saturated.
    pub open spec fn spec_mul(self, rhs: Fixed) -> Fixed {
        Fixed { raw: sat(tdiv(self.raw * rhs.raw, SCALE as int)) as i64 }
    }

    /// The quotient, rounded toward zero and saturated; zero where `rhs` is zero.
    pub open spec fn spec_div(self, rhs: Fixed) -> Fixed {
        if rhs.raw == 0 {
            Fixed { raw: 0 }
        } else {
            Fixed { raw: sat(tdiv(self.raw * SCALE, rhs.raw as int)) as i64 }
        }
    }

    /// The smaller of the two.
    pub open spec fn spec_min(self, rhs: Fixed) -> Fixed {
        if self.raw <= rhs.raw { self } else { rhs }
    }

    /// The larger of the two.
    pub open spec fn spec_max(self, rhs: Fixed) -> Fixed {
        if self.raw >= rhs.raw { self } else { rhs }
    }

    /// `self` limited to the interval from `lo` to `hi`; `lo` wins where the two cross.
    pub open spec fn spec_clamp(self, lo: Fixed, hi: Fixed) -> Fixed {
        if self.raw < lo.raw {
            lo
        } else if self.raw > hi.raw {
            hi.spec_max(lo)
        } else {
            self
        }
    }

    /// Nearest whole number, halves away from zero.
    pub open spec fn spec_round(self) -> Fixed {
        Fixed { raw: sat(rdiv(self.raw as int, SCALE as int) * SCALE) as i64 }
    }

    /// The number zero.
    #[verifier::when_used_as_spec(spec_zero)]
    pub fn zero() -> (r: Fixed)
        ensures
            r == Fixed::spec_zero(),
    {
        Fixed { raw: 0 }
    }

    /// The number one.
    #[verifier::when_used_as_spec(spec_one)]
    pub fn one() -> (r: Fixed)
        ensures
            r == Fixed::spec_one(),
    {
        Fixed { raw: SCALE }
    }

    /// Wraps a count of millionths.
    pub fn from_raw(raw: i64) -> (r: Fixed)
        ensures
            r.raw == raw,
    {
        Fixed { raw }
    }

    /// The whole number `n`, saturated.
    #[verifier::when_used_as_spec(spec_from_int)]
    pub fn from_int(n: i64) -> (r: Fixed)
        ensures
            r == Fixed::spec_from_int(n),
    {
        assert(-0x8000_0000_0000_0000 * 1_000_000 <= n * 1_000_000 <= 0x8000_0000_0000_0000
            * 1_000_000);
        Fixed { raw: narrow((n as i128) * (SCALE as i128)) }
    }

    /// The fraction `n / d`, rounded toward zero and saturated; zero where `d` is zero.
    #[verifier::when_used_as_spec(spec_from_ratio)]
    pub fn from_ratio(n: i64, d: i64) -> (r: Fixed)
        ensures
            r == Fixed::spec_from_ratio(n, d),
    {
        if d == 0 {
            return Fixed { raw: 0 };
        }
        let m: u128 = magnitude(n) * 1_000_000u128;
        let q: u128 = m / magnitude(d);
        proof {
            assert(abs(n * SCALE) == abs(n as int) * 1_000_000);
            assert((n * SCALE < 0) == (n < 0));
        }
        Fixed { raw: signed((n < 0) != (d < 0), q) }
    }

    /// The sum, saturated.
    #[verifier::when_used_as_spec(spec_add)]
    pub fn add(self, rhs: Fixed) -> (r: Fixed)
        ensures
            r == self.spec_add(rhs),
    {
        Fixed { raw: narrow(self.raw as i128 + rhs.raw as i128) }
    }

    /// The difference, saturated.
    #[verifier::when_used_as_spec(spec_sub)]
    pub fn sub(self, rhs: Fixed) -> (r: Fixed)
        ensures
            r == self.spec_sub(rhs),
    {
        Fixed { raw: narrow(self.raw as i128 - rhs.raw as i128) }
    }

    /// The number negated, saturated.
    #[verifier::when_used_as_spec(spec_neg)]
    pub fn neg(self) -> (r: Fixed)
        ensures
            r == self.spec_neg(),
    {
        Fixed { raw: narrow(-(self.raw as i128)) }
    }

    /// The product, rounded toward zero and saturated.
    #[verifier::when_used_as_spec(spec_mul)]
    pub fn mul(self, rhs: Fixed) -> (r: Fixed)
        ensures
            r == self.spec_mul(rhs),
    {
        let a: u128 = magnitude(self.raw);
        let b: u128 = magnitude(rhs.raw);
        proof {
            lemma_abs_mul(self.raw as int, rhs.raw as int);
            lemma_mul_le(a as int, 0x8000_0000_0000_0000, b as int, 0x8000_0000_0000_0000);
        }
        let q: u128 = (a * b) / 1_000_000u128;
        let negative = (self.raw < 0) != (rhs.raw < 0);
        proof {
            lemma_mul_sign(self.raw as int, rhs.raw as int);
            if a * b == 0 {
                assert(q == 0);
            }
        }
        Fixed { raw: signed(negative, q) }
    }

    /// The quotient, rounded toward zero and saturated; zero where `rhs` is zero.
    #[verifier::when_used_as_spec(spec_div)]
    pub fn div(self, rhs: Fixed) -> (r: Fixed)
        ensures
            r == self.spec_div(rhs),
    {
        if rhs.raw == 0 {
            return Fixed { raw: 0 };
        }
        let m: u128 = magnitude(self.raw) * 1_000_000u128;
        let q: u128 = m / magnitude(rhs.raw);
        proof {
            assert(abs(self.raw * SCALE) == abs(self.raw as int) * 1_000_000);
            assert((self.raw * SCALE < 0) == (self.raw < 0));
        }
        Fixed { raw: signed((self.raw < 0) != (rhs.raw < 0), q) }
    }

    /// The smaller of the two.
    #[verifier::when_used_as_spec(spec_min)]
    pub fn min(self, rhs: Fixed) -> (r: Fixed)
        ensures
            r == self.spec_min(rhs),
    {
        if self.raw <= rhs.raw { self } else { rhs }
    }

    /// The larger of the two.
    #[verifier::when_used_as_spec(spec_max)]
    pub fn max(self, rhs: Fixed) -> (r: Fixed)
        ensures
            r == self.spec_max(rhs),
    {
        if self.raw >= rhs.raw { self } else { rhs }
    }

    /// Limits `self` to the interval from `lo` to `hi`.
    #[verifier::when_used_as_spec(spec_clamp)]
    pub fn clamp(self, lo: Fixed, hi: Fixed) -> (r: Fixed)
        ensures
            r == self.spec_clamp(lo, hi),
    {
        if self.raw < lo.raw {
            lo
        } else if self.raw > hi.raw {
            hi.max(lo)
        } else {
            self
        }
    }

    /// Rounds to the nearest whole number, halves away from zero.
    #[verifier::when_used_as_spec(spec_round)]
    pub fn round(self) -> (r: Fixed)
        ensures
            r == self.spec_round(),
    {
        let a: u128 = magnitude(self.raw);
        let q: u128 = (2 * a + 1_000_000u128) / 2_000_000u128;
        let m: u128 = q * 1_000_000u128;
        Fixed { raw: signed(self.raw < 0, m) }
    }

    /// Whether `self` is less than `rhs`.
    pub fn lt(self, rhs: Fixed) -> (r: bool)
        ensures
            r == (self.raw < rhs.raw),
    {
        self.raw < rhs.raw
    }

    /// Whether `self` is at most `rhs`.
    pub fn le(self, rhs: Fixed) -> (r: bool)
        ensures
            r == (self.raw <= rhs.raw),
    {
        self.raw <= rhs.raw
    }

    /// Whether `self` is greater than `rhs`.
    pub fn gt(self, rhs: Fixed) -> (r: bool)
        ensures
            r == (self.raw > rhs.raw),
    {
        self.raw > rhs.raw
    }

    /// Whether `self` is at least `rhs`.
    pub fn ge(self, rhs: Fixed) -> (r: bool)
        ensures
            r == (self.raw >= rhs.raw),
    {
        self.raw >= rhs.raw
    }
}

impl Default for Fixed {
    /// Zero.
    fn default() -> (r: Fixed)
        ensures
            r == Fixed::spec_zero(),
    {
        Fixed { raw: 0 }
    }
}

/// The magnitude of a product is the product of the magnitudes.
pub proof fn lemma_abs_mul(a: int, b: int)
    ensures
        abs(a * b) == abs(a) * abs(b),
{
    assert(abs(a * b) == abs(a) * abs(b)) by (nonlinear_arith);
}

/// A product of nonnegative numbers is bounded by the product of their bounds.
pub proof fn lemma_mul_le(a: int, a_max: int, b: int, b_max: int)
    requires
        0 <= a <= a_max,
        0 <= b <= b_max,
    ensures
        0 <= a * b <= a_max * b_max,
{
    assert(0 <= a * b <= a_max * b_max) by (nonlinear_arith)
        requires
            0 <= a <= a_max,
            0 <= b <= b_max,
    ;
}

/// A product is negative exactly when its factors are nonzero and of opposite sign.
pub proof fn lemma_mul_sign(a: int, b: int)
    ensures
        a * b < 0 <==> ((a < 0) != (b < 0) && a != 0 && b != 0),
        a * b == 0 <==> (a == 0 || b == 0),
{
    assert((a * b < 0 <==> ((a < 0) != (b < 0) && a != 0 && b != 0)) && (a * b == 0 <==> (a == 0
        || b == 0))) by (nonlinear_arith);
}

/// The product of numbers that are not negative, before saturation.
pub proof fn lemma_mul_nonneg(a: Fixed, b: Fixed)
    requires
        0 <= a.raw,
        0 <= b.raw,
    ensures
        0 <= a.raw * b.raw,
        a.mul(b).raw == sat((a.raw * b.raw) / (SCALE as int)),
{
    lemma_mul_le(a.raw as int, a.raw as int, b.raw as int, b.raw as int);
}

/// The quotient of a number that is not negative by a positive one, before saturation.
pub proof fn lemma_div_pos(a: Fixed, b: Fixed)
    requires
        0 <= a.raw,
        0 < b.raw,
    ensures
        a.div(b).raw == sat((a.raw * SCALE) / (b.raw as int)),
{
}

/// Division toward zero by a positive number keeps the order.
pub proof fn lemma_tdiv_monotone(x: int, y: int, d: int)
    requires
        x <= y,
        d > 0,
    ensures
        tdiv(x, d) <= tdiv(y, d),
        x >= 0 ==> tdiv(x, d) >= 0,
        y <= 0 ==> tdiv(y, d) <= 0,
{
    if x >= 0 {
        vstd::arithmetic::div_mod::lemma_div_is_ordered(x, y, d);
        vstd::arithmetic::div_mod::lemma_div_pos_is_pos(x, d);
    } else if y >= 0 {
        vstd::arithmetic::div_mod::lemma_div_pos_is_pos(-x, d);
        vstd::arithmetic::div_mod::lemma_div_pos_is_pos(y, d);
    } else {
        vstd::arithmetic::div_mod::lemma_div_is_ordered(-y, -x, d);
        vstd::arithmetic::div_mod::lemma_div_pos_is_pos(-y, d);
    }
}

/// A product does not shrink where neither factor does, for factors that are not negative.
pub proof fn lemma_mul_monotone(a: Fixed, b: Fixed, c: Fixed, d: Fixed)
    requires
        0 <= a.raw <= c.raw,
        0 <= b.raw <= d.raw,
    ensures
        0 <= a.mul(b).raw <= c.mul(d).raw,
{
    lemma_mul_le(a.raw as int, c.raw as int, b.raw as int, d.raw as int);
    lemma_tdiv_monotone(0, a.raw * b.raw, SCALE as int);
    lemma_tdiv_monotone(a.raw * b.raw, c.raw * d.raw, SCALE as int);
}

/// A quotient by a positive number does not shrink where the dividend does not.
pub proof fn lemma_div_monotone(a: Fixed, c: Fixed, d: Fixed)
    requires
        a.raw <= c.raw,
        0 < d.raw,
    ensures
        a.div(d).raw <= c.div(d).raw,
        0 <= a.raw ==> 0 <= a.div(d).raw,
{
    lemma_tdiv_monotone(a.raw * SCALE, c.raw * SCALE, d.raw as int);
}

/// A quotient of a number that is not negative by one that is not negative is not negative.
pub proof fn lemma_div_nonneg(a: Fixed, d: Fixed)
    requires
        0 <= a.raw,
        0 <= d.raw,
    ensures
        0 <= a.div(d).raw,
{
    if d.raw > 0 {
        lemma_div_monotone(a, a, d);
    }
}

/// A number that is not negative rounds to one that is not negative.
pub proof fn lemma_round_nonneg(a: Fixed)
    requires
        0 <= a.raw,
    ensures
        0 <= a.round().raw,
{
    let q = (2 * a.raw + SCALE) / (2 * SCALE);
    assert(0 <= q);
    assert(0 <= q * SCALE) by (nonlinear_arith)
        requires
            0 <= q,
    ;
}

} // verus!
