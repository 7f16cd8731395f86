//! Fixed-point numbers.
//!
//! Every coordinate, depth, matrix entry and reflection coefficient of the
//! renderer is a [`Scalar`]: a signed 64-bit count of units of 1/65536.
//! Sums, differences and products are computed exactly in 128 bits, rounded
//! toward zero onto the grid, and then saturated to the 64-bit range, so no
//! operation can overflow or panic.
use vstd::prelude::*;

verus! {

/// The raw count that stands for the value one.
pub const ONE_RAW: i64 = 65536;

/// `v` limited to the range of a raw count.
pub open spec fn clamp64(v: int) -> int {
    if v < i64::MIN as int {
        i64::MIN as int
    } else if v > i64::MAX as int {
        i64::MAX as int
    } else {
        v
    }
}

/// The quotient of `a` by a positive `b`, rounded toward zero.
pub open spec fn trunc_div(a: int, b: int) -> int
    recommends
        b > 0,
{
    if a >= 0 {
        a / b
    } else {
        -((-a) / b)
    }
}

/// The quotient of `a` by `b`, which is not zero, rounded toward zero.
pub open spec fn trunc_quotient(a: int, b: int) -> int
    recommends
        b != 0,
{
    if b > 0 {
        trunc_div(a, b)
    } else {
        trunc_div(-a, -b)
    }
}

/// The product of two values given by their raw counts, as a raw count
/// rounded toward zero. Not yet saturated.
pub open spec fn scaled_product(a: int, b: int) -> int {
    trunc_div(a * b, ONE_RAW as int)
}

/// The largest `r` with `r * r <= n`.
pub open spec fn is_floor_sqrt(n: int, r: int) -> bool {
    &&& 0 <= r
    &&& r * r <= n
    &&& n < (r + 1) * (r + 1)
}

/// A fixed-point number: `raw / 65536`.
#[derive(Clone, Copy, Debug, PartialEq, Eq, Structural)]
pub struct Scalar {
    pub raw: i64,
}

impl View for Scalar {
    type V = int;

    /// The raw count, as a mathematical integer.
    open spec fn view(&self) -> int {
        self.raw as int
    }
}

/// The product of two raw counts fits in 128 bits with room to spare.
pub proof fn lemma_product_bounds(a: int, b: int)
    requires
        i64::MIN <= a <= i64::MAX,
        i64::MIN <= b <= i64::MAX,
    ensures
        -0x4000_0000_0000_0000_0000_0000_0000_0000 <= a * b
            <= 0x4000_0000_0000_0000_0000_0000_0000_0000,
{
    assert(a * b <= 0x4000_0000_0000_0000_0000_0000_0000_0000) by (nonlinear_arith)
        requires
            -0x8000_0000_0000_0000 <= a <= 0x7fff_ffff_ffff_ffff,
            -0x8000_0000_0000_0000 <= b <= 0x7fff_ffff_ffff_ffff,
    ;
    assert(a * b >= -0x4000_0000_0000_0000_0000_0000_0000_0000) by (nonlinear_arith)
        requires
            -0x8000_0000_0000_0000 <= a <= 0x7fff_ffff_ffff_ffff,
            -0x8000_0000_0000_0000 <= b <= 0x7fff_ffff_ffff_ffff,
    ;
}

/// Rounding toward zero never moves a quotient away from zero, and keeps it
/// within the magnitude of the dividend.
pub proof fn lemma_trunc_div_bounds(a: int, b: int)
    requires
        b > 0,
    ensures
        a >= 0 ==> 0 <= trunc_div(a, b) <= a,
        a <= 0 ==> a <= trunc_div(a, b) <= 0,
        trunc_div(-a, b) == -trunc_div(a, b),
{
    if a >= 0 {
        vstd::arithmetic::div_mod::lemma_div_pos_is_pos(a, b);
        vstd::arithmetic::div_mod::lemma_div_is_ordered_by_denominator(a, 1, b);
        vstd::arithmetic::div_mod::lemma_div_basics(a);
    }
    if a <= 0 {
        vstd::arithmetic::div_mod::lemma_div_pos_is_pos(-a, b);
        vstd::arithmetic::div_mod::lemma_div_is_ordered_by_denominator(-a, 1, b);
        vstd::arithmetic::div_mod::lemma_div_basics(-a);
    }
}

/// Rounding toward zero keeps the order of the dividends.
pub proof fn lemma_trunc_div_monotone(a: int, b: int, d: int)
    requires
        d > 0,
        a <= b,
    ensures
        trunc_div(a, d) <= trunc_div(b, d),
{
    lemma_trunc_div_bounds(a, d);
    lemma_trunc_div_bounds(b, d);
    if a >= 0 {
        vstd::arithmetic::div_mod::lemma_div_is_ordered(a, b, d);
    } else if b < 0 {
        vstd::arithmetic::div_mod::lemma_div_is_ordered(-b, -a, d);
    }
}

/// A multiple of the divisor is divided exactly.
pub proof fn lemma_trunc_div_multiple(q: int, d: int)
    requires
        d > 0,
    ensures
        trunc_div(q * d, d) == q,
{
    if q >= 0 {
        assert(q * d >= 0) by (nonlinear_arith)
            requires
                q >= 0,
                d > 0,
        ;
        vstd::arithmetic::div_mod::lemma_div_multiples_vanish(q, d);
        assert(q * d == d * q) by (nonlinear_arith);
    } else {
        assert(q * d < 0) by (nonlinear_arith)
            requires
                q < 0,
                d > 0,
        ;
        assert(-(q * d) == d * (-q)) by (nonlinear_arith);
        vstd::arithmetic::div_mod::lemma_div_multiples_vanish(-q, d);
    }
}

/// `v` saturated to 64 bits.
pub fn clamp_wide(v: i128) -> (r: i64)
    ensures
        r as int == clamp64(v as int),
{
    if v < i64::MIN as i128 {
        i64::MIN
    } else if v > i64::MAX as i128 {
        i64::MAX
    } else {
        v as i64
    }
}

/// The exact product of two raw counts.
pub fn mul_wide(a: i64, b: i64) -> (r: i128)
    ensures
        r as int == a as int * b as int,
{
    proof {
        lemma_product_bounds(a as int, b as int);
    }
    (a as i128) * (b as i128)
}

/// `a / b` rounded toward zero, for a positive divisor.
pub fn div_wide(a: i128, b: i128) -> (r: i128)
    requires
        b > 0,
    ensures
        r as int == trunc_div(a as int, b as int),
{
    proof {
        lemma_trunc_div_bounds(a as int, b as int);
    }
    if a >= 0 {
        a / b
    } else if a == i128::MIN {
        // -a does not fit; split off one divisor first.
        let rest: i128 = a + b;
        let q: i128 = (-rest) / b;
        proof {
            let na: int = -(a as int);
            let nr: int = -(rest as int);
            assert(na == nr + b);
            vstd::arithmetic::div_mod::lemma_div_plus_one(nr, b as int);
            vstd::arithmetic::div_mod::lemma_div_pos_is_pos(nr, b as int);
            vstd::arithmetic::div_mod::lemma_div_is_ordered_by_denominator(nr, 1, b as int);
            vstd::arithmetic::div_mod::lemma_div_basics(nr);
        }
        -q - 1
    } else {
        -((-a) / b)
    }
}

/// The product of two raw counts as a raw count, rounded toward zero and
/// not yet saturated.
pub fn product_wide(a: i64, b: i64) -> (r: i128)
    ensures
        r as int == scaled_product(a as int, b as int),
        -0x4000_0000_0000_0000_0000_0000_0000 <= r <= 0x4000_0000_0000_0000_0000_0000_0000,
{
    let p: i128 = mul_wide(a, b);
    proof {
        lemma_product_bounds(a as int, b as int);
        lemma_trunc_div_bounds(p as int, ONE_RAW as int);
        lemma_trunc_div_monotone(
            p as int,
            0x4000_0000_0000_0000_0000_0000_0000_0000,
            ONE_RAW as int,
        );
        lemma_trunc_div_monotone(
            -0x4000_0000_0000_0000_0000_0000_0000_0000,
            p as int,
            ONE_RAW as int,
        );
    }
    div_wide(p, ONE_RAW as i128)
}

/// The integer square root of `n`, rounded down.
pub fn floor_sqrt(n: u128) -> (r: u64)
    ensures
        is_floor_sqrt(n as int, r as int),
{
    // Invariant: lo * lo <= n < hi * hi, with hi at most 2^64.
    let mut lo: u128 = 0;
    let mut hi: u128 = 0x1_0000_0000_0000_0000;
    assert(hi * hi > n) by (nonlinear_arith)
        requires
            hi == 0x1_0000_0000_0000_0000,
            n <= 0xffff_ffff_ffff_ffff_ffff_ffff_ffff_ffff,
    ;
    while hi - lo > 1
        invariant
            lo < hi <= 0x1_0000_0000_0000_0000,
            lo * lo <= n,
            n < hi * hi,
        decreases hi - lo,
    {
        let mid: u128 = lo + (hi - lo) / 2;
        assert(mid * mid <= 0xffff_ffff_ffff_ffff * 0xffff_ffff_ffff_ffff) by (nonlinear_arith)
            requires
                0 <= mid <= 0xffff_ffff_ffff_ffff,
        ;
        if mid * mid <= n {
            lo = mid;
        } else {
            hi = mid;
        }
    }
    assert(hi == lo + 1);
    lo as u64
}

impl Scalar {
    /// The sum, saturated.
    pub open spec fn plus(self, other: Scalar) -> Scalar {
        Scalar { raw: clamp64(self@ + other@) as i64 }
    }

    /// The difference, saturated.
    pub open spec fn minus(self, other: Scalar) -> Scalar {
        Scalar { raw: clamp64(self@ - other@) as i64 }
    }

    /// The product, rounded toward zero and saturated.
    pub open spec fn times(self, other: Scalar) -> Scalar {
        Scalar { raw: clamp64(scaled_product(self@, other@)) as i64 }
    }

    /// The number whose raw count is `raw`.
    pub fn from_raw(raw: i64) -> (r: Scalar)
        ensures
            r@ == raw,
    {
        Scalar { raw }
    }

    /// The whole number `n`, saturated.
    pub fn from_int(n: i64) -> (r: Scalar)
        ensures
            r@ == clamp64(n * ONE_RAW),
    {
        let wide: i128 = mul_wide(n, ONE_RAW);
        Scalar { raw: clamp_wide(wide) }
    }

    /// The fraction `num / den`, rounded toward zero and saturated.
    pub fn from_ratio(num: i64, den: i64) -> (r: Scalar)
        requires
            den != 0,
        ensures
            r@ == clamp64(trunc_quotient(num * ONE_RAW, den as int)),
    {
        let wide: i128 = mul_wide(num, ONE_RAW);
        proof {
            lemma_product_bounds(num as int, ONE_RAW as int);
        }
        if den > 0 {
            Scalar { raw: clamp_wide(div_wide(wide, den as i128)) }
        } else {
            Scalar { raw: clamp_wide(div_wide(-wide, -(den as i128))) }
        }
    }

    /// Zero.
    pub fn zero() -> (r: Scalar)
        ensures
            r@ == 0,
    {
        Scalar { raw: 0 }
    }

    /// One.
    pub fn one() -> (r: Scalar)
        ensures
            r@ == ONE_RAW,
    {
        Scalar { raw: ONE_RAW }
    }

    /// The least number. It stands for "farther than anything": a depth
    /// buffer starts out holding it.
    pub fn neg_infinity() -> (r: Scalar)
        ensures
            r@ == i64::MIN,
    {
        Scalar { raw: i64::MIN }
    }

    /// The raw count.
    pub fn raw(self) -> (r: i64)
        ensures
            r == self@,
    {
        self.raw
    }

    /// The sum, saturated.
    pub fn add(self, other: Scalar) -> (r: Scalar)
        ensures
            r@ == clamp64(self@ + other@),
            r == self.plus(other),
    {
        Scalar { raw: clamp_wide(self.raw as i128 + other.raw as i128) }
    }

    /// The difference, saturated.
    pub fn sub(self, other: Scalar) -> (r: Scalar)
        ensures
            r@ == clamp64(self@ - other@),
            r == self.minus(other),
    {
        Scalar { raw: clamp_wide(self.raw as i128 - other.raw as i128) }
    }

    /// The product, rounded toward zero and saturated.
    pub fn mul(self, other: Scalar) -> (r: Scalar)
        ensures
            r@ == clamp64(scaled_product(self@, other@)),
            r == self.times(other),
    {
        Scalar { raw: clamp_wide(product_wide(self.raw, other.raw)) }
    }

    /// The product with a whole number, saturated.
    pub fn mul_int(self, n: i64) -> (r: Scalar)
        ensures
            r@ == clamp64(self@ * n),
    {
        Scalar { raw: clamp_wide(mul_wide(self.raw, n)) }
    }

    /// The quotient by a whole number other than zero, rounded toward zero
    /// and saturated.
    pub fn div_int(self, n: i64) -> (r: Scalar)
        requires
            n != 0,
        ensures
            r@ == clamp64(trunc_quotient(self@, n as int)),
            n > 0 ==> r@ == trunc_div(self@, n as int),
    {
        if n > 0 {
            proof {
                lemma_trunc_div_bounds(self@, n as int);
            }
            Scalar { raw: div_wide(self.raw as i128, n as i128) as i64 }
        } else {
            Scalar { raw: clamp_wide(div_wide(-(self.raw as i128), -(n as i128))) }
        }
    }

    /// The negation, saturated.
    pub fn neg(self) -> (r: Scalar)
        ensures
            r@ == clamp64(-self@),
    {
        Scalar { raw: clamp_wide(-(self.raw as i128)) }
    }

    /// The magnitude, saturated.
    pub fn abs(self) -> (r: Scalar)
        ensures
            r@ == clamp64(if self@ < 0 { -self@ } else { self@ }),
    {
        if self.raw < 0 {
            self.neg()
        } else {
            self
        }
    }

    /// Minus one, zero or one, as the number is negative, zero or positive.
    pub fn signum(self) -> (r: Scalar)
        ensures
            self@ < 0 ==> r@ == -ONE_RAW,
            self@ == 0 ==> r@ == 0,
            self@ > 0 ==> r@ == ONE_RAW,
    {
        if self.raw < 0 {
            Scalar { raw: -ONE_RAW }
        } else if self.raw == 0 {
            Scalar { raw: 0 }
        } else {
            Scalar { raw: ONE_RAW }
        }
    }

    /// The larger of the two.
    pub fn max(self, other: Scalar) -> (r: Scalar)
        ensures
            r@ == if self@ >= other@ { self@ } else { other@ },
    {
        if self.raw >= other.raw {
            self
        } else {
            other
        }
    }

    /// Whether `self` is strictly less than `other`.
    pub fn lt(self, other: Scalar) -> (r: bool)
        ensures
            r == (self@ < other@),
    {
        self.raw < other.raw
    }

    /// The whole part, rounded toward zero.
    pub fn trunc(self) -> (r: i64)
        ensures
            r == trunc_div(self@, ONE_RAW as int),
            -0x8000_0000_0000 <= r <= 0x8000_0000_0000,
    {
        proof {
            lemma_trunc_div_bounds(self@, ONE_RAW as int);
        }
        div_wide(self.raw as i128, ONE_RAW as i128) as i64
    }
}

} // verus!
