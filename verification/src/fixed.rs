//! Fixed-point scalars with six decimal places.
//!
//! A [`Fixed`] holds a signed count of millionths. Sums and differences are
//! exact; products and quotients are rounded toward zero. Every operation
//! that can leave the representable range returns `None` when it does.

use vstd::prelude::*;

verus! {

/// Raw units in one whole.
pub const SCALE: i64 = 1_000_000;

/// Whether `x` is a raw value that a [`Fixed`] can hold.
pub open spec fn fits(x: int) -> bool {
    i64::MIN <= x <= i64::MAX
}

/// The quotient of `a` by `b`, rounded toward zero.
pub open spec fn trunc_div(a: int, b: int) -> int
    recommends
        b != 0,
{
    if b > 0 {
        if a >= 0 {
            a / b
        } else {
            -((-a) / b)
        }
    } else {
        if a >= 0 {
            -(a / (-b))
        } else {
            (-a) / (-b)
        }
    }
}

/// The raw value of the product of two raw values.
pub open spec fn mul_raw(a: int, b: int) -> int {
    trunc_div(a * b, SCALE as int)
}

/// The raw value of the quotient of two raw values.
pub open spec fn div_raw(a: int, b: int) -> int
    recommends
        b != 0,
{
    trunc_div(a * SCALE, b)
}

/// Whether `r` is the square root of `n`, rounded down.
pub open spec fn is_floor_sqrt(n: int, r: int) -> bool {
    0 <= r && r * r <= n < (r + 1) * (r + 1)
}

/// The square root of `n`, rounded down (for `n >= 0`).
pub open spec fn floor_sqrt(n: int) -> int
    recommends
        n >= 0,
{
    choose|r: int| is_floor_sqrt(n, r)
}

/// A signed fixed-point number: `raw` millionths.
#[derive(Clone, Copy, Debug, PartialEq, Eq, Structural)]
pub struct Fixed {
    pub raw: i64,
}

impl View for Fixed {
    type V = int;

    /// The raw value as a mathematical integer.
    open spec fn view(&self) -> int {
        self.raw as int
    }
}

/// The scalar with raw value `x`, if there is one.
pub open spec fn narrow(x: int) -> Option<Fixed> {
    if fits(x) {
        Some(Fixed { raw: x as i64 })
    } else {
        None
    }
}

/// Rounding toward zero keeps a quotient between zero and the dividend.
pub proof fn lemma_trunc_div_bounds(a: int, b: int)
    requires
        b != 0,
    ensures
        a >= 0 && b > 0 ==> 0 <= trunc_div(a, b) <= a,
        a <= 0 && b > 0 ==> a <= trunc_div(a, b) <= 0,
        a >= 0 && b < 0 ==> -a <= trunc_div(a, b) <= 0,
        a <= 0 && b < 0 ==> 0 <= trunc_div(a, b) <= -a,
{
    let m: int = if a >= 0 { a } else { -a };
    let d: int = if b > 0 { b } else { -b };
    vstd::arithmetic::div_mod::lemma_div_pos_is_pos(m, d);
    vstd::arithmetic::div_mod::lemma_div_nonincreasing(m, d);
}

/// Rounding toward zero never moves a quotient away from zero: for a positive
/// divisor the quotient grows with the dividend.
pub proof fn lemma_trunc_div_monotonic(a: int, b: int, d: int)
    requires
        d > 0,
        a <= b,
    ensures
        trunc_div(a, d) <= trunc_div(b, d),
{
    if a >= 0 {
        vstd::arithmetic::div_mod::lemma_div_is_ordered(a, b, d);
    } else if b < 0 {
        vstd::arithmetic::div_mod::lemma_div_is_ordered(-b, -a, d);
    } else {
        lemma_trunc_div_bounds(a, d);
        lemma_trunc_div_bounds(b, d);
    }
}

/// An exact multiple divides without rounding.
pub proof fn lemma_trunc_div_exact(q: int, d: int)
    requires
        d != 0,
    ensures
        trunc_div(q * d, d) == q,
{
    let m: int = if d > 0 { d } else { -d };
    assert(q * d >= 0 <==> (q >= 0 && d > 0) || (q <= 0 && d < 0)) by (nonlinear_arith)
        requires
            d != 0,
    ;
    if q * d >= 0 {
        let k: int = if q >= 0 { q } else { -q };
        assert(k * m == q * d) by (nonlinear_arith)
            requires
                k == (if q >= 0 { q } else { -q }),
                m == (if d > 0 { d } else { -d }),
                q * d >= 0,
                (q >= 0 && d > 0) || (q <= 0 && d < 0),
        ;
        vstd::arithmetic::div_mod::lemma_div_multiples_vanish(k, m);
        assert(k * m == m * k) by (nonlinear_arith);
        if d > 0 {
            assert(trunc_div(q * d, d) == (q * d) / d);
        } else {
            assert(trunc_div(q * d, d) == (-(q * d)) / (-d) || trunc_div(q * d, d) == -((q * d) / (-d)));
            if q == 0 {
                assert(q * d == 0) by (nonlinear_arith)
                    requires
                        q == 0,
                ;
            }
        }
    } else {
        let k: int = if q >= 0 { q } else { -q };
        assert(k * m == -(q * d)) by (nonlinear_arith)
            requires
                k == (if q >= 0 { q } else { -q }),
                m == (if d > 0 { d } else { -d }),
                q * d < 0,
                !((q >= 0 && d > 0) || (q <= 0 && d < 0)),
        ;
        vstd::arithmetic::div_mod::lemma_div_multiples_vanish(k, m);
        assert(k * m == m * k) by (nonlinear_arith);
    }
}

/// A number has at most one rounded-down square root.
pub proof fn lemma_floor_sqrt_unique(n: int, r1: int, r2: int)
    requires
        is_floor_sqrt(n, r1),
        is_floor_sqrt(n, r2),
    ensures
        r1 == r2,
{
    if r1 < r2 {
        assert((r1 + 1) * (r1 + 1) <= r2 * r2) by (nonlinear_arith)
            requires
                0 <= r1 + 1 <= r2,
        ;
    } else if r2 < r1 {
        assert((r2 + 1) * (r2 + 1) <= r1 * r1) by (nonlinear_arith)
            requires
                0 <= r2 + 1 <= r1,
        ;
    }
}

/// Whatever meets [`is_floor_sqrt`] is the value of [`floor_sqrt`].
pub proof fn lemma_floor_sqrt_is(n: int, r: int)
    requires
        is_floor_sqrt(n, r),
    ensures
        floor_sqrt(n) == r,
{
    lemma_floor_sqrt_unique(n, r, floor_sqrt(n));
}

impl Fixed {
    /// The scalar with the given raw value.
    pub fn from_raw(raw: i64) -> (r: Fixed)
        ensures
            r@ == raw,
    {
        Fixed { raw }
    }

    /// The whole number `n`, when `n` millions fit.
    pub fn from_int(n: i64) -> (r: Option<Fixed>)
        ensures
            r == narrow(n * SCALE),
    {
        match n.checked_mul(SCALE) {
            Some(raw) => Some(Fixed { raw }),
            None => None,
        }
    }

    /// The raw value.
    pub fn raw(self) -> (r: i64)
        ensures
            r == self@,
    {
        self.raw
    }

    /// Zero.
    pub fn zero() -> (r: Fixed)
        ensures
            r@ == 0,
    {
        Fixed { raw: 0 }
    }

    /// One whole.
    pub fn one() -> (r: Fixed)
        ensures
            r@ == SCALE,
    {
        Fixed { raw: SCALE }
    }

    /// The sum, when it is in range.
    pub open spec fn spec_add(self, rhs: Fixed) -> Option<Fixed> {
        narrow(self@ + rhs@)
    }

    /// The difference, when it is in range.
    pub open spec fn spec_sub(self, rhs: Fixed) -> Option<Fixed> {
        narrow(self@ - rhs@)
    }

    /// The negation, when it is in range.
    pub open spec fn spec_neg(self) -> Option<Fixed> {
        narrow(-self@)
    }

    /// The product rounded toward zero, when it is in range.
    pub open spec fn spec_mul(self, rhs: Fixed) -> Option<Fixed> {
        narrow(mul_raw(self@, rhs@))
    }

    /// The quotient rounded toward zero; `None` for a zero divisor as well
    /// as for a quotient out of range.
    pub open spec fn spec_div(self, rhs: Fixed) -> Option<Fixed> {
        if rhs@ == 0 {
            None
        } else {
            narrow(div_raw(self@, rhs@))
        }
    }

    /// `self` times the plain integer `k`.
    pub open spec fn spec_times(self, k: i64) -> Option<Fixed> {
        narrow(self@ * k)
    }

    /// The sum, or `None` when it is out of range.
    pub fn checked_add(self, rhs: Fixed) -> (r: Option<Fixed>)
        ensures
            r == self.spec_add(rhs),
    {
        match self.raw.checked_add(rhs.raw) {
            Some(raw) => Some(Fixed { raw }),
            None => None,
        }
    }

    /// The difference, or `None` when it is out of range.
    pub fn checked_sub(self, rhs: Fixed) -> (r: Option<Fixed>)
        ensures
            r == self.spec_sub(rhs),
    {
        match self.raw.checked_sub(rhs.raw) {
            Some(raw) => Some(Fixed { raw }),
            None => None,
        }
    }

    /// The negation, or `None` for the one value that has none.
    pub fn checked_neg(self) -> (r: Option<Fixed>)
        ensures
            r == self.spec_neg(),
    {
        if self.raw == i64::MIN {
            None
        } else {
            Some(Fixed { raw: -self.raw })
        }
    }

    /// The product rounded toward zero, or `None` when it is out of range.
    pub fn checked_mul(self, rhs: Fixed) -> (r: Option<Fixed>)
        ensures
            r == self.spec_mul(rhs),
    {
        let p: i128 = wide_product(self.raw, rhs.raw);
        let q: i128 = p / (SCALE as i128);
        narrow_wide(q)
    }

    /// The quotient rounded toward zero; `None` when the divisor is zero or
    /// the quotient is out of range.
    pub fn checked_div(self, rhs: Fixed) -> (r: Option<Fixed>)
        ensures
            r == self.spec_div(rhs),
    {
        if rhs.raw == 0 {
            return None;
        }
        let n: i128 = wide_product(self.raw, SCALE);
        assert(-0x8000_0000_0000_0000 * 1_000_000 <= n <= 0x8000_0000_0000_0000 * 1_000_000);
        let q: i128 = wide_quotient(n, rhs.raw as i128);
        narrow_wide(q)
    }

    /// `self` times the plain integer `k`, or `None` when it is out of range.
    pub fn checked_times(self, k: i64) -> (r: Option<Fixed>)
        ensures
            r == self.spec_times(k),
    {
        match self.raw.checked_mul(k) {
            Some(raw) => Some(Fixed { raw }),
            None => None,
        }
    }

}

/// The square root of `n`, rounded down.
pub fn isqrt(n: u128) -> (r: u64)
    ensures
        is_floor_sqrt(n as int, r as int),
        r == floor_sqrt(n as int),
{
    let mut lo: u128 = 0;
    let mut hi: u128 = 0x1_0000_0000_0000_0000;
    while hi - lo > 1
        invariant
            lo < hi <= 0x1_0000_0000_0000_0000,
            lo * lo <= n,
            n < hi * hi,
        decreases hi - lo,
    {
        let mid: u128 = lo + (hi - lo) / 2;
        assert(mid * mid <= 0xffff_ffff_ffff_ffff * 0xffff_ffff_ffff_ffff) by (nonlinear_arith)
            requires
                0 <= mid <= 0xffff_ffff_ffff_ffff,
        ;
        if mid * mid <= n {
            lo = mid;
        } else {
            hi = mid;
        }
    }
    proof {
        lemma_floor_sqrt_is(n as int, lo as int);
    }
    lo as u64
}

/// The product of two raw values, which always fits in 128 bits.
pub(crate) fn wide_product(a: i64, b: i64) -> (p: i128)
    ensures
        p == a * b,
{
    assert(-0x4000_0000_0000_0000_0000_0000_0000_0000 <= a * b
        <= 0x4000_0000_0000_0000_0000_0000_0000_0000) by (nonlinear_arith)
        requires
            -0x8000_0000_0000_0000 <= a <= 0x7fff_ffff_ffff_ffff,
            -0x8000_0000_0000_0000 <= b <= 0x7fff_ffff_ffff_ffff,
    ;
    (a as i128) * (b as i128)
}

/// `a / b` rounded toward zero, for operands whose negations exist.
pub(crate) fn wide_quotient(a: i128, b: i128) -> (q: i128)
    requires
        b != 0,
        a > i128::MIN,
        b > i128::MIN,
    ensures
        q == trunc_div(a as int, b as int),
{
    if b > 0 {
        a / b
    } else {
        (-a) / (-b)
    }
}

/// The scalar with raw value `q`, if it fits.
pub(crate) fn narrow_wide(q: i128) -> (r: Option<Fixed>)
    ensures
        r == narrow(q as int),
{
    if q < i64::MIN as i128 || q > i64::MAX as i128 {
        None
    } else {
        Some(Fixed { raw: q as i64 })
    }
}

} // verus!
