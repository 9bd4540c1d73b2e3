//! Three-component vectors of fixed-point scalars.

use vstd::prelude::*;
use crate::fixed::{
    Fixed, SCALE, fits, floor_sqrt, lemma_trunc_div_monotonic, narrow, narrow_wide, trunc_div,
    wide_product, isqrt,
};

verus! {

/// A vector of three scalars.
#[derive(Clone, Copy, Debug, PartialEq, Eq, Structural)]
pub struct Vec3 {
    pub x: Fixed,
    pub y: Fixed,
    pub z: Fixed,
}

impl View for Vec3 {
    type V = (int, int, int);

    /// The three raw values as mathematical integers.
    open spec fn view(&self) -> (int, int, int) {
        (self.x@, self.y@, self.z@)
    }
}

/// The vector of three components, when each of them exists.
pub open spec fn gather(x: Option<Fixed>, y: Option<Fixed>, z: Option<Fixed>) -> Option<Vec3> {
    if x is Some && y is Some && z is Some {
        Some(Vec3 { x: x->0, y: y->0, z: z->0 })
    } else {
        None
    }
}

/// The sum of the three component products of two triples of raw values.
pub open spec fn dot_sum(a: (int, int, int), b: (int, int, int)) -> int {
    a.0 * b.0 + a.1 * b.1 + a.2 * b.2
}

impl Vec3 {
    /// The sum, when each component is in range.
    pub open spec fn spec_add(self, rhs: Vec3) -> Option<Vec3> {
        gather(self.x.spec_add(rhs.x), self.y.spec_add(rhs.y), self.z.spec_add(rhs.z))
    }

    /// The difference, when each component is in range.
    pub open spec fn spec_sub(self, rhs: Vec3) -> Option<Vec3> {
        gather(self.x.spec_sub(rhs.x), self.y.spec_sub(rhs.y), self.z.spec_sub(rhs.z))
    }

    /// The opposite vector, when each component is in range.
    pub open spec fn spec_neg(self) -> Option<Vec3> {
        gather(self.x.spec_neg(), self.y.spec_neg(), self.z.spec_neg())
    }

    /// Each component times `k`, rounded toward zero.
    pub open spec fn spec_scaled(self, k: Fixed) -> Option<Vec3> {
        gather(self.x.spec_mul(k), self.y.spec_mul(k), self.z.spec_mul(k))
    }

    /// Each component over `k`, rounded toward zero; `None` for `k` zero.
    pub open spec fn spec_divided(self, k: Fixed) -> Option<Vec3> {
        gather(self.x.spec_div(k), self.y.spec_div(k), self.z.spec_div(k))
    }

    /// The dot product: the exact sum of the three products, rounded once.
    pub open spec fn spec_dot(self, rhs: Vec3) -> Option<Fixed> {
        narrow(trunc_div(dot_sum(self@, rhs@), SCALE as int))
    }

    /// The Euclidean length, rounded down to the next raw unit.
    pub open spec fn spec_length(self) -> Option<Fixed> {
        narrow(floor_sqrt(dot_sum(self@, self@)))
    }

    /// The vector over its own length; `None` for the zero vector.
    pub open spec fn spec_normalized(self) -> Option<Vec3> {
        match self.spec_length() {
            Some(len) => self.spec_divided(len),
            None => None,
        }
    }

    /// The vector with the given components.
    pub fn new(x: Fixed, y: Fixed, z: Fixed) -> (r: Vec3)
        ensures
            r == (Vec3 { x, y, z }),
    {
        Vec3 { x, y, z }
    }

    /// The vector with the given raw components.
    pub fn from_raw(x: i64, y: i64, z: i64) -> (r: Vec3)
        ensures
            r@ == (x as int, y as int, z as int),
    {
        Vec3 { x: Fixed { raw: x }, y: Fixed { raw: y }, z: Fixed { raw: z } }
    }

    /// The zero vector.
    pub fn zero() -> (r: Vec3)
        ensures
            r@ == (0int, 0int, 0int),
    {
        Vec3 { x: Fixed { raw: 0 }, y: Fixed { raw: 0 }, z: Fixed { raw: 0 } }
    }

    /// The sum, or `None` when a component is out of range.
    pub fn checked_add(self, rhs: Vec3) -> (r: Option<Vec3>)
        ensures
            r == self.spec_add(rhs),
    {
        let x: Fixed = self.x.checked_add(rhs.x)?;
        let y: Fixed = self.y.checked_add(rhs.y)?;
        let z: Fixed = self.z.checked_add(rhs.z)?;
        Some(Vec3 { x, y, z })
    }

    /// The difference, or `None` when a component is out of range.
    pub fn checked_sub(self, rhs: Vec3) -> (r: Option<Vec3>)
        ensures
            r == self.spec_sub(rhs),
    {
        let x: Fixed = self.x.checked_sub(rhs.x)?;
        let y: Fixed = self.y.checked_sub(rhs.y)?;
        let z: Fixed = self.z.checked_sub(rhs.z)?;
        Some(Vec3 { x, y, z })
    }

    /// The opposite vector, or `None` when a component has no negation.
    pub fn checked_neg(self) -> (r: Option<Vec3>)
        ensures
            r == self.spec_neg(),
    {
        let x: Fixed = self.x.checked_neg()?;
        let y: Fixed = self.y.checked_neg()?;
        let z: Fixed = self.z.checked_neg()?;
        Some(Vec3 { x, y, z })
    }

    /// Each component times `k`, or `None` when one is out of range.
    pub fn scaled(self, k: Fixed) -> (r: Option<Vec3>)
        ensures
            r == self.spec_scaled(k),
    {
        let x: Fixed = self.x.checked_mul(k)?;
        let y: Fixed = self.y.checked_mul(k)?;
        let z: Fixed = self.z.checked_mul(k)?;
        Some(Vec3 { x, y, z })
    }

    /// Each component over `k`; `None` when `k` is zero or a quotient is out
    /// of range.
    pub fn divided(self, k: Fixed) -> (r: Option<Vec3>)
        ensures
            r == self.spec_divided(k),
    {
        let x: Fixed = self.x.checked_div(k)?;
        let y: Fixed = self.y.checked_div(k)?;
        let z: Fixed = self.z.checked_div(k)?;
        Some(Vec3 { x, y, z })
    }

    /// The dot product, or `None` when it is out of range.
    pub fn dot(self, rhs: Vec3) -> (r: Option<Fixed>)
        ensures
            r == self.spec_dot(rhs),
    {
        let px: i128 = wide_product(self.x.raw, rhs.x.raw);
        let py: i128 = wide_product(self.y.raw, rhs.y.raw);
        let pz: i128 = wide_product(self.z.raw, rhs.z.raw);
        proof {
            lemma_product_range(self.x.raw, rhs.x.raw);
            lemma_product_range(self.y.raw, rhs.y.raw);
            lemma_product_range(self.z.raw, rhs.z.raw);
        }
        let ghost total: int = px + py + pz;
        let sum: i128 = match px.checked_add(py) {
            Some(partial) => match partial.checked_add(pz) {
                Some(sum) => sum,
                None => {
                    proof {
                        lemma_far_quotient(total);
                    }
                    return None;
                },
            },
            None => {
                proof {
                    lemma_far_quotient(total);
                }
                return None;
            },
        };
        let q: i128 = sum / (SCALE as i128);
        narrow_wide(q)
    }

    /// The Euclidean length rounded down, or `None` when it is out of range.
    pub fn length(self) -> (r: Option<Fixed>)
        ensures
            r == self.spec_length(),
    {
        let sx: i128 = wide_product(self.x.raw, self.x.raw);
        let sy: i128 = wide_product(self.y.raw, self.y.raw);
        let sz: i128 = wide_product(self.z.raw, self.z.raw);
        proof {
            lemma_product_range(self.x.raw, self.x.raw);
            lemma_product_range(self.y.raw, self.y.raw);
            lemma_product_range(self.z.raw, self.z.raw);
            lemma_square_nonnegative(self.x.raw as int);
            lemma_square_nonnegative(self.y.raw as int);
            lemma_square_nonnegative(self.z.raw as int);
        }
        let total: u128 = (sx as u128) + (sy as u128) + (sz as u128);
        let root: u64 = isqrt(total);
        if root > i64::MAX as u64 {
            None
        } else {
            Some(Fixed { raw: root as i64 })
        }
    }

    /// The vector over its own length; `None` for the zero vector or when the
    /// length is out of range.
    pub fn normalized(self) -> (r: Option<Vec3>)
        ensures
            r == self.spec_normalized(),
    {
        let len: Fixed = self.length()?;
        self.divided(len)
    }
}

/// The range of a product of two raw values.
proof fn lemma_product_range(a: i64, b: i64)
    ensures
        -0x4000_0000_0000_0000_0000_0000_0000_0000 < a * b
            <= 0x4000_0000_0000_0000_0000_0000_0000_0000,
{
    assert(-0x4000_0000_0000_0000_0000_0000_0000_0000 < a * b
        <= 0x4000_0000_0000_0000_0000_0000_0000_0000) by (nonlinear_arith)
        requires
            -0x8000_0000_0000_0000 <= a <= 0x7fff_ffff_ffff_ffff,
            -0x8000_0000_0000_0000 <= b <= 0x7fff_ffff_ffff_ffff,
    ;
}

/// A square is not negative.
proof fn lemma_square_nonnegative(a: int)
    ensures
        a * a >= 0,
{
    assert(a * a >= 0) by (nonlinear_arith);
}

/// A sum of products this far from zero is, once divided by the scale, too
/// large for a scalar.
proof fn lemma_far_quotient(total: int)
    requires
        total >= 0x4000_0000_0000_0000_0000_0000_0000_0000
            || total <= -0x4000_0000_0000_0000_0000_0000_0000_0000,
    ensures
        !fits(trunc_div(total, SCALE as int)),
{
    if total > 0 {
        lemma_trunc_div_monotonic(0x4000_0000_0000_0000_0000_0000_0000_0000, total, SCALE as int);
    } else {
        lemma_trunc_div_monotonic(total, -0x4000_0000_0000_0000_0000_0000_0000_0000, SCALE as int);
    }
}

} // verus!
