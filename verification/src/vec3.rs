//! Three-component vectors in the universe's fixed Cartesian frame, over
//! fixed-point scalars, with the integer square root that recovers a radial
//! distance from a Cartesian position.

use vstd::arithmetic::mul::lemma_mul_upper_bound;
use vstd::prelude::*;

verus! {

/// Fixed-point scale: a stored scalar is the real value times `SCALE`.
pub const SCALE: i64 = 1_000_000;

/// Largest coordinate magnitude the operations accept. Chosen so that sums
/// of two coordinates, and the Euclidean norm of any vector whose components
/// stay within twice this bound, still fit in `i64`.
pub const MAX_COORD: i64 = 2_000_000_000_000_000_000;

/// A point or displacement in the universe's fixed Cartesian frame.
/// Components are fixed-point scalars (real value times `SCALE`).
#[derive(Clone, Copy, Debug, Default, PartialEq, Eq, Structural)]
pub struct Vec3 {
    pub x: i64,
    pub y: i64,
    pub z: i64,
}

/// The squared Euclidean norm of a vector, as a mathematical integer.
pub open spec fn norm_sq(v: Vec3) -> int {
    v.x * v.x + v.y * v.y + v.z * v.z
}

impl Vec3 {
    /// The origin, also the zero displacement.
    pub fn zero() -> (r: Vec3)
        ensures
            r.x == 0,
            r.y == 0,
            r.z == 0,
    {
        Vec3 { x: 0, y: 0, z: 0 }
    }

    /// Component-wise sum.
    pub fn add(self, o: Vec3) -> (r: Vec3)
        requires
            i64::MIN <= self.x + o.x <= i64::MAX,
            i64::MIN <= self.y + o.y <= i64::MAX,
            i64::MIN <= self.z + o.z <= i64::MAX,
        ensures
            r.x == self.x + o.x,
            r.y == self.y + o.y,
            r.z == self.z + o.z,
    {
        Vec3 { x: self.x + o.x, y: self.y + o.y, z: self.z + o.z }
    }

    /// Component-wise difference.
    pub fn sub(self, o: Vec3) -> (r: Vec3)
        requires
            i64::MIN <= self.x - o.x <= i64::MAX,
            i64::MIN <= self.y - o.y <= i64::MAX,
            i64::MIN <= self.z - o.z <= i64::MAX,
        ensures
            r.x == self.x - o.x,
            r.y == self.y - o.y,
            r.z == self.z - o.z,
    {
        Vec3 { x: self.x - o.x, y: self.y - o.y, z: self.z - o.z }
    }

    /// The Euclidean norm of the vector, rounded down to an integer: the
    /// radial distance of this Cartesian position from the origin.
    pub fn magnitude(self) -> (r: i64)
        requires
            -(2 * MAX_COORD) <= self.x <= 2 * MAX_COORD,
            -(2 * MAX_COORD) <= self.y <= 2 * MAX_COORD,
            -(2 * MAX_COORD) <= self.z <= 2 * MAX_COORD,
        ensures
            0 <= r,
            r * r <= norm_sq(self),
            norm_sq(self) < (r + 1) * (r + 1),
    {
        let xa: u64 = abs_scalar(self.x);
        let ya: u64 = abs_scalar(self.y);
        let za: u64 = abs_scalar(self.z);
        proof {
            lemma_mul_upper_bound(
                xa as int,
                4_000_000_000_000_000_000,
                xa as int,
                4_000_000_000_000_000_000,
            );
            lemma_mul_upper_bound(
                ya as int,
                4_000_000_000_000_000_000,
                ya as int,
                4_000_000_000_000_000_000,
            );
            lemma_mul_upper_bound(
                za as int,
                4_000_000_000_000_000_000,
                za as int,
                4_000_000_000_000_000_000,
            );
            assert((xa as int) * (xa as int) == self.x * self.x) by (nonlinear_arith)
                requires
                    xa == self.x || xa as int == -(self.x as int),
            ;
            assert((ya as int) * (ya as int) == self.y * self.y) by (nonlinear_arith)
                requires
                    ya == self.y || ya as int == -(self.y as int),
            ;
            assert((za as int) * (za as int) == self.z * self.z) by (nonlinear_arith)
                requires
                    za == self.z || za as int == -(self.z as int),
            ;
        }
        let s: u128 = (xa as u128) * (xa as u128) + (ya as u128) * (ya as u128) + (za as u128)
            * (za as u128);
        let root: u64 = isqrt(s);
        proof {
            assert(root as int <= 9_000_000_000_000_000_000) by (nonlinear_arith)
                requires
                    0 <= root as int,
                    (root as int) * (root as int) <= 48_000_000_000_000_000_000_000_000_000_000_000_000,
            ;
        }
        root as i64
    }
}

/// The absolute value of a scalar, as an unsigned integer.
fn abs_scalar(v: i64) -> (r: u64)
    requires
        -i64::MAX <= v,
    ensures
        r as int == if v >= 0 {
            v as int
        } else {
            -(v as int)
        },
{
    if v >= 0 {
        v as u64
    } else {
        (-v) as u64
    }
}

/// The integer square root: the largest integer whose square does not
/// exceed `n`.
pub fn isqrt(n: u128) -> (r: u64)
    ensures
        (r as int) * (r as int) <= n as int,
        (n as int) < ((r as int) + 1) * ((r as int) + 1),
{
    let mut lo: u64 = 0;
    let mut hi: u64 = u64::MAX;
    while lo < hi
        invariant
            lo <= hi,
            (lo as int) * (lo as int) <= n as int,
            (n as int) < ((hi as int) + 1) * ((hi as int) + 1),
        decreases hi - lo,
    {
        let half: u64 = (hi - lo) / 2;
        let mid: u64 = lo + half + 1;
        proof {
            lemma_mul_upper_bound(mid as int, u64::MAX as int, mid as int, u64::MAX as int);
        }
        let sq: u128 = (mid as u128) * (mid as u128);
        if sq <= n {
            lo = mid;
        } else {
            hi = mid - 1;
        }
    }
    lo
}

} // verus!
