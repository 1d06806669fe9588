//! 3-d positions.
//!
//! A `Dot` is a point whose coordinates are fixed-point values in the
//! safe range (see `num`).  Construction clamps, so a well-formed value
//! can never overflow downstream products.  The all-ceiling point
//! `Dot::maximum()` is the sentinel for "no intersection".

use vstd::prelude::*;

use crate::num::{clamped, isqrt_spec, tdiv, clamp_c, isqrt_ww, mul_ww, tdiv_ww};
use crate::num::{MAX_XYZ, SCALE};
use crate::num::{lemma_isqrt_bounds, lemma_mul_bound};
use crate::spear::Spear;

verus! {

#[derive(Debug, Clone, Copy, PartialEq, Eq, Structural)]
pub struct Dot {
    pub x: i64,
    pub y: i64,
    pub z: i64,
}

impl Dot {
    /// Every coordinate lies in the clamped range.
    pub open spec fn wf(&self) -> bool {
        &&& -(MAX_XYZ as int) <= self.x <= MAX_XYZ as int
        &&& -(MAX_XYZ as int) <= self.y <= MAX_XYZ as int
        &&& -(MAX_XYZ as int) <= self.z <= MAX_XYZ as int
    }

    /// What construction from raw coordinates yields.
    pub open spec fn new_spec(x: int, y: int, z: int) -> Dot {
        Dot { x: clamped(x) as i64, y: clamped(y) as i64, z: clamped(z) as i64 }
    }

    /// Squared distance between two positions.
    pub open spec fn dsq_spec(self, o: Dot) -> int {
        (self.x - o.x) * (self.x - o.x) + (self.y - o.y) * (self.y - o.y) + (self.z - o.z) * (self.z
            - o.z)
    }

    /// Distance between two positions.
    pub open spec fn d_dot_spec(self, o: Dot) -> int {
        isqrt_spec(self.dsq_spec(o))
    }

    /// Offset along a vector: each coordinate moves by `s_c * t / |s|`.
    pub open spec fn offset_spec(self, s: Spear, t: int) -> Dot {
        let n = s.norm_spec();
        if t == 0 || n == 0 {
            Dot { x: self.x, y: self.y, z: self.z }
        } else {
            Self::new_spec(
                self.x + tdiv(s.x * t, n),
                self.y + tdiv(s.y * t, n),
                self.z + tdiv(s.z * t, n),
            )
        }
    }

    /// One component of the division policy: a zero divisor caps the
    /// quotient at the clamp ceiling instead of overflowing.
    pub open spec fn divc_spec(n: int, d: int) -> int {
        if d == 0 {
            if n >= 0 {
                MAX_XYZ as int
            } else {
                -(MAX_XYZ as int)
            }
        } else {
            clamped(tdiv(n * SCALE, d))
        }
    }

    pub fn new(x: i64, y: i64, z: i64) -> (r: Dot)
        ensures
            r == Self::new_spec(x as int, y as int, z as int),
            r.wf(),
    {
        Dot { x: clamp_c(x as i128), y: clamp_c(y as i128), z: clamp_c(z as i128) }
    }

    pub fn zero() -> (r: Dot)
        ensures
            r == (Dot { x: 0i64, y: 0i64, z: 0i64 }),
            r.wf(),
    {
        Dot::new(0, 0, 0)
    }

    pub fn is_zero(&self) -> (r: bool)
        ensures
            r == (self.x == 0 && self.y == 0 && self.z == 0),
    {
        self.x == 0 && self.y == 0 && self.z == 0
    }

    /// The sentinel "no intersection / unboundedly far" point.
    pub open spec fn maximum_spec() -> Dot {
        Dot { x: MAX_XYZ, y: MAX_XYZ, z: MAX_XYZ }
    }

    /// The sentinel point: every coordinate at the clamp ceiling.
    pub fn maximum() -> (r: Dot)
        ensures
            r == Self::maximum_spec(),
            r.wf(),
    {
        Dot { x: MAX_XYZ, y: MAX_XYZ, z: MAX_XYZ }
    }

    pub fn is_maximum(&self) -> (r: bool)
        ensures
            r == (self.x == MAX_XYZ && self.y == MAX_XYZ && self.z == MAX_XYZ),
    {
        self.x == MAX_XYZ && self.y == MAX_XYZ && self.z == MAX_XYZ
    }

    /// A copy of this position.
    pub fn same(&self) -> (r: Dot)
        ensures
            r == *self,
    {
        Dot { x: self.x, y: self.y, z: self.z }
    }

    pub fn from_array(a: [i64; 3]) -> (r: Dot)
        ensures
            r == Self::new_spec(a[0] as int, a[1] as int, a[2] as int),
            r.wf(),
    {
        Dot::new(a[0], a[1], a[2])
    }

    pub fn to_array(&self) -> (r: [i64; 3])
        ensures
            r[0] == self.x && r[1] == self.y && r[2] == self.z,
    {
        [self.x, self.y, self.z]
    }

    pub fn from_vec(v: Vec<i64>) -> (r: Dot)
        requires
            v.len() >= 3,
        ensures
            r == Self::new_spec(v[0] as int, v[1] as int, v[2] as int),
            r.wf(),
    {
        Dot::new(v[0], v[1], v[2])
    }

    pub fn to_vec(&self) -> (r: Vec<i64>)
        ensures
            r@ == seq![self.x, self.y, self.z],
    {
        let mut v: Vec<i64> = Vec::new();
        v.push(self.x);
        v.push(self.y);
        v.push(self.z);
        proof {
            assert(v@ =~= seq![self.x, self.y, self.z]);
        }
        v
    }

    pub fn from_spear(s: Spear) -> (r: Dot)
        ensures
            r == Self::new_spec(s.x as int, s.y as int, s.z as int),
            r.wf(),
    {
        Dot::new(s.x, s.y, s.z)
    }

    pub fn to_spear(&self) -> (r: Spear)
        ensures
            r == Spear::new_spec(self.x as int, self.y as int, self.z as int),
            r.wf(),
    {
        Spear::new(self.x, self.y, self.z)
    }

    pub fn add(&self, o: &Dot) -> (r: Dot)
        requires
            self.wf(),
            o.wf(),
        ensures
            r == Self::new_spec(self.x + o.x, self.y + o.y, self.z + o.z),
            r.wf(),
    {
        Dot::new(
            clamp_c(self.x as i128 + o.x as i128),
            clamp_c(self.y as i128 + o.y as i128),
            clamp_c(self.z as i128 + o.z as i128),
        )
    }

    pub fn sub(&self, o: &Dot) -> (r: Dot)
        requires
            self.wf(),
            o.wf(),
        ensures
            r == Self::new_spec(self.x - o.x, self.y - o.y, self.z - o.z),
            r.wf(),
    {
        Dot::new(
            clamp_c(self.x as i128 - o.x as i128),
            clamp_c(self.y as i128 - o.y as i128),
            clamp_c(self.z as i128 - o.z as i128),
        )
    }

    /// Componentwise product of the world values the coordinates stand for.
    pub fn mul(&self, o: &Dot) -> (r: Dot)
        requires
            self.wf(),
            o.wf(),
        ensures
            r == Self::new_spec(
                tdiv(self.x * o.x, SCALE as int),
                tdiv(self.y * o.y, SCALE as int),
                tdiv(self.z * o.z, SCALE as int),
            ),
            r.wf(),
    {
        Dot::new(
            clamp_c(tdiv_ww(mul_ww(self.x, o.x), SCALE as i128)),
            clamp_c(tdiv_ww(mul_ww(self.y, o.y), SCALE as i128)),
            clamp_c(tdiv_ww(mul_ww(self.z, o.z), SCALE as i128)),
        )
    }

    /// Componentwise division; a zero divisor yields the capped maximum
    /// instead of a non-finite value, and 0/0 counts as 1/0.
    pub fn div(&self, o: &Dot) -> (r: Dot)
        requires
            self.wf(),
            o.wf(),
        ensures
            r.x as int == Self::divc_spec(
                if self.x == 0 && o.x == 0 {
                    SCALE as int
                } else {
                    self.x as int
                },
                o.x as int,
            ),
            r.y as int == Self::divc_spec(
                if self.y == 0 && o.y == 0 {
                    SCALE as int
                } else {
                    self.y as int
                },
                o.y as int,
            ),
            r.z as int == Self::divc_spec(
                if self.z == 0 && o.z == 0 {
                    SCALE as int
                } else {
                    self.z as int
                },
                o.z as int,
            ),
            r.wf(),
    {
        let nx: i64 = if self.x == 0 && o.x == 0 {
            SCALE
        } else {
            self.x
        };
        let ny: i64 = if self.y == 0 && o.y == 0 {
            SCALE
        } else {
            self.y
        };
        let nz: i64 = if self.z == 0 && o.z == 0 {
            SCALE
        } else {
            self.z
        };
        Dot { x: Self::divc(nx, o.x), y: Self::divc(ny, o.y), z: Self::divc(nz, o.z) }
    }

    fn divc(n: i64, d: i64) -> (r: i64)
        requires
            -(MAX_XYZ as int) <= n <= MAX_XYZ as int || n == SCALE as int,
        ensures
            r as int == Self::divc_spec(n as int, d as int),
            -(MAX_XYZ as int) <= r <= MAX_XYZ as int,
    {
        if d == 0 {
            if n >= 0 {
                MAX_XYZ
            } else {
                -MAX_XYZ
            }
        } else {
            clamp_c(tdiv_ww(mul_ww(n, SCALE), d as i128))
        }
    }

    pub fn mirror_x(&self) -> (r: Dot)
        requires
            self.wf(),
        ensures
            r.x == -self.x && r.y == self.y && r.z == self.z,
            r.wf(),
    {
        Dot { x: -self.x, y: self.y, z: self.z }
    }

    pub fn mirror_y(&self) -> (r: Dot)
        requires
            self.wf(),
        ensures
            r.x == self.x && r.y == -self.y && r.z == self.z,
            r.wf(),
    {
        Dot { x: self.x, y: -self.y, z: self.z }
    }

    pub fn mirror_z(&self) -> (r: Dot)
        requires
            self.wf(),
        ensures
            r.x == self.x && r.y == self.y && r.z == -self.z,
            r.wf(),
    {
        Dot { x: self.x, y: self.y, z: -self.z }
    }

    pub fn mirror_xy(&self) -> (r: Dot)
        requires
            self.wf(),
        ensures
            r.x == -self.x && r.y == -self.y && r.z == self.z,
            r.wf(),
    {
        Dot { x: -self.x, y: -self.y, z: self.z }
    }

    pub fn mirror_xz(&self) -> (r: Dot)
        requires
            self.wf(),
        ensures
            r.x == -self.x && r.y == self.y && r.z == -self.z,
            r.wf(),
    {
        Dot { x: -self.x, y: self.y, z: -self.z }
    }

    pub fn mirror_yz(&self) -> (r: Dot)
        requires
            self.wf(),
        ensures
            r.x == self.x && r.y == -self.y && r.z == -self.z,
            r.wf(),
    {
        Dot { x: self.x, y: -self.y, z: -self.z }
    }

    pub fn mirror(&self) -> (r: Dot)
        requires
            self.wf(),
        ensures
            r.x == -self.x && r.y == -self.y && r.z == -self.z,
            r.wf(),
    {
        Dot { x: -self.x, y: -self.y, z: -self.z }
    }

    /// Move this position by the length `t` along the direction of `s`.
    pub fn offset(&self, s: &Spear, t: i64) -> (r: Dot)
        requires
            self.wf(),
            s.wf(),
        ensures
            r == self.offset_spec(*s, t as int),
            r.wf(),
    {
        let n = s.norm();
        if t == 0 || n == 0 {
            Dot::new(self.x, self.y, self.z)
        } else {
            Dot::new(
                clamp_c(self.x as i128 + tdiv_ww(mul_ww(s.x, t), n as i128)),
                clamp_c(self.y as i128 + tdiv_ww(mul_ww(s.y, t), n as i128)),
                clamp_c(self.z as i128 + tdiv_ww(mul_ww(s.z, t), n as i128)),
            )
        }
    }

    /// Distance between two positions.
    pub fn d_dot(&self, o: &Dot) -> (r: i64)
        requires
            self.wf(),
            o.wf(),
        ensures
            r as int == self.d_dot_spec(*o),
            0 <= r <= 4 * MAX_XYZ as int,
    {
        let dx = self.x - o.x;
        let dy = self.y - o.y;
        let dz = self.z - o.z;
        let xx = mul_ww(dx, dx);
        let yy = mul_ww(dy, dy);
        let zz = mul_ww(dz, dz);
        proof {
            lemma_mul_bound(dx as int, dx as int, 2 * MAX_XYZ as int, 2 * MAX_XYZ as int);
            lemma_mul_bound(dy as int, dy as int, 2 * MAX_XYZ as int, 2 * MAX_XYZ as int);
            lemma_mul_bound(dz as int, dz as int, 2 * MAX_XYZ as int, 2 * MAX_XYZ as int);
            assert(dx as int * dx as int >= 0 && dy as int * dy as int >= 0 && dz as int * dz as int
                >= 0) by (nonlinear_arith);
        }
        let q = xx + yy + zz;
        let r = isqrt_ww(q);
        proof {
            lemma_isqrt_bounds(q as int);
            assert(r as int <= 4 * MAX_XYZ as int) by (nonlinear_arith)
                requires
                    r as int >= 0,
                    r as int * r as int <= q as int,
                    q as int <= 12 * (MAX_XYZ as int) * (MAX_XYZ as int),
                    r as int == isqrt_spec(q as int),
            ;
        }
        r as i64
    }
}

/// Law: rebuilding a position from its own array form gives the
/// position back, for every well-formed position.
pub proof fn lemma_array_round_trip(p: Dot)
    requires
        p.wf(),
    ensures
        Dot::new_spec(p.x as int, p.y as int, p.z as int) == p,
{
}

} // verus!
