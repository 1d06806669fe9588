//! 3-d direction vectors.
//!
//! A `Spear` is a direction: construction clamps the raw components and
//! rescales them to length one (`SCALE` in fixed-point units), except
//! that the zero vector stays zero.  Direction comparisons (`is_same`,
//! `is_back`, `is_ll`) go through the unit forms, so vectors that differ
//! only in magnitude compare equal in direction.

use vstd::prelude::*;

use crate::dot::Dot;
use crate::num::{abs_i, clamped, cut_spec, isqrt_spec, tdiv};
use crate::num::{clamp_c, cut_c, isqrt_ww, mul_gg, mul_ww, tdiv_ww};
use crate::num::{MAX_XYZ, SCALE};
use crate::num::{
    lemma_isqrt_bounds, lemma_isqrt_monotone, lemma_isqrt_unique, lemma_mul_bound, lemma_sq_within,
    lemma_tdiv_mul_exact, lemma_tdiv_range,
};

verus! {

#[derive(Debug, Clone, Copy, PartialEq, Eq, Structural)]
pub struct Spear {
    pub x: i64,
    pub y: i64,
    pub z: i64,
}

impl Spear {
    /// Every component lies in the clamped coordinate range.
    pub open spec fn wf(&self) -> bool {
        &&& -(MAX_XYZ as int) <= self.x <= MAX_XYZ as int
        &&& -(MAX_XYZ as int) <= self.y <= MAX_XYZ as int
        &&& -(MAX_XYZ as int) <= self.z <= MAX_XYZ as int
    }

    /// Every component is at most one world unit in magnitude, as holds
    /// of every constructed (rescaled) direction.
    pub open spec fn unit_scaled(&self) -> bool {
        &&& -(SCALE as int) <= self.x <= SCALE as int
        &&& -(SCALE as int) <= self.y <= SCALE as int
        &&& -(SCALE as int) <= self.z <= SCALE as int
    }

    /// Sum of the squared components.
    pub open spec fn nsq_spec(self) -> int {
        self.x * self.x + self.y * self.y + self.z * self.z
    }

    /// Length of the vector.
    pub open spec fn norm_spec(self) -> int {
        isqrt_spec(self.nsq_spec())
    }

    /// What construction yields: clamp, then rescale to length one (the
    /// zero vector stays zero).  The square root is taken at scaled
    /// precision, so the rescaling stays within a few millionths of unit
    /// length for every nonzero input, short inputs included.
    pub open spec fn new_spec(x: int, y: int, z: int) -> Spear {
        let cx = clamped(x);
        let cy = clamped(y);
        let cz = clamped(z);
        let n = isqrt_spec((cx * cx + cy * cy + cz * cz) * ((SCALE * SCALE) as int));
        if n == 0 {
            Spear { x: 0i64, y: 0i64, z: 0i64 }
        } else {
            Spear {
                x: tdiv(cx * SCALE * SCALE, n) as i64,
                y: tdiv(cy * SCALE * SCALE, n) as i64,
                z: tdiv(cz * SCALE * SCALE, n) as i64,
            }
        }
    }

    /// The unit form: zero for the zero vector, else the rescaled vector.
    pub open spec fn unit_spec(self) -> Spear {
        if self.norm_spec() == 0 {
            Spear { x: 0i64, y: 0i64, z: 0i64 }
        } else {
            Self::new_spec(self.x as int, self.y as int, self.z as int)
        }
    }

    /// The opposite vector.
    pub open spec fn back_spec(self) -> Spear {
        Spear { x: (-self.x) as i64, y: (-self.y) as i64, z: (-self.z) as i64 }
    }

    /// Same direction: equal unit forms.
    pub open spec fn is_same_spec(self, other: Spear) -> bool {
        other.unit_spec() == self.unit_spec()
    }

    /// Opposite direction: the unit forms negate each other.
    pub open spec fn is_back_spec(self, other: Spear) -> bool {
        let us = self.unit_spec();
        let uo = other.unit_spec();
        uo.x == -us.x && uo.y == -us.y && uo.z == -us.z
    }

    /// Parallel: same or opposite direction.
    pub open spec fn is_ll_spec(self, other: Spear) -> bool {
        self.is_same_spec(other) || self.is_back_spec(other)
    }

    /// Scalar (dot) product of the world values, clamped.
    pub open spec fn scalar_spec(self, other: Spear) -> int {
        clamped(tdiv(self.x * other.x + self.y * other.y + self.z * other.z, SCALE as int))
    }

    /// Cross product rescaled to a unit vector.
    pub open spec fn normal_spec(self, other: Spear) -> Spear {
        Self::new_spec(
            tdiv(self.y * other.z - self.z * other.y, SCALE as int),
            tdiv(self.z * other.x - self.x * other.z, SCALE as int),
            tdiv(self.x * other.y - self.y * other.x, SCALE as int),
        )
    }

    /// Cosine of the angle between two vectors; 1 when either is zero.
    pub open spec fn cos_spec(self, other: Spear) -> int {
        if self.norm_spec() == 0 || other.norm_spec() == 0 {
            SCALE as int
        } else {
            cut_spec(
                tdiv(
                    self.scalar_spec(other) * SCALE * SCALE,
                    self.norm_spec() * other.norm_spec(),
                ),
            )
        }
    }

    /// One axis cosine: a component over the vector's norm.
    fn cos_div(c: i64, n: i64) -> (r: i64)
        requires
            0 < n,
            -n <= c <= n,
        ensures
            r as int == tdiv(c * SCALE, n as int),
            -(SCALE as int) <= r <= SCALE as int,
    {
        proof {
            lemma_mul_bound(c as int, SCALE as int, n as int, SCALE as int);
            assert(n as int * SCALE as int == SCALE as int * n as int) by (nonlinear_arith);
            lemma_tdiv_range(c as int * SCALE as int, n as int, SCALE as int);
        }
        tdiv_ww(mul_ww(c, SCALE), n as i128) as i64
    }

    /// Rescale one clamped component to the unit length.
    fn unit_div(c: i64, n: i128) -> (r: i64)
        requires
            0 < n,
            -(MAX_XYZ as int) <= c <= MAX_XYZ as int,
            -n <= c * SCALE <= n,
        ensures
            r as int == tdiv(c * SCALE * SCALE, n as int),
            -(SCALE as int) <= r <= SCALE as int,
    {
        proof {
            lemma_mul_bound(c as int, SCALE as int, MAX_XYZ as int, SCALE as int);
            lemma_mul_bound(c as int * SCALE as int, SCALE as int, n as int, SCALE as int);
            assert(n as int * SCALE as int == SCALE as int * (n as int)) by (nonlinear_arith);
            lemma_tdiv_range((c as int * SCALE as int) * SCALE as int, n as int, SCALE as int);
        }
        tdiv_ww(
            mul_gg(
                mul_ww(c, SCALE),
                SCALE as i128,
                Ghost((MAX_XYZ as int) * (SCALE as int)),
                Ghost(SCALE as int),
            ),
            n,
        ) as i64
    }

    /// New vector from raw components, rescaled to length one; the zero
    /// vector stays zero.
    pub fn new(x: i64, y: i64, z: i64) -> (r: Spear)
        ensures
            r == Self::new_spec(x as int, y as int, z as int),
            r.wf(),
            r.unit_scaled(),
    {
        let cx = clamp_c(x as i128);
        let cy = clamp_c(y as i128);
        let cz = clamp_c(z as i128);
        let xx = mul_ww(cx, cx);
        let yy = mul_ww(cy, cy);
        let zz = mul_ww(cz, cz);
        proof {
            lemma_mul_bound(cx as int, cx as int, MAX_XYZ as int, MAX_XYZ as int);
            lemma_mul_bound(cy as int, cy as int, MAX_XYZ as int, MAX_XYZ as int);
            lemma_mul_bound(cz as int, cz as int, MAX_XYZ as int, MAX_XYZ as int);
            assert(cx as int * cx as int >= 0 && cy as int * cy as int >= 0 && cz as int * cz as int
                >= 0) by (nonlinear_arith);
        }
        let q = xx + yy + zz;
        let qs = mul_gg(
            q,
            (SCALE as i128) * (SCALE as i128),
            Ghost(3 * (MAX_XYZ as int) * (MAX_XYZ as int)),
            Ghost((SCALE as int) * (SCALE as int)),
        );
        proof {
            lemma_mul_bound(
                q as int,
                (SCALE as int) * (SCALE as int),
                3 * (MAX_XYZ as int) * (MAX_XYZ as int),
                (SCALE as int) * (SCALE as int),
            );
            assert(qs as int >= 0) by (nonlinear_arith)
                requires
                    qs as int == q as int * ((SCALE as int) * (SCALE as int)),
                    q as int >= 0,
            ;
        }
        let n = isqrt_ww(qs);
        if n == 0 {
            Spear { x: 0, y: 0, z: 0 }
        } else {
            proof {
                lemma_isqrt_bounds(qs as int);
                assert(cx as int * cx as int * ((SCALE as int) * (SCALE as int)) <= qs as int
                    && (cx * SCALE) * (cx * SCALE) == cx as int * cx as int * ((SCALE as int) * (
                SCALE as int))) by (nonlinear_arith)
                    requires
                        cx as int * cx as int + cy as int * cy as int + cz as int * cz as int
                            == q as int,
                        cy as int * cy as int >= 0,
                        cz as int * cz as int >= 0,
                        qs as int == q as int * ((SCALE as int) * (SCALE as int)),
                ;
                assert(cy as int * cy as int * ((SCALE as int) * (SCALE as int)) <= qs as int
                    && (cy * SCALE) * (cy * SCALE) == cy as int * cy as int * ((SCALE as int) * (
                SCALE as int))) by (nonlinear_arith)
                    requires
                        cx as int * cx as int + cy as int * cy as int + cz as int * cz as int
                            == q as int,
                        cx as int * cx as int >= 0,
                        cz as int * cz as int >= 0,
                        qs as int == q as int * ((SCALE as int) * (SCALE as int)),
                ;
                assert(cz as int * cz as int * ((SCALE as int) * (SCALE as int)) <= qs as int
                    && (cz * SCALE) * (cz * SCALE) == cz as int * cz as int * ((SCALE as int) * (
                SCALE as int))) by (nonlinear_arith)
                    requires
                        cx as int * cx as int + cy as int * cy as int + cz as int * cz as int
                            == q as int,
                        cx as int * cx as int >= 0,
                        cy as int * cy as int >= 0,
                        qs as int == q as int * ((SCALE as int) * (SCALE as int)),
                ;
                lemma_sq_within(cx as int * SCALE as int, n as int);
                lemma_sq_within(cy as int * SCALE as int, n as int);
                lemma_sq_within(cz as int * SCALE as int, n as int);
            }
            Spear {
                x: Self::unit_div(cx, n),
                y: Self::unit_div(cy, n),
                z: Self::unit_div(cz, n),
            }
        }
    }

    /// New vector from one position toward another, rescaled to length one.
    pub fn pp(pp: &[Dot; 2]) -> (r: Spear)
        requires
            pp[0].wf(),
            pp[1].wf(),
        ensures
            r == Self::new_spec(
                pp[1].x - pp[0].x,
                pp[1].y - pp[0].y,
                pp[1].z - pp[0].z,
            ),
            r.wf(),
            r.unit_scaled(),
    {
        Spear::new(pp[1].x - pp[0].x, pp[1].y - pp[0].y, pp[1].z - pp[0].z)
    }

    pub fn from_array(a: [i64; 3]) -> (r: Spear)
        ensures
            r == Self::new_spec(a[0] as int, a[1] as int, a[2] as int),
            r.wf(),
            r.unit_scaled(),
    {
        Spear::new(a[0], a[1], a[2])
    }

    /// Length of the vector.
    pub fn norm(&self) -> (r: i64)
        requires
            self.wf(),
        ensures
            r as int == self.norm_spec(),
            0 <= r <= 2 * MAX_XYZ as int,
    {
        let xx = mul_ww(self.x, self.x);
        let yy = mul_ww(self.y, self.y);
        let zz = mul_ww(self.z, self.z);
        proof {
            lemma_mul_bound(self.x as int, self.x as int, MAX_XYZ as int, MAX_XYZ as int);
            lemma_mul_bound(self.y as int, self.y as int, MAX_XYZ as int, MAX_XYZ as int);
            lemma_mul_bound(self.z as int, self.z as int, MAX_XYZ as int, MAX_XYZ as int);
            assert(self.x as int * self.x as int >= 0 && self.y as int * self.y as int >= 0
                && self.z as int * self.z as int >= 0) by (nonlinear_arith);
        }
        let q = xx + yy + zz;
        let r = isqrt_ww(q);
        proof {
            lemma_isqrt_bounds(q as int);
            assert(r as int <= 2 * MAX_XYZ as int) by (nonlinear_arith)
                requires
                    r as int >= 0,
                    r as int * r as int <= q as int,
                    q as int <= 3 * (MAX_XYZ as int) * (MAX_XYZ as int),
                    r as int == isqrt_spec(q as int),
            ;
        }
        r as i64
    }

    /// Cosine of the angle with the x axis.
    pub fn alf(&self) -> (r: i64)
        requires
            self.wf(),
        ensures
            r as int == if self.norm_spec() == 0 {
                SCALE as int
            } else {
                tdiv(self.x * SCALE, self.norm_spec())
            },
            -(SCALE as int) <= r <= SCALE as int,
    {
        let n = self.norm();
        if n == 0 {
            SCALE
        } else {
            proof {
                lemma_isqrt_bounds(self.nsq_spec());
                self.lemma_component_within_norm();
            }
            Self::cos_div(self.x, n)
        }
    }

    /// Cosine of the angle with the y axis.
    pub fn bet(&self) -> (r: i64)
        requires
            self.wf(),
        ensures
            r as int == if self.norm_spec() == 0 {
                SCALE as int
            } else {
                tdiv(self.y * SCALE, self.norm_spec())
            },
            -(SCALE as int) <= r <= SCALE as int,
    {
        let n = self.norm();
        if n == 0 {
            SCALE
        } else {
            proof {
                lemma_isqrt_bounds(self.nsq_spec());
                self.lemma_component_within_norm();
            }
            Self::cos_div(self.y, n)
        }
    }

    /// Cosine of the angle with the z axis.
    pub fn gam(&self) -> (r: i64)
        requires
            self.wf(),
        ensures
            r as int == if self.norm_spec() == 0 {
                SCALE as int
            } else {
                tdiv(self.z * SCALE, self.norm_spec())
            },
            -(SCALE as int) <= r <= SCALE as int,
    {
        let n = self.norm();
        if n == 0 {
            SCALE
        } else {
            proof {
                lemma_isqrt_bounds(self.nsq_spec());
                self.lemma_component_within_norm();
            }
            Self::cos_div(self.z, n)
        }
    }

    /// Each component has magnitude at most the norm.
    proof fn lemma_component_within_norm(&self)
        requires
            self.norm_spec() >= 0,
            self.nsq_spec() < (self.norm_spec() + 1) * (self.norm_spec() + 1),
        ensures
            -self.norm_spec() <= self.x <= self.norm_spec(),
            -self.norm_spec() <= self.y <= self.norm_spec(),
            -self.norm_spec() <= self.z <= self.norm_spec(),
    {
        assert(self.x * self.x >= 0 && self.y * self.y >= 0 && self.z * self.z >= 0)
            by (nonlinear_arith);
        lemma_sq_within(self.x as int, self.norm_spec());
        lemma_sq_within(self.y as int, self.norm_spec());
        lemma_sq_within(self.z as int, self.norm_spec());
    }

    /// The vector with every component at the clamp ceiling.
    pub fn maximum() -> (r: Spear)
        ensures
            r == (Spear { x: MAX_XYZ, y: MAX_XYZ, z: MAX_XYZ }),
            r.wf(),
    {
        let mut v = Spear::zero();
        v.x = MAX_XYZ;
        v.y = MAX_XYZ;
        v.z = MAX_XYZ;
        v
    }

    pub fn is_maximum(&self) -> (r: bool)
        requires
            self.wf(),
        ensures
            r == (self.norm_spec() == (Spear {
                x: MAX_XYZ,
                y: MAX_XYZ,
                z: MAX_XYZ,
            }).norm_spec()),
    {
        self.norm() == Spear::maximum().norm()
    }

    pub fn zero() -> (r: Spear)
        ensures
            r == (Spear { x: 0i64, y: 0i64, z: 0i64 }),
            r.wf(),
            r.unit_scaled(),
    {
        Spear::new(0, 0, 0)
    }

    /// The unit vector along the x axis.
    pub open spec fn ox_spec() -> Spear {
        Spear { x: SCALE, y: 0i64, z: 0i64 }
    }

    /// The unit vector along the y axis.
    pub open spec fn oy_spec() -> Spear {
        Spear { x: 0i64, y: SCALE, z: 0i64 }
    }

    /// The unit vector along the z axis.
    pub open spec fn oz_spec() -> Spear {
        Spear { x: 0i64, y: 0i64, z: SCALE }
    }

    /// The unit vector along the x axis.
    pub fn ox() -> (r: Spear)
        ensures
            r == Self::ox_spec(),
            r.wf(),
            r.unit_scaled(),
    {
        Spear { x: SCALE, y: 0, z: 0 }
    }

    /// The unit vector along the y axis.
    pub fn oy() -> (r: Spear)
        ensures
            r == Self::oy_spec(),
            r.wf(),
            r.unit_scaled(),
    {
        Spear { x: 0, y: SCALE, z: 0 }
    }

    /// The unit vector along the z axis.
    pub fn oz() -> (r: Spear)
        ensures
            r == Self::oz_spec(),
            r.wf(),
            r.unit_scaled(),
    {
        Spear { x: 0, y: 0, z: SCALE }
    }

    pub fn is_zero(&self) -> (r: bool)
        requires
            self.wf(),
        ensures
            r == (self.norm_spec() == 0),
            r == (self.x == 0 && self.y == 0 && self.z == 0),
    {
        proof {
            self.lemma_zero_norm();
        }
        self.norm() == 0
    }

    /// The norm is zero exactly when every component is zero.
    proof fn lemma_zero_norm(&self)
        ensures
            (self.norm_spec() == 0) == (self.x == 0 && self.y == 0 && self.z == 0),
    {
        assert(self.x * self.x >= 0 && self.y * self.y >= 0 && self.z * self.z >= 0)
            by (nonlinear_arith);
        assert(self.x != 0 ==> self.x * self.x >= 1) by (nonlinear_arith);
        assert(self.y != 0 ==> self.y * self.y >= 1) by (nonlinear_arith);
        assert(self.z != 0 ==> self.z * self.z >= 1) by (nonlinear_arith);
        lemma_isqrt_bounds(self.nsq_spec());
        let n = self.norm_spec();
        if self.x == 0 && self.y == 0 && self.z == 0 {
            assert(self.nsq_spec() == 0);
            assert(n == 0) by (nonlinear_arith)
                requires
                    n >= 0,
                    n * n <= 0,
            ;
        } else {
            assert(self.nsq_spec() >= 1);
            assert(n >= 1) by (nonlinear_arith)
                requires
                    n >= 0,
                    self.nsq_spec() >= 1,
                    self.nsq_spec() < (n + 1) * (n + 1),
            ;
        }
    }

    /// The rescaled all-ones vector.
    pub fn trione() -> (r: Spear)
        ensures
            r == Self::new_spec(SCALE as int, SCALE as int, SCALE as int),
            r.wf(),
            r.unit_scaled(),
    {
        Spear::new(SCALE, SCALE, SCALE)
    }

    pub fn is_trione(&self) -> (r: bool)
        ensures
            r == (self.x == SCALE && self.y == SCALE && self.z == SCALE),
    {
        self.x == SCALE && self.y == SCALE && self.z == SCALE
    }

    /// Unit form: the same direction at length one, or zero for zero.
    pub fn unit(&self) -> (r: Spear)
        requires
            self.wf(),
        ensures
            r == self.unit_spec(),
            r.wf(),
            r.unit_scaled(),
    {
        if self.is_zero() {
            Spear::zero()
        } else {
            Spear::new(self.x, self.y, self.z)
        }
    }

    pub fn is_unit(&self) -> (r: bool)
        requires
            self.wf(),
        ensures
            r == (self.norm_spec() == SCALE as int),
    {
        self.norm() == SCALE
    }

    /// The opposite vector.
    pub fn back(&self) -> (r: Spear)
        requires
            self.wf(),
        ensures
            r == self.back_spec(),
            r.wf(),
    {
        let mut v = Spear::zero();
        v.x = -self.x;
        v.y = -self.y;
        v.z = -self.z;
        v
    }

    /// Opposite direction: the unit forms negate each other.
    pub fn is_back(&self, other: &Spear) -> (r: bool)
        requires
            self.wf(),
            other.wf(),
        ensures
            r == self.is_back_spec(*other),
    {
        let unit_other = other.unit();
        let unit_self = self.unit();
        unit_other.x == -unit_self.x && unit_other.y == -unit_self.y && unit_other.z
            == -unit_self.z
    }

    /// Same direction: equal unit forms.
    pub fn is_same(&self, other: &Spear) -> (r: bool)
        requires
            self.wf(),
            other.wf(),
        ensures
            r == self.is_same_spec(*other),
    {
        let unit_other = other.unit();
        let unit_self = self.unit();
        unit_other.x == unit_self.x && unit_other.y == unit_self.y && unit_other.z == unit_self.z
    }

    /// Parallel: same or opposite direction.
    pub fn is_ll(&self, other: &Spear) -> (r: bool)
        requires
            self.wf(),
            other.wf(),
        ensures
            r == self.is_ll_spec(*other),
    {
        self.is_same(other) || self.is_back(other)
    }

    /// Componentwise equality.
    pub fn is_eq(&self, other: &Spear) -> (r: bool)
        ensures
            r == (self.x == other.x && self.y == other.y && self.z == other.z),
    {
        self.x == other.x && self.y == other.y && self.z == other.z
    }

    /// Scalar (dot) product, clamped to the coordinate range.
    pub fn scalar(&self, other: &Spear) -> (r: i64)
        requires
            self.wf(),
            other.wf(),
        ensures
            r as int == self.scalar_spec(*other),
            -(MAX_XYZ as int) <= r <= MAX_XYZ as int,
    {
        proof {
            lemma_mul_bound(self.x as int, other.x as int, MAX_XYZ as int, MAX_XYZ as int);
            lemma_mul_bound(self.y as int, other.y as int, MAX_XYZ as int, MAX_XYZ as int);
            lemma_mul_bound(self.z as int, other.z as int, MAX_XYZ as int, MAX_XYZ as int);
        }
        let s = mul_ww(self.x, other.x) + mul_ww(self.y, other.y) + mul_ww(self.z, other.z);
        clamp_c(tdiv_ww(s, SCALE as i128))
    }

    /// Cross product, rescaled to a unit vector.  Zero when the inputs
    /// are parallel or one of them is zero.
    pub fn normal(&self, other: &Spear) -> (r: Spear)
        requires
            self.wf(),
            other.wf(),
        ensures
            r == self.normal_spec(*other),
            r.wf(),
            r.unit_scaled(),
    {
        proof {
            lemma_mul_bound(self.y as int, other.z as int, MAX_XYZ as int, MAX_XYZ as int);
            lemma_mul_bound(self.z as int, other.y as int, MAX_XYZ as int, MAX_XYZ as int);
            lemma_mul_bound(self.z as int, other.x as int, MAX_XYZ as int, MAX_XYZ as int);
            lemma_mul_bound(self.x as int, other.z as int, MAX_XYZ as int, MAX_XYZ as int);
            lemma_mul_bound(self.x as int, other.y as int, MAX_XYZ as int, MAX_XYZ as int);
            lemma_mul_bound(self.y as int, other.x as int, MAX_XYZ as int, MAX_XYZ as int);
        }
        let cx = tdiv_ww(mul_ww(self.y, other.z) - mul_ww(self.z, other.y), SCALE as i128);
        let cy = tdiv_ww(mul_ww(self.z, other.x) - mul_ww(self.x, other.z), SCALE as i128);
        let cz = tdiv_ww(mul_ww(self.x, other.y) - mul_ww(self.y, other.x), SCALE as i128);
        proof {
            lemma_tdiv_range(
                self.y * other.z - self.z * other.y,
                SCALE as int,
                2 * (MAX_XYZ as int) * (MAX_XYZ as int) / (SCALE as int),
            );
            lemma_tdiv_range(
                self.z * other.x - self.x * other.z,
                SCALE as int,
                2 * (MAX_XYZ as int) * (MAX_XYZ as int) / (SCALE as int),
            );
            lemma_tdiv_range(
                self.x * other.y - self.y * other.x,
                SCALE as int,
                2 * (MAX_XYZ as int) * (MAX_XYZ as int) / (SCALE as int),
            );
        }
        Spear::new(cx as i64, cy as i64, cz as i64)
    }

    /// Sum, rescaled to a unit vector.
    pub fn add(&self, s: &Spear) -> (r: Spear)
        requires
            self.wf(),
            s.wf(),
        ensures
            r == Self::new_spec(self.x + s.x, self.y + s.y, self.z + s.z),
            r.wf(),
            r.unit_scaled(),
    {
        Spear::new(self.x + s.x, self.y + s.y, self.z + s.z)
    }

    /// Difference, rescaled to a unit vector.
    pub fn sub(&self, s: &Spear) -> (r: Spear)
        requires
            self.wf(),
            s.wf(),
        ensures
            r == Self::new_spec(self.x - s.x, self.y - s.y, self.z - s.z),
            r.wf(),
            r.unit_scaled(),
    {
        Spear::new(self.x - s.x, self.y - s.y, self.z - s.z)
    }

    /// Componentwise product of world values, rescaled to a unit vector.
    pub fn mul(&self, s: &Spear) -> (r: Spear)
        requires
            self.wf(),
            s.wf(),
        ensures
            r == Self::new_spec(
                tdiv(self.x * s.x, SCALE as int),
                tdiv(self.y * s.y, SCALE as int),
                tdiv(self.z * s.z, SCALE as int),
            ),
            r.wf(),
            r.unit_scaled(),
    {
        proof {
            lemma_mul_bound(self.x as int, s.x as int, MAX_XYZ as int, MAX_XYZ as int);
            lemma_mul_bound(self.y as int, s.y as int, MAX_XYZ as int, MAX_XYZ as int);
            lemma_mul_bound(self.z as int, s.z as int, MAX_XYZ as int, MAX_XYZ as int);
        }
        let px = clamp_c(tdiv_ww(mul_ww(self.x, s.x), SCALE as i128));
        let py = clamp_c(tdiv_ww(mul_ww(self.y, s.y), SCALE as i128));
        let pz = clamp_c(tdiv_ww(mul_ww(self.z, s.z), SCALE as i128));
        let r = Spear::new(px, py, pz);
        proof {
            lemma_tdiv_range(
                self.x * s.x,
                SCALE as int,
                (MAX_XYZ as int) * (MAX_XYZ as int) / (SCALE as int),
            );
            lemma_tdiv_range(
                self.y * s.y,
                SCALE as int,
                (MAX_XYZ as int) * (MAX_XYZ as int) / (SCALE as int),
            );
            lemma_tdiv_range(
                self.z * s.z,
                SCALE as int,
                (MAX_XYZ as int) * (MAX_XYZ as int) / (SCALE as int),
            );
        }
        r
    }

    /// Componentwise division of world values (capped on a zero divisor,
    /// 0/0 counting as 1/0), rescaled to a unit vector.
    pub fn div(&self, s: &Spear) -> (r: Spear)
        requires
            self.wf(),
            s.wf(),
        ensures
            r == Self::new_spec(
                Dot::divc_spec(
                    if self.x == 0 && s.x == 0 {
                        SCALE as int
                    } else {
                        self.x as int
                    },
                    s.x as int,
                ),
                Dot::divc_spec(
                    if self.y == 0 && s.y == 0 {
                        SCALE as int
                    } else {
                        self.y as int
                    },
                    s.y as int,
                ),
                Dot::divc_spec(
                    if self.z == 0 && s.z == 0 {
                        SCALE as int
                    } else {
                        self.z as int
                    },
                    s.z as int,
                ),
            ),
            r.wf(),
            r.unit_scaled(),
    {
        let a = Dot { x: self.x, y: self.y, z: self.z };
        let b = Dot { x: s.x, y: s.y, z: s.z };
        let q = a.div(&b);
        Spear::new(q.x, q.y, q.z)
    }

    /// Cosine of the angle between two vectors, clamped to the cosine
    /// domain; 1 when either vector is zero.
    pub fn cos(&self, other: &Spear) -> (r: i64)
        requires
            self.wf(),
            other.wf(),
        ensures
            r as int == self.cos_spec(*other),
            -(SCALE as int) <= r <= SCALE as int,
    {
        if self.is_zero() || other.is_zero() {
            return SCALE;
        }
        let s = self.scalar(other);
        let na = self.norm();
        let nb = other.norm();
        proof {
            lemma_mul_bound(s as int, SCALE as int, MAX_XYZ as int, SCALE as int);
            lemma_mul_bound(s as int * SCALE as int, SCALE as int, (MAX_XYZ as int) * (SCALE as int), SCALE as int);
            lemma_mul_bound(na as int, nb as int, 2 * MAX_XYZ as int, 2 * MAX_XYZ as int);
            assert(na as int * nb as int > 0) by (nonlinear_arith)
                requires
                    na as int > 0,
                    nb as int > 0,
            ;
        }
        cut_c(tdiv_ww(mul_ww(s, SCALE) * (SCALE as i128), mul_ww(na, nb)))
    }
}

/// One rescaled component `u = tdiv(c * SCALE, n)`: `u` is within one
/// world unit, and its magnitude window squares to a window around
/// `c^2 * SCALE^2`.
proof fn lemma_unit_comp_window(c: int, n: int)
    requires
        1 <= n,
        -n <= c <= n,
    ensures
        -(SCALE as int) <= tdiv(c * SCALE, n) <= SCALE as int,
        tdiv(c * SCALE, n) * tdiv(c * SCALE, n) * (n * n) <= c * c * ((SCALE as int) * (
        SCALE as int)),
        c * c * ((SCALE as int) * (SCALE as int)) < (abs_i(tdiv(c * SCALE, n)) + 1) * (abs_i(
            tdiv(c * SCALE, n),
        ) + 1) * (n * n),
        abs_i(tdiv(c * SCALE, n)) <= SCALE as int,
{
    assert(-(SCALE as int) * n <= c * SCALE <= (SCALE as int) * n) by (nonlinear_arith)
        requires
            -n <= c <= n,
            1 <= n,
    ;
    lemma_tdiv_range(c * SCALE, n, SCALE as int);
    let u = tdiv(c * SCALE, n);
    let p = abs_i(c);
    let a = p * (SCALE as int);
    assert(a >= 0 && a == abs_i(c * SCALE)) by (nonlinear_arith)
        requires
            p == abs_i(c),
            a == p * (SCALE as int),
    ;
    let q = a / n;
    vstd::arithmetic::div_mod::lemma_div_pos_is_pos(a, n);
    vstd::arithmetic::div_mod::lemma_fundamental_div_mod(a, n);
    vstd::arithmetic::div_mod::lemma_mod_division_less_than_divisor(a, n);
    assert(q * n <= a < (q + 1) * n) by (nonlinear_arith)
        requires
            a == n * q + a % n,
            0 <= a % n < n,
    ;
    if c >= 0 {
        assert(u == q);
    } else {
        assert(c * SCALE < 0) by (nonlinear_arith)
            requires
                c < 0,
        ;
        assert((c * SCALE) * -1 == a) by (nonlinear_arith)
            requires
                a == abs_i(c * SCALE),
                c * SCALE < 0,
        ;
        assert(u == -q);
    }
    assert(abs_i(u) == q);
    assert(q * q * (n * n) <= a * a) by (nonlinear_arith)
        requires
            0 <= q * n <= a,
    ;
    assert(a * a < (q + 1) * (q + 1) * (n * n)) by (nonlinear_arith)
        requires
            0 <= a < (q + 1) * n,
    ;
    assert(u * u == q * q) by (nonlinear_arith)
        requires
            u == q || u == -q,
    ;
    assert(a * a == c * c * ((SCALE as int) * (SCALE as int))) by (nonlinear_arith)
        requires
            a == abs_i(c) * (SCALE as int),
    ;
}

/// Law: a direction built from a zero input is the zero vector, whose
/// length is zero.
pub proof fn lemma_new_direction_zero(x: int, y: int, z: int)
    requires
        clamped(x) == 0 && clamped(y) == 0 && clamped(z) == 0,
    ensures
        Spear::new_spec(x, y, z) == (Spear { x: 0i64, y: 0i64, z: 0i64 }),
        Spear::new_spec(x, y, z).norm_spec() == 0,
{
    assert(isqrt_spec(0) == 0);
}

/// Law: a direction built from any nonzero input has length one up to
/// the fixed-point tolerance: its norm lies in `[SCALE - 4, SCALE + 1]`.
pub proof fn lemma_new_direction_norm(x: int, y: int, z: int)
    requires
        clamped(x) * clamped(x) + clamped(y) * clamped(y) + clamped(z) * clamped(z) >= 1,
    ensures
        SCALE as int - 4 <= Spear::new_spec(x, y, z).norm_spec() <= SCALE as int + 1,
{
    let s = SCALE as int;
    let cx = clamped(x);
    let cy = clamped(y);
    let cz = clamped(z);
    let q = cx * cx + cy * cy + cz * cz;
    let dx = cx * s;
    let dy = cy * s;
    let dz = cz * s;
    let dd = q * (s * s);
    let n = isqrt_spec(dd);
    assert(cx * cx >= 0 && cy * cy >= 0 && cz * cz >= 0) by (nonlinear_arith);
    assert(dd == dx * dx + dy * dy + dz * dz && dd >= s * s && dx * dx >= 0 && dy * dy >= 0 && dz
        * dz >= 0) by (nonlinear_arith)
        requires
            q == cx * cx + cy * cy + cz * cz,
            q >= 1,
            dx == cx * s,
            dy == cy * s,
            dz == cz * s,
            dd == q * (s * s),
            s == SCALE as int,
    ;
    assert(s * s < (s + 1) * (s + 1)) by (nonlinear_arith)
        requires
            s >= 1,
    ;
    lemma_isqrt_bounds(dd);
    lemma_isqrt_monotone(s * s, dd);
    lemma_isqrt_unique(s * s, s);
    assert(n >= s);
    lemma_sq_within(dx, n);
    lemma_sq_within(dy, n);
    lemma_sq_within(dz, n);
    lemma_unit_comp_window(dx, n);
    lemma_unit_comp_window(dy, n);
    lemma_unit_comp_window(dz, n);
    let ux = tdiv(dx * s, n);
    let uy = tdiv(dy * s, n);
    let uz = tdiv(dz * s, n);
    let v = Spear::new_spec(x, y, z);
    assert(((SCALE * SCALE) as int) == s * s);
    assert(v.x == ux && v.y == uy && v.z == uz);
    let uu = ux * ux + uy * uy + uz * uz;
    assert(uu * (n * n) <= dd * (s * s)) by (nonlinear_arith)
        requires
            ux * ux * (n * n) <= dx * dx * (s * s),
            uy * uy * (n * n) <= dy * dy * (s * s),
            uz * uz * (n * n) <= dz * dz * (s * s),
            uu == ux * ux + uy * uy + uz * uz,
            dd == dx * dx + dy * dy + dz * dz,
    ;
    assert(abs_i(ux) * abs_i(ux) == ux * ux && abs_i(uy) * abs_i(uy) == uy * uy && abs_i(uz)
        * abs_i(uz) == uz * uz) by (nonlinear_arith);
    let k = uu + 2 * (abs_i(ux) + abs_i(uy) + abs_i(uz)) + 3;
    assert(dd * (s * s) < k * (n * n)) by (nonlinear_arith)
        requires
            dx * dx * (s * s) < (abs_i(ux) + 1) * (abs_i(ux) + 1) * (n * n),
            dy * dy * (s * s) < (abs_i(uy) + 1) * (abs_i(uy) + 1) * (n * n),
            dz * dz * (s * s) < (abs_i(uz) + 1) * (abs_i(uz) + 1) * (n * n),
            dd == dx * dx + dy * dy + dz * dz,
            k == uu + 2 * (abs_i(ux) + abs_i(uy) + abs_i(uz)) + 3,
            uu == ux * ux + uy * uy + uz * uz,
            abs_i(ux) * abs_i(ux) == ux * ux,
            abs_i(uy) * abs_i(uy) == uy * uy,
            abs_i(uz) * abs_i(uz) == uz * uz,
    ;
    // upper bound on the squared length of the rescaled vector
    assert(uu <= s * s + 2 * s) by (nonlinear_arith)
        requires
            uu * (n * n) <= dd * (s * s),
            dd < (n + 1) * (n + 1),
            s <= n,
            s == SCALE as int,
            uu >= 0,
    ;
    // lower bound on the squared length of the rescaled vector
    assert(s * s < k) by (nonlinear_arith)
        requires
            dd * (s * s) < k * (n * n),
            n * n <= dd,
            n >= 1,
            s >= 1,
    ;
    assert(uu >= s * s - 6 * s - 2);
    let m = isqrt_spec(uu);
    lemma_isqrt_bounds(uu);
    lemma_isqrt_monotone((s - 4) * (s - 4), uu);
    lemma_isqrt_unique((s - 4) * (s - 4), s - 4);
    assert(m >= s - 4);
    assert(uu < (s + 2) * (s + 2)) by (nonlinear_arith)
        requires
            uu <= s * s + 2 * s,
            s == SCALE as int,
    ;
    assert(m * m < (s + 2) * (s + 2));
    lemma_sq_within(m, s + 1);
    assert(v.norm_spec() == m);
}

/// The unit form of a nonzero vector is itself nonzero: its largest
/// component keeps at least half a world unit of magnitude.
proof fn lemma_unit_nonzero(v: Spear)
    requires
        v.wf(),
        v.norm_spec() != 0,
    ensures
        !(v.unit_spec().x == 0 && v.unit_spec().y == 0 && v.unit_spec().z == 0),
{
    let s = SCALE as int;
    let q = v.nsq_spec();
    assert(v.x * v.x >= 0 && v.y * v.y >= 0 && v.z * v.z >= 0) by (nonlinear_arith);
    assert(v.x != 0 ==> v.x * v.x >= 1) by (nonlinear_arith);
    assert(v.y != 0 ==> v.y * v.y >= 1) by (nonlinear_arith);
    assert(v.z != 0 ==> v.z * v.z >= 1) by (nonlinear_arith);
    lemma_isqrt_bounds(q);
    assert(q >= 1) by {
        if v.x == 0 && v.y == 0 && v.z == 0 {
            assert(isqrt_spec(0) == 0);
        }
    };
    let dd = q * (s * s);
    let n = isqrt_spec(dd);
    assert(dd >= 1) by (nonlinear_arith)
        requires
            q >= 1,
            s >= 1,
            dd == q * (s * s),
    ;
    lemma_isqrt_bounds(dd);
    assert(n >= 1) by (nonlinear_arith)
        requires
            n >= 0,
            dd >= 1,
            dd < (n + 1) * (n + 1),
    ;
    let u = v.unit_spec();
    // some component's square carries at least a third of the weight
    let c = if v.x * v.x >= v.y * v.y && v.x * v.x >= v.z * v.z {
        v.x as int
    } else if v.y * v.y >= v.x * v.x && v.y * v.y >= v.z * v.z {
        v.y as int
    } else {
        v.z as int
    };
    assert(3 * (c * c) >= q);
    assert(c * c >= 1) by (nonlinear_arith)
        requires
            3 * (c * c) >= q,
            q >= 1,
    ;
    assert(abs_i(c) * s * s >= n) by (nonlinear_arith)
        requires
            3 * (c * c) >= q,
            n * n <= q * (s * s),
            n >= 1,
            c * c >= 1,
            s == SCALE as int,
    ;
    assert(abs_i(tdiv(c * s * s, n)) >= 1) by {
        let p = abs_i(c);
        vstd::arithmetic::div_mod::lemma_div_pos_is_pos(p * s * s, n);
        vstd::arithmetic::div_mod::lemma_div_is_ordered(n, p * s * s, n);
        vstd::arithmetic::div_mod::lemma_div_by_self(n);
        if c >= 0 {
            assert(c * s * s > 0 && c * s * s == p * s * s) by (nonlinear_arith)
                requires
                    c >= 0,
                    c * c >= 1,
                    s >= 1,
                    p == c,
            ;
        } else {
            assert(c * s * s < 0 && (c * s * s) * -1 == p * s * s) by (nonlinear_arith)
                requires
                    c < 0,
                    p == -c,
                    s >= 1,
            ;
        }
    };
    assert(((SCALE * SCALE) as int) == s * s);
    assert(u.x == tdiv(v.x * s * s, n) && u.y == tdiv(v.y * s * s, n) && u.z == tdiv(
        v.z * s * s,
        n,
    )) by {
        assert(clamped(v.x as int) == v.x as int && clamped(v.y as int) == v.y as int && clamped(
            v.z as int,
        ) == v.z as int);
        assert((v.x * s) * (v.x * s) <= dd && (v.y * s) * (v.y * s) <= dd && (v.z * s) * (v.z * s)
            <= dd) by (nonlinear_arith)
            requires
                v.x * v.x + v.y * v.y + v.z * v.z == q,
                v.x * v.x >= 0,
                v.y * v.y >= 0,
                v.z * v.z >= 0,
                dd == q * (s * s),
                s >= 1,
        ;
        lemma_sq_within(v.x * s, n);
        lemma_sq_within(v.y * s, n);
        lemma_sq_within(v.z * s, n);
        lemma_unit_comp_window(v.x * s, n);
        lemma_unit_comp_window(v.y * s, n);
        lemma_unit_comp_window(v.z * s, n);
    };
}

/// Law: `is_ll` holds exactly when `is_same` or `is_back` does;
/// `is_same` and `is_back` can hold together only between vectors whose
/// unit forms are zero (so never for two nonzero vectors); and a pair
/// of one zero and one nonzero vector satisfies none of the three — the
/// zero vector is parallel only to itself, by convention.
pub proof fn lemma_direction_relations(a: Spear, b: Spear)
    requires
        a.wf(),
        b.wf(),
    ensures
        a.is_ll_spec(b) == (a.is_same_spec(b) || a.is_back_spec(b)),
        a.is_same_spec(b) && a.is_back_spec(b) ==> a.unit_spec() == (Spear {
            x: 0i64,
            y: 0i64,
            z: 0i64,
        }),
        a.norm_spec() == 0 && b.norm_spec() != 0 ==> !a.is_ll_spec(b),
        a.norm_spec() != 0 && b.norm_spec() == 0 ==> !a.is_ll_spec(b),
        a.norm_spec() == 0 && b.norm_spec() == 0 ==> a.is_same_spec(b) && a.is_back_spec(b)
            && a.is_ll_spec(b),
{
    let ua = a.unit_spec();
    let ub = b.unit_spec();
    if a.is_same_spec(b) && a.is_back_spec(b) {
        assert(ua.x == 0 && ua.y == 0 && ua.z == 0);
    }
    if a.norm_spec() == 0 && b.norm_spec() != 0 {
        lemma_unit_nonzero(b);
        assert(ua.x == 0 && ua.y == 0 && ua.z == 0);
    }
    if a.norm_spec() != 0 && b.norm_spec() == 0 {
        lemma_unit_nonzero(a);
        assert(ub.x == 0 && ub.y == 0 && ub.z == 0);
    }
}

/// A vector whose squared length is exactly one square unit is its own
/// unit form.
pub proof fn lemma_unit_exact(v: Spear)
    requires
        v.wf(),
        v.nsq_spec() == (SCALE as int) * (SCALE as int),
    ensures
        v.unit_spec() == v,
        v.norm_spec() == SCALE as int,
{
    let s = SCALE as int;
    let q = v.nsq_spec();
    assert(v.x * v.x >= 0 && v.y * v.y >= 0 && v.z * v.z >= 0) by (nonlinear_arith);
    assert(s * s < (s + 1) * (s + 1) && s * s > 0) by (nonlinear_arith)
        requires
            s >= 1,
    ;
    lemma_isqrt_unique(s * s, s);
    assert(v.norm_spec() == s);
    lemma_sq_within(v.x as int, s);
    lemma_sq_within(v.y as int, s);
    lemma_sq_within(v.z as int, s);
    assert(clamped(v.x as int) == v.x as int && clamped(v.y as int) == v.y as int && clamped(
        v.z as int,
    ) == v.z as int);
    let dd = q * (s * s);
    assert(dd == (s * s) * (s * s) && dd < ((s * s) + 1) * ((s * s) + 1)) by (nonlinear_arith)
        requires
            q == s * s,
            s >= 1,
            dd == q * (s * s),
    ;
    lemma_isqrt_unique(dd, s * s);
    assert(((SCALE * SCALE) as int) == s * s);
    assert((v.x * s) * s == v.x * (s * s) && (v.y * s) * s == v.y * (s * s) && (v.z * s) * s == v.z
        * (s * s)) by (nonlinear_arith);
    lemma_tdiv_mul_exact(v.x as int, s * s);
    lemma_tdiv_mul_exact(v.y as int, s * s);
    lemma_tdiv_mul_exact(v.z as int, s * s);
}

/// Law: taking the unit form twice changes nothing, for any vector
/// whose unit form has squared length exactly one square unit, or which
/// is zero.  (A unit form's length rounds into `SCALE - 4 .. SCALE + 1`;
/// off the exact square the second rescaling may move a component by a
/// millionth.)
pub proof fn lemma_unit_idempotent(v: Spear)
    requires
        v.wf(),
        v.norm_spec() == 0 || v.unit_spec().nsq_spec() == (SCALE as int) * (SCALE as int),
    ensures
        v.unit_spec().unit_spec() == v.unit_spec(),
{
    if v.norm_spec() == 0 {
        let zu = (Spear { x: 0i64, y: 0i64, z: 0i64 });
        assert(v.unit_spec() == zu);
        assert(zu.nsq_spec() == 0);
        assert(isqrt_spec(0) == 0);
        assert(zu.unit_spec() == zu);
    } else {
        let u = v.unit_spec();
        let s = SCALE as int;
        assert(u.wf()) by {
            assert(u.x * u.x >= 0 && u.y * u.y >= 0 && u.z * u.z >= 0) by (nonlinear_arith);
            assert(s * s < (s + 1) * (s + 1)) by (nonlinear_arith)
                requires
                    s >= 1,
            ;
            lemma_sq_within(u.x as int, s);
            lemma_sq_within(u.y as int, s);
            lemma_sq_within(u.z as int, s);
        };
        lemma_unit_exact(u);
    }
}

/// Every constructed direction has unit-scaled components.
proof fn lemma_new_unit_scaled(x: int, y: int, z: int)
    ensures
        Spear::new_spec(x, y, z).unit_scaled(),
{
    let s = SCALE as int;
    let cx = clamped(x);
    let cy = clamped(y);
    let cz = clamped(z);
    let q = cx * cx + cy * cy + cz * cz;
    let dd = q * (s * s);
    let n = isqrt_spec(dd);
    assert(((SCALE * SCALE) as int) == s * s);
    if n != 0 {
        assert(cx * cx >= 0 && cy * cy >= 0 && cz * cz >= 0) by (nonlinear_arith);
        assert(dd >= 0 && (cx * s) * (cx * s) <= dd && (cy * s) * (cy * s) <= dd && (cz * s) * (cz
            * s) <= dd) by (nonlinear_arith)
            requires
                q == cx * cx + cy * cy + cz * cz,
                cx * cx >= 0,
                cy * cy >= 0,
                cz * cz >= 0,
                dd == q * (s * s),
                s >= 1,
        ;
        lemma_isqrt_bounds(dd);
        lemma_sq_within(cx * s, n);
        lemma_sq_within(cy * s, n);
        lemma_sq_within(cz * s, n);
        lemma_unit_comp_window(cx * s, n);
        lemma_unit_comp_window(cy * s, n);
        lemma_unit_comp_window(cz * s, n);
    }
}

/// One re-division step of an already unit-scaled component: dividing
/// `c * SCALE^2` by anything within the unit form's square-root window
/// moves the component by at most six.
proof fn lemma_redivide_window(c: int, nn: int)
    requires
        -(SCALE as int) <= c <= SCALE as int,
        (SCALE as int) * (SCALE as int) - 4 * (SCALE as int) <= nn,
        nn <= (SCALE as int) * (SCALE as int) + 2 * (SCALE as int),
    ensures
        abs_i(tdiv(c * SCALE * SCALE, nn) - c) <= 6,
{
    let s = SCALE as int;
    let p = abs_i(c);
    let a = p * s * s;
    assert(nn >= 1 && a >= 0 && a == abs_i((c * s) * s)) by (nonlinear_arith)
        requires
            s == SCALE as int,
            (s * s) - 4 * s <= nn,
            p == abs_i(c),
            a == p * s * s,
    ;
    let q = a / nn;
    vstd::arithmetic::div_mod::lemma_div_pos_is_pos(a, nn);
    vstd::arithmetic::div_mod::lemma_fundamental_div_mod(a, nn);
    vstd::arithmetic::div_mod::lemma_mod_division_less_than_divisor(a, nn);
    assert(q * nn <= a < (q + 1) * nn) by (nonlinear_arith)
        requires
            a == nn * q + a % nn,
            0 <= a % nn < nn,
    ;
    // the quotient cannot run more than five over the component
    assert(q - p <= 5) by (nonlinear_arith)
        requires
            q * nn <= a,
            a == p * s * s,
            0 <= p <= s,
            s == SCALE as int,
            (s * s) - 4 * s <= nn,
            q >= 0,
    ;
    // nor more than six under it
    assert(p - q <= 6) by (nonlinear_arith)
        requires
            a < (q + 1) * nn,
            a == p * s * s,
            0 <= p <= s,
            s == SCALE as int,
            nn <= (s * s) + 2 * s,
            q >= 0,
    ;
    if c >= 0 {
        assert(c * s * s == a && (c > 0 ==> c * s * s > 0)) by (nonlinear_arith)
            requires
                c >= 0,
                p == c,
                a == p * s * s,
                s >= 1,
        ;
        assert(tdiv(c * s * s, nn) == q);
    } else {
        assert(c * s * s < 0 && (c * s * s) * -1 == a) by (nonlinear_arith)
            requires
                c < 0,
                p == -c,
                a == p * s * s,
                s >= 1,
        ;
        assert(tdiv(c * s * s, nn) == -q);
    }
}

/// Law: taking the unit form twice moves each component by at most six
/// millionths, for every well-formed vector: idempotence up to the
/// fixed-point tolerance.  (Exact idempotence needs the exact square;
/// see `lemma_unit_idempotent`.)
pub proof fn lemma_unit_idempotent_tolerance(v: Spear)
    requires
        v.wf(),
    ensures
        abs_i(v.unit_spec().unit_spec().x - v.unit_spec().x) <= 6,
        abs_i(v.unit_spec().unit_spec().y - v.unit_spec().y) <= 6,
        abs_i(v.unit_spec().unit_spec().z - v.unit_spec().z) <= 6,
{
    let s = SCALE as int;
    if v.norm_spec() == 0 {
        let zu = (Spear { x: 0i64, y: 0i64, z: 0i64 });
        assert(v.unit_spec() == zu);
        assert(zu.nsq_spec() == 0);
        assert(isqrt_spec(0) == 0);
        assert(zu.unit_spec() == zu);
    } else {
        let u = v.unit_spec();
        assert(u.unit_scaled()) by {
            lemma_new_unit_scaled(v.x as int, v.y as int, v.z as int);
        };
        lemma_unit_norm(v);
        let m = u.norm_spec();
        let qu = u.nsq_spec();
        lemma_isqrt_bounds(qu);
        assert(qu >= 0);
        // the unit form's squared length sits in a tight window
        assert((s - 4) * (s - 4) <= qu < (s + 2) * (s + 2)) by (nonlinear_arith)
            requires
                s - 4 <= m <= s + 1,
                m * m <= qu,
                qu < (m + 1) * (m + 1),
                s == SCALE as int,
        ;
        // and so does the scaled square root that re-unitizing divides by
        let dd = qu * (s * s);
        let nn = isqrt_spec(dd);
        assert(((s - 4) * s) * ((s - 4) * s) <= dd && dd < ((s + 2) * s) * ((s + 2) * s) && ((s
            - 4) * s) * ((s - 4) * s) < ((s - 4) * s + 1) * ((s - 4) * s + 1)) by (nonlinear_arith)
            requires
                (s - 4) * (s - 4) <= qu < (s + 2) * (s + 2),
                dd == qu * (s * s),
                s == SCALE as int,
        ;
        lemma_isqrt_bounds(dd);
        lemma_isqrt_monotone(((s - 4) * s) * ((s - 4) * s), dd);
        lemma_isqrt_unique(((s - 4) * s) * ((s - 4) * s), (s - 4) * s);
        assert(nn >= (s - 4) * s);
        lemma_sq_within(nn, (s + 2) * s - 1);
        assert((s * s) - 4 * s <= nn <= (s * s) + 2 * s) by (nonlinear_arith)
            requires
                (s - 4) * s <= nn,
                nn <= (s + 2) * s - 1,
                s == SCALE as int,
        ;
        // u is nonzero, so its unit form divides by that root
        lemma_unit_nonzero(v);
        assert(u.x * u.x >= 0 && u.y * u.y >= 0 && u.z * u.z >= 0) by (nonlinear_arith);
        assert(u.x != 0 ==> u.x * u.x >= 1) by (nonlinear_arith);
        assert(u.y != 0 ==> u.y * u.y >= 1) by (nonlinear_arith);
        assert(u.z != 0 ==> u.z * u.z >= 1) by (nonlinear_arith);
        assert(u.norm_spec() != 0) by {
            if u.norm_spec() == 0 {
                assert(qu < 1);
            }
        };
        assert(clamped(u.x as int) == u.x as int && clamped(u.y as int) == u.y as int && clamped(
            u.z as int,
        ) == u.z as int);
        assert(((SCALE * SCALE) as int) == s * s);
        lemma_redivide_window(u.x as int, nn);
        lemma_redivide_window(u.y as int, nn);
        lemma_redivide_window(u.z as int, nn);
        let uu = u.unit_spec();
        assert(uu.x == tdiv(u.x * s * s, nn) && uu.y == tdiv(u.y * s * s, nn) && uu.z == tdiv(
            u.z * s * s,
            nn,
        )) by {
            lemma_new_unit_scaled(u.x as int, u.y as int, u.z as int);
        };
    }
}

/// Law: the unit form of any nonzero well-formed vector has length one
/// up to the fixed-point tolerance.
pub proof fn lemma_unit_norm(v: Spear)
    requires
        v.wf(),
        v.norm_spec() != 0,
    ensures
        SCALE as int - 4 <= v.unit_spec().norm_spec() <= SCALE as int + 1,
{
    let q = v.nsq_spec();
    assert(v.x * v.x >= 0 && v.y * v.y >= 0 && v.z * v.z >= 0) by (nonlinear_arith);
    assert(v.x != 0 ==> v.x * v.x >= 1) by (nonlinear_arith);
    assert(v.y != 0 ==> v.y * v.y >= 1) by (nonlinear_arith);
    assert(v.z != 0 ==> v.z * v.z >= 1) by (nonlinear_arith);
    lemma_isqrt_bounds(q);
    assert(q >= 1) by {
        if v.x == 0 && v.y == 0 && v.z == 0 {
            assert(isqrt_spec(0) == 0);
        }
    };
    assert(clamped(v.x as int) == v.x as int && clamped(v.y as int) == v.y as int && clamped(
        v.z as int,
    ) == v.z as int);
    lemma_new_direction_norm(v.x as int, v.y as int, v.z as int);
}

} // verus!
