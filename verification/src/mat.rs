//! Oriented planes.
//!
//! A `Mat` is a flat surface in implicit form: coefficients `(a, b, c)`
//! equal to the components of its unit normal, plus `d` chosen so that
//! `a*x + b*y + c*z + d == 0` holds (in world units) for every point of
//! the plane.  The originating point and normal are kept alongside the
//! coefficients, and a `Mat` doubles as a parametric ray (`origin` the
//! start, `normal` the direction).  A zero normal is invalid input: the
//! constructor answers it with the designated zero-plane sentinel,
//! recognisable through `is_zero`.

use vstd::prelude::*;

use crate::dot::Dot;
use crate::num::{cdiv, clamped, tdiv};
use crate::num::{cdiv_ww, clamp_c, mul_ww, tdiv_ww};
use crate::num::{lemma_mul_bound, lemma_tdiv_range};
use crate::num::{MAX_XYZ, SCALE};
use crate::spear::Spear;

verus! {

#[derive(Debug, Clone, Copy, PartialEq, Eq, Structural)]
pub struct Mat {
    pub a: i64,
    pub b: i64,
    pub c: i64,
    pub d: i64,
    /// origin point of the plane normal
    pub origin: Dot,
    /// normal vector of the plane
    pub normal: Spear,
}

impl Mat {
    /// The coefficients mirror a unit-scaled normal, the free
    /// coefficient is the one construction computes, and both carried
    /// values are well-formed.
    pub open spec fn wf(&self) -> bool {
        &&& self.origin.wf()
        &&& self.normal.unit_scaled()
        &&& self.a == self.normal.x
        &&& self.b == self.normal.y
        &&& self.c == self.normal.z
        &&& self.d == Self::dcoef_spec(self.origin, self.normal)
        &&& -3 * (MAX_XYZ as int) <= self.d <= 3 * (MAX_XYZ as int)
    }

    /// The free coefficient: `-(normal . origin)` in world units.
    pub open spec fn dcoef_spec(origin: Dot, normal: Spear) -> int {
        tdiv(-(normal.x * origin.x + normal.y * origin.y + normal.z * origin.z), SCALE as int)
    }

    /// The zero-plane sentinel.
    pub open spec fn zero_spec() -> Mat {
        Mat {
            a: 0i64,
            b: 0i64,
            c: 0i64,
            d: 0i64,
            origin: Dot { x: 0i64, y: 0i64, z: 0i64 },
            normal: Spear { x: 0i64, y: 0i64, z: 0i64 },
        }
    }

    /// What construction yields: the zero sentinel on a zero normal,
    /// else the implicit coefficients of the given plane.
    pub open spec fn new_spec(origin: Dot, normal: Spear) -> Mat {
        if normal.x == 0 && normal.y == 0 && normal.z == 0 {
            Self::zero_spec()
        } else {
            Mat {
                a: normal.x,
                b: normal.y,
                c: normal.z,
                d: Self::dcoef_spec(origin, normal) as i64,
                origin,
                normal,
            }
        }
    }

    /// The implicit form evaluated at a point, in fixed-point units:
    /// zero on the plane, positive on the normal's side.
    pub open spec fn val_spec(self, p: Dot) -> int {
        tdiv(self.a * p.x + self.b * p.y + self.c * p.z, SCALE as int) + self.d
    }

    /// Bound used when evaluating the implicit form of a well-formed
    /// plane at a well-formed point.
    proof fn lemma_val_bound(self, p: Dot)
        requires
            self.wf(),
            p.wf(),
        ensures
            -6 * (MAX_XYZ as int) <= self.val_spec(p) <= 6 * (MAX_XYZ as int),
    {
        lemma_mul_bound(self.a as int, p.x as int, SCALE as int, MAX_XYZ as int);
        lemma_mul_bound(self.b as int, p.y as int, SCALE as int, MAX_XYZ as int);
        lemma_mul_bound(self.c as int, p.z as int, SCALE as int, MAX_XYZ as int);
        lemma_tdiv_range(
            self.a * p.x + self.b * p.y + self.c * p.z,
            SCALE as int,
            3 * MAX_XYZ as int,
        );
    }

    /// The implicit form at a point, as executable code.
    fn val_at(&self, p: &Dot) -> (v: i128)
        requires
            self.wf(),
            p.wf(),
        ensures
            v as int == self.val_spec(*p),
            -6 * (MAX_XYZ as int) <= v <= 6 * (MAX_XYZ as int),
    {
        proof {
            lemma_mul_bound(self.a as int, p.x as int, SCALE as int, MAX_XYZ as int);
            lemma_mul_bound(self.b as int, p.y as int, SCALE as int, MAX_XYZ as int);
            lemma_mul_bound(self.c as int, p.z as int, SCALE as int, MAX_XYZ as int);
            self.lemma_val_bound(*p);
        }
        let s = mul_ww(self.a, p.x) + mul_ww(self.b, p.y) + mul_ww(self.c, p.z);
        tdiv_ww(s, SCALE as i128) + self.d as i128
    }

    /// New plane through `origin` with the direction of `normal`; a zero
    /// normal is invalid and yields the zero-plane sentinel.
    pub fn new(origin: Dot, normal: Spear) -> (r: Mat)
        requires
            origin.wf(),
            normal.unit_scaled(),
        ensures
            r == Self::new_spec(origin, normal),
            r.wf(),
    {
        if normal.x == 0 && normal.y == 0 && normal.z == 0 {
            Mat::zero()
        } else {
            proof {
                lemma_mul_bound(normal.x as int, origin.x as int, SCALE as int, MAX_XYZ as int);
                lemma_mul_bound(normal.y as int, origin.y as int, SCALE as int, MAX_XYZ as int);
                lemma_mul_bound(normal.z as int, origin.z as int, SCALE as int, MAX_XYZ as int);
                lemma_tdiv_range(
                    -(normal.x * origin.x + normal.y * origin.y + normal.z * origin.z),
                    SCALE as int,
                    3 * MAX_XYZ as int,
                );
            }
            let s = mul_ww(normal.x, origin.x) + mul_ww(normal.y, origin.y) + mul_ww(
                normal.z,
                origin.z,
            );
            let d = tdiv_ww(-s, SCALE as i128) as i64;
            Mat { a: normal.x, b: normal.y, c: normal.z, d, origin, normal }
        }
    }

    /// New plane through `origin` whose normal points toward
    /// `normal_direction`.
    pub fn pp(origin: Dot, normal_direction: Dot) -> (r: Mat)
        requires
            origin.wf(),
            normal_direction.wf(),
        ensures
            r == Self::new_spec(
                origin,
                Spear::new_spec(
                    normal_direction.x - origin.x,
                    normal_direction.y - origin.y,
                    normal_direction.z - origin.z,
                ),
            ),
            r.wf(),
    {
        let normal = Spear::pp(&[origin, normal_direction]);
        Mat::new(origin, normal)
    }

    pub fn zero() -> (r: Mat)
        ensures
            r == Self::zero_spec(),
            r.wf(),
    {
        Mat {
            a: 0,
            b: 0,
            c: 0,
            d: 0,
            origin: Dot::zero(),
            normal: Spear { x: 0, y: 0, z: 0 },
        }
    }

    /// The same plane, rebuilt from its origin and normal (a zero-normal
    /// plane collapses to the sentinel, losing its origin, as
    /// construction always does).
    pub fn same(&self) -> (r: Mat)
        requires
            self.wf(),
        ensures
            r == Self::new_spec(self.origin, self.normal),
            !(self.normal.x == 0 && self.normal.y == 0 && self.normal.z == 0) ==> r == *self,
    {
        Mat::new(self.origin, self.normal)
    }

    /// The planes' normals point the same way.
    pub fn is_same(&self, o: &Mat) -> (r: bool)
        requires
            self.wf(),
            o.wf(),
        ensures
            r == self.normal.is_same_spec(o.normal),
    {
        self.normal.is_same(&o.normal)
    }

    pub fn is_zero(&self) -> (r: bool)
        ensures
            r == (self.a == 0 && self.b == 0 && self.c == 0),
    {
        self.a == 0 && self.b == 0 && self.c == 0
    }

    /// The planes' normals point opposite ways.
    pub fn is_back(&self, o: &Mat) -> (r: bool)
        requires
            self.wf(),
            o.wf(),
        ensures
            r == self.normal.is_back_spec(o.normal),
    {
        self.normal.is_back(&o.normal)
    }

    /// The planes are parallel.
    pub fn is_ll(&self, o: &Mat) -> (r: bool)
        requires
            self.wf(),
            o.wf(),
        ensures
            r == self.normal.is_ll_spec(o.normal),
    {
        self.normal.is_ll(&o.normal)
    }

    /// The planes carry the same flat surface, compared through the
    /// cross-products of their coefficients.
    pub fn is_eq(&self, o: &Mat) -> (r: bool)
        requires
            self.wf(),
            o.wf(),
        ensures
            r == (self.a * o.d == o.a * self.d && self.b * o.d == o.b * self.d && self.c * o.d
                == o.c * self.d),
    {
        mul_ww(self.a, o.d) == mul_ww(o.a, self.d) && mul_ww(self.b, o.d) == mul_ww(o.b, self.d)
            && mul_ww(self.c, o.d) == mul_ww(o.c, self.d)
    }

    /// Distance between two parallel planes; zero when they are not
    /// parallel, and the clamp ceiling when both are the zero sentinel.
    pub open spec fn d_mat_spec(self, o: Mat) -> int {
        if self.normal.is_ll_spec(o.normal) {
            let n = self.normal.norm_spec();
            if n == 0 {
                MAX_XYZ as int
            } else {
                clamped(tdiv((if self.d - o.d >= 0 { self.d - o.d } else { o.d - self.d }) * SCALE, n))
            }
        } else {
            0
        }
    }

    /// Distance between two parallel planes (zero when not parallel).
    pub fn d_mat(&self, o: &Mat) -> (r: i64)
        requires
            self.wf(),
            o.wf(),
        ensures
            r as int == self.d_mat_spec(*o),
    {
        if self.is_ll(o) {
            let n = self.normal.norm();
            if n == 0 {
                MAX_XYZ
            } else {
                let num: i64 = if self.d - o.d >= 0 {
                    self.d - o.d
                } else {
                    o.d - self.d
                };
                proof {
                    lemma_mul_bound(num as int, SCALE as int, 6 * MAX_XYZ as int, SCALE as int);
                }
                clamp_c(tdiv_ww(mul_ww(num, SCALE), n as i128))
            }
        } else {
            0
        }
    }
}

impl Dot {
    /// Distance from this point to a plane, rounded up so that only
    /// points of the plane itself are at distance zero (the clamp
    /// ceiling for the zero-plane sentinel, whose distance is
    /// undefined).
    pub open spec fn d_mat_spec(self, m: Mat) -> int {
        let n = m.normal.norm_spec();
        if n == 0 {
            MAX_XYZ as int
        } else {
            let v = m.val_spec(self);
            cdiv((if v >= 0 { v } else { -v }) * SCALE, n)
        }
    }

    /// Distance from this point to a plane.
    pub fn d_mat(&self, m: &Mat) -> (r: i64)
        requires
            self.wf(),
            m.wf(),
        ensures
            r as int == self.d_mat_spec(*m),
            0 <= r,
            m.normal.norm_spec() != 0 ==> ((r == 0) <==> m.val_spec(*self) == 0),
    {
        let n = m.normal.norm();
        if n == 0 {
            MAX_XYZ
        } else {
            let v = m.val_at(self);
            let av: i128 = if v >= 0 {
                v
            } else {
                -v
            };
            proof {
                lemma_mul_bound(av as int, SCALE as int, 6 * MAX_XYZ as int, SCALE as int);
                assert(av as int * SCALE as int >= 0 && (av as int * SCALE as int == 0) == (av
                    == 0)) by (nonlinear_arith)
                    requires
                        av >= 0,
                ;
            }
            cdiv_ww(av * (SCALE as i128), n as i128) as i64
        }
    }

    /// The point lies on the side of the plane its normal points to.
    pub fn is_above(&self, m: &Mat) -> (r: bool)
        requires
            self.wf(),
            m.wf(),
        ensures
            r == (m.val_spec(*self) > 0),
    {
        m.val_at(self) > 0
    }

    /// The point lies on the side of the plane away from its normal.
    pub fn is_below(&self, m: &Mat) -> (r: bool)
        requires
            self.wf(),
            m.wf(),
        ensures
            r == (m.val_spec(*self) < 0),
    {
        m.val_at(self) < 0
    }
}

} // verus!
