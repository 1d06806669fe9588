//! Ray-object intersections.
//!
//! Each routine takes a ray (a `Mat`: origin plus direction) and object
//! parameters, and returns the nearest intersection `Dot`, or the
//! sentinel `Dot::maximum()` when there is none.  Degeneracies (zero
//! direction, parallel ray, negative discriminant, absurd sizes) all
//! resolve to the sentinel, never to an error.

use vstd::prelude::*;

use crate::dot::Dot;
use crate::gem::Gem;
use crate::mat::Mat;
use crate::num::{abs_i, clamped, isqrt_spec, tdiv};
use crate::num::{clamp_c, isqrt_ww, mul_gg, mul_ww, tdiv_ww};
use crate::num::{MAX_XYZ, SCALE};
use crate::num::{
    lemma_isqrt_bounds, lemma_isqrt_unique, lemma_mul_bound, lemma_sq_within, lemma_tdiv_mul_exact,
};
use crate::spear::Spear;

verus! {

/// The magnitude of a raw size parameter, clamped to the safe range.
pub open spec fn guard_spec(v: int) -> int {
    clamped(abs_i(v))
}

/// Guard a raw size parameter: magnitude, clamped.
pub fn guard_len(v: i64) -> (r: i64)
    ensures
        r as int == guard_spec(v as int),
        0 <= r <= MAX_XYZ as int,
{
    let w: i128 = if (v as i128) >= 0 {
        v as i128
    } else {
        -(v as i128)
    };
    clamp_c(w)
}

/// The nearer of two candidate points, seen from `o`.
pub open spec fn nearer_spec(a: Dot, b: Dot, o: Dot) -> Dot {
    if a.d_dot_spec(o) < b.d_dot_spec(o) {
        a
    } else {
        b
    }
}

impl Gem {
    /// The numerator of the line-plane parameter.
    pub open spec fn lxm_tup(ray: Mat, mat: Mat) -> int {
        -(mat.a * ray.origin.x + mat.b * ray.origin.y + mat.c * ray.origin.z + mat.d * SCALE)
    }

    /// The denominator of the line-plane parameter.
    pub open spec fn lxm_tdn(ray: Mat, mat: Mat) -> int {
        mat.a * ray.normal.x + mat.b * ray.normal.y + mat.c * ray.normal.z
    }

    /// Intersection of a full line with a plane: the sentinel when the
    /// line is parallel to the plane, the line's own origin when it lies
    /// on the plane.
    pub open spec fn line_x_mat_spec(ray: Mat, mat: Mat) -> Dot {
        let tup = Self::lxm_tup(ray, mat);
        let tdn = Self::lxm_tdn(ray, mat);
        if tdn == 0 {
            Dot::maximum_spec()
        } else if tup == 0 {
            ray.origin
        } else {
            Dot::new_spec(
                ray.origin.x + tdiv(ray.normal.x * tup, tdn),
                ray.origin.y + tdiv(ray.normal.y * tup, tdn),
                ray.origin.z + tdiv(ray.normal.z * tup, tdn),
            )
        }
    }

    /// Intersection of a forward ray with a plane: as the line case, but
    /// a hit behind the ray's origin is no hit.
    pub open spec fn ray_x_mat_spec(ray: Mat, mat: Mat) -> Dot {
        let tup = Self::lxm_tup(ray, mat);
        let tdn = Self::lxm_tdn(ray, mat);
        if tdn != 0 && tup != 0 && ((tup > 0) != (tdn > 0)) {
            Dot::maximum_spec()
        } else {
            Self::line_x_mat_spec(ray, mat)
        }
    }

    /// Shared bounds on the line-plane parameter parts.
    proof fn lemma_lxm_bounds(ray: Mat, mat: Mat)
        requires
            ray.wf(),
            mat.wf(),
        ensures
            -6 * (MAX_XYZ as int) * (SCALE as int) <= Self::lxm_tup(ray, mat) <= 6 * (
            MAX_XYZ as int) * (SCALE as int),
            -3 * (SCALE as int) * (SCALE as int) <= Self::lxm_tdn(ray, mat) <= 3 * (SCALE as int)
                * (SCALE as int),
            -(MAX_XYZ as int) * (SCALE as int) <= mat.a * ray.origin.x <= (MAX_XYZ as int) * (
            SCALE as int),
            -(MAX_XYZ as int) * (SCALE as int) <= mat.b * ray.origin.y <= (MAX_XYZ as int) * (
            SCALE as int),
            -(MAX_XYZ as int) * (SCALE as int) <= mat.c * ray.origin.z <= (MAX_XYZ as int) * (
            SCALE as int),
            -3 * (MAX_XYZ as int) * (SCALE as int) <= mat.d * SCALE <= 3 * (MAX_XYZ as int) * (
            SCALE as int),
            -(SCALE as int) * (SCALE as int) <= mat.a * ray.normal.x <= (SCALE as int) * (
            SCALE as int),
            -(SCALE as int) * (SCALE as int) <= mat.b * ray.normal.y <= (SCALE as int) * (
            SCALE as int),
            -(SCALE as int) * (SCALE as int) <= mat.c * ray.normal.z <= (SCALE as int) * (
            SCALE as int),
    {
        lemma_mul_bound(mat.a as int, ray.origin.x as int, SCALE as int, MAX_XYZ as int);
        lemma_mul_bound(mat.b as int, ray.origin.y as int, SCALE as int, MAX_XYZ as int);
        lemma_mul_bound(mat.c as int, ray.origin.z as int, SCALE as int, MAX_XYZ as int);
        lemma_mul_bound(mat.d as int, SCALE as int, 3 * MAX_XYZ as int, SCALE as int);
        lemma_mul_bound(mat.a as int, ray.normal.x as int, SCALE as int, SCALE as int);
        lemma_mul_bound(mat.b as int, ray.normal.y as int, SCALE as int, SCALE as int);
        lemma_mul_bound(mat.c as int, ray.normal.z as int, SCALE as int, SCALE as int);
    }

    /// Intersection of a line and a plane.  Both directions of the line
    /// count; `ray_x_mat` adds the forward check.
    pub fn line_x_mat(ray: &Mat, mat: &Mat) -> (r: Dot)
        requires
            ray.wf(),
            mat.wf(),
        ensures
            r == Self::line_x_mat_spec(*ray, *mat),
            r.wf(),
            Self::lxm_tdn(*ray, *mat) == 0 ==> r == Dot::maximum_spec(),
            Self::lxm_tdn(*ray, *mat) != 0 && Self::lxm_tup(*ray, *mat) == 0 ==> r == ray.origin,
    {
        proof {
            Self::lemma_lxm_bounds(*ray, *mat);
        }
        let tup = -(mul_ww(mat.a, ray.origin.x) + mul_ww(mat.b, ray.origin.y) + mul_ww(
            mat.c,
            ray.origin.z,
        ) + mul_ww(mat.d, SCALE));
        let tdn = mul_ww(mat.a, ray.normal.x) + mul_ww(mat.b, ray.normal.y) + mul_ww(
            mat.c,
            ray.normal.z,
        );
        if tdn == 0 {
            return Dot::maximum();
        }
        if tup == 0 {
            return ray.origin.same();
        }
        proof {
            lemma_mul_bound(
                ray.normal.x as int,
                tup as int,
                SCALE as int,
                6 * (MAX_XYZ as int) * (SCALE as int),
            );
            lemma_mul_bound(
                ray.normal.y as int,
                tup as int,
                SCALE as int,
                6 * (MAX_XYZ as int) * (SCALE as int),
            );
            lemma_mul_bound(
                ray.normal.z as int,
                tup as int,
                SCALE as int,
                6 * (MAX_XYZ as int) * (SCALE as int),
            );
        }
        Dot::new(
            clamp_c(
                ray.origin.x as i128 + tdiv_ww(
                    mul_gg(
                        ray.normal.x as i128,
                        tup,
                        Ghost(SCALE as int),
                        Ghost(6 * (MAX_XYZ as int) * (SCALE as int)),
                    ),
                    tdn,
                ),
            ),
            clamp_c(
                ray.origin.y as i128 + tdiv_ww(
                    mul_gg(
                        ray.normal.y as i128,
                        tup,
                        Ghost(SCALE as int),
                        Ghost(6 * (MAX_XYZ as int) * (SCALE as int)),
                    ),
                    tdn,
                ),
            ),
            clamp_c(
                ray.origin.z as i128 + tdiv_ww(
                    mul_gg(
                        ray.normal.z as i128,
                        tup,
                        Ghost(SCALE as int),
                        Ghost(6 * (MAX_XYZ as int) * (SCALE as int)),
                    ),
                    tdn,
                ),
            ),
        )
    }

    /// Intersection of a forward ray and a plane: the sentinel when the
    /// ray is parallel to the plane or the plane lies behind it; the
    /// ray's own origin when that origin is on the plane.
    pub fn ray_x_mat(ray: &Mat, mat: &Mat) -> (r: Dot)
        requires
            ray.wf(),
            mat.wf(),
        ensures
            r == Self::ray_x_mat_spec(*ray, *mat),
            r.wf(),
            Self::lxm_tdn(*ray, *mat) == 0 ==> r == Dot::maximum_spec(),
            Self::lxm_tdn(*ray, *mat) != 0 && Self::lxm_tup(*ray, *mat) == 0 ==> r == ray.origin,
    {
        proof {
            Self::lemma_lxm_bounds(*ray, *mat);
        }
        let tup = -(mul_ww(mat.a, ray.origin.x) + mul_ww(mat.b, ray.origin.y) + mul_ww(
            mat.c,
            ray.origin.z,
        ) + mul_ww(mat.d, SCALE));
        let tdn = mul_ww(mat.a, ray.normal.x) + mul_ww(mat.b, ray.normal.y) + mul_ww(
            mat.c,
            ray.normal.z,
        );
        if tdn != 0 && tup != 0 && ((tup > 0) != (tdn > 0)) {
            return Dot::maximum();
        }
        Self::line_x_mat(ray, mat)
    }

    /// Intersection of a ray and a sphere: the root nearer to the ray's
    /// origin, or the sentinel when the discriminant is negative or the
    /// direction degenerate.
    pub open spec fn ray_x_ball_spec(ray: Mat, center: Dot, radius: int) -> Dot {
        let rad = guard_spec(radius);
        let ox = ray.origin.x - center.x;
        let oy = ray.origin.y - center.y;
        let oz = ray.origin.z - center.z;
        let qa = ray.normal.x * ray.normal.x + ray.normal.y * ray.normal.y + ray.normal.z
            * ray.normal.z;
        let qb = 2 * (ox * ray.normal.x + oy * ray.normal.y + oz * ray.normal.z);
        let qc = ox * ox + oy * oy + oz * oz - rad * rad;
        let disc = qb * qb - 4 * (qa * qc);
        if qa == 0 || disc < 0 {
            Dot::maximum_spec()
        } else {
            let sq = isqrt_spec(disc);
            let t1 = tdiv((-qb - sq) * SCALE, 2 * qa);
            let t2 = tdiv((-qb + sq) * SCALE, 2 * qa);
            let p1 = Dot::new_spec(
                ray.origin.x + tdiv(ray.normal.x * t1, SCALE as int),
                ray.origin.y + tdiv(ray.normal.y * t1, SCALE as int),
                ray.origin.z + tdiv(ray.normal.z * t1, SCALE as int),
            );
            let p2 = Dot::new_spec(
                ray.origin.x + tdiv(ray.normal.x * t2, SCALE as int),
                ray.origin.y + tdiv(ray.normal.y * t2, SCALE as int),
                ray.origin.z + tdiv(ray.normal.z * t2, SCALE as int),
            );
            nearer_spec(p1, p2, ray.origin)
        }
    }

    /// Intersection of a ray and a sphere.
    pub fn ray_x_ball(ray: &Mat, center: &Dot, radius: i64) -> (r: Dot)
        requires
            ray.wf(),
            center.wf(),
        ensures
            r == Self::ray_x_ball_spec(*ray, *center, radius as int),
            r.wf(),
    {
        let rad = guard_len(radius);
        let ox = ray.origin.x - center.x;
        let oy = ray.origin.y - center.y;
        let oz = ray.origin.z - center.z;
        let axx = mul_ww(ray.normal.x, ray.normal.x);
        let ayy = mul_ww(ray.normal.y, ray.normal.y);
        let azz = mul_ww(ray.normal.z, ray.normal.z);
        let bxx = mul_ww(ox, ray.normal.x);
        let byy = mul_ww(oy, ray.normal.y);
        let bzz = mul_ww(oz, ray.normal.z);
        let cxx = mul_ww(ox, ox);
        let cyy = mul_ww(oy, oy);
        let czz = mul_ww(oz, oz);
        let crr = mul_ww(rad, rad);
        proof {
            lemma_mul_bound(ray.normal.x as int, ray.normal.x as int, SCALE as int, SCALE as int);
            lemma_mul_bound(ray.normal.y as int, ray.normal.y as int, SCALE as int, SCALE as int);
            lemma_mul_bound(ray.normal.z as int, ray.normal.z as int, SCALE as int, SCALE as int);
            lemma_mul_bound(ox as int, ray.normal.x as int, 2 * MAX_XYZ as int, SCALE as int);
            lemma_mul_bound(oy as int, ray.normal.y as int, 2 * MAX_XYZ as int, SCALE as int);
            lemma_mul_bound(oz as int, ray.normal.z as int, 2 * MAX_XYZ as int, SCALE as int);
            lemma_mul_bound(ox as int, ox as int, 2 * MAX_XYZ as int, 2 * MAX_XYZ as int);
            lemma_mul_bound(oy as int, oy as int, 2 * MAX_XYZ as int, 2 * MAX_XYZ as int);
            lemma_mul_bound(oz as int, oz as int, 2 * MAX_XYZ as int, 2 * MAX_XYZ as int);
            lemma_mul_bound(rad as int, rad as int, MAX_XYZ as int, MAX_XYZ as int);
            assert(ox as int * ox as int >= 0 && oy as int * oy as int >= 0 && oz as int * oz as int
                >= 0 && rad as int * rad as int >= 0) by (nonlinear_arith);
            assert(axx as int >= 0 && ayy as int >= 0 && azz as int >= 0) by (nonlinear_arith)
                requires
                    axx as int == ray.normal.x as int * ray.normal.x as int,
                    ayy as int == ray.normal.y as int * ray.normal.y as int,
                    azz as int == ray.normal.z as int * ray.normal.z as int,
            ;
        }
        let qa = axx + ayy + azz;
        let qb = 2 * (bxx + byy + bzz);
        let qc = cxx + cyy + czz - crr;
        let bb = mul_gg(
            qb,
            qb,
            Ghost(200_000_000_000_000_000int),
            Ghost(200_000_000_000_000_000int),
        );
        let ac = mul_gg(
            qa,
            qc,
            Ghost(4_000_000_000_000int),
            Ghost(2_000_000_000_000_000_000_000int),
        );
        proof {
            lemma_mul_bound(qb as int, qb as int, 200_000_000_000_000_000int, 200_000_000_000_000_000int);
            lemma_mul_bound(qa as int, qc as int, 4_000_000_000_000int, 2_000_000_000_000_000_000_000int);
        }
        let disc = bb - 4 * ac;
        if qa == 0 || disc < 0 {
            return Dot::maximum();
        }
        let sq = isqrt_ww(disc);
        proof {
            lemma_isqrt_bounds(disc as int);
            assert(sq as int <= 300_000_000_000_000_000int) by (nonlinear_arith)
                requires
                    sq as int >= 0,
                    sq as int * sq as int <= disc as int,
                    disc as int <= 0x8000_0000_0000_0000_0000_0000_0000_0000,
                    disc as int <= 80_000_000_000_000_000_000_000_000_000_000_000int,
                    sq as int == isqrt_spec(disc as int),
            ;
        }
        let t1 = tdiv_ww(
            mul_gg(
                -qb - sq,
                SCALE as i128,
                Ghost(500_000_000_000_000_000int),
                Ghost(SCALE as int),
            ),
            2 * qa,
        );
        let t2 = tdiv_ww(
            mul_gg(
                -qb + sq,
                SCALE as i128,
                Ghost(500_000_000_000_000_000int),
                Ghost(SCALE as int),
            ),
            2 * qa,
        );
        proof {
            lemma_mul_bound(
                -(qb as int) - sq as int,
                SCALE as int,
                500_000_000_000_000_000int,
                SCALE as int,
            );
            lemma_mul_bound(
                -(qb as int) + sq as int,
                SCALE as int,
                500_000_000_000_000_000int,
                SCALE as int,
            );
            lemma_mul_bound(
                ray.normal.x as int,
                t1 as int,
                SCALE as int,
                500_000_000_000_000_000_000_000int,
            );
            lemma_mul_bound(
                ray.normal.y as int,
                t1 as int,
                SCALE as int,
                500_000_000_000_000_000_000_000int,
            );
            lemma_mul_bound(
                ray.normal.z as int,
                t1 as int,
                SCALE as int,
                500_000_000_000_000_000_000_000int,
            );
            lemma_mul_bound(
                ray.normal.x as int,
                t2 as int,
                SCALE as int,
                500_000_000_000_000_000_000_000int,
            );
            lemma_mul_bound(
                ray.normal.y as int,
                t2 as int,
                SCALE as int,
                500_000_000_000_000_000_000_000int,
            );
            lemma_mul_bound(
                ray.normal.z as int,
                t2 as int,
                SCALE as int,
                500_000_000_000_000_000_000_000int,
            );
        }
        let p1 = Dot::new(
            clamp_c(
                ray.origin.x as i128 + tdiv_ww(
                    mul_gg(
                        ray.normal.x as i128,
                        t1,
                        Ghost(SCALE as int),
                        Ghost(500_000_000_000_000_000_000_000_000int),
                    ),
                    SCALE as i128,
                ),
            ),
            clamp_c(
                ray.origin.y as i128 + tdiv_ww(
                    mul_gg(
                        ray.normal.y as i128,
                        t1,
                        Ghost(SCALE as int),
                        Ghost(500_000_000_000_000_000_000_000_000int),
                    ),
                    SCALE as i128,
                ),
            ),
            clamp_c(
                ray.origin.z as i128 + tdiv_ww(
                    mul_gg(
                        ray.normal.z as i128,
                        t1,
                        Ghost(SCALE as int),
                        Ghost(500_000_000_000_000_000_000_000_000int),
                    ),
                    SCALE as i128,
                ),
            ),
        );
        let p2 = Dot::new(
            clamp_c(
                ray.origin.x as i128 + tdiv_ww(
                    mul_gg(
                        ray.normal.x as i128,
                        t2,
                        Ghost(SCALE as int),
                        Ghost(500_000_000_000_000_000_000_000_000int),
                    ),
                    SCALE as i128,
                ),
            ),
            clamp_c(
                ray.origin.y as i128 + tdiv_ww(
                    mul_gg(
                        ray.normal.y as i128,
                        t2,
                        Ghost(SCALE as int),
                        Ghost(500_000_000_000_000_000_000_000_000int),
                    ),
                    SCALE as i128,
                ),
            ),
            clamp_c(
                ray.origin.z as i128 + tdiv_ww(
                    mul_gg(
                        ray.normal.z as i128,
                        t2,
                        Ghost(SCALE as int),
                        Ghost(500_000_000_000_000_000_000_000_000int),
                    ),
                    SCALE as i128,
                ),
            ),
        );
        if p1.d_dot(&ray.origin) < p2.d_dot(&ray.origin) {
            p1
        } else {
            p2
        }
    }

    /// Law: a ray aimed straight at a sphere's center hits the near side
    /// of the sphere exactly one radius short of the center, measured
    /// along the ray.  Stated for rays along the z axis, where every
    /// intermediate value is exactly representable: the center sits `k`
    /// fixed-point units ahead of the ray origin, at least one radius
    /// away.
    pub proof fn lemma_ray_through_ball_center(p0: Dot, k: int, rad: int)
        requires
            p0.wf(),
            0 <= rad <= k,
            rad <= MAX_XYZ as int,
            p0.z + k <= MAX_XYZ as int,
        ensures
            ({
                let center = Dot { x: p0.x, y: p0.y, z: (p0.z + k) as i64 };
                let ray = Mat::new_spec(p0, Spear::oz_spec());
                let hit = Self::ray_x_ball_spec(ray, center, rad);
                hit == (Dot { x: p0.x, y: p0.y, z: (p0.z + k - rad) as i64 }) && hit.d_dot_spec(
                    center,
                ) == rad
            }),
    {
        let s = SCALE as int;
        let center = Dot { x: p0.x, y: p0.y, z: (p0.z + k) as i64 };
        let ray = Mat::new_spec(p0, Spear::oz_spec());
        assert(ray.origin == p0 && ray.normal == Spear::oz_spec());
        assert(guard_spec(rad) == rad);
        let ox = ray.origin.x - center.x;
        let oy = ray.origin.y - center.y;
        let oz = ray.origin.z - center.z;
        assert(ox == 0 && oy == 0 && oz == -k);
        let qa = ray.normal.x * ray.normal.x + ray.normal.y * ray.normal.y + ray.normal.z
            * ray.normal.z;
        let qb = 2 * (ox * ray.normal.x + oy * ray.normal.y + oz * ray.normal.z);
        let qc = ox * ox + oy * oy + oz * oz - rad * rad;
        assert(qa == s * s && qb == 2 * ((-k) * s) && qc == k * k - rad * rad) by (nonlinear_arith)
            requires
                ox == 0,
                oy == 0,
                oz == -k,
                s == SCALE as int,
                qa == ray.normal.x * ray.normal.x + ray.normal.y * ray.normal.y + ray.normal.z
                    * ray.normal.z,
                qb == 2 * (ox * ray.normal.x + oy * ray.normal.y + oz * ray.normal.z),
                qc == ox * ox + oy * oy + oz * oz - rad * rad,
                ray.normal.x == 0,
                ray.normal.y == 0,
                ray.normal.z == SCALE,
        ;
        let disc = qb * qb - 4 * (qa * qc);
        let sq = 2 * s * rad;
        assert(disc == sq * sq && sq >= 0 && disc < (sq + 1) * (sq + 1)) by (nonlinear_arith)
            requires
                qa == s * s,
                qb == 2 * ((-k) * s),
                qc == k * k - rad * rad,
                disc == qb * qb - 4 * (qa * qc),
                sq == 2 * s * rad,
                s >= 1,
                rad >= 0,
        ;
        lemma_isqrt_unique(disc, sq);
        assert(qa != 0) by (nonlinear_arith)
            requires
                qa == s * s,
                s >= 1,
        ;
        // the two ray parameters come out exactly
        assert((-qb - sq) * s == (k - rad) * (2 * qa) && (-qb + sq) * s == (k + rad) * (2 * qa)
            && 2 * qa > 0) by (nonlinear_arith)
            requires
                qa == s * s,
                qb == 2 * ((-k) * s),
                sq == 2 * s * rad,
                s >= 1,
        ;
        lemma_tdiv_mul_exact(k - rad, 2 * qa);
        lemma_tdiv_mul_exact(k + rad, 2 * qa);
        let t1 = tdiv((-qb - sq) * s, 2 * qa);
        let t2 = tdiv((-qb + sq) * s, 2 * qa);
        assert(t1 == k - rad && t2 == k + rad);
        // and so do the two candidate points
        assert(ray.normal.x * t1 == 0 && ray.normal.y * t1 == 0 && ray.normal.z * t1 == t1 * s
            && ray.normal.x * t2 == 0 && ray.normal.y * t2 == 0 && ray.normal.z * t2 == t2 * s)
            by (nonlinear_arith)
            requires
                ray.normal.x == 0,
                ray.normal.y == 0,
                ray.normal.z == SCALE,
                s == SCALE as int,
        ;
        lemma_tdiv_mul_exact(t1, s);
        lemma_tdiv_mul_exact(t2, s);
        assert(tdiv(0, s) == 0);
        let p1 = Dot::new_spec(
            ray.origin.x + tdiv(ray.normal.x * t1, SCALE as int),
            ray.origin.y + tdiv(ray.normal.y * t1, SCALE as int),
            ray.origin.z + tdiv(ray.normal.z * t1, SCALE as int),
        );
        let p2 = Dot::new_spec(
            ray.origin.x + tdiv(ray.normal.x * t2, SCALE as int),
            ray.origin.y + tdiv(ray.normal.y * t2, SCALE as int),
            ray.origin.z + tdiv(ray.normal.z * t2, SCALE as int),
        );
        assert(clamped(p0.x as int) == p0.x as int && clamped(p0.y as int) == p0.y as int);
        assert(p1 == (Dot { x: p0.x, y: p0.y, z: (p0.z + k - rad) as i64 }));
        // the far candidate may clamp at the coordinate ceiling, but it
        // never comes nearer the ray origin than the near candidate
        let z2 = clamped(p0.z + k + rad);
        assert(p2.x == p0.x && p2.y == p0.y && p2.z == z2);
        assert(k - rad <= z2 - p0.z <= k + rad);
        Self::lemma_axis_distance(p0, k - rad);
        Self::lemma_axis_distance(p0, z2 - p0.z);
        assert(p1.d_dot_spec(p0) == k - rad && p2.d_dot_spec(p0) == z2 - p0.z);
        let hit = Self::ray_x_ball_spec(ray, center, rad);
        assert(hit == nearer_spec(p1, p2, ray.origin));
        if rad == 0 {
            assert(p1 == p2);
            assert(hit == p1);
        } else {
            assert(k - rad < z2 - p0.z);
            assert(hit == p1);
        }
        // the hit sits exactly one radius from the center
        assert(hit.dsq_spec(center) == rad * rad) by (nonlinear_arith)
            requires
                hit.x == center.x,
                hit.y == center.y,
                center.z - hit.z == rad,
        ;
        assert(rad * rad < (rad + 1) * (rad + 1)) by (nonlinear_arith)
            requires
                rad >= 0,
        ;
        lemma_isqrt_unique(rad * rad, rad);
    }

    /// Distance between a point and the same point moved `d >= 0` along
    /// the z axis.
    proof fn lemma_axis_distance(p0: Dot, d: int)
        requires
            p0.wf(),
            0 <= d,
            p0.z + d <= MAX_XYZ as int,
        ensures
            p0.d_dot_spec(Dot { x: p0.x, y: p0.y, z: (p0.z + d) as i64 }) == d,
            (Dot { x: p0.x, y: p0.y, z: (p0.z + d) as i64 }).d_dot_spec(p0) == d,
    {
        let q = Dot { x: p0.x, y: p0.y, z: (p0.z + d) as i64 };
        assert(p0.dsq_spec(q) == d * d && q.dsq_spec(p0) == d * d) by (nonlinear_arith)
            requires
                q.x == p0.x,
                q.y == p0.y,
                q.z - p0.z == d,
        ;
        assert(d * d < (d + 1) * (d + 1)) by (nonlinear_arith)
            requires
                d >= 0,
        ;
        lemma_isqrt_unique(d * d, d);
    }

    /// Law: a ray cast from a sphere's own center exits through the
    /// sphere's surface ahead of it: the hit lies exactly one radius
    /// forward along the ray.  Stated for rays along the z axis, where
    /// every intermediate value is exactly representable.
    pub proof fn lemma_ray_from_ball_center(p0: Dot, rad: int)
        requires
            p0.wf(),
            0 <= rad <= MAX_XYZ as int,
            -(MAX_XYZ as int) <= p0.z - rad,
            p0.z + rad <= MAX_XYZ as int,
        ensures
            ({
                let ray = Mat::new_spec(p0, Spear::oz_spec());
                let hit = Self::ray_x_ball_spec(ray, p0, rad);
                hit == (Dot { x: p0.x, y: p0.y, z: (p0.z + rad) as i64 }) && hit.d_dot_spec(p0)
                    == rad
            }),
    {
        let s = SCALE as int;
        let ray = Mat::new_spec(p0, Spear::oz_spec());
        assert(ray.origin == p0 && ray.normal == Spear::oz_spec());
        assert(guard_spec(rad) == rad);
        let ox = ray.origin.x - p0.x;
        let oy = ray.origin.y - p0.y;
        let oz = ray.origin.z - p0.z;
        assert(ox == 0 && oy == 0 && oz == 0);
        let qa = ray.normal.x * ray.normal.x + ray.normal.y * ray.normal.y + ray.normal.z
            * ray.normal.z;
        let qb = 2 * (ox * ray.normal.x + oy * ray.normal.y + oz * ray.normal.z);
        let qc = ox * ox + oy * oy + oz * oz - rad * rad;
        assert(qa == s * s && qb == 0 && qc == -(rad * rad)) by (nonlinear_arith)
            requires
                ox == 0,
                oy == 0,
                oz == 0,
                s == SCALE as int,
                qa == ray.normal.x * ray.normal.x + ray.normal.y * ray.normal.y + ray.normal.z
                    * ray.normal.z,
                qb == 2 * (ox * ray.normal.x + oy * ray.normal.y + oz * ray.normal.z),
                qc == ox * ox + oy * oy + oz * oz - rad * rad,
                ray.normal.x == 0,
                ray.normal.y == 0,
                ray.normal.z == SCALE,
        ;
        let disc = qb * qb - 4 * (qa * qc);
        let sq = 2 * s * rad;
        assert(disc == sq * sq && sq >= 0 && disc < (sq + 1) * (sq + 1)) by (nonlinear_arith)
            requires
                qa == s * s,
                qb == 0,
                qc == -(rad * rad),
                disc == qb * qb - 4 * (qa * qc),
                sq == 2 * s * rad,
                s >= 1,
                rad >= 0,
        ;
        lemma_isqrt_unique(disc, sq);
        assert(qa != 0) by (nonlinear_arith)
            requires
                qa == s * s,
                s >= 1,
        ;
        assert((-qb - sq) * s == (-rad) * (2 * qa) && (-qb + sq) * s == rad * (2 * qa) && 2 * qa
            > 0) by (nonlinear_arith)
            requires
                qa == s * s,
                qb == 0,
                sq == 2 * s * rad,
                s >= 1,
        ;
        lemma_tdiv_mul_exact(-rad, 2 * qa);
        lemma_tdiv_mul_exact(rad, 2 * qa);
        let t1 = tdiv((-qb - sq) * s, 2 * qa);
        let t2 = tdiv((-qb + sq) * s, 2 * qa);
        assert(t1 == -rad && t2 == rad);
        assert(ray.normal.x * t1 == 0 && ray.normal.y * t1 == 0 && ray.normal.z * t1 == t1 * s
            && ray.normal.x * t2 == 0 && ray.normal.y * t2 == 0 && ray.normal.z * t2 == t2 * s)
            by (nonlinear_arith)
            requires
                ray.normal.x == 0,
                ray.normal.y == 0,
                ray.normal.z == SCALE,
                s == SCALE as int,
        ;
        lemma_tdiv_mul_exact(t1, s);
        lemma_tdiv_mul_exact(t2, s);
        assert(tdiv(0, s) == 0);
        let p1 = Dot::new_spec(
            ray.origin.x + tdiv(ray.normal.x * t1, SCALE as int),
            ray.origin.y + tdiv(ray.normal.y * t1, SCALE as int),
            ray.origin.z + tdiv(ray.normal.z * t1, SCALE as int),
        );
        let p2 = Dot::new_spec(
            ray.origin.x + tdiv(ray.normal.x * t2, SCALE as int),
            ray.origin.y + tdiv(ray.normal.y * t2, SCALE as int),
            ray.origin.z + tdiv(ray.normal.z * t2, SCALE as int),
        );
        assert(clamped(p0.x as int) == p0.x as int && clamped(p0.y as int) == p0.y as int);
        assert(p1 == (Dot { x: p0.x, y: p0.y, z: (p0.z - rad) as i64 }));
        assert(p2 == (Dot { x: p0.x, y: p0.y, z: (p0.z + rad) as i64 }));
        // both exits sit one radius out; the distance tie keeps the
        // forward one
        Self::lemma_axis_distance(Dot { x: p0.x, y: p0.y, z: (p0.z - rad) as i64 }, rad);
        Self::lemma_axis_distance(p0, rad);
        assert(p1.d_dot_spec(p0) == rad && p2.d_dot_spec(p0) == rad);
        let hit = Self::ray_x_ball_spec(ray, p0, rad);
        assert(hit == nearer_spec(p1, p2, ray.origin));
        assert(hit == p2);
    }

    /// Law: a ray aimed at a cube's center from outside hits the cube
    /// exactly on the near face: that coordinate equals the center's
    /// less half the edge, and the other two stay within the face.
    /// Stated for rays along the x axis, where every intermediate value
    /// is exactly representable: the ray starts `m` fixed-point units
    /// before the center, outside the cube, and the cube stays inside
    /// the coordinate range.
    pub proof fn lemma_ray_at_box_center(c: Dot, edge: int, m: int)
        requires
            c.wf(),
            1 <= tdiv(guard_spec(edge), 2),
            tdiv(guard_spec(edge), 2) < m,
            -(MAX_XYZ as int) <= c.x - m,
            -(MAX_XYZ as int) <= c.x - tdiv(guard_spec(edge), 2),
            c.x + tdiv(guard_spec(edge), 2) <= MAX_XYZ as int,
            -(MAX_XYZ as int) <= c.y - tdiv(guard_spec(edge), 2),
            c.y + tdiv(guard_spec(edge), 2) <= MAX_XYZ as int,
            -(MAX_XYZ as int) <= c.z - tdiv(guard_spec(edge), 2),
            c.z + tdiv(guard_spec(edge), 2) <= MAX_XYZ as int,
        ensures
            ({
                let s2 = tdiv(guard_spec(edge), 2);
                let p0 = Dot { x: (c.x - m) as i64, y: c.y, z: c.z };
                let ray = Mat::new_spec(p0, Spear::ox_spec());
                Self::ray_x_box_spec(ray, c, edge) == (Dot {
                    x: (c.x - s2) as i64,
                    y: c.y,
                    z: c.z,
                })
            }),
    {
        let s = SCALE as int;
        let bb = MAX_XYZ as int;
        let s2 = tdiv(guard_spec(edge), 2);
        let p0 = Dot { x: (c.x - m) as i64, y: c.y, z: c.z };
        let ray = Mat::new_spec(p0, Spear::ox_spec());
        assert(ray.origin == p0 && ray.normal == Spear::ox_spec());
        let pmin = Dot::new_spec(c.x - s2, c.y - s2, c.z - s2);
        let pmax = Dot::new_spec(c.x + s2, c.y + s2, c.z + s2);
        assert(pmin == (Dot { x: (c.x - s2) as i64, y: (c.y - s2) as i64, z: (c.z - s2) as i64 }));
        assert(pmax == (Dot { x: (c.x + s2) as i64, y: (c.y + s2) as i64, z: (c.z + s2) as i64 }));
        // the four face planes parallel to the ray are never hit
        let mx0 = Mat::new_spec(pmin, Spear::ox_spec().back_spec());
        let mx1 = Mat::new_spec(pmax, Spear::ox_spec());
        let my0 = Mat::new_spec(pmin, Spear::oy_spec().back_spec());
        let my1 = Mat::new_spec(pmax, Spear::oy_spec());
        let mz0 = Mat::new_spec(pmin, Spear::oz_spec().back_spec());
        let mz1 = Mat::new_spec(pmax, Spear::oz_spec());
        assert(Self::lxm_tdn(ray, my0) == 0 && Self::lxm_tdn(ray, my1) == 0 && Self::lxm_tdn(
            ray,
            mz0,
        ) == 0 && Self::lxm_tdn(ray, mz1) == 0) by (nonlinear_arith)
            requires
                ray.normal.x == SCALE && ray.normal.y == 0 && ray.normal.z == 0,
                my0.a == 0 && my0.c == 0,
                my1.a == 0 && my1.c == 0,
                mz0.a == 0 && mz0.b == 0,
                mz1.a == 0 && mz1.b == 0,
        ;
        let hy0 = Self::line_x_mat_spec(ray, my0);
        let hy1 = Self::line_x_mat_spec(ray, my1);
        let hz0 = Self::line_x_mat_spec(ray, mz0);
        let hz1 = Self::line_x_mat_spec(ray, mz1);
        assert(hy0 == Dot::maximum_spec() && hy1 == Dot::maximum_spec() && hz0
            == Dot::maximum_spec() && hz1 == Dot::maximum_spec());
        // the two x faces are hit head on
        assert(-((-(SCALE as int)) * pmin.x + 0 * pmin.y + 0 * pmin.z) == pmin.x * (SCALE as int)
            && -((SCALE as int) * pmax.x + 0 * pmax.y + 0 * pmax.z) == (-pmax.x) * (SCALE as int))
            by (nonlinear_arith);
        lemma_tdiv_mul_exact(pmin.x as int, SCALE as int);
        lemma_tdiv_mul_exact(-(pmax.x as int), SCALE as int);
        assert(mx0.d == pmin.x && mx1.d == -pmax.x);
        assert(p0.x < pmin.x);
        Self::lemma_axis_x_plane_hit(ray, mx0, pmin.x as int, -1);
        Self::lemma_axis_x_plane_hit(ray, mx1, pmax.x as int, 1);
        let hx0 = Self::line_x_mat_spec(ray, mx0);
        let hx1 = Self::line_x_mat_spec(ray, mx1);
        assert(hx0 == (Dot { x: pmin.x, y: c.y, z: c.z }));
        assert(hx1 == (Dot { x: pmax.x, y: c.y, z: c.z }));
        // distances seen from the ray origin
        Self::lemma_axis_x_distance(p0, m - s2);
        Self::lemma_axis_x_distance(p0, m + s2);
        assert(hx0 == (Dot { x: (p0.x + (m - s2)) as i64, y: p0.y, z: p0.z }));
        assert(hx1 == (Dot { x: (p0.x + (m + s2)) as i64, y: p0.y, z: p0.z }));
        assert(hx0.d_dot_spec(p0) == m - s2 && hx1.d_dot_spec(p0) == m + s2);
        // none of the candidates lies behind the ray
        assert(Self::fwd_spec(ray, Dot::maximum_spec()) == Dot::maximum_spec());
        assert(-((SCALE as int) * p0.x + 0 * p0.y + 0 * p0.z) == (-(p0.x as int)) * (SCALE as int))
            by (nonlinear_arith);
        lemma_tdiv_mul_exact(-(p0.x as int), SCALE as int);
        assert(ray.d == -p0.x);
        assert((SCALE as int) * hx0.x + 0 * hx0.y + 0 * hx0.z == (hx0.x as int) * (SCALE as int)
            && (SCALE as int) * hx1.x + 0 * hx1.y + 0 * hx1.z == (hx1.x as int) * (SCALE as int))
            by (nonlinear_arith);
        lemma_tdiv_mul_exact(hx0.x as int, SCALE as int);
        lemma_tdiv_mul_exact(hx1.x as int, SCALE as int);
        assert(ray.val_spec(hx0) == m - s2 && ray.val_spec(hx1) == m + s2);
        assert(Self::fwd_spec(ray, hx0) == hx0 && Self::fwd_spec(ray, hx1) == hx1);
        // the sentinel is farther away than either face
        let far = Dot::maximum_spec();
        assert(far.dsq_spec(p0) >= (bb - p0.x) * (bb - p0.x)) by (nonlinear_arith)
            requires
                far.x == MAX_XYZ && far.y == MAX_XYZ && far.z == MAX_XYZ,
                bb == MAX_XYZ as int,
                far.dsq_spec(p0) == (far.x - p0.x) * (far.x - p0.x) + (far.y - p0.y) * (far.y
                    - p0.y) + (far.z - p0.z) * (far.z - p0.z),
        ;
        assert((bb - p0.x) * (bb - p0.x) >= (m - s2) * (m - s2) && far.dsq_spec(p0) >= 0 && (m - s2)
            >= 0) by (nonlinear_arith)
            requires
                bb - p0.x >= m,
                m > s2 >= 1,
                far.dsq_spec(p0) >= (bb - p0.x) * (bb - p0.x),
        ;
        crate::num::lemma_isqrt_monotone((m - s2) * (m - s2), far.dsq_spec(p0));
        assert((m - s2) * (m - s2) < ((m - s2) + 1) * ((m - s2) + 1)) by (nonlinear_arith)
            requires
                m - s2 >= 0,
        ;
        lemma_isqrt_unique((m - s2) * (m - s2), m - s2);
        assert(far.d_dot_spec(p0) >= m - s2);
        assert(far.d_dot_spec(p0) >= bb - p0.x) by {
            assert((bb - p0.x) * (bb - p0.x) < ((bb - p0.x) + 1) * ((bb - p0.x) + 1))
                by (nonlinear_arith)
                requires
                    bb - p0.x >= 0,
            ;
            lemma_isqrt_unique((bb - p0.x) * (bb - p0.x), bb - p0.x);
            crate::num::lemma_isqrt_monotone((bb - p0.x) * (bb - p0.x), far.dsq_spec(p0));
        };
        assert(far.d_dot_spec(p0) > m - s2);
        // fold the six faces: the near x face wins and stays
        let b1 = Self::face_pick_spec(
            hx0,
            pmin.y as int,
            pmax.y as int,
            hx0.y as int,
            pmin.z as int,
            pmax.z as int,
            hx0.z as int,
            far,
            p0,
        );
        assert(b1 == hx0);
        let b2 = Self::face_pick_spec(
            hx1,
            pmin.y as int,
            pmax.y as int,
            hx1.y as int,
            pmin.z as int,
            pmax.z as int,
            hx1.z as int,
            b1,
            p0,
        );
        assert(b2 == hx0);
        assert(Self::ray_x_box_spec(ray, c, edge) == hx0);
    }

    /// An axis-aligned ray along x meets a plane whose normal is the x
    /// axis unit (for `side == 1`) or its opposite (for `side == -1`)
    /// exactly at the plane's x coordinate.
    proof fn lemma_axis_x_plane_hit(ray: Mat, mat: Mat, px: int, side: int)
        requires
            ray.normal == Spear::ox_spec(),
            ray.origin.wf(),
            side == 1 || side == -1,
            mat.a == side * SCALE && mat.b == 0 && mat.c == 0,
            mat.d == side * -px,
            -(MAX_XYZ as int) <= px <= MAX_XYZ as int,
            px != ray.origin.x,
        ensures
            Self::line_x_mat_spec(ray, mat) == (Dot {
                x: px as i64,
                y: ray.origin.y,
                z: ray.origin.z,
            }),
    {
        let s = SCALE as int;
        let tup = Self::lxm_tup(ray, mat);
        let tdn = Self::lxm_tdn(ray, mat);
        assert(tup == (side * (px - ray.origin.x)) * s && tdn == side * (s * s) && tdn != 0 && tup
            != 0) by (nonlinear_arith)
            requires
                tup == -(mat.a * ray.origin.x + mat.b * ray.origin.y + mat.c * ray.origin.z + mat.d
                    * SCALE),
                tdn == mat.a * ray.normal.x + mat.b * ray.normal.y + mat.c * ray.normal.z,
                mat.a == side * SCALE && mat.b == 0 && mat.c == 0,
                mat.d == side * -px,
                ray.normal.x == SCALE && ray.normal.y == 0 && ray.normal.z == 0,
                side == 1 || side == -1,
                s == SCALE as int,
                px != ray.origin.x,
        ;
        assert(ray.normal.x * tup == (px - ray.origin.x) * tdn && ray.normal.y * tup == 0
            && ray.normal.z * tup == 0) by (nonlinear_arith)
            requires
                tup == (side * (px - ray.origin.x)) * s,
                tdn == side * (s * s),
                ray.normal.x == SCALE && ray.normal.y == 0 && ray.normal.z == 0,
                side == 1 || side == -1,
                s == SCALE as int,
        ;
        if tdn > 0 {
            lemma_tdiv_mul_exact(px - ray.origin.x, tdn);
        } else {
            assert((px - ray.origin.x) * tdn == (-(px - ray.origin.x)) * (-tdn))
                by (nonlinear_arith);
            lemma_tdiv_mul_exact(-(px - ray.origin.x), -tdn);
            assert(tdiv((-(px - ray.origin.x)) * (-tdn), -tdn) == -(px - ray.origin.x));
            Self::lemma_tdiv_neg_divisor((-(px - ray.origin.x)) * (-tdn), -tdn);
        }
        assert(tdiv(ray.normal.x * tup, tdn) == px - ray.origin.x);
        assert(tdiv(0, tdn) == 0);
        assert(clamped(ray.origin.y as int) == ray.origin.y as int && clamped(
            ray.origin.z as int,
        ) == ray.origin.z as int);
    }

    /// Flipping the divisor's sign flips the quotient's.
    proof fn lemma_tdiv_neg_divisor(a: int, b: int)
        requires
            b != 0,
        ensures
            tdiv(a, -b) == -tdiv(a, b),
    {
    }

    /// Distance between a point and the same point moved `d >= 0` along
    /// the x axis.
    proof fn lemma_axis_x_distance(p0: Dot, d: int)
        requires
            p0.wf(),
            0 <= d,
            p0.x + d <= MAX_XYZ as int,
        ensures
            (Dot { x: (p0.x + d) as i64, y: p0.y, z: p0.z }).d_dot_spec(p0) == d,
    {
        let q = Dot { x: (p0.x + d) as i64, y: p0.y, z: p0.z };
        assert(q.dsq_spec(p0) == d * d) by (nonlinear_arith)
            requires
                q.y == p0.y,
                q.z == p0.z,
                q.x - p0.x == d,
        ;
        assert(d * d < (d + 1) * (d + 1)) by (nonlinear_arith)
            requires
                d >= 0,
        ;
        lemma_isqrt_unique(d * d, d);
    }

    /// A face candidate strictly behind the ray's origin is no hit.
    pub open spec fn fwd_spec(ray: Mat, h: Dot) -> Dot {
        if ray.val_spec(h) < 0 {
            Dot::maximum_spec()
        } else {
            h
        }
    }

    /// Discard a face candidate that lies strictly behind the ray.
    fn fwd(ray: &Mat, h: Dot) -> (r: Dot)
        requires
            ray.wf(),
            h.wf(),
        ensures
            r == Self::fwd_spec(*ray, h),
            r.wf(),
    {
        if h.is_below(ray) {
            Dot::maximum()
        } else {
            h
        }
    }

    /// A candidate face hit: kept when it lies inside the face bounds and
    /// is nearer to the ray origin than the best hit so far.
    pub open spec fn face_pick_spec(
        hit: Dot,
        lo1: int,
        hi1: int,
        v1: int,
        lo2: int,
        hi2: int,
        v2: int,
        best: Dot,
        origin: Dot,
    ) -> Dot {
        if lo1 <= v1 <= hi1 && lo2 <= v2 <= hi2 && best.d_dot_spec(origin) > hit.d_dot_spec(
            origin,
        ) {
            hit
        } else {
            best
        }
    }

    fn face_pick(
        hit: &Dot,
        lo1: i64,
        hi1: i64,
        v1: i64,
        lo2: i64,
        hi2: i64,
        v2: i64,
        best: &Dot,
        origin: &Dot,
    ) -> (r: Dot)
        requires
            hit.wf(),
            best.wf(),
            origin.wf(),
        ensures
            r == Self::face_pick_spec(
                *hit,
                lo1 as int,
                hi1 as int,
                v1 as int,
                lo2 as int,
                hi2 as int,
                v2 as int,
                *best,
                *origin,
            ),
            r.wf(),
    {
        if lo1 <= v1 && v1 <= hi1 && lo2 <= v2 && v2 <= hi2 && best.d_dot(origin) > hit.d_dot(
            origin,
        ) {
            hit.same()
        } else {
            best.same()
        }
    }

    /// Intersection of a ray and an axis-aligned cube of edge `size`
    /// centred at `box_center`: the nearest hit among the six face
    /// planes whose hit point lies within the face and not behind the
    /// ray's origin, or the sentinel.
    pub open spec fn ray_x_box_spec(ray: Mat, c: Dot, size: int) -> Dot {
        let s2 = tdiv(guard_spec(size), 2);
        let pmin = Dot::new_spec(c.x - s2, c.y - s2, c.z - s2);
        let pmax = Dot::new_spec(c.x + s2, c.y + s2, c.z + s2);
        let hx0 = Self::fwd_spec(
            ray,
            Self::line_x_mat_spec(ray, Mat::new_spec(pmin, Spear::ox_spec().back_spec())),
        );
        let hx1 = Self::fwd_spec(
            ray,
            Self::line_x_mat_spec(ray, Mat::new_spec(pmax, Spear::ox_spec())),
        );
        let hy0 = Self::fwd_spec(
            ray,
            Self::line_x_mat_spec(ray, Mat::new_spec(pmin, Spear::oy_spec().back_spec())),
        );
        let hy1 = Self::fwd_spec(
            ray,
            Self::line_x_mat_spec(ray, Mat::new_spec(pmax, Spear::oy_spec())),
        );
        let hz0 = Self::fwd_spec(
            ray,
            Self::line_x_mat_spec(ray, Mat::new_spec(pmin, Spear::oz_spec().back_spec())),
        );
        let hz1 = Self::fwd_spec(
            ray,
            Self::line_x_mat_spec(ray, Mat::new_spec(pmax, Spear::oz_spec())),
        );
        let b1 = Self::face_pick_spec(
            hx0,
            pmin.y as int,
            pmax.y as int,
            hx0.y as int,
            pmin.z as int,
            pmax.z as int,
            hx0.z as int,
            Dot::maximum_spec(),
            ray.origin,
        );
        let b2 = Self::face_pick_spec(
            hx1,
            pmin.y as int,
            pmax.y as int,
            hx1.y as int,
            pmin.z as int,
            pmax.z as int,
            hx1.z as int,
            b1,
            ray.origin,
        );
        let b3 = Self::face_pick_spec(
            hy0,
            pmin.x as int,
            pmax.x as int,
            hy0.x as int,
            pmin.z as int,
            pmax.z as int,
            hy0.z as int,
            b2,
            ray.origin,
        );
        let b4 = Self::face_pick_spec(
            hy1,
            pmin.x as int,
            pmax.x as int,
            hy1.x as int,
            pmin.z as int,
            pmax.z as int,
            hy1.z as int,
            b3,
            ray.origin,
        );
        let b5 = Self::face_pick_spec(
            hz0,
            pmin.x as int,
            pmax.x as int,
            hz0.x as int,
            pmin.y as int,
            pmax.y as int,
            hz0.y as int,
            b4,
            ray.origin,
        );
        Self::face_pick_spec(
            hz1,
            pmin.x as int,
            pmax.x as int,
            hz1.x as int,
            pmin.y as int,
            pmax.y as int,
            hz1.y as int,
            b5,
            ray.origin,
        )
    }

    /// Intersection of a ray and an axis-aligned cube.  A cube entirely
    /// behind the ray's origin is never hit.
    pub fn ray_x_box(ray: &Mat, box_center: &Dot, box_size: i64) -> (r: Dot)
        requires
            ray.wf(),
            box_center.wf(),
        ensures
            r == Self::ray_x_box_spec(*ray, *box_center, box_size as int),
            r.wf(),
            r != Dot::maximum_spec() ==> ray.val_spec(r) >= 0,
    {
        let s = guard_len(box_size);
        let s2 = tdiv_ww(s as i128, 2) as i64;
        let pmin = Dot::new(box_center.x - s2, box_center.y - s2, box_center.z - s2);
        let pmax = Dot::new(box_center.x + s2, box_center.y + s2, box_center.z + s2);
        let px_min = Mat::new(pmin, Spear::ox().back());
        let px_max = Mat::new(pmax, Spear::ox());
        let py_min = Mat::new(pmin, Spear::oy().back());
        let py_max = Mat::new(pmax, Spear::oy());
        let pz_min = Mat::new(pmin, Spear::oz().back());
        let pz_max = Mat::new(pmax, Spear::oz());
        let hit_x_min = Self::fwd(ray, Self::line_x_mat(ray, &px_min));
        let hit_x_max = Self::fwd(ray, Self::line_x_mat(ray, &px_max));
        let hit_y_min = Self::fwd(ray, Self::line_x_mat(ray, &py_min));
        let hit_y_max = Self::fwd(ray, Self::line_x_mat(ray, &py_max));
        let hit_z_min = Self::fwd(ray, Self::line_x_mat(ray, &pz_min));
        let hit_z_max = Self::fwd(ray, Self::line_x_mat(ray, &pz_max));
        let mut hit = Dot::maximum();
        hit = Self::face_pick(
            &hit_x_min,
            pmin.y,
            pmax.y,
            hit_x_min.y,
            pmin.z,
            pmax.z,
            hit_x_min.z,
            &hit,
            &ray.origin,
        );
        hit = Self::face_pick(
            &hit_x_max,
            pmin.y,
            pmax.y,
            hit_x_max.y,
            pmin.z,
            pmax.z,
            hit_x_max.z,
            &hit,
            &ray.origin,
        );
        hit = Self::face_pick(
            &hit_y_min,
            pmin.x,
            pmax.x,
            hit_y_min.x,
            pmin.z,
            pmax.z,
            hit_y_min.z,
            &hit,
            &ray.origin,
        );
        hit = Self::face_pick(
            &hit_y_max,
            pmin.x,
            pmax.x,
            hit_y_max.x,
            pmin.z,
            pmax.z,
            hit_y_max.z,
            &hit,
            &ray.origin,
        );
        hit = Self::face_pick(
            &hit_z_min,
            pmin.x,
            pmax.x,
            hit_z_min.x,
            pmin.y,
            pmax.y,
            hit_z_min.y,
            &hit,
            &ray.origin,
        );
        hit = Self::face_pick(
            &hit_z_max,
            pmin.x,
            pmax.x,
            hit_z_max.x,
            pmin.y,
            pmax.y,
            hit_z_max.y,
            &hit,
            &ray.origin,
        );
        hit
    }

    /// A disk cap hit: the plane hit, not behind the ray's origin,
    /// restricted to the cap's radius.
    pub open spec fn roll_cap_spec(ray: Mat, cap_origin: Dot, up: Spear, rad: int) -> Dot {
        let t = Self::fwd_spec(ray, Self::line_x_mat_spec(ray, Mat::new_spec(cap_origin, up)));
        if t.d_dot_spec(cap_origin) > rad {
            Dot::maximum_spec()
        } else {
            t
        }
    }

    /// The lateral-surface part of the cylinder intersection, entered
    /// when at most one cap was hit.
    pub open spec fn roll_side_spec(ray: Mat, c: Dot, rad: int, h2: int, nearest0: Dot) -> Dot {
        let nta = Spear::oy_spec().normal_spec(ray.normal);
        let ram = Mat::new_spec(c, nta);
        let dist = ray.origin.d_mat_spec(ram);
        if dist <= rad {
            let rml = Mat::new_spec(ray.origin, nta);
            let moi = Mat::new_spec(ray.origin, ray.normal.normal_spec(nta));
            let doa = Self::line_x_mat_spec(Mat::new_spec(c, Spear::oy_spec()), moi);
            let dor = doa.p_mat_spec(rml);
            let dd = isqrt_spec(rad * rad - dist * dist);
            let p1 = dor.offset_spec(ray.normal, dd);
            let p2 = dor.offset_spec(ray.normal, -dd);
            let p1a = if p1.y < c.y - h2 || p1.y > c.y + h2 {
                Dot::maximum_spec()
            } else {
                p1
            };
            let p2a = if p2.y < c.y - h2 || p2.y > c.y + h2 {
                Dot::maximum_spec()
            } else {
                p2
            };
            let p1b = if !(ray.val_spec(p1a) > 0) {
                Dot::maximum_spec()
            } else {
                p1a
            };
            let p2b = if !(ray.val_spec(p2a) > 0) {
                Dot::maximum_spec()
            } else {
                p2a
            };
            let n1 = if p1b.d_dot_spec(ray.origin) < nearest0.d_dot_spec(ray.origin) {
                p1b
            } else {
                nearest0
            };
            if p2b.d_dot_spec(ray.origin) < n1.d_dot_spec(ray.origin) {
                p2b
            } else {
                n1
            }
        } else {
            nearest0
        }
    }

    /// Intersection of a ray and an axis-aligned cylinder (axis along y):
    /// through both disk caps when the ray crosses them, else the nearer
    /// of cap and lateral-surface hits, or the sentinel.  Cap and
    /// lateral candidates behind the ray's origin are no hits.
    pub open spec fn ray_x_roll_spec(ray: Mat, c: Dot, radius: int, height: int) -> Dot {
        let rad = guard_spec(radius);
        let h2 = tdiv(guard_spec(height), 2);
        let tgo = Dot::new_spec(c.x as int, c.y + h2, c.z as int);
        let bgo = Dot::new_spec(c.x as int, c.y - h2, c.z as int);
        let top = Self::roll_cap_spec(ray, tgo, Spear::oy_spec(), rad);
        let bottom = Self::roll_cap_spec(ray, bgo, Spear::oy_spec().back_spec(), rad);
        let d_top = top.d_dot_spec(ray.origin);
        let d_bottom = bottom.d_dot_spec(ray.origin);
        if top != Dot::maximum_spec() && bottom != Dot::maximum_spec() {
            if d_top < d_bottom {
                top
            } else {
                bottom
            }
        } else {
            let nearest0 = if d_top < d_bottom {
                top
            } else {
                bottom
            };
            Self::roll_side_spec(ray, c, rad, h2, nearest0)
        }
    }

    /// Intersection of a ray and an axis-aligned cylinder.
    pub fn ray_x_roll(ray: &Mat, roll_center: &Dot, radius: i64, height: i64) -> (r: Dot)
        requires
            ray.wf(),
            roll_center.wf(),
        ensures
            r == Self::ray_x_roll_spec(*ray, *roll_center, radius as int, height as int),
            r.wf(),
    {
        let rad = guard_len(radius);
        let h = guard_len(height);
        let h2 = tdiv_ww(h as i128, 2) as i64;

        // the two disk caps
        let top_gap_origin = Dot::new(roll_center.x, roll_center.y + h2, roll_center.z);
        let top_gap_mat = Mat::new(top_gap_origin, Spear::oy());
        let mut top_gap_xyz = Self::fwd(ray, Self::line_x_mat(ray, &top_gap_mat));
        if top_gap_xyz.d_dot(&top_gap_origin) > rad {
            top_gap_xyz = Dot::maximum();
        }
        let bottom_gap_origin = Dot::new(roll_center.x, roll_center.y - h2, roll_center.z);
        let bottom_gap_mat = Mat::new(bottom_gap_origin, Spear::oy().back());
        let mut bottom_gap_xyz = Self::fwd(ray, Self::line_x_mat(ray, &bottom_gap_mat));
        if bottom_gap_xyz.d_dot(&bottom_gap_origin) > rad {
            bottom_gap_xyz = Dot::maximum();
        }
        let d_top = top_gap_xyz.d_dot(&ray.origin);
        let d_bottom = bottom_gap_xyz.d_dot(&ray.origin);
        if !top_gap_xyz.is_maximum() && !bottom_gap_xyz.is_maximum() {
            // the ray crosses the cylinder through both caps
            if d_top < d_bottom {
                return top_gap_xyz;
            } else {
                return bottom_gap_xyz;
            }
        }
        let mut nearest_intersection = if d_top < d_bottom {
            top_gap_xyz
        } else {
            bottom_gap_xyz
        };

        // the lateral surface
        let roll_axis = Spear::oy();
        let normal_to_axes = roll_axis.normal(&ray.normal);
        let roll_axis_mat = Mat::new(roll_center.same(), normal_to_axes);
        let distance = ray.origin.d_mat(&roll_axis_mat);
        if distance <= rad {
            let ray_mat_ll = Mat::new(ray.origin.same(), normal_to_axes);
            let mat_of_intersection = Mat::new(
                ray.origin.same(),
                ray.normal.normal(&normal_to_axes),
            );
            let dot_on_cylinder_axis = Self::line_x_mat(
                &Mat::new(roll_center.same(), Spear::oy()),
                &mat_of_intersection,
            );
            let dot_on_ray = dot_on_cylinder_axis.p_mat(&ray_mat_ll);
            proof {
                lemma_mul_bound(rad as int, rad as int, MAX_XYZ as int, MAX_XYZ as int);
                lemma_mul_bound(distance as int, distance as int, MAX_XYZ as int, MAX_XYZ as int);
                assert(distance as int * distance as int <= rad as int * rad as int
                    && distance as int * distance as int >= 0) by (nonlinear_arith)
                    requires
                        0 <= distance as int <= rad as int,
                ;
            }
            let dsq = mul_ww(rad, rad) - mul_ww(distance, distance);
            let dd = isqrt_ww(dsq);
            proof {
                lemma_isqrt_bounds(dsq as int);
                lemma_sq_within(dd as int, MAX_XYZ as int);
                assert((dsq as int) < ((MAX_XYZ as int) + 1) * ((MAX_XYZ as int) + 1)) by (
                nonlinear_arith)
                    requires
                        dsq as int <= (MAX_XYZ as int) * (MAX_XYZ as int),
                ;
                assert((dd as int) * (dd as int) < ((MAX_XYZ as int) + 1) * ((MAX_XYZ as int) + 1));
            }
            let mut p1 = dot_on_ray.offset(&ray.normal, dd as i64);
            let mut p2 = dot_on_ray.offset(&ray.normal, -(dd as i64));
            if p1.y < roll_center.y - h2 || p1.y > roll_center.y + h2 {
                p1 = Dot::maximum();
            }
            if p2.y < roll_center.y - h2 || p2.y > roll_center.y + h2 {
                p2 = Dot::maximum();
            }
            if !p1.is_above(ray) {
                p1 = Dot::maximum();
            }
            if !p2.is_above(ray) {
                p2 = Dot::maximum();
            }
            if p1.d_dot(&ray.origin) < nearest_intersection.d_dot(&ray.origin) {
                nearest_intersection = p1.same();
            }
            if p2.d_dot(&ray.origin) < nearest_intersection.d_dot(&ray.origin) {
                nearest_intersection = p2.same();
            }
        }
        nearest_intersection
    }

    /// Radians to degrees, in fixed-point angle units.
    pub fn degrees(angle_radians: i64) -> (r: i64)
        requires
            -4 * (MAX_XYZ as int) <= angle_radians <= 4 * (MAX_XYZ as int),
        ensures
            r as int == tdiv(angle_radians * 180 * SCALE, PI_FIXED as int),
    {
        proof {
            lemma_mul_bound(angle_radians as int, 180int, 4 * MAX_XYZ as int, 180int);
            lemma_mul_bound(
                angle_radians as int * 180,
                SCALE as int,
                720 * MAX_XYZ as int,
                SCALE as int,
            );
        }
        let n = mul_gg(
            mul_ww(angle_radians, 180),
            SCALE as i128,
            Ghost(720 * MAX_XYZ as int),
            Ghost(SCALE as int),
        );
        tdiv_ww(n, PI_FIXED as i128) as i64
    }

    /// Degrees to radians, in fixed-point angle units.
    pub fn radians(angle_degrees: i64) -> (r: i64)
        requires
            -4 * (MAX_XYZ as int) <= angle_degrees <= 4 * (MAX_XYZ as int),
        ensures
            r as int == tdiv(angle_degrees * PI_FIXED, 180 * SCALE as int),
    {
        proof {
            lemma_mul_bound(
                angle_degrees as int,
                PI_FIXED as int,
                4 * MAX_XYZ as int,
                PI_FIXED as int,
            );
        }
        let n = mul_ww(angle_degrees, PI_FIXED);
        tdiv_ww(n, 180 * SCALE as i128) as i64
    }
}

/// Fixed-point value of the circle constant.
pub const PI_FIXED: i64 = 3_141_593;

impl Dot {
    /// Projection of this point onto a plane: where the line through the
    /// point along the plane's normal meets the plane (the sentinel for
    /// the zero-plane sentinel, which has no normal to project along).
    pub open spec fn p_mat_spec(self, m: Mat) -> Dot {
        Gem::line_x_mat_spec(Mat::new_spec(self, m.normal), m)
    }

    /// Projection of this point onto a plane.
    pub fn p_mat(&self, m: &Mat) -> (r: Dot)
        requires
            self.wf(),
            m.wf(),
        ensures
            r == self.p_mat_spec(*m),
            r.wf(),
    {
        Gem::line_x_mat(&Mat::new(self.same(), m.normal), m)
    }
}

} // verus!
