//! Visibility culling.
//!
//! Before any ray is cast, objects that cannot affect the picture are
//! discarded: those out of the light's reach, and those entirely on the
//! dark side of the camera's five boundary planes.  Plane objects use
//! their own orientation for the parallel/behind tests; volumetric
//! objects use a conservative bounding radius.  This is an optimisation
//! over a conservative approximation, not a correctness filter.

use vstd::prelude::*;

use rayon::iter::IntoParallelRefIterator;
use rayon::iter::ParallelIterator;

use crate::dot::Dot;
use crate::intersect::guard_spec;
use crate::mat::Mat;
use crate::num::{clamped, isqrt_spec, tdiv};
use crate::num::{clamp_c, isqrt_ww, mul_ww, tdiv_ww};
use crate::num::{lemma_isqrt_bounds, lemma_mul_bound};
use crate::num::MAX_XYZ;
use crate::objects::Objects;
use crate::scene::Scene;
use crate::spear::Spear;

verus! {

impl Scene {
    /// The light's position as a point.
    pub open spec fn light_position_spec(self) -> Dot {
        Dot::new_spec(
            self.light.position[0] as int,
            self.light.position[1] as int,
            self.light.position[2] as int,
        )
    }

    /// A plane object survives culling: it is not degenerate, the light
    /// reaches it, and it does not lie behind any boundary plane it is
    /// parallel to.
    pub open spec fn mat_is_good_spec(self, position: [i64; 3], normal: [i64; 3]) -> bool {
        let p = Mat::new_spec(
            Dot::new_spec(position[0] as int, position[1] as int, position[2] as int),
            Spear::new_spec(normal[0] as int, normal[1] as int, normal[2] as int),
        );
        let front = self.camera_front_plane_spec();
        let left = self.camera_left_plane_spec();
        let right = self.camera_right_plane_spec();
        let top = self.camera_top_plane_spec();
        let bottom = self.camera_bottom_plane_spec();
        !((p.a == 0 && p.b == 0 && p.c == 0) || self.light_position_spec().d_mat_spec(p)
            > self.light.power || (p.normal.is_ll_spec(front.normal) && !(front.val_spec(p.origin)
            > 0)) || (p.normal.is_ll_spec(left.normal) && !(left.val_spec(p.origin) > 0)) || (
        p.normal.is_ll_spec(right.normal) && !(right.val_spec(p.origin) > 0)) || (
        p.normal.is_ll_spec(top.normal) && !(top.val_spec(p.origin) > 0)) || (
        p.normal.is_ll_spec(bottom.normal) && !(bottom.val_spec(p.origin) > 0)))
    }

    fn mat_is_good(&self, position: &[i64; 3], normal: &[i64; 3]) -> (r: bool)
        requires
            self.wf(),
        ensures
            r == self.mat_is_good_spec(*position, *normal),
    {
        let p = Mat::new(Dot::from_array(*position), Spear::from_array(*normal));
        let camera_front_plane = self.camera_front_plane();
        let camera_left_plane = self.camera_left_plane();
        let camera_right_plane = self.camera_right_plane();
        let camera_top_plane = self.camera_top_plane();
        let camera_bottom_plane = self.camera_bottom_plane();
        // drop a degenerate plane, one out of the light's reach, and one
        // behind (or level with) a boundary plane it is parallel to
        !(p.is_zero() || Dot::from_array(self.light.position).d_mat(&p) > self.light.power || (
        p.is_ll(&camera_front_plane) && !p.origin.is_above(&camera_front_plane)) || (p.is_ll(
            &camera_left_plane,
        ) && !p.origin.is_above(&camera_left_plane)) || (p.is_ll(&camera_right_plane)
            && !p.origin.is_above(&camera_right_plane)) || (p.is_ll(&camera_top_plane)
            && !p.origin.is_above(&camera_top_plane)) || (p.is_ll(&camera_bottom_plane)
            && !p.origin.is_above(&camera_bottom_plane)))
    }

    /// A sphere survives culling: positive radius, its closest approach
    /// point toward the light within the light's reach, and not wholly
    /// behind any boundary plane.
    pub open spec fn ball_is_good_spec(self, position: [i64; 3], radius: int) -> bool {
        let c = Dot::new_spec(position[0] as int, position[1] as int, position[2] as int);
        let sun = self.light_position_spec();
        let v_light = Spear::new_spec(sun.x - c.x, sun.y - c.y, sun.z - c.z);
        let nearest_dot = c.offset_spec(v_light, radius);
        let distance_to_sun = sun.d_dot_spec(nearest_dot);
        let front = self.camera_front_plane_spec();
        let left = self.camera_left_plane_spec();
        let right = self.camera_right_plane_spec();
        let top = self.camera_top_plane_spec();
        let bottom = self.camera_bottom_plane_spec();
        !(radius <= 0 || distance_to_sun > self.light.power || c.d_mat_spec(front) < radius || (
        c.d_mat_spec(front) >= radius && front.val_spec(c) < 0) || (c.d_mat_spec(left) >= radius
            && left.val_spec(c) < 0) || (c.d_mat_spec(right) >= radius && right.val_spec(c) < 0)
            || (c.d_mat_spec(top) >= radius && top.val_spec(c) < 0) || (c.d_mat_spec(bottom)
            >= radius && bottom.val_spec(c) < 0))
    }

    fn ball_is_good(&self, position: &[i64; 3], radius: i64) -> (r: bool)
        requires
            self.wf(),
        ensures
            r == self.ball_is_good_spec(*position, radius as int),
    {
        let c = Dot::from_array(*position);
        let sun = Dot::from_array(self.light.position);
        let v_light = Spear::pp(&[c, sun]);
        let nearest_dot = c.offset(&v_light, radius);
        let distance_to_sun = sun.d_dot(&nearest_dot);
        let camera_front_plane = self.camera_front_plane();
        let camera_left_plane = self.camera_left_plane();
        let camera_right_plane = self.camera_right_plane();
        let camera_top_plane = self.camera_top_plane();
        let camera_bottom_plane = self.camera_bottom_plane();
        !(radius <= 0 || distance_to_sun > self.light.power || c.d_mat(&camera_front_plane)
            < radius || (c.d_mat(&camera_front_plane) >= radius && c.is_below(&camera_front_plane))
            || (c.d_mat(&camera_left_plane) >= radius && c.is_below(&camera_left_plane)) || (
        c.d_mat(&camera_right_plane) >= radius && c.is_below(&camera_right_plane)) || (c.d_mat(
            &camera_top_plane,
        ) >= radius && c.is_below(&camera_top_plane)) || (c.d_mat(&camera_bottom_plane) >= radius
            && c.is_below(&camera_bottom_plane)))
    }

    /// The circumscribed-sphere radius of a cube of edge `size`.
    pub open spec fn box_corner_spec(size: int) -> int {
        let s2 = tdiv(guard_spec(size), 2);
        isqrt_spec(3 * (s2 * s2))
    }

    /// A cube survives culling: positive edge, its closest approach
    /// point toward the light within reach, and not wholly behind any
    /// boundary plane; the test uses the circumscribed-sphere radius.
    pub open spec fn box_is_good_spec(self, position: [i64; 3], size: int) -> bool {
        let c = Dot::new_spec(position[0] as int, position[1] as int, position[2] as int);
        let sun = self.light_position_spec();
        let v_light = Spear::new_spec(sun.x - c.x, sun.y - c.y, sun.z - c.z);
        let d = Self::box_corner_spec(size);
        let nearest_dot = c.offset_spec(v_light, d);
        let front = self.camera_front_plane_spec();
        let left = self.camera_left_plane_spec();
        let right = self.camera_right_plane_spec();
        let top = self.camera_top_plane_spec();
        let bottom = self.camera_bottom_plane_spec();
        !(size <= 0 || sun.d_dot_spec(nearest_dot) > self.light.power || c.d_mat_spec(front) < d
            || (c.d_mat_spec(front) >= d && front.val_spec(c) < 0) || (c.d_mat_spec(left) >= d
            && left.val_spec(c) < 0) || (c.d_mat_spec(right) >= d && right.val_spec(c) < 0) || (
        c.d_mat_spec(top) >= d && top.val_spec(c) < 0) || (c.d_mat_spec(bottom) >= d
            && bottom.val_spec(c) < 0))
    }

    /// Distance from a cube's centre to its corner.
    fn box_corner(size: i64) -> (r: i64)
        ensures
            r as int == Self::box_corner_spec(size as int),
            0 <= r <= 2 * MAX_XYZ as int,
    {
        let s = crate::intersect::guard_len(size);
        let s2 = tdiv_ww(s as i128, 2) as i64;
        proof {
            lemma_mul_bound(s2 as int, s2 as int, MAX_XYZ as int, MAX_XYZ as int);
            assert(s2 as int * s2 as int >= 0) by (nonlinear_arith);
        }
        let q = 3 * mul_ww(s2, s2);
        let d = isqrt_ww(q);
        proof {
            lemma_isqrt_bounds(q as int);
            assert(d as int <= 2 * MAX_XYZ as int) by (nonlinear_arith)
                requires
                    d as int >= 0,
                    d as int * d as int <= q as int,
                    q as int <= 3 * (MAX_XYZ as int) * (MAX_XYZ as int),
                    d as int == isqrt_spec(q as int),
            ;
        }
        d as i64
    }

    #[verifier::rlimit(60)]
    fn box_is_good(&self, position: &[i64; 3], size: i64) -> (r: bool)
        requires
            self.wf(),
        ensures
            r == self.box_is_good_spec(*position, size as int),
    {
        let c = Dot::from_array(*position);
        let sun = Dot::from_array(self.light.position);
        let v_light = Spear::pp(&[c, sun]);
        let d = Self::box_corner(size);
        let nearest_dot = c.offset(&v_light, d);
        let camera_front_plane = self.camera_front_plane();
        let camera_left_plane = self.camera_left_plane();
        let camera_right_plane = self.camera_right_plane();
        let camera_top_plane = self.camera_top_plane();
        let camera_bottom_plane = self.camera_bottom_plane();
        !(size <= 0 || sun.d_dot(&nearest_dot) > self.light.power || c.d_mat(&camera_front_plane)
            < d || (c.d_mat(&camera_front_plane) >= d && c.is_below(&camera_front_plane)) || (
        c.d_mat(&camera_left_plane) >= d && c.is_below(&camera_left_plane)) || (c.d_mat(
            &camera_right_plane,
        ) >= d && c.is_below(&camera_right_plane)) || (c.d_mat(&camera_top_plane) >= d
            && c.is_below(&camera_top_plane)) || (c.d_mat(&camera_bottom_plane) >= d && c.is_below(
            &camera_bottom_plane,
        )))
    }

    /// A cylinder survives culling as a cube whose edge is the larger of
    /// its diameter and its height.
    pub open spec fn roll_is_good_spec(self, position: [i64; 3], radius: int, height: int) -> bool {
        radius > 0 && height > 0 && self.box_is_good_spec(
            position,
            clamped(
                if 2 * radius >= height {
                    2 * radius
                } else {
                    height
                },
            ),
        )
    }

    fn roll_is_good(&self, position: &[i64; 3], radius: i64, height: i64) -> (r: bool)
        requires
            self.wf(),
        ensures
            r == self.roll_is_good_spec(*position, radius as int, height as int),
    {
        if radius > 0 && height > 0 {
            let rr: i128 = 2 * (radius as i128);
            let m: i128 = if rr >= height as i128 {
                rr
            } else {
                height as i128
            };
            self.box_is_good(position, clamp_c(m))
        } else {
            false
        }
    }

    /// The object survives culling.
    pub open spec fn object_good_spec(self, o: Objects) -> bool {
        match o {
            Objects::Mat { position, normal, .. } => self.mat_is_good_spec(position, normal),
            Objects::Ball { position, radius, .. } => self.ball_is_good_spec(
                position,
                radius as int,
            ),
            Objects::Box { position, size, .. } => self.box_is_good_spec(position, size as int),
            Objects::Roll { position, radius, height, .. } => self.roll_is_good_spec(
                position,
                radius as int,
                height as int,
            ),
        }
    }

    /// The object survives culling.
    pub fn object_good(&self, o: &Objects) -> (r: bool)
        requires
            self.wf(),
        ensures
            r == self.object_good_spec(*o),
    {
        match o {
            Objects::Mat { position, normal, .. } => self.mat_is_good(position, normal),
            Objects::Ball { position, radius, .. } => self.ball_is_good(position, *radius),
            Objects::Box { position, size, .. } => self.box_is_good(position, *size),
            Objects::Roll { position, radius, height, .. } => self.roll_is_good(
                position,
                *radius,
                *height,
            ),
        }
    }

    /// The objects worth tracing, in their input order.  The filter is
    /// a conservative approximation: bounding radii held against the
    /// five camera planes and the light's reach.  That it never discards
    /// an object the shading step would have hit within light range is
    /// not proved here and has to be checked empirically, scene by
    /// scene; a wrong discard is a rendering defect, not an unsoundness
    /// of any contract.
    pub fn good_to_trace(&self, objects: &Vec<Objects>) -> (r: Vec<Objects>)
        requires
            self.wf(),
        ensures
            r@ == objects@.filter(|o: Objects| self.object_good_spec(o)),
    {
        par_filter_good(self, objects)
    }
}

/// Relies on rayon's `par_iter().filter(..).cloned().collect::<Vec<_>>()`:
/// collecting a parallel iterator into a `Vec` keeps the surviving
/// elements in their input order, and `filter` keeps exactly the
/// elements the given verified predicate accepts.
#[verifier::external_body]
fn par_filter_good(scene: &Scene, objects: &Vec<Objects>) -> (r: Vec<Objects>)
    requires
        scene.wf(),
    ensures
        r@ == objects@.filter(|o: Objects| scene.object_good_spec(o)),
{
    objects.par_iter().filter(|o| scene.object_good(o)).cloned().collect()
}

} // verus!
