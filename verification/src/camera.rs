//! The camera, and the rays and culling planes derived from it.
//!
//! From the camera's position, look-at point and up reference the scene
//! derives an orthonormal basis (forward, up, left), a pulled-back zoom
//! point behind the image plane, the screen's pixel grid (pixel pitch of
//! one world unit), and five half-space planes used for culling.

use vstd::prelude::*;

use crate::dot::Dot;
use crate::mat::Mat;
use crate::num::tdiv;
use crate::num::tdiv_ww;
use crate::num::SCALE;
use crate::scene::Scene;
use crate::spear::Spear;

verus! {

/// Largest accepted output picture side, as the scene parser enforces.
pub const MAX_SIDE: usize = 1024;

/// Largest accepted zoom pull-back, as the scene parser enforces; a
/// pull-back past the coordinate range clamps at the range's floor.
pub const MAX_ZOOM: usize = 1_048_576;

/// The camera parameters, as plain already-validated data.
#[derive(Debug, PartialEq)]
pub struct Camera {
    pub width: usize,
    pub height: usize,
    /// displacement of the rays' start point back from the camera position
    pub zoom: usize,
    pub position: [i64; 3],
    /// point in the front of the camera, to build the camera vector
    pub look_at: [i64; 3],
    pub up: [i64; 3],
}

impl Camera {
    /// The bounds the scene parser guarantees.
    pub open spec fn wf(&self) -> bool {
        &&& 0 < self.width <= MAX_SIDE
        &&& 0 < self.height <= MAX_SIDE
        &&& 0 < self.zoom <= MAX_ZOOM
    }
}

impl Scene {
    /// The camera's position.
    pub open spec fn camera_position_spec(self) -> Dot {
        Dot::new_spec(
            self.camera.position[0] as int,
            self.camera.position[1] as int,
            self.camera.position[2] as int,
        )
    }

    /// The camera's forward direction; +z when position and look-at
    /// coincide.
    pub open spec fn camera_vector_spec(self) -> Spear {
        let from = self.camera_position_spec();
        let to = Dot::new_spec(
            self.camera.look_at[0] as int,
            self.camera.look_at[1] as int,
            self.camera.look_at[2] as int,
        );
        let v = Spear::new_spec(to.x - from.x, to.y - from.y, to.z - from.z);
        if v.x == 0 && v.y == 0 && v.z == 0 {
            Spear { x: 0i64, y: 0i64, z: SCALE }
        } else {
            v
        }
    }

    /// The camera's up direction: the up reference, nudged along y when
    /// degenerate, re-orthogonalised against the forward direction.
    pub open spec fn camera_up_vector_spec(self) -> Spear {
        let from = self.camera_position_spec();
        let to = Dot::new_spec(
            self.camera.up[0] as int,
            self.camera.up[1] as int,
            self.camera.up[2] as int,
        );
        let cuv0 = Spear::new_spec(to.x - from.x, to.y - from.y, to.z - from.z);
        let cv = self.camera_vector_spec();
        let cuv = if (cuv0.x == 0 && cuv0.y == 0 && cuv0.z == 0) || cuv0.is_ll_spec(cv) {
            Spear { x: cuv0.x, y: (cuv0.y + SCALE) as i64, z: cuv0.z }
        } else {
            cuv0
        };
        cv.normal_spec(cuv.normal_spec(cv))
    }

    /// The camera's left direction.
    pub open spec fn camera_left_vector_spec(self) -> Spear {
        self.camera_up_vector_spec().normal_spec(self.camera_vector_spec())
    }

    /// The rays' start point: the camera position pulled back by the
    /// zoom distance.
    pub open spec fn camera_zoom_position_spec(self) -> Dot {
        self.camera_position_spec().offset_spec(
            self.camera_vector_spec(),
            -(self.camera.zoom * SCALE),
        )
    }

    /// The centre of the top-left pixel of the virtual screen.
    pub open spec fn camera_left_top_pixel_spec(self) -> Dot {
        let tw = tdiv(self.camera.width * SCALE - SCALE, 2);
        let th = tdiv(self.camera.height * SCALE - SCALE, 2);
        self.camera_position_spec().offset_spec(self.camera_left_vector_spec(), tw).offset_spec(
            self.camera_up_vector_spec(),
            th,
        )
    }

    /// The centre of the bottom-left pixel.
    pub open spec fn camera_left_bottom_pixel_spec(self) -> Dot {
        self.camera_left_top_pixel_spec().offset_spec(
            self.camera_up_vector_spec().back_spec(),
            (self.camera.height - 1) * SCALE,
        )
    }

    /// The centre of the top-right pixel.
    pub open spec fn camera_right_top_pixel_spec(self) -> Dot {
        self.camera_left_top_pixel_spec().offset_spec(
            self.camera_left_vector_spec().back_spec(),
            (self.camera.width - 1) * SCALE,
        )
    }

    /// The centre of the bottom-right pixel.
    pub open spec fn camera_right_bottom_pixel_spec(self) -> Dot {
        self.camera_right_top_pixel_spec().offset_spec(
            self.camera_up_vector_spec().back_spec(),
            (self.camera.height - 1) * SCALE,
        )
    }

    /// The ray from the zoom point through the centre of pixel
    /// `(row, col)`.
    pub open spec fn camera_ray_to_pixel_spec(self, row: int, col: int) -> Mat {
        let czp = self.camera_zoom_position_spec();
        let pixel = self.camera_left_top_pixel_spec().offset_spec(
            self.camera_up_vector_spec().back_spec(),
            row * SCALE,
        ).offset_spec(self.camera_left_vector_spec().back_spec(), col * SCALE);
        Mat::new_spec(
            czp,
            Spear::new_spec(pixel.x - czp.x, pixel.y - czp.y, pixel.z - czp.z),
        )
    }

    /// The camera's forward direction; +z when position and look-at
    /// coincide.
    pub fn camera_vector(&self) -> (r: Spear)
        ensures
            r == self.camera_vector_spec(),
            r.wf(),
            r.unit_scaled(),
    {
        let camera = &self.camera;
        let from = Dot::from_array(camera.position);
        let to = Dot::from_array(camera.look_at);
        let mut v = Spear::pp(&[from, to]);
        // a zero vector gets +z as the camera direction
        if v.is_zero() {
            v.z = v.z + SCALE;
        }
        v
    }

    /// The camera's up direction.
    pub fn camera_up_vector(&self) -> (r: Spear)
        ensures
            r == self.camera_up_vector_spec(),
            r.wf(),
            r.unit_scaled(),
    {
        let camera = &self.camera;
        let from = Dot::from_array(camera.position);
        let to = Dot::from_array(camera.up);
        let mut cuv = Spear::pp(&[from, to]);
        // a zero or forward-parallel reference gets a nudge along y
        let cv = self.camera_vector();
        if cuv.is_zero() || cuv.is_ll(&cv) {
            cuv.y = cuv.y + SCALE;
        }
        // re-orthogonalise against the camera vector
        cv.normal(&cuv.normal(&cv))
    }

    /// The camera's left direction.
    pub fn camera_left_vector(&self) -> (r: Spear)
        ensures
            r == self.camera_left_vector_spec(),
            r.wf(),
            r.unit_scaled(),
    {
        let cv = self.camera_vector();
        let cuv = self.camera_up_vector();
        cuv.normal(&cv)
    }

    /// The camera's position.
    pub fn camera_position(&self) -> (r: Dot)
        ensures
            r == self.camera_position_spec(),
            r.wf(),
    {
        Dot::from_array(self.camera.position)
    }

    /// The rays' start point, pulled back from the camera position.
    pub fn camera_zoom_position(&self) -> (r: Dot)
        requires
            self.wf(),
        ensures
            r == self.camera_zoom_position_spec(),
            r.wf(),
    {
        let v = self.camera_vector();
        let dot = self.camera_position();
        dot.offset(&v, -((self.camera.zoom as i64) * SCALE))
    }

    /// The centre of the top-left pixel of the virtual screen: the
    /// camera position moved half the screen left and half the screen
    /// up, less half a pixel each way.
    pub fn camera_left_top_pixel(&self) -> (r: Dot)
        requires
            self.wf(),
        ensures
            r == self.camera_left_top_pixel_spec(),
            r.wf(),
    {
        let camera_position = self.camera_position();
        let camera_left_vector = self.camera_left_vector();
        let camera_up_vector = self.camera_up_vector();
        let tw = tdiv_ww((self.camera.width as i128) * (SCALE as i128) - (SCALE as i128), 2)
            as i64;
        let th = tdiv_ww((self.camera.height as i128) * (SCALE as i128) - (SCALE as i128), 2)
            as i64;
        camera_position.offset(&camera_left_vector, tw).offset(&camera_up_vector, th)
    }

    fn camera_left_bottom_pixel(&self) -> (r: Dot)
        requires
            self.wf(),
        ensures
            r == self.camera_left_bottom_pixel_spec(),
            r.wf(),
    {
        self.camera_left_top_pixel().offset(
            &self.camera_up_vector().back(),
            ((self.camera.height as i64) - 1) * SCALE,
        )
    }

    fn camera_right_top_pixel(&self) -> (r: Dot)
        requires
            self.wf(),
        ensures
            r == self.camera_right_top_pixel_spec(),
            r.wf(),
    {
        self.camera_left_top_pixel().offset(
            &self.camera_left_vector().back(),
            ((self.camera.width as i64) - 1) * SCALE,
        )
    }

    fn camera_right_bottom_pixel(&self) -> (r: Dot)
        requires
            self.wf(),
        ensures
            r == self.camera_right_bottom_pixel_spec(),
            r.wf(),
    {
        self.camera_right_top_pixel().offset(
            &self.camera_up_vector().back(),
            ((self.camera.height as i64) - 1) * SCALE,
        )
    }

    /// The ray from the zoom point through the centre of pixel
    /// `(row, col)`.
    pub fn camera_ray_to_pixel(&self, row: usize, col: usize) -> (r: Mat)
        requires
            self.wf(),
            row < self.camera.height,
            col < self.camera.width,
        ensures
            r == self.camera_ray_to_pixel_spec(row as int, col as int),
            r.wf(),
    {
        let camera_zoom_position = self.camera_zoom_position();
        let camera_left_top_pixel = self.camera_left_top_pixel();
        let camera_screen_pixel = camera_left_top_pixel.offset(
            // offset down
            &self.camera_up_vector().back(),
            (row as i64) * SCALE,
        ).offset(
            // offset right
            &self.camera_left_vector().back(),
            (col as i64) * SCALE,
        );
        Mat::pp(camera_zoom_position, camera_screen_pixel)
    }

    /// Left culling plane, through the zoom point, its normal aimed into
    /// the scene.
    pub open spec fn camera_left_plane_spec(self) -> Mat {
        let czp = self.camera_zoom_position_spec();
        let cltp = self.camera_left_top_pixel_spec();
        let lu = Spear::new_spec(cltp.x - czp.x, cltp.y - czp.y, cltp.z - czp.z);
        let pn0 = lu.normal_spec(self.camera_up_vector_spec());
        let pn = if pn0.x == 0 && pn0.y == 0 && pn0.z == 0 {
            self.camera_left_vector_spec().back_spec()
        } else {
            pn0
        };
        Mat::new_spec(czp, pn)
    }

    /// Left culling plane.
    pub fn camera_left_plane(&self) -> (r: Mat)
        requires
            self.wf(),
        ensures
            r == self.camera_left_plane_spec(),
            r.wf(),
    {
        let camera_zoom_position = self.camera_zoom_position();
        let left_up_vector = Spear::pp(&[camera_zoom_position, self.camera_left_top_pixel()]);
        let mut plane_normal = left_up_vector.normal(&self.camera_up_vector());
        // a degenerate normal falls back to the inward left direction
        if plane_normal.is_zero() {
            plane_normal = self.camera_left_vector().back();
        }
        Mat::new(camera_zoom_position, plane_normal)
    }

    /// Right culling plane, through the zoom point, its normal aimed
    /// into the scene.
    pub open spec fn camera_right_plane_spec(self) -> Mat {
        let czp = self.camera_zoom_position_spec();
        let crtp = self.camera_right_top_pixel_spec();
        let ru = Spear::new_spec(crtp.x - czp.x, crtp.y - czp.y, crtp.z - czp.z);
        let pn0 = self.camera_up_vector_spec().normal_spec(ru);
        let pn = if pn0.x == 0 && pn0.y == 0 && pn0.z == 0 {
            self.camera_left_vector_spec()
        } else {
            pn0
        };
        Mat::new_spec(czp, pn)
    }

    /// Right culling plane.
    pub fn camera_right_plane(&self) -> (r: Mat)
        requires
            self.wf(),
        ensures
            r == self.camera_right_plane_spec(),
            r.wf(),
    {
        let camera_zoom_position = self.camera_zoom_position();
        let right_up_vector = Spear::pp(&[camera_zoom_position, self.camera_right_top_pixel()]);
        let mut plane_normal = self.camera_up_vector().normal(&right_up_vector);
        // a degenerate normal falls back to the inward left direction
        if plane_normal.is_zero() {
            plane_normal = self.camera_left_vector();
        }
        Mat::new(camera_zoom_position, plane_normal)
    }

    /// Top culling plane, through the zoom point, its normal aimed into
    /// the scene.
    pub open spec fn camera_top_plane_spec(self) -> Mat {
        let czp = self.camera_zoom_position_spec();
        let cltp = self.camera_left_top_pixel_spec();
        let crtp = self.camera_right_top_pixel_spec();
        let lt = Spear::new_spec(cltp.x - czp.x, cltp.y - czp.y, cltp.z - czp.z);
        let rt = Spear::new_spec(crtp.x - czp.x, crtp.y - czp.y, crtp.z - czp.z);
        let pn0 = lt.normal_spec(rt);
        let pn = if pn0.x == 0 && pn0.y == 0 && pn0.z == 0 {
            self.camera_up_vector_spec().back_spec()
        } else {
            pn0
        };
        Mat::new_spec(czp, pn)
    }

    /// Top culling plane.
    pub fn camera_top_plane(&self) -> (r: Mat)
        requires
            self.wf(),
        ensures
            r == self.camera_top_plane_spec(),
            r.wf(),
    {
        let camera_zoom_position = self.camera_zoom_position();
        let left_top_vector = Spear::pp(&[camera_zoom_position, self.camera_left_top_pixel()]);
        let right_top_vector = Spear::pp(&[camera_zoom_position, self.camera_right_top_pixel()]);
        let mut plane_normal = left_top_vector.normal(&right_top_vector);
        // a degenerate normal falls back to the inward down direction
        if plane_normal.is_zero() {
            plane_normal = self.camera_up_vector().back();
        }
        Mat::new(camera_zoom_position, plane_normal)
    }

    /// Bottom culling plane, through the zoom point, its normal aimed
    /// into the scene.
    pub open spec fn camera_bottom_plane_spec(self) -> Mat {
        let czp = self.camera_zoom_position_spec();
        let clbp = self.camera_left_bottom_pixel_spec();
        let crbp = self.camera_right_bottom_pixel_spec();
        let lb = Spear::new_spec(clbp.x - czp.x, clbp.y - czp.y, clbp.z - czp.z);
        let rb = Spear::new_spec(crbp.x - czp.x, crbp.y - czp.y, crbp.z - czp.z);
        let pn0 = rb.normal_spec(lb);
        let pn = if pn0.x == 0 && pn0.y == 0 && pn0.z == 0 {
            self.camera_up_vector_spec()
        } else {
            pn0
        };
        Mat::new_spec(czp, pn)
    }

    /// Bottom culling plane.
    pub fn camera_bottom_plane(&self) -> (r: Mat)
        requires
            self.wf(),
        ensures
            r == self.camera_bottom_plane_spec(),
            r.wf(),
    {
        let camera_zoom_position = self.camera_zoom_position();
        let left_bottom_vector = Spear::pp(
            &[camera_zoom_position, self.camera_left_bottom_pixel()],
        );
        let right_bottom_vector = Spear::pp(
            &[camera_zoom_position, self.camera_right_bottom_pixel()],
        );
        let mut plane_normal = right_bottom_vector.normal(&left_bottom_vector);
        // a degenerate normal falls back to the inward up direction
        if plane_normal.is_zero() {
            plane_normal = self.camera_up_vector();
        }
        Mat::new(camera_zoom_position, plane_normal)
    }

    /// Front culling plane, through the camera position, facing forward.
    pub open spec fn camera_front_plane_spec(self) -> Mat {
        Mat::new_spec(self.camera_position_spec(), self.camera_vector_spec())
    }

    /// Front culling plane.
    pub fn camera_front_plane(&self) -> (r: Mat)
        requires
            self.wf(),
        ensures
            r == self.camera_front_plane_spec(),
            r.wf(),
    {
        Mat::new(self.camera_position(), self.camera_vector())
    }
}

} // verus!
