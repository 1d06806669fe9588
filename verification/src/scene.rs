//! The scene: camera, light and object list, shared read-only by the
//! per-pixel work.

use vstd::prelude::*;

use crate::camera::Camera;
use crate::dot::Dot;
use crate::light::Light;
use crate::objects::Objects;

verus! {

pub struct Scene {
    pub camera: Camera,
    pub light: Light,
    pub objects: Vec<Objects>,
}

impl Scene {
    /// The parser-validated bounds the rendering stages rely on.
    pub open spec fn wf(&self) -> bool {
        &&& self.camera.wf()
        &&& self.light.wf()
    }

    pub fn new(camera: Camera, light: Light, objects: Vec<Objects>) -> (r: Scene)
        ensures
            r.camera == camera,
            r.light == light,
            r.objects == objects,
    {
        Scene { camera, light, objects }
    }

    /// The centre of the top-left pixel of the virtual screen.
    pub fn left_top_camera_pixel(&self) -> (r: Dot)
        requires
            self.wf(),
        ensures
            r == self.camera_left_top_pixel_spec(),
            r.wf(),
    {
        self.camera_left_top_pixel()
    }

    /// One byte of the placeholder buffer: byte `k` belongs to pixel
    /// `k / 3`, channel `k % 3`; border pixels are red, the rest green.
    pub open spec fn dummy_byte_spec(self, k: int) -> u8 {
        let p = k / 3;
        let ch = k % 3;
        let row = p / (self.camera.width as int);
        let col = p % (self.camera.width as int);
        let border = row == 0 || row == self.camera.height - 1 || col == 0 || col
            == self.camera.width - 1;
        if ch == 0 {
            if border {
                255u8
            } else {
                0u8
            }
        } else if ch == 1 {
            if border {
                0u8
            } else {
                255u8
            }
        } else {
            0u8
        }
    }

    /// A buffer of the output shape without any tracing: green field,
    /// red one-pixel border, row-major, three bytes per pixel.
    pub fn dummy_trace(&self) -> (r: Vec<u8>)
        requires
            self.wf(),
        ensures
            r@.len() == self.camera.width * self.camera.height * 3,
            forall|k: int| 0 <= k < r@.len() ==> r@[k] == self.dummy_byte_spec(k),
    {
        let width = self.camera.width;
        let height = self.camera.height;
        proof {
            assert(width * height <= 0x100000) by (nonlinear_arith)
                requires
                    0 < width <= 1024,
                    0 < height <= 1024,
            ;
        }
        let total = width * height;
        let mut data: Vec<u8> = Vec::new();
        let mut i: usize = 0;
        while i < total
            invariant
                self.wf(),
                width == self.camera.width,
                height == self.camera.height,
                total == width * height,
                i <= total,
                data@.len() == 3 * i,
                forall|k: int| 0 <= k < data@.len() ==> data@[k] == self.dummy_byte_spec(k),
            decreases total - i,
        {
            let row = i / width;
            let col = i % width;
            let border = row == 0 || row == height - 1 || col == 0 || col == width - 1;
            if border {
                data.push(255);
                data.push(0);
            } else {
                data.push(0);
                data.push(255);
            }
            data.push(0);
            proof {
                vstd::arithmetic::div_mod::lemma_fundamental_div_mod_converse(
                    3 * i as int,
                    3,
                    i as int,
                    0,
                );
                vstd::arithmetic::div_mod::lemma_fundamental_div_mod_converse(
                    3 * i as int + 1,
                    3,
                    i as int,
                    1,
                );
                vstd::arithmetic::div_mod::lemma_fundamental_div_mod_converse(
                    3 * i as int + 2,
                    3,
                    i as int,
                    2,
                );
            }
            i = i + 1;
        }
        data
    }
}

} // verus!
