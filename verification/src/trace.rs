//! The frame driver: every pixel shaded in parallel into one flat
//! row-major R,G,B byte buffer.

use vstd::prelude::*;

use rayon::iter::IndexedParallelIterator;
use rayon::iter::IntoParallelIterator;
use rayon::iter::ParallelIterator;

use crate::objects::Objects;
use crate::scene::Scene;

verus! {

/// The whole frame as a byte sequence: byte `k` is channel `k % 3` of
/// pixel `k / 3`, pixels in row-major order.
pub open spec fn render_spec(s: Scene, goods: Seq<Objects>) -> Seq<u8> {
    Seq::new(
        (s.camera.width * s.camera.height * 3) as nat,
        |k: int|
            {
                let p = k / 3;
                let rgb = s.pixel_color_spec(
                    p / (s.camera.width as int),
                    p % (s.camera.width as int),
                    goods,
                );
                if k % 3 == 0 {
                    rgb.r
                } else if k % 3 == 1 {
                    rgb.g
                } else {
                    rgb.b
                }
            },
    )
}

/// Relies on rayon's `into_par_iter().map(..).flatten_iter().collect()`
/// over `0..width*height`: an indexed parallel iterator collects into a
/// `Vec` in index order, each element coming from the verified
/// `pixel_bytes`.
#[verifier::external_body]
fn par_render(scene: &Scene, goods: &Vec<Objects>) -> (r: Vec<u8>)
    requires
        scene.wf(),
    ensures
        r@ == render_spec(*scene, goods@),
{
    (0..scene.camera.width * scene.camera.height)
        .into_par_iter()
        .map(|i: usize| scene.pixel_bytes(i, goods))
        .flatten_iter()
        .collect()
}

impl Scene {
    /// The three bytes of the frame's pixel at flat index `i` (row-major
    /// order): the colour of pixel `(i / width, i % width)`.
    #[verifier::rlimit(100)]
    #[verifier::spinoff_prover]
    pub fn pixel_bytes(&self, i: usize, good_to_trace: &Vec<Objects>) -> (r: [u8; 3])
        requires
            self.wf(),
            i < self.camera.width * self.camera.height,
        ensures
            ({
                let rgb = self.pixel_color_spec(
                    i as int / (self.camera.width as int),
                    i as int % (self.camera.width as int),
                    good_to_trace@,
                );
                r[0] == rgb.r && r[1] == rgb.g && r[2] == rgb.b
            }),
    {
        let width = self.camera.width;
        proof {
            crate::num::lemma_flat_index(i as int, width as int, self.camera.height as int);
        }
        let row = i / width;
        let col = i % width;
        let c = self.pixel_color(row, col, good_to_trace);
        [c.r, c.g, c.b]
    }

    /// Cull the scene's objects, then shade every pixel of the frame.
    /// The frame is computed over the culled list: `good_to_trace`
    /// states the limits of that approximation.
    pub fn trace(&self) -> (r: Vec<u8>)
        requires
            self.wf(),
        ensures
            r@ == render_spec(
                *self,
                self.objects@.filter(|o: Objects| self.object_good_spec(o)),
            ),
            r@.len() == self.camera.width * self.camera.height * 3,
    {
        let good_to_trace = self.good_to_trace(&self.objects);
        par_render(self, &good_to_trace)
    }
}

} // verus!
