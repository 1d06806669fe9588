//! Per-pixel shading.
//!
//! For each pixel the scene casts the camera ray, intersects it with
//! every surviving object, keeps the nearest hit, scales the object's
//! colour by the light's falloff and colour, and casts a secondary ray
//! toward the light: if any other object sits strictly nearer the light
//! than the hit, the colour is halved once (binary shadowing with a
//! single darkening level).  A hit out of the light's reach shows the
//! cyan background.

use vstd::prelude::*;

use crate::dot::Dot;
use crate::gem::Gem;
use crate::mat::Mat;
use crate::num::tdiv;
use crate::num::{mul_gg, tdiv_ww};
use crate::num::{lemma_mul_bound, lemma_tdiv_range};
use crate::objects::Objects;
use crate::scene::Scene;
use crate::spear::Spear;

verus! {

#[derive(Debug, Clone, Copy, PartialEq, Eq, Structural)]
pub struct RGB {
    pub r: u8,
    pub g: u8,
    pub b: u8,
}

impl RGB {
    pub fn new(r: u8, g: u8, b: u8) -> (c: RGB)
        ensures
            c == (RGB { r, g, b }),
    {
        RGB { r, g, b }
    }

    pub fn from_array(array: &[u8; 3]) -> (c: RGB)
        ensures
            c == (RGB { r: array[0], g: array[1], b: array[2] }),
    {
        RGB::new(array[0], array[1], array[2])
    }

    /// The same colour.
    pub fn same(&self) -> (c: RGB)
        ensures
            c == *self,
    {
        RGB::new(self.r, self.g, self.b)
    }

    /// The background colour (cyan), shown where the ray hits nothing
    /// the light reaches.
    pub open spec fn background_spec() -> RGB {
        RGB { r: 0u8, g: 255u8, b: 255u8 }
    }

    /// The background colour.
    pub fn background() -> (c: RGB)
        ensures
            c == Self::background_spec(),
    {
        RGB::new(0, 255, 255)
    }

    /// Every channel halved: the single shadow-darkening step.
    pub open spec fn dark_side_spec(self) -> RGB {
        RGB { r: (self.r / 2) as u8, g: (self.g / 2) as u8, b: (self.b / 2) as u8 }
    }

    /// Every channel halved.
    pub fn dark_side(&self) -> (c: RGB)
        ensures
            c == self.dark_side_spec(),
    {
        let dark: u8 = 2;
        RGB::new(self.r / dark, self.g / dark, self.b / dark)
    }

    /// A colour scaled by the light's falloff and its own colour: each
    /// channel becomes `c * (power - distance) * light_c / (power * 255)`,
    /// or the background when the point is out of the light's reach.
    pub open spec fn power_affected_spec(
        rgb: [u8; 3],
        color_position: Dot,
        light_source_position: Dot,
        light_color: RGB,
        light_power_distance: int,
    ) -> RGB {
        let distance = color_position.d_dot_spec(light_source_position);
        if distance < light_power_distance {
            let pd = light_power_distance - distance;
            RGB {
                r: tdiv(rgb[0] * pd * light_color.r, light_power_distance * 255) as u8,
                g: tdiv(rgb[1] * pd * light_color.g, light_power_distance * 255) as u8,
                b: tdiv(rgb[2] * pd * light_color.b, light_power_distance * 255) as u8,
            }
        } else {
            Self::background_spec()
        }
    }

    /// One channel of the falloff scaling.
    fn shade_channel(c: u8, pd: i64, p: i64, lc: u8) -> (r: u8)
        requires
            1 <= pd <= p,
        ensures
            r as int == tdiv(c * pd * lc, p * 255),
    {
        proof {
            lemma_mul_bound(c as int, pd as int, 255int, p as int);
        }
        let n = mul_gg(
            mul_gg(c as i128, pd as i128, Ghost(255int), Ghost(0x8000_0000_0000_0000int)),
            lc as i128,
            Ghost(255 * 0x8000_0000_0000_0000int),
            Ghost(255int),
        );
        let den = mul_gg(p as i128, 255, Ghost(0x8000_0000_0000_0000int), Ghost(255int));
        proof {
            lemma_mul_bound(c as int * pd as int, lc as int, 255 * (p as int), 255int);
            assert(c as int * pd as int * lc as int <= 255 * (p as int * 255)) by (nonlinear_arith)
                requires
                    0 <= c as int <= 255,
                    0 <= lc as int <= 255,
                    1 <= pd as int <= p as int,
            ;
            assert(c as int * pd as int * lc as int >= 0) by (nonlinear_arith)
                requires
                    0 <= c as int,
                    0 <= pd as int,
                    0 <= lc as int,
            ;
            assert(p as int * 255 > 0);
            lemma_tdiv_range(c as int * pd as int * lc as int, p as int * 255, 255int);
            vstd::arithmetic::div_mod::lemma_div_pos_is_pos(
                c as int * pd as int * lc as int,
                p as int * 255,
            );
        }
        tdiv_ww(n, den) as u8
    }

    /// A colour scaled by the light's falloff and its own colour.
    pub fn power_affected(
        rgb: [u8; 3],
        color_position: Dot,
        light_source_position: Dot,
        light_color: RGB,
        light_power_distance: i64,
    ) -> (c: RGB)
        requires
            color_position.wf(),
            light_source_position.wf(),
        ensures
            c == Self::power_affected_spec(
                rgb,
                color_position,
                light_source_position,
                light_color,
                light_power_distance as int,
            ),
    {
        let distance = color_position.d_dot(&light_source_position);
        if distance < light_power_distance {
            let pd = light_power_distance - distance;
            RGB {
                r: Self::shade_channel(rgb[0], pd, light_power_distance, light_color.r),
                g: Self::shade_channel(rgb[1], pd, light_power_distance, light_color.g),
                b: Self::shade_channel(rgb[2], pd, light_power_distance, light_color.b),
            }
        } else {
            RGB::background()
        }
    }
}

/// Where the ray meets an object, by the object's kind.  Opaque: the
/// shading proofs use only the name; `object_hit`'s contract carries
/// the value.
#[verifier::opaque]
pub open spec fn object_hit_spec(ray: Mat, o: Objects) -> Dot {
    match o {
        Objects::Mat { position, normal, .. } => Gem::ray_x_mat_spec(
            ray,
            Mat::new_spec(
                Dot::new_spec(position[0] as int, position[1] as int, position[2] as int),
                Spear::new_spec(normal[0] as int, normal[1] as int, normal[2] as int),
            ),
        ),
        Objects::Ball { position, radius, .. } => Gem::ray_x_ball_spec(
            ray,
            Dot::new_spec(position[0] as int, position[1] as int, position[2] as int),
            radius as int,
        ),
        Objects::Box { position, size, .. } => Gem::ray_x_box_spec(
            ray,
            Dot::new_spec(position[0] as int, position[1] as int, position[2] as int),
            size as int,
        ),
        Objects::Roll { position, radius, height, .. } => Gem::ray_x_roll_spec(
            ray,
            Dot::new_spec(position[0] as int, position[1] as int, position[2] as int),
            radius as int,
            height as int,
        ),
    }
}

/// Where the ray meets an object.
pub fn object_hit(ray: &Mat, o: &Objects) -> (r: Dot)
    requires
        ray.wf(),
    ensures
        r == object_hit_spec(*ray, *o),
        r.wf(),
{
    proof {
        reveal(object_hit_spec);
    }
    match o {
        Objects::Mat { position, normal, .. } => Gem::ray_x_mat(
            ray,
            &Mat::new(Dot::from_array(*position), Spear::from_array(*normal)),
        ),
        Objects::Ball { position, radius, .. } => Gem::ray_x_ball(
            ray,
            &Dot::from_array(*position),
            *radius,
        ),
        Objects::Box { position, size, .. } => Gem::ray_x_box(
            ray,
            &Dot::from_array(*position),
            *size,
        ),
        Objects::Roll { position, radius, height, .. } => Gem::ray_x_roll(
            ray,
            &Dot::from_array(*position),
            *radius,
            *height,
        ),
    }
}

impl Scene {
    /// Some object other than `index` intersects the ray toward the
    /// light strictly nearer the light than `limit`.
    pub open spec fn occluded_spec(
        self,
        goods: Seq<Objects>,
        index: int,
        ray_to_light: Mat,
        light_pos: Dot,
        limit: int,
    ) -> bool {
        exists|j: int|
            0 <= j < goods.len() && j != index && object_hit_spec(
                ray_to_light,
                #[trigger] goods[j],
            ).d_dot_spec(light_pos) < limit
    }

    /// The shared tail of every per-object check: range test against the
    /// light, the shadow pass over the other objects (one darkening at
    /// most), and the nearest-hit comparison against the running best.
    pub open spec fn shade_candidate_spec(
        self,
        old_color: RGB,
        nearest_position: Dot,
        ray: Mat,
        obj_pixel_color: RGB,
        obj_pixel_position: Dot,
        index: int,
        goods: Seq<Objects>,
    ) -> (RGB, Dot) {
        let light_pos = self.light_position_spec();
        let limit = obj_pixel_position.d_dot_spec(light_pos);
        let keep = limit <= self.light.power;
        let pc0 = if keep {
            obj_pixel_color
        } else {
            RGB::background_spec()
        };
        let pp0 = if keep {
            obj_pixel_position
        } else {
            Dot::maximum_spec()
        };
        let ray_to_light = Mat::new_spec(
            obj_pixel_position,
            Spear::new_spec(
                light_pos.x - obj_pixel_position.x,
                light_pos.y - obj_pixel_position.y,
                light_pos.z - obj_pixel_position.z,
            ),
        );
        let pc1 = if self.occluded_spec(goods, index, ray_to_light, light_pos, limit) {
            pc0.dark_side_spec()
        } else {
            pc0
        };
        if pp0.d_dot_spec(ray.origin) < nearest_position.d_dot_spec(ray.origin) {
            (pc1, pp0)
        } else {
            (old_color, nearest_position)
        }
    }

    #[verifier::rlimit(100)]
    fn shade_candidate(
        &self,
        old_color: RGB,
        nearest_position: Dot,
        ray: Mat,
        obj_pixel_color: RGB,
        obj_pixel_position: Dot,
        index: usize,
        good_to_trace: &Vec<Objects>,
    ) -> (r: (RGB, Dot))
        requires
            self.wf(),
            ray.wf(),
            nearest_position.wf(),
            obj_pixel_position.wf(),
        ensures
            r == self.shade_candidate_spec(
                old_color,
                nearest_position,
                ray,
                obj_pixel_color,
                obj_pixel_position,
                index as int,
                good_to_trace@,
            ),
            r.1.wf(),
    {
        let light_position = Dot::from_array(self.light.position);
        let limit = obj_pixel_position.d_dot(&light_position);
        let mut pixel_color = RGB::background();
        let mut pixel_position = Dot::maximum();
        if limit <= self.light.power {
            pixel_color = obj_pixel_color;
            pixel_position = obj_pixel_position;
        }
        // the ray from the candidate hit toward the light source
        let ray_to_light = Mat::new(
            obj_pixel_position,
            Spear::pp(&[obj_pixel_position, light_position]),
        );
        let ghost goods = good_to_trace@;
        let mut j: usize = 0;
        let mut shadowed = false;
        while j < good_to_trace.len() && !shadowed
            invariant
                self.wf(),
                ray_to_light.wf(),
                light_position == self.light_position_spec(),
                light_position.wf(),
                goods == good_to_trace@,
                limit as int == obj_pixel_position.d_dot_spec(light_position),
                ray_to_light == Mat::new_spec(
                    obj_pixel_position,
                    Spear::new_spec(
                        light_position.x - obj_pixel_position.x,
                        light_position.y - obj_pixel_position.y,
                        light_position.z - obj_pixel_position.z,
                    ),
                ),
                j <= goods.len(),
                shadowed ==> self.occluded_spec(
                    goods,
                    index as int,
                    ray_to_light,
                    light_position,
                    limit as int,
                ),
                !shadowed ==> forall|k: int|
                    0 <= k < j && k != index ==> object_hit_spec(
                        ray_to_light,
                        #[trigger] goods[k],
                    ).d_dot_spec(light_position) >= limit,
            decreases goods.len() - j,
        {
            if j != index {
                let xyz = object_hit(&ray_to_light, &good_to_trace[j]);
                if xyz.d_dot(&light_position) < limit {
                    shadowed = true;
                }
            }
            j = j + 1;
        }
        if shadowed {
            pixel_color = pixel_color.dark_side();
        }
        // keep the nearer of this candidate and the best so far
        if pixel_position.d_dot(&ray.origin) < nearest_position.d_dot(&ray.origin) {
            (pixel_color, pixel_position)
        } else {
            (old_color, nearest_position)
        }
    }

    /// Law: the shadow pass darkens a candidate's colour at most once,
    /// however many occluders stand between it and the light: a shading
    /// step keeps the running colour, or takes the candidate's colour
    /// (the background when the candidate is out of the light's reach)
    /// either untouched or with every channel halved exactly once.
    pub proof fn lemma_single_darkening(
        self,
        old_color: RGB,
        nearest_position: Dot,
        ray: Mat,
        obj_pixel_color: RGB,
        obj_pixel_position: Dot,
        index: int,
        goods: Seq<Objects>,
    )
        ensures
            ({
                let r = self.shade_candidate_spec(
                    old_color,
                    nearest_position,
                    ray,
                    obj_pixel_color,
                    obj_pixel_position,
                    index,
                    goods,
                );
                let base = if obj_pixel_position.d_dot_spec(self.light_position_spec())
                    <= self.light.power {
                    obj_pixel_color
                } else {
                    RGB::background_spec()
                };
                r.0 == old_color || r.0 == base || r.0 == base.dark_side_spec()
            }),
    {
    }

    /// A plane object's contribution to the pixel.
    pub open spec fn check_mat_spec(
        self,
        old_color: RGB,
        nearest_position: Dot,
        ray: Mat,
        o: Objects,
        index: int,
        goods: Seq<Objects>,
    ) -> (RGB, Dot) {
        let (oc, op) = match o {
            Objects::Mat { color, .. } => {
                let xyz = object_hit_spec(ray, o);
                (
                    RGB::power_affected_spec(
                        color,
                        xyz,
                        self.light_position_spec(),
                        RGB {
                            r: self.light.color[0],
                            g: self.light.color[1],
                            b: self.light.color[2],
                        },
                        self.light.power as int,
                    ),
                    xyz,
                )
            },
            _ => (RGB::background_spec(), Dot::maximum_spec()),
        };
        self.shade_candidate_spec(old_color, nearest_position, ray, oc, op, index, goods)
    }

    fn check_mat(
        &self,
        old_color: RGB,
        nearest_position: Dot,
        ray: Mat,
        object: &Objects,
        index: usize,
        good_to_trace: &Vec<Objects>,
    ) -> (r: (RGB, Dot))
        requires
            self.wf(),
            ray.wf(),
            nearest_position.wf(),
        ensures
            r == self.check_mat_spec(
                old_color,
                nearest_position,
                ray,
                *object,
                index as int,
                good_to_trace@,
            ),
            r.1.wf(),
    {
        let light_position = Dot::from_array(self.light.position);
        let (obj_pixel_color, obj_pixel_position) = match object {
            Objects::Mat { color, .. } => {
                let xyz = object_hit(&ray, object);
                (
                    RGB::power_affected(
                        *color,
                        xyz,
                        light_position,
                        RGB::from_array(&self.light.color),
                        self.light.power,
                    ),
                    xyz,
                )
            },
            _ => (RGB::background(), Dot::maximum()),
        };
        self.shade_candidate(
            old_color,
            nearest_position,
            ray,
            obj_pixel_color,
            obj_pixel_position,
            index,
            good_to_trace,
        )
    }

    /// A sphere's contribution to the pixel.
    pub open spec fn check_ball_spec(
        self,
        old_color: RGB,
        nearest_position: Dot,
        ray: Mat,
        o: Objects,
        index: int,
        goods: Seq<Objects>,
    ) -> (RGB, Dot) {
        let (oc, op) = match o {
            Objects::Ball { color, .. } => {
                let xyz = object_hit_spec(ray, o);
                (
                    RGB::power_affected_spec(
                        color,
                        xyz,
                        self.light_position_spec(),
                        RGB {
                            r: self.light.color[0],
                            g: self.light.color[1],
                            b: self.light.color[2],
                        },
                        self.light.power as int,
                    ),
                    xyz,
                )
            },
            _ => (RGB::background_spec(), Dot::maximum_spec()),
        };
        self.shade_candidate_spec(old_color, nearest_position, ray, oc, op, index, goods)
    }

    /// A sphere's contribution to the pixel.
    pub fn check_ball(
        &self,
        old_color: RGB,
        nearest_position: Dot,
        ray: Mat,
        object: &Objects,
        index: usize,
        good_to_trace: &Vec<Objects>,
    ) -> (r: (RGB, Dot))
        requires
            self.wf(),
            ray.wf(),
            nearest_position.wf(),
        ensures
            r == self.check_ball_spec(
                old_color,
                nearest_position,
                ray,
                *object,
                index as int,
                good_to_trace@,
            ),
            r.1.wf(),
    {
        let light_position = Dot::from_array(self.light.position);
        let (obj_pixel_color, obj_pixel_position) = match object {
            Objects::Ball { color, .. } => {
                let xyz = object_hit(&ray, object);
                (
                    RGB::power_affected(
                        *color,
                        xyz,
                        light_position,
                        RGB::from_array(&self.light.color),
                        self.light.power,
                    ),
                    xyz,
                )
            },
            _ => (RGB::background(), Dot::maximum()),
        };
        self.shade_candidate(
            old_color,
            nearest_position,
            ray,
            obj_pixel_color,
            obj_pixel_position,
            index,
            good_to_trace,
        )
    }

    /// A cube's contribution to the pixel.
    pub open spec fn check_box_spec(
        self,
        old_color: RGB,
        nearest_position: Dot,
        ray: Mat,
        o: Objects,
        index: int,
        goods: Seq<Objects>,
    ) -> (RGB, Dot) {
        let (oc, op) = match o {
            Objects::Box { color, .. } => {
                let xyz = object_hit_spec(ray, o);
                (
                    RGB::power_affected_spec(
                        color,
                        xyz,
                        self.light_position_spec(),
                        RGB {
                            r: self.light.color[0],
                            g: self.light.color[1],
                            b: self.light.color[2],
                        },
                        self.light.power as int,
                    ),
                    xyz,
                )
            },
            _ => (RGB::background_spec(), Dot::maximum_spec()),
        };
        self.shade_candidate_spec(old_color, nearest_position, ray, oc, op, index, goods)
    }

    fn check_box(
        &self,
        old_color: RGB,
        nearest_position: Dot,
        ray: Mat,
        object: &Objects,
        index: usize,
        good_to_trace: &Vec<Objects>,
    ) -> (r: (RGB, Dot))
        requires
            self.wf(),
            ray.wf(),
            nearest_position.wf(),
        ensures
            r == self.check_box_spec(
                old_color,
                nearest_position,
                ray,
                *object,
                index as int,
                good_to_trace@,
            ),
            r.1.wf(),
    {
        let light_position = Dot::from_array(self.light.position);
        let (obj_pixel_color, obj_pixel_position) = match object {
            Objects::Box { color, .. } => {
                let xyz = object_hit(&ray, object);
                (
                    RGB::power_affected(
                        *color,
                        xyz,
                        light_position,
                        RGB::from_array(&self.light.color),
                        self.light.power,
                    ),
                    xyz,
                )
            },
            _ => (RGB::background(), Dot::maximum()),
        };
        self.shade_candidate(
            old_color,
            nearest_position,
            ray,
            obj_pixel_color,
            obj_pixel_position,
            index,
            good_to_trace,
        )
    }

    /// A cylinder's contribution to the pixel.
    pub open spec fn check_roll_spec(
        self,
        old_color: RGB,
        nearest_position: Dot,
        ray: Mat,
        o: Objects,
        index: int,
        goods: Seq<Objects>,
    ) -> (RGB, Dot) {
        let (oc, op) = match o {
            Objects::Roll { color, .. } => {
                let xyz = object_hit_spec(ray, o);
                (
                    RGB::power_affected_spec(
                        color,
                        xyz,
                        self.light_position_spec(),
                        RGB {
                            r: self.light.color[0],
                            g: self.light.color[1],
                            b: self.light.color[2],
                        },
                        self.light.power as int,
                    ),
                    xyz,
                )
            },
            _ => (RGB::background_spec(), Dot::maximum_spec()),
        };
        self.shade_candidate_spec(old_color, nearest_position, ray, oc, op, index, goods)
    }

    fn check_roll(
        &self,
        old_color: RGB,
        nearest_position: Dot,
        ray: Mat,
        object: &Objects,
        index: usize,
        good_to_trace: &Vec<Objects>,
    ) -> (r: (RGB, Dot))
        requires
            self.wf(),
            ray.wf(),
            nearest_position.wf(),
        ensures
            r == self.check_roll_spec(
                old_color,
                nearest_position,
                ray,
                *object,
                index as int,
                good_to_trace@,
            ),
            r.1.wf(),
    {
        let light_position = Dot::from_array(self.light.position);
        let (obj_pixel_color, obj_pixel_position) = match object {
            Objects::Roll { color, .. } => {
                let xyz = object_hit(&ray, object);
                (
                    RGB::power_affected(
                        *color,
                        xyz,
                        light_position,
                        RGB::from_array(&self.light.color),
                        self.light.power,
                    ),
                    xyz,
                )
            },
            _ => (RGB::background(), Dot::maximum()),
        };
        self.shade_candidate(
            old_color,
            nearest_position,
            ray,
            obj_pixel_color,
            obj_pixel_position,
            index,
            good_to_trace,
        )
    }

    /// One object folded into the running (colour, nearest-hit) pair.
    pub open spec fn pixel_step_spec(
        self,
        acc: (RGB, Dot),
        ray: Mat,
        o: Objects,
        index: int,
        goods: Seq<Objects>,
    ) -> (RGB, Dot) {
        match o {
            Objects::Mat { .. } => self.check_mat_spec(acc.0, acc.1, ray, o, index, goods),
            Objects::Ball { .. } => self.check_ball_spec(acc.0, acc.1, ray, o, index, goods),
            Objects::Box { .. } => self.check_box_spec(acc.0, acc.1, ray, o, index, goods),
            Objects::Roll { .. } => self.check_roll_spec(acc.0, acc.1, ray, o, index, goods),
        }
    }

    /// The first `n` objects folded into the (colour, nearest-hit) pair,
    /// starting from background and the sentinel.
    pub open spec fn pixel_fold_spec(self, ray: Mat, goods: Seq<Objects>, n: int) -> (RGB, Dot)
        decreases n,
    {
        if n <= 0 {
            (RGB::background_spec(), Dot::maximum_spec())
        } else {
            let acc = self.pixel_fold_spec(ray, goods, n - 1);
            self.pixel_step_spec(acc, ray, goods[n - 1], n - 1, goods)
        }
    }

    /// The colour of pixel `(row, col)` against the surviving objects.
    pub open spec fn pixel_color_spec(self, row: int, col: int, goods: Seq<Objects>) -> RGB {
        self.pixel_fold_spec(
            self.camera_ray_to_pixel_spec(row, col),
            goods,
            goods.len() as int,
        ).0
    }

    /// The colour of pixel `(row, col)` against the surviving objects.
    #[verifier::rlimit(100)]
    #[verifier::spinoff_prover]
    pub fn pixel_color(&self, row: usize, col: usize, good_to_trace: &Vec<Objects>) -> (c: RGB)
        requires
            self.wf(),
            row < self.camera.height,
            col < self.camera.width,
        ensures
            c == self.pixel_color_spec(row as int, col as int, good_to_trace@),
            good_to_trace@.len() == 0 ==> c == RGB::background_spec(),
    {
        let ray = self.camera_ray_to_pixel(row, col);
        let mut rgb = RGB::background();
        let mut nearest_position = Dot::maximum();
        let ghost goods = good_to_trace@;
        let mut i: usize = 0;
        while i < good_to_trace.len()
            invariant
                self.wf(),
                ray.wf(),
                ray == self.camera_ray_to_pixel_spec(row as int, col as int),
                goods == good_to_trace@,
                i <= goods.len(),
                nearest_position.wf(),
                (rgb, nearest_position) == self.pixel_fold_spec(ray, goods, i as int),
            decreases goods.len() - i,
        {
            let step = match &good_to_trace[i] {
                Objects::Mat { .. } => self.check_mat(
                    rgb,
                    nearest_position,
                    ray,
                    &good_to_trace[i],
                    i,
                    good_to_trace,
                ),
                Objects::Ball { .. } => self.check_ball(
                    rgb,
                    nearest_position,
                    ray,
                    &good_to_trace[i],
                    i,
                    good_to_trace,
                ),
                Objects::Box { .. } => self.check_box(
                    rgb,
                    nearest_position,
                    ray,
                    &good_to_trace[i],
                    i,
                    good_to_trace,
                ),
                Objects::Roll { .. } => self.check_roll(
                    rgb,
                    nearest_position,
                    ray,
                    &good_to_trace[i],
                    i,
                    good_to_trace,
                ),
            };
            rgb = step.0;
            nearest_position = step.1;
            i = i + 1;
        }
        rgb
    }
}

} // verus!
