//! End-to-end renders of small scenes.

use rt::camera::Camera;
use rt::light::Light;
use rt::num::SCALE;
use rt::objects::Objects;
use rt::scene::Scene;

fn camera_from_front() -> Camera {
    Camera {
        width: 3,
        height: 3,
        zoom: 1,
        position: [0, 0, -10 * SCALE],
        look_at: [0, 0, 0],
        up: [0, SCALE, 0],
    }
}

fn camera_from_back() -> Camera {
    Camera {
        width: 3,
        height: 3,
        zoom: 1,
        position: [0, 0, 10 * SCALE],
        look_at: [0, 0, 0],
        up: [0, SCALE, 10 * SCALE],
    }
}

fn white_light() -> Light {
    Light { power: 20 * SCALE, color: [255, 255, 255], position: [0, 0, -5 * SCALE] }
}

fn pixel(buffer: &[u8], width: usize, row: usize, col: usize) -> [u8; 3] {
    let i = (row * width + col) * 3;
    [buffer[i], buffer[i + 1], buffer[i + 2]]
}

const BACKGROUND: [u8; 3] = [0, 255, 255];

#[test]
fn lit_sphere_fills_the_center_pixel() {
    let sphere = Objects::Ball { color: [255, 0, 0], position: [0, 0, 0], radius: SCALE };
    let scene = Scene::new(camera_from_front(), white_light(), vec![sphere]);
    let buffer = scene.trace();
    assert_eq!(buffer.len(), 27);
    // the ray through the center pixel hits the sphere at (0,0,-1),
    // four units from the light: the red is scaled by (20-4)/20
    assert_eq!(pixel(&buffer, 3, 1, 1), [204, 0, 0]);
    // the corner rays miss the sphere entirely
    assert_eq!(pixel(&buffer, 3, 0, 0), BACKGROUND);
    assert_eq!(pixel(&buffer, 3, 0, 2), BACKGROUND);
    assert_eq!(pixel(&buffer, 3, 2, 0), BACKGROUND);
    assert_eq!(pixel(&buffer, 3, 2, 2), BACKGROUND);
}

#[test]
fn sphere_beyond_light_reach_leaves_background_only() {
    let sphere = Objects::Ball { color: [255, 0, 0], position: [0, 0, 1000 * SCALE], radius: SCALE };
    let scene = Scene::new(camera_from_front(), white_light(), vec![sphere]);
    let buffer = scene.trace();
    assert_eq!(buffer.len(), 27);
    for row in 0..3 {
        for col in 0..3 {
            assert_eq!(pixel(&buffer, 3, row, col), BACKGROUND);
        }
    }
}

#[test]
fn occluded_sphere_is_darkened_exactly_once() {
    let sphere = Objects::Ball { color: [255, 0, 0], position: [0, 0, 0], radius: SCALE };
    let curtain = Objects::Mat {
        color: [0, 0, 255],
        position: [0, 0, -3 * SCALE],
        normal: [0, 0, SCALE],
    };
    let second_curtain = Objects::Mat {
        color: [0, 255, 0],
        position: [0, 0, -4 * SCALE],
        normal: [0, 0, SCALE],
    };

    // without any occluder between hit point and light
    let open = Scene::new(camera_from_back(), white_light(), vec![sphere]);
    let unshadowed = pixel(&open.trace(), 3, 1, 1);
    assert_eq!(unshadowed, [178, 0, 0]);

    // one plane between the sphere's hit point and the light: each
    // channel is exactly halved (integer division)
    let shaded = Scene::new(camera_from_back(), white_light(), vec![sphere, curtain]);
    let shadowed = pixel(&shaded.trace(), 3, 1, 1);
    assert_eq!(
        shadowed,
        [unshadowed[0] / 2, unshadowed[1] / 2, unshadowed[2] / 2],
    );
    assert_eq!(shadowed, [89, 0, 0]);

    // a second occluder must not darken the pixel again
    let double = Scene::new(
        camera_from_back(),
        white_light(),
        vec![sphere, curtain, second_curtain],
    );
    assert_eq!(pixel(&double.trace(), 3, 1, 1), [89, 0, 0]);
}

#[test]
fn pixel_color_matches_trace() {
    let sphere = Objects::Ball { color: [255, 0, 0], position: [0, 0, 0], radius: SCALE };
    let scene = Scene::new(camera_from_front(), white_light(), vec![sphere]);
    let good = scene.good_to_trace(&scene.objects);
    let buffer = scene.trace();
    for row in 0..3 {
        for col in 0..3 {
            let c = scene.pixel_color(row, col, &good);
            assert_eq!(pixel(&buffer, 3, row, col), [c.r, c.g, c.b]);
        }
    }
}

#[test]
fn dummy_trace_draws_a_red_border() {
    let scene = Scene::new(camera_from_front(), white_light(), vec![]);
    let buffer = scene.dummy_trace();
    assert_eq!(buffer.len(), 27);
    for row in 0..3 {
        for col in 0..3 {
            let expected = if row == 0 || row == 2 || col == 0 || col == 2 {
                [255, 0, 0]
            } else {
                [0, 255, 0]
            };
            assert_eq!(pixel(&buffer, 3, row, col), expected);
        }
    }
}
