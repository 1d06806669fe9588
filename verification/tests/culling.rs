//! Visibility culling.

use rt::camera::Camera;
use rt::light::Light;
use rt::num::SCALE;
use rt::objects::Objects;
use rt::scene::Scene;

fn test_scene(objects: Vec<Objects>) -> Scene {
    let camera = Camera {
        width: 3,
        height: 3,
        zoom: 1,
        position: [0, 0, -10 * SCALE],
        look_at: [0, 0, 0],
        up: [0, SCALE, -10 * SCALE],
    };
    let light = Light { power: 20 * SCALE, color: [255, 255, 255], position: [0, 0, -5 * SCALE] };
    Scene::new(camera, light, objects)
}

#[test]
fn ball_in_reach_survives() {
    let ball = Objects::Ball { color: [255, 0, 0], position: [0, 0, 0], radius: SCALE };
    let scene = test_scene(vec![ball]);
    assert!(scene.object_good(&ball));
    let good = scene.good_to_trace(&scene.objects);
    assert_eq!(good.len(), 1);
}

#[test]
fn ball_beyond_light_reach_is_culled() {
    let far = Objects::Ball { color: [255, 0, 0], position: [0, 0, 1000 * SCALE], radius: SCALE };
    let scene = test_scene(vec![far]);
    assert!(!scene.object_good(&far));
    let good = scene.good_to_trace(&scene.objects);
    assert!(good.is_empty());
}

#[test]
fn nonpositive_sizes_are_culled() {
    let flat = Objects::Ball { color: [1, 2, 3], position: [0, 0, 0], radius: 0 };
    let inverted = Objects::Box { color: [1, 2, 3], position: [0, 0, 0], size: -SCALE };
    let squashed = Objects::Roll { color: [1, 2, 3], position: [0, 0, 0], radius: SCALE, height: 0 };
    let scene = test_scene(vec![flat, inverted, squashed]);
    let good = scene.good_to_trace(&scene.objects);
    assert!(good.is_empty());
}

#[test]
fn plane_behind_camera_is_culled() {
    // parallel to the front plane and behind the camera: culled; the
    // same plane in front of the camera survives
    let behind = Objects::Mat {
        color: [1, 2, 3],
        position: [0, 0, -20 * SCALE],
        normal: [0, 0, SCALE],
    };
    let ahead = Objects::Mat { color: [1, 2, 3], position: [0, 0, -6 * SCALE], normal: [0, 0, SCALE] };
    let scene = test_scene(vec![behind, ahead]);
    assert!(!scene.object_good(&behind));
    assert!(scene.object_good(&ahead));
    let good = scene.good_to_trace(&scene.objects);
    assert_eq!(good.len(), 1);
    assert!(matches!(good[0], Objects::Mat { position: [0, 0, p], .. } if p == -6 * SCALE));
}

#[test]
fn zero_normal_plane_is_culled() {
    let degenerate = Objects::Mat { color: [1, 2, 3], position: [0, 0, 0], normal: [0, 0, 0] };
    let scene = test_scene(vec![degenerate]);
    assert!(!scene.object_good(&degenerate));
}

#[test]
fn culling_keeps_input_order() {
    let a = Objects::Ball { color: [1, 0, 0], position: [0, 0, 0], radius: SCALE };
    let dropped = Objects::Ball { color: [9, 9, 9], position: [0, 0, 1000 * SCALE], radius: SCALE };
    let b = Objects::Box { color: [2, 0, 0], position: [0, 0, 2 * SCALE], size: SCALE };
    let scene = test_scene(vec![a, dropped, b]);
    let good = scene.good_to_trace(&scene.objects);
    assert_eq!(good.len(), 2);
    assert!(matches!(good[0], Objects::Ball { color: [1, 0, 0], .. }));
    assert!(matches!(good[1], Objects::Box { color: [2, 0, 0], .. }));
}
