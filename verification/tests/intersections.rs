//! Ray-object intersections.

use rt::dot::Dot;
use rt::gem::Gem;
use rt::mat::Mat;
use rt::num::SCALE;
use rt::spear::Spear;

fn ray(origin: Dot, direction: Spear) -> Mat {
    Mat::new(origin, direction)
}

#[test]
fn ray_parallel_to_plane_misses() {
    let r = ray(Dot::zero(), Spear::ox());
    let plane = Mat::new(Dot::new(0, 0, 5 * SCALE), Spear::oz());
    assert!(Gem::line_x_mat(&r, &plane).is_maximum());
    assert!(Gem::ray_x_mat(&r, &plane).is_maximum());
}

#[test]
fn ray_starting_on_plane_returns_its_origin() {
    let origin = Dot::new(3 * SCALE, -2 * SCALE, 5 * SCALE);
    let r = ray(origin, Spear::oz());
    let plane = Mat::new(Dot::new(0, 0, 5 * SCALE), Spear::oz());
    let hit = Gem::line_x_mat(&r, &plane);
    assert_eq!(hit.to_array(), origin.to_array());
    let hit2 = Gem::ray_x_mat(&r, &plane);
    assert_eq!(hit2.to_array(), origin.to_array());
}

#[test]
fn ray_hits_plane_ahead_only() {
    let plane = Mat::new(Dot::new(0, 0, 5 * SCALE), Spear::oz());
    let toward = ray(Dot::zero(), Spear::oz());
    assert_eq!(Gem::ray_x_mat(&toward, &plane).to_array(), [0, 0, 5 * SCALE]);
    // the full line still meets the plane behind the ray's origin
    let away = ray(Dot::zero(), Spear::oz().back());
    assert_eq!(Gem::line_x_mat(&away, &plane).to_array(), [0, 0, 5 * SCALE]);
    assert!(Gem::ray_x_mat(&away, &plane).is_maximum());
}

#[test]
fn ray_through_ball_center_hits_near_side() {
    let r = ray(Dot::new(0, 0, -11 * SCALE), Spear::oz());
    let center = Dot::zero();
    let hit = Gem::ray_x_ball(&r, &center, SCALE);
    assert_eq!(hit.to_array(), [0, 0, -SCALE]);
    // the near intersection lies one radius from the center, on the
    // ray-origin side
    assert_eq!(hit.d_dot(&center), SCALE);
    assert_eq!(hit.d_dot(&r.origin), 10 * SCALE);
}

#[test]
fn ray_from_ball_center_exits_forward() {
    // from the sphere's own center both exits are one radius away; the
    // forward one wins the tie
    let r = ray(Dot::zero(), Spear::oz());
    let hit = Gem::ray_x_ball(&r, &Dot::zero(), SCALE);
    assert_eq!(hit.to_array(), [0, 0, SCALE]);
    assert_eq!(hit.d_dot(&Dot::zero()), SCALE);
}

#[test]
fn ray_misses_ball() {
    let r = ray(Dot::new(0, 5 * SCALE, -11 * SCALE), Spear::oz());
    assert!(Gem::ray_x_ball(&r, &Dot::zero(), SCALE).is_maximum());
    // a degenerate zero direction is a miss, not an error
    let z = Mat::new(Dot::new(0, 0, -11 * SCALE), Spear::zero());
    assert!(Gem::ray_x_ball(&z, &Dot::zero(), SCALE).is_maximum());
}

#[test]
fn ray_hits_box_face() {
    // aimed at the box center from outside: the hit lies exactly on one
    // face, the other two coordinates within bounds
    let r = ray(Dot::new(-5 * SCALE, 0, 0), Spear::ox());
    let hit = Gem::ray_x_box(&r, &Dot::zero(), 2 * SCALE);
    assert_eq!(hit.x, -SCALE);
    assert!(-SCALE <= hit.y && hit.y <= SCALE);
    assert!(-SCALE <= hit.z && hit.z <= SCALE);
    assert_eq!(hit.to_array(), [-SCALE, 0, 0]);
}

#[test]
fn box_behind_ray_is_no_hit() {
    // the whole cube sits behind the ray's origin: no face may count
    let r = ray(Dot::zero(), Spear::ox());
    let hit = Gem::ray_x_box(&r, &Dot::new(-5 * SCALE, 0, 0), 2 * SCALE);
    assert!(hit.is_maximum());
}

#[test]
fn box_touching_ray_origin_counts() {
    // the ray starts on the cube's surface: that face point is a hit
    let r = ray(Dot::new(-SCALE, 0, 0), Spear::ox());
    let hit = Gem::ray_x_box(&r, &Dot::zero(), 2 * SCALE);
    assert_eq!(hit.to_array(), [-SCALE, 0, 0]);
}

#[test]
fn ray_misses_box() {
    let r = ray(Dot::new(-5 * SCALE, 3 * SCALE, 0), Spear::ox());
    assert!(Gem::ray_x_box(&r, &Dot::zero(), 2 * SCALE).is_maximum());
}

#[test]
fn ray_through_roll_caps() {
    // straight down through both disk caps: the nearer (top) one wins
    let r = ray(Dot::new(0, 5 * SCALE, 0), Spear::oy().back());
    let hit = Gem::ray_x_roll(&r, &Dot::zero(), SCALE, 2 * SCALE);
    assert_eq!(hit.to_array(), [0, SCALE, 0]);
}

#[test]
fn ray_hits_roll_side() {
    // sideways through the lateral surface
    let r = ray(Dot::new(-5 * SCALE, 0, 0), Spear::ox());
    let hit = Gem::ray_x_roll(&r, &Dot::zero(), SCALE, 2 * SCALE);
    assert_eq!(hit.to_array(), [-SCALE, 0, 0]);
}

#[test]
fn roll_behind_ray_is_no_hit() {
    // the whole cylinder sits behind the ray's origin: neither cap counts
    let r = ray(Dot::new(0, -5 * SCALE, 0), Spear::oy().back());
    let hit = Gem::ray_x_roll(&r, &Dot::zero(), SCALE, 2 * SCALE);
    assert!(hit.is_maximum());
}

#[test]
fn ray_misses_roll() {
    let r = ray(Dot::new(-5 * SCALE, 5 * SCALE, 0), Spear::ox());
    assert!(Gem::ray_x_roll(&r, &Dot::zero(), SCALE, 2 * SCALE).is_maximum());
}

#[test]
fn angle_conversions() {
    // half a turn in fixed-point radians
    let pi = 3_141_593;
    assert_eq!(Gem::degrees(pi), 180 * SCALE);
    let back = Gem::radians(180 * SCALE);
    assert!((pi - back).abs() <= 1);
}
