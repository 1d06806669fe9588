//! Colour arithmetic.

use rt::dot::Dot;
use rt::num::SCALE;
use rt::pixel::RGB;

#[test]
fn rgb_construction() {
    let c = RGB::new(1, 2, 3);
    assert_eq!((c.r, c.g, c.b), (1, 2, 3));
    let d = RGB::from_array(&[9, 8, 7]);
    assert_eq!((d.r, d.g, d.b), (9, 8, 7));
    let e = d.same();
    assert_eq!(e, d);
    assert_eq!(RGB::background(), RGB::new(0, 255, 255));
}

#[test]
fn dark_side_halves_every_channel() {
    let c = RGB::new(255, 100, 1);
    assert_eq!(c.dark_side(), RGB::new(127, 50, 0));
    assert_eq!(RGB::new(0, 0, 0).dark_side(), RGB::new(0, 0, 0));
}

#[test]
fn power_affected_scales_by_falloff() {
    let hit = Dot::new(0, 0, 5 * SCALE);
    let light = Dot::zero();
    // halfway out of a reach of ten units: every channel halves
    let c = RGB::power_affected([200, 100, 50], hit, light, RGB::new(255, 255, 255), 10 * SCALE);
    assert_eq!(c, RGB::new(100, 50, 25));
    // the light's own colour scales the channels too
    let d = RGB::power_affected([200, 100, 50], hit, light, RGB::new(128, 0, 255), 10 * SCALE);
    assert_eq!(d, RGB::new(50, 0, 25));
}

#[test]
fn power_affected_out_of_reach_is_background() {
    let hit = Dot::new(0, 0, 5 * SCALE);
    let light = Dot::zero();
    // at or past the reach: background
    assert_eq!(
        RGB::power_affected([200, 100, 50], hit, light, RGB::new(255, 255, 255), 5 * SCALE),
        RGB::background(),
    );
    assert_eq!(
        RGB::power_affected([200, 100, 50], hit, light, RGB::new(255, 255, 255), SCALE),
        RGB::background(),
    );
}
