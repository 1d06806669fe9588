//! Vector, position and plane algebra.

use rt::dot::Dot;
use rt::mat::Mat;
use rt::num::{MAX_XYZ, SCALE};
use rt::spear::Spear;

#[test]
fn direction_norm_is_zero_or_one() {
    // length one up to the fixed-point tolerance, for every nonzero
    // input, inputs below one world unit included
    let cases = [
        (3 * SCALE, 4 * SCALE, 0),
        (SCALE, SCALE, SCALE),
        (SCALE, SCALE, 0),
        (-7 * SCALE, 2 * SCALE, 9 * SCALE),
        (10 * MAX_XYZ, 0, 0),
        (1, 1, 1),
        (1, 1, 0),
        (7, 3, 1),
        (1, 0, 0),
    ];
    for (x, y, z) in cases {
        let n = Spear::new(x, y, z).norm();
        assert!(SCALE - 4 <= n && n <= SCALE + 1, "norm {n}");
    }
    assert_eq!(Spear::new(0, 0, 0).norm(), 0);
    // a millionth along each axis rescales to the all-ones direction
    let tiny = Spear::new(1, 1, 1);
    assert_eq!((tiny.x, tiny.y, tiny.z), (577_350, 577_350, 577_350));
}

#[test]
fn direction_construction_normalizes() {
    let v = Spear::new(3 * SCALE, 4 * SCALE, 0);
    assert_eq!((v.x, v.y, v.z), (600_000, 800_000, 0));
    let w = Spear::new(0, 0, -5 * SCALE);
    assert_eq!((w.x, w.y, w.z), (0, 0, -SCALE));
}

#[test]
fn unit_is_idempotent() {
    let cases = [
        (0, 0, 5 * SCALE),
        (3 * SCALE, 4 * SCALE, 0),
        (-SCALE, 0, 0),
        (3 * SCALE, 5 * SCALE, 7 * SCALE),
    ];
    for (x, y, z) in cases {
        let v = Spear::new(x, y, z);
        let u = v.unit();
        let uu = u.unit();
        assert!(u.is_eq(&v));
        assert!(uu.is_eq(&u));
    }
    // and the zero vector stays zero
    let z = Spear::zero();
    assert!(z.unit().is_eq(&z));
}

#[test]
fn unit_can_drift_a_millionth_off_exact_squares() {
    // a constructed direction whose squared length is not exactly one
    // square unit: re-unitizing may move a component by a millionth,
    // which is why the idempotence law asks for the exact square
    let v = Spear::new(1, 1, 0);
    assert_eq!((v.x, v.y, v.z), (707_107, 707_107, 0));
    assert_eq!(v.norm(), SCALE);
    let u = v.unit();
    assert_eq!((u.x, u.y, u.z), (707_106, 707_106, 0));
    assert!(!u.is_eq(&v));
}

#[test]
fn direction_relations_are_exclusive() {
    let a = Spear::new(SCALE, 0, 0);
    let b = Spear::new(2 * SCALE, 0, 0);
    let c = Spear::new(-7 * SCALE, 0, 0);
    let d = Spear::new(0, SCALE, 0);
    assert!(a.is_same(&b) && !a.is_back(&b) && a.is_ll(&b));
    assert!(!a.is_same(&c) && a.is_back(&c) && a.is_ll(&c));
    assert!(!a.is_same(&d) && !a.is_back(&d) && !a.is_ll(&d));
}

#[test]
fn zero_vector_is_parallel_only_to_itself() {
    // documented convention: against a nonzero vector all three
    // relations are false; against itself all three hold
    let z = Spear::zero();
    let a = Spear::new(SCALE, 2 * SCALE, 0);
    assert!(!z.is_same(&a) && !z.is_back(&a) && !z.is_ll(&a));
    assert!(!a.is_same(&z) && !a.is_back(&z) && !a.is_ll(&z));
    assert!(z.is_same(&z) && z.is_back(&z) && z.is_ll(&z));
}

#[test]
fn position_array_round_trip() {
    let p = Dot::new(123_456, -999, MAX_XYZ);
    let q = Dot::from_array(p.to_array());
    assert_eq!((q.x, q.y, q.z), (p.x, p.y, p.z));
    let r = Dot::from_vec(p.to_vec());
    assert_eq!((r.x, r.y, r.z), (p.x, p.y, p.z));
}

#[test]
fn position_construction_clamps() {
    let p = Dot::new(i64::MAX, i64::MIN, 7);
    assert_eq!((p.x, p.y, p.z), (MAX_XYZ, -MAX_XYZ, 7));
}

#[test]
fn position_arithmetic() {
    let a = Dot::new(SCALE, 2 * SCALE, -3 * SCALE);
    let b = Dot::new(4 * SCALE, -SCALE, SCALE);
    let s = a.add(&b);
    assert_eq!((s.x, s.y, s.z), (5 * SCALE, SCALE, -2 * SCALE));
    let d = a.sub(&b);
    assert_eq!((d.x, d.y, d.z), (-3 * SCALE, 3 * SCALE, -4 * SCALE));
    let m = a.mul(&b);
    assert_eq!((m.x, m.y, m.z), (4 * SCALE, -2 * SCALE, -3 * SCALE));
}

#[test]
fn position_division_caps_on_zero() {
    let a = Dot::new(SCALE, 0, -2 * SCALE);
    let zero = Dot::zero();
    let q = a.div(&zero);
    // any numerator over a zero component caps at the clamp ceiling
    assert_eq!((q.x, q.y, q.z), (MAX_XYZ, MAX_XYZ, -MAX_XYZ));
    let b = Dot::new(2 * SCALE, SCALE, SCALE);
    let q2 = a.div(&b);
    assert_eq!((q2.x, q2.y, q2.z), (SCALE / 2, 0, -2 * SCALE));
}

#[test]
fn position_mirrors() {
    let p = Dot::new(1, 2, 3);
    assert_eq!(p.mirror_x().to_array(), [-1, 2, 3]);
    assert_eq!(p.mirror_y().to_array(), [1, -2, 3]);
    assert_eq!(p.mirror_z().to_array(), [1, 2, -3]);
    assert_eq!(p.mirror_xy().to_array(), [-1, -2, 3]);
    assert_eq!(p.mirror_xz().to_array(), [-1, 2, -3]);
    assert_eq!(p.mirror_yz().to_array(), [1, -2, -3]);
    assert_eq!(p.mirror().to_array(), [-1, -2, -3]);
}

#[test]
fn distances_are_euclidean() {
    let a = Dot::zero();
    let b = Dot::new(3 * SCALE, 4 * SCALE, 0);
    assert_eq!(a.d_dot(&b), 5 * SCALE);
    assert_eq!(b.d_dot(&a), 5 * SCALE);
}

#[test]
fn offset_moves_along_direction() {
    let p = Dot::new(SCALE, 0, 0);
    let v = Spear::new(0, 7 * SCALE, 0);
    let q = p.offset(&v, 3 * SCALE);
    assert_eq!((q.x, q.y, q.z), (SCALE, 3 * SCALE, 0));
    // zero length or zero vector: unchanged
    assert_eq!(p.offset(&v, 0).to_array(), p.to_array());
    assert_eq!(p.offset(&Spear::zero(), SCALE).to_array(), p.to_array());
}

#[test]
fn scalar_cross_and_cosine() {
    let ox = Spear::ox();
    let oy = Spear::oy();
    let oz = Spear::oz();
    assert_eq!(ox.scalar(&ox), SCALE);
    assert_eq!(ox.scalar(&oy), 0);
    let n = ox.normal(&oy);
    assert!(n.is_eq(&oz));
    assert_eq!(ox.cos(&oy), 0);
    assert_eq!(ox.cos(&ox), SCALE);
    assert_eq!(ox.cos(&ox.back()), -SCALE);
    // a zero vector has cosine one by definition
    assert_eq!(Spear::zero().cos(&ox), SCALE);
}

#[test]
fn axis_cosines() {
    let v = Spear::new(3 * SCALE, 4 * SCALE, 0);
    assert_eq!(v.alf(), 600_000);
    assert_eq!(v.bet(), 800_000);
    assert_eq!(v.gam(), 0);
    assert_eq!(Spear::zero().alf(), SCALE);
}

#[test]
fn maximum_and_trione() {
    let m = Spear::maximum();
    assert!(m.is_maximum());
    assert!(!Spear::ox().is_maximum());
    assert!(Dot::maximum().is_maximum());
    // trione is rescaled on construction, so its raw components are no
    // longer all one
    let t = Spear::trione();
    assert_eq!((t.x, t.y, t.z), (577_350, 577_350, 577_350));
    assert!(!t.is_trione());
}

#[test]
fn plane_from_origin_and_normal() {
    let m = Mat::new(Dot::new(0, 0, 5 * SCALE), Spear::oz());
    assert_eq!((m.a, m.b, m.c), (0, 0, SCALE));
    assert_eq!(m.d, -5 * SCALE);
    assert!(!m.is_zero());
    // a zero normal is invalid input: the zero-plane sentinel comes back
    let z = Mat::new(Dot::new(1, 2, 3), Spear::zero());
    assert!(z.is_zero());
    assert_eq!((z.a, z.b, z.c, z.d), (0, 0, 0, 0));
}

#[test]
fn plane_relations() {
    let m1 = Mat::new(Dot::zero(), Spear::oz());
    let m2 = Mat::new(Dot::new(0, 0, 7 * SCALE), Spear::oz());
    let m3 = Mat::new(Dot::zero(), Spear::oz().back());
    let m4 = Mat::new(Dot::zero(), Spear::ox());
    assert!(m1.is_same(&m2) && m1.is_ll(&m2) && !m1.is_back(&m2));
    assert!(m1.is_back(&m3) && m1.is_ll(&m3) && !m1.is_same(&m3));
    assert!(!m1.is_ll(&m4));
    assert_eq!(m1.d_mat(&m2), 7 * SCALE);
    assert_eq!(m1.d_mat(&m4), 0);
    assert!(m1.is_eq(&m1) && !m1.is_eq(&m2));
    let s = m2.same();
    assert_eq!((s.a, s.b, s.c, s.d), (m2.a, m2.b, m2.c, m2.d));
}

#[test]
fn d_mat_is_zero_only_on_the_plane() {
    // a diagonal normal whose stored norm is above one unit: a point one
    // fixed-point unit off the plane must not round down to distance zero
    let m = Mat::new(Dot::zero(), Spear { x: SCALE, y: SCALE, z: 0 });
    let off = Dot::new(1, 0, 0);
    assert!(off.d_mat(&m) > 0);
    let on = Dot::new(1, -1, 0);
    assert_eq!(on.d_mat(&m), 0);
    assert_eq!(Dot::zero().d_mat(&m), 0);
}

#[test]
fn point_against_plane() {
    let m = Mat::new(Dot::new(0, 0, 5 * SCALE), Spear::oz());
    let p = Dot::zero();
    assert_eq!(p.d_mat(&m), 5 * SCALE);
    assert!(p.is_below(&m));
    assert!(!p.is_above(&m));
    let q = Dot::new(0, 0, 9 * SCALE);
    assert!(q.is_above(&m));
    assert_eq!(q.d_mat(&m), 4 * SCALE);
    // a point on the plane is neither above nor below
    let on = Dot::new(3 * SCALE, -SCALE, 5 * SCALE);
    assert!(!on.is_above(&m) && !on.is_below(&m));
    // the zero-plane sentinel is unboundedly far from everything
    let z = Mat::zero();
    assert_eq!(p.d_mat(&z), MAX_XYZ);
    // projection drops the point straight onto the plane
    let proj = q.p_mat(&m);
    assert_eq!(proj.to_array(), [0, 0, 5 * SCALE]);
}
