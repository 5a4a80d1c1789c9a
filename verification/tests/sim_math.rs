use ppoid::angle::{atan2_fp, cos_fp, norm_angle, sin_fp};
use ppoid::bounds::{outside_arena, warp_coord, warp_transform};
use ppoid::collision::check_collision;
use ppoid::geom::Transform;
use ppoid::motion::{integrate, Movement};
use ppoid::num::{fxdiv, isqrt};
use ppoid::rng::{random_u64_nonzero, random_unit, unit_ratio};

#[test]
fn isqrt_exact_values() {
    assert_eq!(isqrt(0), 0);
    assert_eq!(isqrt(1), 1);
    assert_eq!(isqrt(15), 3);
    assert_eq!(isqrt(16), 4);
    assert_eq!(isqrt(1_000_000), 1000);
    assert_eq!(isqrt(u64::MAX), 4_294_967_295);
}

#[test]
fn fxdiv_truncates_toward_zero() {
    assert_eq!(fxdiv(1500, 1000), 1);
    assert_eq!(fxdiv(-1500, 1000), -1);
    assert_eq!(fxdiv(999, 1000), 0);
    assert_eq!(fxdiv(-999, 1000), 0);
}

#[test]
fn cardinal_angles_are_exact() {
    assert_eq!(sin_fp(0), 0);
    assert_eq!(sin_fp(90_000), 1000);
    assert_eq!(sin_fp(180_000), 0);
    assert_eq!(sin_fp(270_000), -1000);
    assert_eq!(cos_fp(0), 1000);
    assert_eq!(cos_fp(90_000), 0);
    assert_eq!(cos_fp(180_000), -1000);
    assert_eq!(cos_fp(270_000), 0);
    // The rational sine is exact at thirty degrees as well.
    assert_eq!(sin_fp(30_000), 500);
    assert_eq!(sin_fp(150_000), 500);
}

#[test]
fn norm_angle_wraps_into_one_turn() {
    assert_eq!(norm_angle(0), 0);
    assert_eq!(norm_angle(-1), 359_999);
    assert_eq!(norm_angle(360_000), 0);
    assert_eq!(norm_angle(720_000), 0);
    assert_eq!(norm_angle(500_000), 140_000);
}

#[test]
fn atan2_octants() {
    assert_eq!(atan2_fp(0, 0), 0);
    assert_eq!(atan2_fp(0, 1000), 0);
    assert_eq!(atan2_fp(1000, 1000), 45_000);
    assert_eq!(atan2_fp(1000, 0), 90_000);
    assert_eq!(atan2_fp(0, -1000), 180_000);
    assert_eq!(atan2_fp(-1000, 0), 270_000);
}

#[test]
fn motion_at_zero_speed_keeps_position() {
    // Whatever the heading and look direction, a still entity stays put.
    for heading in [0i64, 45_000, 123_456, 359_999] {
        for look in [0i64, 77_000, 250_000] {
            let t = Transform { x: 123, y: -456, rot: 0 };
            let m = Movement { speed: 0, heading, look_direction: look };
            let moved = integrate(&t, &m, 16);
            assert_eq!(moved.x, 123);
            assert_eq!(moved.y, -456);
            assert_eq!(moved.rot, look);
        }
    }
}

#[test]
fn motion_advances_along_heading() {
    let t = Transform { x: 0, y: 0, rot: 0 };
    // Heading straight up for one full second at 300 units per second.
    let m = Movement { speed: 300_000, heading: 0, look_direction: 0 };
    let moved = integrate(&t, &m, 1000);
    assert_eq!(moved.x, 0);
    assert_eq!(moved.y, 300_000);
    // A quarter turn of heading moves along the other axis.
    let m = Movement { speed: 300_000, heading: 90_000, look_direction: 90_000 };
    let moved = integrate(&t, &m, 1000);
    assert_eq!(moved.x, -300_000);
    assert_eq!(moved.y, 0);
}

#[test]
fn warp_flips_side_and_moves_inward() {
    let x = 546_000i64;
    let w = warp_coord(x, 540_000);
    assert!(w < 0);
    assert!(w.abs() < x.abs());
    let x = -700_000i64;
    let w = warp_coord(x, 540_000);
    assert!(w > 0);
    assert!(w.abs() < x.abs());
    // Inside the margin nothing moves.
    assert_eq!(warp_coord(540_000, 540_000), 540_000);
    assert_eq!(warp_coord(-545_000, 540_000), -545_000);
}

#[test]
fn warp_transform_wraps_both_axes() {
    let t = Transform { x: 546_000, y: -366_000, rot: 90_000 };
    let w = warp_transform(&t);
    assert_eq!(w.x, -541_000);
    assert_eq!(w.y, 361_000);
    assert_eq!(w.rot, 90_000);
}

#[test]
fn outside_arena_bounds() {
    assert!(!outside_arena(&Transform { x: 540_000, y: 360_000, rot: 0 }));
    assert!(outside_arena(&Transform { x: 540_001, y: 0, rot: 0 }));
    assert!(outside_arena(&Transform { x: 0, y: -360_001, rot: 0 }));
}

#[test]
fn collision_at_same_centre() {
    let t1 = Transform { x: 0, y: 0, rot: 0 };
    let t2 = Transform { x: 0, y: 0, rot: 0 };
    assert!(check_collision(&t1, 5_000, 17_000, 0, &t2, 35_000, 50_000, 0));
}

#[test]
fn collision_is_symmetric() {
    let cases = [
        (Transform { x: 1_000, y: 2_000, rot: 0 }, Transform { x: 3_000, y: -1_000, rot: 0 }, 45_000i64, 90_000i64),
        (Transform { x: 0, y: 0, rot: 0 }, Transform { x: 30_000, y: 10_000, rot: 0 }, 10_000, 350_000),
        (Transform { x: -200_000, y: 5_000, rot: 0 }, Transform { x: 200_000, y: 0, rot: 0 }, 0, 180_000),
    ];
    for (t1, t2, r1, r2) in cases {
        let a = check_collision(&t1, 5_000, 17_000, r1, &t2, 35_000, 50_000, r2);
        let b = check_collision(&t2, 35_000, 50_000, r2, &t1, 5_000, 17_000, r1);
        assert_eq!(a, b);
    }
}

#[test]
fn separated_boxes_never_collide() {
    let t1 = Transform { x: 0, y: 0, rot: 0 };
    let t2 = Transform { x: 100_000, y: 0, rot: 0 };
    assert!(!check_collision(&t1, 35_000, 50_000, 0, &t2, 35_000, 50_000, 0));
    let t3 = Transform { x: 0, y: 80_000, rot: 0 };
    assert!(!check_collision(&t1, 35_000, 50_000, 0, &t3, 35_000, 50_000, 0));
}

#[test]
fn entropy_draws_are_nonzero_and_unit_sized() {
    let v = random_u64_nonzero().expect("entropy source");
    assert!(v != 0);
    let u = random_unit().expect("entropy source");
    assert!(u <= 1000);
}

#[test]
fn unit_ratio_is_the_literal_formula() {
    // The smaller draw over the larger, in thousandths; equal draws give
    // the full unit. The quirk of the construction is kept as designed.
    assert_eq!(unit_ratio(1, 2), 500);
    assert_eq!(unit_ratio(2, 1), 500);
    assert_eq!(unit_ratio(7, 7), 1000);
    assert_eq!(unit_ratio(1, 3), 333);
    assert_eq!(unit_ratio(u64::MAX, 1), 0);
}
