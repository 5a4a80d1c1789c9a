use vstd::prelude::*;
use crate::angle::{cos_fp, cos_spec, sin_fp, sin_spec};
use crate::num::{fx, fxdiv, iabs, lemma_fx_bound, lemma_mul_abs_bound};

verus! {

/// Coordinates are kept within this many fixed-point steps of the origin;
/// the motion step saturates here, far outside any reachable play area, so
/// that every later computation stays inside the machine range.
pub const POS_LIMIT: i64 = 1_000_000_000;

/// Largest vector component the rotation routine accepts.
pub const ROT_LIMIT: i64 = 2_200_000_000;

/// Position and orientation of an entity: fixed-point world coordinates and
/// a rotation in thousandths of a degree.
#[derive(Clone, Copy, PartialEq, Eq, Structural, Debug)]
pub struct Transform {
    pub x: i64,
    pub y: i64,
    pub rot: i64,
}

pub open spec fn pos_ok(t: Transform) -> bool {
    &&& -1_000_000_000 <= t.x <= 1_000_000_000
    &&& -1_000_000_000 <= t.y <= 1_000_000_000
}

/// A well-formed entity transform: coordinates within the safety limit and
/// a normalized rotation.
pub open spec fn transform_ok(t: Transform) -> bool {
    &&& pos_ok(t)
    &&& 0 <= t.rot < 360_000
}

/// First component of the vector `(x, y)` rotated by the normalized angle `ang`.
pub open spec fn rot_x_spec(ang: int, x: int, y: int) -> int {
    fx(x * cos_spec(ang) - y * sin_spec(ang), 1000)
}

/// Second component of the vector `(x, y)` rotated by the normalized angle `ang`.
pub open spec fn rot_y_spec(ang: int, x: int, y: int) -> int {
    fx(x * sin_spec(ang) + y * cos_spec(ang), 1000)
}

/// Rotate the vector `(x, y)` by a normalized angle. Each component of the
/// result is bounded by `|x| + |y|`.
pub fn rotate(ang: i64, x: i64, y: i64) -> (r: (i64, i64))
    requires
        0 <= ang < 360_000,
        -2_200_000_000 <= x <= 2_200_000_000,
        -2_200_000_000 <= y <= 2_200_000_000,
    ensures
        r.0 == rot_x_spec(ang as int, x as int, y as int),
        r.1 == rot_y_spec(ang as int, x as int, y as int),
        -(iabs(x as int) + iabs(y as int)) <= r.0 <= iabs(x as int) + iabs(y as int),
        -(iabs(x as int) + iabs(y as int)) <= r.1 <= iabs(x as int) + iabs(y as int),
{
    let c = cos_fp(ang);
    let s = sin_fp(ang);
    proof {
        let ax = iabs(x as int);
        let ay = iabs(y as int);
        lemma_mul_abs_bound(x as int, c as int, ax, 1000);
        lemma_mul_abs_bound(y as int, s as int, ay, 1000);
        lemma_mul_abs_bound(x as int, s as int, ax, 1000);
        lemma_mul_abs_bound(y as int, c as int, ay, 1000);
        lemma_fx_bound(x as int * c - y as int * s, 1000, ax + ay);
        lemma_fx_bound(x as int * s + y as int * c, 1000, ax + ay);
    }
    let rx = fxdiv(x * c - y * s, 1000);
    let ry = fxdiv(x * s + y * c, 1000);
    (rx, ry)
}

/// Saturate a coordinate at the safety limit.
pub fn clamp_pos(v: i64) -> (r: i64)
    ensures
        r == clamp_pos_spec(v as int),
{
    if v > 1_000_000_000 {
        1_000_000_000
    } else if v < -1_000_000_000 {
        -1_000_000_000
    } else {
        v
    }
}

pub open spec fn clamp_pos_spec(v: int) -> int {
    if v > 1_000_000_000 {
        1_000_000_000int
    } else if v < -1_000_000_000 {
        -1_000_000_000int
    } else {
        v
    }
}

} // verus!
