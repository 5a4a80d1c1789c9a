use vstd::prelude::*;
use crate::geom::{pos_ok, Transform};
use crate::num::iabs;

verus! {

/// The arena, in fixed-point units: 1080 by 720 world units, centred on the
/// origin.
pub const ARENA_WIDTH: i64 = 1_080_000;

pub const ARENA_HEIGHT: i64 = 720_000;

pub const HALF_WIDTH: i64 = 540_000;

pub const HALF_HEIGHT: i64 = 360_000;

/// How far past the half-extent a free entity may drift before it wraps, and
/// how far inside the opposite edge it re-enters.
pub const WARP_MARGIN: i64 = 5_000;

/// One coordinate of the wrap rule: a coordinate farther out than
/// `half + WARP_MARGIN` reflects across the origin with a small inward
/// offset, so the entity re-enters slightly inset on the opposite edge.
pub open spec fn warp_coord_spec(v: int, half: int) -> int {
    if v > half + 5_000 {
        -(v - 5_000)
    } else if v < -half - 5_000 {
        -(v + 5_000)
    } else {
        v
    }
}

pub fn warp_coord(v: i64, half: i64) -> (r: i64)
    requires
        0 < half <= 1_000_000,
        -1_100_000_000 <= v <= 1_100_000_000,
    ensures
        r == warp_coord_spec(v as int, half as int),
        iabs(r as int) <= iabs(v as int),
{
    if v > half + WARP_MARGIN {
        -(v - WARP_MARGIN)
    } else if v < -half - WARP_MARGIN {
        -(v + WARP_MARGIN)
    } else {
        v
    }
}

/// A coordinate that triggers the wrap lands strictly closer to the origin
/// and on the opposite side.
pub proof fn lemma_warp_moves_inward(v: int, half: int)
    requires
        0 < half,
        iabs(v) > half + 5_000,
    ensures
        iabs(warp_coord_spec(v, half)) < iabs(v),
        v > 0 ==> warp_coord_spec(v, half) < 0,
        v < 0 ==> warp_coord_spec(v, half) > 0,
{
}

/// Apply the wrap rule to both coordinates of a free entity's transform.
pub open spec fn warp_transform_spec(t: Transform) -> Transform {
    Transform {
        x: warp_coord_spec(t.x as int, 540_000) as i64,
        y: warp_coord_spec(t.y as int, 360_000) as i64,
        rot: t.rot,
    }
}

pub fn warp_transform(t: &Transform) -> (r: Transform)
    requires
        pos_ok(*t),
    ensures
        r == warp_transform_spec(*t),
        pos_ok(r),
{
    Transform { x: warp_coord(t.x, HALF_WIDTH), y: warp_coord(t.y, HALF_HEIGHT), rot: t.rot }
}

/// A boundary-exempt entity (a bullet) is spent once it is fully outside the
/// arena proper, with no margin.
pub open spec fn outside_arena_spec(t: Transform) -> bool {
    iabs(t.x as int) > 540_000 || iabs(t.y as int) > 360_000
}

pub fn outside_arena(t: &Transform) -> (r: bool)
    requires
        pos_ok(*t),
    ensures
        r == outside_arena_spec(*t),
{
    let ax = if t.x < 0 { -t.x } else { t.x };
    let ay = if t.y < 0 { -t.y } else { t.y };
    ax > HALF_WIDTH || ay > HALF_HEIGHT
}

} // verus!
