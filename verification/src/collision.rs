use vstd::prelude::*;
use crate::angle::{lemma_cardinal_values, norm_angle, norm_spec};
use crate::geom::{pos_ok, rot_x_spec, rot_y_spec, rotate, Transform};
use crate::num::{iabs, lemma_fx_exact};
use vstd::arithmetic::div_mod::lemma_fundamental_div_mod;

verus! {

/// Largest rectangle extent the collision test accepts.
pub const SIZE_LIMIT: i64 = 200_000;

pub open spec fn size_ok(w: int, h: int) -> bool {
    0 <= w <= 200_000 && 0 <= h <= 200_000
}

/// One corner test: the corner at offset `(px, py)` from the first
/// rectangle's centre, rotated by `ang`, lands inside the axis box of
/// half-extents `(hw, hh)`.
pub open spec fn corner_inside_spec(px: int, py: int, ang: int, hw: int, hh: int) -> bool {
    let rx = rot_x_spec(ang, px, py);
    let ry = rot_y_spec(ang, px, py);
    -hw <= rx <= hw && -hh <= ry <= hh
}

/// The four corners of the second rectangle, taken relative to the first
/// rectangle's centre and rotated by the difference of the two angles; the
/// test holds if any corner lands inside the first rectangle's box.
pub open spec fn corners_hit_spec(
    t1: Transform,
    w1: int,
    h1: int,
    r1: int,
    t2: Transform,
    w2: int,
    h2: int,
    r2: int,
) -> bool {
    let dx = t2.x - t1.x;
    let dy = t2.y - t1.y;
    let ang = norm_spec(r2 - r1);
    ||| corner_inside_spec(dx + w2 / 2, dy + h2 / 2, ang, w1 / 2, h1 / 2)
    ||| corner_inside_spec(dx - w2 / 2, dy + h2 / 2, ang, w1 / 2, h1 / 2)
    ||| corner_inside_spec(dx + w2 / 2, dy - h2 / 2, ang, w1 / 2, h1 / 2)
    ||| corner_inside_spec(dx - w2 / 2, dy - h2 / 2, ang, w1 / 2, h1 / 2)
}

/// The oriented-rectangle overlap test: corner containment checked in both
/// directions. It is conservative: an overlap in which no corner of either
/// rectangle lies inside the other is not reported.
pub open spec fn collides_spec(
    t1: Transform,
    w1: int,
    h1: int,
    r1: int,
    t2: Transform,
    w2: int,
    h2: int,
    r2: int,
) -> bool {
    ||| corners_hit_spec(t1, w1, h1, r1, t2, w2, h2, r2)
    ||| corners_hit_spec(t2, w2, h2, r2, t1, w1, h1, r1)
}

fn corner_inside(px: i64, py: i64, ang: i64, hw: i64, hh: i64) -> (r: bool)
    requires
        0 <= ang < 360_000,
        -2_200_000_000 <= px <= 2_200_000_000,
        -2_200_000_000 <= py <= 2_200_000_000,
        0 <= hw,
        0 <= hh,
    ensures
        r == corner_inside_spec(px as int, py as int, ang as int, hw as int, hh as int),
{
    let (rx, ry) = rotate(ang, px, py);
    -hw <= rx && rx <= hw && -hh <= ry && ry <= hh
}

fn corners_hit(
    t1: &Transform,
    w1: i64,
    h1: i64,
    r1: i64,
    t2: &Transform,
    w2: i64,
    h2: i64,
    r2: i64,
) -> (r: bool)
    requires
        pos_ok(*t1),
        pos_ok(*t2),
        size_ok(w1 as int, h1 as int),
        size_ok(w2 as int, h2 as int),
        0 <= r1 < 360_000,
        0 <= r2 < 360_000,
    ensures
        r == corners_hit_spec(
            *t1, w1 as int, h1 as int, r1 as int, *t2, w2 as int, h2 as int, r2 as int),
{
    let dx = t2.x - t1.x;
    let dy = t2.y - t1.y;
    let ang = norm_angle(r2 - r1);
    let hw = w1 / 2;
    let hh = h1 / 2;
    corner_inside(dx + w2 / 2, dy + h2 / 2, ang, hw, hh)
        || corner_inside(dx - w2 / 2, dy + h2 / 2, ang, hw, hh)
        || corner_inside(dx + w2 / 2, dy - h2 / 2, ang, hw, hh)
        || corner_inside(dx - w2 / 2, dy - h2 / 2, ang, hw, hh)
}

/// Oriented-rectangle overlap of two rectangles given by centre transform,
/// full width, full height, and rendered rotation.
pub fn check_collision(
    t1: &Transform,
    w1: i64,
    h1: i64,
    r1: i64,
    t2: &Transform,
    w2: i64,
    h2: i64,
    r2: i64,
) -> (r: bool)
    requires
        pos_ok(*t1),
        pos_ok(*t2),
        size_ok(w1 as int, h1 as int),
        size_ok(w2 as int, h2 as int),
        0 <= r1 < 360_000,
        0 <= r2 < 360_000,
    ensures
        r == collides_spec(
            *t1, w1 as int, h1 as int, r1 as int, *t2, w2 as int, h2 as int, r2 as int),
{
    corners_hit(t1, w1, h1, r1, t2, w2, h2, r2) || corners_hit(t2, w2, h2, r2, t1, w1, h1, r1)
}

/// The collision test does not depend on the order of its two rectangles.
pub proof fn lemma_collision_symmetric(
    t1: Transform,
    w1: int,
    h1: int,
    r1: int,
    t2: Transform,
    w2: int,
    h2: int,
    r2: int,
)
    ensures
        collides_spec(t1, w1, h1, r1, t2, w2, h2, r2) == collides_spec(
            t2, w2, h2, r2, t1, w1, h1, r1),
{
}

/// Rotating by a zero angle moves nothing.
proof fn lemma_rot_zero(px: int, py: int)
    ensures
        rot_x_spec(0, px, py) == px,
        rot_y_spec(0, px, py) == py,
{
    lemma_cardinal_values();
    lemma_fx_exact(px, 1000);
    lemma_fx_exact(py, 1000);
}

/// Two axis-aligned, unrotated rectangles whose bounding boxes do not
/// overlap never report a collision.
pub proof fn lemma_separated_no_collision(
    t1: Transform,
    w1: int,
    h1: int,
    t2: Transform,
    w2: int,
    h2: int,
)
    requires
        0 <= w1,
        0 <= h1,
        0 <= w2,
        0 <= h2,
        2 * iabs(t2.x - t1.x) > w1 + w2 || 2 * iabs(t2.y - t1.y) > h1 + h2,
    ensures
        !collides_spec(t1, w1, h1, 0, t2, w2, h2, 0),
{
    let dx = t2.x - t1.x;
    let dy = t2.y - t1.y;
    assert(norm_spec(0) == 0);
    lemma_fundamental_div_mod(w1, 2);
    lemma_fundamental_div_mod(w2, 2);
    lemma_fundamental_div_mod(h1, 2);
    lemma_fundamental_div_mod(h2, 2);
    assert forall|px: int, py: int| rot_x_spec(0, px, py) == px && rot_y_spec(0, px, py) == py by {
        lemma_rot_zero(px, py);
    }
    if 2 * iabs(dx) > w1 + w2 {
        assert(iabs(dx) >= w1 / 2 + w2 / 2 + 1);
    } else {
        assert(iabs(dy) >= h1 / 2 + h2 / 2 + 1);
    }
}

} // verus!
