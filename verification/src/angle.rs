use vstd::prelude::*;
use crate::num::{lemma_div_bound, SCALE};

verus! {

/// Angles are measured in thousandths of a degree, counted from 0 at the
/// local "up" axis; a full turn is `FULL_TURN` steps.
pub const FULL_TURN: i64 = 360_000;

pub const HALF_TURN: i64 = 180_000;

pub const QUARTER_TURN: i64 = 90_000;

/// The angle brought into `[0, FULL_TURN)`; defined on `[-FULL_TURN, 2 * FULL_TURN]`,
/// which covers every sum or difference of two normalized angles.
pub open spec fn norm_spec(a: int) -> int {
    if a < 0 {
        a + 360_000
    } else if a >= 720_000 {
        a - 720_000
    } else if a >= 360_000 {
        a - 360_000
    } else {
        a
    }
}

pub fn norm_angle(a: i64) -> (r: i64)
    requires
        -360_000 <= a <= 720_000,
    ensures
        r == norm_spec(a as int),
        0 <= r < 360_000,
{
    if a < 0 {
        a + FULL_TURN
    } else if a >= 2 * FULL_TURN {
        a - 2 * FULL_TURN
    } else if a >= FULL_TURN {
        a - FULL_TURN
    } else {
        a
    }
}

/// Rational approximation of the sine over one half turn, scaled by `SCALE`:
/// exact at 0, at the quarter turn and at the half turn, and within a few
/// thousandths of the exact sine in between.
pub open spec fn half_sine_spec(x: int) -> int {
    (16 * (x * (180_000 - x)) * 1000) / (162_000_000_000 - 4 * (x * (180_000 - x)))
}

pub open spec fn sin_spec(a: int) -> int
    recommends
        0 <= a < 360_000,
{
    if a < 180_000 {
        half_sine_spec(a)
    } else {
        -half_sine_spec(a - 180_000)
    }
}

pub open spec fn cos_spec(a: int) -> int
    recommends
        0 <= a < 360_000,
{
    sin_spec(norm_spec(a + 90_000))
}

proof fn lemma_half_sine_bounds(x: int)
    requires
        0 <= x <= 180_000,
    ensures
        0 <= half_sine_spec(x) <= 1000,
{
    assert(0 <= x * (180_000 - x) && x * (180_000 - x) <= 8_100_000_000) by (nonlinear_arith)
        requires 0 <= x <= 180_000;
    let p = x * (180_000 - x);
    lemma_div_bound(16 * p * 1000, 162_000_000_000 - 4 * p, 1000);
}

/// The four cardinal directions come out exactly.
pub proof fn lemma_cardinal_values()
    ensures
        sin_spec(0) == 0,
        sin_spec(90_000) == 1000,
        sin_spec(180_000) == 0,
        sin_spec(270_000) == -1000,
        cos_spec(0) == 1000,
        cos_spec(90_000) == 0,
        cos_spec(180_000) == -1000,
        cos_spec(270_000) == 0,
{
    assert(90_000 * (180_000 - 90_000) == 8_100_000_000);
    assert(16 * 8_100_000_000 * 1000 == 129_600_000_000_000);
    assert(162_000_000_000 - 4 * 8_100_000_000 == 129_600_000_000);
    assert(129_600_000_000_000int / 129_600_000_000 == 1000);
    assert(half_sine_spec(90_000) == 1000);
    assert(half_sine_spec(0) == 0);
}

fn half_sine(x: i64) -> (r: i64)
    requires
        0 <= x <= 180_000,
    ensures
        r == half_sine_spec(x as int),
        0 <= r <= 1000,
{
    proof {
        assert(0 <= (x as int) * (180_000 - x as int) <= 8_100_000_000) by (nonlinear_arith)
            requires 0 <= x <= 180_000;
        lemma_half_sine_bounds(x as int);
    }
    let p: i64 = x * (HALF_TURN - x);
    (16 * p * SCALE) / (162_000_000_000 - 4 * p)
}

/// Sine of a normalized angle, scaled by `SCALE`.
pub fn sin_fp(a: i64) -> (r: i64)
    requires
        0 <= a < 360_000,
    ensures
        r == sin_spec(a as int),
        -1000 <= r <= 1000,
{
    if a < HALF_TURN {
        half_sine(a)
    } else {
        -half_sine(a - HALF_TURN)
    }
}

/// Cosine of a normalized angle, scaled by `SCALE`.
pub fn cos_fp(a: i64) -> (r: i64)
    requires
        0 <= a < 360_000,
    ensures
        r == cos_spec(a as int),
        -1000 <= r <= 1000,
{
    sin_fp(norm_angle(a + QUARTER_TURN))
}

/// The angle of the vector whose sine-axis component is `y` and whose
/// cosine-axis component is `x`: a piecewise-linear fixed-point analogue of
/// the two-argument arc tangent, normalized into `[0, FULL_TURN)`.
pub open spec fn atan2_spec(y: int, x: int) -> int {
    let ay = if y < 0 { -y } else { y };
    let ax = if x < 0 { -x } else { x };
    if ay == 0 && ax == 0 {
        0
    } else {
        let base = if ay <= ax {
            (ay * 45_000) / ax
        } else {
            90_000 - (ax * 45_000) / ay
        };
        if x >= 0 && y >= 0 {
            base
        } else if x < 0 && y >= 0 {
            180_000 - base
        } else if x < 0 {
            180_000 + base
        } else if base == 0 {
            0
        } else {
            360_000 - base
        }
    }
}

pub fn atan2_fp(y: i64, x: i64) -> (r: i64)
    requires
        -2_000_000 <= y <= 2_000_000,
        -2_000_000 <= x <= 2_000_000,
    ensures
        r == atan2_spec(y as int, x as int),
        0 <= r < 360_000,
{
    let ay: i64 = if y < 0 { -y } else { y };
    let ax: i64 = if x < 0 { -x } else { x };
    if ay == 0 && ax == 0 {
        return 0;
    }
    let base: i64 = if ay <= ax {
        proof {
            assert((ay as int) * 45_000 <= 45_000 * (ax as int)) by (nonlinear_arith)
                requires 0 <= ay <= ax;
            lemma_div_bound((ay as int) * 45_000, ax as int, 45_000);
        }
        (ay * 45_000) / ax
    } else {
        proof {
            assert((ax as int) * 45_000 <= 45_000 * (ay as int)) by (nonlinear_arith)
                requires 0 <= ax <= ay;
            lemma_div_bound((ax as int) * 45_000, ay as int, 45_000);
        }
        90_000 - (ax * 45_000) / ay
    };
    if x >= 0 && y >= 0 {
        base
    } else if x < 0 && y >= 0 {
        180_000 - base
    } else if x < 0 {
        180_000 + base
    } else if base == 0 {
        0
    } else {
        360_000 - base
    }
}

} // verus!
