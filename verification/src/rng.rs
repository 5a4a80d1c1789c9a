use vstd::prelude::*;
use crate::num::lemma_div_bound;

verus! {

/// The operating system's entropy source failed; callers treat this as
/// fatal and abort the session.
#[derive(Clone, Copy, PartialEq, Eq, Structural, Debug)]
pub struct EntropyError;

/// Relies on getrandom::getrandom to fill eight bytes from the operating
/// system's entropy source. Nothing is assumed about the drawn value.
#[verifier::external_body]
fn os_random_u64() -> (r: Result<u64, EntropyError>) {
    let mut data = [0u8; 8];
    match getrandom::getrandom(&mut data[..]) {
        Ok(()) => Ok(u64::from_le_bytes(data)),
        Err(_) => Err(EntropyError),
    }
}

/// One nonzero machine word of entropy: the source is drawn again while it
/// hands back zero. A source that returns only zero words for this many
/// draws in a row is broken, and the draw reports an entropy failure.
pub const MAX_REDRAWS: u64 = 1000;

pub fn random_u64_nonzero() -> (r: Result<u64, EntropyError>)
    ensures
        r matches Ok(v) ==> v != 0,
{
    let mut tries: u64 = 0;
    while tries < MAX_REDRAWS
        invariant
            tries <= 1000,
        decreases 1000 - tries,
    {
        match os_random_u64() {
            Ok(v) => {
                if v != 0 {
                    return Ok(v);
                }
            },
            Err(e) => {
                return Err(e);
            },
        }
        tries = tries + 1;
    }
    Err(EntropyError)
}

/// The ratio of the smaller of two nonzero draws to the larger, in
/// fixed-point thousandths. Taking the smaller over the larger keeps the
/// ratio in the unit range but is not a uniform distribution; the quirk is
/// kept deliberately.
pub open spec fn unit_ratio_spec(v1: int, v2: int) -> int {
    if v1 > v2 {
        v2 * 1000 / v1
    } else {
        v1 * 1000 / v2
    }
}

pub fn unit_ratio(v1: u64, v2: u64) -> (r: u64)
    requires
        v1 > 0,
        v2 > 0,
    ensures
        r == unit_ratio_spec(v1 as int, v2 as int),
        r <= 1000,
{
    if v1 > v2 {
        proof {
            lemma_div_bound(v2 as int * 1000, v1 as int, 1000);
        }
        ((v2 as u128 * 1000) / (v1 as u128)) as u64
    } else {
        proof {
            lemma_div_bound(v1 as int * 1000, v2 as int, 1000);
        }
        ((v1 as u128 * 1000) / (v2 as u128)) as u64
    }
}

/// One unit draw in fixed-point thousandths, built from two independent
/// nonzero words as their smaller-over-larger ratio.
pub fn random_unit() -> (r: Result<u64, EntropyError>)
    ensures
        r matches Ok(u) ==> u <= 1000,
{
    let v1 = match random_u64_nonzero() {
        Ok(v) => v,
        Err(e) => {
            return Err(e);
        },
    };
    let v2 = match random_u64_nonzero() {
        Ok(v) => v,
        Err(e) => {
            return Err(e);
        },
    };
    Ok(unit_ratio(v1, v2))
}

/// Map a unit draw onto the range `[lo, lo + span]` by linear interpolation.
pub fn lerp_unit(u: u64, lo: i64, span: i64) -> (r: i64)
    requires
        u <= 1000,
        0 <= span <= 1_000_000,
        -1_000_000_000 <= lo <= 1_000_000_000,
    ensures
        r == lo + u as int * span as int / 1000,
        lo <= r <= lo + span,
{
    proof {
        vstd::arithmetic::mul::lemma_mul_nonnegative(u as int, span as int);
        crate::num::lemma_mul_abs_bound(u as int, span as int, 1000, span as int);
        lemma_div_bound(u as int * span as int, 1000, span as int);
    }
    lo + (u as i64) * span / 1000
}

} // verus!
