//! Randomness, behind one narrow door.
//!
//! The process-wide generator is reached through a single trusted wrapper
//! around `rand`, which draws a uniform integer from an inclusive range.
//! Everything else here is verified code over that wrapper: the Bernoulli
//! roll in parts per thousand, and the offset sampled from a ball. No
//! contract claims anything about a draw beyond its bounds — two draws on
//! the same arguments may differ — so every caller is verified for every
//! outcome.

use vstd::prelude::*;

use rand::Rng;

use crate::geom::Vec3;
use crate::stats::CHANCE_SCALE;

verus! {

/// Relies on `rand::Rng::gen_range` over the inclusive range `lo..=hi`,
/// with the process-wide generator of `rand::thread_rng`: the sample is
/// uniform over that range, and in particular lies within it; the call
/// panics only on an empty range, which the precondition rules out.
#[verifier::external_body]
pub(crate) fn sample_u64_inclusive(lo: u64, hi: u64) -> (r: u64)
    requires
        lo <= hi,
    ensures
        lo <= r <= hi,
{
    rand::thread_rng().gen_range(lo..=hi)
}

/// Roll a Bernoulli trial whose success probability is `chance` parts per
/// thousand. A chance of zero never succeeds and a chance of
/// [`CHANCE_SCALE`] always does; in between, nothing is promised of the
/// single outcome.
pub fn roll_chance(chance: u32) -> (success: bool)
    requires
        chance <= CHANCE_SCALE,
    ensures
        chance == 0 ==> !success,
        chance == CHANCE_SCALE ==> success,
{
    let draw = sample_u64_inclusive(0, (CHANCE_SCALE - 1) as u64);
    (draw as u32) < chance
}

/// A coordinate no larger in magnitude than a bound at most one million
/// has a square between zero and the bound's square, itself at most 10^12.
proof fn lemma_square_bound(x: int, b: int)
    by (nonlinear_arith)
    requires
        -b <= x <= b,
        0 <= b <= 1_000_000,
    ensures
        0 <= x * x <= b * b,
        b * b <= 1_000_000_000_000,
{
}

/// Draw an offset from within the ball of the given radius around the
/// origin, in milli-units.
///
/// Coordinates are drawn uniformly from the enclosing cube and redrawn
/// while they fall outside the ball, which leaves the accepted point
/// uniform in the ball; after a fixed number of misses — the ball fills
/// over half the cube, so that is vanishingly rare — the center is used.
pub fn sample_offset_in_ball(radius: u64) -> (v: Vec3)
    requires
        radius <= 1_000_000,
    ensures
        v.x * v.x + v.y * v.y + v.z * v.z <= radius * radius,
        v.bounded_by(radius as i64),
{
    let r = radius as i64;
    let side = 2 * radius;
    let mut attempts: usize = 0;
    while attempts < 16
        invariant
            0 <= r <= 1_000_000,
            r == radius,
            side == 2 * radius,
        decreases 16 - attempts,
    {
        let x = sample_u64_inclusive(0, side) as i64 - r;
        let y = sample_u64_inclusive(0, side) as i64 - r;
        let z = sample_u64_inclusive(0, side) as i64 - r;
        proof {
            lemma_square_bound(x as int, r as int);
            lemma_square_bound(y as int, r as int);
            lemma_square_bound(z as int, r as int);
            lemma_square_bound(r as int, r as int);
        }
        if x * x + y * y + z * z <= r * r {
            return Vec3 { x, y, z };
        }
        attempts = attempts + 1;
    }
    Vec3 { x: 0, y: 0, z: 0 }
}

} // verus!
