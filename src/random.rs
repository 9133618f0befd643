//! Random draws for the simulation.
use vstd::prelude::*;
use rand::Rng;
use crate::fixed::UNIT;

verus! {

/// Relies on `rand::Rng::gen_range` over `rand::thread_rng()`: a value drawn
/// from the non-empty range `0..n`.
#[verifier::external_body]
fn draw_below(n: u64) -> (r: u64)
    requires
        n > 0,
    ensures
        r < n,
{
    rand::thread_rng().gen_range(0..n)
}

/// A uniform draw from `0..n`, or `0` when `n` is not positive.
pub fn uniform_below(n: i64) -> (r: i64)
    ensures
        n > 0 ==> 0 <= r < n,
        n <= 0 ==> r == 0,
{
    if n > 0 {
        draw_below(n as u64) as i64
    } else {
        0
    }
}

/// A uniform fraction in `[0, 1)`, in thousandths.
pub fn unit_draw() -> (r: i64)
    ensures
        0 <= r < UNIT,
{
    draw_below(UNIT as u64) as i64
}

pub open spec fn is_fraction(u: i64) -> bool {
    0 <= u < UNIT
}

/// The random fractions that one drop consumes in one tick.
#[derive(Clone, Copy, Debug)]
pub struct DropDraws {
    /// Whether gravity gives the drop a kick.
    pub flicker: i64,
    /// Size of that kick.
    pub gain: i64,
    /// Whether a small drop starts to shrink faster.
    pub shrink: i64,
    /// Sideways offset of a trail fragment.
    pub jitter: i64,
    /// Size of a trail fragment within the trail scale range.
    pub trail_scale: i64,
    /// Distance to the next trail fragment.
    pub spawn: i64,
}

impl DropDraws {
    pub open spec fn wf(&self) -> bool {
        &&& is_fraction(self.flicker)
        &&& is_fraction(self.gain)
        &&& is_fraction(self.shrink)
        &&& is_fraction(self.jitter)
        &&& is_fraction(self.trail_scale)
        &&& is_fraction(self.spawn)
    }

    pub fn draw() -> (r: DropDraws)
        ensures
            r.wf(),
    {
        DropDraws {
            flicker: unit_draw(),
            gain: unit_draw(),
            shrink: unit_draw(),
            jitter: unit_draw(),
            trail_scale: unit_draw(),
            spawn: unit_draw(),
        }
    }
}

} // verus!
