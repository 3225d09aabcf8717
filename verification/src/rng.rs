//! An explicit, seedable pseudo-random generator.
//!
//! Randomness is a value threaded through every sampling call rather than
//! implicit global state, so the whole render is a deterministic function
//! of its seed: the same seed stream yields the same image.  The generator
//! is a 64-bit xorshift; each step and each derived draw has a spec mirror,
//! so contracts downstream can pin sampled values down exactly.

use vstd::prelude::*;
use crate::fixed::{SCALE, fadd_s, fmul_s, fsub_s, fadd, fmul, fsub};

verus! {

/// The xorshift successor of a generator state.
pub open spec fn next_state_s(s: u64) -> u64 {
    let a = s ^ (s << 13);
    let b = a ^ (a >> 7);
    b ^ (b << 17)
}

/// The fixed-point draw in `[0, 1)` that a state yields.
pub open spec fn unit_from_s(s: u64) -> int {
    ((s >> 33) % (SCALE as u64)) as int
}

/// A uniform draw in `[min, max)`, as the original computes it:
/// `min + u * (max - min)` with `u` in `[0, 1)`.
pub open spec fn range_from_s(s: u64, min: int, max: int) -> int {
    fadd_s(min, fmul_s(unit_from_s(s), fsub_s(max, min)))
}

/// A seedable xorshift generator.
pub struct Rng {
    pub state: u64,
}

impl Rng {
    /// A generator starting from the given seed.
    pub fn from_seed(seed: u64) -> (r: Rng)
        ensures
            r.state == seed,
    {
        Rng { state: seed }
    }

    /// Advance the state one xorshift step.
    fn step(&mut self)
        ensures
            final(self).state == next_state_s(old(self).state),
    {
        let mut s = self.state;
        s = s ^ (s << 13);
        s = s ^ (s >> 7);
        s = s ^ (s << 17);
        self.state = s;
    }

    /// A fixed-point draw in `[0, 1)`: the scalar analogue of drawing a
    /// uniform real below one.
    pub fn next_unit(&mut self) -> (r: i64)
        ensures
            final(self).state == next_state_s(old(self).state),
            r as int == unit_from_s(next_state_s(old(self).state)),
            0 <= r < SCALE,
    {
        self.step();
        ((self.state >> 33) % (SCALE as u64)) as i64
    }

    /// A fixed-point draw in `[min, max)`.
    pub fn next_range(&mut self, min: i64, max: i64) -> (r: i64)
        ensures
            final(self).state == next_state_s(old(self).state),
            r as int == range_from_s(next_state_s(old(self).state), min as int, max as int),
    {
        let u = self.next_unit();
        fadd(min, fmul(u, fsub(max, min)))
    }
}

} // verus!
