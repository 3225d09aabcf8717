//! Pixel encoding: an accumulated color becomes an 8-bit RGB triple.
//!
//! The accumulated sum is divided by the sample count, gamma-corrected by
//! a componentwise square root, clamped to `[0, 0.999]`, scaled by
//! `255.999` and truncated -- in exactly that order, so a full-intensity
//! channel encodes as 255 by clamping, not by rounding up.

use vstd::prelude::*;
use crate::fixed::{SCALE, fmul_s, fdiv_s, fsqrt_s, tdiv_s, sat_s, fmul, fdiv, fsqrt};
use crate::vec3::{V3, Vec3};

pub use crate::vec3::Vec3 as Color;

verus! {

/// 255.999 in fixed-point units.
pub const BYTE_SCALE: i64 = 255_999_000_000;

/// 0.999 in fixed-point units.
pub const CHANNEL_MAX: i64 = 999_000_000;

/// Clamp into `[min, max]`.
pub open spec fn clamp_scalar_s(x: int, min: int, max: int) -> int {
    if x < min {
        min
    } else if x > max {
        max
    } else {
        x
    }
}

/// The byte one channel encodes to: average, gamma-correct, clamp,
/// scale, truncate.
pub open spec fn channel_byte_s(x: int, scale: int) -> int {
    let g = fsqrt_s(fmul_s(x, scale));
    tdiv_s(fmul_s(BYTE_SCALE as int, clamp_scalar_s(g, 0, CHANNEL_MAX as int)), SCALE as int)
}

/// The three bytes a pixel's accumulated color encodes to, given the
/// sample count it accumulated.
pub open spec fn color_bytes_s(c: V3, samples: int) -> Seq<u8> {
    let scale = fdiv_s(SCALE as int, samples * SCALE as int);
    seq![
        channel_byte_s(c.x, scale) as u8,
        channel_byte_s(c.y, scale) as u8,
        channel_byte_s(c.z, scale) as u8,
    ]
}

/// Every channel byte is an actual byte.
pub proof fn lemma_channel_byte_range(x: int, scale: int)
    ensures
        0 <= channel_byte_s(x, scale) <= 255,
{
    let g = clamp_scalar_s(fsqrt_s(fmul_s(x, scale)), 0, CHANNEL_MAX as int);
    assert(0 <= g <= 999_000_000);
    let p = BYTE_SCALE as int * g;
    assert(0 <= p <= 255_743_001_000_000_000_000) by (nonlinear_arith)
        requires
            p == 255_999_000_000 * g,
            0 <= g <= 999_000_000;
    let m = fmul_s(BYTE_SCALE as int, g);
    assert(tdiv_s(p, SCALE as int) == p / SCALE as int);
    vstd::arithmetic::div_mod::lemma_div_is_ordered(0, p, SCALE as int);
    vstd::arithmetic::div_mod::lemma_div_is_ordered(p, 255_743_001_000_000_000_000, SCALE as int);
    assert(m == sat_s(p / SCALE as int));
    assert(0 <= m <= 255_743_001_000);
    assert(channel_byte_s(x, scale) == tdiv_s(m, SCALE as int));
    vstd::arithmetic::div_mod::lemma_div_is_ordered(0, m, SCALE as int);
    vstd::arithmetic::div_mod::lemma_div_is_ordered(m, 255_743_001_000, SCALE as int);
}

fn channel_byte(x: i64, scale: i64) -> (r: u8)
    ensures
        r as int == channel_byte_s(x as int, scale as int),
{
    let g = fsqrt(fmul(x, scale));
    let clamped = if g < 0 {
        0
    } else if g > CHANNEL_MAX {
        CHANNEL_MAX
    } else {
        g
    };
    let m = fmul(BYTE_SCALE, clamped);
    proof {
        lemma_channel_byte_range(x as int, scale as int);
        assert(0 <= m);
        assert(tdiv_s(m as int, SCALE as int) == m as int / SCALE as int);
    }
    (m / SCALE) as u8
}

impl Vec3 {
    /// Encode this accumulated color, over the given number of samples,
    /// as an RGB byte triple.
    pub fn color_to_u8(&self, samples_per_pixel: i32) -> (r: [u8; 3])
        ensures
            r@ == color_bytes_s(self@, samples_per_pixel as int),
    {
        let scale = fdiv(SCALE, (samples_per_pixel as i64) * SCALE);

        [
            channel_byte(self.x, scale),
            channel_byte(self.y, scale),
            channel_byte(self.z, scale),
        ]
    }
}

} // verus!
