//! Encoding linear colors as displayable bytes.
use vstd::prelude::*;
use vstd::arithmetic::div_mod::{lemma_div_is_ordered, lemma_div_pos_is_pos};
use crate::fixed::{mul_fx, prod, root, sqrt_fx, SCALE};
use crate::interval::{clamp_spec, Interval};
use crate::vector::Vec3;

verus! {

/// 255.999: a channel of 1 maps just below 256.
pub const COLOR_MAX: i64 = 255_999_000;

/// Lowest intensity a channel is clamped to.
pub const COLOR_CLAMP_MIN: i64 = 0;

/// Highest intensity a channel is clamped to: 0.999.
pub const COLOR_CLAMP_MAX: i64 = 999_000;

/// Gamma 2: the square root of a positive intensity, zero otherwise.
pub open spec fn gamma(c: int) -> int {
    if c > 0 {
        root(c)
    } else {
        0
    }
}

/// The byte of a linear channel: gamma-corrected, clamped to
/// `[0, 0.999]`, scaled by 255.999 and truncated.
pub open spec fn channel_byte(c: int) -> int {
    prod(
        COLOR_MAX as int,
        clamp_spec(Interval { min: COLOR_CLAMP_MIN, max: COLOR_CLAMP_MAX }, gamma(c)),
    ) / (SCALE as int)
}

/// The bytes of a color, red, green and blue.
pub open spec fn encoded(c: Vec3) -> (u8, u8, u8) {
    (channel_byte(c.x as int) as u8, channel_byte(c.y as int) as u8, channel_byte(c.z as int) as u8)
}

pub fn linear_to_gamma(linear_component: i64) -> (r: i64)
    ensures
        r == gamma(linear_component as int),
{
    if linear_component > 0 {
        sqrt_fx(linear_component)
    } else {
        0
    }
}

fn channel_to_byte(c: i64) -> (r: u8)
    ensures
        r == channel_byte(c as int),
{
    let intensity = Interval::new(COLOR_CLAMP_MIN, COLOR_CLAMP_MAX);
    let clamped = intensity.clamp(linear_to_gamma(c));
    let scaled = mul_fx(COLOR_MAX, clamped);
    proof {
        assert(0 <= COLOR_MAX * clamped <= COLOR_MAX * COLOR_CLAMP_MAX) by (nonlinear_arith)
            requires
                0 <= clamped <= COLOR_CLAMP_MAX,
                COLOR_MAX > 0,
        ;
        lemma_div_is_ordered(COLOR_MAX * clamped, COLOR_MAX * COLOR_CLAMP_MAX, SCALE as int);
        lemma_div_pos_is_pos(COLOR_MAX * clamped, SCALE as int);
        assert(COLOR_MAX * COLOR_CLAMP_MAX / (SCALE as int) == 255_743_001);
        assert(0 <= scaled <= 255_743_001);
    }
    (scaled / SCALE) as u8
}

impl Vec3 {
    /// The color's bytes, red, green and blue, as an image stores them.
    pub fn to_bytes(&self) -> (r: (u8, u8, u8))
        ensures
            r.0 == channel_byte(self.x as int),
            r.1 == channel_byte(self.y as int),
            r.2 == channel_byte(self.z as int),
            r == encoded(*self),
    {
        (channel_to_byte(self.x), channel_to_byte(self.y), channel_to_byte(self.z))
    }
}

} // verus!
