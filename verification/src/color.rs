//! The colour ramp: from an escape count to an RGB triple.

use vstd::prelude::*;

verus! {

/// Highest value of a colour channel.
pub const CHANNEL_MAX: u32 = 255;

/// Halved escape count from which the green channel is lit.
pub const GREEN_FROM: u32 = 256;

/// Halved escape count from which the blue channel is lit.
pub const BLUE_FROM: u32 = 512;

/// The halved escape count that drives all three channels.
pub open spec fn half_time(e_time: nat) -> nat {
    e_time / 2
}

/// A channel that is dark while the halved count is below `from` and
/// follows the halved count, clamped to 255, from there on.
pub open spec fn channel(h: nat, from: nat) -> nat {
    if h < from {
        0
    } else if h < 255 {
        h
    } else {
        255
    }
}

/// Red channel for an escape count: the halved count, clamped to 255.
pub open spec fn red_of(e_time: nat) -> nat {
    channel(half_time(e_time), 0)
}

/// Green channel for an escape count: dark until the halved count reaches 256.
pub open spec fn green_of(e_time: nat) -> nat {
    channel(half_time(e_time), 256)
}

/// Blue channel for an escape count: dark until the halved count reaches 512.
pub open spec fn blue_of(e_time: nat) -> nat {
    channel(half_time(e_time), 512)
}

/// The colour of a point, given whether and when it escaped.
/// A point that stayed bounded is black.
pub open spec fn color_of(escape: Option<u32>) -> (u8, u8, u8) {
    match escape {
        Some(t) => (red_of(t as nat) as u8, green_of(t as nat) as u8, blue_of(t as nat) as u8),
        None => (0u8, 0u8, 0u8),
    }
}

/// Clamps a halved escape count to the channel range.
fn clamp_channel(h: u32) -> (c: u8)
    ensures
        c as nat == channel(h as nat, 0),
{
    if h < CHANNEL_MAX {
        h as u8
    } else {
        255u8
    }
}

/// Colour of a point that escaped at step `e_time`.
///
/// The count is halved; red follows it up to 255, green joins at 256 and
/// blue at 512, so the ramp runs black, red, yellow, white.
pub fn colorize(e_time: u32) -> (rgb: (u8, u8, u8))
    ensures
        rgb.0 as nat == red_of(e_time as nat),
        rgb.1 as nat == green_of(e_time as nat),
        rgb.2 as nat == blue_of(e_time as nat),
        rgb == color_of(Some(e_time)),
{
    let half: u32 = e_time / 2;
    let red: u8 = clamp_channel(half);
    let green: u8 = if half < GREEN_FROM {
        0u8
    } else {
        clamp_channel(half)
    };
    let blue: u8 = if half < BLUE_FROM {
        0u8
    } else {
        clamp_channel(half)
    };
    (red, green, blue)
}

/// Colour of a point from the outcome of its escape test: black where the
/// point stayed bounded, the ramp colour of the step where it escaped.
pub fn color_escape(escape: Option<u32>) -> (rgb: (u8, u8, u8))
    ensures
        rgb == color_of(escape),
{
    match escape {
        Some(t) => colorize(t),
        None => (0u8, 0u8, 0u8),
    }
}

/// No channel exceeds 255, whatever the escape count.
pub proof fn lemma_channels_saturate(e_time: nat)
    ensures
        red_of(e_time) <= 255,
        green_of(e_time) <= 255,
        blue_of(e_time) <= 255,
        half_time(e_time) >= 255 ==> red_of(e_time) == 255,
        half_time(e_time) >= 256 ==> green_of(e_time) == 255,
        half_time(e_time) >= 512 ==> blue_of(e_time) == 255,
{
}

/// The ramp never darkens: a point that escapes later has, in each
/// channel, at least the value of one that escapes earlier.
pub proof fn lemma_colorize_monotonic(earlier: nat, later: nat)
    requires
        earlier <= later,
    ensures
        red_of(earlier) <= red_of(later),
        green_of(earlier) <= green_of(later),
        blue_of(earlier) <= blue_of(later),
{
    assert(half_time(earlier) <= half_time(later));
}

} // verus!
