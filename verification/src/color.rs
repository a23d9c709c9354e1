//! Color mapping: escape-time iteration counts to RGB pixels.
//!
//! A count equal to the iteration bound means the point is inside the set and
//! is drawn black.  Any other count is mapped through a cyclic gradient: the
//! count is reduced modulo a fixed period, the period is split into equal
//! sub-ranges keyed to an ordered palette of anchor colors, and each channel
//! is a clamped linear blend.  Channel arithmetic saturates at 255 rather than
//! wrapping, and the color depends on the count alone, never on the pixel.

use vstd::prelude::*;

verus! {

/// One RGB pixel; each channel is a byte, so channels are in `[0, 255]` by
/// construction.
#[derive(Clone, Copy, PartialEq, Eq, Structural, Debug)]
pub struct Rgb {
    pub r: u8,
    pub g: u8,
    pub b: u8,
}

/// First gradient anchor: a dark blue.
pub open spec fn anchor_dark_blue() -> Rgb {
    Rgb { r: 20, g: 20, b: 65 }
}

/// Second gradient anchor: a sky blue.
pub open spec fn anchor_sky_blue() -> Rgb {
    Rgb { r: 63, g: 110, b: 252 }
}

/// Third gradient anchor: a light blue.
pub open spec fn anchor_light_blue() -> Rgb {
    Rgb { r: 160, g: 160, b: 230 }
}

/// Clamp a non-negative channel value to the byte range.
pub open spec fn clamp255(v: int) -> int {
    if v > 255 {
        255
    } else {
        v
    }
}

/// One blended channel: the base channel plus `k` hundredths of the target
/// channel, saturated at 255.
pub open spec fn blend_channel(s: int, t: int, k: int) -> int {
    clamp255(s + (k * t) / 100)
}

/// One blended color, channel by channel.
pub open spec fn blend_spec(state: Rgb, target: Rgb, k: int) -> Rgb {
    Rgb {
        r: blend_channel(state.r as int, target.r as int, k) as u8,
        g: blend_channel(state.g as int, target.g as int, k) as u8,
        b: blend_channel(state.b as int, target.b as int, k) as u8,
    }
}

/// The cyclic gradient: counts cycle with period 300, and each third of the
/// period blends one palette anchor toward the next.
pub open spec fn cycle_color(i: nat) -> Rgb {
    let count = i % 300;
    let k = (count % 100) as int;
    if count < 100 {
        blend_spec(anchor_dark_blue(), anchor_sky_blue(), k)
    } else if count < 200 {
        blend_spec(anchor_sky_blue(), anchor_light_blue(), k)
    } else {
        blend_spec(anchor_light_blue(), anchor_dark_blue(), k)
    }
}

/// What the color mapper returns: black for a count that reached the bound,
/// the cyclic gradient otherwise.
pub open spec fn color_spec(i: nat, imax: nat) -> Rgb {
    if i == imax {
        Rgb { r: 0, g: 0, b: 0 }
    } else {
        cycle_color(i)
    }
}

/// One blended channel; the `u32` arithmetic cannot overflow and the result
/// saturates at 255 instead of wrapping.
fn blend_byte(s: u8, t: u8, k: u32) -> (v: u8)
    requires
        k < 100,
    ensures
        v as int == blend_channel(s as int, t as int, k as int),
{
    proof {
        assert(k * t <= 99 * 255) by (nonlinear_arith)
            requires
                k <= 99,
                t <= 255,
        ;
    }
    let scaled: u32 = (k * (t as u32)) / 100;
    let sum: u32 = (s as u32) + scaled;
    if sum > 255 {
        255
    } else {
        sum as u8
    }
}

/// Blend `state` toward `target` by `k` hundredths, clamping each channel.
pub fn transition(state: Rgb, target: Rgb, k: u32) -> (c: Rgb)
    requires
        k < 100,
    ensures
        c == blend_spec(state, target, k as int),
{
    Rgb {
        r: blend_byte(state.r, target.r, k),
        g: blend_byte(state.g, target.g, k),
        b: blend_byte(state.b, target.b, k),
    }
}

/// The three-anchor cyclic gradient palette.
pub fn test_transition_color(i: u32) -> (c: Rgb)
    ensures
        c == cycle_color(i as nat),
{
    let count: u32 = i % 300;
    let k: u32 = count % 100;
    let dark_blue = Rgb { r: 20, g: 20, b: 65 };
    let sky_blue = Rgb { r: 63, g: 110, b: 252 };
    let light_blue = Rgb { r: 160, g: 160, b: 230 };
    if count < 100 {
        transition(dark_blue, sky_blue, k)
    } else if count < 200 {
        transition(sky_blue, light_blue, k)
    } else {
        transition(light_blue, dark_blue, k)
    }
}

/// The full color mapper: black at the iteration bound, the cyclic gradient
/// below it.
pub fn color_for(i: u32, imax: u32) -> (c: Rgb)
    ensures
        c == color_spec(i as nat, imax as nat),
{
    if i == imax {
        Rgb { r: 0, g: 0, b: 0 }
    } else {
        test_transition_color(i)
    }
}

/// The two-segment gradient: counts cycle with period 1000; the first half
/// of the period ramps from a near-black purple, the second from a violet.
pub open spec fn duotone_color(i: nat) -> Rgb {
    let count = (i % 1000) as int;
    if count < 500 {
        Rgb {
            r: clamp255(18 + (count * 250) / 1000) as u8,
            g: clamp255(2 + (count * 156) / 1000) as u8,
            b: clamp255(18 + (count * 320) / 1000) as u8,
        }
    } else {
        Rgb {
            r: clamp255(143 + ((count - 500) * 214) / 1000) as u8,
            g: clamp255(80 + ((count - 500) * 336) / 1000) as u8,
            b: clamp255(178 + ((count - 500) * 150) / 1000) as u8,
        }
    }
}

/// The two-segment gradient palette.
pub fn test_color(i: u32) -> (c: Rgb)
    ensures
        c == duotone_color(i as nat),
{
    let count: u32 = i % 1000;
    if count < 500 {
        let r: u32 = 18 + (count * 250) / 1000;
        let g: u32 = 2 + (count * 156) / 1000;
        let b: u32 = 18 + (count * 320) / 1000;
        Rgb {
            r: if r > 255 { 255 } else { r as u8 },
            g: if g > 255 { 255 } else { g as u8 },
            b: if b > 255 { 255 } else { b as u8 },
        }
    } else {
        let m: u32 = count - 500;
        let r: u32 = 143 + (m * 214) / 1000;
        let g: u32 = 80 + (m * 336) / 1000;
        let b: u32 = 178 + (m * 150) / 1000;
        Rgb {
            r: if r > 255 { 255 } else { r as u8 },
            g: if g > 255 { 255 } else { g as u8 },
            b: if b > 255 { 255 } else { b as u8 },
        }
    }
}

/// Every channel a blend produces is already a byte: the value before the
/// spec-level cast to `u8` lies in `[0, 255]`, so no channel ever wraps.
pub proof fn lemma_blend_channel_in_range(s: int, t: int, k: int)
    requires
        0 <= s <= 255,
        0 <= t <= 255,
        0 <= k < 100,
    ensures
        0 <= blend_channel(s, t, k) <= 255,
{
    assert(k * t <= 99 * 255) by (nonlinear_arith)
        requires
            0 <= k <= 99,
            0 <= t <= 255,
    ;
    assert(k * t >= 0) by (nonlinear_arith)
        requires
            0 <= k,
            0 <= t,
    ;
}

/// Every color the mapper produces has all three channels in `[0, 255]`:
/// the channels are bytes, and the blend arithmetic behind them saturates at
/// 255 (see [`lemma_blend_channel_in_range`]) instead of wrapping.
pub proof fn lemma_color_channels_bounded(i: nat, imax: nat)
    ensures
        0 <= color_spec(i, imax).r <= 255,
        0 <= color_spec(i, imax).g <= 255,
        0 <= color_spec(i, imax).b <= 255,
{
}

/// A count that reached the iteration bound is drawn black, for every bound.
pub proof fn lemma_inside_is_black(imax: nat)
    ensures
        color_spec(imax, imax) == (Rgb { r: 0, g: 0, b: 0 }),
{
}

} // verus!
