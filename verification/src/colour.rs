//! Colours and the palette of the Newton basins.

use vstd::prelude::*;
use vstd::arithmetic::div_mod::{lemma_fundamental_div_mod, lemma_mod_pos_bound};
use crate::value::NormalizedValue;
use crate::kernel::{computes, computes2};

verus! {

/// An 8-bit RGB triple, the unit of output.
#[derive(Clone, Copy, Debug, PartialEq, Eq, Structural)]
pub struct RgbColour {
    pub r: u8,
    pub g: u8,
    pub b: u8,
}

/// Selects how a normalised escape value is turned into a colour.
#[derive(Clone, Copy, Debug, PartialEq, Eq, Structural)]
pub enum ColourMaps {
    /// Rainbow map: one Gaussian bump per channel.
    Trcm,
    /// Flat gray: the same level on all three channels.
    GrayScale,
}

/// Colour of an orbit that reached no tested root within its budget.
pub open spec fn spec_not_converged() -> RgbColour {
    RgbColour { r: 10, g: 10, b: 15 }
}

/// Colour of the basin of root number `root`, counted from zero. Every
/// number past the second names the last basin.
pub open spec fn spec_basin_colour(root: nat) -> RgbColour {
    if root == 0 {
        RgbColour { r: 173, g: 133, b: 186 }
    } else if root == 1 {
        RgbColour { r: 116, g: 161, b: 142 }
    } else {
        RgbColour { r: 114, g: 76, b: 52 }
    }
}

/// The level `level` cut to the range of a channel.
pub open spec fn spec_clamp_channel(level: int) -> int {
    if level < 0 {
        0
    } else if level > 255 {
        255
    } else {
        level
    }
}

/// Centres of the three bumps of the rainbow map, for red, green and blue in
/// this order: 0.75, 0.5 and 0.2.
pub open spec fn spec_trcm_centres() -> (NormalizedValue, NormalizedValue, NormalizedValue) {
    (
        NormalizedValue { numerator: 3, denominator: 4 },
        NormalizedValue { numerator: 1, denominator: 2 },
        NormalizedValue { numerator: 1, denominator: 5 },
    )
}

/// `colour` is what the map `map` gives at `value`. The rainbow map takes
/// the level of each channel from `bump`, asked at the channel's centre, and
/// the gray map takes one level from `ramp` for all three channels. Each
/// level is cut to the range of a channel.
pub open spec fn is_mapped<V, B: Fn(V, NormalizedValue) -> i64, R: Fn(V) -> i64>(
    map: ColourMaps,
    value: V,
    bump: B,
    ramp: R,
    colour: RgbColour,
) -> bool {
    match map {
        ColourMaps::Trcm => exists|red: i64, green: i64, blue: i64|
            {
                &&& call_ensures(bump, (value, spec_trcm_centres().0), red)
                &&& call_ensures(bump, (value, spec_trcm_centres().1), green)
                &&& call_ensures(bump, (value, spec_trcm_centres().2), blue)
                &&& colour.r == spec_clamp_channel(red as int)
                &&& colour.g == spec_clamp_channel(green as int)
                &&& colour.b == spec_clamp_channel(blue as int)
            },
        ColourMaps::GrayScale => exists|level: i64|
            {
                &&& call_ensures(ramp, (value,), level)
                &&& colour.r == spec_clamp_channel(level as int)
                &&& colour.g == colour.r
                &&& colour.b == colour.r
            },
    }
}

/// The colour that the map `map` gives at `value` where the levels are the
/// functions `bump` and `ramp`.
pub open spec fn mapped_colour<V>(
    map: ColourMaps,
    value: V,
    bump: spec_fn(V, NormalizedValue) -> i64,
    ramp: spec_fn(V) -> i64,
) -> RgbColour {
    match map {
        ColourMaps::Trcm => RgbColour {
            r: spec_clamp_channel(bump(value, spec_trcm_centres().0) as int) as u8,
            g: spec_clamp_channel(bump(value, spec_trcm_centres().1) as int) as u8,
            b: spec_clamp_channel(bump(value, spec_trcm_centres().2) as int) as u8,
        },
        ColourMaps::GrayScale => RgbColour {
            r: spec_clamp_channel(ramp(value) as int) as u8,
            g: spec_clamp_channel(ramp(value) as int) as u8,
            b: spec_clamp_channel(ramp(value) as int) as u8,
        },
    }
}

/// The closure `ramp` is exact under the valuation `fraction`: the level of
/// a value is 255 times its fraction, rounded down.
pub open spec fn exact_ramp<V, R: Fn(V) -> i64>(
    ramp: R,
    fraction: spec_fn(V) -> NormalizedValue,
) -> bool {
    forall|v: V, level: i64|
        call_ensures(ramp, (v,), level) ==> level == (255 * fraction(v).numerator) / (fraction(
            v,
        ).denominator as int)
}

impl RgbColour {
    /// The flat gray with `level` on every channel.
    pub fn gray(level: u8) -> (colour: RgbColour)
        ensures
            colour == (RgbColour { r: level, g: level, b: level }),
    {
        RgbColour { r: level, g: level, b: level }
    }
}

/// The centres of the three bumps of the rainbow map.
pub fn trcm_centres() -> (centres: (NormalizedValue, NormalizedValue, NormalizedValue))
    ensures
        centres == spec_trcm_centres(),
        centres.0.in_unit_interval(),
        centres.1.in_unit_interval(),
        centres.2.in_unit_interval(),
{
    (
        NormalizedValue { numerator: 3, denominator: 4 },
        NormalizedValue { numerator: 1, denominator: 2 },
        NormalizedValue { numerator: 1, denominator: 5 },
    )
}

impl ColourMaps {
    /// Maps `value` to a colour. `bump(value, centre)` is the level, on the
    /// scale of a channel, of the bump centred at `centre`; `ramp(value)` is
    /// the level of the gray ramp. Levels outside `0..=255` are cut, never
    /// wrapped.
    pub fn colour_map<V: Copy, B: Fn(V, NormalizedValue) -> i64, R: Fn(V) -> i64>(
        self,
        value: V,
        bump: B,
        ramp: R,
    ) -> (colour: RgbColour)
        requires
            self == ColourMaps::Trcm ==> {
                &&& call_requires(bump, (value, spec_trcm_centres().0))
                &&& call_requires(bump, (value, spec_trcm_centres().1))
                &&& call_requires(bump, (value, spec_trcm_centres().2))
            },
            self == ColourMaps::GrayScale ==> call_requires(ramp, (value,)),
        ensures
            is_mapped(self, value, bump, ramp, colour),
    {
        match self {
            ColourMaps::Trcm => {
                let centres = trcm_centres();
                let red = bump(value, centres.0);
                let green = bump(value, centres.1);
                let blue = bump(value, centres.2);
                RgbColour {
                    r: clamp_channel(red),
                    g: clamp_channel(green),
                    b: clamp_channel(blue),
                }
            },
            ColourMaps::GrayScale => {
                let level = ramp(value);
                RgbColour::gray(clamp_channel(level))
            },
        }
    }
}

/// The colour of an orbit that never came near a tested root.
pub fn not_converged() -> (colour: RgbColour)
    ensures
        colour == spec_not_converged(),
{
    RgbColour { r: 10, g: 10, b: 15 }
}

/// The colour of the basin of root number `root`.
pub fn basin_colour(root: usize) -> (colour: RgbColour)
    ensures
        colour == spec_basin_colour(root as nat),
{
    match root {
        0 => RgbColour { r: 173, g: 133, b: 186 },
        1 => RgbColour { r: 116, g: 161, b: 142 },
        _ => RgbColour { r: 114, g: 76, b: 52 },
    }
}

/// Cuts a channel level to `0..=255`: levels below the range become 0, levels
/// above it 255, and no level wraps around.
pub fn clamp_channel(level: i64) -> (channel: u8)
    ensures
        channel as int == spec_clamp_channel(level as int),
{
    if level < 0 {
        0
    } else if level > 255 {
        255
    } else {
        level as u8
    }
}

/// Cutting keeps the order of levels, and keeps a level of the range as it
/// is: the lowest level of the range gives 0 and the highest gives 255.
pub proof fn lemma_clamp_monotone(lower: int, higher: int)
    requires
        lower <= higher,
    ensures
        spec_clamp_channel(lower) <= spec_clamp_channel(higher),
        0 <= spec_clamp_channel(lower) <= 255,
        0 <= lower <= 255 ==> spec_clamp_channel(lower) == lower,
{
}

/// With kernels that behave as functions the colour is determined. Mapping
/// the same value twice therefore gives the same colour.
pub proof fn lemma_colour_determined<V, B: Fn(V, NormalizedValue) -> i64, R: Fn(V) -> i64>(
    map: ColourMaps,
    value: V,
    bump: B,
    ramp: R,
    bump_level: spec_fn(V, NormalizedValue) -> i64,
    ramp_level: spec_fn(V) -> i64,
    colour: RgbColour,
)
    requires
        computes2(bump, bump_level),
        computes(ramp, ramp_level),
        is_mapped(map, value, bump, ramp, colour),
    ensures
        colour == mapped_colour(map, value, bump_level, ramp_level),
{
}

/// The gray map rises with its ramp: of two values, the one with the lower
/// level has no channel above the other's. A level of 0 gives black, and a
/// level of 255 gives white.
pub proof fn lemma_gray_scale_monotone<V, B: Fn(V, NormalizedValue) -> i64, R: Fn(V) -> i64>(
    bump: B,
    ramp: R,
    level: spec_fn(V) -> i64,
    lower: V,
    higher: V,
    lower_colour: RgbColour,
    higher_colour: RgbColour,
)
    requires
        computes(ramp, level),
        level(lower) <= level(higher),
        is_mapped(ColourMaps::GrayScale, lower, bump, ramp, lower_colour),
        is_mapped(ColourMaps::GrayScale, higher, bump, ramp, higher_colour),
    ensures
        lower_colour.r <= higher_colour.r,
        lower_colour.g <= higher_colour.g,
        lower_colour.b <= higher_colour.b,
        level(lower) == 0 ==> lower_colour == (RgbColour { r: 0, g: 0, b: 0 }),
        level(higher) == 255 ==> higher_colour == (RgbColour { r: 255, g: 255, b: 255 }),
{
}

/// Under exact arithmetic the gray map runs from black at zero to white at
/// one and never falls in between: of two values between zero and one, the
/// lower has no channel above the higher's.
pub proof fn lemma_gray_scale_exact<V, B: Fn(V, NormalizedValue) -> i64, R: Fn(V) -> i64>(
    bump: B,
    ramp: R,
    fraction: spec_fn(V) -> NormalizedValue,
    lower: V,
    higher: V,
    lower_colour: RgbColour,
    higher_colour: RgbColour,
)
    requires
        exact_ramp(ramp, fraction),
        fraction(lower).in_unit_interval(),
        fraction(higher).in_unit_interval(),
        fraction(lower).numerator * fraction(higher).denominator <= fraction(higher).numerator
            * fraction(lower).denominator,
        is_mapped(ColourMaps::GrayScale, lower, bump, ramp, lower_colour),
        is_mapped(ColourMaps::GrayScale, higher, bump, ramp, higher_colour),
    ensures
        lower_colour.r <= higher_colour.r,
        lower_colour.g <= higher_colour.g,
        lower_colour.b <= higher_colour.b,
        fraction(lower).numerator == 0 ==> lower_colour == (RgbColour { r: 0, g: 0, b: 0 }),
        fraction(higher).numerator == fraction(higher).denominator ==> higher_colour == (
        RgbColour { r: 255, g: 255, b: 255 }),
{
    let n1 = fraction(lower).numerator as int;
    let d1 = fraction(lower).denominator as int;
    let n2 = fraction(higher).numerator as int;
    let d2 = fraction(higher).denominator as int;
    let q1 = (255 * n1) / d1;
    let q2 = (255 * n2) / d2;
    lemma_fundamental_div_mod(255 * n1, d1);
    lemma_mod_pos_bound(255 * n1, d1);
    lemma_fundamental_div_mod(255 * n2, d2);
    lemma_mod_pos_bound(255 * n2, d2);
    assert(0 <= q1 <= q2 <= 255) by (nonlinear_arith)
        requires
            0 < d1,
            0 < d2,
            0 <= n1 <= d1,
            0 <= n2 <= d2,
            n1 * d2 <= n2 * d1,
            255 * n1 == d1 * q1 + (255 * n1) % d1,
            0 <= (255 * n1) % d1 < d1,
            255 * n2 == d2 * q2 + (255 * n2) % d2,
            0 <= (255 * n2) % d2 < d2,
    ;
    if n1 == 0 {
        assert(q1 == 0) by (nonlinear_arith)
            requires
                0 < d1,
                0 == d1 * q1 + (255 * n1) % d1,
                0 <= (255 * n1) % d1 < d1,
        ;
    }
    if n2 == d2 {
        assert(q2 == 255) by (nonlinear_arith)
            requires
                0 < d2,
                255 * d2 == d2 * q2 + (255 * n2) % d2,
                0 <= (255 * n2) % d2 < d2,
        ;
    }
}

} // verus!
