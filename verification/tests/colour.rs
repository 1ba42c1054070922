use fractory_rs::colour::{basin_colour, clamp_channel, not_converged, trcm_centres};
use fractory_rs::{ColourMaps, NormalizedValue, RgbColour};

/// Level of the Gaussian bump of variance 0.0625 centred at `centre`.
fn bump(value: f64, centre: NormalizedValue) -> i64 {
    let centre = centre.numerator as f64 / centre.denominator as f64;
    (255.0 * (-0.5 * (value - centre).powf(2.0) / 0.0625).exp()) as i64
}

/// Level of the gray ramp.
fn ramp(value: f64) -> i64 {
    (255.0 * value) as i64
}

fn rgb(r: u8, g: u8, b: u8) -> RgbColour {
    RgbColour { r, g, b }
}

#[test]
fn basin_palette_has_three_colours() {
    assert_eq!(basin_colour(0), rgb(173, 133, 186));
    assert_eq!(basin_colour(1), rgb(116, 161, 142));
    assert_eq!(basin_colour(2), rgb(114, 76, 52));
    assert_eq!(basin_colour(7), rgb(114, 76, 52));
}

#[test]
fn unconverged_orbits_are_near_black() {
    assert_eq!(not_converged(), rgb(10, 10, 15));
}

#[test]
fn channel_levels_are_cut_not_wrapped() {
    assert_eq!(clamp_channel(-1), 0);
    assert_eq!(clamp_channel(0), 0);
    assert_eq!(clamp_channel(17), 17);
    assert_eq!(clamp_channel(255), 255);
    assert_eq!(clamp_channel(256), 255);
    assert_eq!(clamp_channel(511), 255);
    assert_eq!(clamp_channel(i64::MAX), 255);
    assert_eq!(clamp_channel(i64::MIN), 0);
}

#[test]
fn gray_repeats_its_level() {
    assert_eq!(RgbColour::gray(0), rgb(0, 0, 0));
    assert_eq!(RgbColour::gray(200), rgb(200, 200, 200));
}

#[test]
fn rainbow_centres_are_three_quarters_half_and_fifth() {
    let (red, green, blue) = trcm_centres();
    assert_eq!((red.numerator, red.denominator), (3, 4));
    assert_eq!((green.numerator, green.denominator), (1, 2));
    assert_eq!((blue.numerator, blue.denominator), (1, 5));
}

#[test]
fn gray_scale_ends_in_black_and_white() {
    assert_eq!(ColourMaps::GrayScale.colour_map(0.0, bump, ramp), rgb(0, 0, 0));
    assert_eq!(ColourMaps::GrayScale.colour_map(1.0, bump, ramp), rgb(255, 255, 255));
}

#[test]
fn gray_scale_takes_the_floor() {
    assert_eq!(ColourMaps::GrayScale.colour_map(0.5, bump, ramp), rgb(127, 127, 127));
    assert_eq!(ColourMaps::GrayScale.colour_map(0.2, bump, ramp), rgb(51, 51, 51));
    assert_eq!(ColourMaps::GrayScale.colour_map(0.67, bump, ramp), rgb(170, 170, 170));
    assert_eq!(ColourMaps::GrayScale.colour_map(0.99, bump, ramp), rgb(252, 252, 252));
}

#[test]
fn gray_scale_never_falls() {
    let mut last = 0u8;
    for step in 0..=1000u32 {
        let colour = ColourMaps::GrayScale.colour_map(step as f64 / 1000.0, bump, ramp);
        assert_eq!(colour.r, colour.g);
        assert_eq!(colour.g, colour.b);
        assert!(colour.r >= last);
        last = colour.r;
    }
    assert_eq!(last, 255);
}

#[test]
fn gray_scale_cuts_levels_outside_the_range() {
    assert_eq!(ColourMaps::GrayScale.colour_map(2.0, bump, ramp), rgb(255, 255, 255));
    assert_eq!(ColourMaps::GrayScale.colour_map(-1.0, bump, ramp), rgb(0, 0, 0));
    assert_eq!(ColourMaps::GrayScale.colour_map(f64::NAN, bump, ramp), rgb(0, 0, 0));
}

#[test]
fn rainbow_peaks_at_each_centre() {
    let at_red = ColourMaps::Trcm.colour_map(0.75, bump, ramp);
    assert_eq!(at_red.r, 255);
    assert_eq!(at_red, rgb(255, 154, 22));
    let at_green = ColourMaps::Trcm.colour_map(0.5, bump, ramp);
    assert_eq!(at_green, rgb(154, 255, 124));
    let at_blue = ColourMaps::Trcm.colour_map(0.2, bump, ramp);
    assert_eq!(at_blue, rgb(22, 124, 255));
}

#[test]
fn rainbow_at_the_ends_of_the_range() {
    // Red is almost gone at 0.0. At 1.0 the value lies one standard
    // deviation above the red centre, so red keeps 255 * exp(-0.5).
    assert_eq!(ColourMaps::Trcm.colour_map(0.0, bump, ramp), rgb(2, 34, 185));
    assert_eq!(ColourMaps::Trcm.colour_map(1.0, bump, ramp), rgb(154, 34, 1));
}

#[test]
fn rainbow_asks_the_bump_at_its_three_centres() {
    // A kernel that answers with the centre it is asked at shows which
    // centre feeds which channel.
    let echo = |_: u8, centre: NormalizedValue| (centre.numerator * 10 + centre.denominator) as i64;
    let colour = ColourMaps::Trcm.colour_map(0u8, echo, |_: u8| 0);
    assert_eq!(colour, rgb(34, 12, 15));
}

#[test]
fn rainbow_cuts_each_channel_on_its_own() {
    let wild = |_: u8, centre: NormalizedValue| match centre.denominator {
        4 => 300,
        2 => -7,
        _ => 255,
    };
    assert_eq!(ColourMaps::Trcm.colour_map(0u8, wild, |_: u8| 0), rgb(255, 0, 255));
}
