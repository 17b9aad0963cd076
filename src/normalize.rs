use vstd::prelude::*;
use crate::raster::RgbPixel;

verus! {

/// The smallest value an 8-bit channel can take.
pub const LEVEL_MIN: u8 = 0;

/// The largest value an 8-bit channel can take.
pub const LEVEL_MAX: u8 = 255;

/// A value of the unit interval held exactly, as the fraction `num / den`.
#[derive(Clone, Copy, Debug, PartialEq, Eq, Structural)]
pub struct Normalized {
    pub num: u8,
    pub den: u8,
}

/// Min-max scaling of a byte against the 8-bit range: `b / 255`.
pub open spec fn normalize(b: u8) -> Normalized {
    Normalized { num: b, den: 255 }
}

/// The nearest integer to `255 * num / den`, halves rounded up.
pub open spec fn rescale(num: int, den: int) -> int {
    (510 * num + den) / (2 * den)
}

/// Scales one grayscale byte into the unit interval.
pub fn min_max_scaling_8g(pixel: u8) -> (r: Normalized)
    ensures
        r == normalize(pixel),
{
    let max: u8 = LEVEL_MAX;
    let min: u8 = LEVEL_MIN;
    let diff: u8 = max - min;
    Normalized { num: pixel - min, den: diff }
}

/// Scales each channel of an RGB pixel into the unit interval, giving
/// `[red, green, blue]`.
pub fn min_max_scaling_8c(pixel: RgbPixel) -> (r: Vec<Normalized>)
    ensures
        r@ == seq![normalize(pixel.r), normalize(pixel.g), normalize(pixel.b)],
{
    let red = min_max_scaling_8g(pixel.r);
    let green = min_max_scaling_8g(pixel.g);
    let blue = min_max_scaling_8g(pixel.b);
    let rgb: Vec<Normalized> = vec![red, green, blue];
    assert(rgb@ =~= seq![normalize(pixel.r), normalize(pixel.g), normalize(pixel.b)]);
    rgb
}

/// Every byte `b` scales to the fraction `b / 255`, which lies in the unit
/// interval; 0 scales to 0 and 255 scales to 1.
pub proof fn normalize_law(b: u8)
    ensures
        normalize(b).den == 255,
        normalize(b).num == b,
        normalize(b).num <= normalize(b).den,
        normalize(0).num == 0,
        normalize(255).num == normalize(255).den,
{
}

/// Any value closer than `1/510` to `b / 255`, rescaled by 255 and rounded,
/// gives back `b`.
pub proof fn rescale_within_tolerance_law(num: int, den: int, b: u8)
    requires
        den > 0,
        -den < 510 * num - 2 * b * den < den,
    ensures
        rescale(num, den) == b,
{
    let x = 510 * num + den;
    let d = 2 * den;
    assert(b * d <= x < b * d + d) by (nonlinear_arith)
        requires
            x == 510 * num + den,
            d == 2 * den,
            -den < 510 * num - 2 * b * den < den,
    ;
    assert(x / d == b) by (nonlinear_arith)
        requires
            d > 0,
            b * d <= x < b * d + d,
    ;
}

/// Scaling a byte into the unit interval, then rescaling by 255 and rounding,
/// gives back the byte.
pub proof fn round_trip_law(b: u8)
    ensures
        rescale(normalize(b).num as int, normalize(b).den as int) == b,
{
    rescale_within_tolerance_law(b as int, 255, b);
}

} // verus!
