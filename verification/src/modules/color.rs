//! Colours, and their way from linear light to eight bits a channel.
use crate::modules::arithmetic::{is_product, is_square_root, Arithmetic};
use crate::modules::scalar::Scalar;
use crate::modules::vec3::Vec3;
use vstd::prelude::*;

verus! {

/// A colour: red, green and blue in `x`, `y` and `z`, in linear light.
pub type Color = Vec3;

/// The pattern of 0.999: the highest value a channel keeps before it is
/// scaled, so that the scaled value stays below 256.
pub const CHANNEL_TOP_BITS: u64 = 0x3FEF_F7CE_D916_872B;

/// The pattern of 256.0.
pub const CHANNEL_SCALE_BITS: u64 = 0x4070_0000_0000_0000;

/// A colour as it is written out: eight bits a channel.
#[derive(Clone, Copy, Debug, PartialEq, Eq, Structural)]
pub struct Rgb {
    pub r: u8,
    pub g: u8,
    pub b: u8,
}

/// `g` is the gamma-2 value of a linear component: its square root where
/// the component is above zero, positive zero otherwise (also for a NaN).
pub open spec fn is_gamma<A: Arithmetic>(ar: &A, linear: Scalar, g: Scalar) -> bool {
    if (Scalar { bits: 0 }).below(linear) {
        is_square_root(ar, linear, g)
    } else {
        g.bits == 0
    }
}

/// A value held to `[0, 0.999]`. A NaN is left as it is.
pub open spec fn clamped(g: Scalar) -> Scalar {
    if g.below(Scalar { bits: 0 }) {
        Scalar { bits: 0 }
    } else if (Scalar { bits: CHANNEL_TOP_BITS }).below(g) {
        Scalar { bits: CHANNEL_TOP_BITS }
    } else {
        g
    }
}

/// The byte that a scaled channel is written as: its integer part, at most
/// 255. A NaN and anything negative give 0.
pub open spec fn quantized(scaled: Scalar) -> int {
    if scaled.truncated() > 255 {
        255
    } else {
        scaled.truncated()
    }
}

/// `byte` is the written value of a linear component: gamma, then the
/// clamp, then 256 times that, cut to a byte.
pub open spec fn is_channel<A: Arithmetic>(ar: &A, linear: Scalar, byte: u8) -> bool {
    exists|g: Scalar, scaled: Scalar|
        #[trigger] is_gamma(ar, linear, g) && is_product(
            ar,
            Scalar { bits: CHANNEL_SCALE_BITS },
            clamped(g),
            scaled,
        ) && byte == #[trigger] quantized(scaled)
}

/// A linear colour component in gamma space, by the gamma-2 transform.
pub fn linear_to_gamma<A: Arithmetic>(ar: &A, linear_component: Scalar) -> (g: Scalar)
    ensures
        is_gamma(ar, linear_component, g),
{
    if linear_component.gt(Scalar::zero()) {
        ar.square_root(linear_component)
    } else {
        Scalar::zero()
    }
}

/// A gamma-space component held to `[0, 0.999]`.
pub fn clamp_channel(g: Scalar) -> (r: Scalar)
    ensures
        r == clamped(g),
{
    if g.lt(Scalar::zero()) {
        Scalar::zero()
    } else if g.gt(Scalar::from_bits(CHANNEL_TOP_BITS)) {
        Scalar::from_bits(CHANNEL_TOP_BITS)
    } else {
        g
    }
}

/// The byte for a channel already scaled to `[0, 256)`.
pub fn quantize(scaled: Scalar) -> (byte: u8)
    ensures
        byte == quantized(scaled),
{
    let whole: u32 = scaled.to_u32();
    if whole > 255 {
        255
    } else {
        whole as u8
    }
}

/// One channel from linear light to its byte.
pub fn write_channel<A: Arithmetic>(ar: &A, linear: Scalar) -> (byte: u8)
    ensures
        is_channel(ar, linear, byte),
{
    let g = linear_to_gamma(ar, linear);
    let scaled = ar.product(Scalar::from_bits(CHANNEL_SCALE_BITS), clamp_channel(g));
    quantize(scaled)
}

/// A linear colour as it is written out: every channel through gamma,
/// clamp and scale.
pub fn write_color<A: Arithmetic>(ar: &A, pixel_color: Color) -> (rgb: Rgb)
    ensures
        is_channel(ar, pixel_color.x, rgb.r),
        is_channel(ar, pixel_color.y, rgb.g),
        is_channel(ar, pixel_color.z, rgb.b),
{
    let r = write_channel(ar, pixel_color.x());
    let g = write_channel(ar, pixel_color.y());
    let b = write_channel(ar, pixel_color.z());
    Rgb { r, g, b }
}

} // verus!
