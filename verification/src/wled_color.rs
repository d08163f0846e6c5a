//! The colour models a segment can have, and one sample of each.

use crate::error::WledControllerError;
use vstd::prelude::*;

verus! {

/// The colour model of a light: which channels one pixel takes.
#[derive(Debug, Copy, Clone, PartialEq, Eq, Structural)]
pub enum WledColorType {
    /// Red, green and blue.
    RGB,
    /// Red, green, blue and white.
    RGBW,
    /// White only.
    W,
}

/// What a capability code decodes to.
///
/// The code that a controller reports is a bitmap.  Only its two low bits are
/// read here: bit 0 says that the light has colour, bit 1 that it has a white
/// channel.  All higher bits are ignored on purpose.  A code with both low bits
/// clear names no light that can be driven and is refused; the error holds
/// those two bits, which are then zero.
pub open spec fn capability_of(json_type: u8) -> Result<WledColorType, WledControllerError> {
    if json_type % 4 == 1 {
        Ok(WledColorType::RGB)
    } else if json_type % 4 == 2 {
        Ok(WledColorType::W)
    } else if json_type % 4 == 3 {
        Ok(WledColorType::RGBW)
    } else {
        Err(WledControllerError::InvalidCapability(0))
    }
}

impl WledColorType {
    /// The number of channels of one pixel.
    pub open spec fn channel_count(self) -> nat {
        match self {
            WledColorType::RGB => 3,
            WledColorType::RGBW => 4,
            WledColorType::W => 1,
        }
    }

    /// Decodes the capability code that a controller reports for a segment.
    pub fn try_new_from_json_type(json_type: u8) -> (r: Result<WledColorType, WledControllerError>)
        ensures
            r == capability_of(json_type),
    {
        match json_type % 4 {
            1 => Ok(WledColorType::RGB),
            2 => Ok(WledColorType::W),
            3 => Ok(WledColorType::RGBW),
            _ => Err(WledControllerError::InvalidCapability(0)),
        }
    }
}

/// One colour sample: the channel values of one pixel.
#[derive(Debug, Copy, Clone, PartialEq, Eq)]
pub enum WledColor {
    /// Red, green, blue.
    RGB([u8; 3]),
    /// Red, green, blue, white.
    RGBW([u8; 4]),
    /// White.
    W(u8),
}

impl WledColor {
    /// The colour model that this sample is of.
    pub open spec fn color_type(self) -> WledColorType {
        match self {
            WledColor::RGB(_) => WledColorType::RGB,
            WledColor::RGBW(_) => WledColorType::RGBW,
            WledColor::W(_) => WledColorType::W,
        }
    }

    /// The channel values, in the order of the variant's name.
    pub open spec fn channels(self) -> Seq<u8> {
        match self {
            WledColor::RGB(c) => c@,
            WledColor::RGBW(c) => c@,
            WledColor::W(w) => seq![w],
        }
    }

    /// The sample of the given colour model with every channel off.
    pub open spec fn dark(color_type: WledColorType) -> WledColor {
        match color_type {
            WledColorType::RGB => WledColor::RGB([0u8, 0u8, 0u8]),
            WledColorType::RGBW => WledColor::RGBW([0u8, 0u8, 0u8, 0u8]),
            WledColorType::W => WledColor::W(0u8),
        }
    }

    /// The sample of the given colour model with every channel off.
    pub fn default_of_type(color_type: WledColorType) -> (c: WledColor)
        ensures
            c == WledColor::dark(color_type),
            c.color_type() == color_type,
            c.channels() == Seq::new(color_type.channel_count(), |i: int| 0u8),
    {
        match color_type {
            WledColorType::RGB => WledColor::RGB([0u8, 0u8, 0u8]),
            WledColorType::RGBW => WledColor::RGBW([0u8, 0u8, 0u8, 0u8]),
            WledColorType::W => WledColor::W(0u8),
        }
    }
}

impl Default for WledColor {
    /// A pixel that is off, in red, green and blue.
    fn default() -> (c: WledColor)
        ensures
            c == WledColor::dark(WledColorType::RGB),
    {
        WledColor::RGB([0u8, 0u8, 0u8])
    }
}

/// Two codes that agree in their two low bits decode alike.
pub proof fn lemma_capability_reads_low_bits(a: u8, b: u8)
    requires
        a % 4 == b % 4,
    ensures
        capability_of(a) == capability_of(b),
{
}

/// Decoding is periodic: a code and the code four above it decode alike.
pub proof fn lemma_capability_period(b: u8)
    requires
        b + 4 <= u8::MAX,
    ensures
        capability_of(b) == capability_of((b + 4) as u8),
{
}

/// Decoding fails exactly for the codes that are multiples of four.
pub proof fn lemma_capability_fails_iff_multiple_of_four(b: u8)
    ensures
        capability_of(b) is Err <==> b % 4 == 0,
        capability_of(b) is Err ==> capability_of(b) == Err::<WledColorType, WledControllerError>(
            WledControllerError::InvalidCapability(0),
        ),
{
}

} // verus!
