//! Packing of a red, green and blue component into one colour value.

use vstd::prelude::*;

verus! {

/// The colour value of three components: red in bits 16 to 23, green in bits
/// 8 to 15, blue in bits 0 to 7.
pub open spec fn rgb(red: u8, green: u8, blue: u8) -> u32 {
    (red as u32) << 16 | (green as u32) << 8 | (blue as u32)
}

/// Packs three components with `serenity::utils::Colour::from_rgb` and
/// returns the integer the resulting `Colour` holds.
///
/// Trusted: the contract restates the one expression that is the body of
/// `from_rgb`; Verus does not see that body.
#[verifier::external_body]
pub(crate) fn colour_from_rgb(red: u8, green: u8, blue: u8) -> (value: u32)
    ensures
        value == rgb(red, green, blue),
{
    serenity::utils::Colour::from_rgb(red, green, blue).0
}

} // verus!
