//! From the user's colour to the HSV triple sent to the keyboard.
use vstd::prelude::*;

use crate::color::{
    hex_rgb_of,
    hsv_of,
    parse_hex_rgb,
    rgb_to_hsv,
    scale_channel,
    ColorError,
    WhitePoint,
};

verus! {

/// A white point given on the command line wins over the saved one.
pub fn effective_white_point(given: Option<WhitePoint>, saved: Option<WhitePoint>) -> (r: Option<
    WhitePoint,
>)
    ensures
        r == (if given is Some {
            given
        } else {
            saved
        }),
{
    match given {
        Some(w) => Some(w),
        None => saved,
    }
}

/// The HSV form of the colour `(r, g, b)` after white-point correction,
/// with the value replaced by `brightness` when one is given.
pub open spec fn target_hsv_of(
    rgb: (u8, u8, u8),
    white_point: Option<WhitePoint>,
    brightness: Option<u8>,
) -> (nat, nat, nat) {
    let (r, g, b) = match white_point {
        Some(w) => (
            scale_channel(rgb.0, w.0[0]) as u8,
            scale_channel(rgb.1, w.0[1]) as u8,
            scale_channel(rgb.2, w.0[2]) as u8,
        ),
        None => rgb,
    };
    let hsv = hsv_of(r, g, b);
    match brightness {
        Some(v) => (hsv.0, hsv.1, v as nat),
        None => hsv,
    }
}

/// Parses the colour `RRGGBB` or `#RRGGBB`, corrects it by the white point
/// if there is one, converts it to HSV and applies the brightness override.
pub fn target_hsv(color: &str, white_point: Option<WhitePoint>, brightness: Option<u8>) -> (r:
    Result<(u8, u8, u8), ColorError>)
    ensures
        match hex_rgb_of(color@) {
            Ok(rgb) => r matches Ok(hsv) && (hsv.0 as nat, hsv.1 as nat, hsv.2 as nat)
                == target_hsv_of(rgb, white_point, brightness),
            Err(e) => r == Err::<(u8, u8, u8), ColorError>(e),
        },
{
    let (r, g, b) = match parse_hex_rgb(color) {
        Ok(rgb) => rgb,
        Err(e) => return Err(e),
    };
    let (r, g, b) = match white_point {
        Some(w) => w.apply(r, g, b),
        None => (r, g, b),
    };
    let (h, s, v) = rgb_to_hsv(r, g, b);
    let v = match brightness {
        Some(level) => level,
        None => v,
    };
    Ok((h, s, v))
}

} // verus!
