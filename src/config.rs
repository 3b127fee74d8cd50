//! The user's saved settings: an optional white point. Reading the file is
//! the caller's part; what a stored triple means is decided here.
use vstd::prelude::*;

use crate::color::WhitePoint;

verus! {

/// Saved settings.
#[derive(Debug, Clone, Copy, PartialEq, Eq)]
pub struct Config {
    pub white_point: Option<WhitePoint>,
}

impl Default for Config {
    fn default() -> (r: Self)
        ensures
            r.white_point is None,
    {
        Config { white_point: None }
    }
}

impl Config {
    /// The settings for a stored white-point triple, and whether the triple
    /// was ignored because one of its channels is zero.
    pub fn from_white_point(rgb: Option<[u8; 3]>) -> (r: (Config, bool))
        ensures
            match rgb {
                Some(t) => if t[0] != 0 && t[1] != 0 && t[2] != 0 {
                    r.0.white_point == Some(WhitePoint(t)) && !r.1
                } else {
                    r.0.white_point is None && r.1
                },
                None => r.0.white_point is None && !r.1,
            },
    {
        match rgb {
            Some(t) => match WhitePoint::new(t) {
                Some(w) => (Config { white_point: Some(w) }, false),
                None => (Config { white_point: None }, true),
            },
            None => (Config { white_point: None }, false),
        }
    }
}

} // verus!
