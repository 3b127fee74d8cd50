//! The ways a command against the keyboard can fail.
use vstd::prelude::*;

verus! {

/// Why talking to the keyboard failed.
#[derive(Debug, Clone, PartialEq, Eq)]
pub enum DeviceError {
    /// A message longer than one frame's payload; nothing was sent.
    MessageTooLong { len: usize },
    /// No attached endpoint passed every discovery check.
    NotFound,
    /// Every attempt of an exchange failed; the last I/O error, if any.
    Communication { attempts: u32, last_error: Option<String> },
    /// The lighting protocol version that the device reported is not 1.
    UnsupportedProtocol { version: u16 },
    /// The device does not offer the solid-colour effect.
    UnsupportedEffect,
    /// The effect list never reached its end marker within the round limit.
    TooManyEffects,
}

} // verus!
