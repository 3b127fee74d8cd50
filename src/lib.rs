//! Setting a solid lighting colour on keyboards that run Vial firmware with
//! VialRGB support: colour arithmetic, message framing, transport retries,
//! device discovery and the lighting protocol, each as verified logic that
//! the surrounding program drives with real HID I/O.
pub mod color;
pub mod error;
pub mod protocol;
pub mod transport;
pub mod discovery;
pub mod vialrgb;
pub mod config;
pub mod command;
