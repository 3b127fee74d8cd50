//! The wire format: fixed-size frames, the requests of the lighting protocol
//! and the checks applied to the device's replies.
use vstd::prelude::*;

use crate::error::DeviceError;

verus! {

/// Payload bytes in one message.
pub const MSG_LEN: usize = 32;

/// Bytes written per message: a report id of 0, then the payload.
pub const FRAME_LEN: usize = 33;

/// Usage page of the raw HID interface.
pub const RAW_HID_USAGE_PAGE: u16 = 0xFF60;

/// Usage of the raw HID interface.
pub const RAW_HID_USAGE: u16 = 0x61;

pub const CMD_VIA_LIGHTING_SET_VALUE: u8 = 0x07;

pub const CMD_VIA_LIGHTING_GET_VALUE: u8 = 0x08;

pub const CMD_VIA_LIGHTING_SAVE: u8 = 0x09;

pub const VIALRGB_GET_INFO: u8 = 0x40;

pub const VIALRGB_SET_MODE: u8 = 0x41;

pub const VIALRGB_GET_SUPPORTED: u8 = 0x42;

/// The solid-colour lighting effect.
pub const VIALRGB_EFFECT_SOLID_COLOR: u16 = 2;

/// Effect speed sent along with a mode change.
pub const DEFAULT_EFFECT_SPEED: u8 = 128;

/// Words in an effect-list reply that mark its end.
pub const EFFECT_LIST_END: u16 = 0xFFFF;

/// Attempts for a discovery probe.
pub const PROBE_ATTEMPTS: u32 = 3;

/// Attempts for a request of the lighting protocol.
pub const COMMAND_ATTEMPTS: u32 = 20;

/// Attempts for one page of the effect list.
pub const PAGE_ATTEMPTS: u32 = 3;

/// A message to send and how many times to try it.
#[derive(Debug, Clone, PartialEq, Eq)]
pub struct Request {
    pub message: Vec<u8>,
    pub attempts: u32,
}

/// The frame that carries `msg`: a zero report id, the message, then zeros
/// up to the full frame length.
pub open spec fn frame_of(msg: Seq<u8>) -> Seq<u8> {
    seq![0u8] + msg + Seq::new((MSG_LEN - msg.len()) as nat, |i: int| 0u8)
}

/// Pads a message into a frame, or refuses one longer than a payload.
pub fn frame_message(msg: &[u8]) -> (r: Result<Vec<u8>, DeviceError>)
    ensures
        msg@.len() <= MSG_LEN ==> (r matches Ok(f) && f@ == frame_of(msg@)),
        msg@.len() > MSG_LEN ==> r == Err::<Vec<u8>, DeviceError>(
            DeviceError::MessageTooLong { len: msg@.len() as usize },
        ),
{
    if msg.len() > MSG_LEN {
        return Err(DeviceError::MessageTooLong { len: msg.len() });
    }
    let mut frame: Vec<u8> = Vec::new();
    frame.push(0);
    let mut i: usize = 0;
    while i < msg.len()
        invariant
            i <= msg@.len() <= MSG_LEN,
            frame@ == seq![0u8] + msg@.take(i as int),
        decreases msg@.len() - i,
    {
        frame.push(msg[i]);
        i = i + 1;
        assert(frame@ =~= seq![0u8] + msg@.take(i as int));
    }
    while frame.len() < FRAME_LEN
        invariant
            msg@.len() <= MSG_LEN,
            msg@.len() + 1 <= frame@.len() <= FRAME_LEN,
            frame@ == seq![0u8] + msg@ + Seq::new(
                (frame@.len() - 1 - msg@.len()) as nat,
                |i: int| 0u8,
            ),
        decreases FRAME_LEN - frame@.len(),
    {
        frame.push(0);
        assert(frame@ =~= seq![0u8] + msg@ + Seq::new(
            (frame@.len() - 1 - msg@.len()) as nat,
            |i: int| 0u8,
        ));
    }
    assert(msg@.take(msg@.len() as int) =~= msg@);
    Ok(frame)
}

/// The little-endian 16-bit word at `reply[at..at + 2]`.
pub open spec fn le_u16(reply: Seq<u8>, at: int) -> u16 {
    (reply[at] as int + 256 * reply[at + 1] as int) as u16
}

/// The little-endian 32-bit word at `reply[0..4]`.
pub open spec fn le_u32_head(reply: Seq<u8>) -> int {
    reply[0] as int + 256 * reply[1] as int + 65536 * reply[2] as int + 16777216
        * reply[3] as int
}

/// The capability probe sent to a raw HID endpoint.
pub open spec fn rawhid_probe_message() -> Seq<u8> {
    seq![0x01u8]
}

/// The probe asking for the Vial protocol information.
pub open spec fn vial_probe_message() -> Seq<u8> {
    seq![0xFEu8, 0x00u8]
}

/// A raw HID endpoint answers its capability probe with `01 00 09`.
pub open spec fn rawhid_reply_ok(reply: Seq<u8>) -> bool {
    reply[0] == 0x01 && reply[1] == 0x00 && reply[2] == 0x09
}

/// Vial protocol version 4 or later, with bit 0 of byte 12 (lighting
/// support) set.
pub open spec fn vialrgb_reply_ok(reply: Seq<u8>) -> bool {
    le_u32_head(reply) >= 4 && reply[12] % 2 == 1
}

pub fn rawhid_probe() -> (r: Request)
    ensures
        r.message@ == rawhid_probe_message(),
        r.attempts == PROBE_ATTEMPTS,
{
    let mut message: Vec<u8> = Vec::new();
    message.push(0x01);
    assert(message@ =~= rawhid_probe_message());
    Request { message, attempts: PROBE_ATTEMPTS }
}

pub fn vial_probe() -> (r: Request)
    ensures
        r.message@ == vial_probe_message(),
        r.attempts == PROBE_ATTEMPTS,
{
    let mut message: Vec<u8> = Vec::new();
    message.push(0xFE);
    message.push(0x00);
    assert(message@ =~= vial_probe_message());
    Request { message, attempts: PROBE_ATTEMPTS }
}

/// Whether a reply to the capability probe carries the raw HID signature.
pub fn is_rawhid_reply(reply: &[u8; 32]) -> (r: bool)
    ensures
        r == rawhid_reply_ok(reply@),
{
    reply[0] == 0x01 && reply[1] == 0x00 && reply[2] == 0x09
}

/// Whether a reply to the Vial information probe shows a recent enough
/// protocol with lighting support.
pub fn is_vialrgb_reply(reply: &[u8; 32]) -> (r: bool)
    ensures
        r == vialrgb_reply_ok(reply@),
{
    let version: u64 = reply[0] as u64 + 256 * reply[1] as u64 + 65536 * reply[2] as u64
        + 16777216 * reply[3] as u64;
    version >= 4 && reply[12] % 2 == 1
}

} // verus!
