//! The pilot link's wire format: 32-byte frames, each a two-byte header,
//! fourteen little-endian 16-bit channel words and a 16-bit checksum.

use parse_rc_ibus::{IbusPacket, ParsingError};
use vstd::prelude::*;

verus! {

/// Bytes in one frame.
pub const FRAME_LEN: usize = 32;

/// Channel words in one frame.
pub const CHANNEL_COUNT: usize = 14;

/// First header byte.
pub const HEADER_0: u8 = 0x20;

/// Second header byte.
pub const HEADER_1: u8 = 0x40;

/// Raw channel value at stick centre.
pub const CHANNEL_CENTER: i32 = 1500;

/// Raw channel distance from centre to full deflection: a centred offset
/// divided by this is the deflection in `[-1, 1]`.
pub const CHANNEL_SPAN: i32 = 500;

/// Index of the channel that carries each axis.
pub const ROLL_CHANNEL: usize = 0;

pub const PITCH_CHANNEL: usize = 1;

pub const YAW_RATE_CHANNEL: usize = 3;

pub const ENABLE_CHANNEL: usize = 5;

pub const ALTITUDE_CHANNEL: usize = 6;

/// Why a frame was not decoded.
#[derive(Clone, Copy, Debug, PartialEq, Eq, Structural)]
pub enum FrameError {
    /// The frame does not start with the header: the stream is misaligned.
    InvalidPacket,
    /// The header is in place but the checksum does not match the content.
    FailsChecksum,
}

/// What the pilot asks for, as decoded from one frame.
///
/// The four axis fields are centred raw offsets: the deflection of an axis
/// in `[-1, 1]` is its field divided by [`CHANNEL_SPAN`].
#[derive(Clone, Copy, Debug, PartialEq, Eq, Structural)]
pub struct PilotCommand {
    pub roll: i32,
    pub pitch: i32,
    pub yaw_rate: i32,
    pub altitude: i32,
    pub controller_enable: bool,
}

/// Sum of the first `n` bytes of `bytes`.
pub open spec fn byte_sum(bytes: Seq<u8>, n: nat) -> nat
    decreases n,
{
    if n == 0 || n > bytes.len() {
        0
    } else {
        byte_sum(bytes, (n - 1) as nat) + bytes[n - 1] as nat
    }
}

/// The frame starts with the two header bytes.
pub open spec fn header_matches(frame: Seq<u8>) -> bool {
    frame.len() >= 2 && frame[0] == HEADER_0 && frame[1] == HEADER_1
}

/// The last two bytes, read little-endian, are `0xFFFF` minus the sum of the
/// thirty bytes before them.
pub open spec fn checksum_matches(frame: Seq<u8>) -> bool {
    frame.len() == FRAME_LEN && 0xFFFF - byte_sum(frame, 30) == frame[30] + 256 * frame[31]
}

/// Channel `k` of a frame: bytes `2 + 2k` (low) and `3 + 2k` (high).
pub open spec fn channel_word(frame: Seq<u8>, k: int) -> int {
    frame[2 + 2 * k] + 256 * frame[3 + 2 * k]
}

/// The fourteen channel words of a frame, in order.
pub open spec fn frame_channels(frame: Seq<u8>) -> Seq<u16> {
    Seq::new(CHANNEL_COUNT as nat, |k: int| channel_word(frame, k) as u16)
}

/// A raw channel value relative to stick centre.
pub open spec fn centered(raw: u16) -> int {
    raw - CHANNEL_CENTER
}

/// The enable switch is on when its deflection is above six tenths of full
/// scale.
pub open spec fn switch_on(raw: u16) -> bool {
    10 * centered(raw) > 6 * CHANNEL_SPAN
}

/// The command that a set of channel words carries.
pub open spec fn command_of(channels: Seq<u16>) -> PilotCommand {
    PilotCommand {
        roll: centered(channels[ROLL_CHANNEL as int]) as i32,
        pitch: centered(channels[PITCH_CHANNEL as int]) as i32,
        yaw_rate: centered(channels[YAW_RATE_CHANNEL as int]) as i32,
        altitude: centered(channels[ALTITUDE_CHANNEL as int]) as i32,
        controller_enable: switch_on(channels[ENABLE_CHANNEL as int]),
    }
}

/// The error of a frame that is not accepted: a header mismatch is reported
/// before a checksum mismatch.
pub open spec fn rejection(frame: Seq<u8>) -> FrameError {
    if !header_matches(frame) {
        FrameError::InvalidPacket
    } else {
        FrameError::FailsChecksum
    }
}

/// What one frame decodes to: the command that its channels carry when
/// header and checksum are both in order, and else its [`rejection`].
pub open spec fn decode_spec(frame: Seq<u8>) -> Result<PilotCommand, FrameError> {
    if header_matches(frame) && checksum_matches(frame) {
        Ok(command_of(frame_channels(frame)))
    } else {
        Err(rejection(frame))
    }
}

/// Calls `parse_rc_ibus::IbusPacket::try_from_bytes` and, on success,
/// `IbusPacket::get_all_channels`.
///
/// Trusted: the parser rejects a frame whose first two bytes are not
/// `0x20 0x40` as an invalid packet; otherwise it rejects one whose last two
/// bytes (low byte first) are not `0xFFFF` minus the sum of the first thirty
/// bytes as failing the checksum; otherwise it returns the fourteen words
/// that follow the header, each low byte first.
#[verifier::external_body]
fn parse_channels(frame: &[u8; 32]) -> (r: Result<[u16; 14], FrameError>)
    ensures
        (r is Ok) == (header_matches(frame@) && checksum_matches(frame@)),
        (r is Ok) ==> (r->Ok_0@ == frame_channels(frame@)),
        (r is Err) ==> (r->Err_0 == rejection(frame@)),
{
    match IbusPacket::try_from_bytes(frame) {
        Ok(packet) => Ok(packet.get_all_channels()),
        Err(ParsingError::InvalidPacket) => Err(FrameError::InvalidPacket),
        Err(ParsingError::FailsChecksum) => Err(FrameError::FailsChecksum),
    }
}

/// The pilot command for a set of channel words: the four axis channels
/// centred, and the enable channel thresholded.
pub fn command_from_channels(channels: &[u16; 14]) -> (command: PilotCommand)
    ensures
        command == command_of(channels@),
{
    PilotCommand {
        roll: center(channels[ROLL_CHANNEL]),
        pitch: center(channels[PITCH_CHANNEL]),
        yaw_rate: center(channels[YAW_RATE_CHANNEL]),
        altitude: center(channels[ALTITUDE_CHANNEL]),
        controller_enable: channels[ENABLE_CHANNEL] > 1800,
    }
}

/// A raw channel value relative to stick centre: `1500` gives `0`, `2000`
/// gives `500` (full positive), `1000` gives `-500` (full negative).
pub fn center(raw: u16) -> (offset: i32)
    ensures
        offset == centered(raw),
{
    let wide: i32 = raw as i32;
    wide - CHANNEL_CENTER
}

/// Decodes one 32-byte frame.
///
/// Fails with [`FrameError::InvalidPacket`] exactly when the header is
/// missing, with [`FrameError::FailsChecksum`] exactly when the header is in
/// place and the checksum is wrong, and otherwise returns the command that
/// the frame's channels carry.
pub fn decode_frame(frame: &[u8; 32]) -> (r: Result<PilotCommand, FrameError>)
    ensures
        r == decode_spec(frame@),
{
    match parse_channels(frame) {
        Ok(channels) => Ok(command_from_channels(&channels)),
        Err(e) => Err(e),
    }
}

} // verus!
