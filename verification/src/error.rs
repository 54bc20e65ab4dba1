use vstd::prelude::*;

verus! {

/// The AHRS payload field whose wire value was the "no data" sentinel.
#[derive(Clone, Copy, Debug, PartialEq, Eq, Structural)]
pub enum AhrsField {
    Roll,
    Pitch,
    Heading,
    IndicatedAirspeed,
    TrueAirspeed,
}

/// Everything that can go wrong while decoding a GDL-90 frame.
///
/// The framing layer itself never fails: malformed escape sequences are
/// dropped and decoding continues. Errors arise only from an empty input,
/// a frame too short to carry an ID and a CRC, a CRC mismatch, or a payload
/// codec rejecting its buffer.
#[derive(Clone, Copy, Debug, PartialEq, Eq, Structural)]
pub enum Gdl90Error {
    /// The decoder was handed an empty buffer.
    EmptyInput,
    /// After deframing and unescaping, fewer than three bytes remain, so the
    /// buffer cannot hold a message ID and a 16-bit CRC.
    BufferTooShort,
    /// The trailing big-endian CRC did not match the CRC computed over the
    /// message ID and payload.
    CrcMismatch { expected: u16, actual: u16 },
    /// A payload codec was handed a buffer of the wrong length.
    InvalidLength { expected: usize, actual: usize },
    /// An AHRS field held its "no data" sentinel, which this codec treats as
    /// a hard decode error.
    InvalidField { name: AhrsField, value: u16 },
}

} // verus!
