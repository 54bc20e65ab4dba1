use vstd::prelude::*;

use crate::error::AhrsField;
use crate::error::Gdl90Error;
use crate::fixed::low15_i16;
use crate::fixed::low16_i16;
use crate::fixed::sign15;
use crate::fixed::sign16;
use crate::fixed::spec_signed;

verus! {

/// An AHRS attitude report. Angles are held in the wire's fixed-point unit
/// of tenths of a degree; airspeeds are in knots. Decoding rejects every
/// field whose wire value is its "no data" sentinel, so a decoded value
/// always carries data; encoding packs the fields as they are and never
/// substitutes a sentinel for them.
#[derive(Clone, Copy, Debug, PartialEq, Eq, Structural)]
pub struct AHRSMessage {
    /// Roll in tenths of a degree; positive is right wing down.
    pub roll: i16,
    /// Pitch in tenths of a degree; positive is nose up.
    pub pitch: i16,
    /// True when the heading field carries a true heading, false when it
    /// carries a magnetic heading (wire bit 15: 0 = true, 1 = magnetic).
    pub true_or_magnetic_heading: bool,
    /// Heading in tenths of a degree, a 15-bit two's-complement value.
    pub heading: i16,
    /// Indicated airspeed in knots.
    pub indicated_airspeed: u16,
    /// True airspeed in knots.
    pub true_airspeed: u16,
}

/// What decoding an 11-byte AHRS payload yields: the length must be exactly
/// 11, and every field whose 16-bit wire value equals its "no data"
/// sentinel is a hard error, checked in wire order.
pub open spec fn spec_ahrs_decode(p: Seq<u8>) -> Result<AHRSMessage, Gdl90Error> {
    if p.len() != 11 {
        Err(Gdl90Error::InvalidLength { expected: 11, actual: p.len() as usize })
    } else {
        let roll_raw = p[1] * 256 + p[2];
        let pitch_raw = p[3] * 256 + p[4];
        let heading_raw = p[5] * 256 + p[6];
        let ias_raw = p[7] * 256 + p[8];
        let tas_raw = p[9] * 256 + p[10];
        if roll_raw == 0x7FFF {
            Err(Gdl90Error::InvalidField { name: AhrsField::Roll, value: 0x7FFF })
        } else if pitch_raw == 0x7FFF {
            Err(Gdl90Error::InvalidField { name: AhrsField::Pitch, value: 0x7FFF })
        } else if heading_raw == 0xFFFF {
            Err(Gdl90Error::InvalidField { name: AhrsField::Heading, value: 0xFFFF })
        } else if ias_raw == 0xFFFF {
            Err(Gdl90Error::InvalidField { name: AhrsField::IndicatedAirspeed, value: 0xFFFF })
        } else if tas_raw == 0xFFFF {
            Err(Gdl90Error::InvalidField { name: AhrsField::TrueAirspeed, value: 0xFFFF })
        } else {
            Ok(
                AHRSMessage {
                    roll: spec_signed(roll_raw, 0x10000) as i16,
                    pitch: spec_signed(pitch_raw, 0x10000) as i16,
                    true_or_magnetic_heading: p[5] < 0x80,
                    heading: spec_signed((p[5] % 128) * 256 + p[6], 0x8000) as i16,
                    indicated_airspeed: ias_raw as u16,
                    true_airspeed: tas_raw as u16,
                },
            )
        }
    }
}

/// The 11-byte wire form of `m`: the sub-message selector 0x01, then roll,
/// pitch, heading with the magnetic flag in bit 15, and the two airspeeds,
/// each big-endian.
pub open spec fn spec_ahrs_encode(m: AHRSMessage) -> Seq<u8> {
    let roll16 = (m.roll as int) % 0x10000;
    let pitch16 = (m.pitch as int) % 0x10000;
    let h15 = (m.heading as int) % 0x8000;
    let flag: int = if m.true_or_magnetic_heading {
        0
    } else {
        128
    };
    seq![
        1u8,
        (roll16 / 256) as u8,
        (roll16 % 256) as u8,
        (pitch16 / 256) as u8,
        (pitch16 % 256) as u8,
        (flag + h15 / 256) as u8,
        (h15 % 256) as u8,
        (m.indicated_airspeed / 256) as u8,
        (m.indicated_airspeed % 256) as u8,
        (m.true_airspeed / 256) as u8,
        (m.true_airspeed % 256) as u8,
    ]
}

impl AHRSMessage {
    /// Decodes an 11-byte AHRS payload. The buffer must begin with the
    /// sub-message selector byte and must not contain the flag, message ID
    /// or CRC bytes; it must already be unescaped.
    pub fn from_bytes(buf: &[u8]) -> (r: Result<Self, Gdl90Error>)
        ensures
            r == spec_ahrs_decode(buf@),
    {
        if buf.len() != 11 {
            return Err(Gdl90Error::InvalidLength { expected: 11, actual: buf.len() });
        }
        let roll_raw: u16 = (buf[1] as u16) * 256 + (buf[2] as u16);
        if roll_raw == 0x7FFF {
            return Err(Gdl90Error::InvalidField { name: AhrsField::Roll, value: 0x7FFF });
        }
        let pitch_raw: u16 = (buf[3] as u16) * 256 + (buf[4] as u16);
        if pitch_raw == 0x7FFF {
            return Err(Gdl90Error::InvalidField { name: AhrsField::Pitch, value: 0x7FFF });
        }
        let heading_raw: u16 = (buf[5] as u16) * 256 + (buf[6] as u16);
        if heading_raw == 0xFFFF {
            return Err(Gdl90Error::InvalidField { name: AhrsField::Heading, value: 0xFFFF });
        }
        let ias_raw: u16 = (buf[7] as u16) * 256 + (buf[8] as u16);
        if ias_raw == 0xFFFF {
            return Err(
                Gdl90Error::InvalidField { name: AhrsField::IndicatedAirspeed, value: 0xFFFF },
            );
        }
        let tas_raw: u16 = (buf[9] as u16) * 256 + (buf[10] as u16);
        if tas_raw == 0xFFFF {
            return Err(Gdl90Error::InvalidField { name: AhrsField::TrueAirspeed, value: 0xFFFF });
        }
        Ok(
            AHRSMessage {
                roll: sign16(roll_raw),
                pitch: sign16(pitch_raw),
                true_or_magnetic_heading: buf[5] < 0x80,
                heading: sign15(((buf[5] % 128) as u16) * 256 + (buf[6] as u16)),
                indicated_airspeed: ias_raw,
                true_airspeed: tas_raw,
            },
        )
    }

    /// Encodes this report as its 11-byte wire payload, the structural
    /// inverse of decoding. The buffer does not contain the flag, message
    /// ID or CRC bytes.
    #[must_use]
    pub fn to_bytes(self) -> (r: Vec<u8>)
        ensures
            r@ == spec_ahrs_encode(self),
    {
        let mut buf: Vec<u8> = Vec::new();
        buf.push(0x01);
        let roll16 = low16_i16(self.roll);
        buf.push((roll16 / 256) as u8);
        buf.push((roll16 % 256) as u8);
        let pitch16 = low16_i16(self.pitch);
        buf.push((pitch16 / 256) as u8);
        buf.push((pitch16 % 256) as u8);
        let h15 = low15_i16(self.heading);
        let flag: u8 = if self.true_or_magnetic_heading {
            0
        } else {
            128
        };
        buf.push(flag + (h15 / 256) as u8);
        buf.push((h15 % 256) as u8);
        buf.push((self.indicated_airspeed / 256) as u8);
        buf.push((self.indicated_airspeed % 256) as u8);
        buf.push((self.true_airspeed / 256) as u8);
        buf.push((self.true_airspeed % 256) as u8);
        proof {
            assert(buf@ =~= spec_ahrs_encode(self));
        }
        buf
    }
}

} // verus!
