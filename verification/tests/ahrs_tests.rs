use gdl90::messages::ahrs_message::AHRSMessage;
use gdl90::{AhrsField, Gdl90Error};

fn sample() -> AHRSMessage {
    AHRSMessage {
        roll: -15,
        pitch: 102,
        true_or_magnetic_heading: true,
        heading: -3000,
        indicated_airspeed: 120,
        true_airspeed: 135,
    }
}

#[test]
fn ahrs_encodes_to_eleven_bytes_with_selector() {
    let bytes = sample().to_bytes();
    assert_eq!(bytes.len(), 11);
    assert_eq!(bytes[0], 0x01);
    // roll -15 tenths, two's complement big-endian
    assert_eq!(&bytes[1..3], &[0xFF, 0xF1]);
    // pitch 102 tenths
    assert_eq!(&bytes[3..5], &[0x00, 0x66]);
    // heading -3000 tenths in 15 bits is 0x7448; bit 15 clear means true
    assert_eq!(&bytes[5..7], &[0x74, 0x48]);
    assert_eq!(&bytes[7..9], &[0x00, 0x78]);
    assert_eq!(&bytes[9..11], &[0x00, 0x87]);
}

#[test]
fn ahrs_round_trips() {
    let m = sample();
    assert_eq!(AHRSMessage::from_bytes(&m.to_bytes()), Ok(m));
}

#[test]
fn ahrs_magnetic_heading_flag_round_trips() {
    let m = AHRSMessage {
        true_or_magnetic_heading: false,
        ..sample()
    };
    let bytes = m.to_bytes();
    assert_eq!(bytes[5] & 0x80, 0x80);
    assert_eq!(AHRSMessage::from_bytes(&bytes), Ok(m));
}

#[test]
fn ahrs_wrong_length_fails() {
    assert_eq!(
        AHRSMessage::from_bytes(&[0u8; 10]),
        Err(Gdl90Error::InvalidLength {
            expected: 11,
            actual: 10
        })
    );
    assert_eq!(
        AHRSMessage::from_bytes(&[0u8; 12]),
        Err(Gdl90Error::InvalidLength {
            expected: 11,
            actual: 12
        })
    );
}

#[test]
fn ahrs_roll_sentinel_is_rejected() {
    let mut b = sample().to_bytes();
    b[1] = 0x7F;
    b[2] = 0xFF;
    assert_eq!(
        AHRSMessage::from_bytes(&b),
        Err(Gdl90Error::InvalidField {
            name: AhrsField::Roll,
            value: 0x7FFF
        })
    );
}

#[test]
fn ahrs_pitch_sentinel_is_rejected() {
    let mut b = sample().to_bytes();
    b[3] = 0x7F;
    b[4] = 0xFF;
    assert_eq!(
        AHRSMessage::from_bytes(&b),
        Err(Gdl90Error::InvalidField {
            name: AhrsField::Pitch,
            value: 0x7FFF
        })
    );
}

#[test]
fn ahrs_heading_sentinel_is_rejected() {
    let mut b = sample().to_bytes();
    b[5] = 0xFF;
    b[6] = 0xFF;
    assert_eq!(
        AHRSMessage::from_bytes(&b),
        Err(Gdl90Error::InvalidField {
            name: AhrsField::Heading,
            value: 0xFFFF
        })
    );
}

#[test]
fn ahrs_airspeed_sentinels_are_rejected() {
    let mut b = sample().to_bytes();
    b[7] = 0xFF;
    b[8] = 0xFF;
    assert_eq!(
        AHRSMessage::from_bytes(&b),
        Err(Gdl90Error::InvalidField {
            name: AhrsField::IndicatedAirspeed,
            value: 0xFFFF
        })
    );
    let mut b = sample().to_bytes();
    b[9] = 0xFF;
    b[10] = 0xFF;
    assert_eq!(
        AHRSMessage::from_bytes(&b),
        Err(Gdl90Error::InvalidField {
            name: AhrsField::TrueAirspeed,
            value: 0xFFFF
        })
    );
}
