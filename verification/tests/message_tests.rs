use gdl90::messages::traffic_report::{TrackHeading, TrafficReport, TrafficReportBuilder};
use gdl90::{crc_compute, crc_init, GDL90Message, Gdl90Error, FLAG};

fn icd_traffic_body() -> Vec<u8> {
    vec![
        0x14, 0x00, 0xAB, 0x45, 0x49, 0x1F, 0xEF, 0x15, 0xA8, 0x89, 0x78, 0x0F, 0x09, 0xA9, 0x07,
        0xB0, 0x01, 0x20, 0x01, 0x4E, 0x38, 0x32, 0x35, 0x56, 0x20, 0x20, 0x20, 0x00,
    ]
}

/// Appends the CRC, escapes, and flag-wraps a message body by hand.
fn hand_frame(table: &[u16], body: &[u8]) -> Vec<u8> {
    let c = crc_compute(table, body);
    let mut full = body.to_vec();
    full.push((c >> 8) as u8);
    full.push((c & 0xFF) as u8);
    let mut out = vec![FLAG];
    out.extend_from_slice(&gdl90::escape(&full));
    out.push(FLAG);
    out
}

#[test]
fn decode_of_empty_fails_with_empty_input() {
    let table = crc_init();
    assert_eq!(
        GDL90Message::from_bytes(&table, &[]),
        Err(Gdl90Error::EmptyInput)
    );
}

#[test]
fn decode_of_too_short_frame_fails_with_buffer_too_short() {
    let table = crc_init();
    assert_eq!(
        GDL90Message::from_bytes(&table, &[FLAG, 0x00, FLAG]),
        Err(Gdl90Error::BufferTooShort)
    );
}

#[test]
fn decode_of_published_heartbeat_frame() {
    let table = crc_init();
    let frame = [0x7E, 0x00, 0x81, 0x41, 0xDB, 0xD0, 0x08, 0x02, 0xB3, 0x8B, 0x7E];
    assert_eq!(
        GDL90Message::from_bytes(&table, &frame),
        Ok(GDL90Message::Heartbeat)
    );
}

#[test]
fn decode_accepts_frame_without_flags() {
    let table = crc_init();
    let frame = [0x00, 0x81, 0x41, 0xDB, 0xD0, 0x08, 0x02, 0xB3, 0x8B];
    assert_eq!(
        GDL90Message::from_bytes(&table, &frame),
        Ok(GDL90Message::Heartbeat)
    );
}

#[test]
fn decode_of_icd_traffic_frame() {
    let table = crc_init();
    let frame = hand_frame(&table, &icd_traffic_body());
    let m = GDL90Message::from_bytes(&table, &frame).unwrap();
    let expected = TrafficReport::from_bytes(&icd_traffic_body()[1..]).unwrap();
    assert_eq!(m, GDL90Message::TrafficReport(expected));
}

#[test]
fn flipping_either_crc_byte_fails_with_crc_mismatch() {
    let table = crc_init();
    let body = icd_traffic_body();
    let c = crc_compute(&table, &body);
    let mut frame = hand_frame(&table, &body);
    // neither CRC byte of this frame needs escaping, so they sit just
    // before the trailing flag
    let n = frame.len();
    frame[n - 3] = frame[n - 3].wrapping_add(1);
    match GDL90Message::from_bytes(&table, &frame) {
        Err(Gdl90Error::CrcMismatch { expected, actual }) => {
            assert_eq!(actual, c);
            assert_ne!(expected, c);
        }
        other => panic!("expected a CRC mismatch, got {:?}", other),
    }

    let mut frame = hand_frame(&table, &body);
    frame[n - 2] = frame[n - 2].wrapping_add(1);
    match GDL90Message::from_bytes(&table, &frame) {
        Err(Gdl90Error::CrcMismatch { expected, actual }) => {
            assert_eq!(actual, c);
            assert_ne!(expected, c);
        }
        other => panic!("expected a CRC mismatch, got {:?}", other),
    }
}

#[test]
fn short_traffic_payload_fails_with_invalid_length() {
    let table = crc_init();
    let body = vec![0x0A, 0x01, 0x02, 0x03];
    let frame = hand_frame(&table, &body);
    assert_eq!(
        GDL90Message::from_bytes(&table, &frame),
        Err(Gdl90Error::InvalidLength {
            expected: 27,
            actual: 3
        })
    );
}

#[test]
fn unknown_id_decodes_to_unknown() {
    let table = crc_init();
    let frame = hand_frame(&table, &[0x63]);
    assert_eq!(
        GDL90Message::from_bytes(&table, &frame),
        Ok(GDL90Message::Unknown)
    );
}

#[test]
fn marker_ids_decode_to_their_variants() {
    let table = crc_init();
    let cases: [(u8, GDL90Message); 7] = [
        (0, GDL90Message::Heartbeat),
        (2, GDL90Message::Initialization),
        (7, GDL90Message::UplinkData),
        (9, GDL90Message::HeightAboveTerrain),
        (11, GDL90Message::OwnshipGeometricAltitude),
        (30, GDL90Message::BasicReport),
        (31, GDL90Message::LongReport),
    ];
    for (id, expected) in cases {
        let frame = hand_frame(&table, &[id]);
        assert_eq!(GDL90Message::from_bytes(&table, &frame), Ok(expected));
    }
}

#[test]
fn heartbeat_stub_encodes_to_flagged_id_and_crc() {
    let table = crc_init();
    let bytes = GDL90Message::Heartbeat.to_bytes(&table);
    // the checksum of the single ID byte 0x00 is zero
    assert_eq!(bytes, vec![FLAG, 0x00, 0x00, 0x00, FLAG]);
}

#[test]
fn unknown_encodes_to_bare_flags() {
    let table = crc_init();
    assert_eq!(GDL90Message::Unknown.to_bytes(&table), vec![FLAG, FLAG]);
}

#[test]
fn encode_of_decode_reproduces_canonical_frame() {
    // a canonically escaped ownship frame: the address bytes force both
    // escape sequences onto the wire
    let table = crc_init();
    let tr = TrafficReportBuilder::new()
        .participant_address(0x7E7D01)
        .with_lat_lon_alt_hdg(2092821, 1234567, 5000, 64, TrackHeading::TrueTrackAngle)
        .horizontal_velocity_kt(40)
        .call_sign(b"N825V".to_vec())
        .build();
    let frame = GDL90Message::OwnshipReport(tr).to_bytes(&table);
    let decoded = GDL90Message::from_bytes(&table, &frame).unwrap();
    assert_eq!(decoded.clone().to_bytes(&table), frame);
    // and the decoded message equals what was encoded
    match decoded {
        GDL90Message::OwnshipReport(t) => {
            assert_eq!(t.participant_address, 0x7E7D01);
            assert_eq!(t.latitude_raw, 2092821);
            assert_eq!(t.longitude_raw, 1234567);
            assert_eq!(t.pressure_altitude_ft, 5000);
        }
        other => panic!("expected an ownship report, got {:?}", other),
    }
}

#[test]
fn message_round_trip_for_representable_report() {
    let table = crc_init();
    let tr = TrafficReportBuilder::new()
        .participant_address(0xAB4549)
        .with_lat_lon_alt(-2092821, 1234567, 2000)
        .horizontal_velocity_kt(123)
        .vertical_velocity_fps(2)
        .call_sign(b"TEST1".to_vec())
        .build();
    let frame = GDL90Message::TrafficReport(tr.clone()).to_bytes(&table);
    assert_eq!(
        GDL90Message::from_bytes(&table, &frame),
        Ok(GDL90Message::TrafficReport(tr))
    );
}
