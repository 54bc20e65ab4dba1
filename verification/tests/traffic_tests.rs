use gdl90::messages::traffic_report::{
    AddressType, AirGround, EmergencyPriorityCode, EmitterCategory, MiscIndicators, NACp, NIC,
    ReportType, TrackHeading, TrafficAlertStatus, TrafficReport, TrafficReportBuilder,
};
use gdl90::Gdl90Error;

/// The Traffic Report example payload from the GDL-90 interface control
/// document: status byte, then address AB 45 49, and so on, 27 bytes.
fn icd_payload() -> Vec<u8> {
    vec![
        0x00, 0xAB, 0x45, 0x49, 0x1F, 0xEF, 0x15, 0xA8, 0x89, 0x78, 0x0F, 0x09, 0xA9, 0x07, 0xB0,
        0x01, 0x20, 0x01, 0x4E, 0x38, 0x32, 0x35, 0x56, 0x20, 0x20, 0x20, 0x00,
    ]
}

#[test]
fn icd_example_payload_decodes_to_reference_values() {
    let tr = TrafficReport::from_bytes(&icd_payload()).unwrap();
    assert_eq!(tr.traffic_alert_status, TrafficAlertStatus::NoAlert);
    assert_eq!(tr.address_type, AddressType::ADSBIcao);
    assert_eq!(tr.participant_address, 0xAB4549);
    // 44.90 degrees is 2092821 counts of 180/2^23 degrees
    assert_eq!(tr.latitude_raw, 0x1FEF15);
    // -122.99 degrees, read through the truncating division of the
    // 32-bit longitude field
    assert_eq!(tr.longitude_raw, -5731975);
    assert_eq!(tr.pressure_altitude_ft, 5000);
    assert_eq!(tr.misc_indicators.tt, TrackHeading::TrueTrackAngle);
    assert_eq!(tr.misc_indicators.report_type, ReportType::Updated);
    assert_eq!(tr.misc_indicators.ground_state, AirGround::Airborne);
    assert_eq!(tr.nic, NIC::HPL_25M_VPL_37_5M);
    assert_eq!(tr.nacp, NACp::HFOM_30M_VFOM_45M);
    assert_eq!(tr.horizontal_velocity_kt, 123);
    assert_eq!(tr.vertical_velocity_raw, 1);
    assert_eq!(tr.track_heading_raw, 0x20);
    assert_eq!(tr.emitter_category, EmitterCategory::Light);
    assert_eq!(tr.call_sign, b"N825V".to_vec());
    assert_eq!(tr.emergy_priority_code, EmergencyPriorityCode::NoEmergency);
}

#[test]
fn short_payload_fails_with_invalid_length() {
    let r = TrafficReport::from_bytes(&[0u8; 26]);
    assert_eq!(
        r,
        Err(Gdl90Error::InvalidLength {
            expected: 27,
            actual: 26
        })
    );
}

#[test]
fn representable_report_round_trips_exactly() {
    let tr = TrafficReportBuilder::new()
        .traffic_alert_status(TrafficAlertStatus::TrafficAlert)
        .address_type(AddressType::ADSBSelfAssigned)
        .participant_address(0x123456)
        .with_lat_lon_alt_hdg(2092821, 1234567, 5000, 128, TrackHeading::HeadingTrue)
        .nic(NIC::NM1)
        .nacp(NACp::NM0_5)
        .horizontal_velocity_kt(250)
        .vertical_velocity_fps(-8)
        .emitter_category(EmitterCategory::Rotorcraft)
        .call_sign(b"N825V".to_vec())
        .emergy_priority_code(EmergencyPriorityCode::MinimumFuel)
        .build();
    let decoded = TrafficReport::from_bytes(&tr.clone().to_bytes()).unwrap();
    assert_eq!(decoded, tr);
}

#[test]
fn negative_position_round_trips_when_altitude_byte_clear() {
    // a negative longitude comes back exactly when the altitude's high
    // byte, which shares the longitude's 32-bit read, is zero
    let tr = TrafficReportBuilder::new()
        .with_lat_lon_alt(-2092821, -5731976, -1000)
        .build();
    let decoded = TrafficReport::from_bytes(&tr.clone().to_bytes()).unwrap();
    assert_eq!(decoded, tr);
}

#[test]
fn negative_longitude_shifts_at_most_one_count() {
    let tr = TrafficReportBuilder::new()
        .with_lat_lon_alt(0, -5731976, 5000)
        .build();
    let decoded = TrafficReport::from_bytes(&tr.to_bytes()).unwrap();
    assert_eq!(decoded.longitude_raw, -5731975);
}

#[test]
fn out_of_range_address_truncates_to_24_bits() {
    let tr = TrafficReportBuilder::new()
        .participant_address(0x12345678)
        .build();
    let decoded = TrafficReport::from_bytes(&tr.to_bytes()).unwrap();
    assert_eq!(decoded.participant_address, 0x345678);
}

#[test]
fn call_sign_is_trimmed_of_surrounding_whitespace() {
    let mut p = icd_payload();
    p[18..26].copy_from_slice(&[0x20, 0x09, 0x41, 0x42, 0x20, 0x43, 0xA0, 0x20]);
    let tr = TrafficReport::from_bytes(&p).unwrap();
    assert_eq!(tr.call_sign, vec![0x41, 0x42, 0x20, 0x43]);
}

#[test]
fn long_call_sign_is_truncated_to_eight_bytes() {
    let tr = TrafficReportBuilder::new()
        .call_sign(b"ABCDEFGHIJ".to_vec())
        .build();
    let decoded = TrafficReport::from_bytes(&tr.to_bytes()).unwrap();
    assert_eq!(decoded.call_sign, b"ABCDEFGH".to_vec());
}

#[test]
fn builder_defaults_are_zero_and_first_variants() {
    let tr = TrafficReportBuilder::new().build();
    assert_eq!(tr.traffic_alert_status, TrafficAlertStatus::NoAlert);
    assert_eq!(tr.address_type, AddressType::ADSBIcao);
    assert_eq!(tr.participant_address, 0);
    assert_eq!(tr.latitude_raw, 0);
    assert_eq!(tr.longitude_raw, 0);
    assert_eq!(tr.pressure_altitude_ft, 0);
    assert_eq!(tr.misc_indicators.tt, TrackHeading::HeadingTrue);
    assert_eq!(tr.misc_indicators.report_type, ReportType::Updated);
    assert_eq!(tr.misc_indicators.ground_state, AirGround::OnGround);
    assert_eq!(tr.horizontal_velocity_kt, 0);
    assert_eq!(tr.vertical_velocity_raw, 0);
    assert_eq!(tr.track_heading_raw, 0);
    assert_eq!(tr.emitter_category, EmitterCategory::NoInformation);
    assert_eq!(tr.call_sign, Vec::<u8>::new());
    assert_eq!(tr.emergy_priority_code, EmergencyPriorityCode::NoEmergency);
}

#[test]
fn misc_indicators_setter_replaces_all_three_flags() {
    let tr = TrafficReportBuilder::new()
        .misc_indicators(MiscIndicators {
            tt: TrackHeading::HeadingMagnetic,
            report_type: ReportType::Extrapolated,
            ground_state: AirGround::Airborne,
        })
        .build();
    assert_eq!(tr.misc_indicators.tt, TrackHeading::HeadingMagnetic);
    assert_eq!(tr.misc_indicators.report_type, ReportType::Extrapolated);
    assert_eq!(tr.misc_indicators.ground_state, AirGround::Airborne);
}

#[test]
fn enum_codes_fall_back_on_unmapped_values() {
    assert_eq!(TrafficAlertStatus::from_code(7), TrafficAlertStatus::Reserved);
    assert_eq!(AddressType::from_code(9), AddressType::Reserved);
    assert_eq!(TrackHeading::from_code(0), TrackHeading::Invalid);
    assert_eq!(NIC::from_code(13), NIC::Unknown);
    assert_eq!(NACp::from_code(15), NACp::Unknown);
    assert_eq!(EmitterCategory::from_code(8), EmitterCategory::NoInformation);
    assert_eq!(EmitterCategory::from_code(19), EmitterCategory::PointObstacle);
    assert_eq!(
        EmergencyPriorityCode::from_code(9),
        EmergencyPriorityCode::Reserved
    );
}

#[test]
fn misc_indicators_ignore_high_nibble() {
    let m = MiscIndicators::from_byte(0xF9);
    assert_eq!(m.tt, TrackHeading::TrueTrackAngle);
    assert_eq!(m.report_type, ReportType::Updated);
    assert_eq!(m.ground_state, AirGround::Airborne);
}
