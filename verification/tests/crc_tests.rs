use gdl90::{crc_compute, crc_init, crc_verify};

#[test]
fn table_has_256_entries_with_known_values() {
    let table = crc_init();
    assert_eq!(table.len(), 256);
    // the CCITT table for polynomial 0x1021 starts 0x0000, 0x1021, 0x2042
    assert_eq!(table[0], 0x0000);
    assert_eq!(table[1], 0x1021);
    assert_eq!(table[2], 0x2042);
    assert_eq!(table[255], 0x1EF0);
}

#[test]
fn compute_of_empty_is_zero() {
    let table = crc_init();
    assert_eq!(crc_compute(&table, &[]), 0);
}

#[test]
fn compute_matches_heartbeat_reference_vector() {
    // The published GDL-90 heartbeat example frame carries the CRC bytes
    // B3 8B for the body 00 81 41 DB D0 08 02.
    let table = crc_init();
    let body = [0x00, 0x81, 0x41, 0xDB, 0xD0, 0x08, 0x02];
    assert_eq!(crc_compute(&table, &body), 0xB38B);
}

#[test]
fn compute_single_zero_byte_is_zero() {
    let table = crc_init();
    assert_eq!(crc_compute(&table, &[0x00]), 0x0000);
}

#[test]
fn verify_accepts_correct_trailer() {
    let table = crc_init();
    let with_crc = [0x00, 0x81, 0x41, 0xDB, 0xD0, 0x08, 0x02, 0xB3, 0x8B];
    assert!(crc_verify(&table, &with_crc));
}

#[test]
fn verify_rejects_wrong_trailer() {
    let table = crc_init();
    let with_bad_crc = [0x00, 0x81, 0x41, 0xDB, 0xD0, 0x08, 0x02, 0xB3, 0x8C];
    assert!(!crc_verify(&table, &with_bad_crc));
}
