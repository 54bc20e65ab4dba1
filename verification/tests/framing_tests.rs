use gdl90::{deframe, escape, frame, unescape, Gdl90Error, FLAG};

#[test]
fn escape_replaces_flag_and_escape_bytes() {
    let escaped = escape(&[0x7E, 0x00, 0x7D, 0x41]);
    assert_eq!(escaped, vec![0x7D, 0x5E, 0x00, 0x7D, 0x5D, 0x41]);
}

#[test]
fn escape_of_plain_bytes_copies_them() {
    let escaped = escape(&[0x01, 0x02, 0x03]);
    assert_eq!(escaped, vec![0x01, 0x02, 0x03]);
}

#[test]
fn unescape_restores_escaped_bytes() {
    let unescaped = unescape(&[0x7D, 0x5E, 0x00, 0x7D, 0x5D, 0x41]);
    assert_eq!(unescaped, vec![0x7E, 0x00, 0x7D, 0x41]);
}

#[test]
fn unescape_drops_invalid_escape_sequence_and_continues() {
    // 0x7D followed by anything but 0x5E/0x5D is invalid: the byte is
    // dropped and decoding continues
    let unescaped = unescape(&[0x01, 0x7D, 0x42, 0x02]);
    assert_eq!(unescaped, vec![0x01, 0x02]);
}

#[test]
fn unescape_drops_trailing_lone_escape() {
    let unescaped = unescape(&[0x01, 0x7D]);
    assert_eq!(unescaped, vec![0x01]);
}

#[test]
fn unescape_escape_round_trip_over_all_byte_values() {
    let mut all: Vec<u8> = Vec::new();
    for b in 0..=255u8 {
        all.push(b);
    }
    assert_eq!(unescape(&escape(&all)), all);
}

#[test]
fn frame_wraps_with_flags() {
    assert_eq!(frame(&[0x01, 0x02]), vec![FLAG, 0x01, 0x02, FLAG]);
}

#[test]
fn deframe_of_empty_fails_with_empty_input() {
    assert_eq!(deframe(&[]), Err(Gdl90Error::EmptyInput));
}

#[test]
fn deframe_strips_one_flag_from_each_end() {
    assert_eq!(deframe(&[FLAG, 0x01, 0x02, FLAG]), Ok(vec![0x01, 0x02]));
}

#[test]
fn deframe_accepts_already_stripped_input() {
    assert_eq!(deframe(&[0x01, 0x02]), Ok(vec![0x01, 0x02]));
    assert_eq!(deframe(&[FLAG, 0x01, 0x02]), Ok(vec![0x01, 0x02]));
    assert_eq!(deframe(&[0x01, 0x02, FLAG]), Ok(vec![0x01, 0x02]));
}

#[test]
fn deframe_of_single_flag_is_empty() {
    assert_eq!(deframe(&[FLAG]), Ok(vec![]));
}
