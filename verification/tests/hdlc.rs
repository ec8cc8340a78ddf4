use rayhunter::hdlc::{crc16, hdlc_decapsulate, hdlc_encapsulate, HdlcError};

#[test]
fn crc16_known_check_value() {
    // The CRC-16/X.25 check value for the digits 1..9.
    assert_eq!(crc16(b"123456789"), 0x906e);
}

#[test]
fn crc16_empty_input() {
    // init 0xffff, final XOR 0xffff: the empty message checks to zero.
    assert_eq!(crc16(b""), 0x0000);
}

#[test]
fn round_trip_plain_payload() {
    let payload = b"hello diag".to_vec();
    let frame = hdlc_encapsulate(&payload);
    assert_eq!(hdlc_decapsulate(&frame), Ok(payload));
}

#[test]
fn round_trip_empty_payload() {
    let payload: Vec<u8> = Vec::new();
    let frame = hdlc_encapsulate(&payload);
    assert_eq!(hdlc_decapsulate(&frame), Ok(payload));
}

#[test]
fn round_trip_payload_with_reserved_bytes() {
    let payload = vec![0x7e, 0x7d, 0x00, 0x7e, 0x7d, 0x5e, 0x5d, 0xff];
    let frame = hdlc_encapsulate(&payload);
    // Reserved bytes inside the payload are escaped on the wire.
    assert!(!frame[..frame.len() - 1].contains(&0x7e));
    assert_eq!(hdlc_decapsulate(&frame), Ok(payload));
}

#[test]
fn round_trip_larger_payload() {
    let payload: Vec<u8> = (0..4096u32).map(|i| (i % 256) as u8).collect();
    let frame = hdlc_encapsulate(&payload);
    assert_eq!(hdlc_decapsulate(&frame), Ok(payload));
}

#[test]
fn corrupted_byte_is_a_crc_error_not_a_silent_pass() {
    let payload = b"signal integrity".to_vec();
    let mut frame = hdlc_encapsulate(&payload);
    // The first frame byte is the first payload byte, unescaped here.
    assert_eq!(frame[0], b's');
    frame[0] ^= 0x01;
    assert_eq!(hdlc_decapsulate(&frame), Err(HdlcError::CrcMismatch));
}

#[test]
fn missing_terminator_is_rejected() {
    let payload = b"abc".to_vec();
    let mut frame = hdlc_encapsulate(&payload);
    frame.pop();
    assert_eq!(hdlc_decapsulate(&frame), Err(HdlcError::MissingTerminator));
    assert_eq!(hdlc_decapsulate(&[]), Err(HdlcError::MissingTerminator));
}

#[test]
fn truncated_escape_is_rejected() {
    // A lone escape introducer right before the terminator.
    let frame = vec![0x41, 0x7d, 0x7e];
    assert_eq!(hdlc_decapsulate(&frame), Err(HdlcError::TruncatedEscape));
}

#[test]
fn too_short_body_is_rejected() {
    // One body byte cannot hold the two CRC bytes.
    let frame = vec![0x41, 0x7e];
    assert_eq!(hdlc_decapsulate(&frame), Err(HdlcError::TooShort));
}
