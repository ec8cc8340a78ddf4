use rayhunter::diag::{
    build_log_mask_request, parse_message, parse_messages_container, ContainerParseError,
    DataType, LogConfigRequest, Message, MessagesContainer, ParsingError, Request,
    RequestContainer, ResponsePayload, serialize_request,
};
use rayhunter::hdlc::{hdlc_encapsulate, HdlcError};
use rayhunter::log_codes;

fn le32(v: u32) -> [u8; 4] {
    v.to_le_bytes()
}

fn log_message_bytes(log_code: u16, timestamp: u64, payload: &[u8]) -> Vec<u8> {
    let mut out = vec![0x10u8];
    out.extend_from_slice(&log_code.to_le_bytes());
    out.extend_from_slice(&timestamp.to_le_bytes());
    out.extend_from_slice(payload);
    out
}

#[test]
fn serialize_retrieve_id_ranges() {
    let req = Request::LogConfig(LogConfigRequest::RetrieveIdRanges);
    assert_eq!(serialize_request(&req), vec![0x73, 0, 0, 0, 1, 0, 0, 0]);
}

#[test]
fn serialize_set_mask() {
    let req = Request::LogConfig(LogConfigRequest::SetMask {
        log_type: 5,
        log_mask_bitsize: 16,
        log_mask: vec![0xab, 0xcd],
    });
    let mut expected = vec![0x73, 0, 0, 0, 3, 0, 0, 0];
    expected.extend_from_slice(&le32(5));
    expected.extend_from_slice(&le32(16));
    expected.extend_from_slice(&[0xab, 0xcd]);
    assert_eq!(serialize_request(&req), expected);
}

#[test]
fn request_container_layout() {
    let container = RequestContainer {
        data_type: DataType::UserSpace,
        use_mdm: true,
        mdm_field: -1,
        hdlc_encapsulated_request: vec![0xaa, 0xbb],
    };
    let mut expected = Vec::new();
    expected.extend_from_slice(&le32(32));
    expected.push(1u8);
    expected.extend_from_slice(&(-1i32).to_le_bytes());
    expected.extend_from_slice(&le32(2));
    expected.extend_from_slice(&[0xaa, 0xbb]);
    assert_eq!(container.to_bytes(), expected);
}

#[test]
fn parse_log_message() {
    let bytes = log_message_bytes(0x512f, 0x1122334455667788, &[9, 8, 7]);
    let parsed = parse_message(&bytes).unwrap();
    assert_eq!(
        parsed,
        Message::Log {
            timestamp: 0x1122334455667788,
            log_code: 0x512f,
            payload: vec![9, 8, 7],
        }
    );
}

#[test]
fn parse_retrieve_id_ranges_response() {
    let mut bytes = vec![0x73u8, 0, 0, 0];
    bytes.extend_from_slice(&le32(1));
    bytes.extend_from_slice(&le32(0));
    for i in 0..16u32 {
        bytes.extend_from_slice(&le32(i * 100));
    }
    let parsed = parse_message(&bytes).unwrap();
    match parsed {
        Message::Response { status, payload: ResponsePayload::RetrieveIdRanges { log_mask_sizes } } => {
            assert_eq!(status, 0);
            assert_eq!(log_mask_sizes[0], 0);
            assert_eq!(log_mask_sizes[15], 1500);
        }
        other => panic!("unexpected message: {other:?}"),
    }
}

#[test]
fn parse_set_mask_response() {
    let mut bytes = vec![0x73u8, 0, 0, 0];
    bytes.extend_from_slice(&le32(3));
    bytes.extend_from_slice(&le32(0));
    let parsed = parse_message(&bytes).unwrap();
    assert_eq!(parsed, Message::Response { status: 0, payload: ResponsePayload::SetMask });
}

#[test]
fn parse_message_errors() {
    assert_eq!(parse_message(&[]), Err(ParsingError::TooShort));
    assert_eq!(parse_message(&[0x10, 0x2f]), Err(ParsingError::TooShort));
    assert_eq!(parse_message(&[0x42, 0, 0, 0]), Err(ParsingError::UnknownOpcode));
    let mut bytes = vec![0x73u8, 0, 0, 0];
    bytes.extend_from_slice(&le32(9));
    bytes.extend_from_slice(&le32(0));
    assert_eq!(parse_message(&bytes), Err(ParsingError::UnknownOperation));
}

#[test]
fn container_wire_round_trip() {
    let chunk = hdlc_encapsulate(&log_message_bytes(0x512f, 7, &[1, 2, 3]));
    let mut wire = Vec::new();
    wire.extend_from_slice(&le32(32));
    wire.extend_from_slice(&le32(1));
    wire.extend_from_slice(&le32(chunk.len() as u32));
    wire.extend_from_slice(&chunk);
    let container = parse_messages_container(&wire).unwrap();
    assert_eq!(container.data_type, DataType::UserSpace);
    assert_eq!(container.messages, vec![chunk]);
}

#[test]
fn container_wire_errors() {
    assert_eq!(parse_messages_container(&[0u8; 7]), Err(ContainerParseError::HeaderTooShort));
    let mut wire = Vec::new();
    wire.extend_from_slice(&le32(32));
    wire.extend_from_slice(&le32(1));
    wire.extend_from_slice(&le32(100));
    wire.push(0xaa);
    assert_eq!(parse_messages_container(&wire), Err(ContainerParseError::ChunkOutOfBounds));
    let mut wire = Vec::new();
    wire.extend_from_slice(&le32(32));
    wire.extend_from_slice(&le32(0));
    wire.push(0xaa);
    assert_eq!(parse_messages_container(&wire), Err(ContainerParseError::TrailingBytes));
}

#[test]
fn one_good_and_one_bad_message_yield_one_ok_and_one_err_in_order() {
    let good = hdlc_encapsulate(&log_message_bytes(0x512f, 7, &[1, 2, 3]));
    let mut bad = good.clone();
    bad[0] ^= 0x01;
    let container = MessagesContainer {
        data_type: DataType::UserSpace,
        messages: vec![good, bad],
    };
    let messages = container.into_messages();
    assert_eq!(messages.len(), 2);
    assert!(messages[0].is_ok());
    assert_eq!(messages[1], Err(ParsingError::BadFraming(HdlcError::CrcMismatch)));
}

#[test]
fn log_mask_request_sets_exactly_the_registry_bits() {
    let codes = rayhunter::log_codes::log_codes_for_raw_packet_logging();
    let req = build_log_mask_request(0x5, 0x1000, &codes);
    let Request::LogConfig(LogConfigRequest::SetMask { log_type, log_mask_bitsize, log_mask }) =
        req
    else {
        panic!("expected a set-mask request");
    };
    assert_eq!(log_type, 0x5);
    assert_eq!(log_mask_bitsize, 0x1000);
    assert_eq!(log_mask.len(), 0x1000 / 8);
    let bit = |item: usize| (log_mask[item / 8] >> (item % 8)) & 1 == 1;
    // 0x512f (GSM RR signaling) is log type 5, item 0x12f: subscribed.
    assert_eq!(log_codes::LOG_GSM_RR_SIGNALING_MESSAGE_C, 0x512f);
    assert!(bit(0x12f));
    // 0x5134..0x513b (GSM cell information) are subscribed.
    assert!(bit(0x134));
    assert!(bit(0x13b));
    // Item 0 of type 5 is no registry code.
    assert!(!bit(0));
    // 0x5226 is log type 5 in another range only when its item fits; item
    // 0x226 belongs to the GPRS MAC code 0x5226: subscribed.
    assert!(bit(0x226));
    // A type-0xb code must not leak into the type-5 mask.
    assert!(!bit(0x0c0));
}

#[test]
fn log_mask_request_respects_the_advertised_range() {
    let codes = rayhunter::log_codes::log_codes_for_raw_packet_logging();
    let req = build_log_mask_request(0x5, 0x130, &codes);
    let Request::LogConfig(LogConfigRequest::SetMask { log_mask, .. }) = req else {
        panic!("expected a set-mask request");
    };
    // 0x12f is inside the advertised range.
    assert!((log_mask[0x12f / 8] >> (0x12f % 8)) & 1 == 1);
    // 0x134 is outside the advertised range of 0x130 bits.
    assert_eq!(log_mask.len(), (0x130 + 7) / 8);
}

#[test]
fn registry_holds_the_expected_codes() {
    let codes = rayhunter::log_codes::log_codes_for_raw_packet_logging();
    assert_eq!(codes.len(), 39);
    assert!(codes.contains(&0x512f));
    assert!(codes.contains(&0x412f));
    assert!(codes.contains(&0xb0c0));
    assert!(codes.contains(&0xb821));
    assert!(codes.contains(&0x11eb));
    assert!(codes.contains(&0x713a));
}
