use rayhunter::diag::{
    DataType, LogConfigRequest, Message, MessagesContainer, Request, ResponsePayload,
};
use rayhunter::diag_device::{
    classify_write_outcome, container_is_response, init_may_retry, mask_config_plan, mdm_enabled,
    next_backoff_delay, read_is_transient, request_wire_bytes, scan_id_ranges_response,
    scan_set_mask_response, switch_logging_params, DiagDeviceError, WriteOutcome,
    DEFAULT_INIT_DEADLINE_MS, INITIAL_BACKOFF_MS, MEMORY_DEVICE_MODE,
};

fn retrieve_req() -> Request {
    Request::LogConfig(LogConfigRequest::RetrieveIdRanges)
}

fn id_ranges_response(status: u32, sizes: [u32; 16]) -> Result<Message, rayhunter::diag::ParsingError> {
    Ok(Message::Response {
        status,
        payload: ResponsePayload::RetrieveIdRanges { log_mask_sizes: sizes },
    })
}

#[test]
fn write_zero_bytes_is_not_an_error() {
    assert!(classify_write_outcome(WriteOutcome::Wrote(0)).is_ok());
    assert!(classify_write_outcome(WriteOutcome::Wrote(128)).is_ok());
    assert!(classify_write_outcome(WriteOutcome::WriteZeroError).is_ok());
}

#[test]
fn other_write_errors_are_fatal() {
    let r = classify_write_outcome(WriteOutcome::OtherError { detail: "broken pipe".to_string() });
    assert_eq!(r, Err(DiagDeviceError::DeviceWriteFailed("broken pipe".to_string())));
}

#[test]
fn short_reads_are_transient() {
    for n in 0..=8usize {
        assert!(read_is_transient(n));
    }
    assert!(!read_is_transient(9));
    assert!(!read_is_transient(1024));
}

#[test]
fn backoff_doubles_and_caps_at_five_seconds() {
    let mut delay = INITIAL_BACKOFF_MS;
    let mut seen = vec![delay];
    for _ in 0..8 {
        delay = next_backoff_delay(delay);
        seen.push(delay);
    }
    assert_eq!(seen, vec![100, 200, 400, 800, 1600, 3200, 5000, 5000, 5000]);
}

#[test]
fn three_failures_then_success_stays_under_the_deadline() {
    // The driver sleeps 100, 200 and 400 ms before the fourth, successful
    // attempt: at least 700 ms elapse, well under the default deadline.
    let d0 = INITIAL_BACKOFF_MS;
    let d1 = next_backoff_delay(d0);
    let d2 = next_backoff_delay(d1);
    let total = d0 + d1 + d2;
    assert_eq!(total, 700);
    assert!(total >= 700);
    assert!(total < DEFAULT_INIT_DEADLINE_MS);
    assert!(init_may_retry(total, DEFAULT_INIT_DEADLINE_MS));
    assert!(!init_may_retry(DEFAULT_INIT_DEADLINE_MS, DEFAULT_INIT_DEADLINE_MS));
}

#[test]
fn switch_logging_parameter_table_has_both_shapes() {
    let params = switch_logging_params(MEMORY_DEVICE_MODE);
    assert_eq!(params.len(), 2);
    assert_eq!(params[0].req_mode, 2);
    assert_eq!(params[0].peripheral_mask, 0);
    assert_eq!(params[0].mode_param, 1);
    assert_eq!(params[1].req_mode, 2);
    assert_eq!(params[1].peripheral_mask, u32::MAX);
    assert_eq!(params[1].mode_param, 0);
}

#[test]
fn mdm_flag_interpretation() {
    assert!(mdm_enabled(1));
    assert!(!mdm_enabled(0));
    assert!(!mdm_enabled(-1));
}

#[test]
fn response_containers_are_user_space() {
    let response = MessagesContainer { data_type: DataType::UserSpace, messages: Vec::new() };
    let other = MessagesContainer { data_type: DataType::Other(7), messages: Vec::new() };
    assert!(container_is_response(&response));
    assert!(!container_is_response(&other));
}

#[test]
fn id_ranges_scan_returns_the_sizes_on_success() {
    let mut sizes = [0u32; 16];
    sizes[5] = 0x1000;
    sizes[11] = 0x200;
    let msgs = vec![
        Ok(Message::Log { timestamp: 1, log_code: 0x512f, payload: vec![1] }),
        id_ranges_response(0, sizes),
    ];
    assert_eq!(scan_id_ranges_response(&msgs), Ok(sizes));
}

#[test]
fn nonzero_status_on_retrieve_id_ranges_fails_the_request() {
    let msgs = vec![id_ranges_response(3, [0u32; 16])];
    assert_eq!(
        scan_id_ranges_response(&msgs),
        Err(DiagDeviceError::RequestFailed(3, retrieve_req()))
    );
}

#[test]
fn absent_id_ranges_response_is_no_response() {
    let msgs = vec![Ok(Message::Log { timestamp: 1, log_code: 0x512f, payload: vec![1] })];
    assert_eq!(scan_id_ranges_response(&msgs), Err(DiagDeviceError::NoResponse(retrieve_req())));
}

#[test]
fn set_mask_scan_accepts_a_zero_status_ack() {
    let msgs = vec![Ok(Message::Response { status: 0, payload: ResponsePayload::SetMask })];
    assert!(scan_set_mask_response(&msgs, retrieve_req()).is_ok());
}

#[test]
fn set_mask_scan_surfaces_a_nonzero_status() {
    let msgs = vec![Ok(Message::Response { status: 2, payload: ResponsePayload::SetMask })];
    assert_eq!(
        scan_set_mask_response(&msgs, retrieve_req()),
        Err(DiagDeviceError::RequestFailed(2, retrieve_req()))
    );
}

#[test]
fn set_mask_scan_without_ack_is_no_response() {
    let msgs = vec![Ok(Message::Log { timestamp: 1, log_code: 0x512f, payload: vec![1] })];
    assert_eq!(
        scan_set_mask_response(&msgs, retrieve_req()),
        Err(DiagDeviceError::NoResponse(retrieve_req()))
    );
}

#[test]
fn mask_plan_lists_nonzero_types_in_order() {
    let mut sizes = [0u32; 16];
    sizes[1] = 0x20;
    sizes[5] = 0x1000;
    sizes[11] = 0x100;
    let plan = mask_config_plan(&sizes);
    assert_eq!(plan, vec![(1, 0x20), (5, 0x1000), (11, 0x100)]);
}

#[test]
fn configuring_twice_plans_the_same_steps_and_succeeds_twice() {
    let mut sizes = [0u32; 16];
    sizes[5] = 0x1000;
    // The plan depends on the advertised sizes alone, so a second
    // configuration issues exactly the same steps.
    assert_eq!(mask_config_plan(&sizes), mask_config_plan(&sizes));
    // A device that acknowledges with status 0 accepts both rounds.
    let ack = vec![Ok(Message::Response { status: 0, payload: ResponsePayload::SetMask })];
    assert!(scan_set_mask_response(&ack, retrieve_req()).is_ok());
    assert!(scan_set_mask_response(&ack, retrieve_req()).is_ok());
}

#[test]
fn request_wire_bytes_wraps_the_framed_request() {
    let wire = request_wire_bytes(&retrieve_req(), false);
    // Container header: user-space tag, no MDM flag, -1 sentinel, length.
    assert_eq!(&wire[0..4], &32u32.to_le_bytes());
    assert_eq!(wire[4], 0);
    assert_eq!(&wire[5..9], &(-1i32).to_le_bytes());
    let framed = rayhunter::hdlc::hdlc_encapsulate(&vec![0x73, 0, 0, 0, 1, 0, 0, 0]);
    assert_eq!(&wire[9..13], &(framed.len() as u32).to_le_bytes());
    assert_eq!(&wire[13..], &framed[..]);
}
