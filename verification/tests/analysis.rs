use rayhunter::analyzer::{
    AnalyzerConfig, AnalysisRow, EventType, Harness, PacketAnalysis, Severity,
};
use rayhunter::diag::Message;
use rayhunter::gsmtap::{Channel, Direction, GsmtapMessage, Rat};
use rayhunter::diag::{DataType, MessagesContainer};
use rayhunter::gsmtap;
use rayhunter::hdlc::hdlc_encapsulate;
use rayhunter::information_element::InformationElement;
use rayhunter::timestamp::Timestamp;

fn log_chunk(log_code: u16, timestamp: u64, payload: &[u8]) -> Vec<u8> {
    let mut msg = vec![0x10u8];
    msg.extend_from_slice(&log_code.to_le_bytes());
    msg.extend_from_slice(&timestamp.to_le_bytes());
    msg.extend_from_slice(payload);
    hdlc_encapsulate(&msg)
}

fn container(chunks: Vec<Vec<u8>>) -> MessagesContainer {
    MessagesContainer { data_type: DataType::UserSpace, messages: chunks }
}

fn config_with(f: impl Fn(&mut AnalyzerConfig)) -> AnalyzerConfig {
    let mut config = AnalyzerConfig {
        imsi_requested: false,
        connection_redirect_2g_downgrade: false,
        lte_sib6_and_7_downgrade: false,
        null_cipher: false,
        cellular_network: false,
    };
    f(&mut config);
    config
}

/// A GSM RR CCCH record holding a Paging Request Type 1 that asks for an
/// IMSI identity.
fn imsi_paging_chunk() -> Vec<u8> {
    // Channel 0x03 = CCCH downlink; six layer-3 bytes follow.
    let l3 = [0x25u8, 0x06, 0x21, 0x00, 0x05, 0x09];
    let mut record = vec![0x03u8, l3.len() as u8];
    record.extend_from_slice(&l3);
    log_chunk(0x512f, 4, &record)
}

#[test]
fn default_config_enables_everything() {
    let config = AnalyzerConfig::default();
    assert!(config.imsi_requested);
    assert!(config.connection_redirect_2g_downgrade);
    assert!(config.lte_sib6_and_7_downgrade);
    assert!(config.null_cipher);
    assert!(config.cellular_network);
}

#[test]
fn empty_container_yields_an_empty_row() {
    let mut harness = Harness::new_with_config(&AnalyzerConfig::default());
    let row = harness.analyze_qmdl_messages(container(Vec::new()));
    assert!(row.skipped_message_reasons.is_empty());
    assert!(row.analysis.is_empty());
    assert!(row.is_empty());
    assert!(!row.contains_warnings());
}

#[test]
fn imsi_paging_raises_a_medium_warning() {
    let config = config_with(|c| c.imsi_requested = true);
    let mut harness = Harness::new_with_config(&config);
    let row = harness.analyze_qmdl_messages(container(vec![imsi_paging_chunk()]));
    assert!(row.skipped_message_reasons.is_empty());
    assert_eq!(row.analysis.len(), 1);
    assert_eq!(row.analysis[0].events.len(), 1);
    let event = row.analysis[0].events[0].as_ref().expect("an event in the only slot");
    assert!(matches!(
        event.event_type,
        EventType::QualitativeWarning { severity: Severity::Medium }
    ));
    assert!(event.message.contains("IMSI requested"));
    assert!(row.contains_warnings());
    // The analysis carries the baseband timestamp of the message.
    assert_eq!(row.analysis[0].timestamp, Timestamp::from_qualcomm_ticks(4));
}

#[test]
fn lte_sib7_with_gsm_reselection_raises_a_warning() {
    // LTE RRC OTA record: version 0, PDU 2 (BCCH-DL-SCH), SIB type 7 with
    // one legacy reselection entry.
    let record = vec![0u8, 2, 2, 0, 7, 1];
    let config = config_with(|c| c.lte_sib6_and_7_downgrade = true);
    let mut harness = Harness::new_with_config(&config);
    let row = harness.analyze_qmdl_messages(container(vec![log_chunk(0xb0c0, 9, &record)]));
    assert!(row.skipped_message_reasons.is_empty());
    assert_eq!(row.analysis.len(), 1);
    assert_eq!(row.analysis[0].events.len(), 1);
    let event = row.analysis[0].events[0].as_ref().expect("an event in the only slot");
    assert!(matches!(event.event_type, EventType::QualitativeWarning { .. }));
    assert!(row.contains_warnings());
}

#[test]
fn corrupted_message_is_skipped_not_fatal() {
    let mut chunk = imsi_paging_chunk();
    chunk[0] ^= 0x01;
    let mut harness = Harness::new_with_config(&AnalyzerConfig::default());
    let row = harness.analyze_qmdl_messages(container(vec![chunk]));
    assert_eq!(row.skipped_message_reasons.len(), 1);
    assert_eq!(row.skipped_message_reasons[0], "HDLC frame CRC mismatch");
    assert!(row.analysis.is_empty());
    assert!(!row.is_empty());
    assert!(!row.contains_warnings());
}

#[test]
fn rows_and_analyses_keep_container_and_message_order() {
    let config = config_with(|c| c.imsi_requested = true);
    let mut harness = Harness::new_with_config(&config);
    let mut bad = imsi_paging_chunk();
    bad[0] ^= 0x01;
    let row = harness.analyze_qmdl_messages(container(vec![
        imsi_paging_chunk(),
        bad,
        imsi_paging_chunk(),
    ]));
    // Both intact messages produced an analysis, in message order; the
    // corrupted one landed in the skip list without aborting anything.
    assert_eq!(row.analysis.len(), 2);
    assert_eq!(row.skipped_message_reasons.len(), 1);
    assert_eq!(row.analysis[0].timestamp, row.analysis[1].timestamp);
}

#[test]
fn slot_alignment_matches_the_enabled_analyzer_count() {
    let config = config_with(|c| {
        c.imsi_requested = true;
        c.connection_redirect_2g_downgrade = true;
        c.null_cipher = true;
    });
    let mut harness = Harness::new_with_config(&config);
    let row = harness.analyze_qmdl_messages(container(vec![imsi_paging_chunk()]));
    assert_eq!(row.analysis.len(), 1);
    // Three element analyzers enabled: three slots, positionally aligned.
    assert_eq!(row.analysis[0].events.len(), 3);
    assert!(row.analysis[0].events[0].is_some());
    assert!(row.analysis[0].events[1].is_none());
    assert!(row.analysis[0].events[2].is_none());
}

#[test]
fn null_cipher_detector_fires_on_gsm_and_lte() {
    let config = config_with(|c| c.null_cipher = true);
    let mut harness = Harness::new_with_config(&config);

    // GSM DCCH ciphering mode command starting ciphering with algorithm 0.
    let gsm_record = vec![0x00u8, 0x04, 0x10, 0x06, 0x35, 0x01];
    let row = harness.analyze_qmdl_messages(container(vec![log_chunk(0x512f, 1, &gsm_record)]));
    assert!(row.contains_warnings());

    // LTE DCCH security mode command selecting the null algorithm: carried
    // in an LTE RRC record, version 0, PDU 6 (DL-DCCH).
    let lte_record = vec![0u8, 6, 2, 0, 0x0d, 0x20];
    let row = harness.analyze_qmdl_messages(container(vec![log_chunk(0xb0c0, 1, &lte_record)]));
    assert!(row.contains_warnings());

    // The same command selecting a real algorithm raises nothing.
    let lte_record = vec![0u8, 6, 2, 0, 0x0d, 0x21];
    let row = harness.analyze_qmdl_messages(container(vec![log_chunk(0xb0c0, 1, &lte_record)]));
    assert!(!row.contains_warnings());
}

#[test]
fn connection_redirect_detector_fires_on_2g_release() {
    let config = config_with(|c| c.connection_redirect_2g_downgrade = true);
    let mut harness = Harness::new_with_config(&config);
    // LTE DL-DCCH connection release (0x05) redirecting to GERAN (0x02).
    let record = vec![0u8, 6, 2, 0, 0x05, 0x02];
    let row = harness.analyze_qmdl_messages(container(vec![log_chunk(0xb0c0, 1, &record)]));
    assert!(row.contains_warnings());
    let event = row.analysis[0].events[0].as_ref().unwrap();
    assert!(matches!(
        event.event_type,
        EventType::QualitativeWarning { severity: Severity::High }
    ));
}

#[test]
fn cellular_network_analyzer_notes_cell_changes_only() {
    let config = config_with(|c| c.cellular_network = true);
    let mut harness = Harness::new_with_config(&config);
    let cell_record = 0x00000501u32.to_le_bytes();

    let row = harness.analyze_qmdl_messages(container(vec![log_chunk(0xb0e4, 1, &cell_record)]));
    assert_eq!(row.analysis.len(), 1);
    assert_eq!(row.analysis[0].events.len(), 1);
    let event = row.analysis[0].events[0].as_ref().unwrap();
    assert!(matches!(event.event_type, EventType::Informational));
    assert!(!row.contains_warnings());

    // The same serving cell again: nothing new to say.
    let row = harness.analyze_qmdl_messages(container(vec![log_chunk(0xb0e4, 2, &cell_record)]));
    assert!(row.is_empty());

    // A different cell: one more informational event.
    let other_cell = 0x00000502u32.to_le_bytes();
    let row = harness.analyze_qmdl_messages(container(vec![log_chunk(0xb0e4, 3, &other_cell)]));
    assert_eq!(row.analysis.len(), 1);
}

#[test]
fn measurement_records_pass_without_element_analysis() {
    // A burst-metrics record carries no over-the-air signaling.
    let config = config_with(|c| c.imsi_requested = true);
    let mut harness = Harness::new_with_config(&config);
    let row = harness.analyze_qmdl_messages(container(vec![log_chunk(0x5134, 1, &[1, 2, 3])]));
    assert!(row.is_empty());
}

#[test]
fn empty_signaling_payload_is_a_skip_reason() {
    // A GSM record announcing zero layer-3 bytes decodes to a frame with
    // an empty payload, which yields no information element.
    let record = vec![0x03u8, 0x00];
    let config = config_with(|c| c.imsi_requested = true);
    let mut harness = Harness::new_with_config(&config);
    let row = harness.analyze_qmdl_messages(container(vec![log_chunk(0x512f, 1, &record)]));
    assert_eq!(row.skipped_message_reasons.len(), 1);
    assert_eq!(row.skipped_message_reasons[0], "signaling frame has empty payload");
}

#[test]
fn metadata_lists_the_slots_in_registration_order() {
    let harness = Harness::new_with_config(&AnalyzerConfig::default());
    let names = harness.get_names();
    assert_eq!(
        names,
        vec![
            "IMSI Requested",
            "Connection Redirect 2G Downgrade",
            "LTE SIB 6/7 Downgrade",
            "Null Cipher",
            "Cellular Network",
        ]
    );
    let descriptions = harness.get_descriptions();
    assert_eq!(descriptions.len(), 5);
    let metadata = harness.get_metadata();
    assert_eq!(metadata.analyzers.len(), 5);
    for (i, analyzer) in metadata.analyzers.iter().enumerate() {
        assert_eq!(analyzer.name, names[i]);
        assert_eq!(analyzer.description, descriptions[i]);
    }
    assert_eq!(metadata.runtime.name, "rayhunter");
}

#[test]
fn a_partial_config_keeps_only_its_slots() {
    let config = config_with(|c| c.null_cipher = true);
    let harness = Harness::new_with_config(&config);
    assert_eq!(harness.get_names(), vec!["Null Cipher"]);
}

#[test]
fn empty_row_predicate_tracks_both_lists() {
    let empty = AnalysisRow {
        timestamp: Timestamp::from_qualcomm_ticks(0),
        skipped_message_reasons: Vec::new(),
        analysis: Vec::new(),
    };
    assert!(empty.is_empty());
    let with_skip = AnalysisRow {
        timestamp: Timestamp::from_qualcomm_ticks(0),
        skipped_message_reasons: vec!["reason".to_string()],
        analysis: Vec::new(),
    };
    assert!(!with_skip.is_empty());
    let with_analysis = AnalysisRow {
        timestamp: Timestamp::from_qualcomm_ticks(0),
        skipped_message_reasons: Vec::new(),
        analysis: vec![PacketAnalysis {
            timestamp: Timestamp::from_qualcomm_ticks(0),
            events: vec![None],
        }],
    };
    assert!(!with_analysis.is_empty());
    // A recorded analysis whose slots are all empty is no warning.
    assert!(!with_analysis.contains_warnings());
}

#[test]
fn gsmtap_parser_reports_malformed_records() {
    let msg = Message::Log { timestamp: 1, log_code: 0x512f, payload: vec![0x03] };
    assert!(gsmtap::parse(&msg).is_err());
    let msg = Message::Log { timestamp: 1, log_code: 0x512f, payload: vec![0x44, 0x00] };
    assert_eq!(gsmtap::parse(&msg), Err(gsmtap::GsmtapParserError::UnknownGsmChannel));
    let msg = Message::Log { timestamp: 1, log_code: 0xb0c0, payload: vec![77, 2, 0, 0] };
    assert_eq!(gsmtap::parse(&msg), Err(gsmtap::GsmtapParserError::UnknownLteVersion));
    // A GSM record announcing more layer-3 bytes than it carries.
    let msg = Message::Log { timestamp: 1, log_code: 0x512f, payload: vec![0x03, 9, 1] };
    assert_eq!(gsmtap::parse(&msg), Err(gsmtap::GsmtapParserError::TruncatedPayload));
    // A WCDMA record naming an unknown sub-channel.
    let msg = Message::Log { timestamp: 1, log_code: 0x412f, payload: vec![99, 1, 2] };
    assert_eq!(gsmtap::parse(&msg), Err(gsmtap::GsmtapParserError::UnknownWcdmaChannel));
    // An LTE RRC record naming a PDU its version does not define.
    let msg = Message::Log { timestamp: 1, log_code: 0xb0c0, payload: vec![0, 99, 0, 0] };
    assert_eq!(gsmtap::parse(&msg), Err(gsmtap::GsmtapParserError::UnknownLtePdu));
}

#[test]
fn wcdma_and_nas_records_decode_to_frames() {
    // WCDMA downlink DCCH signaling.
    let msg = Message::Log { timestamp: 1, log_code: 0x412f, payload: vec![3, 0xaa, 0xbb] };
    let (_, frame) = gsmtap::parse(&msg).unwrap().unwrap();
    assert_eq!(frame.rat, Rat::Wcdma);
    assert_eq!(frame.channel, Channel::Dcch);
    assert_eq!(frame.direction, Direction::Downlink);
    assert_eq!(frame.payload, vec![0xaa, 0xbb]);
    // An outgoing LTE NAS record is uplink.
    let msg = Message::Log { timestamp: 1, log_code: 0xb0e3, payload: vec![7, 8] };
    let (_, frame) = gsmtap::parse(&msg).unwrap().unwrap();
    assert_eq!(frame.rat, Rat::Lte);
    assert_eq!(frame.direction, Direction::Uplink);
}

#[test]
fn information_element_keeps_the_frame_tagging() {
    let frame = GsmtapMessage {
        rat: Rat::Gsm,
        channel: Channel::Ccch,
        direction: Direction::Downlink,
        payload: vec![1, 2, 3],
    };
    let ie = InformationElement::from_gsmtap(&frame).unwrap();
    assert_eq!(ie.rat, Rat::Gsm);
    assert_eq!(ie.channel, Channel::Ccch);
    assert_eq!(ie.direction, Direction::Downlink);
    assert_eq!(ie.payload, vec![1, 2, 3]);
}
