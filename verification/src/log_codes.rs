//! Diagnostic log-code identifiers, and the fixed registry of codes the
//! driver subscribes to.

use vstd::prelude::*;

verus! {

// 2G (GSM) log types.
pub const LOG_GSM_RR_SIGNALING_MESSAGE_C: u32 = 0x512f;

// Channel identifiers used inside GSM RR signaling log payloads.
pub const DCCH: u32 = 0x00;
pub const BCCH: u32 = 0x01;
pub const L2_RACH: u32 = 0x02;
pub const CCCH: u32 = 0x03;
pub const SACCH: u32 = 0x04;
pub const SDCCH: u32 = 0x05;
pub const FACCH_F: u32 = 0x06;
pub const FACCH_H: u32 = 0x07;
pub const L2_RACH_WITH_NO_DELAY: u32 = 0x08;

// GPRS log types.
pub const LOG_GPRS_MAC_SIGNALLING_MESSAGE_C: u32 = 0x5226;

pub const PACCH_RRBP_CHANNEL: u32 = 0x03;
pub const UL_PACCH_CHANNEL: u32 = 0x04;
pub const DL_PACCH_CHANNEL: u32 = 0x83;

pub const PACKET_CHANNEL_REQUEST: u32 = 0x20;

// 5G log types.
pub const LOG_NR_RRC_OTA_MSG_LOG_C: u32 = 0xb821;

// 4G log types.
pub const LOG_LTE_RRC_OTA_MSG_LOG_C: u32 = 0xb0c0;
pub const LOG_LTE_NAS_ESM_OTA_IN_MSG_LOG_C: u32 = 0xb0e2;
pub const LOG_LTE_NAS_ESM_OTA_OUT_MSG_LOG_C: u32 = 0xb0e3;
pub const LOG_LTE_NAS_EMM_OTA_IN_MSG_LOG_C: u32 = 0xb0ec;
pub const LOG_LTE_NAS_EMM_OTA_OUT_MSG_LOG_C: u32 = 0xb0ed;

// LTE RRC PDU numbers, by log-packet version.
pub const LTE_BCCH_BCH_V0: u32 = 1;
pub const LTE_BCCH_DL_SCH_V0: u32 = 2;
pub const LTE_MCCH_V0: u32 = 3;
pub const LTE_PCCH_V0: u32 = 4;
pub const LTE_DL_CCCH_V0: u32 = 5;
pub const LTE_DL_DCCH_V0: u32 = 6;
pub const LTE_UL_CCCH_V0: u32 = 7;
pub const LTE_UL_DCCH_V0: u32 = 8;

pub const LTE_BCCH_BCH_V14: u32 = 1;
pub const LTE_BCCH_DL_SCH_V14: u32 = 2;
pub const LTE_MCCH_V14: u32 = 4;
pub const LTE_PCCH_V14: u32 = 5;
pub const LTE_DL_CCCH_V14: u32 = 6;
pub const LTE_DL_DCCH_V14: u32 = 7;
pub const LTE_UL_CCCH_V14: u32 = 8;
pub const LTE_UL_DCCH_V14: u32 = 9;

pub const LTE_BCCH_BCH_V9: u32 = 8;
pub const LTE_BCCH_DL_SCH_V9: u32 = 9;
pub const LTE_MCCH_V9: u32 = 10;
pub const LTE_PCCH_V9: u32 = 11;
pub const LTE_DL_CCCH_V9: u32 = 12;
pub const LTE_DL_DCCH_V9: u32 = 13;
pub const LTE_UL_CCCH_V9: u32 = 14;
pub const LTE_UL_DCCH_V9: u32 = 15;

pub const LTE_BCCH_BCH_V19: u32 = 1;
pub const LTE_BCCH_DL_SCH_V19: u32 = 3;
pub const LTE_MCCH_V19: u32 = 6;
pub const LTE_PCCH_V19: u32 = 7;
pub const LTE_DL_CCCH_V19: u32 = 8;
pub const LTE_DL_DCCH_V19: u32 = 9;
pub const LTE_UL_CCCH_V19: u32 = 10;
pub const LTE_UL_DCCH_V19: u32 = 11;

pub const LTE_BCCH_BCH_NB: u32 = 45;
pub const LTE_BCCH_DL_SCH_NB: u32 = 46;
pub const LTE_PCCH_NB: u32 = 47;
pub const LTE_DL_CCCH_NB: u32 = 48;
pub const LTE_DL_DCCH_NB: u32 = 49;
pub const LTE_UL_CCCH_NB: u32 = 50;
pub const LTE_UL_DCCH_NB: u32 = 52;

// 3G RRC sub-channel identifiers.
pub const RRCLOG_SIG_UL_CCCH: u32 = 0;
pub const RRCLOG_SIG_UL_DCCH: u32 = 1;
pub const RRCLOG_SIG_DL_CCCH: u32 = 2;
pub const RRCLOG_SIG_DL_DCCH: u32 = 3;
pub const RRCLOG_SIG_DL_BCCH_BCH: u32 = 4;
pub const RRCLOG_SIG_DL_BCCH_FACH: u32 = 5;
pub const RRCLOG_SIG_DL_PCCH: u32 = 6;
pub const RRCLOG_SIG_DL_MCCH: u32 = 7;
pub const RRCLOG_SIG_DL_MSCH: u32 = 8;
pub const RRCLOG_EXTENSION_SIB: u32 = 9;
pub const RRCLOG_SIB_CONTAINER: u32 = 10;

// 3G layer-3 packets.
pub const WCDMA_SIGNALLING_MESSAGE: u32 = 0x412f;

// Upper layers.
pub const LOG_DATA_PROTOCOL_LOGGING_C: u32 = 0x11eb;
pub const LOG_UMTS_NAS_OTA_MESSAGE_LOG_PACKET_C: u32 = 0x713a;

// LTE serving-cell and neighbor information.
pub const LOG_LTE_ML1_SERVING_CELL_MEAS_AND_EVAL: u32 = 0xb0e0;
pub const LOG_LTE_ML1_NEIGHBOR_MEASUREMENTS: u32 = 0xb0e1;
pub const LOG_LTE_ML1_SERVING_CELL_INFO: u32 = 0xb0e4;
pub const LOG_LTE_ML1_INTRA_FREQ_MEAS: u32 = 0xb0e5;
pub const LOG_LTE_ML1_INTER_FREQ_MEAS: u32 = 0xb0e6;
pub const LOG_LTE_ML1_INTER_RAT_MEAS: u32 = 0xb0e7;
pub const LOG_LTE_ML1_CELL_RESEL_CANDIDATES: u32 = 0xb0e8;
pub const LOG_LTE_ML1_COMMON_DL_CONFIG: u32 = 0xb0ea;
pub const LOG_LTE_ML1_SERVING_CELL_COM_LOOP: u32 = 0xb0eb;

// LTE system information.
pub const LOG_LTE_RRC_MEAS_CFG: u32 = 0xb0c1;
pub const LOG_LTE_RRC_CELL_INFO: u32 = 0xb0c2;
pub const LOG_LTE_RRC_STATE: u32 = 0xb0c3;
pub const LOG_LTE_RRC_PLMN_SEARCH_INFO: u32 = 0xb0c4;

// GSM cell information.
pub const LOG_GSM_L1_BURST_METRICS: u32 = 0x5134;
pub const LOG_GSM_L1_SCELL_BA_LIST: u32 = 0x5135;
pub const LOG_GSM_L1_NCELL_ACQ: u32 = 0x5136;
pub const LOG_GSM_L1_NCELL_BA_LIST: u32 = 0x5137;
pub const LOG_GSM_CELL_OPTIONS: u32 = 0x5138;
pub const LOG_GSM_POWER_SCAN: u32 = 0x5139;
pub const LOG_GSM_L1_CELL_ID: u32 = 0x513a;
pub const LOG_GSM_RR_CELL_INFORMATION: u32 = 0x513b;

// WCDMA cell information.
pub const LOG_WCDMA_CELL_ID: u32 = 0x4127;
pub const LOG_WCDMA_RRC_STATES: u32 = 0x4128;
pub const LOG_WCDMA_PLMN_SEARCH: u32 = 0x4129;
pub const LOG_WCDMA_SERVING_CELL_INFO: u32 = 0x412a;
pub const LOG_WCDMA_NEIGHBOR_CELL_INFO: u32 = 0x412b;

// Measurement reports and cell quality.
pub const LOG_LTE_PHY_SERV_CELL_MEASUREMENT: u32 = 0xb0f0;
pub const LOG_LTE_PHY_NEIGH_CELL_MEASUREMENT: u32 = 0xb0f1;
pub const LOG_LTE_PHY_INTER_FREQ_MEAS: u32 = 0xb0f2;
pub const LOG_LTE_PHY_INTER_RAT_MEAS: u32 = 0xb0f3;

// Location-area and tracking-area information.
pub const LOG_LTE_EMM_OTA_INCOMING_MSG: u32 = 0xb0ec;
pub const LOG_LTE_EMM_OTA_OUTGOING_MSG: u32 = 0xb0ed;
pub const LOG_LTE_NAS_EMM_STATE: u32 = 0xb0ee;
pub const LOG_LTE_NAS_ESM_STATE: u32 = 0xb0ef;

// Network selection and registration events.
pub const LOG_NAS_MANUAL_PLMN_SELECTION: u32 = 0x713f;
pub const LOG_NAS_ATTACH_REQUEST: u32 = 0x7140;
pub const LOG_NAS_ATTACH_ACCEPT: u32 = 0x7141;
pub const LOG_NAS_LOCATION_UPDATE: u32 = 0x7142;
pub const LOG_NAS_ROUTING_AREA_UPDATE: u32 = 0x7143;
pub const LOG_NAS_TRACKING_AREA_UPDATE: u32 = 0x7144;

/// The fixed subscription set: every log code the driver asks the baseband
/// to emit. Adding or removing a code changes what the detectors can see.
pub open spec fn spec_raw_logging_codes() -> Seq<u32> {
    seq![
        LOG_GPRS_MAC_SIGNALLING_MESSAGE_C,
        LOG_GSM_RR_SIGNALING_MESSAGE_C,
        WCDMA_SIGNALLING_MESSAGE,
        LOG_LTE_RRC_OTA_MSG_LOG_C,
        LOG_NR_RRC_OTA_MSG_LOG_C,
        LOG_UMTS_NAS_OTA_MESSAGE_LOG_PACKET_C,
        LOG_LTE_NAS_ESM_OTA_IN_MSG_LOG_C,
        LOG_LTE_NAS_ESM_OTA_OUT_MSG_LOG_C,
        LOG_LTE_NAS_EMM_OTA_IN_MSG_LOG_C,
        LOG_LTE_NAS_EMM_OTA_OUT_MSG_LOG_C,
        LOG_DATA_PROTOCOL_LOGGING_C,
        LOG_LTE_ML1_SERVING_CELL_MEAS_AND_EVAL,
        LOG_LTE_ML1_NEIGHBOR_MEASUREMENTS,
        LOG_LTE_ML1_SERVING_CELL_INFO,
        LOG_LTE_ML1_INTRA_FREQ_MEAS,
        LOG_LTE_ML1_INTER_FREQ_MEAS,
        LOG_LTE_ML1_INTER_RAT_MEAS,
        LOG_LTE_ML1_CELL_RESEL_CANDIDATES,
        LOG_LTE_ML1_COMMON_DL_CONFIG,
        LOG_LTE_ML1_SERVING_CELL_COM_LOOP,
        LOG_LTE_RRC_MEAS_CFG,
        LOG_LTE_RRC_CELL_INFO,
        LOG_LTE_RRC_STATE,
        LOG_LTE_RRC_PLMN_SEARCH_INFO,
        LOG_GSM_L1_BURST_METRICS,
        LOG_GSM_L1_SCELL_BA_LIST,
        LOG_GSM_L1_NCELL_ACQ,
        LOG_GSM_L1_NCELL_BA_LIST,
        LOG_GSM_CELL_OPTIONS,
        LOG_GSM_POWER_SCAN,
        LOG_GSM_L1_CELL_ID,
        LOG_GSM_RR_CELL_INFORMATION,
        LOG_WCDMA_CELL_ID,
        LOG_WCDMA_RRC_STATES,
        LOG_WCDMA_PLMN_SEARCH,
        LOG_WCDMA_SERVING_CELL_INFO,
        LOG_WCDMA_NEIGHBOR_CELL_INFO,
        LOG_LTE_PHY_SERV_CELL_MEASUREMENT,
        LOG_LTE_PHY_NEIGH_CELL_MEASUREMENT,
    ]
}

/// The subscription set as an executable vector, in registry order.
pub fn log_codes_for_raw_packet_logging() -> (codes: Vec<u32>)
    ensures
        codes@ == spec_raw_logging_codes(),
{
    let mut codes: Vec<u32> = Vec::new();
    codes.push(LOG_GPRS_MAC_SIGNALLING_MESSAGE_C);
    codes.push(LOG_GSM_RR_SIGNALING_MESSAGE_C);
    codes.push(WCDMA_SIGNALLING_MESSAGE);
    codes.push(LOG_LTE_RRC_OTA_MSG_LOG_C);
    codes.push(LOG_NR_RRC_OTA_MSG_LOG_C);
    codes.push(LOG_UMTS_NAS_OTA_MESSAGE_LOG_PACKET_C);
    codes.push(LOG_LTE_NAS_ESM_OTA_IN_MSG_LOG_C);
    codes.push(LOG_LTE_NAS_ESM_OTA_OUT_MSG_LOG_C);
    codes.push(LOG_LTE_NAS_EMM_OTA_IN_MSG_LOG_C);
    codes.push(LOG_LTE_NAS_EMM_OTA_OUT_MSG_LOG_C);
    codes.push(LOG_DATA_PROTOCOL_LOGGING_C);
    codes.push(LOG_LTE_ML1_SERVING_CELL_MEAS_AND_EVAL);
    codes.push(LOG_LTE_ML1_NEIGHBOR_MEASUREMENTS);
    codes.push(LOG_LTE_ML1_SERVING_CELL_INFO);
    codes.push(LOG_LTE_ML1_INTRA_FREQ_MEAS);
    codes.push(LOG_LTE_ML1_INTER_FREQ_MEAS);
    codes.push(LOG_LTE_ML1_INTER_RAT_MEAS);
    codes.push(LOG_LTE_ML1_CELL_RESEL_CANDIDATES);
    codes.push(LOG_LTE_ML1_COMMON_DL_CONFIG);
    codes.push(LOG_LTE_ML1_SERVING_CELL_COM_LOOP);
    codes.push(LOG_LTE_RRC_MEAS_CFG);
    codes.push(LOG_LTE_RRC_CELL_INFO);
    codes.push(LOG_LTE_RRC_STATE);
    codes.push(LOG_LTE_RRC_PLMN_SEARCH_INFO);
    codes.push(LOG_GSM_L1_BURST_METRICS);
    codes.push(LOG_GSM_L1_SCELL_BA_LIST);
    codes.push(LOG_GSM_L1_NCELL_ACQ);
    codes.push(LOG_GSM_L1_NCELL_BA_LIST);
    codes.push(LOG_GSM_CELL_OPTIONS);
    codes.push(LOG_GSM_POWER_SCAN);
    codes.push(LOG_GSM_L1_CELL_ID);
    codes.push(LOG_GSM_RR_CELL_INFORMATION);
    codes.push(LOG_WCDMA_CELL_ID);
    codes.push(LOG_WCDMA_RRC_STATES);
    codes.push(LOG_WCDMA_PLMN_SEARCH);
    codes.push(LOG_WCDMA_SERVING_CELL_INFO);
    codes.push(LOG_WCDMA_NEIGHBOR_CELL_INFO);
    codes.push(LOG_LTE_PHY_SERV_CELL_MEASUREMENT);
    codes.push(LOG_LTE_PHY_NEIGH_CELL_MEASUREMENT);
    proof {
        assert(codes@ =~= spec_raw_logging_codes());
    }
    codes
}

} // verus!
