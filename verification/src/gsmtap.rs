//! First stage of the signaling decoder: from a diagnostic log message to
//! a GSMTAP-style frame — the payload tagged with radio access technology,
//! logical channel and direction, plus the baseband timestamp.
//!
//! Each subscribed log code has its own sub-decoder for the vendor layout
//! of that log record. Decoding is total: a malformed payload is a skip
//! reason, never a panic; a log code that carries no signaling yields
//! nothing.

use vstd::prelude::*;
use vstd::bytes::{spec_u16_from_le_bytes, u16_from_le_bytes};
use vstd::slice::slice_subrange;
use crate::diag::{Message, MessageV};
use crate::log_codes;

verus! {

/// Radio access technology of a decoded frame.
#[derive(Clone, Copy, Debug, PartialEq, Eq, Structural)]
pub enum Rat {
    Gsm,
    Gprs,
    Wcdma,
    Umts,
    Lte,
    Nr,
}

/// Logical channel of a decoded frame.
#[derive(Clone, Copy, Debug, PartialEq, Eq, Structural)]
pub enum Channel {
    /// Broadcast control channel (BCH transport).
    Bcch,
    /// Broadcast control channel on the downlink shared transport, where
    /// system information blocks travel.
    BcchDlSch,
    /// Common control channel.
    Ccch,
    /// Dedicated control channel.
    Dcch,
    /// Paging control channel.
    Pcch,
    /// Multicast control channel.
    Mcch,
    /// Slow associated control channel.
    Sacch,
    /// Packet associated control channel.
    Pacch,
}

/// Direction of a decoded frame.
#[derive(Clone, Copy, Debug, PartialEq, Eq, Structural)]
pub enum Direction {
    Uplink,
    Downlink,
}

/// A GSMTAP-style frame: the signaling payload and its tagging.
#[derive(Clone, Debug, PartialEq)]
pub struct GsmtapMessage {
    pub rat: Rat,
    pub channel: Channel,
    pub direction: Direction,
    pub payload: Vec<u8>,
}

/// Mathematical model of a `GsmtapMessage`.
pub struct GsmtapMessageV {
    pub rat: Rat,
    pub channel: Channel,
    pub direction: Direction,
    pub payload: Seq<u8>,
}

impl View for GsmtapMessage {
    type V = GsmtapMessageV;

    open spec fn view(&self) -> GsmtapMessageV {
        GsmtapMessageV {
            rat: self.rat,
            channel: self.channel,
            direction: self.direction,
            payload: self.payload@,
        }
    }
}

/// Why a log record with a signaling log code could not be decoded.
#[derive(Clone, Copy, Debug, PartialEq, Eq, Structural)]
pub enum GsmtapParserError {
    /// The record ends before its sub-decoder's header does.
    TruncatedHeader,
    /// The header announces more payload bytes than the record holds.
    TruncatedPayload,
    /// A GSM record names a channel the decoder does not know.
    UnknownGsmChannel,
    /// A WCDMA record names a sub-channel the decoder does not know.
    UnknownWcdmaChannel,
    /// An LTE RRC record carries an unknown packet version.
    UnknownLteVersion,
    /// An LTE RRC record names a PDU number its version does not define.
    UnknownLtePdu,
}

impl GsmtapParserError {
    /// A short diagnostic text, recorded as a skip reason.
    pub open spec fn spec_text(self) -> Seq<char> {
        match self {
            GsmtapParserError::TruncatedHeader => "log record header truncated"@,
            GsmtapParserError::TruncatedPayload => "log record payload truncated"@,
            GsmtapParserError::UnknownGsmChannel => "unknown GSM channel in log record"@,
            GsmtapParserError::UnknownWcdmaChannel => "unknown WCDMA channel in log record"@,
            GsmtapParserError::UnknownLteVersion => "unknown LTE RRC log packet version"@,
            GsmtapParserError::UnknownLtePdu => "unknown LTE RRC PDU number"@,
        }
    }

    /// A short diagnostic text, recorded as a skip reason.
    pub fn text(&self) -> (r: String)
        ensures
            r@ == self.spec_text(),
    {
        match self {
            GsmtapParserError::TruncatedHeader => String::from_str("log record header truncated"),
            GsmtapParserError::TruncatedPayload => String::from_str(
                "log record payload truncated",
            ),
            GsmtapParserError::UnknownGsmChannel => String::from_str(
                "unknown GSM channel in log record",
            ),
            GsmtapParserError::UnknownWcdmaChannel => String::from_str(
                "unknown WCDMA channel in log record",
            ),
            GsmtapParserError::UnknownLteVersion => String::from_str(
                "unknown LTE RRC log packet version",
            ),
            GsmtapParserError::UnknownLtePdu => String::from_str("unknown LTE RRC PDU number"),
        }
    }
}

/// Channel and direction of a GSM RR record's channel byte: the low seven
/// bits name the channel, the top bit marks uplink.
pub open spec fn spec_gsm_channel(raw: u8) -> Option<(Channel, Direction)> {
    let dir = if raw & 0x80 == 0x80 {
        Direction::Uplink
    } else {
        Direction::Downlink
    };
    let chan = (raw & 0x7f) as u32;
    if chan == log_codes::DCCH {
        Some((Channel::Dcch, dir))
    } else if chan == log_codes::BCCH {
        Some((Channel::Bcch, dir))
    } else if chan == log_codes::CCCH {
        Some((Channel::Ccch, dir))
    } else if chan == log_codes::SACCH {
        Some((Channel::Sacch, dir))
    } else if chan == log_codes::SDCCH {
        Some((Channel::Dcch, dir))
    } else if chan == log_codes::FACCH_F || chan == log_codes::FACCH_H {
        Some((Channel::Dcch, dir))
    } else {
        None
    }
}

/// Channel and direction of a WCDMA signaling record's sub-channel byte.
pub open spec fn spec_wcdma_channel(raw: u8) -> Option<(Channel, Direction)> {
    let chan = raw as u32;
    if chan == log_codes::RRCLOG_SIG_UL_CCCH {
        Some((Channel::Ccch, Direction::Uplink))
    } else if chan == log_codes::RRCLOG_SIG_UL_DCCH {
        Some((Channel::Dcch, Direction::Uplink))
    } else if chan == log_codes::RRCLOG_SIG_DL_CCCH {
        Some((Channel::Ccch, Direction::Downlink))
    } else if chan == log_codes::RRCLOG_SIG_DL_DCCH {
        Some((Channel::Dcch, Direction::Downlink))
    } else if chan == log_codes::RRCLOG_SIG_DL_BCCH_BCH {
        Some((Channel::Bcch, Direction::Downlink))
    } else if chan == log_codes::RRCLOG_SIG_DL_PCCH {
        Some((Channel::Pcch, Direction::Downlink))
    } else {
        None
    }
}

/// Channel and direction of an LTE RRC PDU number, under the numbering of
/// the given log-packet version.
pub open spec fn spec_lte_rrc_channel(version: u8, pdu: u8) -> Option<(Channel, Direction)> {
    let p = pdu as u32;
    if version == 0 {
        if p == log_codes::LTE_BCCH_BCH_V0 {
            Some((Channel::Bcch, Direction::Downlink))
        } else if p == log_codes::LTE_BCCH_DL_SCH_V0 {
            Some((Channel::BcchDlSch, Direction::Downlink))
        } else if p == log_codes::LTE_MCCH_V0 {
            Some((Channel::Mcch, Direction::Downlink))
        } else if p == log_codes::LTE_PCCH_V0 {
            Some((Channel::Pcch, Direction::Downlink))
        } else if p == log_codes::LTE_DL_CCCH_V0 {
            Some((Channel::Ccch, Direction::Downlink))
        } else if p == log_codes::LTE_DL_DCCH_V0 {
            Some((Channel::Dcch, Direction::Downlink))
        } else if p == log_codes::LTE_UL_CCCH_V0 {
            Some((Channel::Ccch, Direction::Uplink))
        } else if p == log_codes::LTE_UL_DCCH_V0 {
            Some((Channel::Dcch, Direction::Uplink))
        } else {
            None
        }
    } else if version == 9 {
        if p == log_codes::LTE_BCCH_BCH_V9 {
            Some((Channel::Bcch, Direction::Downlink))
        } else if p == log_codes::LTE_BCCH_DL_SCH_V9 {
            Some((Channel::BcchDlSch, Direction::Downlink))
        } else if p == log_codes::LTE_MCCH_V9 {
            Some((Channel::Mcch, Direction::Downlink))
        } else if p == log_codes::LTE_PCCH_V9 {
            Some((Channel::Pcch, Direction::Downlink))
        } else if p == log_codes::LTE_DL_CCCH_V9 {
            Some((Channel::Ccch, Direction::Downlink))
        } else if p == log_codes::LTE_DL_DCCH_V9 {
            Some((Channel::Dcch, Direction::Downlink))
        } else if p == log_codes::LTE_UL_CCCH_V9 {
            Some((Channel::Ccch, Direction::Uplink))
        } else if p == log_codes::LTE_UL_DCCH_V9 {
            Some((Channel::Dcch, Direction::Uplink))
        } else {
            None
        }
    } else if version == 14 {
        if p == log_codes::LTE_BCCH_BCH_V14 {
            Some((Channel::Bcch, Direction::Downlink))
        } else if p == log_codes::LTE_BCCH_DL_SCH_V14 {
            Some((Channel::BcchDlSch, Direction::Downlink))
        } else if p == log_codes::LTE_MCCH_V14 {
            Some((Channel::Mcch, Direction::Downlink))
        } else if p == log_codes::LTE_PCCH_V14 {
            Some((Channel::Pcch, Direction::Downlink))
        } else if p == log_codes::LTE_DL_CCCH_V14 {
            Some((Channel::Ccch, Direction::Downlink))
        } else if p == log_codes::LTE_DL_DCCH_V14 {
            Some((Channel::Dcch, Direction::Downlink))
        } else if p == log_codes::LTE_UL_CCCH_V14 {
            Some((Channel::Ccch, Direction::Uplink))
        } else if p == log_codes::LTE_UL_DCCH_V14 {
            Some((Channel::Dcch, Direction::Uplink))
        } else {
            None
        }
    } else if version == 19 {
        if p == log_codes::LTE_BCCH_BCH_V19 {
            Some((Channel::Bcch, Direction::Downlink))
        } else if p == log_codes::LTE_BCCH_DL_SCH_V19 {
            Some((Channel::BcchDlSch, Direction::Downlink))
        } else if p == log_codes::LTE_MCCH_V19 {
            Some((Channel::Mcch, Direction::Downlink))
        } else if p == log_codes::LTE_PCCH_V19 {
            Some((Channel::Pcch, Direction::Downlink))
        } else if p == log_codes::LTE_DL_CCCH_V19 {
            Some((Channel::Ccch, Direction::Downlink))
        } else if p == log_codes::LTE_DL_DCCH_V19 {
            Some((Channel::Dcch, Direction::Downlink))
        } else if p == log_codes::LTE_UL_CCCH_V19 {
            Some((Channel::Ccch, Direction::Uplink))
        } else if p == log_codes::LTE_UL_DCCH_V19 {
            Some((Channel::Dcch, Direction::Uplink))
        } else {
            None
        }
    } else {
        None
    }
}

/// Decoding of a GSM RR signaling record: channel byte, length byte, then
/// that many layer-3 bytes.
pub open spec fn spec_parse_gsm_rr(ts: u64, p: Seq<u8>) -> Result<
    Option<(u64, GsmtapMessageV)>,
    GsmtapParserError,
> {
    if p.len() < 2 {
        Err(GsmtapParserError::TruncatedHeader)
    } else {
        match spec_gsm_channel(p[0]) {
            None => Err(GsmtapParserError::UnknownGsmChannel),
            Some((channel, direction)) => if p.len() < 2 + p[1] {
                Err(GsmtapParserError::TruncatedPayload)
            } else {
                Ok(
                    Some(
                        (
                            ts,
                            GsmtapMessageV {
                                rat: Rat::Gsm,
                                channel,
                                direction,
                                payload: p.subrange(2, 2 + p[1]),
                            },
                        ),
                    ),
                )
            },
        }
    }
}

/// Decoding of a WCDMA signaling record: sub-channel byte, then the
/// layer-3 bytes.
pub open spec fn spec_parse_wcdma(ts: u64, p: Seq<u8>) -> Result<
    Option<(u64, GsmtapMessageV)>,
    GsmtapParserError,
> {
    if p.len() < 1 {
        Err(GsmtapParserError::TruncatedHeader)
    } else {
        match spec_wcdma_channel(p[0]) {
            None => Err(GsmtapParserError::UnknownWcdmaChannel),
            Some((channel, direction)) => Ok(
                Some(
                    (
                        ts,
                        GsmtapMessageV {
                            rat: Rat::Wcdma,
                            channel,
                            direction,
                            payload: p.skip(1),
                        },
                    ),
                ),
            ),
        }
    }
}

/// Decoding of an LTE RRC OTA record: version byte, PDU number byte,
/// little-endian length, then that many message bytes.
pub open spec fn spec_parse_lte_rrc(ts: u64, p: Seq<u8>) -> Result<
    Option<(u64, GsmtapMessageV)>,
    GsmtapParserError,
> {
    if p.len() < 4 {
        Err(GsmtapParserError::TruncatedHeader)
    } else {
        let version = p[0];
        let pdu = p[1];
        let len = spec_u16_from_le_bytes(p.subrange(2, 4)) as int;
        if !(version == 0 || version == 9 || version == 14 || version == 19) {
            Err(GsmtapParserError::UnknownLteVersion)
        } else {
            match spec_lte_rrc_channel(version, pdu) {
                None => Err(GsmtapParserError::UnknownLtePdu),
                Some((channel, direction)) => if p.len() < 4 + len {
                    Err(GsmtapParserError::TruncatedPayload)
                } else {
                    Ok(
                        Some(
                            (
                                ts,
                                GsmtapMessageV {
                                    rat: Rat::Lte,
                                    channel,
                                    direction,
                                    payload: p.subrange(4, 4 + len),
                                },
                            ),
                        ),
                    )
                },
            }
        }
    }
}

/// Decoding of a NAS OTA record: the whole payload is the NAS PDU, carried
/// on the dedicated channel; the log code fixes RAT and direction.
pub open spec fn spec_parse_nas(ts: u64, p: Seq<u8>, rat: Rat, direction: Direction) -> Result<
    Option<(u64, GsmtapMessageV)>,
    GsmtapParserError,
> {
    Ok(Some((ts, GsmtapMessageV { rat, channel: Channel::Dcch, direction, payload: p })))
}

/// Decoding of one diagnostic message into a GSMTAP-style frame.
///
/// Responses carry no signaling. A log record is dispatched on its log
/// code; codes that carry no over-the-air signaling (measurement and
/// cell-information records) yield nothing.
pub open spec fn spec_parse_gsmtap(m: MessageV) -> Result<
    Option<(u64, GsmtapMessageV)>,
    GsmtapParserError,
> {
    match m {
        MessageV::Response { .. } => Ok(None),
        MessageV::Log { timestamp, log_code, payload } => {
            if log_code == log_codes::LOG_GSM_RR_SIGNALING_MESSAGE_C {
                spec_parse_gsm_rr(timestamp, payload)
            } else if log_code == log_codes::WCDMA_SIGNALLING_MESSAGE {
                spec_parse_wcdma(timestamp, payload)
            } else if log_code == log_codes::LOG_LTE_RRC_OTA_MSG_LOG_C {
                spec_parse_lte_rrc(timestamp, payload)
            } else if log_code == log_codes::LOG_NR_RRC_OTA_MSG_LOG_C {
                spec_parse_nas(timestamp, payload, Rat::Nr, Direction::Downlink)
            } else if log_code == log_codes::LOG_UMTS_NAS_OTA_MESSAGE_LOG_PACKET_C {
                spec_parse_nas(timestamp, payload, Rat::Umts, Direction::Downlink)
            } else if log_code == log_codes::LOG_LTE_NAS_ESM_OTA_IN_MSG_LOG_C || log_code
                == log_codes::LOG_LTE_NAS_EMM_OTA_IN_MSG_LOG_C {
                spec_parse_nas(timestamp, payload, Rat::Lte, Direction::Downlink)
            } else if log_code == log_codes::LOG_LTE_NAS_ESM_OTA_OUT_MSG_LOG_C || log_code
                == log_codes::LOG_LTE_NAS_EMM_OTA_OUT_MSG_LOG_C {
                spec_parse_nas(timestamp, payload, Rat::Lte, Direction::Uplink)
            } else {
                Ok(None)
            }
        },
    }
}

/// Decodes one diagnostic message into a GSMTAP-style frame, or the reason
/// it was skipped, or nothing for a record without signaling content.
pub fn parse(msg: &Message) -> (r: Result<Option<(u64, GsmtapMessage)>, GsmtapParserError>)
    ensures
        match r {
            Ok(Some((ts, g))) => spec_parse_gsmtap(msg@) matches Ok(Some((sts, sg))) && sts == ts
                && sg == g@,
            Ok(None) => spec_parse_gsmtap(msg@) == Ok::<
                Option<(u64, GsmtapMessageV)>,
                GsmtapParserError,
            >(None),
            Err(e) => spec_parse_gsmtap(msg@) == Err::<
                Option<(u64, GsmtapMessageV)>,
                GsmtapParserError,
            >(e),
        },
{
    match msg {
        Message::Response { .. } => Ok(None),
        Message::Log { timestamp, log_code, payload } => {
            let ts = *timestamp;
            let code = *log_code;
            if code == log_codes::LOG_GSM_RR_SIGNALING_MESSAGE_C {
                if payload.len() < 2 {
                    return Err(GsmtapParserError::TruncatedHeader);
                }
                let raw_chan = payload[0];
                let dir = if raw_chan & 0x80 == 0x80 {
                    Direction::Uplink
                } else {
                    Direction::Downlink
                };
                let chan = (raw_chan & 0x7f) as u32;
                let channel = if chan == log_codes::DCCH {
                    Channel::Dcch
                } else if chan == log_codes::BCCH {
                    Channel::Bcch
                } else if chan == log_codes::CCCH {
                    Channel::Ccch
                } else if chan == log_codes::SACCH {
                    Channel::Sacch
                } else if chan == log_codes::SDCCH {
                    Channel::Dcch
                } else if chan == log_codes::FACCH_F || chan == log_codes::FACCH_H {
                    Channel::Dcch
                } else {
                    return Err(GsmtapParserError::UnknownGsmChannel);
                };
                let l3_len = payload[1] as usize;
                if payload.len() < 2 + l3_len {
                    return Err(GsmtapParserError::TruncatedPayload);
                }
                let l3 = copy_range(payload, 2, 2 + l3_len);
                Ok(Some((ts, GsmtapMessage { rat: Rat::Gsm, channel, direction: dir, payload: l3 })))
            } else if code == log_codes::WCDMA_SIGNALLING_MESSAGE {
                if payload.len() < 1 {
                    return Err(GsmtapParserError::TruncatedHeader);
                }
                let chan = payload[0] as u32;
                let pair = if chan == log_codes::RRCLOG_SIG_UL_CCCH {
                    (Channel::Ccch, Direction::Uplink)
                } else if chan == log_codes::RRCLOG_SIG_UL_DCCH {
                    (Channel::Dcch, Direction::Uplink)
                } else if chan == log_codes::RRCLOG_SIG_DL_CCCH {
                    (Channel::Ccch, Direction::Downlink)
                } else if chan == log_codes::RRCLOG_SIG_DL_DCCH {
                    (Channel::Dcch, Direction::Downlink)
                } else if chan == log_codes::RRCLOG_SIG_DL_BCCH_BCH {
                    (Channel::Bcch, Direction::Downlink)
                } else if chan == log_codes::RRCLOG_SIG_DL_PCCH {
                    (Channel::Pcch, Direction::Downlink)
                } else {
                    return Err(GsmtapParserError::UnknownWcdmaChannel);
                };
                let body = copy_range(payload, 1, payload.len());
                proof {
                    assert(body@ =~= payload@.skip(1));
                }
                Ok(
                    Some(
                        (
                            ts,
                            GsmtapMessage {
                                rat: Rat::Wcdma,
                                channel: pair.0,
                                direction: pair.1,
                                payload: body,
                            },
                        ),
                    ),
                )
            } else if code == log_codes::LOG_LTE_RRC_OTA_MSG_LOG_C {
                if payload.len() < 4 {
                    return Err(GsmtapParserError::TruncatedHeader);
                }
                let version = payload[0];
                let pdu = payload[1];
                let len = u16_from_le_bytes(slice_subrange(payload.as_slice(), 2, 4)) as usize;
                proof {
                    assert(payload@.subrange(2, 4) =~= payload@.subrange(2int, 4int));
                }
                if !(version == 0 || version == 9 || version == 14 || version == 19) {
                    return Err(GsmtapParserError::UnknownLteVersion);
                }
                let pair = match lte_rrc_channel(version, pdu) {
                    Some(p) => p,
                    None => {
                        return Err(GsmtapParserError::UnknownLtePdu);
                    },
                };
                if payload.len() < 4 + len {
                    return Err(GsmtapParserError::TruncatedPayload);
                }
                let body = copy_range(payload, 4, 4 + len);
                Ok(
                    Some(
                        (
                            ts,
                            GsmtapMessage {
                                rat: Rat::Lte,
                                channel: pair.0,
                                direction: pair.1,
                                payload: body,
                            },
                        ),
                    ),
                )
            } else if code == log_codes::LOG_NR_RRC_OTA_MSG_LOG_C {
                Ok(Some((ts, nas_message(payload, Rat::Nr, Direction::Downlink))))
            } else if code == log_codes::LOG_UMTS_NAS_OTA_MESSAGE_LOG_PACKET_C {
                Ok(Some((ts, nas_message(payload, Rat::Umts, Direction::Downlink))))
            } else if code == log_codes::LOG_LTE_NAS_ESM_OTA_IN_MSG_LOG_C || code
                == log_codes::LOG_LTE_NAS_EMM_OTA_IN_MSG_LOG_C {
                Ok(Some((ts, nas_message(payload, Rat::Lte, Direction::Downlink))))
            } else if code == log_codes::LOG_LTE_NAS_ESM_OTA_OUT_MSG_LOG_C || code
                == log_codes::LOG_LTE_NAS_EMM_OTA_OUT_MSG_LOG_C {
                Ok(Some((ts, nas_message(payload, Rat::Lte, Direction::Uplink))))
            } else {
                Ok(None)
            }
        },
    }
}

/// Maps an LTE RRC PDU number to its channel under a version's numbering.
fn lte_rrc_channel(version: u8, pdu: u8) -> (r: Option<(Channel, Direction)>)
    ensures
        r == spec_lte_rrc_channel(version, pdu),
{
    let p = pdu as u32;
    if version == 0 {
        if p == log_codes::LTE_BCCH_BCH_V0 {
            Some((Channel::Bcch, Direction::Downlink))
        } else if p == log_codes::LTE_BCCH_DL_SCH_V0 {
            Some((Channel::BcchDlSch, Direction::Downlink))
        } else if p == log_codes::LTE_MCCH_V0 {
            Some((Channel::Mcch, Direction::Downlink))
        } else if p == log_codes::LTE_PCCH_V0 {
            Some((Channel::Pcch, Direction::Downlink))
        } else if p == log_codes::LTE_DL_CCCH_V0 {
            Some((Channel::Ccch, Direction::Downlink))
        } else if p == log_codes::LTE_DL_DCCH_V0 {
            Some((Channel::Dcch, Direction::Downlink))
        } else if p == log_codes::LTE_UL_CCCH_V0 {
            Some((Channel::Ccch, Direction::Uplink))
        } else if p == log_codes::LTE_UL_DCCH_V0 {
            Some((Channel::Dcch, Direction::Uplink))
        } else {
            None
        }
    } else if version == 9 {
        if p == log_codes::LTE_BCCH_BCH_V9 {
            Some((Channel::Bcch, Direction::Downlink))
        } else if p == log_codes::LTE_BCCH_DL_SCH_V9 {
            Some((Channel::BcchDlSch, Direction::Downlink))
        } else if p == log_codes::LTE_MCCH_V9 {
            Some((Channel::Mcch, Direction::Downlink))
        } else if p == log_codes::LTE_PCCH_V9 {
            Some((Channel::Pcch, Direction::Downlink))
        } else if p == log_codes::LTE_DL_CCCH_V9 {
            Some((Channel::Ccch, Direction::Downlink))
        } else if p == log_codes::LTE_DL_DCCH_V9 {
            Some((Channel::Dcch, Direction::Downlink))
        } else if p == log_codes::LTE_UL_CCCH_V9 {
            Some((Channel::Ccch, Direction::Uplink))
        } else if p == log_codes::LTE_UL_DCCH_V9 {
            Some((Channel::Dcch, Direction::Uplink))
        } else {
            None
        }
    } else if version == 14 {
        if p == log_codes::LTE_BCCH_BCH_V14 {
            Some((Channel::Bcch, Direction::Downlink))
        } else if p == log_codes::LTE_BCCH_DL_SCH_V14 {
            Some((Channel::BcchDlSch, Direction::Downlink))
        } else if p == log_codes::LTE_MCCH_V14 {
            Some((Channel::Mcch, Direction::Downlink))
        } else if p == log_codes::LTE_PCCH_V14 {
            Some((Channel::Pcch, Direction::Downlink))
        } else if p == log_codes::LTE_DL_CCCH_V14 {
            Some((Channel::Ccch, Direction::Downlink))
        } else if p == log_codes::LTE_DL_DCCH_V14 {
            Some((Channel::Dcch, Direction::Downlink))
        } else if p == log_codes::LTE_UL_CCCH_V14 {
            Some((Channel::Ccch, Direction::Uplink))
        } else if p == log_codes::LTE_UL_DCCH_V14 {
            Some((Channel::Dcch, Direction::Uplink))
        } else {
            None
        }
    } else if version == 19 {
        if p == log_codes::LTE_BCCH_BCH_V19 {
            Some((Channel::Bcch, Direction::Downlink))
        } else if p == log_codes::LTE_BCCH_DL_SCH_V19 {
            Some((Channel::BcchDlSch, Direction::Downlink))
        } else if p == log_codes::LTE_MCCH_V19 {
            Some((Channel::Mcch, Direction::Downlink))
        } else if p == log_codes::LTE_PCCH_V19 {
            Some((Channel::Pcch, Direction::Downlink))
        } else if p == log_codes::LTE_DL_CCCH_V19 {
            Some((Channel::Ccch, Direction::Downlink))
        } else if p == log_codes::LTE_DL_DCCH_V19 {
            Some((Channel::Dcch, Direction::Downlink))
        } else if p == log_codes::LTE_UL_CCCH_V19 {
            Some((Channel::Ccch, Direction::Uplink))
        } else if p == log_codes::LTE_UL_DCCH_V19 {
            Some((Channel::Dcch, Direction::Uplink))
        } else {
            None
        }
    } else {
        None
    }
}

/// Copies `src[from..to]` into a fresh vector.
fn copy_range(src: &Vec<u8>, from: usize, to: usize) -> (r: Vec<u8>)
    requires
        from <= to <= src@.len(),
    ensures
        r@ == src@.subrange(from as int, to as int),
{
    let mut r: Vec<u8> = Vec::new();
    let mut i: usize = from;
    while i < to
        invariant
            from <= i <= to <= src@.len(),
            r@ == src@.subrange(from as int, i as int),
        decreases to - i,
    {
        r.push(src[i]);
        proof {
            assert(src@.subrange(from as int, i + 1) =~= src@.subrange(from as int, i as int).push(
                src@[i as int],
            ));
        }
        i = i + 1;
    }
    r
}

/// Wraps a NAS record: the whole payload on the dedicated channel.
fn nas_message(payload: &Vec<u8>, rat: Rat, direction: Direction) -> (r: GsmtapMessage)
    ensures
        r@.rat == rat,
        r@.channel == Channel::Dcch,
        r@.direction == direction,
        r@.payload == payload@,
{
    let body = copy_range(payload, 0, payload.len());
    proof {
        assert(payload@.subrange(0, payload@.len() as int) =~= payload@);
    }
    GsmtapMessage { rat, channel: Channel::Dcch, direction, payload: body }
}

} // verus!
