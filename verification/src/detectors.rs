//! The concrete heuristic detectors. Each one consumes either decoded
//! information elements or raw diagnostic messages and may emit an event;
//! a detector that finds nothing emits nothing, never an error.
//!
//! The byte patterns below are this crate's own decodings of the layer-3
//! payloads its signaling decoder produces.

use vstd::prelude::*;
use vstd::bytes::{spec_u32_from_le_bytes, u32_from_le_bytes};
use vstd::slice::slice_subrange;
use crate::analyzer::{Analyzer, Event, EventType, EventV, QmdlAnalyzer, Severity};
use crate::diag::{Message, MessageV};
use crate::gsmtap::{Channel, Direction, Rat};
use crate::information_element::{InformationElement, InformationElementV};
use crate::log_codes;

verus! {

// ----------------------------------------------------------------------
// IMSI requested.
// ----------------------------------------------------------------------

/// Flags downlink GSM paging that asks handsets to identify by IMSI —
/// a classic identity-harvesting move.
#[derive(Clone, Copy, Debug, PartialEq, Eq, Structural)]
pub struct ImsiRequestedAnalyzer {}

/// Whether an element is a downlink GSM common-channel paging request
/// (protocol discriminator RR, message type Paging Request Type 1) whose
/// mobile-identity octet names the IMSI (identity type 1).
pub open spec fn spec_is_imsi_paging(ie: InformationElementV) -> bool {
    &&& ie.rat == Rat::Gsm
    &&& ie.channel == Channel::Ccch
    &&& ie.direction == Direction::Downlink
    &&& ie.payload.len() >= 6
    &&& ie.payload[1] == 0x06
    &&& ie.payload[2] == 0x21
    &&& ie.payload[5] & 0x07 == 1
}

/// The event the IMSI-requested detector emits for an element.
pub open spec fn spec_imsi_requested_event(ie: InformationElementV) -> Option<EventV> {
    if spec_is_imsi_paging(ie) {
        Some(
            EventV {
                event_type: EventType::QualitativeWarning { severity: Severity::Medium },
                message: "IMSI requested by paging request"@,
            },
        )
    } else {
        None
    }
}

impl ImsiRequestedAnalyzer {
    pub fn new() -> (r: Self)
        ensures
            r == (ImsiRequestedAnalyzer {  }),
    {
        ImsiRequestedAnalyzer {  }
    }

    /// The event, if any, this detector emits for an element.
    pub fn event_for(&self, ie: &InformationElement) -> (r: Option<Event>)
        ensures
            r.deep_view() == spec_imsi_requested_event(ie@),
    {
        if ie.rat == Rat::Gsm && ie.channel == Channel::Ccch && ie.direction
            == Direction::Downlink && ie.payload.len() >= 6 && ie.payload[1] == 0x06
            && ie.payload[2] == 0x21 && ie.payload[5] & 0x07 == 1 {
            Some(
                Event {
                    event_type: EventType::QualitativeWarning { severity: Severity::Medium },
                    message: String::from_str("IMSI requested by paging request"),
                },
            )
        } else {
            None
        }
    }
}

impl Analyzer for ImsiRequestedAnalyzer {
    fn get_name(&self) -> (r: String)
        ensures
            r@ == "IMSI Requested"@,
    {
        String::from_str("IMSI Requested")
    }

    fn get_description(&self) -> (r: String)
        ensures
            r@ == "Tests whether the cell is requesting IMSIs over paging"@,
    {
        String::from_str("Tests whether the cell is requesting IMSIs over paging")
    }

    fn analyze_information_element(&mut self, ie: &InformationElement) -> (r: Option<Event>)
        ensures
            *final(self) == *old(self),
            r.deep_view() == spec_imsi_requested_event(ie@),
    {
        self.event_for(ie)
    }
}

// ----------------------------------------------------------------------
// Connection redirect 2G downgrade.
// ----------------------------------------------------------------------

/// Flags LTE connection releases that redirect the handset to a 2G
/// carrier, the downgrade path IMSI catchers favor.
#[derive(Clone, Copy, Debug, PartialEq, Eq, Structural)]
pub struct ConnectionRedirect2GDowngradeAnalyzer {}

/// Whether an element is a downlink LTE dedicated-channel connection
/// release (message code 0x05) redirecting to GERAN (target code 0x02).
pub open spec fn spec_is_2g_redirect(ie: InformationElementV) -> bool {
    &&& ie.rat == Rat::Lte
    &&& ie.channel == Channel::Dcch
    &&& ie.direction == Direction::Downlink
    &&& ie.payload.len() >= 2
    &&& ie.payload[0] == 0x05
    &&& ie.payload[1] == 0x02
}

/// The event the redirect detector emits for an element.
pub open spec fn spec_redirect_event(ie: InformationElementV) -> Option<EventV> {
    if spec_is_2g_redirect(ie) {
        Some(
            EventV {
                event_type: EventType::QualitativeWarning { severity: Severity::High },
                message: "LTE connection release redirects to 2G"@,
            },
        )
    } else {
        None
    }
}

impl ConnectionRedirect2GDowngradeAnalyzer {
    /// The event, if any, this detector emits for an element.
    pub fn event_for(&self, ie: &InformationElement) -> (r: Option<Event>)
        ensures
            r.deep_view() == spec_redirect_event(ie@),
    {
        if ie.rat == Rat::Lte && ie.channel == Channel::Dcch && ie.direction
            == Direction::Downlink && ie.payload.len() >= 2 && ie.payload[0] == 0x05
            && ie.payload[1] == 0x02 {
            Some(
                Event {
                    event_type: EventType::QualitativeWarning { severity: Severity::High },
                    message: String::from_str("LTE connection release redirects to 2G"),
                },
            )
        } else {
            None
        }
    }
}

impl Analyzer for ConnectionRedirect2GDowngradeAnalyzer {
    fn get_name(&self) -> (r: String)
        ensures
            r@ == "Connection Redirect 2G Downgrade"@,
    {
        String::from_str("Connection Redirect 2G Downgrade")
    }

    fn get_description(&self) -> (r: String)
        ensures
            r@ == "Tests if a connection release redirects the device to a 2G cell"@,
    {
        String::from_str("Tests if a connection release redirects the device to a 2G cell")
    }

    fn analyze_information_element(&mut self, ie: &InformationElement) -> (r: Option<Event>)
        ensures
            *final(self) == *old(self),
            r.deep_view() == spec_redirect_event(ie@),
    {
        self.event_for(ie)
    }
}

// ----------------------------------------------------------------------
// LTE SIB 6/7 downgrade.
// ----------------------------------------------------------------------

/// Flags LTE system information blocks 6 and 7 that advertise 3G/2G
/// reselection priorities, steering idle handsets to weaker networks.
#[derive(Clone, Copy, Debug, PartialEq, Eq, Structural)]
pub struct LteSib6And7DowngradeAnalyzer {}

/// Whether an element is a downlink LTE system-information block of type
/// 6 or 7 announcing at least one legacy reselection entry.
pub open spec fn spec_is_sib_downgrade(ie: InformationElementV) -> bool {
    &&& ie.rat == Rat::Lte
    &&& ie.channel == Channel::BcchDlSch
    &&& ie.direction == Direction::Downlink
    &&& ie.payload.len() >= 2
    &&& (ie.payload[0] == 6 || ie.payload[0] == 7)
    &&& ie.payload[1] > 0
}

/// The event the SIB-downgrade detector emits for an element.
pub open spec fn spec_sib_downgrade_event(ie: InformationElementV) -> Option<EventV> {
    if spec_is_sib_downgrade(ie) {
        Some(
            EventV {
                event_type: EventType::QualitativeWarning { severity: Severity::Medium },
                message: "LTE SIB 6/7 announces 2G/3G reselection priorities"@,
            },
        )
    } else {
        None
    }
}

impl LteSib6And7DowngradeAnalyzer {
    /// The event, if any, this detector emits for an element.
    pub fn event_for(&self, ie: &InformationElement) -> (r: Option<Event>)
        ensures
            r.deep_view() == spec_sib_downgrade_event(ie@),
    {
        if ie.rat == Rat::Lte && ie.channel == Channel::BcchDlSch && ie.direction
            == Direction::Downlink && ie.payload.len() >= 2 && (ie.payload[0] == 6 || ie.payload[0]
            == 7) && ie.payload[1] > 0 {
            Some(
                Event {
                    event_type: EventType::QualitativeWarning { severity: Severity::Medium },
                    message: String::from_str("LTE SIB 6/7 announces 2G/3G reselection priorities"),
                },
            )
        } else {
            None
        }
    }
}

impl Analyzer for LteSib6And7DowngradeAnalyzer {
    fn get_name(&self) -> (r: String)
        ensures
            r@ == "LTE SIB 6/7 Downgrade"@,
    {
        String::from_str("LTE SIB 6/7 Downgrade")
    }

    fn get_description(&self) -> (r: String)
        ensures
            r@ == "Tests for LTE cells broadcasting 2G/3G reselection priorities"@,
    {
        String::from_str("Tests for LTE cells broadcasting 2G/3G reselection priorities")
    }

    fn analyze_information_element(&mut self, ie: &InformationElement) -> (r: Option<Event>)
        ensures
            *final(self) == *old(self),
            r.deep_view() == spec_sib_downgrade_event(ie@),
    {
        self.event_for(ie)
    }
}

// ----------------------------------------------------------------------
// Null cipher.
// ----------------------------------------------------------------------

/// Flags connections told to proceed without encryption, on GSM or LTE.
#[derive(Clone, Copy, Debug, PartialEq, Eq, Structural)]
pub struct NullCipherAnalyzer {}

/// Whether an element is a downlink GSM dedicated-channel ciphering mode
/// command (RR, type 0x35) starting ciphering with algorithm value zero,
/// or a downlink LTE security mode command (code 0x0d) selecting the null
/// ciphering algorithm.
pub open spec fn spec_is_null_cipher(ie: InformationElementV) -> bool {
    ||| {
        &&& ie.rat == Rat::Gsm
        &&& ie.channel == Channel::Dcch
        &&& ie.direction == Direction::Downlink
        &&& ie.payload.len() >= 4
        &&& ie.payload[1] == 0x06
        &&& ie.payload[2] == 0x35
        &&& ie.payload[3] == 0x01
    }
    ||| {
        &&& ie.rat == Rat::Lte
        &&& ie.channel == Channel::Dcch
        &&& ie.direction == Direction::Downlink
        &&& ie.payload.len() >= 2
        &&& ie.payload[0] == 0x0d
        &&& ie.payload[1] & 0x0f == 0
    }
}

/// The event the null-cipher detector emits for an element.
pub open spec fn spec_null_cipher_event(ie: InformationElementV) -> Option<EventV> {
    if spec_is_null_cipher(ie) {
        Some(
            EventV {
                event_type: EventType::QualitativeWarning { severity: Severity::High },
                message: "Null cipher: connection proceeds unencrypted"@,
            },
        )
    } else {
        None
    }
}

impl NullCipherAnalyzer {
    /// The event, if any, this detector emits for an element.
    pub fn event_for(&self, ie: &InformationElement) -> (r: Option<Event>)
        ensures
            r.deep_view() == spec_null_cipher_event(ie@),
    {
        let gsm_hit = ie.rat == Rat::Gsm && ie.channel == Channel::Dcch && ie.direction
            == Direction::Downlink && ie.payload.len() >= 4 && ie.payload[1] == 0x06
            && ie.payload[2] == 0x35 && ie.payload[3] == 0x01;
        let lte_hit = ie.rat == Rat::Lte && ie.channel == Channel::Dcch && ie.direction
            == Direction::Downlink && ie.payload.len() >= 2 && ie.payload[0] == 0x0d
            && ie.payload[1] & 0x0f == 0;
        if gsm_hit || lte_hit {
            Some(
                Event {
                    event_type: EventType::QualitativeWarning { severity: Severity::High },
                    message: String::from_str("Null cipher: connection proceeds unencrypted"),
                },
            )
        } else {
            None
        }
    }
}

impl Analyzer for NullCipherAnalyzer {
    fn get_name(&self) -> (r: String)
        ensures
            r@ == "Null Cipher"@,
    {
        String::from_str("Null Cipher")
    }

    fn get_description(&self) -> (r: String)
        ensures
            r@ == "Tests whether the cell disables encryption on a connection"@,
    {
        String::from_str("Tests whether the cell disables encryption on a connection")
    }

    fn analyze_information_element(&mut self, ie: &InformationElement) -> (r: Option<Event>)
        ensures
            *final(self) == *old(self),
            r.deep_view() == spec_null_cipher_event(ie@),
    {
        self.event_for(ie)
    }
}

// ----------------------------------------------------------------------
// Cellular network observation (raw-message level).
// ----------------------------------------------------------------------

/// Watches raw serving-cell information records and notes each change of
/// serving cell. The state is one cell identity, bounded however long the
/// session runs.
#[derive(Clone, Copy, Debug, PartialEq, Eq, Structural)]
pub struct CellularNetworkAnalyzer {
    pub last_cell_id: Option<u32>,
}

/// The serving-cell identity a raw message carries, if it is an LTE
/// serving-cell information record with one.
pub open spec fn spec_serving_cell_id(m: MessageV) -> Option<u32> {
    match m {
        MessageV::Log { log_code, payload, .. } => {
            if log_code == log_codes::LOG_LTE_ML1_SERVING_CELL_INFO && payload.len() >= 4 {
                Some(spec_u32_from_le_bytes(payload.subrange(0, 4)))
            } else {
                None
            }
        },
        MessageV::Response { .. } => None,
    }
}

/// One step of the cellular-network detector: a new serving cell updates
/// the state and emits an informational event; everything else changes
/// nothing.
pub open spec fn spec_cellular_step(a: CellularNetworkAnalyzer, m: MessageV) -> (
    CellularNetworkAnalyzer,
    Option<EventV>,
) {
    match spec_serving_cell_id(m) {
        Some(cell) => if a.last_cell_id == Some(cell) {
            (a, None)
        } else {
            (
                CellularNetworkAnalyzer { last_cell_id: Some(cell) },
                Some(
                    EventV {
                        event_type: EventType::Informational,
                        message: "LTE serving cell changed"@,
                    },
                ),
            )
        },
        None => (a, None),
    }
}

impl CellularNetworkAnalyzer {
    pub fn new() -> (r: Self)
        ensures
            r == (CellularNetworkAnalyzer { last_cell_id: None }),
    {
        CellularNetworkAnalyzer { last_cell_id: None }
    }

    /// The successor state and event of this detector for a raw message.
    pub fn stepped(&self, msg: &Message) -> (r: (CellularNetworkAnalyzer, Option<Event>))
        ensures
            r.0 == spec_cellular_step(*self, msg@).0,
            r.1.deep_view() == spec_cellular_step(*self, msg@).1,
    {
        match msg {
            Message::Log { log_code, payload, .. } => {
                if *log_code == log_codes::LOG_LTE_ML1_SERVING_CELL_INFO && payload.len() >= 4 {
                    let cell = u32_from_le_bytes(slice_subrange(payload.as_slice(), 0, 4));
                    proof {
                        assert(payload@.subrange(0, 4) =~= payload@.subrange(0int, 4int));
                    }
                    let same = match self.last_cell_id {
                        Some(prev) => prev == cell,
                        None => false,
                    };
                    if same {
                        (*self, None)
                    } else {
                        (
                            CellularNetworkAnalyzer { last_cell_id: Some(cell) },
                            Some(
                                Event {
                                    event_type: EventType::Informational,
                                    message: String::from_str("LTE serving cell changed"),
                                },
                            ),
                        )
                    }
                } else {
                    (*self, None)
                }
            },
            Message::Response { .. } => (*self, None),
        }
    }
}

impl QmdlAnalyzer for CellularNetworkAnalyzer {
    fn get_name(&self) -> (r: String)
        ensures
            r@ == "Cellular Network"@,
    {
        String::from_str("Cellular Network")
    }

    fn get_description(&self) -> (r: String)
        ensures
            r@ == "Observes serving-cell information and notes cell changes"@,
    {
        String::from_str("Observes serving-cell information and notes cell changes")
    }

    fn analyze_qmdl_message(&mut self, qmdl_message: &Message) -> (r: Option<Event>)
        ensures
            *final(self) == spec_cellular_step(*old(self), qmdl_message@).0,
            r.deep_view() == spec_cellular_step(*old(self), qmdl_message@).1,
    {
        let stepped = self.stepped(qmdl_message);
        *self = stepped.0;
        stepped.1
    }
}

} // verus!
