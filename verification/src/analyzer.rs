//! The analyzer harness: hosts the heuristic detectors, fans every
//! container's messages out to them, and aggregates their findings into
//! timestamped analysis rows.
//!
//! Slot order is the public contract: the `events` sequence of every
//! `PacketAnalysis` is positionally aligned with the registration order of
//! the analyzers of its kind, and `get_metadata` lists the analyzers in
//! that same order.

use vstd::prelude::*;
use crate::detectors::{
    CellularNetworkAnalyzer, ConnectionRedirect2GDowngradeAnalyzer, ImsiRequestedAnalyzer,
    LteSib6And7DowngradeAnalyzer, NullCipherAnalyzer, spec_cellular_step, spec_imsi_requested_event,
    spec_null_cipher_event, spec_redirect_event, spec_sib_downgrade_event,
};
use crate::diag::{Message, MessageV, MessagesContainer, ParsingError, spec_decode_chunk};
use crate::gsmtap;
use crate::information_element::{InformationElement, InformationElementV, spec_ie_from_gsmtap};
use crate::timestamp::{now_timestamp, spec_ticks_to_unix_ms, Timestamp};

verus! {

/// Which detectors a session runs: one independent flag per detector.
/// Each enabled flag claims one slot, in the field order below.
#[derive(Clone, Copy, Debug, PartialEq, Eq, Structural)]
pub struct AnalyzerConfig {
    pub imsi_requested: bool,
    pub connection_redirect_2g_downgrade: bool,
    pub lte_sib6_and_7_downgrade: bool,
    pub null_cipher: bool,
    pub cellular_network: bool,
}

impl Default for AnalyzerConfig {
    /// Every detector enabled.
    fn default() -> (r: Self)
        ensures
            r.imsi_requested,
            r.connection_redirect_2g_downgrade,
            r.lte_sib6_and_7_downgrade,
            r.null_cipher,
            r.cellular_network,
    {
        AnalyzerConfig {
            imsi_requested: true,
            connection_redirect_2g_downgrade: true,
            lte_sib6_and_7_downgrade: true,
            null_cipher: true,
            cellular_network: true,
        }
    }
}

/// How severe a warning is: `Low` matters in numbers, `Medium` in small
/// company, `High` on its own.
#[derive(Clone, Copy, Debug, PartialEq, Eq, Structural)]
pub enum Severity {
    Low,
    Medium,
    High,
}

/// What kind of signal an event is: informational events may be hidden,
/// qualitative warnings are always surfaced.
#[derive(Clone, Copy, Debug, PartialEq, Eq, Structural)]
pub enum EventType {
    Informational,
    QualitativeWarning { severity: Severity },
}

/// A user-facing signal emitted by a detector: its kind and a
/// human-readable description, nothing more.
#[derive(Clone, Debug, PartialEq)]
pub struct Event {
    pub event_type: EventType,
    pub message: String,
}

/// Mathematical model of an `Event`.
pub struct EventV {
    pub event_type: EventType,
    pub message: Seq<char>,
}

impl View for Event {
    type V = EventV;

    open spec fn view(&self) -> EventV {
        EventV { event_type: self.event_type, message: self.message@ }
    }
}

impl DeepView for Event {
    type V = EventV;

    open spec fn deep_view(&self) -> EventV {
        self@
    }
}

/// One detector's view of decoded elements. Detectors may keep bounded
/// per-session state; they must never block or fail.
pub trait Analyzer {
    /// A concise, user-friendly name for the heuristic.
    fn get_name(&self) -> String;

    /// What the heuristic looks for and what may trigger it falsely.
    fn get_description(&self) -> String;

    /// Judges one decoded element; `None` when it finds nothing.
    fn analyze_information_element(&mut self, ie: &InformationElement) -> Option<Event>;
}

/// A detector that works on raw diagnostic messages, before GSMTAP
/// parsing, for signals that do not survive decoding.
pub trait QmdlAnalyzer {
    /// A concise, user-friendly name for the analyzer.
    fn get_name(&self) -> String;

    /// What the analyzer extracts or watches for.
    fn get_description(&self) -> String;

    /// Judges one raw message; `None` when it finds nothing.
    fn analyze_qmdl_message(&mut self, qmdl_message: &Message) -> Option<Event>;
}

/// Name and description of one analyzer slot.
#[derive(Clone, Debug, PartialEq)]
pub struct AnalyzerMetadata {
    pub name: String,
    pub description: String,
}

/// Build information stamped on a session's report.
#[derive(Clone, Debug, PartialEq)]
pub struct RuntimeMetadata {
    pub name: String,
    pub version: String,
}

impl RuntimeMetadata {
    pub fn new() -> (r: RuntimeMetadata)
        ensures
            r.name@ == "rayhunter"@,
            r.version@ == "0.1.0"@,
    {
        RuntimeMetadata {
            name: String::from_str("rayhunter"),
            version: String::from_str("0.1.0"),
        }
    }
}

/// Labels the slot positions of a session's rows: the analyzers in slot
/// order, plus build information. Emitted once per session.
#[derive(Clone, Debug, PartialEq)]
pub struct ReportMetadata {
    pub analyzers: Vec<AnalyzerMetadata>,
    pub runtime: RuntimeMetadata,
}

/// The findings for one message: a timestamp and one event slot per
/// analyzer of the kind that produced it, absent events as holes.
#[derive(Clone, Debug, PartialEq)]
pub struct PacketAnalysis {
    pub timestamp: Timestamp,
    pub events: Vec<Option<Event>>,
}

/// Mathematical model of a `PacketAnalysis`.
pub struct PacketAnalysisV {
    pub timestamp: Timestamp,
    pub events: Seq<Option<EventV>>,
}

impl View for PacketAnalysis {
    type V = PacketAnalysisV;

    open spec fn view(&self) -> PacketAnalysisV {
        PacketAnalysisV { timestamp: self.timestamp, events: self.events.deep_view() }
    }
}

impl DeepView for PacketAnalysis {
    type V = PacketAnalysisV;

    open spec fn deep_view(&self) -> PacketAnalysisV {
        self@
    }
}

/// One row of analysis: everything a single container yielded, in
/// container order.
#[derive(Clone, Debug, PartialEq)]
pub struct AnalysisRow {
    pub timestamp: Timestamp,
    pub skipped_message_reasons: Vec<String>,
    pub analysis: Vec<PacketAnalysis>,
}

/// Whether an event is a qualitative warning of any severity.
pub open spec fn spec_event_is_warning(e: EventV) -> bool {
    e.event_type matches EventType::QualitativeWarning { .. }
}

/// Whether any recorded event in a row's analyses is a warning.
pub open spec fn spec_row_has_warning(analysis: Seq<PacketAnalysisV>) -> bool {
    exists|i: int, j: int|
        0 <= i < analysis.len() && 0 <= j < analysis[i].events.len() && ((
        #[trigger] analysis[i].events[j]) matches Some(e) && spec_event_is_warning(e))
}

impl AnalysisRow {
    /// A row is empty exactly when it has no skipped messages and no
    /// analyses; empty rows are typically discarded downstream.
    pub fn is_empty(&self) -> (r: bool)
        ensures
            r == (self.skipped_message_reasons@.len() == 0 && self.analysis@.len() == 0),
    {
        self.skipped_message_reasons.len() == 0 && self.analysis.len() == 0
    }

    /// A row contains warnings exactly when at least one event in one of
    /// its analyses is a qualitative warning of any severity.
    pub fn contains_warnings(&self) -> (r: bool)
        ensures
            r == spec_row_has_warning(self.analysis.deep_view()),
    {
        let mut i: usize = 0;
        while i < self.analysis.len()
            invariant
                i <= self.analysis@.len(),
                !spec_row_has_warning(self.analysis.deep_view().take(i as int)),
            decreases self.analysis@.len() - i,
        {
            let analysis = &self.analysis[i];
            let mut j: usize = 0;
            while j < analysis.events.len()
                invariant
                    0 <= i < self.analysis@.len(),
                    analysis == self.analysis@[i as int],
                    j <= analysis.events@.len(),
                    !spec_row_has_warning(self.analysis.deep_view().take(i as int)),
                    forall|jj: int|
                        0 <= jj < j ==> !((#[trigger] analysis.events.deep_view()[jj]) matches Some(
                            e,
                        ) && spec_event_is_warning(e)),
                decreases analysis.events@.len() - j,
            {
                match &analysis.events[j] {
                    Some(event) => {
                        match event.event_type {
                            EventType::QualitativeWarning { .. } => {
                                proof {
                                    let dv = self.analysis.deep_view();
                                    assert(dv[i as int].events[j as int] matches Some(e)
                                        && spec_event_is_warning(e));
                                }
                                return true;
                            },
                            EventType::Informational => {},
                        }
                    },
                    None => {},
                }
                j = j + 1;
            }
            proof {
                let dv = self.analysis.deep_view();
                assert forall|ii: int, jj: int|
                    0 <= ii < i + 1 && 0 <= jj < dv.take(i + 1)[ii].events.len() implies !((
                #[trigger] dv.take(i + 1)[ii].events[jj]) matches Some(e)
                    && spec_event_is_warning(e)) by {
                    if ii < i {
                        assert(dv.take(i as int)[ii] == dv.take(i + 1)[ii]);
                        assert(!spec_row_has_warning(dv.take(i as int)));
                    } else {
                        assert(dv.take(i + 1)[ii] == dv[i as int]);
                        assert(dv[i as int].events[jj] == analysis.events.deep_view()[jj]);
                    }
                }
            }
            i = i + 1;
        }
        proof {
            assert(self.analysis.deep_view().take(self.analysis@.len() as int) =~= self
                .analysis
                .deep_view());
        }
        false
    }
}

// ----------------------------------------------------------------------
// The harness.
// ----------------------------------------------------------------------

/// One registered element analyzer: a slot in the harness.
#[derive(Clone, Copy, Debug, PartialEq, Eq, Structural)]
pub enum ElementAnalyzerKind {
    ImsiRequested(ImsiRequestedAnalyzer),
    ConnectionRedirect(ConnectionRedirect2GDowngradeAnalyzer),
    LteSibDowngrade(LteSib6And7DowngradeAnalyzer),
    NullCipher(NullCipherAnalyzer),
}

impl ElementAnalyzerKind {
    /// The event this slot's detector emits for an element.
    pub open spec fn spec_event(self, ie: InformationElementV) -> Option<EventV> {
        match self {
            ElementAnalyzerKind::ImsiRequested(_) => spec_imsi_requested_event(ie),
            ElementAnalyzerKind::ConnectionRedirect(_) => spec_redirect_event(ie),
            ElementAnalyzerKind::LteSibDowngrade(_) => spec_sib_downgrade_event(ie),
            ElementAnalyzerKind::NullCipher(_) => spec_null_cipher_event(ie),
        }
    }

    /// This slot's name.
    pub open spec fn spec_name(self) -> Seq<char> {
        match self {
            ElementAnalyzerKind::ImsiRequested(_) => "IMSI Requested"@,
            ElementAnalyzerKind::ConnectionRedirect(_) => "Connection Redirect 2G Downgrade"@,
            ElementAnalyzerKind::LteSibDowngrade(_) => "LTE SIB 6/7 Downgrade"@,
            ElementAnalyzerKind::NullCipher(_) => "Null Cipher"@,
        }
    }

    /// This slot's description.
    pub open spec fn spec_description(self) -> Seq<char> {
        match self {
            ElementAnalyzerKind::ImsiRequested(_) => {
                "Tests whether the cell is requesting IMSIs over paging"@
            },
            ElementAnalyzerKind::ConnectionRedirect(_) => {
                "Tests if a connection release redirects the device to a 2G cell"@
            },
            ElementAnalyzerKind::LteSibDowngrade(_) => {
                "Tests for LTE cells broadcasting 2G/3G reselection priorities"@
            },
            ElementAnalyzerKind::NullCipher(_) => {
                "Tests whether the cell disables encryption on a connection"@
            },
        }
    }

    /// Runs this slot's detector on an element.
    pub fn event_for(&self, ie: &InformationElement) -> (r: Option<Event>)
        ensures
            r.deep_view() == self.spec_event(ie@),
    {
        match self {
            ElementAnalyzerKind::ImsiRequested(a) => a.event_for(ie),
            ElementAnalyzerKind::ConnectionRedirect(a) => a.event_for(ie),
            ElementAnalyzerKind::LteSibDowngrade(a) => a.event_for(ie),
            ElementAnalyzerKind::NullCipher(a) => a.event_for(ie),
        }
    }

    /// This slot's name.
    pub fn name(&self) -> (r: String)
        ensures
            r@ == self.spec_name(),
    {
        match self {
            ElementAnalyzerKind::ImsiRequested(_) => String::from_str("IMSI Requested"),
            ElementAnalyzerKind::ConnectionRedirect(_) => String::from_str(
                "Connection Redirect 2G Downgrade",
            ),
            ElementAnalyzerKind::LteSibDowngrade(_) => String::from_str("LTE SIB 6/7 Downgrade"),
            ElementAnalyzerKind::NullCipher(_) => String::from_str("Null Cipher"),
        }
    }

    /// This slot's description.
    pub fn description(&self) -> (r: String)
        ensures
            r@ == self.spec_description(),
    {
        match self {
            ElementAnalyzerKind::ImsiRequested(_) => String::from_str(
                "Tests whether the cell is requesting IMSIs over paging",
            ),
            ElementAnalyzerKind::ConnectionRedirect(_) => String::from_str(
                "Tests if a connection release redirects the device to a 2G cell",
            ),
            ElementAnalyzerKind::LteSibDowngrade(_) => String::from_str(
                "Tests for LTE cells broadcasting 2G/3G reselection priorities",
            ),
            ElementAnalyzerKind::NullCipher(_) => String::from_str(
                "Tests whether the cell disables encryption on a connection",
            ),
        }
    }
}

/// One registered raw-message analyzer: a slot in the harness.
#[derive(Clone, Copy, Debug, PartialEq, Eq, Structural)]
pub enum QmdlAnalyzerKind {
    CellularNetwork(CellularNetworkAnalyzer),
}

impl QmdlAnalyzerKind {
    /// One step of this slot's detector: successor state and event.
    pub open spec fn spec_step(self, m: MessageV) -> (QmdlAnalyzerKind, Option<EventV>) {
        match self {
            QmdlAnalyzerKind::CellularNetwork(a) => {
                let stepped = spec_cellular_step(a, m);
                (QmdlAnalyzerKind::CellularNetwork(stepped.0), stepped.1)
            },
        }
    }

    /// This slot's name.
    pub open spec fn spec_name(self) -> Seq<char> {
        match self {
            QmdlAnalyzerKind::CellularNetwork(_) => "Cellular Network"@,
        }
    }

    /// This slot's description.
    pub open spec fn spec_description(self) -> Seq<char> {
        match self {
            QmdlAnalyzerKind::CellularNetwork(_) => {
                "Observes serving-cell information and notes cell changes"@
            },
        }
    }

    /// Runs one step of this slot's detector on a raw message.
    pub fn stepped(&self, msg: &Message) -> (r: (QmdlAnalyzerKind, Option<Event>))
        ensures
            r.0 == self.spec_step(msg@).0,
            r.1.deep_view() == self.spec_step(msg@).1,
    {
        match self {
            QmdlAnalyzerKind::CellularNetwork(a) => {
                let stepped = a.stepped(msg);
                (QmdlAnalyzerKind::CellularNetwork(stepped.0), stepped.1)
            },
        }
    }

    /// This slot's name.
    pub fn name(&self) -> (r: String)
        ensures
            r@ == self.spec_name(),
    {
        match self {
            QmdlAnalyzerKind::CellularNetwork(_) => String::from_str("Cellular Network"),
        }
    }

    /// This slot's description.
    pub fn description(&self) -> (r: String)
        ensures
            r@ == self.spec_description(),
    {
        match self {
            QmdlAnalyzerKind::CellularNetwork(_) => String::from_str(
                "Observes serving-cell information and notes cell changes",
            ),
        }
    }
}

/// The element-analyzer slots a config enables, in field order.
pub open spec fn spec_config_element_analyzers(c: AnalyzerConfig) -> Seq<ElementAnalyzerKind> {
    let s0: Seq<ElementAnalyzerKind> = Seq::empty();
    let s1 = if c.imsi_requested {
        s0.push(ElementAnalyzerKind::ImsiRequested(ImsiRequestedAnalyzer {  }))
    } else {
        s0
    };
    let s2 = if c.connection_redirect_2g_downgrade {
        s1.push(
            ElementAnalyzerKind::ConnectionRedirect(ConnectionRedirect2GDowngradeAnalyzer {  }),
        )
    } else {
        s1
    };
    let s3 = if c.lte_sib6_and_7_downgrade {
        s2.push(ElementAnalyzerKind::LteSibDowngrade(LteSib6And7DowngradeAnalyzer {  }))
    } else {
        s2
    };
    if c.null_cipher {
        s3.push(ElementAnalyzerKind::NullCipher(NullCipherAnalyzer {  }))
    } else {
        s3
    }
}

/// The raw-message analyzer slots a config enables.
pub open spec fn spec_config_qmdl_analyzers(c: AnalyzerConfig) -> Seq<QmdlAnalyzerKind> {
    if c.cellular_network {
        seq![QmdlAnalyzerKind::CellularNetwork(CellularNetworkAnalyzer { last_cell_id: None })]
    } else {
        Seq::empty()
    }
}

/// The events one pass of the element analyzers yields for an element,
/// one slot per analyzer in registration order.
pub open spec fn spec_element_events(
    analyzers: Seq<ElementAnalyzerKind>,
    ie: InformationElementV,
) -> Seq<Option<EventV>> {
    Seq::new(analyzers.len(), |i: int| analyzers[i].spec_event(ie))
}

/// One pass of the raw-message analyzers over a message: the successor
/// states and the event slots, in registration order.
pub open spec fn spec_qmdl_run(qs: Seq<QmdlAnalyzerKind>, m: MessageV) -> (
    Seq<QmdlAnalyzerKind>,
    Seq<Option<EventV>>,
) {
    (
        Seq::new(qs.len(), |i: int| qs[i].spec_step(m).0),
        Seq::new(qs.len(), |i: int| qs[i].spec_step(m).1),
    )
}

/// Whether any slot holds an event.
pub open spec fn spec_any_event(events: Seq<Option<EventV>>) -> bool {
    exists|i: int| 0 <= i < events.len() && (#[trigger] events[i]) is Some
}

/// What processing one decoded message does to a row: the successor
/// raw-analyzer states, the skip reasons appended, and the analyses
/// appended.
pub open spec fn spec_process_one(
    analyzers: Seq<ElementAnalyzerKind>,
    qs: Seq<QmdlAnalyzerKind>,
    m: Result<MessageV, ParsingError>,
    row_ts: Timestamp,
) -> (Seq<QmdlAnalyzerKind>, Seq<Seq<char>>, Seq<PacketAnalysisV>) {
    match m {
        Err(e) => (qs, seq![e.spec_text()], Seq::empty()),
        Ok(mv) => {
            let run = spec_qmdl_run(qs, mv);
            let qanalysis: Seq<PacketAnalysisV> = if spec_any_event(run.1) {
                seq![PacketAnalysisV { timestamp: row_ts, events: run.1 }]
            } else {
                Seq::empty()
            };
            match gsmtap::spec_parse_gsmtap(mv) {
                Err(ge) => (run.0, seq![ge.spec_text()], qanalysis),
                Ok(None) => (run.0, Seq::empty(), qanalysis),
                Ok(Some((ticks, g))) => match spec_ie_from_gsmtap(g) {
                    Err(iee) => (run.0, seq![iee.spec_text()], qanalysis),
                    Ok(ie) => {
                        let events = spec_element_events(analyzers, ie);
                        if spec_any_event(events) {
                            (
                                run.0,
                                Seq::empty(),
                                qanalysis + seq![
                                    PacketAnalysisV {
                                        timestamp: Timestamp {
                                            epoch_millis: spec_ticks_to_unix_ms(ticks) as i64,
                                            offset_seconds: 0,
                                        },
                                        events,
                                    },
                                ],
                            )
                        } else {
                            (run.0, Seq::empty(), qanalysis)
                        }
                    },
                },
            }
        },
    }
}

/// What processing a sequence of decoded messages does to a row, in
/// message order.
pub open spec fn spec_process_messages(
    analyzers: Seq<ElementAnalyzerKind>,
    qs: Seq<QmdlAnalyzerKind>,
    msgs: Seq<Result<MessageV, ParsingError>>,
    row_ts: Timestamp,
) -> (Seq<QmdlAnalyzerKind>, Seq<Seq<char>>, Seq<PacketAnalysisV>)
    decreases msgs.len(),
{
    if msgs.len() == 0 {
        (qs, Seq::empty(), Seq::empty())
    } else {
        let first = spec_process_one(analyzers, qs, msgs[0], row_ts);
        let rest = spec_process_messages(analyzers, first.0, msgs.skip(1), row_ts);
        (rest.0, first.1 + rest.1, first.2 + rest.2)
    }
}

/// The decoded form of a container's chunks, one entry per chunk.
pub open spec fn spec_decoded_messages(chunks: Seq<Seq<u8>>) -> Seq<
    Result<MessageV, ParsingError>,
> {
    Seq::new(chunks.len(), |i: int| spec_decode_chunk(chunks[i]))
}

proof fn lemma_process_messages_snoc(
    analyzers: Seq<ElementAnalyzerKind>,
    qs: Seq<QmdlAnalyzerKind>,
    msgs: Seq<Result<MessageV, ParsingError>>,
    m: Result<MessageV, ParsingError>,
    row_ts: Timestamp,
)
    ensures
        spec_process_messages(analyzers, qs, msgs.push(m), row_ts) == {
            let part = spec_process_messages(analyzers, qs, msgs, row_ts);
            let one = spec_process_one(analyzers, part.0, m, row_ts);
            (one.0, part.1 + one.1, part.2 + one.2)
        },
    decreases msgs.len(),
{
    reveal_with_fuel(spec_process_messages, 2);
    if msgs.len() == 0 {
        assert(msgs.push(m)[0] == m);
        assert(msgs.push(m).skip(1) =~= Seq::<Result<MessageV, ParsingError>>::empty());
        let part = spec_process_messages(analyzers, qs, msgs, row_ts);
        let one = spec_process_one(analyzers, qs, m, row_ts);
        assert(Seq::<Seq<char>>::empty() + one.1 =~= one.1);
        assert(Seq::<PacketAnalysisV>::empty() + one.2 =~= one.2);
        assert(one.1 + Seq::<Seq<char>>::empty() =~= one.1);
        assert(one.2 + Seq::<PacketAnalysisV>::empty() =~= one.2);
    } else {
        assert(msgs.push(m)[0] == msgs[0]);
        assert(msgs.push(m).skip(1) =~= msgs.skip(1).push(m));
        let first = spec_process_one(analyzers, qs, msgs[0], row_ts);
        lemma_process_messages_snoc(analyzers, first.0, msgs.skip(1), m, row_ts);
        let part_rest = spec_process_messages(analyzers, first.0, msgs.skip(1), row_ts);
        let one = spec_process_one(analyzers, part_rest.0, m, row_ts);
        assert((first.1 + part_rest.1) + one.1 =~= first.1 + (part_rest.1 + one.1));
        assert((first.2 + part_rest.2) + one.2 =~= first.2 + (part_rest.2 + one.2));
    }
}

/// Processing keeps arrival order: the skip reasons and analyses of a run
/// over `msgs1 + msgs2` are exactly those of `msgs1` followed by those of
/// `msgs2` (with the raw-analyzer states threaded through). Nothing is
/// reordered, within a row or across rows.
pub proof fn lemma_processing_keeps_order(
    analyzers: Seq<ElementAnalyzerKind>,
    qs: Seq<QmdlAnalyzerKind>,
    msgs1: Seq<Result<MessageV, ParsingError>>,
    msgs2: Seq<Result<MessageV, ParsingError>>,
    row_ts: Timestamp,
)
    ensures
        spec_process_messages(analyzers, qs, msgs1 + msgs2, row_ts) == {
            let first = spec_process_messages(analyzers, qs, msgs1, row_ts);
            let rest = spec_process_messages(analyzers, first.0, msgs2, row_ts);
            (rest.0, first.1 + rest.1, first.2 + rest.2)
        },
    decreases msgs1.len(),
{
    if msgs1.len() == 0 {
        assert(msgs1 + msgs2 =~= msgs2);
        let rest = spec_process_messages(analyzers, qs, msgs2, row_ts);
        assert(Seq::<Seq<char>>::empty() + rest.1 =~= rest.1);
        assert(Seq::<PacketAnalysisV>::empty() + rest.2 =~= rest.2);
    } else {
        assert((msgs1 + msgs2)[0] == msgs1[0]);
        assert((msgs1 + msgs2).skip(1) =~= msgs1.skip(1) + msgs2);
        let head = spec_process_one(analyzers, qs, msgs1[0], row_ts);
        lemma_processing_keeps_order(analyzers, head.0, msgs1.skip(1), msgs2, row_ts);
        let mid = spec_process_messages(analyzers, head.0, msgs1.skip(1), row_ts);
        let rest = spec_process_messages(analyzers, mid.0, msgs2, row_ts);
        assert(head.1 + (mid.1 + rest.1) =~= (head.1 + mid.1) + rest.1);
        assert(head.2 + (mid.2 + rest.2) =~= (head.2 + mid.2) + rest.2);
    }
}

/// Every analysis a processing run records is slot-aligned: its events
/// sequence has exactly one slot per element analyzer, or one per
/// raw-message analyzer, by the kind of pass that recorded it.
pub proof fn lemma_slot_alignment(
    analyzers: Seq<ElementAnalyzerKind>,
    qs: Seq<QmdlAnalyzerKind>,
    msgs: Seq<Result<MessageV, ParsingError>>,
    row_ts: Timestamp,
)
    ensures
        forall|k: int|
            0 <= k < spec_process_messages(analyzers, qs, msgs, row_ts).2.len() ==> {
                let p = #[trigger] spec_process_messages(analyzers, qs, msgs, row_ts).2[k];
                p.events.len() == analyzers.len() || p.events.len() == qs.len()
            },
    decreases msgs.len(),
{
    if msgs.len() > 0 {
        let first = spec_process_one(analyzers, qs, msgs[0], row_ts);
        lemma_slot_alignment(analyzers, first.0, msgs.skip(1), row_ts);
        match msgs[0] {
            Err(_) => {},
            Ok(mv) => {
                assert(spec_qmdl_run(qs, mv).0.len() == qs.len());
                assert(spec_qmdl_run(qs, mv).1.len() == qs.len());
            },
        }
        assert forall|k: int|
            0 <= k < spec_process_messages(analyzers, qs, msgs, row_ts).2.len() implies {
            let p = #[trigger] spec_process_messages(analyzers, qs, msgs, row_ts).2[k];
            p.events.len() == analyzers.len() || p.events.len() == qs.len()
        } by {
            let rest = spec_process_messages(analyzers, first.0, msgs.skip(1), row_ts);
            if k < first.2.len() {
                assert((first.2 + rest.2)[k] == first.2[k]);
            } else {
                assert((first.2 + rest.2)[k] == rest.2[k - first.2.len()]);
                assert(first.0.len() == qs.len());
            }
        }
    }
}

/// Hosts the registered detectors of both kinds for one capture session.
pub struct Harness {
    pub analyzers: Vec<ElementAnalyzerKind>,
    pub qmdl_analyzers: Vec<QmdlAnalyzerKind>,
}

impl Default for Harness {
    fn default() -> (r: Self)
        ensures
            r.analyzers@ == Seq::<ElementAnalyzerKind>::empty(),
            r.qmdl_analyzers@ == Seq::<QmdlAnalyzerKind>::empty(),
    {
        Harness::new()
    }
}

impl Harness {
    /// A harness with no detectors registered.
    pub fn new() -> (r: Self)
        ensures
            r.analyzers@ == Seq::<ElementAnalyzerKind>::empty(),
            r.qmdl_analyzers@ == Seq::<QmdlAnalyzerKind>::empty(),
    {
        Harness { analyzers: Vec::new(), qmdl_analyzers: Vec::new() }
    }

    /// A harness with one slot per enabled flag of the config, in the
    /// config's field order. Slot order is deterministic: it fixes the
    /// column order of every downstream report.
    pub fn new_with_config(analyzer_config: &AnalyzerConfig) -> (r: Self)
        ensures
            r.analyzers@ == spec_config_element_analyzers(*analyzer_config),
            r.qmdl_analyzers@ == spec_config_qmdl_analyzers(*analyzer_config),
    {
        let mut harness = Harness::new();
        if analyzer_config.imsi_requested {
            harness.add_analyzer(ElementAnalyzerKind::ImsiRequested(ImsiRequestedAnalyzer::new()));
        }
        if analyzer_config.connection_redirect_2g_downgrade {
            harness.add_analyzer(
                ElementAnalyzerKind::ConnectionRedirect(
                    ConnectionRedirect2GDowngradeAnalyzer {  },
                ),
            );
        }
        if analyzer_config.lte_sib6_and_7_downgrade {
            harness.add_analyzer(
                ElementAnalyzerKind::LteSibDowngrade(LteSib6And7DowngradeAnalyzer {  }),
            );
        }
        if analyzer_config.null_cipher {
            harness.add_analyzer(ElementAnalyzerKind::NullCipher(NullCipherAnalyzer {  }));
        }
        if analyzer_config.cellular_network {
            harness.add_qmdl_analyzer(
                QmdlAnalyzerKind::CellularNetwork(CellularNetworkAnalyzer::new()),
            );
        }
        proof {
            assert(harness.analyzers@ =~= spec_config_element_analyzers(*analyzer_config));
            assert(harness.qmdl_analyzers@ =~= spec_config_qmdl_analyzers(*analyzer_config));
        }
        harness
    }

    /// Registers one more element analyzer, in the last slot.
    pub fn add_analyzer(&mut self, analyzer: ElementAnalyzerKind)
        ensures
            final(self).analyzers@ == old(self).analyzers@.push(analyzer),
            final(self).qmdl_analyzers@ == old(self).qmdl_analyzers@,
    {
        self.analyzers.push(analyzer);
    }

    /// Registers one more raw-message analyzer, in the last slot.
    pub fn add_qmdl_analyzer(&mut self, analyzer: QmdlAnalyzerKind)
        ensures
            final(self).qmdl_analyzers@ == old(self).qmdl_analyzers@.push(analyzer),
            final(self).analyzers@ == old(self).analyzers@,
    {
        self.qmdl_analyzers.push(analyzer);
    }

    /// Runs every element analyzer on one element: one event slot per
    /// analyzer, in registration order.
    pub fn analyze_information_element(&mut self, ie: &InformationElement) -> (r: Vec<
        Option<Event>,
    >)
        ensures
            *final(self) == *old(self),
            r.deep_view() == spec_element_events(old(self).analyzers@, ie@),
    {
        let ghost self0 = *self;
        let mut events: Vec<Option<Event>> = Vec::new();
        let mut i: usize = 0;
        while i < self.analyzers.len()
            invariant
                *self == self0,
                i <= self.analyzers@.len(),
                events@.len() == i,
                forall|j: int|
                    0 <= j < i ==> (#[trigger] events@[j]).deep_view()
                        == self.analyzers@[j].spec_event(ie@),
            decreases self.analyzers@.len() - i,
        {
            let ev = self.analyzers[i].event_for(ie);
            events.push(ev);
            i = i + 1;
        }
        proof {
            assert forall|j: int|
                0 <= j < events@.len() implies events.deep_view()[j] == spec_element_events(
                self.analyzers@,
                ie@,
            )[j] by {
                assert(events.deep_view()[j] == events@[j].deep_view());
            }
            assert(events.deep_view() =~= spec_element_events(self.analyzers@, ie@));
        }
        events
    }

    /// Runs every raw-message analyzer on one message, advancing their
    /// states: one event slot per analyzer, in registration order.
    pub fn analyze_qmdl_message(&mut self, msg: &Message) -> (r: Vec<Option<Event>>)
        ensures
            final(self).analyzers@ == old(self).analyzers@,
            final(self).qmdl_analyzers@ == spec_qmdl_run(old(self).qmdl_analyzers@, msg@).0,
            r.deep_view() == spec_qmdl_run(old(self).qmdl_analyzers@, msg@).1,
    {
        let ghost self0 = *self;
        let ghost qs0 = self.qmdl_analyzers@;
        let mut events: Vec<Option<Event>> = Vec::new();
        let mut next: Vec<QmdlAnalyzerKind> = Vec::new();
        let mut i: usize = 0;
        while i < self.qmdl_analyzers.len()
            invariant
                *self == self0,
                qs0 == self.qmdl_analyzers@,
                i <= qs0.len(),
                next@.len() == i,
                events@.len() == i,
                forall|j: int|
                    0 <= j < i ==> (#[trigger] next@[j]) == qs0[j].spec_step(msg@).0,
                forall|j: int|
                    0 <= j < i ==> (#[trigger] events@[j]).deep_view() == qs0[j].spec_step(
                        msg@,
                    ).1,
            decreases qs0.len() - i,
        {
            let stepped = self.qmdl_analyzers[i].stepped(msg);
            next.push(stepped.0);
            events.push(stepped.1);
            i = i + 1;
        }
        self.qmdl_analyzers = next;
        proof {
            assert(self.qmdl_analyzers@ =~= spec_qmdl_run(qs0, msg@).0);
            assert forall|j: int|
                0 <= j < events@.len() implies events.deep_view()[j] == spec_qmdl_run(
                qs0,
                msg@,
            ).1[j] by {
                assert(events.deep_view()[j] == events@[j].deep_view());
            }
            assert(events.deep_view() =~= spec_qmdl_run(qs0, msg@).1);
        }
        events
    }

    /// Processes one container into an analysis row.
    ///
    /// The row is stamped with the wall clock at row start. Each message
    /// is handled in container order: a message that failed to parse adds
    /// its reason to the skipped list; an intact message first passes
    /// through the raw-message analyzers (recorded with the row
    /// timestamp when any of them finds something), then through GSMTAP
    /// decoding and element construction (failures become skip reasons),
    /// and finally through the element analyzers (recorded with the
    /// message's own baseband timestamp when any finds something).
    /// Analyses stand in message order; events stand in slot order.
    pub fn analyze_qmdl_messages(&mut self, container: MessagesContainer) -> (row: AnalysisRow)
        ensures
            ({
                let outcome = spec_process_messages(
                    old(self).analyzers@,
                    old(self).qmdl_analyzers@,
                    spec_decoded_messages(container.messages.deep_view()),
                    row.timestamp,
                );
                &&& final(self).analyzers@ == old(self).analyzers@
                &&& final(self).qmdl_analyzers@ == outcome.0
                &&& row.skipped_message_reasons.deep_view() == outcome.1
                &&& row.analysis.deep_view() == outcome.2
            }),
    {
        let ghost analyzers0 = self.analyzers@;
        let ghost qs0 = self.qmdl_analyzers@;
        let row_timestamp = now_timestamp();
        let decoded = container.into_messages();
        let ghost dec: Seq<Result<MessageV, ParsingError>> = spec_decoded_messages(
            container.messages.deep_view(),
        );
        let mut skipped: Vec<String> = Vec::new();
        let mut analysis: Vec<PacketAnalysis> = Vec::new();
        let mut k: usize = 0;
        proof {
            assert(dec.take(0) =~= Seq::<Result<MessageV, ParsingError>>::empty());
            assert forall|j: int|
                0 <= j < decoded@.len() implies crate::diag::decode_result_matches(
                decoded@[j],
                dec[j],
            ) by {
                assert(container.messages.deep_view()[j] =~= container.messages@[j]@);
            }
        }
        while k < decoded.len()
            invariant
                k <= decoded@.len(),
                dec.len() == decoded@.len(),
                dec == spec_decoded_messages(container.messages.deep_view()),
                forall|j: int|
                    0 <= j < decoded@.len() ==> crate::diag::decode_result_matches(
                        decoded@[j],
                        dec[j],
                    ),
                self.analyzers@ == analyzers0,
                ({
                    let part = spec_process_messages(analyzers0, qs0, dec.take(k as int),
                    row_timestamp);
                    &&& self.qmdl_analyzers@ == part.0
                    &&& skipped@.len() == part.1.len()
                    &&& (forall|j: int|
                        0 <= j < skipped@.len() ==> (#[trigger] skipped@[j])@ == part.1[j])
                    &&& analysis@.len() == part.2.len()
                    &&& (forall|j: int|
                        0 <= j < analysis@.len() ==> (#[trigger] analysis@[j])@ == part.2[j])
                }),
            decreases decoded@.len() - k,
        {
            let ghost part = spec_process_messages(analyzers0, qs0, dec.take(k as int),
            row_timestamp);
            let ghost one = spec_process_one(analyzers0, part.0, dec[k as int], row_timestamp);
            let ghost skipped0 = skipped@;
            let ghost analysis0 = analysis@;
            proof {
                assert(dec.take(k + 1) =~= dec.take(k as int).push(dec[k as int]));
                lemma_process_messages_snoc(
                    analyzers0,
                    qs0,
                    dec.take(k as int),
                    dec[k as int],
                    row_timestamp,
                );
            }
            match &decoded[k] {
                Err(e) => {
                    skipped.push(e.text());
                    proof {
                        assert(one.1 =~= seq![e.spec_text()]);
                        assert(one.2 =~= Seq::<PacketAnalysisV>::empty());
                    }
                },
                Ok(msg) => {
                    let qmdl_events = self.analyze_qmdl_message(msg);
                    let ghost run = spec_qmdl_run(part.0, msg@);
                    if any_event(&qmdl_events) {
                        let packet = PacketAnalysis {
                            timestamp: row_timestamp,
                            events: qmdl_events,
                        };
                        proof {
                            assert(packet@ == (PacketAnalysisV {
                                timestamp: row_timestamp,
                                events: run.1,
                            }));
                        }
                        analysis.push(packet);
                    }
                    match gsmtap::parse(msg) {
                        Err(ge) => {
                            skipped.push(ge.text());
                            proof {
                                assert(one.1 =~= seq![ge.spec_text()]);
                                if spec_any_event(run.1) {
                                    assert(one.2 =~= seq![
                                        PacketAnalysisV {
                                            timestamp: row_timestamp,
                                            events: run.1,
                                        },
                                    ]);
                                } else {
                                    assert(one.2 =~= Seq::<PacketAnalysisV>::empty());
                                }
                            }
                        },
                        Ok(None) => {
                            proof {
                                assert(one.1 =~= Seq::<Seq<char>>::empty());
                                if spec_any_event(run.1) {
                                    assert(one.2 =~= seq![
                                        PacketAnalysisV {
                                            timestamp: row_timestamp,
                                            events: run.1,
                                        },
                                    ]);
                                } else {
                                    assert(one.2 =~= Seq::<PacketAnalysisV>::empty());
                                }
                            }
                        },
                        Ok(Some((ticks, gmsg))) => {
                            match InformationElement::from_gsmtap(&gmsg) {
                                Err(iee) => {
                                    skipped.push(iee.text());
                                    proof {
                                        assert(one.1 =~= seq![iee.spec_text()]);
                                        if spec_any_event(run.1) {
                                            assert(one.2 =~= seq![
                                                PacketAnalysisV {
                                                    timestamp: row_timestamp,
                                                    events: run.1,
                                                },
                                            ]);
                                        } else {
                                            assert(one.2 =~= Seq::<PacketAnalysisV>::empty());
                                        }
                                    }
                                },
                                Ok(ie) => {
                                    let element_events = self.analyze_information_element(&ie);
                                    let ghost eevents = spec_element_events(analyzers0, ie@);
                                    if any_event(&element_events) {
                                        let packet = PacketAnalysis {
                                            timestamp: Timestamp::from_qualcomm_ticks(ticks),
                                            events: element_events,
                                        };
                                        proof {
                                            assert(spec_ticks_to_unix_ms(ticks)
                                                <= i64::MAX as int);
                                            assert(packet@ == (PacketAnalysisV {
                                                timestamp: Timestamp {
                                                    epoch_millis: spec_ticks_to_unix_ms(
                                                        ticks,
                                                    ) as i64,
                                                    offset_seconds: 0,
                                                },
                                                events: eevents,
                                            }));
                                        }
                                        analysis.push(packet);
                                    }
                                    proof {
                                        assert(one.1 =~= Seq::<Seq<char>>::empty());
                                        let epacket = PacketAnalysisV {
                                            timestamp: Timestamp {
                                                epoch_millis: spec_ticks_to_unix_ms(ticks) as i64,
                                                offset_seconds: 0,
                                            },
                                            events: eevents,
                                        };
                                        let qpacket = PacketAnalysisV {
                                            timestamp: row_timestamp,
                                            events: run.1,
                                        };
                                        if spec_any_event(run.1) {
                                            if spec_any_event(eevents) {
                                                assert(one.2 =~= seq![qpacket] + seq![epacket]);
                                            } else {
                                                assert(one.2 =~= seq![qpacket]);
                                            }
                                        } else {
                                            if spec_any_event(eevents) {
                                                assert(one.2 =~= Seq::<
                                                    PacketAnalysisV,
                                                >::empty() + seq![epacket]);
                                            } else {
                                                assert(one.2 =~= Seq::<PacketAnalysisV>::empty());
                                            }
                                        }
                                    }
                                },
                            }
                        },
                    }
                },
            }
            proof {
                let partn = spec_process_messages(analyzers0, qs0, dec.take(k + 1),
                row_timestamp);
                assert(partn.0 == one.0);
                assert(partn.1 == part.1 + one.1);
                assert(partn.2 == part.2 + one.2);
                assert(self.qmdl_analyzers@ == partn.0);
                assert(skipped@.len() == partn.1.len());
                assert forall|j: int|
                    0 <= j < skipped@.len() implies (#[trigger] skipped@[j])@ == partn.1[j] by {
                    if j < skipped0.len() {
                        assert(skipped@[j] == skipped0[j]);
                        assert(partn.1[j] == part.1[j]);
                    } else {
                        assert(partn.1[j] == one.1[j - part.1.len()]);
                    }
                }
                assert(analysis@.len() == partn.2.len());
                assert forall|j: int|
                    0 <= j < analysis@.len() implies (#[trigger] analysis@[j])@ == partn.2[j] by {
                    if j < analysis0.len() {
                        assert(analysis@[j] == analysis0[j]);
                        assert(partn.2[j] == part.2[j]);
                    } else {
                        assert(partn.2[j] == one.2[j - part.2.len()]);
                    }
                }
            }
            k = k + 1;
        }
        proof {
            assert(dec.take(decoded@.len() as int) =~= dec);
            let outcome = spec_process_messages(analyzers0, qs0, dec, row_timestamp);
            assert forall|j: int|
                0 <= j < skipped@.len() implies skipped.deep_view()[j] == outcome.1[j] by {
                assert(skipped.deep_view()[j] == skipped@[j]@);
            }
            assert(skipped.deep_view() =~= outcome.1);
            assert forall|j: int|
                0 <= j < analysis@.len() implies analysis.deep_view()[j] == outcome.2[j] by {
                assert(analysis.deep_view()[j] == analysis@[j]@);
            }
            assert(analysis.deep_view() =~= outcome.2);
        }
        AnalysisRow { timestamp: row_timestamp, skipped_message_reasons: skipped, analysis }
    }

    /// The names of the registered analyzers: element analyzers first,
    /// then raw-message analyzers, each kind in registration order — the
    /// order every events sequence follows.
    pub fn get_names(&self) -> (r: Vec<String>)
        ensures
            r.deep_view() == spec_harness_names(self.analyzers@, self.qmdl_analyzers@),
    {
        let mut names: Vec<String> = Vec::new();
        let mut i: usize = 0;
        while i < self.analyzers.len()
            invariant
                i <= self.analyzers@.len(),
                names@.len() == i,
                forall|j: int|
                    0 <= j < i ==> (#[trigger] names@[j])@ == self.analyzers@[j].spec_name(),
            decreases self.analyzers@.len() - i,
        {
            names.push(self.analyzers[i].name());
            i = i + 1;
        }
        let ghost n_elem = self.analyzers@.len() as int;
        let mut q: usize = 0;
        while q < self.qmdl_analyzers.len()
            invariant
                n_elem == self.analyzers@.len(),
                q <= self.qmdl_analyzers@.len(),
                names@.len() == n_elem + q,
                forall|j: int|
                    0 <= j < n_elem ==> (#[trigger] names@[j])@ == self.analyzers@[j].spec_name(),
                forall|j: int|
                    0 <= j < q ==> (#[trigger] names@[n_elem + j])@
                        == self.qmdl_analyzers@[j].spec_name(),
            decreases self.qmdl_analyzers@.len() - q,
        {
            names.push(self.qmdl_analyzers[q].name());
            q = q + 1;
        }
        proof {
            let target = spec_harness_names(self.analyzers@, self.qmdl_analyzers@);
            assert forall|j: int|
                0 <= j < names@.len() implies names.deep_view()[j] == target[j] by {
                assert(names.deep_view()[j] == names@[j]@);
                if j >= n_elem {
                    assert(names@[n_elem + (j - n_elem)]@
                        == self.qmdl_analyzers@[j - n_elem].spec_name());
                }
            }
            assert(names.deep_view() =~= target);
        }
        names
    }

    /// The descriptions of the registered analyzers, in the same order as
    /// `get_names`.
    pub fn get_descriptions(&self) -> (r: Vec<String>)
        ensures
            r.deep_view() == spec_harness_descriptions(self.analyzers@, self.qmdl_analyzers@),
    {
        let mut descriptions: Vec<String> = Vec::new();
        let mut i: usize = 0;
        while i < self.analyzers.len()
            invariant
                i <= self.analyzers@.len(),
                descriptions@.len() == i,
                forall|j: int|
                    0 <= j < i ==> (#[trigger] descriptions@[j])@
                        == self.analyzers@[j].spec_description(),
            decreases self.analyzers@.len() - i,
        {
            descriptions.push(self.analyzers[i].description());
            i = i + 1;
        }
        let ghost n_elem = self.analyzers@.len() as int;
        let mut q: usize = 0;
        while q < self.qmdl_analyzers.len()
            invariant
                n_elem == self.analyzers@.len(),
                q <= self.qmdl_analyzers@.len(),
                descriptions@.len() == n_elem + q,
                forall|j: int|
                    0 <= j < n_elem ==> (#[trigger] descriptions@[j])@
                        == self.analyzers@[j].spec_description(),
                forall|j: int|
                    0 <= j < q ==> (#[trigger] descriptions@[n_elem + j])@
                        == self.qmdl_analyzers@[j].spec_description(),
            decreases self.qmdl_analyzers@.len() - q,
        {
            descriptions.push(self.qmdl_analyzers[q].description());
            q = q + 1;
        }
        proof {
            let target = spec_harness_descriptions(self.analyzers@, self.qmdl_analyzers@);
            assert forall|j: int|
                0 <= j < descriptions@.len() implies descriptions.deep_view()[j] == target[j] by {
                assert(descriptions.deep_view()[j] == descriptions@[j]@);
                if j >= n_elem {
                    assert(descriptions@[n_elem + (j - n_elem)]@ == self.qmdl_analyzers@[j
                        - n_elem].spec_description());
                }
            }
            assert(descriptions.deep_view() =~= target);
        }
        descriptions
    }

    /// The session's report metadata: every analyzer's name and
    /// description in slot order, plus build information.
    pub fn get_metadata(&self) -> (r: ReportMetadata)
        ensures
            r.analyzers@.len() == self.analyzers@.len() + self.qmdl_analyzers@.len(),
            forall|i: int|
                0 <= i < r.analyzers@.len() ==> (#[trigger] r.analyzers@[i]).name@
                    == spec_harness_names(self.analyzers@, self.qmdl_analyzers@)[i]
                    && r.analyzers@[i].description@ == spec_harness_descriptions(
                    self.analyzers@,
                    self.qmdl_analyzers@,
                )[i],
            r.runtime.name@ == "rayhunter"@,
            r.runtime.version@ == "0.1.0"@,
    {
        let ghost n = spec_harness_names(self.analyzers@, self.qmdl_analyzers@);
        let ghost d = spec_harness_descriptions(self.analyzers@, self.qmdl_analyzers@);
        let names = self.get_names();
        let descriptions = self.get_descriptions();
        proof {
            assert(names@.len() == names.deep_view().len());
            assert(descriptions@.len() == descriptions.deep_view().len());
            assert forall|j: int| 0 <= j < names@.len() implies (#[trigger] names@[j])@
                == n[j] by {
                assert(names.deep_view()[j] == names@[j]@);
            }
            assert forall|j: int|
                0 <= j < descriptions@.len() implies (#[trigger] descriptions@[j])@ == d[j] by {
                assert(descriptions.deep_view()[j] == descriptions@[j]@);
            }
        }
        let mut analyzers: Vec<AnalyzerMetadata> = Vec::new();
        let mut i: usize = 0;
        while i < names.len() && i < descriptions.len()
            invariant
                names@.len() == n.len(),
                descriptions@.len() == n.len(),
                d.len() == n.len(),
                forall|j: int| 0 <= j < names@.len() ==> (#[trigger] names@[j])@ == n[j],
                forall|j: int|
                    0 <= j < descriptions@.len() ==> (#[trigger] descriptions@[j])@ == d[j],
                i <= names@.len(),
                analyzers@.len() == i,
                forall|j: int|
                    0 <= j < i ==> (#[trigger] analyzers@[j]).name@ == n[j]
                        && analyzers@[j].description@ == d[j],
            decreases names@.len() - i,
        {
            analyzers.push(
                AnalyzerMetadata {
                    name: names[i].clone(),
                    description: descriptions[i].clone(),
                },
            );
            i = i + 1;
        }
        ReportMetadata { analyzers, runtime: RuntimeMetadata::new() }
    }
}

/// The slot names of a harness: element analyzers, then raw-message
/// analyzers.
pub open spec fn spec_harness_names(
    analyzers: Seq<ElementAnalyzerKind>,
    qs: Seq<QmdlAnalyzerKind>,
) -> Seq<Seq<char>> {
    Seq::new(analyzers.len(), |j: int| analyzers[j].spec_name()) + Seq::new(
        qs.len(),
        |j: int| qs[j].spec_name(),
    )
}

/// The slot descriptions of a harness, in slot order.
pub open spec fn spec_harness_descriptions(
    analyzers: Seq<ElementAnalyzerKind>,
    qs: Seq<QmdlAnalyzerKind>,
) -> Seq<Seq<char>> {
    Seq::new(analyzers.len(), |j: int| analyzers[j].spec_description()) + Seq::new(
        qs.len(),
        |j: int| qs[j].spec_description(),
    )
}

/// Whether any slot of an event vector holds an event.
fn any_event(events: &Vec<Option<Event>>) -> (r: bool)
    ensures
        r == spec_any_event(events.deep_view()),
{
    let mut i: usize = 0;
    while i < events.len()
        invariant
            i <= events@.len(),
            forall|j: int| 0 <= j < i ==> !((#[trigger] events.deep_view()[j]) is Some),
        decreases events@.len() - i,
    {
        if events[i].is_some() {
            proof {
                assert(events.deep_view()[i as int] is Some);
            }
            return true;
        }
        i = i + 1;
    }
    false
}

} // verus!
