//! Second stage of the signaling decoder: from a GSMTAP-style frame to the
//! RAT-neutral information element the detectors consume.

use vstd::prelude::*;
use crate::gsmtap::{Channel, Direction, GsmtapMessage, GsmtapMessageV, Rat};

verus! {

/// A decoded, RAT-neutral signaling PDU: what every element analyzer sees.
#[derive(Clone, Debug, PartialEq)]
pub struct InformationElement {
    pub rat: Rat,
    pub channel: Channel,
    pub direction: Direction,
    pub payload: Vec<u8>,
}

/// Mathematical model of an `InformationElement`.
pub struct InformationElementV {
    pub rat: Rat,
    pub channel: Channel,
    pub direction: Direction,
    pub payload: Seq<u8>,
}

impl View for InformationElement {
    type V = InformationElementV;

    open spec fn view(&self) -> InformationElementV {
        InformationElementV {
            rat: self.rat,
            channel: self.channel,
            direction: self.direction,
            payload: self.payload@,
        }
    }
}

/// Why a frame yielded no information element.
#[derive(Clone, Copy, Debug, PartialEq, Eq, Structural)]
pub enum InformationElementError {
    /// The frame carries no signaling bytes at all.
    EmptyPayload,
}

impl InformationElementError {
    /// A short diagnostic text, recorded as a skip reason.
    pub open spec fn spec_text(self) -> Seq<char> {
        match self {
            InformationElementError::EmptyPayload => "signaling frame has empty payload"@,
        }
    }

    /// A short diagnostic text, recorded as a skip reason.
    pub fn text(&self) -> (r: String)
        ensures
            r@ == self.spec_text(),
    {
        match self {
            InformationElementError::EmptyPayload => String::from_str(
                "signaling frame has empty payload",
            ),
        }
    }
}

/// Construction of an information element from a frame: the tagging is
/// kept; an empty payload is rejected.
pub open spec fn spec_ie_from_gsmtap(g: GsmtapMessageV) -> Result<
    InformationElementV,
    InformationElementError,
> {
    if g.payload.len() == 0 {
        Err(InformationElementError::EmptyPayload)
    } else {
        Ok(
            InformationElementV {
                rat: g.rat,
                channel: g.channel,
                direction: g.direction,
                payload: g.payload,
            },
        )
    }
}

impl InformationElement {
    /// Builds the information element for a frame, or the reason the frame
    /// was skipped.
    pub fn from_gsmtap(msg: &GsmtapMessage) -> (r: Result<
        InformationElement,
        InformationElementError,
    >)
        ensures
            match r {
                Ok(ie) => spec_ie_from_gsmtap(msg@) matches Ok(v) && v == ie@,
                Err(e) => spec_ie_from_gsmtap(msg@) == Err::<
                    InformationElementV,
                    InformationElementError,
                >(e),
            },
    {
        if msg.payload.len() == 0 {
            Err(InformationElementError::EmptyPayload)
        } else {
            let payload = msg.payload.clone();
            proof {
                assert(payload@ =~= msg.payload@);
            }
            Ok(
                InformationElement {
                    rat: msg.rat,
                    channel: msg.channel,
                    direction: msg.direction,
                    payload,
                },
            )
        }
    }
}

} // verus!
