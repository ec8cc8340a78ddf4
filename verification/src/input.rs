//! Decoding of Linux input events from the device's hardware button.

use vstd::prelude::*;
use vstd::bytes::{spec_u16_from_le_bytes, spec_u32_from_le_bytes, u16_from_le_bytes,
    u32_from_le_bytes};
use vstd::slice::slice_subrange;

verus! {

/// Size in bytes of one kernel input event record on the target hardware.
pub const INPUT_EVENT_SIZE: usize = 16;

/// Kernel event type number for key events.
pub const EV_KEY: u16 = 1;

/// A button transition.
#[derive(Clone, Copy, Debug, PartialEq, Eq, Structural)]
pub enum Event {
    KeyDown,
    KeyUp,
}

/// Decoding of one raw input record: a key event's value 1 is a press and
/// 0 a release; anything else — other event types, repeats, short reads —
/// is nothing.
pub open spec fn spec_parse_event(s: Seq<u8>) -> Option<Event> {
    if s.len() < 16 {
        None
    } else {
        let event_type = spec_u16_from_le_bytes(s.subrange(8, 10));
        let event_value = spec_u32_from_le_bytes(s.subrange(12, 16));
        if event_type == EV_KEY {
            if event_value == 1 {
                Some(Event::KeyDown)
            } else if event_value == 0 {
                Some(Event::KeyUp)
            } else {
                None
            }
        } else {
            None
        }
    }
}

/// Decodes one raw input record into a button transition, if it is one.
pub fn parse_event(input: &[u8]) -> (r: Option<Event>)
    ensures
        r == spec_parse_event(input@),
{
    if input.len() < 16 {
        return None;
    }
    let event_type = u16_from_le_bytes(slice_subrange(input, 8, 10));
    let event_value = u32_from_le_bytes(slice_subrange(input, 12, 16));
    if event_type == EV_KEY {
        if event_value == 1 {
            Some(Event::KeyDown)
        } else if event_value == 0 {
            Some(Event::KeyUp)
        } else {
            None
        }
    } else {
        None
    }
}

} // verus!
