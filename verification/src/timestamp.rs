//! Timestamps: the host wall clock for analysis rows, and the baseband
//! tick counter embedded in diagnostic log headers for per-packet times.
//! Both sources are kept; they may drift from one another.

use vstd::prelude::*;

verus! {

/// The GPS epoch (1980-01-06 00:00:00 UTC) in Unix milliseconds; baseband
/// tick counters start there.
pub const GPS_EPOCH_UNIX_MS: i64 = 315964800000;

/// Baseband ticks are 1.25 ms units.
pub const TICK_NUMERATOR: u64 = 5;

pub const TICK_DENOMINATOR: u64 = 4;

/// An instant with its UTC offset, in plain values: Unix milliseconds and
/// the local offset in seconds.
#[derive(Clone, Copy, Debug, PartialEq, Eq, Structural)]
pub struct Timestamp {
    pub epoch_millis: i64,
    pub offset_seconds: i32,
}

/// The Unix milliseconds a baseband tick count stands for: ticks of
/// 1.25 ms since the GPS epoch, saturating at the representable maximum.
pub open spec fn spec_ticks_to_unix_ms(ticks: u64) -> int {
    if GPS_EPOCH_UNIX_MS + ticks * 5 / 4 <= i64::MAX {
        GPS_EPOCH_UNIX_MS + ticks * 5 / 4
    } else {
        i64::MAX as int
    }
}

impl Timestamp {
    /// Converts a baseband tick counter into a UTC timestamp.
    pub fn from_qualcomm_ticks(ticks: u64) -> (r: Timestamp)
        ensures
            r.epoch_millis == spec_ticks_to_unix_ms(ticks),
            r.offset_seconds == 0,
    {
        let ms128: u128 = (ticks as u128) * 5 / 4;
        let limit: u128 = (i64::MAX as u128) - (GPS_EPOCH_UNIX_MS as u128);
        if ms128 <= limit {
            Timestamp { epoch_millis: GPS_EPOCH_UNIX_MS + (ms128 as i64), offset_seconds: 0 }
        } else {
            Timestamp { epoch_millis: i64::MAX, offset_seconds: 0 }
        }
    }
}

/// Relies on `chrono::Local::now` for the host wall clock, converted to
/// Unix milliseconds and the local UTC offset. The clock decides the
/// value, so nothing is promised of it.
#[verifier::external_body]
pub(crate) fn now_timestamp() -> Timestamp {
    let now = chrono::Local::now().fixed_offset();
    Timestamp {
        epoch_millis: now.timestamp_millis(),
        offset_seconds: now.offset().local_minus_utc(),
    }
}

} // verus!
