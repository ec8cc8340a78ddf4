//! Passive detector for cellular-baseband surveillance on Qualcomm-based
//! hotspot hardware.
//!
//! The modules stand in dependency order: `hdlc` frames and checks the
//! raw byte stream, `diag` codes the vendor message containers, `log_codes`
//! names the diagnostic records the driver subscribes to, and `diag_device`
//! holds every decision the driver makes — backoff, tolerances, response
//! scanning, mask planning. `gsmtap` and `information_element` decode log
//! records into RAT-neutral signaling elements, `detectors` holds the
//! heuristics, and `analyzer` hosts them and aggregates their findings
//! into timestamped rows. `timestamp`, `framebuffer`, `input`, `wifi`,
//! `qr` and `gps` serve the surrounding device tooling.

pub mod analyzer;
pub mod detectors;
pub mod diag;
pub mod diag_device;
pub mod framebuffer;
pub mod gps;
pub mod gsmtap;
pub mod hdlc;
pub mod information_element;
pub mod input;
pub mod log_codes;
pub mod qr;
pub mod timestamp;
pub mod wifi;
