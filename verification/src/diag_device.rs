//! Decision logic of the diagnostic-device driver: initialization retry
//! with exponential backoff, the ioctl parameter table, write and read
//! tolerances, response scanning, and log-mask configuration planning.
//!
//! The driver's I/O itself — opening the device node, the ioctls, the
//! asynchronous read loop — cannot be verified and lives with the binary;
//! it feeds bytes and outcomes into the functions here and acts on what
//! they decide.

use vstd::prelude::*;
use vstd::arithmetic::power2::{lemma_pow2_unfold, pow2};
use crate::diag::{
    build_log_mask_request, DataType, LogConfigRequest, Message, MessagesContainer, ParsingError,
    Request, ResponsePayload, spec_serialize_request, spec_serialize_request_container,
    RequestContainer,
};
use crate::hdlc::{hdlc_encapsulate, spec_encapsulate};
use crate::log_codes;

verus! {

/// Size of the driver's read buffer.
pub const BUFFER_LEN: usize = 10485760;

/// Logging mode requested from the device: memory-device logging.
pub const MEMORY_DEVICE_MODE: u32 = 2;

/// Request code of the switch-logging ioctl. The width accepted by the C
/// ABI varies by target; the binary narrows this as its libc requires.
pub const DIAG_IOCTL_SWITCH_LOGGING: u64 = 7;

/// Request code of the remote-device ioctl.
pub const DIAG_IOCTL_REMOTE_DEV: u64 = 32;

/// First retry delay during initialization.
pub const INITIAL_BACKOFF_MS: u64 = 100;

/// Ceiling on the retry delay.
pub const MAX_BACKOFF_MS: u64 = 5000;

/// Default deadline on the whole initialization.
pub const DEFAULT_INIT_DEADLINE_MS: u64 = 30000;

/// A read of at most this many bytes is a transient hardware hiccup.
pub const MAX_TRANSIENT_READ_BYTES: usize = 8;

/// Everything that can go wrong in the driver.
#[derive(Clone, Debug, PartialEq)]
pub enum DiagDeviceError {
    /// The ioctl handshake failed beyond the retry deadline.
    InitializationFailed(String),
    /// Reading the device node failed.
    DeviceReadFailed(String),
    /// Writing the device node failed (a zero-byte write is not a failure).
    DeviceWriteFailed(String),
    /// The baseband answered one of our requests with a nonzero status.
    RequestFailed(u32, Request),
    /// The response stream was exhausted without a matching response.
    NoResponse(Request),
    /// The device node could not be opened.
    OpenDiagDeviceError(String),
    /// A read returned bytes that do not form a messages container.
    ParseMessagesContainerError(crate::diag::ContainerParseError),
}

pub type DiagResult<T> = Result<T, DiagDeviceError>;

// ----------------------------------------------------------------------
// Initialization: ioctl parameter table and retry backoff.
// ----------------------------------------------------------------------

/// Parameter block of the struct form of the switch-logging ioctl.
#[derive(Clone, Copy, Debug, PartialEq, Eq, Structural)]
pub struct LoggingModeParam {
    pub req_mode: u32,
    pub peripheral_mask: u32,
    pub mode_param: u8,
}

/// The parameter shapes to try, in order, when the short form of the
/// switch-logging ioctl fails. Hardware revisions differ: the table is a
/// list, not a branch, so a new revision is one more row.
pub fn switch_logging_params(mode: u32) -> (params: Vec<LoggingModeParam>)
    ensures
        params@.len() == 2,
        params@[0] == (LoggingModeParam { req_mode: mode, peripheral_mask: 0, mode_param: 1 }),
        params@[1] == (LoggingModeParam {
            req_mode: mode,
            peripheral_mask: 0xffffffff,
            mode_param: 0,
        }),
{
    let mut params: Vec<LoggingModeParam> = Vec::new();
    params.push(LoggingModeParam { req_mode: mode, peripheral_mask: 0, mode_param: 1 });
    params.push(LoggingModeParam { req_mode: mode, peripheral_mask: 0xffffffff, mode_param: 0 });
    params
}

/// Whether the remote-device ioctl's answer calls for the extra MDM mask.
pub fn mdm_enabled(use_mdm: i32) -> (r: bool)
    ensures
        r == (use_mdm > 0),
{
    use_mdm > 0
}

/// The retry delay after `n` failed initialization attempts: 100 ms,
/// doubling, capped at 5 s.
pub open spec fn spec_backoff_delay_ms(n: nat) -> int
    decreases n,
{
    if n == 0 {
        INITIAL_BACKOFF_MS as int
    } else if 2 * spec_backoff_delay_ms((n - 1) as nat) <= MAX_BACKOFF_MS {
        2 * spec_backoff_delay_ms((n - 1) as nat)
    } else {
        MAX_BACKOFF_MS as int
    }
}

/// The backoff delays form the sequence 100 ms, 200 ms, 400 ms, …, capped
/// at 5 s: the delay after `n` failures is `100 * 2^n` milliseconds until
/// that exceeds the cap, and exactly the cap from then on.
pub proof fn lemma_backoff_schedule(n: nat)
    ensures
        spec_backoff_delay_ms(n) == if 100 * pow2(n) <= 5000 {
            (100 * pow2(n)) as int
        } else {
            5000int
        },
        100 <= spec_backoff_delay_ms(n) <= 5000,
    decreases n,
{
    if n == 0 {
        assert(pow2(0) == 1) by {
            vstd::arithmetic::power2::lemma2_to64();
        }
    } else {
        lemma_backoff_schedule((n - 1) as nat);
        lemma_pow2_unfold(n);
    }
}

/// The next retry delay: doubled, capped at 5 s.
pub fn next_backoff_delay(delay_ms: u64) -> (r: u64)
    requires
        delay_ms <= MAX_BACKOFF_MS,
    ensures
        r == if 2 * delay_ms <= MAX_BACKOFF_MS {
            2 * delay_ms
        } else {
            MAX_BACKOFF_MS as int
        },
{
    if delay_ms > MAX_BACKOFF_MS / 2 {
        MAX_BACKOFF_MS
    } else {
        2 * delay_ms
    }
}

/// Whether a failed initialization attempt may be retried: only while the
/// elapsed time is still under the deadline. This bounds initialization by
/// the configured deadline.
pub fn init_may_retry(elapsed_ms: u64, deadline_ms: u64) -> (r: bool)
    ensures
        r == (elapsed_ms < deadline_ms),
{
    elapsed_ms < deadline_ms
}

// ----------------------------------------------------------------------
// Read and write tolerances.
// ----------------------------------------------------------------------

/// Whether a read of `n` bytes is an undersized transient frame that must
/// be retried rather than parsed or surfaced as an error.
pub fn read_is_transient(bytes_read: usize) -> (r: bool)
    ensures
        r == (bytes_read <= MAX_TRANSIENT_READ_BYTES),
{
    bytes_read <= MAX_TRANSIENT_READ_BYTES
}

/// What a write to the device node came to. The device commonly reports
/// zero bytes written even when it accepted the request, so that outcome
/// is its own case.
#[derive(Clone, Debug, PartialEq)]
pub enum WriteOutcome {
    /// The write returned: `n` bytes reported written (zero included).
    Wrote(usize),
    /// The write failed with a write-zero error.
    WriteZeroError,
    /// The write failed with any other error, described by `detail`.
    OtherError { detail: String },
}

/// Judges a write outcome: a reported byte count — zero included — and the
/// write-zero error are success; every other error is fatal to the
/// operation.
pub fn classify_write_outcome(outcome: WriteOutcome) -> (r: DiagResult<()>)
    ensures
        match outcome {
            WriteOutcome::Wrote(_) => r is Ok,
            WriteOutcome::WriteZeroError => r is Ok,
            WriteOutcome::OtherError { detail } => r matches Err(e) && e
                == DiagDeviceError::DeviceWriteFailed(detail),
        },
{
    match outcome {
        WriteOutcome::Wrote(_) => Ok(()),
        WriteOutcome::WriteZeroError => Ok(()),
        WriteOutcome::OtherError { detail } => Err(DiagDeviceError::DeviceWriteFailed(detail)),
    }
}

// ----------------------------------------------------------------------
// Request serialization for the wire.
// ----------------------------------------------------------------------

/// The bytes the driver writes to the device for a request: the request
/// serialized, HDLC-framed, and wrapped in a user-space request container
/// with the −1 MDM sentinel.
pub open spec fn spec_request_wire_bytes(r: crate::diag::RequestV, use_mdm: bool) -> Seq<u8> {
    spec_serialize_request_container(
        DataType::UserSpace,
        use_mdm,
        -1i32,
        spec_encapsulate(spec_serialize_request(r)),
    )
}

/// Serializes a request for the device, framing it and wrapping it in a
/// request container.
pub fn request_wire_bytes(req: &Request, use_mdm: bool) -> (out: Vec<u8>)
    requires
        2 * spec_serialize_request(req@).len() + 5 <= u32::MAX,
    ensures
        out@ == spec_request_wire_bytes(req@, use_mdm),
{
    let serialized = crate::diag::serialize_request(req);
    let framed = hdlc_encapsulate(serialized.as_slice());
    let container = RequestContainer {
        data_type: DataType::UserSpace,
        use_mdm,
        mdm_field: -1i32,
        hdlc_encapsulated_request: framed,
    };
    proof {
        crate::hdlc::lemma_encapsulate_len(serialized@);
    }
    container.to_bytes()
}

// ----------------------------------------------------------------------
// Response scanning.
// ----------------------------------------------------------------------

/// Whether a container carries responses to our requests; anything else is
/// passed over by the handshake reader.
pub fn container_is_response(container: &MessagesContainer) -> (r: bool)
    ensures
        r == (container.data_type == DataType::UserSpace),
{
    match container.data_type {
        DataType::UserSpace => true,
        DataType::Other(_) => false,
    }
}

/// The first retrieve-id-ranges response among the decoded messages:
/// its status and mask sizes. Log messages and unrelated responses are
/// passed over.
pub open spec fn spec_find_id_ranges(msgs: Seq<Result<Message, ParsingError>>) -> Option<
    (u32, Seq<u32>),
>
    decreases msgs.len(),
{
    if msgs.len() == 0 {
        None
    } else {
        match msgs[0] {
            Ok(
                Message::Response {
                    status,
                    payload: ResponsePayload::RetrieveIdRanges { log_mask_sizes },
                },
            ) => Some((status, log_mask_sizes@)),
            _ => spec_find_id_ranges(msgs.skip(1)),
        }
    }
}

/// Scans one container's messages for the answer to `RetrieveIdRanges`.
/// Status zero yields the sixteen mask sizes; a nonzero status is
/// `RequestFailed` with that status; no matching response at all is
/// `NoResponse`. Log messages read during the handshake are passed over.
pub fn scan_id_ranges_response(msgs: &Vec<Result<Message, ParsingError>>) -> (r: DiagResult<
    [u32; 16],
>)
    ensures
        match spec_find_id_ranges(msgs@) {
            None => r == Err::<[u32; 16], DiagDeviceError>(
                DiagDeviceError::NoResponse(
                    Request::LogConfig(LogConfigRequest::RetrieveIdRanges),
                ),
            ),
            Some((status, sizes)) => if status == 0 {
                r matches Ok(a) && a@ == sizes
            } else {
                r == Err::<[u32; 16], DiagDeviceError>(
                    DiagDeviceError::RequestFailed(
                        status,
                        Request::LogConfig(LogConfigRequest::RetrieveIdRanges),
                    ),
                )
            },
        },
{
    let mut i: usize = 0;
    proof {
        assert(msgs@.skip(0) =~= msgs@);
    }
    while i < msgs.len()
        invariant
            i <= msgs@.len(),
            spec_find_id_ranges(msgs@) == spec_find_id_ranges(msgs@.skip(i as int)),
        decreases msgs@.len() - i,
    {
        proof {
            assert(msgs@.skip(i as int)[0] == msgs@[i as int]);
            assert(msgs@.skip(i as int).skip(1) =~= msgs@.skip(i + 1));
        }
        match &msgs[i] {
            Ok(Message::Response { status, payload: ResponsePayload::RetrieveIdRanges {
                log_mask_sizes,
            } }) => {
                if *status != 0 {
                    return Err(
                        DiagDeviceError::RequestFailed(
                            *status,
                            Request::LogConfig(LogConfigRequest::RetrieveIdRanges),
                        ),
                    );
                }
                return Ok(*log_mask_sizes);
            },
            _ => {},
        }
        i = i + 1;
    }
    proof {
        assert(msgs@.skip(msgs@.len() as int).len() == 0);
    }
    Err(DiagDeviceError::NoResponse(Request::LogConfig(LogConfigRequest::RetrieveIdRanges)))
}

/// The status of the first set-mask acknowledgement among the decoded
/// messages.
pub open spec fn spec_find_set_mask_ack(msgs: Seq<Result<Message, ParsingError>>) -> Option<u32>
    decreases msgs.len(),
{
    if msgs.len() == 0 {
        None
    } else {
        match msgs[0] {
            Ok(Message::Response { status, payload: ResponsePayload::SetMask }) => Some(status),
            _ => spec_find_set_mask_ack(msgs.skip(1)),
        }
    }
}

/// Scans one container's messages for the acknowledgement of a set-mask
/// request. Status zero is success; a nonzero status is `RequestFailed`;
/// no acknowledgement is `NoResponse`. The request itself is reported in
/// the error.
pub fn scan_set_mask_response(msgs: &Vec<Result<Message, ParsingError>>, req: Request) -> (r:
    DiagResult<()>)
    ensures
        match spec_find_set_mask_ack(msgs@) {
            None => r == Err::<(), DiagDeviceError>(DiagDeviceError::NoResponse(req)),
            Some(status) => if status == 0 {
                r is Ok
            } else {
                r == Err::<(), DiagDeviceError>(DiagDeviceError::RequestFailed(status, req))
            },
        },
{
    let mut i: usize = 0;
    proof {
        assert(msgs@.skip(0) =~= msgs@);
    }
    while i < msgs.len()
        invariant
            i <= msgs@.len(),
            spec_find_set_mask_ack(msgs@) == spec_find_set_mask_ack(msgs@.skip(i as int)),
        decreases msgs@.len() - i,
    {
        proof {
            assert(msgs@.skip(i as int)[0] == msgs@[i as int]);
            assert(msgs@.skip(i as int).skip(1) =~= msgs@.skip(i + 1));
        }
        match &msgs[i] {
            Ok(Message::Response { status, payload: ResponsePayload::SetMask }) => {
                if *status != 0 {
                    return Err(DiagDeviceError::RequestFailed(*status, req));
                }
                return Ok(());
            },
            _ => {},
        }
        i = i + 1;
    }
    proof {
        assert(msgs@.skip(msgs@.len() as int).len() == 0);
    }
    Err(DiagDeviceError::NoResponse(req))
}

// ----------------------------------------------------------------------
// Log-mask configuration planning.
// ----------------------------------------------------------------------

/// The log types to configure, in type order: every type whose advertised
/// mask size is nonzero, paired with that size.
pub open spec fn spec_mask_plan(sizes: Seq<u32>) -> Seq<(u32, u32)>
    decreases sizes.len(),
{
    if sizes.len() == 0 {
        Seq::empty()
    } else {
        let prefix = spec_mask_plan(sizes.drop_last());
        if sizes.last() > 0 {
            prefix.push((((sizes.len() - 1) as u32), sizes.last()))
        } else {
            prefix
        }
    }
}

/// Plans the log-mask configuration from the sizes the device advertised:
/// one set-mask step per log type with a nonzero mask size, in type order.
/// The plan is a function of the sizes alone, so configuring twice plans
/// the same steps twice.
pub fn mask_config_plan(log_mask_sizes: &[u32; 16]) -> (plan: Vec<(u32, u32)>)
    ensures
        plan@ == spec_mask_plan(log_mask_sizes@),
{
    let mut plan: Vec<(u32, u32)> = Vec::new();
    let mut i: usize = 0;
    while i < 16
        invariant
            i <= 16,
            log_mask_sizes@.len() == 16,
            plan@ == spec_mask_plan(log_mask_sizes@.take(i as int)),
        decreases 16 - i,
    {
        proof {
            assert(log_mask_sizes@.take(i + 1).drop_last() =~= log_mask_sizes@.take(i as int));
            assert(log_mask_sizes@.take(i + 1).last() == log_mask_sizes@[i as int]);
        }
        let size = log_mask_sizes[i];
        if size > 0 {
            plan.push((i as u32, size));
        }
        i = i + 1;
    }
    proof {
        assert(log_mask_sizes@.take(16) =~= log_mask_sizes@);
    }
    plan
}

/// Builds the set-mask request for one planned step, subscribing exactly
/// the registry's log codes that fall in the step's range.
pub fn build_registry_mask_request(log_type: u32, log_mask_bitsize: u32) -> (r: Request)
    requires
        log_mask_bitsize as int + 7 <= usize::MAX,
    ensures
        r@ matches crate::diag::RequestV::SetMask {
            log_type: lt,
            log_mask_bitsize: bs,
            log_mask: mask,
        } && lt == log_type && bs == log_mask_bitsize && mask.len() == (log_mask_bitsize as int
            + 7) / 8 && forall|i: int|
            0 <= i < log_mask_bitsize ==> (crate::diag::spec_mask_bit(mask, i)
                <==> crate::diag::spec_code_selects(
                log_codes::spec_raw_logging_codes(),
                log_type,
                i,
            )),
{
    let codes = log_codes::log_codes_for_raw_packet_logging();
    build_log_mask_request(log_type, log_mask_bitsize, &codes)
}

} // verus!
