//! The vendor message-container codec: serialization of requests to the
//! baseband diagnostic subsystem, and parsing of the message containers it
//! returns. All wire integers are little-endian.

use vstd::prelude::*;
use vstd::bytes::{
    spec_u16_from_le_bytes, spec_u32_from_le_bytes, spec_u32_to_le_bytes, spec_u64_from_le_bytes,
    u16_from_le_bytes, u32_from_le_bytes, u32_to_le_bytes, u64_from_le_bytes,
};
use vstd::slice::slice_subrange;
use crate::hdlc;

verus! {

/// Wire value of the user-space data type tag.
pub const USER_SPACE_DATA_TYPE: u32 = 32;

/// Diag opcode of a log packet.
pub const LOG_OPCODE: u8 = 0x10;

/// Diag opcode of a log-config command or response.
pub const LOG_CONFIG_OPCODE: u8 = 0x73;

/// Log-config operation: retrieve the per-type bitmask sizes.
pub const RETRIEVE_ID_RANGES_OP: u32 = 1;

/// Log-config operation: set one log type's bitmask.
pub const SET_MASK_OP: u32 = 3;

/// Number of log types a baseband reports mask sizes for.
pub const NUM_LOG_TYPES: usize = 16;

/// Tag distinguishing user-space containers from other traffic.
#[derive(Clone, Copy, Debug, PartialEq, Eq, Structural)]
pub enum DataType {
    UserSpace,
    Other(u32),
}

impl DataType {
    /// The wire encoding of this tag.
    pub open spec fn spec_code(self) -> u32 {
        match self {
            DataType::UserSpace => USER_SPACE_DATA_TYPE,
            DataType::Other(v) => v,
        }
    }

    /// Reads the tag from its wire encoding.
    pub open spec fn spec_from_code(v: u32) -> DataType {
        if v == USER_SPACE_DATA_TYPE {
            DataType::UserSpace
        } else {
            DataType::Other(v)
        }
    }

    /// The wire encoding of this tag.
    pub fn code(&self) -> (r: u32)
        ensures
            r == self.spec_code(),
    {
        match self {
            DataType::UserSpace => USER_SPACE_DATA_TYPE,
            DataType::Other(v) => *v,
        }
    }

    /// Reads the tag from its wire encoding.
    pub fn from_code(v: u32) -> (r: DataType)
        ensures
            r == DataType::spec_from_code(v),
    {
        if v == USER_SPACE_DATA_TYPE {
            DataType::UserSpace
        } else {
            DataType::Other(v)
        }
    }
}

/// A log-config request to the baseband.
#[derive(Clone, Debug, PartialEq)]
pub enum LogConfigRequest {
    RetrieveIdRanges,
    SetMask { log_type: u32, log_mask_bitsize: u32, log_mask: Vec<u8> },
}

/// A request addressed to the baseband diagnostic subsystem.
#[derive(Clone, Debug, PartialEq)]
pub enum Request {
    LogConfig(LogConfigRequest),
}

/// Mathematical model of a `Request`.
pub enum RequestV {
    RetrieveIdRanges,
    SetMask { log_type: u32, log_mask_bitsize: u32, log_mask: Seq<u8> },
}

impl View for Request {
    type V = RequestV;

    open spec fn view(&self) -> RequestV {
        match self {
            Request::LogConfig(LogConfigRequest::RetrieveIdRanges) => RequestV::RetrieveIdRanges,
            Request::LogConfig(
                LogConfigRequest::SetMask { log_type, log_mask_bitsize, log_mask },
            ) => RequestV::SetMask {
                log_type: *log_type,
                log_mask_bitsize: *log_mask_bitsize,
                log_mask: log_mask@,
            },
        }
    }
}

/// The diag command payload of a request, before HDLC framing: opcode,
/// three padding bytes, operation, then the operation's arguments.
pub open spec fn spec_serialize_request(r: RequestV) -> Seq<u8> {
    match r {
        RequestV::RetrieveIdRanges => seq![LOG_CONFIG_OPCODE, 0u8, 0u8, 0u8]
            + spec_u32_to_le_bytes(RETRIEVE_ID_RANGES_OP),
        RequestV::SetMask { log_type, log_mask_bitsize, log_mask } => seq![
            LOG_CONFIG_OPCODE,
            0u8,
            0u8,
            0u8,
        ] + spec_u32_to_le_bytes(SET_MASK_OP) + spec_u32_to_le_bytes(log_type)
            + spec_u32_to_le_bytes(log_mask_bitsize) + log_mask,
    }
}

/// Serializes a request into its diag command payload.
pub fn serialize_request(r: &Request) -> (out: Vec<u8>)
    ensures
        out@ == spec_serialize_request(r@),
{
    let mut out: Vec<u8> = Vec::new();
    out.push(LOG_CONFIG_OPCODE);
    out.push(0u8);
    out.push(0u8);
    out.push(0u8);
    proof {
        assert(out@ =~= seq![LOG_CONFIG_OPCODE, 0u8, 0u8, 0u8]);
    }
    match r {
        Request::LogConfig(LogConfigRequest::RetrieveIdRanges) => {
            let mut op = u32_to_le_bytes(RETRIEVE_ID_RANGES_OP);
            out.append(&mut op);
        },
        Request::LogConfig(LogConfigRequest::SetMask { log_type, log_mask_bitsize, log_mask }) => {
            let mut op = u32_to_le_bytes(SET_MASK_OP);
            out.append(&mut op);
            let mut lt = u32_to_le_bytes(*log_type);
            out.append(&mut lt);
            let mut bs = u32_to_le_bytes(*log_mask_bitsize);
            out.append(&mut bs);
            let mut mask = log_mask.clone();
            out.append(&mut mask);
        },
    }
    out
}

/// A request wrapped for delivery to the diagnostic device.
pub struct RequestContainer {
    pub data_type: DataType,
    pub use_mdm: bool,
    /// Auxiliary modem addressing; −1 is the sentinel for "unused".
    pub mdm_field: i32,
    pub hdlc_encapsulated_request: Vec<u8>,
}

/// The wire form of a request container: data type, MDM flag, MDM field,
/// then the length-prefixed HDLC payload.
pub open spec fn spec_serialize_request_container(
    data_type: DataType,
    use_mdm: bool,
    mdm_field: i32,
    payload: Seq<u8>,
) -> Seq<u8> {
    spec_u32_to_le_bytes(data_type.spec_code()) + seq![if use_mdm {
        1u8
    } else {
        0u8
    }] + spec_u32_to_le_bytes(mdm_field as u32) + spec_u32_to_le_bytes(payload.len() as u32)
        + payload
}

impl RequestContainer {
    /// Serializes the container fields in declared order.
    pub fn to_bytes(&self) -> (out: Vec<u8>)
        requires
            self.hdlc_encapsulated_request@.len() <= u32::MAX,
        ensures
            out@ == spec_serialize_request_container(
                self.data_type,
                self.use_mdm,
                self.mdm_field,
                self.hdlc_encapsulated_request@,
            ),
    {
        let mut out = u32_to_le_bytes(self.data_type.code());
        out.push(if self.use_mdm {
            1u8
        } else {
            0u8
        });
        let mut mdm = u32_to_le_bytes(self.mdm_field as u32);
        out.append(&mut mdm);
        let mut len = u32_to_le_bytes(self.hdlc_encapsulated_request.len() as u32);
        out.append(&mut len);
        let mut payload = self.hdlc_encapsulated_request.clone();
        out.append(&mut payload);
        proof {
            assert(out@ =~= spec_serialize_request_container(
                self.data_type,
                self.use_mdm,
                self.mdm_field,
                self.hdlc_encapsulated_request@,
            ));
        }
        out
    }
}

/// Why a single message could not be decoded. Such an error never aborts
/// the surrounding container.
#[derive(Clone, Copy, Debug, PartialEq, Eq, Structural)]
pub enum ParsingError {
    /// The HDLC frame around the message was bad.
    BadFraming(hdlc::HdlcError),
    /// The message is shorter than its header requires.
    TooShort,
    /// The first byte is no known opcode.
    UnknownOpcode,
    /// A log-config response carries an unknown operation number.
    UnknownOperation,
}

impl ParsingError {
    /// A short diagnostic text, recorded as a skip reason.
    pub open spec fn spec_text(self) -> Seq<char> {
        match self {
            ParsingError::BadFraming(hdlc::HdlcError::MissingTerminator) => {
                "HDLC frame missing terminator"@
            },
            ParsingError::BadFraming(hdlc::HdlcError::TruncatedEscape) => {
                "HDLC frame truncated escape"@
            },
            ParsingError::BadFraming(hdlc::HdlcError::TooShort) => "HDLC frame too short"@,
            ParsingError::BadFraming(hdlc::HdlcError::CrcMismatch) => "HDLC frame CRC mismatch"@,
            ParsingError::TooShort => "diag message too short"@,
            ParsingError::UnknownOpcode => "diag message has unknown opcode"@,
            ParsingError::UnknownOperation => "diag response has unknown operation"@,
        }
    }

    /// A short diagnostic text, recorded as a skip reason.
    pub fn text(&self) -> (r: String)
        ensures
            r@ == self.spec_text(),
    {
        match self {
            ParsingError::BadFraming(hdlc::HdlcError::MissingTerminator) => String::from_str(
                "HDLC frame missing terminator",
            ),
            ParsingError::BadFraming(hdlc::HdlcError::TruncatedEscape) => String::from_str(
                "HDLC frame truncated escape",
            ),
            ParsingError::BadFraming(hdlc::HdlcError::TooShort) => String::from_str(
                "HDLC frame too short",
            ),
            ParsingError::BadFraming(hdlc::HdlcError::CrcMismatch) => String::from_str(
                "HDLC frame CRC mismatch",
            ),
            ParsingError::TooShort => String::from_str("diag message too short"),
            ParsingError::UnknownOpcode => String::from_str("diag message has unknown opcode"),
            ParsingError::UnknownOperation => String::from_str(
                "diag response has unknown operation",
            ),
        }
    }
}

/// Payload of a log-config response.
#[derive(Clone, Debug, PartialEq)]
pub enum ResponsePayload {
    RetrieveIdRanges { log_mask_sizes: [u32; 16] },
    SetMask,
}

/// One decoded message from the device.
#[derive(Clone, Debug, PartialEq)]
pub enum Message {
    /// A raw diagnostic log record.
    Log { timestamp: u64, log_code: u32, payload: Vec<u8> },
    /// A response to one of our requests. Status 0 is success; any other
    /// value is a hard error for the request concerned.
    Response { status: u32, payload: ResponsePayload },
}

/// Mathematical model of a `Message`.
pub enum MessageV {
    Log { timestamp: u64, log_code: u32, payload: Seq<u8> },
    Response { status: u32, payload: ResponsePayloadV },
}

/// Mathematical model of a `ResponsePayload`.
pub enum ResponsePayloadV {
    RetrieveIdRanges { log_mask_sizes: Seq<u32> },
    SetMask,
}

impl View for ResponsePayload {
    type V = ResponsePayloadV;

    open spec fn view(&self) -> ResponsePayloadV {
        match self {
            ResponsePayload::RetrieveIdRanges { log_mask_sizes } => {
                ResponsePayloadV::RetrieveIdRanges { log_mask_sizes: log_mask_sizes@ }
            },
            ResponsePayload::SetMask => ResponsePayloadV::SetMask,
        }
    }
}

impl View for Message {
    type V = MessageV;

    open spec fn view(&self) -> MessageV {
        match self {
            Message::Log { timestamp, log_code, payload } => MessageV::Log {
                timestamp: *timestamp,
                log_code: *log_code,
                payload: payload@,
            },
            Message::Response { status, payload } => MessageV::Response {
                status: *status,
                payload: payload@,
            },
        }
    }
}

/// The sixteen mask sizes packed after the header of a retrieve-id-ranges
/// response, one little-endian `u32` each, starting at `base`.
pub open spec fn spec_mask_sizes(s: Seq<u8>, base: int) -> Seq<u32> {
    Seq::new(16, |i: int| spec_u32_from_le_bytes(s.subrange(base + 4 * i, base + 4 * i + 4)))
}

/// Decoding of one unframed diag message.
///
/// A log packet is `LOG_OPCODE`, the log code (`u16`), the baseband
/// timestamp (`u64`), then the payload. A log-config response is
/// `LOG_CONFIG_OPCODE`, three padding bytes, the operation, the status,
/// then the operation's result.
pub open spec fn spec_parse_message(s: Seq<u8>) -> Result<MessageV, ParsingError> {
    if s.len() == 0 {
        Err(ParsingError::TooShort)
    } else if s[0] == LOG_OPCODE {
        if s.len() < 11 {
            Err(ParsingError::TooShort)
        } else {
            Ok(MessageV::Log {
                timestamp: spec_u64_from_le_bytes(s.subrange(3, 11)),
                log_code: spec_u16_from_le_bytes(s.subrange(1, 3)) as u32,
                payload: s.skip(11),
            })
        }
    } else if s[0] == LOG_CONFIG_OPCODE {
        if s.len() < 12 {
            Err(ParsingError::TooShort)
        } else {
            let operation = spec_u32_from_le_bytes(s.subrange(4, 8));
            let status = spec_u32_from_le_bytes(s.subrange(8, 12));
            if operation == RETRIEVE_ID_RANGES_OP {
                if s.len() < 76 {
                    Err(ParsingError::TooShort)
                } else {
                    Ok(MessageV::Response {
                        status,
                        payload: ResponsePayloadV::RetrieveIdRanges {
                            log_mask_sizes: spec_mask_sizes(s, 12),
                        },
                    })
                }
            } else if operation == SET_MASK_OP {
                Ok(MessageV::Response { status, payload: ResponsePayloadV::SetMask })
            } else {
                Err(ParsingError::UnknownOperation)
            }
        }
    } else {
        Err(ParsingError::UnknownOpcode)
    }
}

/// Decodes one unframed diag message.
pub fn parse_message(s: &[u8]) -> (r: Result<Message, ParsingError>)
    ensures
        match r {
            Ok(m) => spec_parse_message(s@) == Ok::<MessageV, ParsingError>(m@),
            Err(e) => spec_parse_message(s@) == Err::<MessageV, ParsingError>(e),
        },
{
    if s.len() == 0 {
        return Err(ParsingError::TooShort);
    }
    if s[0] == LOG_OPCODE {
        if s.len() < 11 {
            return Err(ParsingError::TooShort);
        }
        let log_code = u16_from_le_bytes(slice_subrange(s, 1, 3)) as u32;
        let timestamp = u64_from_le_bytes(slice_subrange(s, 3, 11));
        let payload_slice = slice_subrange(s, 11, s.len());
        let mut payload: Vec<u8> = Vec::new();
        let mut i: usize = 0;
        while i < payload_slice.len()
            invariant
                i <= payload_slice@.len(),
                payload@ == payload_slice@.take(i as int),
            decreases payload_slice@.len() - i,
        {
            payload.push(payload_slice[i]);
            proof {
                assert(payload_slice@.take(i + 1) =~= payload_slice@.take(i as int).push(
                    payload_slice@[i as int],
                ));
            }
            i = i + 1;
        }
        proof {
            assert(payload_slice@.take(payload_slice@.len() as int) =~= payload_slice@);
            assert(payload_slice@ =~= s@.skip(11));
        }
        Ok(Message::Log { timestamp, log_code, payload })
    } else if s[0] == LOG_CONFIG_OPCODE {
        if s.len() < 12 {
            return Err(ParsingError::TooShort);
        }
        let operation = u32_from_le_bytes(slice_subrange(s, 4, 8));
        let status = u32_from_le_bytes(slice_subrange(s, 8, 12));
        if operation == RETRIEVE_ID_RANGES_OP {
            if s.len() < 76 {
                return Err(ParsingError::TooShort);
            }
            let mut log_mask_sizes: [u32; 16] = [0u32; 16];
            let mut i: usize = 0;
            while i < 16
                invariant
                    i <= 16,
                    s@.len() >= 76,
                    forall|j: int|
                        0 <= j < i ==> log_mask_sizes@[j] == spec_u32_from_le_bytes(
                            s@.subrange(12 + 4 * j, 12 + 4 * j + 4),
                        ),
                decreases 16 - i,
            {
                let v = u32_from_le_bytes(slice_subrange(s, 12 + 4 * i, 16 + 4 * i));
                log_mask_sizes[i] = v;
                proof {
                    assert(s@.subrange((12 + 4 * i) as int, (16 + 4 * i) as int) =~= s@.subrange(
                        12 + 4 * (i as int),
                        12 + 4 * (i as int) + 4,
                    ));
                }
                i = i + 1;
            }
            proof {
                assert(log_mask_sizes@ =~= spec_mask_sizes(s@, 12));
            }
            Ok(
                Message::Response {
                    status,
                    payload: ResponsePayload::RetrieveIdRanges { log_mask_sizes },
                },
            )
        } else if operation == SET_MASK_OP {
            Ok(Message::Response { status, payload: ResponsePayload::SetMask })
        } else {
            Err(ParsingError::UnknownOperation)
        }
    } else {
        Err(ParsingError::UnknownOpcode)
    }
}

/// Everything one read from the device returned: the data-type tag and the
/// raw HDLC-framed message chunks.
#[derive(Clone, Debug, PartialEq)]
pub struct MessagesContainer {
    pub data_type: DataType,
    pub messages: Vec<Vec<u8>>,
}

/// Why a whole container was rejected. Unlike a per-message error this is
/// fatal to the read that produced it.
#[derive(Clone, Copy, Debug, PartialEq, Eq, Structural)]
pub enum ContainerParseError {
    /// The container header is incomplete.
    HeaderTooShort,
    /// A chunk's length prefix runs past the end of the buffer.
    ChunkOutOfBounds,
    /// Bytes remain after the last counted chunk.
    TrailingBytes,
}

/// Chunk-list decoding: `count` chunks, each a `u32` length prefix and that
/// many bytes, consuming the whole input.
pub open spec fn spec_parse_chunks(s: Seq<u8>, count: nat) -> Result<
    Seq<Seq<u8>>,
    ContainerParseError,
>
    decreases count,
{
    if count == 0 {
        if s.len() == 0 {
            Ok(Seq::empty())
        } else {
            Err(ContainerParseError::TrailingBytes)
        }
    } else if s.len() < 4 {
        Err(ContainerParseError::ChunkOutOfBounds)
    } else {
        let len = spec_u32_from_le_bytes(s.subrange(0, 4)) as int;
        if s.len() < 4 + len {
            Err(ContainerParseError::ChunkOutOfBounds)
        } else {
            match spec_parse_chunks(s.skip(4 + len), (count - 1) as nat) {
                Ok(rest) => Ok(seq![s.subrange(4, 4 + len)] + rest),
                Err(e) => Err(e),
            }
        }
    }
}

/// Container decoding: data-type tag, chunk count, then the chunks.
pub open spec fn spec_parse_container(s: Seq<u8>) -> Result<
    (DataType, Seq<Seq<u8>>),
    ContainerParseError,
> {
    if s.len() < 8 {
        Err(ContainerParseError::HeaderTooShort)
    } else {
        let data_type = DataType::spec_from_code(spec_u32_from_le_bytes(s.subrange(0, 4)));
        let count = spec_u32_from_le_bytes(s.subrange(4, 8));
        match spec_parse_chunks(s.skip(8), count as nat) {
            Ok(chunks) => Ok((data_type, chunks)),
            Err(e) => Err(e),
        }
    }
}

/// Parses the bytes of one device read into a messages container.
pub fn parse_messages_container(s: &[u8]) -> (r: Result<MessagesContainer, ContainerParseError>)
    ensures
        match r {
            Ok(c) => spec_parse_container(s@) matches Ok(p) && p.0 == c.data_type && p.1
                == c.messages.deep_view(),
            Err(e) => spec_parse_container(s@) == Err::<
                (DataType, Seq<Seq<u8>>),
                ContainerParseError,
            >(e),
        },
{
    if s.len() < 8 {
        return Err(ContainerParseError::HeaderTooShort);
    }
    let data_type = DataType::from_code(u32_from_le_bytes(slice_subrange(s, 0, 4)));
    let count = u32_from_le_bytes(slice_subrange(s, 4, 8));

    let mut chunks: Vec<Vec<u8>> = Vec::new();
    let mut pos: usize = 8;
    let mut remaining = count;
    while remaining > 0
        invariant
            8 <= pos <= s@.len(),
            remaining <= count,
            count == spec_u32_from_le_bytes(s@.subrange(4, 8)),
            data_type == DataType::spec_from_code(spec_u32_from_le_bytes(s@.subrange(0, 4))),
            spec_parse_chunks(s@.skip(8), count as nat) == match spec_parse_chunks(
                s@.skip(pos as int),
                remaining as nat,
            ) {
                Ok(rest) => Ok::<Seq<Seq<u8>>, ContainerParseError>(chunks.deep_view() + rest),
                Err(e) => Err::<Seq<Seq<u8>>, ContainerParseError>(e),
            },
        decreases remaining,
    {
        if s.len() - pos < 4 {
            proof {
                assert(s@.skip(pos as int).len() < 4);
            }
            return Err(ContainerParseError::ChunkOutOfBounds);
        }
        let len32 = u32_from_le_bytes(slice_subrange(s, pos, pos + 4));
        proof {
            assert(s@.skip(pos as int).subrange(0, 4) =~= s@.subrange(pos as int, pos + 4));
        }
        if len32 as usize > s.len() - pos - 4 {
            proof {
                assert(s@.skip(pos as int).len() < 4 + len32 as int);
            }
            return Err(ContainerParseError::ChunkOutOfBounds);
        }
        let len = len32 as usize;
        let chunk_slice = slice_subrange(s, pos + 4, pos + 4 + len);
        let mut chunk: Vec<u8> = Vec::new();
        let mut i: usize = 0;
        while i < chunk_slice.len()
            invariant
                i <= chunk_slice@.len(),
                chunk@ == chunk_slice@.take(i as int),
            decreases chunk_slice@.len() - i,
        {
            chunk.push(chunk_slice[i]);
            proof {
                assert(chunk_slice@.take(i + 1) =~= chunk_slice@.take(i as int).push(
                    chunk_slice@[i as int],
                ));
            }
            i = i + 1;
        }
        proof {
            assert(chunk_slice@.take(chunk_slice@.len() as int) =~= chunk_slice@);
            let susp = s@.skip(pos as int);
            assert(susp.subrange(4, 4 + len as int) =~= s@.subrange(pos + 4, pos + 4 + len as int));
            assert(susp.skip(4 + len as int) =~= s@.skip(pos + 4 + len as int));
        }
        let ghost chunks_before = chunks.deep_view();
        chunks.push(chunk);
        proof {
            assert(chunks.deep_view() =~~= chunks_before.push(chunk@));
            if spec_parse_chunks(s@.skip(pos + 4 + len as int), (remaining - 1) as nat) is Ok {
                let rest = spec_parse_chunks(
                    s@.skip(pos + 4 + len as int),
                    (remaining - 1) as nat,
                )->Ok_0;
                assert(chunks_before + (seq![chunk@] + rest) =~~= chunks.deep_view() + rest);
            }
        }
        pos = pos + 4 + len;
        remaining = remaining - 1;
    }
    if pos != s.len() {
        proof {
            assert(s@.skip(pos as int).len() > 0);
        }
        return Err(ContainerParseError::TrailingBytes);
    }
    proof {
        assert(s@.skip(pos as int).len() == 0);
        assert(chunks.deep_view() + Seq::<Seq<u8>>::empty() =~= chunks.deep_view());
    }
    Ok(MessagesContainer { data_type, messages: chunks })
}

/// Whether bit `i` of a little-endian bitmask is set.
pub open spec fn spec_mask_bit(mask: Seq<u8>, i: int) -> bool
    recommends
        0 <= i,
        i / 8 < mask.len(),
{
    (mask[i / 8] >> ((i % 8) as u8)) & 1 == 1
}

/// Whether some code in `codes` selects item `item` of log type `log_type`.
/// A log code packs the type in its upper bits and the item in its lower
/// twelve.
pub open spec fn spec_code_selects(codes: Seq<u32>, log_type: u32, item: int) -> bool {
    exists|k: int|
        0 <= k < codes.len() && (#[trigger] codes[k]) >> 12 == log_type && (codes[k]
            & 0xfff) as int == item
}

proof fn lemma_set_bit_u8(b: u8, j: u8, j2: u8)
    requires
        j < 8,
        j2 < 8,
    ensures
        ((b | (1u8 << j)) >> j2) & 1 == (if j == j2 {
            1u8
        } else {
            (b >> j2) & 1
        }),
{
    assert((j < 8 && j2 < 8) ==> ((b | (1u8 << j)) >> j2) & 1 == (if j == j2 {
        1u8
    } else {
        (b >> j2) & 1
    })) by (bit_vector);
}

fn zero_vec(n: usize) -> (r: Vec<u8>)
    ensures
        r@.len() == n,
        forall|i: int| 0 <= i < n ==> r@[i] == 0u8,
{
    let mut r: Vec<u8> = Vec::new();
    while r.len() < n
        invariant
            r@.len() <= n,
            forall|i: int| 0 <= i < r@.len() ==> r@[i] == 0u8,
        decreases n - r@.len(),
    {
        r.push(0u8);
    }
    r
}

/// Builds the set-mask request for one log type: a bitmask with exactly the
/// registry codes of that type that fall inside the advertised range.
pub fn build_log_mask_request(log_type: u32, log_mask_bitsize: u32, log_codes: &Vec<u32>) -> (r:
    Request)
    requires
        log_mask_bitsize as int + 7 <= usize::MAX,
    ensures
        r@ matches RequestV::SetMask { log_type: lt, log_mask_bitsize: bs, log_mask: mask }
            && lt == log_type && bs == log_mask_bitsize && mask.len() == (log_mask_bitsize as int
            + 7) / 8 && forall|i: int|
            0 <= i < log_mask_bitsize ==> (spec_mask_bit(mask, i) <==> spec_code_selects(
                log_codes@,
                log_type,
                i,
            )),
{
    let mask_len: usize = (log_mask_bitsize as usize + 7) / 8;
    let mut mask = zero_vec(mask_len);
    proof {
        assert(forall|i: int|
            0 <= i < log_mask_bitsize ==> #[trigger] (i / 8) < mask@.len() && 0 <= i / 8 && 0 <= i
                % 8 < 8);
        assert(forall|i: int| 0 <= i < log_mask_bitsize ==> !spec_mask_bit(mask@, i)) by {
            assert(forall|b: u8, j2: u8| b == 0u8 && j2 < 8 ==> (b >> j2) & 1 == 0u8)
                by (bit_vector);
        }
    }
    let mut k: usize = 0;
    while k < log_codes.len()
        invariant
            k <= log_codes@.len(),
            mask@.len() == (log_mask_bitsize as int + 7) / 8,
            forall|i: int|
                0 <= i < log_mask_bitsize ==> (spec_mask_bit(mask@, i) <==> spec_code_selects(
                    log_codes@.take(k as int),
                    log_type,
                    i,
                )),
        decreases log_codes@.len() - k,
    {
        let code = log_codes[k];
        let ghost mask_before = mask@;
        if code >> 12 == log_type && (code & 0xfff) < log_mask_bitsize {
            let item: usize = (code & 0xfff) as usize;
            proof {
                assert((code & 0xfff) < 0x1000u32) by (bit_vector);
                assert(item / 8 < mask@.len());
                assert(item % 8 < 8);
            }
            let byte_idx: usize = item / 8;
            let shift: u8 = (item % 8) as u8;
            let updated: u8 = mask[byte_idx] | (1u8 << shift);
            mask[byte_idx] = updated;
            proof {
                let it = item as int;
                assert forall|i: int| 0 <= i < log_mask_bitsize implies (spec_mask_bit(mask@, i)
                    <==> spec_code_selects(log_codes@.take(k + 1), log_type, i)) by {
                    vstd::arithmetic::div_mod::lemma_fundamental_div_mod(i, 8);
                    vstd::arithmetic::div_mod::lemma_fundamental_div_mod(it, 8);
                    if i / 8 == it / 8 {
                        lemma_set_bit_u8(mask_before[i / 8], (it % 8) as u8, (i % 8) as u8);
                    }
                    if i == it {
                        assert(spec_mask_bit(mask@, i));
                        assert(log_codes@.take(k + 1)[k as int] == code);
                        assert(spec_code_selects(log_codes@.take(k + 1), log_type, i));
                    } else {
                        assert(spec_mask_bit(mask@, i) <==> spec_mask_bit(mask_before, i));
                        assert(spec_code_selects(log_codes@.take(k + 1), log_type, i)
                            <==> spec_code_selects(log_codes@.take(k as int), log_type, i)) by {
                            assert(log_codes@.take(k as int) =~= log_codes@.take(k + 1).take(
                                k as int,
                            ));
                            if spec_code_selects(log_codes@.take(k as int), log_type, i) {
                                let w = choose|w: int|
                                    0 <= w < k && (#[trigger] log_codes@.take(k as int)[w]) >> 12
                                        == log_type && (log_codes@.take(k as int)[w] & 0xfff) as int
                                        == i;
                                assert(log_codes@.take(k + 1)[w] == log_codes@.take(k as int)[w]);
                            }
                            if spec_code_selects(log_codes@.take(k + 1), log_type, i) {
                                let w = choose|w: int|
                                    0 <= w <= k && (#[trigger] log_codes@.take(k + 1)[w]) >> 12
                                        == log_type && (log_codes@.take(k + 1)[w] & 0xfff) as int
                                        == i;
                                if w == k {
                                    assert((log_codes@.take(k + 1)[w] & 0xfff) as int == it);
                                } else {
                                    assert(log_codes@.take(k as int)[w] == log_codes@.take(
                                        k + 1,
                                    )[w]);
                                }
                            }
                        }
                    }
                }
            }
        } else {
            proof {
                assert forall|i: int| 0 <= i < log_mask_bitsize implies (spec_code_selects(
                    log_codes@.take(k + 1),
                    log_type,
                    i,
                ) <==> spec_code_selects(log_codes@.take(k as int), log_type, i)) by {
                    if spec_code_selects(log_codes@.take(k as int), log_type, i) {
                        let w = choose|w: int|
                            0 <= w < k && (#[trigger] log_codes@.take(k as int)[w]) >> 12
                                == log_type && (log_codes@.take(k as int)[w] & 0xfff) as int == i;
                        assert(log_codes@.take(k + 1)[w] == log_codes@.take(k as int)[w]);
                    }
                    if spec_code_selects(log_codes@.take(k + 1), log_type, i) {
                        let w = choose|w: int|
                            0 <= w <= k && (#[trigger] log_codes@.take(k + 1)[w]) >> 12 == log_type
                                && (log_codes@.take(k + 1)[w] & 0xfff) as int == i;
                        if w == k {
                            assert(log_codes@.take(k + 1)[k as int] == code);
                            if code >> 12 == log_type {
                                assert((code & 0xfff) as int == i);
                                assert(i < log_mask_bitsize);
                                assert(false);
                            }
                        } else {
                            assert(log_codes@.take(k as int)[w] == log_codes@.take(k + 1)[w]);
                        }
                    }
                }
            }
        }
        k = k + 1;
    }
    proof {
        assert(log_codes@.take(log_codes@.len() as int) =~= log_codes@);
    }
    Request::LogConfig(
        LogConfigRequest::SetMask { log_type, log_mask_bitsize, log_mask: mask },
    )
}

/// Decoding of one raw chunk: HDLC first, then the message structure.
pub open spec fn spec_decode_chunk(chunk: Seq<u8>) -> Result<MessageV, ParsingError> {
    match hdlc::spec_decapsulate(chunk) {
        Ok(payload) => spec_parse_message(payload),
        Err(e) => Err(ParsingError::BadFraming(e)),
    }
}

/// Whether an executable decode result agrees with the model's.
pub open spec fn decode_result_matches(
    r: Result<Message, ParsingError>,
    s: Result<MessageV, ParsingError>,
) -> bool {
    match r {
        Ok(m) => s == Ok::<MessageV, ParsingError>(m@),
        Err(e) => s == Err::<MessageV, ParsingError>(e),
    }
}

impl MessagesContainer {
    /// Decodes every chunk, keeping one entry per chunk in original order:
    /// a malformed chunk becomes an `Err` entry and never aborts the
    /// container.
    pub fn into_messages(&self) -> (out: Vec<Result<Message, ParsingError>>)
        ensures
            out@.len() == self.messages@.len(),
            forall|i: int|
                0 <= i < out@.len() ==> decode_result_matches(
                    out@[i],
                    spec_decode_chunk(self.messages@[i]@),
                ),
    {
        let mut out: Vec<Result<Message, ParsingError>> = Vec::new();
        let mut i: usize = 0;
        while i < self.messages.len()
            invariant
                i <= self.messages@.len(),
                out@.len() == i,
                forall|j: int|
                    0 <= j < i ==> decode_result_matches(
                        out@[j],
                        spec_decode_chunk(self.messages@[j]@),
                    ),
            decreases self.messages@.len() - i,
        {
            let chunk = &self.messages[i];
            let decoded = match hdlc::hdlc_decapsulate(chunk.as_slice()) {
                Ok(payload) => parse_message(payload.as_slice()),
                Err(e) => Err(ParsingError::BadFraming(e)),
            };
            out.push(decoded);
            i = i + 1;
        }
        out
    }
}

} // verus!
