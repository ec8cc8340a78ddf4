//! HDLC-like byte framing with CRC-16-CCITT (X.25 variant).
//!
//! Encapsulation appends the CRC (little-endian) to the payload, escapes
//! every 0x7e and 0x7d byte as 0x7d followed by the byte XOR 0x20, and
//! terminates the frame with an unescaped 0x7e. Decapsulation undoes the
//! escape and verifies the CRC; frames with a bad CRC are reported as
//! errors, never silently passed.

use vstd::prelude::*;
use vstd::bytes::{
    lemma_auto_spec_u16_to_from_le_bytes, spec_u16_from_le_bytes, spec_u16_to_le_bytes,
    u16_from_le_bytes, u16_to_le_bytes,
};
use vstd::slice::slice_subrange;

verus! {

/// Frame terminator sentinel.
pub const TERMINATOR: u8 = 0x7e;

/// Escape introducer.
pub const ESCAPE: u8 = 0x7d;

/// XOR mask applied to an escaped byte.
pub const ESCAPE_MASK: u8 = 0x20;

/// Initial CRC register value (X.25).
pub const CRC_INIT: u16 = 0xffff;

/// Bit-reflected form of the CRC-16-CCITT polynomial 0x1021.
pub const CRC_POLY: u16 = 0x8408;

/// Final XOR applied to the CRC register (X.25).
pub const CRC_FINAL_XOR: u16 = 0xffff;

/// Why a frame was rejected.
#[derive(Clone, Copy, Debug, PartialEq, Eq, Structural)]
pub enum HdlcError {
    /// The frame does not end with the 0x7e terminator.
    MissingTerminator,
    /// An escape introducer stands as the last byte of the frame body.
    TruncatedEscape,
    /// The unescaped body is too short to hold a CRC.
    TooShort,
    /// The stored CRC does not match the CRC of the payload.
    CrcMismatch,
}

// ----------------------------------------------------------------------
// CRC-16-CCITT (X.25): poly 0x1021 reflected, init 0xffff, final XOR 0xffff.
// ----------------------------------------------------------------------

/// One shift step of the bit-reflected CRC register.
pub open spec fn spec_crc_shift(crc: u16) -> u16 {
    if crc & 1 == 1 {
        (crc >> 1) ^ CRC_POLY
    } else {
        crc >> 1
    }
}

/// `n` shift steps of the CRC register.
pub open spec fn spec_crc_shifts(crc: u16, n: nat) -> u16
    decreases n,
{
    if n == 0 {
        crc
    } else {
        spec_crc_shifts(spec_crc_shift(crc), (n - 1) as nat)
    }
}

/// Folding one byte into the CRC register.
pub open spec fn spec_crc_byte(crc: u16, b: u8) -> u16 {
    spec_crc_shifts(crc ^ (b as u16), 8)
}

/// Folding a byte sequence into the CRC register.
pub open spec fn spec_crc_fold(s: Seq<u8>, crc: u16) -> u16
    decreases s.len(),
{
    if s.len() == 0 {
        crc
    } else {
        spec_crc_fold(s.skip(1), spec_crc_byte(crc, s[0]))
    }
}

/// The CRC-16-CCITT (X.25) checksum of a byte sequence.
pub open spec fn spec_crc16(s: Seq<u8>) -> u16 {
    spec_crc_fold(s, CRC_INIT) ^ CRC_FINAL_XOR
}

proof fn lemma_crc_shifts_snoc(crc: u16, n: nat)
    ensures
        spec_crc_shifts(crc, n + 1) == spec_crc_shift(spec_crc_shifts(crc, n)),
    decreases n,
{
    reveal_with_fuel(spec_crc_shifts, 2);
    if n > 0 {
        lemma_crc_shifts_snoc(spec_crc_shift(crc), (n - 1) as nat);
    }
}

proof fn lemma_crc_fold_snoc(s: Seq<u8>, b: u8, crc: u16)
    ensures
        spec_crc_fold(s.push(b), crc) == spec_crc_byte(spec_crc_fold(s, crc), b),
    decreases s.len(),
{
    reveal_with_fuel(spec_crc_fold, 2);
    if s.len() == 0 {
        assert(s.push(b).skip(1) =~= Seq::<u8>::empty());
        assert(s.push(b)[0] == b);
    } else {
        assert(s.push(b).skip(1) =~= s.skip(1).push(b));
        assert(s.push(b)[0] == s[0]);
        lemma_crc_fold_snoc(s.skip(1), b, spec_crc_byte(crc, s[0]));
    }
}

/// Folding a concatenation folds the parts in order.
proof fn lemma_crc_fold_concat(a: Seq<u8>, b: Seq<u8>, crc: u16)
    ensures
        spec_crc_fold(a + b, crc) == spec_crc_fold(b, spec_crc_fold(a, crc)),
    decreases a.len(),
{
    if a.len() == 0 {
        assert(a + b =~= b);
    } else {
        assert((a + b)[0] == a[0]);
        assert((a + b).skip(1) =~= a.skip(1) + b);
        lemma_crc_fold_concat(a.skip(1), b, spec_crc_byte(crc, a[0]));
    }
}

proof fn lemma_crc_shift_injective(a: u16, b: u16)
    requires
        spec_crc_shift(a) == spec_crc_shift(b),
    ensures
        a == b,
{
    assert(CRC_POLY == 0x8408u16);
    assert(a & 1 == 0 || a & 1 == 1) by (bit_vector);
    assert(b & 1 == 0 || b & 1 == 1) by (bit_vector);
    if a & 1 == 1 && b & 1 == 1 {
        assert(((a >> 1) ^ 0x8408u16 == (b >> 1) ^ 0x8408u16 && a & 1 == 1 && b & 1 == 1) ==> a
            == b) by (bit_vector);
    } else if a & 1 == 1 && b & 1 == 0 {
        assert((a >> 1) ^ 0x8408u16 != (b >> 1)) by (bit_vector);
    } else if a & 1 == 0 && b & 1 == 1 {
        assert((b >> 1) ^ 0x8408u16 != (a >> 1)) by (bit_vector);
    } else {
        assert((a >> 1 == b >> 1 && a & 1 == 0 && b & 1 == 0) ==> a == b) by (bit_vector);
    }
}

proof fn lemma_crc_shifts_injective(a: u16, b: u16, n: nat)
    requires
        spec_crc_shifts(a, n) == spec_crc_shifts(b, n),
    ensures
        a == b,
    decreases n,
{
    if n > 0 {
        lemma_crc_shifts_injective(spec_crc_shift(a), spec_crc_shift(b), (n - 1) as nat);
        lemma_crc_shift_injective(a, b);
    }
}

proof fn lemma_crc_byte_injective_crc(c1: u16, c2: u16, b: u8)
    requires
        spec_crc_byte(c1, b) == spec_crc_byte(c2, b),
    ensures
        c1 == c2,
{
    lemma_crc_shifts_injective(c1 ^ (b as u16), c2 ^ (b as u16), 8);
    assert((c1 ^ (b as u16) == c2 ^ (b as u16)) ==> c1 == c2) by (bit_vector);
}

proof fn lemma_crc_byte_injective_byte(c: u16, b1: u8, b2: u8)
    requires
        b1 != b2,
    ensures
        spec_crc_byte(c, b1) != spec_crc_byte(c, b2),
{
    assert(b1 != b2 ==> c ^ (b1 as u16) != c ^ (b2 as u16)) by (bit_vector);
    if spec_crc_byte(c, b1) == spec_crc_byte(c, b2) {
        lemma_crc_shifts_injective(c ^ (b1 as u16), c ^ (b2 as u16), 8);
    }
}

proof fn lemma_crc_fold_injective_crc(s: Seq<u8>, c1: u16, c2: u16)
    requires
        c1 != c2,
    ensures
        spec_crc_fold(s, c1) != spec_crc_fold(s, c2),
    decreases s.len(),
{
    if s.len() > 0 {
        if spec_crc_byte(c1, s[0]) == spec_crc_byte(c2, s[0]) {
            lemma_crc_byte_injective_crc(c1, c2, s[0]);
        }
        lemma_crc_fold_injective_crc(s.skip(1), spec_crc_byte(c1, s[0]), spec_crc_byte(c2, s[0]));
    }
}

/// A change to a single byte of a sequence always changes its CRC. This is
/// what makes a bad CRC a reliable sign of a corrupted frame: no single-byte
/// corruption of the payload can pass the check silently.
pub proof fn lemma_crc16_single_byte_change(s1: Seq<u8>, s2: Seq<u8>, i: int)
    requires
        s1.len() == s2.len(),
        0 <= i < s1.len(),
        s1[i] != s2[i],
        forall|j: int| 0 <= j < s1.len() && j != i ==> s1[j] == s2[j],
    ensures
        spec_crc16(s1) != spec_crc16(s2),
{
    reveal_with_fuel(spec_crc_fold, 2);
    let pre1 = s1.take(i);
    let pre2 = s2.take(i);
    assert(pre1 =~= pre2);
    assert(s1 =~= pre1 + (seq![s1[i]] + s1.skip(i + 1)));
    assert(s2 =~= pre2 + (seq![s2[i]] + s2.skip(i + 1)));
    assert(s1.skip(i + 1) =~= s2.skip(i + 1));
    lemma_crc_fold_concat(pre1, seq![s1[i]] + s1.skip(i + 1), CRC_INIT);
    lemma_crc_fold_concat(pre2, seq![s2[i]] + s2.skip(i + 1), CRC_INIT);
    let c = spec_crc_fold(pre1, CRC_INIT);
    lemma_crc_fold_concat(seq![s1[i]], s1.skip(i + 1), c);
    lemma_crc_fold_concat(seq![s2[i]], s2.skip(i + 1), c);
    assert(seq![s1[i]].skip(1) =~= Seq::<u8>::empty());
    assert(seq![s2[i]].skip(1) =~= Seq::<u8>::empty());
    lemma_crc_byte_injective_byte(c, s1[i], s2[i]);
    lemma_crc_fold_injective_crc(
        s1.skip(i + 1),
        spec_crc_byte(c, s1[i]),
        spec_crc_byte(c, s2[i]),
    );
    let f1 = spec_crc_fold(s1, CRC_INIT);
    let f2 = spec_crc_fold(s2, CRC_INIT);
    assert(f1 != f2 ==> f1 ^ 0xffffu16 != f2 ^ 0xffffu16) by (bit_vector);
}

fn crc_push_byte(crc: u16, b: u8) -> (r: u16)
    ensures
        r == spec_crc_byte(crc, b),
{
    let mut c: u16 = crc ^ (b as u16);
    let mut k: usize = 0;
    while k < 8
        invariant
            k <= 8,
            c == spec_crc_shifts(crc ^ (b as u16), k as nat),
        decreases 8 - k,
    {
        proof {
            lemma_crc_shifts_snoc(crc ^ (b as u16), k as nat);
        }
        if c & 1 == 1 {
            c = (c >> 1) ^ CRC_POLY;
        } else {
            c = c >> 1;
        }
        k = k + 1;
    }
    c
}

/// The CRC-16-CCITT (X.25) checksum of a byte slice.
pub fn crc16(data: &[u8]) -> (r: u16)
    ensures
        r == spec_crc16(data@),
{
    let mut crc: u16 = CRC_INIT;
    let mut i: usize = 0;
    while i < data.len()
        invariant
            i <= data.len(),
            crc == spec_crc_fold(data@.take(i as int), CRC_INIT),
        decreases data.len() - i,
    {
        proof {
            assert(data@.take(i + 1) =~= data@.take(i as int).push(data@[i as int]));
            lemma_crc_fold_snoc(data@.take(i as int), data@[i as int], CRC_INIT);
        }
        crc = crc_push_byte(crc, data[i]);
        i = i + 1;
    }
    proof {
        assert(data@.take(data@.len() as int) =~= data@);
    }
    crc ^ CRC_FINAL_XOR
}

// ----------------------------------------------------------------------
// Escaping.
// ----------------------------------------------------------------------

/// Whether a byte must be escaped on the wire.
pub open spec fn spec_needs_escape(b: u8) -> bool {
    b == TERMINATOR || b == ESCAPE
}

/// The escaped form of a byte sequence.
pub open spec fn spec_escape(s: Seq<u8>) -> Seq<u8>
    decreases s.len(),
{
    if s.len() == 0 {
        Seq::empty()
    } else if spec_needs_escape(s[0]) {
        seq![ESCAPE, s[0] ^ ESCAPE_MASK] + spec_escape(s.skip(1))
    } else {
        seq![s[0]] + spec_escape(s.skip(1))
    }
}

/// Undoing the escape; `None` when an escape introducer has no byte after it.
pub open spec fn spec_unescape(s: Seq<u8>) -> Option<Seq<u8>>
    decreases s.len(),
{
    if s.len() == 0 {
        Some(Seq::empty())
    } else if s[0] == ESCAPE {
        if s.len() == 1 {
            None
        } else {
            match spec_unescape(s.skip(2)) {
                Some(r) => Some(seq![s[1] ^ ESCAPE_MASK] + r),
                None => None,
            }
        }
    } else {
        match spec_unescape(s.skip(1)) {
            Some(r) => Some(seq![s[0]] + r),
            None => None,
        }
    }
}

/// The escaped form never contains a terminator or a bare escape at the end.
proof fn lemma_escape_no_terminator(s: Seq<u8>)
    ensures
        forall|j: int| 0 <= j < spec_escape(s).len() ==> spec_escape(s)[j] != TERMINATOR,
    decreases s.len(),
{
    if s.len() > 0 {
        lemma_escape_no_terminator(s.skip(1));
        let b0 = s[0];
        let head: Seq<u8> = if spec_needs_escape(b0) {
            seq![ESCAPE, b0 ^ ESCAPE_MASK]
        } else {
            seq![b0]
        };
        if spec_needs_escape(b0) {
            assert(b0 == 0x7eu8 || b0 == 0x7du8 ==> b0 ^ 0x20u8 != 0x7eu8) by (bit_vector);
        }
        assert forall|j: int| 0 <= j < spec_escape(s).len() implies spec_escape(s)[j]
            != TERMINATOR by {
            if j >= head.len() {
                assert(spec_escape(s)[j] == spec_escape(s.skip(1))[j - head.len()]);
            }
        }
    }
}

proof fn lemma_unescape_escape(s: Seq<u8>)
    ensures
        spec_unescape(spec_escape(s)) == Some(s),
    decreases s.len(),
{
    reveal_with_fuel(spec_escape, 2);
    reveal_with_fuel(spec_unescape, 2);
    if s.len() == 0 {
        assert(spec_unescape(spec_escape(s)) =~= Some(s));
    } else {
        lemma_unescape_escape(s.skip(1));
        let e = spec_escape(s);
        let b0 = s[0];
        if spec_needs_escape(s[0]) {
            assert(e =~= seq![ESCAPE, s[0] ^ ESCAPE_MASK] + spec_escape(s.skip(1)));
            assert(e.skip(2) =~= spec_escape(s.skip(1)));
            assert(b0 == 0x7eu8 || b0 == 0x7du8 ==> (b0 ^ 0x20u8) ^ 0x20u8 == b0)
                by (bit_vector);
            assert(e[0] == ESCAPE);
            assert(e[1] == b0 ^ ESCAPE_MASK);
            assert(e.len() >= 2);
            assert(spec_unescape(e) == Some(seq![s[0]] + s.skip(1)));
            assert(seq![s[0]] + s.skip(1) =~= s);
        } else {
            assert(e[0] == s[0]);
            assert(e[0] != ESCAPE);
            assert(e.skip(1) =~= spec_escape(s.skip(1)));
            assert(spec_unescape(e) == Some(seq![s[0]] + s.skip(1)));
            assert(seq![s[0]] + s.skip(1) =~= s);
        }
    }
}

proof fn lemma_escape_snoc(s: Seq<u8>, b: u8)
    ensures
        spec_escape(s.push(b)) == spec_escape(s) + (if spec_needs_escape(b) {
            seq![ESCAPE, b ^ ESCAPE_MASK]
        } else {
            seq![b]
        }),
    decreases s.len(),
{
    reveal_with_fuel(spec_escape, 2);
    let tail = if spec_needs_escape(b) {
        seq![ESCAPE, b ^ ESCAPE_MASK]
    } else {
        seq![b]
    };
    if s.len() == 0 {
        assert(s.push(b)[0] == b);
        assert(s.push(b).skip(1) =~= Seq::<u8>::empty());
        assert(spec_escape(s.push(b)) =~= spec_escape(s) + tail);
    } else {
        assert(s.push(b)[0] == s[0]);
        assert(s.push(b).skip(1) =~= s.skip(1).push(b));
        lemma_escape_snoc(s.skip(1), b);
        if spec_needs_escape(s[0]) {
            assert(spec_escape(s.push(b)) =~= spec_escape(s) + tail);
        } else {
            assert(spec_escape(s.push(b)) =~= spec_escape(s) + tail);
        }
    }
}

// ----------------------------------------------------------------------
// Framing.
// ----------------------------------------------------------------------

/// The full frame for a payload: payload, CRC (little-endian), escaped,
/// then the terminator.
pub open spec fn spec_encapsulate(payload: Seq<u8>) -> Seq<u8> {
    spec_escape(payload + spec_u16_to_le_bytes(spec_crc16(payload))) + seq![TERMINATOR]
}

/// Frame decoding: strip the terminator, undo the escape, check the CRC.
pub open spec fn spec_decapsulate(frame: Seq<u8>) -> Result<Seq<u8>, HdlcError> {
    if frame.len() == 0 || frame[frame.len() - 1] != TERMINATOR {
        Err(HdlcError::MissingTerminator)
    } else {
        match spec_unescape(frame.take(frame.len() - 1)) {
            None => Err(HdlcError::TruncatedEscape),
            Some(body) => if body.len() < 2 {
                Err(HdlcError::TooShort)
            } else {
                let payload = body.take(body.len() - 2);
                let stored = spec_u16_from_le_bytes(body.skip(body.len() - 2));
                if spec_crc16(payload) == stored {
                    Ok(payload)
                } else {
                    Err(HdlcError::CrcMismatch)
                }
            },
        }
    }
}

proof fn lemma_escape_len(s: Seq<u8>)
    ensures
        spec_escape(s).len() <= 2 * s.len(),
    decreases s.len(),
{
    if s.len() > 0 {
        lemma_escape_len(s.skip(1));
    }
}

/// Escaping at most doubles the body, so a frame is no longer than twice
/// the payload-plus-CRC, plus the terminator.
pub proof fn lemma_encapsulate_len(payload: Seq<u8>)
    ensures
        spec_encapsulate(payload).len() <= 2 * (payload.len() + 2) + 1,
{
    lemma_auto_spec_u16_to_from_le_bytes();
    lemma_escape_len(payload + spec_u16_to_le_bytes(spec_crc16(payload)));
}

/// Encapsulating and then decapsulating returns the original payload:
/// framing loses nothing.
pub proof fn lemma_hdlc_round_trip(payload: Seq<u8>)
    ensures
        spec_decapsulate(spec_encapsulate(payload)) == Ok::<Seq<u8>, HdlcError>(payload),
{
    let crc_bytes = spec_u16_to_le_bytes(spec_crc16(payload));
    let body = payload + crc_bytes;
    let frame = spec_encapsulate(payload);
    lemma_auto_spec_u16_to_from_le_bytes();
    assert(crc_bytes.len() == 2);
    assert(frame[frame.len() - 1] == TERMINATOR);
    assert(frame.take(frame.len() - 1) =~= spec_escape(body));
    lemma_unescape_escape(body);
    assert(body.take(body.len() - 2) =~= payload);
    assert(body.skip(body.len() - 2) =~= crc_bytes);
    assert(spec_u16_from_le_bytes(crc_bytes) == spec_crc16(payload));
}

/// A single corrupted byte in the unescaped frame body — whether in the
/// payload or in the stored CRC — is always rejected with `CrcMismatch`
/// rather than silently accepted.
pub proof fn lemma_corrupted_body_rejected(body1: Seq<u8>, body2: Seq<u8>, i: int)
    requires
        body1.len() == body2.len(),
        body1.len() >= 2,
        0 <= i < body1.len(),
        body1[i] != body2[i],
        forall|j: int| 0 <= j < body1.len() && j != i ==> body1[j] == body2[j],
        spec_crc16(body1.take(body1.len() - 2)) == spec_u16_from_le_bytes(
            body1.skip(body1.len() - 2),
        ),
    ensures
        spec_crc16(body2.take(body2.len() - 2)) != spec_u16_from_le_bytes(
            body2.skip(body2.len() - 2),
        ),
{
    let n = body1.len() as int;
    lemma_auto_spec_u16_to_from_le_bytes();
    if i < n - 2 {
        assert(body1.skip(n - 2) =~= body2.skip(n - 2));
        lemma_crc16_single_byte_change(body1.take(n - 2), body2.take(n - 2), i);
    } else {
        assert(body1.take(n - 2) =~= body2.take(n - 2));
        let t1 = body1.skip(n - 2);
        let t2 = body2.skip(n - 2);
        assert(t1.len() == 2 && t2.len() == 2);
        assert(t1 != t2) by {
            assert(t1[i - (n - 2)] != t2[i - (n - 2)]);
        }
        if spec_u16_from_le_bytes(t1) == spec_u16_from_le_bytes(t2) {
            assert(spec_u16_to_le_bytes(spec_u16_from_le_bytes(t1)) == t1);
            assert(spec_u16_to_le_bytes(spec_u16_from_le_bytes(t2)) == t2);
        }
    }
}

/// Builds the HDLC frame for a payload: CRC appended, bytes escaped,
/// terminator added.
pub fn hdlc_encapsulate(data: &[u8]) -> (frame: Vec<u8>)
    ensures
        frame@ == spec_encapsulate(data@),
{
    let crc = crc16(data);
    let crc_bytes = u16_to_le_bytes(crc);
    let ghost body: Seq<u8> = data@ + spec_u16_to_le_bytes(crc);

    let mut out: Vec<u8> = Vec::new();
    let mut i: usize = 0;
    while i < data.len()
        invariant
            i <= data.len(),
            out@ == spec_escape(data@.take(i as int)),
        decreases data.len() - i,
    {
        proof {
            assert(data@.take(i + 1) =~= data@.take(i as int).push(data@[i as int]));
            lemma_escape_snoc(data@.take(i as int), data@[i as int]);
        }
        let b = data[i];
        if b == TERMINATOR || b == ESCAPE {
            out.push(ESCAPE);
            out.push(b ^ ESCAPE_MASK);
        } else {
            out.push(b);
        }
        i = i + 1;
    }
    proof {
        assert(data@.take(data@.len() as int) =~= data@);
    }
    let mut j: usize = 0;
    while j < crc_bytes.len()
        invariant
            j <= crc_bytes.len(),
            crc_bytes@ == spec_u16_to_le_bytes(crc),
            out@ == spec_escape(data@ + crc_bytes@.take(j as int)),
        decreases crc_bytes.len() - j,
    {
        proof {
            assert(data@ + crc_bytes@.take(j + 1) =~= (data@ + crc_bytes@.take(j as int)).push(
                crc_bytes@[j as int],
            ));
            lemma_escape_snoc(data@ + crc_bytes@.take(j as int), crc_bytes@[j as int]);
        }
        let b = crc_bytes[j];
        if b == TERMINATOR || b == ESCAPE {
            out.push(ESCAPE);
            out.push(b ^ ESCAPE_MASK);
        } else {
            out.push(b);
        }
        j = j + 1;
    }
    proof {
        assert(data@ + crc_bytes@.take(crc_bytes@.len() as int) =~= body);
    }
    out.push(TERMINATOR);
    proof {
        assert(out@ =~= spec_encapsulate(data@));
    }
    out
}

/// Decodes one HDLC frame, verifying the trailing CRC.
pub fn hdlc_decapsulate(frame: &[u8]) -> (r: Result<Vec<u8>, HdlcError>)
    ensures
        match r {
            Ok(payload) => spec_decapsulate(frame@) == Ok::<Seq<u8>, HdlcError>(payload@),
            Err(e) => spec_decapsulate(frame@) == Err::<Seq<u8>, HdlcError>(e),
        },
{
    let n = frame.len();
    if n == 0 || frame[n - 1] != TERMINATOR {
        return Err(HdlcError::MissingTerminator);
    }
    let ghost inner: Seq<u8> = frame@.take(n - 1);

    let mut body: Vec<u8> = Vec::new();
    let mut i: usize = 0;
    proof {
        assert(inner.skip(0) =~= inner);
        if spec_unescape(inner) is Some {
            assert(Seq::<u8>::empty() + spec_unescape(inner).unwrap() =~= spec_unescape(
                inner,
            ).unwrap());
        }
    }
    while i < n - 1
        invariant
            i <= n - 1,
            n == frame@.len(),
            n >= 1,
            frame@[n - 1] == TERMINATOR,
            inner == frame@.take(n - 1),
            spec_unescape(inner) == match spec_unescape(inner.skip(i as int)) {
                Some(r) => Some(body@ + r),
                None => None::<Seq<u8>>,
            },
        decreases n - 1 - i,
    {
        let b = frame[i];
        if b == ESCAPE {
            if i + 1 >= n - 1 {
                proof {
                    assert(inner.skip(i as int).len() == 1);
                    assert(inner.skip(i as int)[0] == ESCAPE);
                    assert(spec_unescape(inner.skip(i as int)) is None);
                    assert(spec_unescape(inner) is None);
                    assert(frame@[n - 1] == TERMINATOR);
                    assert(frame@.take(frame@.len() - 1) == inner);
                    assert(spec_decapsulate(frame@) == Err::<Seq<u8>, HdlcError>(
                        HdlcError::TruncatedEscape,
                    ));
                }
                return Err(HdlcError::TruncatedEscape);
            }
            let unescaped = frame[i + 1] ^ ESCAPE_MASK;
            proof {
                let rest = inner.skip(i as int);
                assert(rest[0] == ESCAPE);
                assert(rest.len() >= 2);
                assert(rest[1] == inner[i + 1]);
                assert(rest.skip(2) =~= inner.skip(i + 2));
                assert(spec_unescape(rest) == match spec_unescape(inner.skip(i + 2)) {
                    Some(r) => Some(seq![inner[i + 1] ^ ESCAPE_MASK] + r),
                    None => None::<Seq<u8>>,
                });
                if spec_unescape(inner.skip(i + 2)) is Some {
                    let r2 = spec_unescape(inner.skip(i + 2)).unwrap();
                    assert(body@ + (seq![inner[i + 1] ^ ESCAPE_MASK] + r2) =~= (body@.push(
                        inner[i + 1] ^ ESCAPE_MASK,
                    )) + r2);
                }
            }
            body.push(unescaped);
            i = i + 2;
        } else {
            proof {
                let rest = inner.skip(i as int);
                assert(rest[0] == inner[i as int]);
                assert(rest[0] != ESCAPE);
                assert(rest.skip(1) =~= inner.skip(i + 1));
                if spec_unescape(inner.skip(i + 1)) is Some {
                    let r2 = spec_unescape(inner.skip(i + 1)).unwrap();
                    assert(body@ + (seq![inner[i as int]] + r2) =~= (body@.push(inner[i as int]))
                        + r2);
                }
            }
            body.push(b);
            i = i + 1;
        }
    }
    proof {
        assert(inner.skip(i as int) =~= Seq::<u8>::empty());
        assert(spec_unescape(inner) == Some(body@ + Seq::<u8>::empty()));
        assert(body@ + Seq::<u8>::empty() =~= body@);
    }

    if body.len() < 2 {
        return Err(HdlcError::TooShort);
    }
    let m = body.len();
    let stored = u16_from_le_bytes(slice_subrange(body.as_slice(), m - 2, m));
    let payload_slice = slice_subrange(body.as_slice(), 0, m - 2);
    let computed = crc16(payload_slice);
    proof {
        assert(body@.skip(m - 2) =~= body@.subrange(m - 2, m as int));
        assert(body@.take(m - 2) =~= body@.subrange(0, m - 2));
    }
    if computed != stored {
        return Err(HdlcError::CrcMismatch);
    }
    body.truncate(m - 2);
    proof {
        assert(body@ =~= spec_decapsulate(frame@)->Ok_0);
    }
    Ok(body)
}

} // verus!
