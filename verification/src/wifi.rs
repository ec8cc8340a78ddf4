//! Extraction of hotspot credentials from configuration text, and the
//! standard WiFi QR payload built from them. Which configuration files
//! exist and reading them is the binary's business; the text handed over
//! is parsed here.

use vstd::prelude::*;

verus! {

/// Line feed.
pub const LF: u8 = 0x0a;

/// Whether a byte is blank for the purposes of configuration lines.
pub open spec fn spec_is_blank(b: u8) -> bool {
    b == 0x20 || b == 0x09 || b == 0x0d
}

/// A byte string split at every line feed; one part more than there are
/// line feeds.
pub open spec fn spec_split_lines(s: Seq<u8>) -> Seq<Seq<u8>>
    decreases s.len(),
{
    if s.len() == 0 {
        seq![Seq::empty()]
    } else if s[0] == LF {
        seq![Seq::<u8>::empty()] + spec_split_lines(s.skip(1))
    } else {
        let rest = spec_split_lines(s.skip(1));
        seq![seq![s[0]] + rest[0]] + rest.skip(1)
    }
}

proof fn lemma_split_lines_nonempty(s: Seq<u8>)
    ensures
        spec_split_lines(s).len() >= 1,
    decreases s.len(),
{
    if s.len() > 0 {
        lemma_split_lines_nonempty(s.skip(1));
    }
}

/// Splits a byte string at every line feed.
pub fn split_lines(s: &[u8]) -> (r: Vec<Vec<u8>>)
    ensures
        r.deep_view() == spec_split_lines(s@),
{
    let mut finished: Vec<Vec<u8>> = Vec::new();
    let mut cur: Vec<u8> = Vec::new();
    let mut i: usize = 0;
    proof {
        assert(s@.skip(0) =~= s@);
        lemma_split_lines_nonempty(s@);
    }
    while i < s.len()
        invariant
            i <= s@.len(),
            spec_split_lines(s@.skip(i as int)).len() >= 1,
            spec_split_lines(s@) =~= finished.deep_view() + (seq![
                cur@ + spec_split_lines(s@.skip(i as int))[0],
            ] + spec_split_lines(s@.skip(i as int)).skip(1)),
        decreases s@.len() - i,
    {
        let ghost suffix = s@.skip(i as int);
        let ghost next_suffix = s@.skip(i + 1);
        proof {
            assert(suffix[0] == s@[i as int]);
            assert(suffix.skip(1) =~= next_suffix);
            lemma_split_lines_nonempty(next_suffix);
        }
        let b = s[i];
        if b == LF {
            let ghost finished0 = finished.deep_view();
            finished.push(cur);
            cur = Vec::new();
            proof {
                let rest = spec_split_lines(next_suffix);
                assert(spec_split_lines(suffix) =~= seq![Seq::<u8>::empty()] + rest);
                assert(spec_split_lines(suffix)[0] =~= Seq::<u8>::empty());
                assert(finished.deep_view() =~~= finished0.push(finished@.last()@));
                assert(spec_split_lines(s@) =~= finished.deep_view() + (seq![
                    cur@ + rest[0],
                ] + rest.skip(1)));
            }
        } else {
            let ghost cur0 = cur@;
            cur.push(b);
            proof {
                let rest = spec_split_lines(next_suffix);
                assert(spec_split_lines(suffix) =~= seq![seq![s@[i as int]] + rest[0]]
                    + rest.skip(1));
                assert(cur@ + rest[0] =~= cur0 + (seq![s@[i as int]] + rest[0]));
                assert(spec_split_lines(suffix).skip(1) =~= rest.skip(1));
                assert(spec_split_lines(s@) =~= finished.deep_view() + (seq![
                    cur@ + rest[0],
                ] + rest.skip(1)));
            }
        }
        i = i + 1;
    }
    proof {
        assert(s@.skip(s@.len() as int) =~= Seq::<u8>::empty());
        assert(spec_split_lines(s@.skip(s@.len() as int)) =~= seq![Seq::<u8>::empty()]);
        assert(cur@ + Seq::<u8>::empty() =~= cur@);
    }
    let ghost finished0 = finished.deep_view();
    finished.push(cur);
    proof {
        assert(finished.deep_view() =~~= finished0.push(finished@.last()@));
        assert(finished.deep_view() =~= spec_split_lines(s@));
    }
    finished
}

/// A byte string with its leading blanks removed.
pub open spec fn spec_trim_front(s: Seq<u8>) -> Seq<u8>
    decreases s.len(),
{
    if s.len() > 0 && spec_is_blank(s[0]) {
        spec_trim_front(s.skip(1))
    } else {
        s
    }
}

/// A byte string with its trailing blanks removed.
pub open spec fn spec_trim_back(s: Seq<u8>) -> Seq<u8>
    decreases s.len(),
{
    if s.len() > 0 && spec_is_blank(s.last()) {
        spec_trim_back(s.drop_last())
    } else {
        s
    }
}

/// A byte string with blanks removed at both ends.
pub open spec fn spec_trim(s: Seq<u8>) -> Seq<u8> {
    spec_trim_back(spec_trim_front(s))
}

/// Removes blanks at both ends of a byte string.
pub fn trim_bytes(s: &[u8]) -> (r: Vec<u8>)
    ensures
        r@ == spec_trim(s@),
{
    let mut start: usize = 0;
    proof {
        assert(s@.skip(0) =~= s@);
    }
    while start < s.len() && (s[start] == 0x20 || s[start] == 0x09 || s[start] == 0x0d)
        invariant
            start <= s@.len(),
            spec_trim_front(s@) == spec_trim_front(s@.skip(start as int)),
        decreases s@.len() - start,
    {
        proof {
            assert(s@.skip(start as int)[0] == s@[start as int]);
            assert(s@.skip(start as int).skip(1) =~= s@.skip(start + 1));
        }
        start = start + 1;
    }
    proof {
        if start < s@.len() {
            assert(s@.skip(start as int)[0] == s@[start as int]);
        }
        assert(spec_trim_front(s@) == s@.skip(start as int));
    }
    let mut end: usize = s.len();
    proof {
        assert(s@.skip(start as int).take(end - start) =~= s@.skip(start as int));
    }
    while end > start && (s[end - 1] == 0x20 || s[end - 1] == 0x09 || s[end - 1] == 0x0d)
        invariant
            start <= end <= s@.len(),
            spec_trim_front(s@) == s@.skip(start as int),
            spec_trim_back(s@.skip(start as int)) == spec_trim_back(
                s@.skip(start as int).take(end - start),
            ),
        decreases end,
    {
        proof {
            let t = s@.skip(start as int).take(end - start);
            assert(t.last() == s@[end - 1]);
            assert(t.drop_last() =~= s@.skip(start as int).take(end - 1 - start));
        }
        end = end - 1;
    }
    proof {
        let t = s@.skip(start as int).take(end - start);
        if end > start {
            assert(t.last() == s@[end - 1]);
        }
        assert(spec_trim_back(t) == t);
        assert(spec_trim(s@) == s@.skip(start as int).take(end - start));
        assert(s@.skip(start as int).take(end - start) =~= s@.subrange(
            start as int,
            end as int,
        ));
    }
    let mut out: Vec<u8> = Vec::new();
    let mut i: usize = start;
    while i < end
        invariant
            start <= i <= end <= s@.len(),
            out@ == s@.subrange(start as int, i as int),
        decreases end - i,
    {
        out.push(s[i]);
        proof {
            assert(s@.subrange(start as int, i + 1) =~= s@.subrange(start as int, i as int).push(
                s@[i as int],
            ));
        }
        i = i + 1;
    }
    out
}

/// The value of a `key=` line: what stands after the key, when the line
/// begins with it.
pub open spec fn spec_line_value(line: Seq<u8>, key: Seq<u8>) -> Option<Seq<u8>> {
    if line.len() >= key.len() && line.take(key.len() as int) == key {
        Some(line.skip(key.len() as int))
    } else {
        None
    }
}

/// Reads the value of a `key=` configuration line, when the line begins
/// with the key.
pub fn line_value(line: &[u8], key: &[u8]) -> (r: Option<Vec<u8>>)
    ensures
        match r {
            Some(v) => spec_line_value(line@, key@) == Some(v@),
            None => spec_line_value(line@, key@) is None,
        },
{
    if line.len() < key.len() {
        return None;
    }
    let mut i: usize = 0;
    while i < key.len()
        invariant
            i <= key@.len() <= line@.len(),
            forall|j: int| 0 <= j < i ==> line@[j] == key@[j],
        decreases key@.len() - i,
    {
        if line[i] != key[i] {
            proof {
                assert(line@.take(key@.len() as int)[i as int] != key@[i as int]);
            }
            return None;
        }
        i = i + 1;
    }
    proof {
        assert(line@.take(key@.len() as int) =~= key@);
    }
    let mut out: Vec<u8> = Vec::new();
    let mut k: usize = key.len();
    while k < line.len()
        invariant
            key@.len() <= k <= line@.len(),
            out@ == line@.subrange(key@.len() as int, k as int),
        decreases line@.len() - k,
    {
        out.push(line[k]);
        proof {
            assert(line@.subrange(key@.len() as int, k + 1) =~= line@.subrange(
                key@.len() as int,
                k as int,
            ).push(line@[k as int]));
        }
        k = k + 1;
    }
    proof {
        assert(line@.subrange(key@.len() as int, line@.len() as int) =~= line@.skip(
            key@.len() as int,
        ));
    }
    Some(out)
}

/// A value with one pair of surrounding double quotes removed, when both
/// are present.
pub open spec fn spec_strip_quotes(s: Seq<u8>) -> Seq<u8> {
    if s.len() >= 2 && s[0] == 0x22 && s.last() == 0x22 {
        s.subrange(1, s.len() - 1)
    } else {
        s
    }
}

/// Removes one pair of surrounding double quotes, when both are present.
pub fn strip_quotes(s: &[u8]) -> (r: Vec<u8>)
    ensures
        r@ == spec_strip_quotes(s@),
{
    let n = s.len();
    let from: usize;
    let to: usize;
    if n >= 2 && s[0] == 0x22 && s[n - 1] == 0x22 {
        from = 1;
        to = n - 1;
    } else {
        from = 0;
        to = n;
    }
    let mut out: Vec<u8> = Vec::new();
    let mut i: usize = from;
    while i < to
        invariant
            from <= i <= to <= s@.len(),
            out@ == s@.subrange(from as int, i as int),
        decreases to - i,
    {
        out.push(s[i]);
        proof {
            assert(s@.subrange(from as int, i + 1) =~= s@.subrange(from as int, i as int).push(
                s@[i as int],
            ));
        }
        i = i + 1;
    }
    proof {
        if !(n >= 2 && s@[0] == 0x22 && s@[n - 1] == 0x22) {
            assert(s@.subrange(0, n as int) =~= s@);
        }
    }
    out
}

/// The standard WiFi QR payload for a network: `WIFI:S:<ssid>;T:<enc>;P:<password>;;`.
pub fn wifi_qr_payload(ssid: &str, password: &str, encryption: &str) -> (r: String)
    ensures
        r@ == "WIFI:S:"@ + ssid@ + ";T:"@ + encryption@ + ";P:"@ + password@ + ";;"@,
{
    let mut out = String::from_str("WIFI:S:");
    out.append(ssid);
    out.append(";T:");
    out.append(encryption);
    out.append(";P:");
    out.append(password);
    out.append(";;");
    out
}

} // verus!
