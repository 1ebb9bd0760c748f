//! Flat-file session log: `header\n<data>\0` repeated, where the header is
//! whitespace-separated `key=value` pairs, e.g.
//! `type=message role=user encoding=utf8`. Content that holds a NUL byte is
//! stored base64-encoded (`encoding=base64`), so a record never holds a NUL
//! before its end. The log is stream-friendly: records split at NUL bytes.
//!
//! This module encodes a message into the bytes appended to the log,
//! decodes a whole log back into messages, and decides how a save brings
//! the log in line with a session. What reading a log gives back of what
//! appending wrote is stated and proved here.
use base64::Engine;
use vstd::prelude::*;
use vstd::utf8::{
    decode_utf8, encode_scalar, encode_utf8, has_width_1_encoding, has_width_2_encoding, has_width_3_encoding,
    valid_utf8,
};
use vstd::string::StringSliceAdditionalSpecFns;

use crate::text::{is_ws, is_whitespace, split_once_spec, first_index_from, str_chars, to_owned, chars_slice_to_string};

verus! {

broadcast use vstd::utf8::encode_utf8_valid_utf8, vstd::utf8::encode_utf8_decode_utf8;

// ------------------------------------------------------------ base64

#[verifier::external_type_specification]
#[verifier::external_body]
pub struct ExDecodeError(base64::DecodeError);

/// The STANDARD base64 text of some bytes (named result of
/// `base64::engine::general_purpose::STANDARD.encode`).
pub uninterp spec fn base64_standard_encode(data: Seq<u8>) -> Seq<char>;

/// The bytes a STANDARD base64 text decodes to, `None` when it is not valid
/// base64 (named result of `STANDARD.decode`).
pub uninterp spec fn base64_standard_decode(text: Seq<u8>) -> Option<Seq<u8>>;

/// A character of the STANDARD base64 alphabet, or the `=` pad.
pub open spec fn is_base64_char(c: char) -> bool {
    ('A' <= c && c <= 'Z') || ('a' <= c && c <= 'z') || ('0' <= c && c <= '9') || c == '+' || c == '/'
        || c == '='
}

/// `STANDARD.encode` (base64 crate): the padded STANDARD base64 text of the
/// bytes. Its characters are from the STANDARD alphabet (`A-Z a-z 0-9 + /`)
/// and the `=` pad, and `STANDARD.decode` of the text gives the bytes
/// back; the text itself is named, not stated.
#[verifier::external_body]
fn b64_encode(data: &[u8]) -> (r: String)
    ensures
        r@ == base64_standard_encode(data@),
        forall|i: int| 0 <= i < r@.len() ==> is_base64_char(#[trigger] r@[i]),
        base64_standard_decode(encode_utf8(r@)) == Some(data@),
{
    base64::engine::general_purpose::STANDARD.encode(data)
}

/// `STANDARD.decode` (base64 crate): the bytes of a STANDARD base64 text,
/// or its `DecodeError`. Decoding what `STANDARD.encode` produced gives the
/// encoded bytes back.
#[verifier::external_body]
fn b64_decode(text: &[u8]) -> (r: Result<Vec<u8>, base64::DecodeError>)
    ensures
        match r {
            Ok(v) => base64_standard_decode(text@) == Some(v@),
            Err(_) => base64_standard_decode(text@) is None,
        },
        forall|d: Seq<u8>|
            text@ == encode_utf8(#[trigger] base64_standard_encode(d)) ==> (r is Ok && r->Ok_0@ == d),
{
    base64::engine::general_purpose::STANDARD.decode(text)
}

/// `String::from_utf8`: the text of the bytes when they are valid UTF-8.
#[verifier::external_body]
fn utf8_string(bytes: Vec<u8>) -> (r: Option<String>)
    ensures
        match r {
            Some(s) => valid_utf8(bytes@) && s@ == decode_utf8(bytes@),
            None => !valid_utf8(bytes@),
        },
{
    String::from_utf8(bytes).ok()
}

// ------------------------------------------------------------ bytes

/// The pieces of `b` between zero bytes (`<[u8]>::split` at `0`).
pub open spec fn split_zero(b: Seq<u8>) -> Seq<Seq<u8>>
    decreases b.len(),
{
    if b.len() == 0 {
        seq![Seq::empty()]
    } else {
        let r = split_zero(b.drop_last());
        if b.last() == 0 {
            r.push(Seq::empty())
        } else {
            r.update(r.len() - 1, r.last().push(b.last()))
        }
    }
}

proof fn lemma_split_zero_len(b: Seq<u8>)
    ensures
        split_zero(b).len() >= 1,
    decreases b.len(),
{
    if b.len() > 0 {
        lemma_split_zero_len(b.drop_last());
    }
}

/// Appending bytes without a zero extends the last piece.
proof fn lemma_split_zero_extend(a: Seq<u8>, x: Seq<u8>)
    requires
        forall|i: int| 0 <= i < x.len() ==> #[trigger] x[i] != 0,
    ensures
        split_zero(a + x) == split_zero(a).update(split_zero(a).len() - 1, split_zero(a).last() + x),
    decreases x.len(),
{
    lemma_split_zero_len(a);
    if x.len() == 0 {
        assert(a + x =~= a);
        assert(split_zero(a).last() + x =~= split_zero(a).last());
        assert(split_zero(a).update(split_zero(a).len() - 1, split_zero(a).last()) =~= split_zero(a));
    } else {
        let y = x.drop_last();
        lemma_split_zero_extend(a, y);
        assert((a + x).drop_last() =~= a + y);
        assert((a + x).last() == x.last());
        lemma_split_zero_len(a + y);
        let r = split_zero(a);
        let ry = split_zero(a + y);
        assert(ry.last() =~= r.last() + y);
        assert(ry.last().push(x.last()) =~= r.last() + x);
        assert(ry.update(ry.len() - 1, ry.last().push(x.last())) =~= r.update(r.len() - 1, r.last() + x));
    }
}

/// The first position of byte `c` in `b` at or after `from`.
pub open spec fn first_byte(b: Seq<u8>, c: u8, from: int) -> Option<int>
    decreases b.len() - from,
{
    if from < 0 || from >= b.len() {
        None
    } else if b[from] == c {
        Some(from)
    } else {
        first_byte(b, c, from + 1)
    }
}

proof fn lemma_first_byte(b: Seq<u8>, c: u8, from: int)
    requires
        0 <= from <= b.len(),
    ensures
        match first_byte(b, c, from) {
            Some(i) => from <= i < b.len() && b[i] == c && forall|k: int| from <= k < i ==> b[k] != c,
            None => forall|k: int| from <= k < b.len() ==> b[k] != c,
        },
    decreases b.len() - from,
{
    if from < b.len() && b[from] != c {
        lemma_first_byte(b, c, from + 1);
    }
}

/// The pieces of `v` between zero bytes.
fn split_at_zero(v: &[u8]) -> (r: Vec<Vec<u8>>)
    ensures
        r@.len() == split_zero(v@).len(),
        forall|k: int| 0 <= k < r@.len() ==> #[trigger] r@[k]@ == split_zero(v@)[k],
{
    let mut done: Vec<Vec<u8>> = Vec::new();
    let mut cur: Vec<u8> = Vec::new();
    let mut i: usize = 0;
    assert(v@.take(0) =~= Seq::<u8>::empty());
    while i < v.len()
        invariant
            0 <= i <= v@.len(),
            done@.len() + 1 == split_zero(v@.take(i as int)).len(),
            forall|k: int| 0 <= k < done@.len() ==> #[trigger] done@[k]@ == split_zero(v@.take(i as int))[k],
            cur@ == split_zero(v@.take(i as int)).last(),
        decreases v.len() - i,
    {
        assert(v@.take(i + 1).drop_last() =~= v@.take(i as int));
        assert(v@.take(i + 1).last() == v@[i as int]);
        proof {
            lemma_split_zero_len(v@.take(i as int));
        }
        if v[i] == 0 {
            let finished = cur;
            done.push(finished);
            cur = Vec::new();
            assert(cur@ =~= Seq::<u8>::empty());
        } else {
            cur.push(v[i]);
        }
        i += 1;
    }
    assert(v@.take(i as int) =~= v@);
    done.push(cur);
    done
}

// ------------------------------------------------------------ headers

/// The whitespace-separated tokens of `s` (`str::split_whitespace`).
pub open spec fn ws_tokens(s: Seq<char>) -> Seq<Seq<char>>
    decreases s.len(),
{
    if s.len() == 0 {
        Seq::empty()
    } else {
        let r = ws_tokens(s.drop_last());
        let c = s.last();
        if is_ws(c) {
            r
        } else if s.len() >= 2 && !is_ws(s[s.len() - 2]) {
            r.update(r.len() - 1, r.last().push(c))
        } else {
            r.push(seq![c])
        }
    }
}

proof fn lemma_ws_tokens_nonempty(s: Seq<char>)
    ensures
        s.len() > 0 && !is_ws(s.last()) ==> ws_tokens(s).len() > 0,
    decreases s.len(),
{
    if s.len() >= 2 {
        lemma_ws_tokens_nonempty(s.drop_last());
    }
}

/// The `key=value` pairs of a token list, in order, or the first token
/// without a `=`.
pub open spec fn header_pairs(toks: Seq<Seq<char>>) -> Result<Seq<(Seq<char>, Seq<char>)>, Seq<char>>
    decreases toks.len(),
{
    if toks.len() == 0 {
        Ok(Seq::empty())
    } else {
        match header_pairs(toks.drop_last()) {
            Err(e) => Err(e),
            Ok(ps) => match split_once_spec(toks.last(), '=') {
                Some(kv) => Ok(ps.push(kv)),
                None => Err(toks.last()),
            },
        }
    }
}

/// The value of `key` in a header: the last pair with that key wins.
pub open spec fn header_get(ps: Seq<(Seq<char>, Seq<char>)>, key: Seq<char>) -> Option<Seq<char>>
    decreases ps.len(),
{
    if ps.len() == 0 {
        None
    } else if ps.last().0 == key {
        Some(ps.last().1)
    } else {
        header_get(ps.drop_last(), key)
    }
}

fn whitespace_tokens(v: &Vec<char>) -> (r: Vec<Vec<char>>)
    ensures
        r@.len() == ws_tokens(v@).len(),
        forall|k: int| 0 <= k < r@.len() ==> #[trigger] r@[k]@ == ws_tokens(v@)[k],
{
    let mut toks: Vec<Vec<char>> = Vec::new();
    let mut i: usize = 0;
    while i < v.len()
        invariant
            0 <= i <= v@.len(),
            toks@.len() == ws_tokens(v@.take(i as int)).len(),
            forall|k: int| 0 <= k < toks@.len() ==> #[trigger] toks@[k]@ == ws_tokens(v@.take(i as int))[k],
        decreases v.len() - i,
    {
        let c = v[i];
        let ghost t = v@.take(i + 1);
        proof {
            assert(t.drop_last() =~= v@.take(i as int));
            assert(t.last() == c);
            if i >= 1 {
                assert(t[t.len() - 2] == v@[i - 1]);
                lemma_ws_tokens_nonempty(v@.take(i as int));
                assert(v@.take(i as int).last() == v@[i - 1]);
            }
        }
        if !is_whitespace(c) {
            if i >= 1 && !is_whitespace(v[i - 1]) {
                let n = toks.len();
                let mut last = toks.pop().unwrap();
                last.push(c);
                toks.push(last);
                proof {
                    assert(toks@.len() == n);
                }
            } else {
                let mut fresh: Vec<char> = Vec::new();
                fresh.push(c);
                toks.push(fresh);
                proof {
                    assert(fresh@ =~= seq![c]);
                }
            }
        }
        i += 1;
    }
    proof {
        assert(v@.take(v@.len() as int) =~= v@);
    }
    toks
}

fn split_token(tok: &Vec<char>) -> (r: Option<(String, String)>)
    ensures
        match r {
            Some((k, v)) => split_once_spec(tok@, '=') == Some((k@, v@)),
            None => split_once_spec(tok@, '=') is None,
        },
{
    proof {
        crate::text::lemma_first_index_from(tok@, '=', 0);
    }
    match crate::text::find_char(tok, '=', 0, tok.len()) {
        Some(i) => {
            proof {
                crate::text::lemma_first_index_from_char(tok@, '=', 0, i as int);
            }
            let k = chars_slice_to_string(tok, 0, i);
            let v = chars_slice_to_string(tok, i + 1, tok.len());
            proof {
                assert(k@ =~= tok@.take(i as int));
                assert(v@ =~= tok@.skip(i + 1));
            }
            Some((k, v))
        },
        None => {
            proof {
                crate::text::lemma_first_index_from_none(tok@, '=', 0);
            }
            None
        },
    }
}

/// The `(key, value)` pairs of a header line, or the first token without
/// `=`.
fn parse_header(h: &Vec<char>) -> (r: Result<Vec<(String, String)>, String>)
    ensures
        match header_pairs(ws_tokens(h@)) {
            Ok(ps) => r matches Ok(v) && v@.len() == ps.len() && forall|k: int|
                0 <= k < v@.len() ==> (#[trigger] v@[k]).0@ == ps[k].0 && v@[k].1@ == ps[k].1,
            Err(t) => r matches Err(e) && e@ == t,
        },
{
    let toks = whitespace_tokens(h);
    let ghost ts = ws_tokens(h@);
    let mut out: Vec<(String, String)> = Vec::new();
    let mut i: usize = 0;
    while i < toks.len()
        invariant
            ts == ws_tokens(h@),
            toks@.len() == ts.len(),
            forall|k: int| 0 <= k < toks@.len() ==> #[trigger] toks@[k]@ == ts[k],
            0 <= i <= ts.len(),
            header_pairs(ts.take(i as int)) is Ok,
            out@.len() == header_pairs(ts.take(i as int))->Ok_0.len(),
            forall|k: int|
                0 <= k < out@.len() ==> (#[trigger] out@[k]).0@ == header_pairs(ts.take(i as int))->Ok_0[k].0
                    && out@[k].1@ == header_pairs(ts.take(i as int))->Ok_0[k].1,
        decreases toks.len() - i,
    {
        proof {
            assert(ts.take(i + 1).drop_last() =~= ts.take(i as int));
            assert(ts.take(i + 1).last() == ts[i as int]);
        }
        match split_token(&toks[i]) {
            Some(kv) => {
                out.push(kv);
            },
            None => {
                let bad = chars_slice_to_string(&toks[i], 0, toks[i].len());
                proof {
                    lemma_header_pairs_err_prefix(ts, i + 1);
                    assert(bad@ =~= ts[i as int]);
                }
                return Err(bad);
            },
        }
        i += 1;
    }
    proof {
        assert(ts.take(ts.len() as int) =~= ts);
    }
    Ok(out)
}

/// An error in a prefix of the tokens is the error of the whole list.
proof fn lemma_header_pairs_err_prefix(ts: Seq<Seq<char>>, n: int)
    requires
        0 <= n <= ts.len(),
        header_pairs(ts.take(n)) is Err,
    ensures
        header_pairs(ts) == header_pairs(ts.take(n)),
    decreases ts.len() - n,
{
    if n < ts.len() {
        assert(ts.take(n + 1).drop_last() =~= ts.take(n));
        lemma_header_pairs_err_prefix(ts, n + 1);
    } else {
        assert(ts.take(n) =~= ts);
    }
}

fn header_value(ps: &Vec<(String, String)>, key: &str) -> (r: Option<String>)
    ensures
        opt_view(r) == header_get(pairs_view(ps@), key@),
{
    let mut i = ps.len();
    proof {
        assert(ps@.take(i as int) =~= ps@);
    }
    while i > 0
        invariant
            0 <= i <= ps@.len(),
            header_get(pairs_view(ps@), key@) == header_get(pairs_view(ps@.take(i as int)), key@),
        decreases i,
    {
        let ghost t = ps@.take(i as int);
        proof {
            assert(pairs_view(t).drop_last() =~= pairs_view(ps@.take(i - 1)));
            assert(pairs_view(t).last() == (ps@[i - 1].0@, ps@[i - 1].1@));
        }
        if crate::text::str_eq(ps[i - 1].0.as_str(), key) {
            return Some(ps[i - 1].1.clone());
        }
        i -= 1;
    }
    None
}

/// The characters of an optional string.
pub open spec fn opt_view(o: Option<String>) -> Option<Seq<char>> {
    match o {
        Some(s) => Some(s@),
        None => None,
    }
}

/// The character view of a list of string pairs.
pub open spec fn pairs_view(ps: Seq<(String, String)>) -> Seq<(Seq<char>, Seq<char>)> {
    Seq::new(ps.len(), |k: int| (ps[k].0@, ps[k].1@))
}

// ------------------------------------------------------------ records

/// Why a log could not be read back.
#[derive(Debug)]
pub enum LogError {
    /// A record header is not UTF-8.
    HeaderNotUtf8,
    /// A header token has no `=`.
    InvalidSegment(String),
    /// A message record has no `role`.
    MissingRole,
    /// Base64 content failed to decode.
    Base64(base64::DecodeError),
    /// The `encoding` is neither `utf8` nor `base64`.
    UnknownEncoding(String),
    /// The content is not UTF-8.
    ContentNotUtf8,
}

/// A log error as a mathematical value.
pub enum LogFault {
    HeaderNotUtf8,
    InvalidSegment(Seq<char>),
    MissingRole,
    Base64,
    UnknownEncoding(Seq<char>),
    ContentNotUtf8,
}

/// The fault an error stands for.
pub open spec fn fault_of(e: LogError) -> LogFault {
    match e {
        LogError::HeaderNotUtf8 => LogFault::HeaderNotUtf8,
        LogError::InvalidSegment(s) => LogFault::InvalidSegment(s@),
        LogError::MissingRole => LogFault::MissingRole,
        LogError::Base64(_) => LogFault::Base64,
        LogError::UnknownEncoding(s) => LogFault::UnknownEncoding(s@),
        LogError::ContentNotUtf8 => LogFault::ContentNotUtf8,
    }
}

impl LogError {
    /// The error's message, as the log reader reports it.
    pub fn message(&self) -> (r: String)
        ensures
            r@ == match fault_of(*self) {
                LogFault::HeaderNotUtf8 => "record header is not UTF-8"@,
                LogFault::InvalidSegment(s) => "invalid header segment: "@ + s,
                LogFault::MissingRole => "message record missing role"@,
                LogFault::Base64 => "base64 decode failed"@,
                LogFault::UnknownEncoding(s) => "unknown encoding: "@ + s,
                LogFault::ContentNotUtf8 => "record content is not UTF-8"@,
            },
    {
        match self {
            LogError::HeaderNotUtf8 => to_owned("record header is not UTF-8"),
            LogError::InvalidSegment(s) => {
                let mut m = to_owned("invalid header segment: ");
                m.append(s.as_str());
                m
            },
            LogError::MissingRole => to_owned("message record missing role"),
            LogError::Base64(_) => to_owned("base64 decode failed"),
            LogError::UnknownEncoding(s) => {
                let mut m = to_owned("unknown encoding: ");
                m.append(s.as_str());
                m
            },
            LogError::ContentNotUtf8 => to_owned("record content is not UTF-8"),
        }
    }
}

/// What one record decodes to.
pub enum RecordOutcome {
    /// Not a message record (empty, no header line, or another `type`).
    Skip,
    /// A message: role and content.
    Message(Seq<char>, Seq<char>),
    /// The record is broken.
    Fault(LogFault),
}

/// A message record's content bytes as text.
pub open spec fn content_outcome(role: Seq<char>, bytes: Seq<u8>) -> RecordOutcome {
    if valid_utf8(bytes) {
        RecordOutcome::Message(role, decode_utf8(bytes))
    } else {
        RecordOutcome::Fault(LogFault::ContentNotUtf8)
    }
}

/// What a record (the bytes between two NULs) decodes to.
pub open spec fn record_outcome(rec: Seq<u8>) -> RecordOutcome {
    if rec.len() == 0 {
        RecordOutcome::Skip
    } else {
        match first_byte(rec, 10, 0) {
            None => RecordOutcome::Skip,
            Some(nl) => {
                let hb = rec.take(nl);
                let data = rec.skip(nl + 1);
                if !valid_utf8(hb) {
                    RecordOutcome::Fault(LogFault::HeaderNotUtf8)
                } else {
                    match header_pairs(ws_tokens(decode_utf8(hb))) {
                        Err(t) => RecordOutcome::Fault(LogFault::InvalidSegment(t)),
                        Ok(ps) => if header_get(ps, "type"@) != Some("message"@) {
                            RecordOutcome::Skip
                        } else {
                            match header_get(ps, "role"@) {
                                None => RecordOutcome::Fault(LogFault::MissingRole),
                                Some(role) => {
                                    let enc = match header_get(ps, "encoding"@) {
                                        Some(e) => e,
                                        None => "utf8"@,
                                    };
                                    if enc == "utf8"@ {
                                        content_outcome(role, data)
                                    } else if enc == "base64"@ {
                                        match base64_standard_decode(data) {
                                            Some(b) => content_outcome(role, b),
                                            None => RecordOutcome::Fault(LogFault::Base64),
                                        }
                                    } else {
                                        RecordOutcome::Fault(LogFault::UnknownEncoding(enc))
                                    }
                                },
                            }
                        },
                    }
                }
            },
        }
    }
}

/// The messages of a list of records, in order, or the first fault.
pub open spec fn load_outcome(recs: Seq<Seq<u8>>) -> Result<Seq<(Seq<char>, Seq<char>)>, LogFault>
    decreases recs.len(),
{
    if recs.len() == 0 {
        Ok(Seq::empty())
    } else {
        match load_outcome(recs.drop_last()) {
            Err(e) => Err(e),
            Ok(ms) => match record_outcome(recs.last()) {
                RecordOutcome::Skip => Ok(ms),
                RecordOutcome::Message(role, content) => Ok(ms.push((role, content))),
                RecordOutcome::Fault(f) => Err(f),
            },
        }
    }
}

/// The messages a log holds, or the first fault.
pub open spec fn log_messages(log: Seq<u8>) -> Result<Seq<(Seq<char>, Seq<char>)>, LogFault> {
    load_outcome(split_zero(log))
}

fn record_content(role: String, bytes: Vec<u8>) -> (r: Result<Option<(String, String)>, LogError>)
    ensures
        match content_outcome(role@, bytes@) {
            RecordOutcome::Message(ro, c) => r matches Ok(Some(m)) && m.0@ == ro && m.1@ == c,
            RecordOutcome::Fault(f) => r matches Err(e) && fault_of(e) == f,
            RecordOutcome::Skip => false,
        },
{
    match utf8_string(bytes) {
        Some(content) => Ok(Some((role, content))),
        None => Err(LogError::ContentNotUtf8),
    }
}

/// Decode one record: `None` when it is not a message record.
pub fn parse_record_bytes(rec: &[u8]) -> (r: Result<Option<(String, String)>, LogError>)
    ensures
        match record_outcome(rec@) {
            RecordOutcome::Skip => r matches Ok(None),
            RecordOutcome::Message(role, content) => r matches Ok(Some(m)) && m.0@ == role && m.1@ == content,
            RecordOutcome::Fault(f) => r matches Err(e) && fault_of(e) == f,
        },
{
    if rec.len() == 0 {
        return Ok(None);
    }
    proof {
        lemma_first_byte(rec@, 10, 0);
    }
    let mut nl: usize = 0;
    while nl < rec.len() && rec[nl] != 10
        invariant
            0 <= nl <= rec@.len(),
            forall|k: int| 0 <= k < nl ==> rec@[k] != 10,
            first_byte(rec@, 10, 0) == first_byte(rec@, 10, nl as int),
        decreases rec.len() - nl,
    {
        nl += 1;
    }
    if nl == rec.len() {
        return Ok(None);
    }
    let mut hb: Vec<u8> = Vec::new();
    let mut j: usize = 0;
    while j < nl
        invariant
            nl < rec@.len(),
            0 <= j <= nl,
            hb@ == rec@.take(j as int),
        decreases nl - j,
    {
        hb.push(rec[j]);
        j += 1;
        assert(hb@ =~= rec@.take(j as int));
    }
    let mut data: Vec<u8> = Vec::new();
    let mut j: usize = nl + 1;
    while j < rec.len()
        invariant
            nl < rec@.len(),
            nl + 1 <= j <= rec@.len(),
            data@ == rec@.subrange(nl + 1, j as int),
        decreases rec.len() - j,
    {
        data.push(rec[j]);
        j += 1;
        assert(data@ =~= rec@.subrange(nl + 1, j as int));
    }
    proof {
        assert(data@ =~= rec@.skip(nl + 1));
    }
    let header = match utf8_string(hb) {
        Some(h) => h,
        None => return Err(LogError::HeaderNotUtf8),
    };
    let hv = str_chars(header.as_str());
    let pairs = match parse_header(&hv) {
        Ok(ps) => ps,
        Err(t) => return Err(LogError::InvalidSegment(t)),
    };
    proof {
        assert(pairs_view(pairs@) =~= header_pairs(ws_tokens(hv@))->Ok_0);
    }
    let ty = header_value(&pairs, "type");
    let is_message = match &ty {
        Some(t) => crate::text::str_eq(t.as_str(), "message"),
        None => false,
    };
    if !is_message {
        return Ok(None);
    }
    let role = match header_value(&pairs, "role") {
        Some(r) => r,
        None => return Err(LogError::MissingRole),
    };
    let enc = header_value(&pairs, "encoding");
    let enc_text = match enc {
        Some(e) => e,
        None => to_owned("utf8"),
    };
    if crate::text::str_eq(enc_text.as_str(), "utf8") {
        record_content(role, data)
    } else if crate::text::str_eq(enc_text.as_str(), "base64") {
        match b64_decode(data.as_slice()) {
            Ok(bytes) => record_content(role, bytes),
            Err(e) => Err(LogError::Base64(e)),
        }
    } else {
        Err(LogError::UnknownEncoding(enc_text))
    }
}

/// Read a whole log back: the messages of its records, in order; the first
/// broken record is the error.
pub fn load_messages(log: &[u8]) -> (r: Result<Vec<(String, String)>, LogError>)
    ensures
        match log_messages(log@) {
            Ok(ms) => r matches Ok(v) && v@.len() == ms.len() && forall|k: int|
                0 <= k < v@.len() ==> (#[trigger] v@[k]).0@ == ms[k].0 && v@[k].1@ == ms[k].1,
            Err(f) => r matches Err(e) && fault_of(e) == f,
        },
{
    let recs = split_at_zero(log);
    let ghost rs = split_zero(log@);
    let mut out: Vec<(String, String)> = Vec::new();
    let mut i: usize = 0;
    while i < recs.len()
        invariant
            rs == split_zero(log@),
            recs@.len() == rs.len(),
            forall|k: int| 0 <= k < recs@.len() ==> #[trigger] recs@[k]@ == rs[k],
            0 <= i <= rs.len(),
            load_outcome(rs.take(i as int)) is Ok,
            out@.len() == load_outcome(rs.take(i as int))->Ok_0.len(),
            forall|k: int|
                0 <= k < out@.len() ==> (#[trigger] out@[k]).0@ == load_outcome(rs.take(i as int))->Ok_0[k].0
                    && out@[k].1@ == load_outcome(rs.take(i as int))->Ok_0[k].1,
        decreases recs.len() - i,
    {
        proof {
            assert(rs.take(i + 1).drop_last() =~= rs.take(i as int));
            assert(rs.take(i + 1).last() == rs[i as int]);
        }
        match parse_record_bytes(recs[i].as_slice()) {
            Ok(Some(m)) => {
                out.push(m);
            },
            Ok(None) => {},
            Err(e) => {
                proof {
                    lemma_load_err_prefix(rs, i as int + 1);
                }
                return Err(e);
            },
        }
        i += 1;
    }
    proof {
        assert(rs.take(rs.len() as int) =~= rs);
    }
    Ok(out)
}

proof fn lemma_load_err_prefix(rs: Seq<Seq<u8>>, n: int)
    requires
        0 <= n <= rs.len(),
        load_outcome(rs.take(n)) is Err,
    ensures
        load_outcome(rs) == load_outcome(rs.take(n)),
    decreases rs.len() - n,
{
    if n < rs.len() {
        assert(rs.take(n + 1).drop_last() =~= rs.take(n));
        lemma_load_err_prefix(rs, n + 1);
    } else {
        assert(rs.take(n) =~= rs);
    }
}

// ------------------------------------------------------------ writing

/// Whether byte `x` occurs in `b`.
pub open spec fn has_byte(b: Seq<u8>, x: u8) -> bool {
    exists|i: int| 0 <= i < b.len() && b[i] == x
}

/// The header of a message record.
pub open spec fn message_header(role: Seq<char>, base64: bool) -> Seq<char> {
    "type=message role="@ + role + if base64 {
        " encoding=base64"@
    } else {
        " encoding=utf8"@
    }
}

/// How content is stored: as its UTF-8 bytes, or, when those hold a NUL,
/// as the bytes of its STANDARD base64 text.
pub open spec fn payload_spec(content: Seq<char>) -> (bool, Seq<u8>) {
    let cb = encode_utf8(content);
    if has_byte(cb, 0) {
        (true, encode_utf8(base64_standard_encode(cb)))
    } else {
        (false, cb)
    }
}

/// Why a record could not be appended.
#[derive(Debug, Clone, Copy, PartialEq, Eq, Structural)]
pub enum AppendError {
    /// The header holds a newline or a NUL.
    HeaderNotLine,
    /// The data holds a NUL byte.
    DataHasNul,
}

impl AppendError {
    /// The error's message.
    pub fn message(self) -> (r: &'static str)
        ensures
            r@ == match self {
                AppendError::HeaderNotLine => "record header must not contain newline or NUL"@,
                AppendError::DataHasNul => "record data must not contain NUL bytes; use base64 encoding"@,
            },
    {
        match self {
            AppendError::HeaderNotLine => "record header must not contain newline or NUL",
            AppendError::DataHasNul => "record data must not contain NUL bytes; use base64 encoding",
        }
    }
}

/// What appending a message writes: `header\n<data>\0`, or why nothing is
/// written.
pub open spec fn encode_message_spec(role: Seq<char>, content: Seq<char>) -> Result<Seq<u8>, AppendError> {
    let (b64, data) = payload_spec(content);
    let h = message_header(role, b64);
    if h.contains('\n') || h.contains('\0') {
        Err(AppendError::HeaderNotLine)
    } else if has_byte(data, 0) {
        Err(AppendError::DataHasNul)
    } else {
        Ok(encode_utf8(h) + seq![10u8] + data + seq![0u8])
    }
}

/// A role that survives the header format: non-empty, no whitespace, no
/// NUL.
pub open spec fn role_ok(role: Seq<char>) -> bool {
    role.len() > 0 && forall|k: int| 0 <= k < role.len() ==> !is_ws(#[trigger] role[k]) && role[k] != '\0'
}

fn bytes_contain(b: &[u8], x: u8) -> (r: bool)
    ensures
        r == has_byte(b@, x),
{
    let mut i: usize = 0;
    while i < b.len()
        invariant
            0 <= i <= b@.len(),
            forall|k: int| 0 <= k < i ==> b@[k] != x,
        decreases b.len() - i,
    {
        if b[i] == x {
            return true;
        }
        i += 1;
    }
    false
}

fn append_bytes(out: &mut Vec<u8>, b: &[u8])
    ensures
        final(out)@ == old(out)@ + b@,
{
    let ghost o = out@;
    let mut i: usize = 0;
    while i < b.len()
        invariant
            0 <= i <= b@.len(),
            out@ == o + b@.take(i as int),
        decreases b.len() - i,
    {
        out.push(b[i]);
        i += 1;
        assert(out@ =~= o + b@.take(i as int));
    }
    assert(b@.take(i as int) =~= b@);
}

proof fn lemma_high_bytes(x: u8)
    by (bit_vector)
    ensures
        (0xC0u8 | x) >= 0x80u8,
        (0xE0u8 | x) >= 0x80u8,
        (0xF0u8 | x) >= 0x80u8,
        (0x80u8 | x) >= 0x80u8,
{
}

proof fn lemma_low_byte(v: u32)
    by (bit_vector)
    requires
        v <= 0x7F,
    ensures
        ((v & 0x7F) as u8) as u32 == v,
{
}

/// The UTF-8 bytes of a character other than the ASCII character `x`
/// (byte `b`) never include `b`.
proof fn lemma_scalar_lacks_byte(c: char, x: char, b: u8)
    requires
        b < 128,
        (x as u32) == (b as u32),
        c != x,
    ensures
        forall|i: int| 0 <= i < encode_scalar(c as u32).len() ==> #[trigger] encode_scalar(c as u32)[i] != b,
{
    let v = c as u32;
    if v == (b as u32) {
        vstd::utf8::char_u32_cast(c, v);
        vstd::utf8::char_u32_cast(x, v);
    }
    if has_width_1_encoding(v) {
        lemma_low_byte(v);
    } else if has_width_2_encoding(v) {
        lemma_high_bytes(((v >> 6) & 0x1F) as u8);
        lemma_high_bytes((v & 0x3F) as u8);
    } else if has_width_3_encoding(v) {
        lemma_high_bytes(((v >> 12) & 0x0F) as u8);
        lemma_high_bytes(((v >> 6) & 0x3F) as u8);
        lemma_high_bytes((v & 0x3F) as u8);
    } else {
        lemma_high_bytes(((v >> 18) & 0x7) as u8);
        lemma_high_bytes(((v >> 12) & 0x3F) as u8);
        lemma_high_bytes(((v >> 6) & 0x3F) as u8);
        lemma_high_bytes((v & 0x3F) as u8);
    }
}

/// Text without the ASCII character `x` (byte `b`) has UTF-8 bytes
/// without `b`.
proof fn lemma_utf8_lacks_byte(s: Seq<char>, x: char, b: u8)
    requires
        b < 128,
        (x as u32) == (b as u32),
        !s.contains(x),
    ensures
        !has_byte(encode_utf8(s), b),
    decreases s.len(),
{
    if s.len() > 0 {
        assert(s[0] != x) by {
            if s[0] == x {
                assert(s.contains(x));
            }
        }
        lemma_scalar_lacks_byte(s[0], x, b);
        let t = s.drop_first();
        assert(!t.contains(x)) by {
            if t.contains(x) {
                let k = choose|k: int| 0 <= k < t.len() && t[k] == x;
                assert(s[k + 1] == x);
            }
        }
        lemma_utf8_lacks_byte(t, x, b);
        let e0 = encode_scalar(s[0] as u32);
        let e1 = encode_utf8(t);
        assert(encode_utf8(s) == e0 + e1);
        if has_byte(encode_utf8(s), b) {
            let i = choose|i: int| 0 <= i < encode_utf8(s).len() && encode_utf8(s)[i] == b;
            if i < e0.len() {
                assert(encode_utf8(s)[i] == e0[i]);
            } else {
                assert(encode_utf8(s)[i] == e1[i - e0.len()]);
            }
        }
    }
}

/// Appending characters without whitespace after whitespace (or at the
/// start) adds them as one new token.
proof fn lemma_ws_tokens_append(s: Seq<char>, t: Seq<char>)
    requires
        t.len() > 0,
        forall|k: int| 0 <= k < t.len() ==> !is_ws(#[trigger] t[k]),
        s.len() == 0 || is_ws(s.last()),
    ensures
        ws_tokens(s + t) == ws_tokens(s).push(t),
    decreases t.len(),
{
    let u = s + t;
    assert(u.drop_last() =~= s + t.drop_last());
    assert(u.last() == t.last());
    if t.len() == 1 {
        assert(s + t.drop_last() =~= s);
        assert(t =~= seq![t[0]]);
        if u.len() >= 2 {
            assert(u[u.len() - 2] == s.last());
        }
    } else {
        let t1 = t.drop_last();
        assert forall|k: int| 0 <= k < t1.len() implies !is_ws(#[trigger] t1[k]) by {
            assert(t1[k] == t[k]);
        }
        lemma_ws_tokens_append(s, t1);
        assert(u[u.len() - 2] == t[t.len() - 2]);
        assert(t1.push(t.last()) =~= t);
        assert(ws_tokens(s).push(t1).update(ws_tokens(s).len() as int, t1.push(t.last())) =~= ws_tokens(s).push(t));
    }
}

proof fn lemma_first_byte_at(b: Seq<u8>, c: u8, i: int)
    requires
        0 <= i < b.len(),
        b[i] == c,
        forall|k: int| 0 <= k < i ==> b[k] != c,
    ensures
        first_byte(b, c, 0) == Some(i),
{
    assert forall|j: int| 0 <= j <= i implies first_byte(b, c, j) == Some(i) by {
        lemma_first_byte_from(b, c, j, i);
    }
}

proof fn lemma_first_byte_from(b: Seq<u8>, c: u8, j: int, i: int)
    requires
        0 <= j <= i < b.len(),
        b[i] == c,
        forall|k: int| j <= k < i ==> b[k] != c,
    ensures
        first_byte(b, c, j) == Some(i),
    decreases i - j,
{
    if j < i {
        lemma_first_byte_from(b, c, j + 1, i);
    }
}

/// A message record's header tokens, pairs and values.
#[verifier::spinoff_prover]
#[verifier::rlimit(40)]
proof fn lemma_message_header(role: Seq<char>, enc: Seq<char>)
    requires
        role_ok(role),
        enc == "utf8"@ || enc == "base64"@,
    ensures
        ({
            let h = "type=message role="@ + role + " encoding="@ + enc;
            &&& header_pairs(ws_tokens(h)) is Ok
            &&& header_get(header_pairs(ws_tokens(h))->Ok_0, "type"@) == Some("message"@)
            &&& header_get(header_pairs(ws_tokens(h))->Ok_0, "role"@) == Some(role)
            &&& header_get(header_pairs(ws_tokens(h))->Ok_0, "encoding"@) == Some(enc)
            &&& !h.contains('\n')
            &&& !h.contains('\0')
        }),
{
    reveal_strlit("type=message role=");
    reveal_strlit(" encoding=");
    reveal_strlit("utf8");
    reveal_strlit("base64");
    reveal_strlit("type");
    reveal_strlit("message");
    reveal_strlit("role");
    reveal_strlit("encoding");
    let a: Seq<char> = "type=message"@;
    reveal_strlit("type=message");
    let b: Seq<char> = "role="@ + role;
    reveal_strlit("role=");
    let c: Seq<char> = "encoding="@ + enc;
    reveal_strlit("encoding=");
    let sp: Seq<char> = seq![' '];
    let h = "type=message role="@ + role + " encoding="@ + enc;
    assert(h =~= a + sp + b + sp + c);
    assert forall|k: int| 0 <= k < a.len() implies !is_ws(#[trigger] a[k]) by {}
    assert forall|k: int| 0 <= k < b.len() implies !is_ws(#[trigger] b[k]) by {
        if k >= 5 {
            assert(b[k] == role[k - 5]);
        }
    }
    assert forall|k: int| 0 <= k < c.len() implies !is_ws(#[trigger] c[k]) by {
        if k >= 9 {
            assert(c[k] == enc[k - 9]);
        }
    }
    let e: Seq<char> = Seq::empty();
    assert(e + a =~= a);
    lemma_ws_tokens_append(e, a);
    assert(ws_tokens(e) == Seq::<Seq<char>>::empty());
    let a1 = a + sp;
    assert(a1.drop_last() =~= a);
    lemma_ws_tokens_append(a1, b);
    let b1 = a1 + b + sp;
    assert(b1.drop_last() =~= a1 + b);
    lemma_ws_tokens_append(b1, c);
    assert(b1 + c =~= h);
    let toks = ws_tokens(h);
    assert(toks =~= seq![a, b, c]);
    // the pairs
    crate::text::lemma_first_index_from_char(a, '=', 0, 4);
    crate::text::lemma_first_index_from_char(b, '=', 0, 4);
    crate::text::lemma_first_index_from_char(c, '=', 0, 8);
    assert(a.take(4) =~= "type"@);
    assert(a.skip(5) =~= "message"@);
    assert(b.take(4) =~= "role"@);
    assert(b.skip(5) =~= role);
    assert(c.take(8) =~= "encoding"@);
    assert(c.skip(9) =~= enc);
    let ps = seq![("type"@, "message"@), ("role"@, role), ("encoding"@, enc)];
    assert(seq![a, b, c].drop_last() =~= seq![a, b]);
    assert(seq![a, b].drop_last() =~= seq![a]);
    assert(seq![a].drop_last() =~= Seq::<Seq<char>>::empty());
    assert(seq![a].last() == a);
    assert(header_pairs(Seq::<Seq<char>>::empty()) == Ok::<Seq<(Seq<char>, Seq<char>)>, Seq<char>>(Seq::empty()));
    assert(split_once_spec(a, '=') == Some(("type"@, "message"@)));
    assert(Seq::<(Seq<char>, Seq<char>)>::empty().push(("type"@, "message"@)) =~= seq![("type"@, "message"@)]);
    assert(header_pairs(seq![a]) == Ok::<Seq<(Seq<char>, Seq<char>)>, Seq<char>>(seq![("type"@, "message"@)]));
    assert(header_pairs(seq![a, b]) == Ok::<Seq<(Seq<char>, Seq<char>)>, Seq<char>>(
        seq![("type"@, "message"@), ("role"@, role)],
    )) by {
        assert(seq![("type"@, "message"@)].push(("role"@, role)) =~= seq![("type"@, "message"@), ("role"@, role)]);
    }
    assert(header_pairs(toks) == Ok::<Seq<(Seq<char>, Seq<char>)>, Seq<char>>(ps)) by {
        assert(seq![("type"@, "message"@), ("role"@, role)].push(("encoding"@, enc)) =~= ps);
    }
    assert(ps.drop_last() =~= seq![("type"@, "message"@), ("role"@, role)]);
    assert(seq![("type"@, "message"@), ("role"@, role)].drop_last() =~= seq![("type"@, "message"@)]);
    assert(seq![("type"@, "message"@)].drop_last() =~= Seq::<(Seq<char>, Seq<char>)>::empty());
    assert("type"@ != "encoding"@);
    assert("type"@ != "role"@) by {
        assert("type"@[0] != "role"@[0]);
    }
    assert(header_get(seq![("type"@, "message"@)], "type"@) == Some("message"@));
    assert(header_get(seq![("type"@, "message"@), ("role"@, role)], "type"@) == Some("message"@));
    assert(header_get(ps, "type"@) == Some("message"@));
    assert("role"@ != "encoding"@);
    assert(header_get(seq![("type"@, "message"@), ("role"@, role)], "role"@) == Some(role));
    assert(header_get(ps, "role"@) == Some(role));
    assert(header_get(ps, "encoding"@) == Some(enc));
    assert("role"@ != "encoding"@);
    assert(!h.contains('\n')) by {
        if h.contains('\n') {
            let k = choose|k: int| 0 <= k < h.len() && h[k] == '\n';
            if k >= 18 && k < 18 + role.len() {
                assert(h[k] == role[k - 18]);
            }
        }
    }
    assert(!h.contains('\0')) by {
        if h.contains('\0') {
            let k = choose|k: int| 0 <= k < h.len() && h[k] == '\0';
            if k >= 18 && k < 18 + role.len() {
                assert(h[k] == role[k - 18]);
            }
        }
    }
}

/// The record a role and content encode to decodes back to them.
proof fn lemma_message_record(role: Seq<char>, content: Seq<char>, b64: bool, data: Seq<u8>)
    requires
        role_ok(role),
        (b64, data) == payload_spec(content),
        !has_byte(data, 0),
        b64 ==> base64_standard_decode(data) == Some(encode_utf8(content)),
    ensures
        ({
            let body = encode_utf8(message_header(role, b64)) + seq![10u8] + data;
            &&& !has_byte(body, 0)
            &&& record_outcome(body) == RecordOutcome::Message(role, content)
        }),
{
    let enc: Seq<char> = if b64 {
        "base64"@
    } else {
        "utf8"@
    };
    reveal_strlit(" encoding=base64");
    reveal_strlit(" encoding=utf8");
    reveal_strlit(" encoding=");
    reveal_strlit("base64");
    reveal_strlit("utf8");
    let h = message_header(role, b64);
    assert(h =~= "type=message role="@ + role + " encoding="@ + enc);
    lemma_message_header(role, enc);
    let hb = encode_utf8(h);
    assert(!h.contains('\0'));
    assert(!h.contains('\n'));
    lemma_utf8_lacks_byte(h, '\0', 0);
    lemma_utf8_lacks_byte(h, '\n', 10);
    let body = hb + seq![10u8] + data;
    assert(!has_byte(body, 0)) by {
        if has_byte(body, 0) {
            let i = choose|i: int| 0 <= i < body.len() && body[i] == 0;
            if i < hb.len() {
                assert(body[i] == hb[i]);
            } else if i > hb.len() {
                assert(body[i] == data[i - hb.len() - 1]);
            }
        }
    }
    assert forall|k: int| 0 <= k < hb.len() implies body[k] != 10 by {
        assert(body[k] == hb[k]);
    }
    lemma_first_byte_at(body, 10, hb.len() as int);
    assert(body.take(hb.len() as int) =~= hb);
    assert(body.skip(hb.len() as int + 1) =~= data);
    let ps = header_pairs(ws_tokens(h))->Ok_0;
    if b64 {
        assert(enc == "base64"@);
        assert("base64"@ != "utf8"@);
    } else {
        assert(enc == "utf8"@);
    }
}

/// What appending a message to the log writes: the record, or why nothing
/// is written. A role without whitespace or NUL always gets a record, and
/// that record reads back as the same role and content.
pub fn encode_message(role: &str, content: &str) -> (r: Result<Vec<u8>, AppendError>)
    ensures
        match encode_message_spec(role@, content@) {
            Ok(bytes) => r matches Ok(v) && v@ == bytes,
            Err(e) => r == Err::<Vec<u8>, AppendError>(e),
        },
        role_ok(role@) ==> (r matches Ok(v) && v@.len() > 0 && v@.last() == 0 && !has_byte(v@.drop_last(), 0)
            && record_outcome(v@.drop_last()) == RecordOutcome::Message(role@, content@)),
{
    let cb = content.as_bytes();
    let has_nul = bytes_contain(cb, 0);
    let mut header = to_owned("type=message role=");
    header.append(role);
    let mut data: Vec<u8> = Vec::new();
    let ghost mut decodes = false;
    if has_nul {
        header.append(" encoding=base64");
        let text = b64_encode(cb);
        append_bytes(&mut data, text.as_str().as_bytes());
        proof {
            assert(data@ == encode_utf8(text@));
            assert(!text@.contains('\0')) by {
                if text@.contains('\0') {
                    let k = choose|k: int| 0 <= k < text@.len() && text@[k] == '\0';
                    assert(is_base64_char(text@[k]));
                }
            }
            lemma_utf8_lacks_byte(text@, '\0', 0);
        }
    } else {
        header.append(" encoding=utf8");
        append_bytes(&mut data, cb);
    }
    proof {
        assert(data@ == payload_spec(content@).1);
        assert(header@ == message_header(role@, has_nul));
        assert(!has_byte(data@, 0));
        if role_ok(role@) {
            reveal_strlit(" encoding=base64");
            reveal_strlit(" encoding=utf8");
            reveal_strlit(" encoding=");
            reveal_strlit("base64");
            reveal_strlit("utf8");
            let enc: Seq<char> = if has_nul {
                "base64"@
            } else {
                "utf8"@
            };
            assert(header@ =~= "type=message role="@ + role@ + " encoding="@ + enc);
            lemma_message_header(role@, enc);
        }
    }
    let hv = str_chars(header.as_str());
    if crate::text::chars_contain(&hv, '\n') || crate::text::chars_contain(&hv, '\0') {
        return Err(AppendError::HeaderNotLine);
    }
    if bytes_contain(data.as_slice(), 0) {
        return Err(AppendError::DataHasNul);
    }
    let mut out: Vec<u8> = Vec::new();
    append_bytes(&mut out, header.as_str().as_bytes());
    out.push(10);
    append_bytes(&mut out, data.as_slice());
    out.push(0);
    proof {
        assert(out@ =~= encode_utf8(header@) + seq![10u8] + data@ + seq![0u8]);
        assert(out@.drop_last() =~= encode_utf8(header@) + seq![10u8] + data@);
        if role_ok(role@) {
            lemma_message_record(role@, content@, has_nul, data@);
        }
    }
    Ok(out)
}

/// Appending a record to a log that ends at a record boundary adds that
/// record's message (if any) after the log's messages; a broken record is
/// the log's error, and a broken log stays broken.
pub proof fn law_log_append(log: Seq<u8>, body: Seq<u8>)
    requires
        log.len() == 0 || log.last() == 0,
        !has_byte(body, 0),
    ensures
        log_messages(log + body.push(0)) == match log_messages(log) {
            Err(e) => Err(e),
            Ok(ms) => match record_outcome(body) {
                RecordOutcome::Skip => Ok(ms),
                RecordOutcome::Message(role, content) => Ok(ms.push((role, content))),
                RecordOutcome::Fault(f) => Err(f),
            },
        },
{
    lemma_split_zero_len(log);
    let p = split_zero(log);
    assert(p.last() == Seq::<u8>::empty()) by {
        if log.len() > 0 {
            assert(log.last() == 0);
        }
    }
    assert forall|i: int| 0 <= i < body.len() implies #[trigger] body[i] != 0 by {
        if body[i] == 0 {
            assert(has_byte(body, 0));
        }
    }
    lemma_split_zero_extend(log, body);
    let full = log + body.push(0);
    assert(full.drop_last() =~= log + body);
    assert(full.last() == 0);
    let q = split_zero(log + body);
    assert(q == p.update(p.len() - 1, p.last() + body));
    assert(p.last() + body =~= body);
    let base = p.drop_last();
    assert(q =~= base.push(body));
    assert(split_zero(full) == q.push(Seq::empty()));
    // the trailing empty piece is skipped
    assert(split_zero(full).drop_last() =~= q);
    assert(q.drop_last() =~= base);
    assert(p =~= base.push(Seq::<u8>::empty()));
    assert(p.drop_last() =~= base);
    assert(record_outcome(Seq::<u8>::empty()) == RecordOutcome::Skip);
    assert(load_outcome(split_zero(full)) == load_outcome(q));
    assert(load_outcome(p) == load_outcome(base));
}

/// How a save brings the log in line with a session of `current` messages
/// when the log holds `existing`.
#[derive(Debug, Clone, Copy, PartialEq, Eq, Structural)]
pub enum SavePlan {
    /// The session was rewound: truncate the log and write every message.
    Rewrite,
    /// Append the messages from this index on.
    AppendFrom(usize),
}

/// The log holds more messages than the session: rewrite it; otherwise
/// append the session's new messages.
pub fn save_plan(existing: usize, current: usize) -> (r: SavePlan)
    ensures
        r == if existing > current {
            SavePlan::Rewrite
        } else {
            SavePlan::AppendFrom(existing)
        },
{
    if existing > current {
        SavePlan::Rewrite
    } else {
        SavePlan::AppendFrom(existing)
    }
}

/// A session's NUL-delimited log: `<base_dir>/<session_id>/session.ndl`.
pub struct NullDelimitedFileSessionManager {
    session_id: String,
    directory: String,
}

impl NullDelimitedFileSessionManager {
    /// The session's id.
    pub closed spec fn id_spec(&self) -> Seq<char> {
        self.session_id@
    }

    /// The base directory.
    pub closed spec fn dir_spec(&self) -> Seq<char> {
        self.directory@
    }

    /// A manager for `session_id` under `base_dir`.
    pub fn new(session_id: &str, base_dir: &str) -> (r: Self)
        ensures
            r.id_spec() == session_id@,
            r.dir_spec() == base_dir@,
    {
        NullDelimitedFileSessionManager { session_id: to_owned(session_id), directory: to_owned(base_dir) }
    }

    /// The session's id.
    pub fn session_id(&self) -> (r: &str)
        ensures
            r@ == self.id_spec(),
    {
        self.session_id.as_str()
    }

    /// The session's directory.
    pub fn session_dir(&self) -> (r: String)
        ensures
            r@ == crate::text::join_path_spec(self.dir_spec(), self.id_spec()),
    {
        crate::text::join_path(self.directory.as_str(), self.session_id.as_str())
    }

    /// The log file: `session.ndl` in the session's directory.
    pub fn log_path(&self) -> (r: String)
        ensures
            r@ == crate::text::join_path_spec(
                crate::text::join_path_spec(self.dir_spec(), self.id_spec()),
                "session.ndl"@,
            ),
    {
        let d = self.session_dir();
        crate::text::join_path(d.as_str(), "session.ndl")
    }
}

} // verus!
