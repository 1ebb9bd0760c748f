//! Rollout logs: append-only, timestamped JSONL (`.jsonlts`). Each line is
//! `<unix_epoch_ms>\0<json>\n`. This module holds the format's rules: the
//! strict timestamp prefix of a line, the line walk that halts at the first
//! corrupt line (with its 1-based line number and byte offset), the
//! monotonic timestamp guard of an append, session-id validation, the
//! per-session index summary and its order, and egress abridging.
use vstd::prelude::*;
use vstd::string::StringSliceAdditionalSpecFns;

use crate::order::lemma_seq_le_transitive;
use crate::text::{
    chars_slice_to_string, lemma_seq_lt_asymmetric, lemma_seq_lt_irreflexive, lemma_seq_lt_total, push_char, seq_le,
    seq_lt, str_chars, str_lt, to_owned,
};

verus! {

broadcast use vstd::seq_lib::group_to_multiset_ensures;

// ------------------------------------------------------------ session ids

/// A lowercase hexadecimal digit.
pub open spec fn is_lower_hex(c: char) -> bool {
    ('0' <= c && c <= '9') || ('a' <= c && c <= 'f')
}

/// The positions of the four hyphens of a UUID.
pub open spec fn is_hyphen_slot(i: int) -> bool {
    i == 8 || i == 13 || i == 18 || i == 23
}

/// A lowercase UUID v7:
/// `^[0-9a-f]{8}-[0-9a-f]{4}-7[0-9a-f]{3}-[89ab][0-9a-f]{3}-[0-9a-f]{12}$`.
pub open spec fn session_id_spec(s: Seq<char>) -> bool {
    &&& s.len() == 36
    &&& forall|i: int|
        0 <= i < 36 ==> if is_hyphen_slot(i) {
            #[trigger] s[i] == '-'
        } else {
            is_lower_hex(s[i])
        }
    &&& s[14] == '7'
    &&& (s[19] == '8' || s[19] == '9' || s[19] == 'a' || s[19] == 'b')
}

/// Is `s` a well-formed session id: a lowercase UUID v7. Every entry point
/// for session ids must pass through this check.
pub fn is_session_id(s: &str) -> (r: bool)
    ensures
        r == session_id_spec(s@),
{
    let v = str_chars(s);
    if v.len() != 36 {
        return false;
    }
    let mut i: usize = 0;
    while i < 36
        invariant
            v@ == s@,
            v@.len() == 36,
            0 <= i <= 36,
            forall|k: int|
                0 <= k < i ==> if is_hyphen_slot(k) {
                    #[trigger] v@[k] == '-'
                } else {
                    is_lower_hex(v@[k])
                },
        decreases 36 - i,
    {
        let c = v[i];
        if i == 8 || i == 13 || i == 18 || i == 23 {
            if c != '-' {
                return false;
            }
        } else if !(('0' <= c && c <= '9') || ('a' <= c && c <= 'f')) {
            return false;
        }
        i += 1;
    }
    v[14] == '7' && (v[19] == '8' || v[19] == '9' || v[19] == 'a' || v[19] == 'b')
}

// ------------------------------------------------------------ line format

/// Why a line's timestamp prefix is invalid.
#[derive(Debug, Clone, Copy, PartialEq, Eq, Structural)]
pub enum LineError {
    /// The line is empty.
    Empty,
    /// The line does not start with a run of ASCII digits ended by a NUL.
    NotDigit,
    /// The digit run reaches the end of the line: there is no NUL.
    MissingNul,
    /// The timestamp does not fit in 64 bits.
    Overflow,
}

impl LineError {
    /// A short description of the error.
    pub fn message(self) -> (r: &'static str)
        ensures
            r@ == match self {
                LineError::Empty => "empty line"@,
                LineError::NotDigit => "line does not start with a digit timestamp"@,
                LineError::MissingNul => "timestamp is not followed by a NUL"@,
                LineError::Overflow => "timestamp overflows 64 bits"@,
            },
    {
        match self {
            LineError::Empty => "empty line",
            LineError::NotDigit => "line does not start with a digit timestamp",
            LineError::MissingNul => "timestamp is not followed by a NUL",
            LineError::Overflow => "timestamp overflows 64 bits",
        }
    }
}

/// An ASCII digit.
pub open spec fn is_digit(c: char) -> bool {
    '0' <= c && c <= '9'
}

/// The end of the digit run of `s` that starts at `i`.
pub open spec fn digits_end(s: Seq<char>, i: int) -> int
    decreases s.len() - i,
{
    if i < 0 || i >= s.len() || !is_digit(s[i]) {
        i
    } else {
        digits_end(s, i + 1)
    }
}

/// The value of a run of ASCII digits.
pub open spec fn digits_value(s: Seq<char>) -> nat
    decreases s.len(),
{
    if s.len() == 0 {
        0
    } else {
        digits_value(s.drop_last()) * 10 + ((s.last() as int - '0' as int) as nat)
    }
}

/// The timestamp of a line, or why it has none: a non-empty run of ASCII
/// digits, then a NUL, with a value that fits in 64 bits.
pub open spec fn ts_prefix_spec(line: Seq<char>) -> Result<u64, LineError> {
    let k = digits_end(line, 0);
    if line.len() == 0 {
        Err(LineError::Empty)
    } else if k == 0 {
        Err(LineError::NotDigit)
    } else if k == line.len() {
        Err(LineError::MissingNul)
    } else if line[k] != '\0' {
        Err(LineError::NotDigit)
    } else if digits_value(line.take(k)) > u64::MAX {
        Err(LineError::Overflow)
    } else {
        Ok(digits_value(line.take(k)) as u64)
    }
}

/// The JSON part of a line with a valid prefix: everything after the NUL.
pub open spec fn record_json_spec(line: Seq<char>) -> Seq<char> {
    line.skip(digits_end(line, 0) + 1)
}

proof fn lemma_digits_end_step(s: Seq<char>, i: int)
    requires
        0 <= i < s.len(),
        is_digit(s[i]),
    ensures
        digits_end(s, i) == digits_end(s, i + 1),
{
}

proof fn lemma_digits_end_bounds(s: Seq<char>, i: int)
    requires
        0 <= i <= s.len(),
    ensures
        i <= digits_end(s, i) <= s.len(),
        forall|j: int| i <= j < digits_end(s, i) ==> is_digit(#[trigger] s[j]),
        digits_end(s, i) < s.len() ==> !is_digit(s[digits_end(s, i)]),
    decreases s.len() - i,
{
    if i < s.len() && is_digit(s[i]) {
        lemma_digits_end_bounds(s, i + 1);
    }
}

/// The length of the digit run that starts a character vector.
fn digits_len(v: &Vec<char>) -> (k: usize)
    ensures
        k == digits_end(v@, 0),
{
    let mut i: usize = 0;
    while i < v.len() && '0' <= v[i] && v[i] <= '9'
        invariant
            0 <= i <= v@.len(),
            digits_end(v@, i as int) == digits_end(v@, 0),
        decreases v.len() - i,
    {
        proof {
            lemma_digits_end_step(v@, i as int);
        }
        i += 1;
    }
    i
}

/// Validate the strict `<digits>\0` prefix of a line and return its
/// timestamp.
pub fn ts_prefix(line: &str) -> (r: Result<u64, LineError>)
    ensures
        r == ts_prefix_spec(line@),
{
    let v = str_chars(line);
    if v.len() == 0 {
        return Err(LineError::Empty);
    }
    let mut i: usize = 0;
    let mut value: u64 = 0;
    let mut overflow = false;
    while i < v.len() && '0' <= v[i] && v[i] <= '9'
        invariant
            v@ == line@,
            0 <= i <= v@.len(),
            digits_end(v@, i as int) == digits_end(v@, 0),
            overflow == (digits_value(v@.take(i as int)) > u64::MAX),
            !overflow ==> value == digits_value(v@.take(i as int)),
        decreases v.len() - i,
    {
        let d = (v[i] as u32 - '0' as u32) as u64;
        proof {
            lemma_digits_end_step(v@, i as int);
            assert(v@.take(i + 1).drop_last() =~= v@.take(i as int));
            assert(v@.take(i + 1).last() == v@[i as int]);
            assert(digits_value(v@.take(i + 1)) == digits_value(v@.take(i as int)) * 10 + d);
        }
        if !overflow {
            if value > (u64::MAX - d) / 10 {
                overflow = true;
                proof {
                    assert(value * 10 + d > u64::MAX) by (nonlinear_arith)
                        requires
                            value > (u64::MAX - d) / 10,
                            d <= 9,
                    ;
                }
            } else {
                proof {
                    assert(value * 10 + d <= u64::MAX) by (nonlinear_arith)
                        requires
                            value <= (u64::MAX - d) / 10,
                            d <= 9,
                    ;
                }
                value = value * 10 + d;
            }
        } else {
            proof {
                assert(digits_value(v@.take(i as int)) * 10 + d > u64::MAX) by (nonlinear_arith)
                    requires
                        digits_value(v@.take(i as int)) > u64::MAX,
                ;
            }
        }
        i += 1;
    }
    proof {
        lemma_digits_end_bounds(v@, i as int);
        if i < v@.len() {
            assert(!is_digit(v@[i as int]));
        }
        assert(digits_end(v@, i as int) == i);
    }
    if i == 0 {
        return Err(LineError::NotDigit);
    }
    if i == v.len() {
        return Err(LineError::MissingNul);
    }
    if v[i] != '\0' {
        return Err(LineError::NotDigit);
    }
    if overflow {
        return Err(LineError::Overflow);
    }
    Ok(value)
}

/// A raw line without its line ending: one trailing `\n`, then one
/// trailing `\r`, removed.
pub open spec fn strip_eol(raw: Seq<char>) -> Seq<char> {
    let a = if raw.len() > 0 && raw.last() == '\n' {
        raw.drop_last()
    } else {
        raw
    };
    if a.len() > 0 && a.last() == '\r' {
        a.drop_last()
    } else {
        a
    }
}

/// A rollout is corrupt: the line at `line_no` (1-based) starting at
/// `byte_offset` failed the strict prefix validation.
#[derive(Debug, Clone, Copy, PartialEq, Eq, Structural)]
pub struct RolloutCorrupted {
    pub line_no: u64,
    pub byte_offset: u64,
    pub kind: LineError,
}

/// The walk over a rollout's lines, in file order: it counts lines and the
/// bytes of the accepted ones, and halts at the first line whose prefix is
/// invalid. The reader hands it each raw line as read (with its `\n`; the
/// final line may lack one).
pub struct LineWalker {
    line_no: u64,
    byte_offset: u64,
    halted: bool,
}

impl LineWalker {
    /// Lines seen so far.
    pub closed spec fn line_no_spec(&self) -> u64 {
        self.line_no
    }

    /// Bytes of the lines accepted so far: the offset of the next line.
    pub closed spec fn byte_offset_spec(&self) -> u64 {
        self.byte_offset
    }

    /// A corrupt line was met; the walk is over.
    pub closed spec fn halted_spec(&self) -> bool {
        self.halted
    }

    /// A walk at the start of a file.
    pub fn new() -> (r: Self)
        ensures
            r.line_no_spec() == 0,
            r.byte_offset_spec() == 0,
            !r.halted_spec(),
    {
        LineWalker { line_no: 0, byte_offset: 0, halted: false }
    }

    /// Lines seen so far.
    pub fn line_no(&self) -> (r: u64)
        ensures
            r == self.line_no_spec(),
    {
        self.line_no
    }

    /// The offset of the next line.
    pub fn byte_offset(&self) -> (r: u64)
        ensures
            r == self.byte_offset_spec(),
    {
        self.byte_offset
    }

    /// Whether a corrupt line halted the walk.
    pub fn is_halted(&self) -> (r: bool)
        ensures
            r == self.halted_spec(),
    {
        self.halted
    }

    /// Take the next raw line: its timestamp and JSON when the prefix is
    /// valid, else the corruption with this line's number and start offset
    /// (and the walk halts).
    pub fn step(&mut self, raw: &str) -> (r: Result<(u64, String), RolloutCorrupted>)
        requires
            !old(self).halted_spec(),
            old(self).line_no_spec() < u64::MAX,
            old(self).byte_offset_spec() + raw.spec_bytes().len() <= u64::MAX,
            raw.spec_bytes().len() <= usize::MAX,
        ensures
            final(self).line_no_spec() == old(self).line_no_spec() + 1,
            match ts_prefix_spec(strip_eol(raw@)) {
                Ok(ts) => r is Ok && r->Ok_0.0 == ts && r->Ok_0.1@ == record_json_spec(strip_eol(raw@))
                    && final(self).byte_offset_spec() == old(self).byte_offset_spec()
                    + raw.spec_bytes().len() && !final(self).halted_spec(),
                Err(kind) => r == Err::<(u64, String), RolloutCorrupted>(
                    RolloutCorrupted {
                        line_no: (old(self).line_no_spec() + 1) as u64,
                        byte_offset: old(self).byte_offset_spec(),
                        kind,
                    },
                ) && final(self).byte_offset_spec() == old(self).byte_offset_spec()
                    && final(self).halted_spec(),
            },
    {
        self.line_no = self.line_no + 1;
        let v = str_chars(raw);
        let mut end = v.len();
        if end > 0 && v[end - 1] == '\n' {
            end = end - 1;
        }
        if end > 0 && v[end - 1] == '\r' {
            end = end - 1;
        }
        let line = chars_slice_to_string(&v, 0, end);
        proof {
            assert(line@ =~= strip_eol(raw@));
        }
        match ts_prefix(line.as_str()) {
            Ok(ts) => {
                let lv = str_chars(line.as_str());
                let k = digits_len(&lv);
                proof {
                    lemma_digits_end_bounds(lv@, 0);
                }
                let json = chars_slice_to_string(&lv, k + 1, lv.len());
                proof {
                    assert(json@ =~= record_json_spec(line@));
                }
                self.byte_offset = self.byte_offset + raw.len() as u64;
                Ok((ts, json))
            },
            Err(kind) => {
                self.halted = true;
                Err(RolloutCorrupted { line_no: self.line_no, byte_offset: self.byte_offset, kind })
            },
        }
    }
}

// ------------------------------------------------------------ appending

/// The timestamp an append stamps: the wall clock, unless it is not ahead
/// What a scan of a rollout's records has seen: the timestamp bound it
/// filters by, the last record's timestamp (0 before any) and the number
/// of records.
pub struct RecordTally {
    pub after_ts: u64,
    pub last_ts: u64,
    pub count: u64,
}

impl RecordTally {
    /// A scan that hands on the records stamped after `after_ts`.
    pub fn new(after_ts: u64) -> (r: RecordTally)
        ensures
            r.after_ts == after_ts,
            r.last_ts == 0,
            r.count == 0,
    {
        RecordTally { after_ts, last_ts: 0, count: 0 }
    }

    /// Account for the next record, stamped `ts`: it is the last one seen
    /// and one more is counted; the answer says whether the scan hands it
    /// on (stamped strictly after the bound).
    pub fn record(&mut self, ts: u64) -> (r: bool)
        requires
            old(self).count < u64::MAX,
        ensures
            final(self).after_ts == old(self).after_ts,
            final(self).last_ts == ts,
            final(self).count == old(self).count + 1,
            r == (ts > old(self).after_ts),
    {
        self.last_ts = ts;
        self.count = self.count + 1;
        ts > self.after_ts
    }
}

/// of the last written timestamp, in which case `last + 1`.
pub fn next_ts(now: u64, last: u64) -> (r: u64)
    requires
        now > last || last < u64::MAX,
    ensures
        r == if now <= last {
            last + 1
        } else {
            now as int
        },
        r > last,
        r >= now,
{
    if now <= last {
        last + 1
    } else {
        now
    }
}

/// The file name of a session's rollout: `<session_id>.jsonlts`.
pub fn rollout_file_name(session_id: &str) -> (r: String)
    ensures
        r@ == session_id@ + ".jsonlts"@,
{
    let mut s = to_owned(session_id);
    s.append(".jsonlts");
    s
}

/// The session id a directory entry stands for: the stem of a
/// `<uuid>.jsonlts` file name whose stem is a session id.
pub open spec fn session_file_spec(file_name: Seq<char>) -> Option<Seq<char>> {
    let n = file_name.len();
    if n >= 8 && file_name.skip(n - 8) == ".jsonlts"@ && session_id_spec(file_name.take(n - 8)) {
        Some(file_name.take(n - 8))
    } else {
        None
    }
}

/// Which directory entries the sessions index reads: `<uuid>.jsonlts`
/// files whose stem is a session id; anything else is ignored.
pub fn session_file_uuid(file_name: &str) -> (r: Option<String>)
    ensures
        match r {
            Some(u) => session_file_spec(file_name@) == Some(u@),
            None => session_file_spec(file_name@) is None,
        },
{
    let v = str_chars(file_name);
    let n = v.len();
    if n < 8 {
        return None;
    }
    let suffix = chars_slice_to_string(&v, n - 8, n);
    let stem = chars_slice_to_string(&v, 0, n - 8);
    proof {
        reveal_strlit(".jsonlts");
        assert(suffix@ =~= file_name@.skip(n - 8));
        assert(stem@ =~= file_name@.take(n - 8));
    }
    if !crate::text::str_eq(suffix.as_str(), ".jsonlts") {
        return None;
    }
    if !is_session_id(stem.as_str()) {
        return None;
    }
    Some(stem)
}

/// The default directory for rollout files, relative to the current
/// directory.
pub fn default_dir() -> (r: String)
    ensures
        r@ == ".axonerai/sessions"@,
{
    to_owned(".axonerai/sessions")
}

/// A rollout file.
#[derive(Debug, Clone)]
pub struct Rollout {
    path: String,
}

impl Rollout {
    /// The file's path.
    pub closed spec fn path_spec(&self) -> Seq<char> {
        self.path@
    }

    /// The rollout at `path`.
    pub fn at(path: &str) -> (r: Rollout)
        ensures
            r.path_spec() == path@,
    {
        Rollout { path: to_owned(path) }
    }

    /// Full path of the rollout file.
    pub fn path(&self) -> (r: &str)
        ensures
            r@ == self.path_spec(),
    {
        self.path.as_str()
    }
}

// ------------------------------------------------------------ index

/// The string value of `key` in a JSON object text (named result of
/// `serde_json::from_str::<serde_json::Value>` and then `Value::get`):
/// `None` when the text is not JSON, `Some(None)` when the key is absent or
/// its value is not a string (or the value is not an object).
pub uninterp spec fn json_string_field(json: Seq<char>, key: Seq<char>) -> Option<Option<Seq<char>>>;

/// The `_type` and `title` fields of a record, when they are strings.
#[derive(Debug)]
pub struct RecordFields {
    pub record_type: Option<String>,
    pub title: Option<String>,
}

/// A field as characters.
pub open spec fn opt_chars(o: Option<String>) -> Option<Seq<char>> {
    match o {
        Some(s) => Some(s@),
        None => None,
    }
}

/// `serde_json::from_str::<serde_json::Value>`, then `get(key)`: the
/// string at that key. `None` exactly when serde_json refuses the text (the
/// same test `json_parses` names); what a given text holds at a key is
/// named, not stated.
#[verifier::external_body]
pub(crate) fn json_str_field(json: &str, key: &str) -> (r: Option<Option<String>>)
    ensures
        match r {
            None => json_string_field(json@, key@) is None,
            Some(v) => json_string_field(json@, key@) == Some(opt_chars(v)),
        },
        r is None <==> !crate::provider::json_parses(json@),
{
    match serde_json::from_str::<serde_json::Value>(json) {
        Ok(v) => match v.get(key) {
            Some(serde_json::Value::String(s)) => Some(Some(s.clone())),
            _ => Some(None),
        },
        Err(_) => None,
    }
}

/// The `_type` and `title` strings of a record's JSON; `None` when the
/// text is not JSON.
pub open spec fn record_type_title(json: Seq<char>) -> Option<(Option<Seq<char>>, Option<Seq<char>>)> {
    match (json_string_field(json, "_type"@), json_string_field(json, "title"@)) {
        (Some(t), Some(n)) => Some((t, n)),
        _ => None,
    }
}

/// Read a record's `_type` and `title` string fields; `None` when the text
/// is not JSON.
pub fn parse_record_fields(json: &str) -> (r: Option<RecordFields>)
    ensures
        match r {
            None => record_type_title(json@) is None,
            Some(f) => record_type_title(json@) == Some((opt_chars(f.record_type), opt_chars(f.title))),
        },
{
    match json_str_field(json, "_type") {
        None => None,
        Some(record_type) => match json_str_field(json, "title") {
            Some(title) => Some(RecordFields { record_type, title }),
            None => None,
        },
    }
}

/// A summary row for one rollout file.
#[derive(Debug, Clone)]
pub struct SessionInfo {
    pub uuid: String,
    pub title: String,
    pub updated: u64,
    pub size: u64,
}

/// One streaming pass over a session's records: the greatest timestamp,
/// the title of the last `session_rename` record that has one, and the
/// title of the first `session_meta` record that has one.
pub struct SessionScan {
    pub updated: u64,
    pub rename_title: Option<String>,
    pub meta_title: Option<String>,
}

impl SessionScan {
    /// Nothing seen yet.
    pub fn new() -> (r: Self)
        ensures
            r.updated == 0,
            r.rename_title is None,
            r.meta_title is None,
    {
        SessionScan { updated: 0, rename_title: None, meta_title: None }
    }

    /// Account for one record: its timestamp and its parsed fields (`None`
    /// when the record is not JSON).
    pub fn observe(&mut self, ts: u64, fields: Option<RecordFields>)
        ensures
            final(self).updated == if ts > old(self).updated {
                ts
            } else {
                old(self).updated
            },
            final(self).rename_title == if fields is Some && fields.unwrap().record_type is Some
                && fields.unwrap().record_type.unwrap()@ == "session_rename"@ && fields.unwrap().title is Some {
                fields.unwrap().title
            } else {
                old(self).rename_title
            },
            final(self).meta_title == if fields is Some && fields.unwrap().record_type is Some
                && fields.unwrap().record_type.unwrap()@ == "session_meta"@ && old(self).meta_title is None {
                fields.unwrap().title
            } else {
                old(self).meta_title
            },
    {
        proof {
            let sr: Seq<char> = "session_rename"@;
            let sm: Seq<char> = "session_meta"@;
            reveal_strlit("session_rename");
            reveal_strlit("session_meta");
            assert(sr != sm) by {
                assert(sr.len() != sm.len());
            }
        }
        if ts > self.updated {
            self.updated = ts;
        }
        if let Some(f) = fields {
            if let Some(t) = f.record_type {
                if crate::text::str_eq(t.as_str(), "session_rename") {
                    if f.title.is_some() {
                        self.rename_title = f.title;
                    }
                } else if crate::text::str_eq(t.as_str(), "session_meta") {
                    if self.meta_title.is_none() {
                        self.meta_title = f.title;
                    }
                }
            }
        }
    }

    /// Account for one record given as its timestamp and JSON text.
    pub fn observe_json(&mut self, ts: u64, json: &str)
        ensures
            final(self).updated == if ts > old(self).updated {
                ts
            } else {
                old(self).updated
            },
            opt_chars(final(self).rename_title) == if record_type_title(json@) is Some && record_type_title(
                json@,
            ).unwrap().0 == Some("session_rename"@) && record_type_title(json@).unwrap().1 is Some {
                record_type_title(json@).unwrap().1
            } else {
                opt_chars(old(self).rename_title)
            },
            opt_chars(final(self).meta_title) == if record_type_title(json@) is Some && record_type_title(
                json@,
            ).unwrap().0 == Some("session_meta"@) && old(self).meta_title is None {
                record_type_title(json@).unwrap().1
            } else {
                opt_chars(old(self).meta_title)
            },
    {
        let fields = parse_record_fields(json);
        self.observe(ts, fields);
    }

    /// The index title: the last rename's title, else the first meta
    /// title, else `fallback`.
    pub fn index_title(&self, fallback: &str) -> (r: String)
        ensures
            r@ == match self.rename_title {
                Some(t) => t@,
                None => match self.meta_title {
                    Some(t) => t@,
                    None => fallback@,
                },
            },
    {
        match &self.rename_title {
            Some(t) => t.clone(),
            None => match &self.meta_title {
                Some(t) => t.clone(),
                None => to_owned(fallback),
            },
        }
    }

    /// The rollout title: the first meta title, else `fallback`.
    pub fn meta_title_or(&self, fallback: &str) -> (r: String)
        ensures
            r@ == match self.meta_title {
                Some(t) => t@,
                None => fallback@,
            },
    {
        match &self.meta_title {
            Some(t) => t.clone(),
            None => to_owned(fallback),
        }
    }

    /// The index row of a session scanned this way.
    pub fn finish(&self, uuid: &str, size: u64) -> (r: SessionInfo)
        ensures
            r.uuid@ == uuid@,
            r.updated == self.updated,
            r.size == size,
            r.title@ == match self.rename_title {
                Some(t) => t@,
                None => match self.meta_title {
                    Some(t) => t@,
                    None => uuid@,
                },
            },
    {
        SessionInfo { uuid: to_owned(uuid), title: self.index_title(uuid), updated: self.updated, size }
    }
}

/// `a` comes no later than `b` in the index: newer first, ties by uuid.
pub open spec fn index_le(a: SessionInfo, b: SessionInfo) -> bool {
    a.updated > b.updated || (a.updated == b.updated && seq_le(a.uuid@, b.uuid@))
}

/// `a` comes strictly before `b` in the index.
pub open spec fn index_lt(a: SessionInfo, b: SessionInfo) -> bool {
    a.updated > b.updated || (a.updated == b.updated && seq_lt(a.uuid@, b.uuid@))
}

/// The index order: `updated` descending, then `uuid` ascending.
pub open spec fn index_sorted(s: Seq<SessionInfo>) -> bool {
    forall|i: int, j: int| 0 <= i < j < s.len() ==> index_le(#[trigger] s[i], #[trigger] s[j])
}

proof fn lemma_index_le_transitive(a: SessionInfo, b: SessionInfo, c: SessionInfo)
    requires
        index_le(a, b),
        index_le(b, c),
    ensures
        index_le(a, c),
{
    if a.updated == b.updated && b.updated == c.updated {
        lemma_seq_le_transitive(a.uuid@, b.uuid@, c.uuid@);
    }
}

proof fn lemma_index_total(a: SessionInfo, b: SessionInfo)
    ensures
        index_lt(a, b) || index_le(b, a),
        index_lt(a, b) ==> !index_le(b, a),
        index_lt(a, b) ==> index_le(a, b),
{
    lemma_seq_lt_total(a.uuid@, b.uuid@);
    lemma_seq_lt_asymmetric(a.uuid@, b.uuid@);
    lemma_seq_lt_irreflexive(a.uuid@);
}

fn index_before(a: &SessionInfo, b: &SessionInfo) -> (r: bool)
    ensures
        r == index_lt(*a, *b),
{
    a.updated > b.updated || (a.updated == b.updated && str_lt(a.uuid.as_str(), b.uuid.as_str()))
}

fn insert_indexed(out: &mut Vec<SessionInfo>, x: SessionInfo)
    requires
        index_sorted(old(out)@),
    ensures
        index_sorted(final(out)@),
        final(out)@.to_multiset() == old(out)@.to_multiset().insert(x),
{
    let mut p: usize = 0;
    while p < out.len() && !index_before(&x, &out[p])
        invariant
            0 <= p <= out@.len(),
            forall|k: int| 0 <= k < p ==> index_le(#[trigger] out@[k], x),
        decreases out.len() - p,
    {
        proof {
            lemma_index_total(x, out@[p as int]);
        }
        p += 1;
    }
    let ghost s0 = out@;
    out.insert(p, x);
    proof {
        let s = out@;
        assert(s == s0.insert(p as int, x));
        if p < s0.len() {
            lemma_index_total(x, s0[p as int]);
        }
        assert forall|i: int, j: int| 0 <= i < j < s.len() implies index_le(#[trigger] s[i], #[trigger] s[j]) by {
            if j < p {
                assert(s[i] == s0[i] && s[j] == s0[j]);
            } else if j == p {
                assert(s[i] == s0[i]);
            } else if i > p {
                assert(s[i] == s0[i - 1] && s[j] == s0[j - 1]);
            } else if i == p {
                assert(s[j] == s0[j - 1]);
                if j - 1 > p {
                    assert(index_le(s0[p as int], s0[j - 1]));
                    lemma_index_le_transitive(x, s0[p as int], s0[j - 1]);
                }
            } else {
                assert(s[i] == s0[i] && s[j] == s0[j - 1]);
                if j - 1 > p {
                    assert(index_le(s0[p as int], s0[j - 1]));
                    lemma_index_le_transitive(x, s0[p as int], s0[j - 1]);
                }
                lemma_index_le_transitive(s0[i], x, s0[j - 1]);
            }
        }
    }
}

/// Order index rows newest first, ties by uuid ascending.
pub fn sort_sessions(v: Vec<SessionInfo>) -> (r: Vec<SessionInfo>)
    ensures
        index_sorted(r@),
        r@.to_multiset() == v@.to_multiset(),
{
    let mut rest = v;
    let ghost orig = rest@;
    let mut out: Vec<SessionInfo> = Vec::new();
    while rest.len() > 0
        invariant
            index_sorted(out@),
            out@.to_multiset().add(rest@.to_multiset()) == orig.to_multiset(),
        decreases rest.len(),
    {
        let ghost before = rest@;
        let x = rest.remove(0);
        proof {
            assert(before.remove(0).to_multiset() == before.to_multiset().remove(before[0]));
            assert(before.to_multiset().contains(before[0]));
        }
        insert_indexed(&mut out, x);
        proof {
            assert(out@.to_multiset().add(rest@.to_multiset()) =~= orig.to_multiset());
        }
    }
    proof {
        assert(rest@.to_multiset() =~= vstd::multiset::Multiset::empty());
        assert(out@.to_multiset().add(rest@.to_multiset()) =~= out@.to_multiset());
    }
    out
}

// ------------------------------------------------------------ egress

/// What `abridge` returns: the text itself when it has at most `max_chars`
/// characters, else its first `max_chars - 1` characters (none when
/// `max_chars` is 0) and `…`.
pub open spec fn abridge_spec(text: Seq<char>, max_chars: nat) -> Seq<char> {
    if text.len() <= max_chars {
        text
    } else if max_chars == 0 {
        Seq::empty()
    } else {
        text.take(max_chars - 1).push('…')
    }
}

/// Truncate `text` to at most `max_chars` characters for egress. Short
/// input is returned as-is; longer input is cut to `max_chars - 1`
/// characters and a single `…` is appended (with no room at all, nothing
/// is kept). Truncation is by character, so a `\0` (or any multi-byte
/// character) is never split.
pub fn abridge(text: &str, max_chars: usize) -> (r: String)
    ensures
        r@ == abridge_spec(text@, max_chars as nat),
{
    let v = str_chars(text);
    if v.len() <= max_chars {
        return to_owned(text);
    }
    if max_chars == 0 {
        return String::new();
    }
    let mut out = chars_slice_to_string(&v, 0, max_chars - 1);
    push_char(&mut out, '…');
    proof {
        assert(out@ =~= abridge_spec(text@, max_chars as nat));
    }
    out
}

/// An abridged text never has more than `max_chars` characters, a short
/// text comes back unchanged, and a cut text keeps the first
/// `max_chars - 1` characters.
pub proof fn law_abridge_bounded(text: Seq<char>, max_chars: nat)
    ensures
        abridge_spec(text, max_chars).len() <= max_chars,
        text.len() <= max_chars ==> abridge_spec(text, max_chars) == text,
        text.len() > max_chars && max_chars >= 1 ==> abridge_spec(text, max_chars).take(max_chars - 1)
            == text.take(max_chars - 1),
{
    if text.len() > max_chars && max_chars >= 1 {
        assert(abridge_spec(text, max_chars).take(max_chars - 1) =~= text.take(max_chars - 1));
    }
}

} // verus!
