//! Flat-file session records: `Header\nData\0` repeated in
//! `<base_dir>/<session_id>/session.dat`. Reading stops at the first
//! record without a header line or without its closing NUL (an incomplete
//! last record). User and assistant messages are stored under the headers
//! `UserMessage` and `AssistantMessage`.
use vstd::prelude::*;
use vstd::string::StringSliceAdditionalSpecFns;
use vstd::utf8::{decode_utf8, encode_utf8, valid_utf8};

use crate::null_delimited_file_session_manager::{first_byte, has_byte};
use crate::text::{join_path, join_path_spec, lossy_string, str_eq, to_owned, utf8_lossy};

verus! {

/// One record: its header line and its data bytes.
#[derive(Debug, Clone)]
pub struct Record {
    pub header: String,
    pub data: Vec<u8>,
}

/// The records of a buffer, as (header bytes, data bytes), in order, up to
/// the first incomplete one.
pub open spec fn flat_records(b: Seq<u8>) -> Seq<(Seq<u8>, Seq<u8>)>
    decreases b.len(),
{
    if b.len() == 0 {
        Seq::empty()
    } else {
        match first_byte(b, 10, 0) {
            None => Seq::empty(),
            Some(nl) => match first_byte(b, 0, nl + 1) {
                None => Seq::empty(),
                Some(z) => {
                    proof {
                        lemma_first_byte_bounds(b, 0, nl + 1);
                        lemma_first_byte_bounds(b, 10, 0);
                    }
                    seq![(b.take(nl), b.subrange(nl + 1, z))] + flat_records(b.skip(z + 1))
                },
            },
        }
    }
}

pub proof fn lemma_first_byte_bounds(b: Seq<u8>, c: u8, from: int)
    requires
        0 <= from,
    ensures
        match first_byte(b, c, from) {
            Some(i) => from <= i < b.len() && b[i] == c && forall|k: int| from <= k < i ==> b[k] != c,
            None => forall|k: int| from <= k < b.len() ==> b[k] != c,
        },
    decreases b.len() - from,
{
    if from < b.len() && b[from] != c {
        lemma_first_byte_bounds(b, c, from + 1);
    }
}

fn find_byte(b: &[u8], c: u8, from: usize) -> (r: Option<usize>)
    requires
        from <= b@.len(),
    ensures
        match r {
            Some(i) => first_byte(b@, c, from as int) == Some(i as int),
            None => first_byte(b@, c, from as int) is None,
        },
{
    let mut i = from;
    while i < b.len()
        invariant
            from <= i <= b@.len(),
            first_byte(b@, c, from as int) == first_byte(b@, c, i as int),
        decreases b.len() - i,
    {
        if b[i] == c {
            return Some(i);
        }
        i += 1;
    }
    None
}

fn copy_range(b: &[u8], lo: usize, hi: usize) -> (r: Vec<u8>)
    requires
        lo <= hi <= b@.len(),
    ensures
        r@ == b@.subrange(lo as int, hi as int),
{
    let mut out: Vec<u8> = Vec::new();
    let mut i = lo;
    while i < hi
        invariant
            lo <= i <= hi <= b@.len(),
            out@ == b@.subrange(lo as int, i as int),
        decreases hi - i,
    {
        out.push(b[i]);
        i += 1;
        assert(out@ =~= b@.subrange(lo as int, i as int));
    }
    out
}

proof fn lemma_first_byte_shift(b: Seq<u8>, c: u8, i: int, k: int)
    requires
        0 <= i <= b.len(),
        0 <= k,
    ensures
        first_byte(b.skip(i), c, k) == match first_byte(b, c, i + k) {
            Some(x) => Some(x - i),
            None => None,
        },
    decreases b.len() - (i + k),
{
    if i + k < b.len() {
        assert(b.skip(i)[k] == b[i + k]);
        if b[i + k] != c {
            lemma_first_byte_shift(b, c, i, k + 1);
        }
    }
}

/// Read the records of a buffer: header (as lossy UTF-8, which is its
/// decoding when the header bytes are valid UTF-8) and data, in order, up
/// to the first incomplete record.
pub fn parse_records(buffer: &[u8]) -> (r: Vec<Record>)
    ensures
        r@.len() == flat_records(buffer@).len(),
        forall|k: int|
            0 <= k < r@.len() ==> (#[trigger] r@[k]).header@ == utf8_lossy(flat_records(buffer@)[k].0)
                && r@[k].data@ == flat_records(buffer@)[k].1 && (valid_utf8(flat_records(buffer@)[k].0)
                ==> r@[k].header@ == decode_utf8(flat_records(buffer@)[k].0)),
{
    let mut records: Vec<Record> = Vec::new();
    let mut i: usize = 0;
    let len = buffer.len();
    let ghost mut seen: Seq<(Seq<u8>, Seq<u8>)> = Seq::empty();
    proof {
        assert(buffer@.skip(0) =~= buffer@);
        assert(seen + flat_records(buffer@.skip(0)) =~= flat_records(buffer@));
    }
    loop
        invariant
            len == buffer@.len(),
            0 <= i <= len,
            flat_records(buffer@) == seen + flat_records(buffer@.skip(i as int)),
            records@.len() == seen.len(),
            forall|k: int|
                0 <= k < records@.len() ==> (#[trigger] records@[k]).header@ == utf8_lossy(seen[k].0)
                    && records@[k].data@ == seen[k].1 && (valid_utf8(seen[k].0) ==> records@[k].header@
                    == decode_utf8(seen[k].0)),
        ensures
            flat_records(buffer@) == seen,
            records@.len() == seen.len(),
            forall|k: int|
                0 <= k < records@.len() ==> (#[trigger] records@[k]).header@ == utf8_lossy(seen[k].0)
                    && records@[k].data@ == seen[k].1 && (valid_utf8(seen[k].0) ==> records@[k].header@
                    == decode_utf8(seen[k].0)),
        decreases len - i,
    {
        let ghost rest = buffer@.skip(i as int);
        if i >= len {
            proof {
                assert(rest =~= Seq::<u8>::empty());
                assert(seen + flat_records(rest) =~= seen);
            }
            break;
        }
        proof {
            lemma_first_byte_shift(buffer@, 10, i as int, 0);
        }
        let nl = match find_byte(buffer, 10, i) {
            Some(nl) => nl,
            None => {
                proof {
                    assert(flat_records(rest) =~= Seq::<(Seq<u8>, Seq<u8>)>::empty());
                    assert(seen + flat_records(rest) =~= seen);
                }
                break;
            },
        };
        proof {
            lemma_first_byte_bounds(buffer@, 10, i as int);
            lemma_first_byte_shift(buffer@, 0, i as int, nl - i + 1);
        }
        let z = match find_byte(buffer, 0, nl + 1) {
            Some(z) => z,
            None => {
                proof {
                    assert(flat_records(rest) =~= Seq::<(Seq<u8>, Seq<u8>)>::empty());
                    assert(seen + flat_records(rest) =~= seen);
                }
                break;
            },
        };
        proof {
            lemma_first_byte_bounds(buffer@, 0, nl + 1);
        }
        let header_bytes = copy_range(buffer, i, nl);
        let data = copy_range(buffer, nl + 1, z);
        let header = lossy_string(header_bytes.as_slice());
        records.push(Record { header, data });
        proof {
            assert(rest.take(nl - i) =~= header_bytes@);
            assert(rest.subrange(nl - i + 1, z - i) =~= data@);
            assert(rest.skip(z - i + 1) =~= buffer@.skip(z + 1));
            assert(flat_records(rest) == seq![(header_bytes@, data@)] + flat_records(buffer@.skip(z + 1)));
            let s2 = seen.push((header_bytes@, data@));
            assert(seen + flat_records(rest) =~= s2 + flat_records(buffer@.skip(z + 1)));
            seen = s2;
        }
        i = z + 1;
    }
    records
}

/// The bytes of one record: `header\n<data>\0`.
pub open spec fn record_bytes(header: Seq<u8>, data: Seq<u8>) -> Seq<u8> {
    header + seq![10u8] + data + seq![0u8]
}

/// Append a record's bytes to a buffer.
pub fn encode_record(out: &mut Vec<u8>, header: &str, data: &[u8])
    ensures
        final(out)@ == old(out)@ + record_bytes(header.spec_bytes(), data@),
{
    let ghost o = out@;
    let hb = header.as_bytes();
    let mut i: usize = 0;
    while i < hb.len()
        invariant
            0 <= i <= hb@.len(),
            out@ == o + hb@.take(i as int),
        decreases hb.len() - i,
    {
        out.push(hb[i]);
        i += 1;
        assert(out@ =~= o + hb@.take(i as int));
    }
    out.push(10);
    let ghost o2 = out@;
    let mut j: usize = 0;
    while j < data.len()
        invariant
            0 <= j <= data@.len(),
            out@ == o2 + data@.take(j as int),
        decreases data.len() - j,
    {
        out.push(data[j]);
        j += 1;
        assert(out@ =~= o2 + data@.take(j as int));
    }
    out.push(0);
    proof {
        assert(hb@.take(hb@.len() as int) =~= hb@);
        assert(data@.take(data@.len() as int) =~= data@);
        assert(out@ =~= o + record_bytes(header.spec_bytes(), data@));
    }
}

proof fn lemma_first_byte_at(b: Seq<u8>, c: u8, from: int, i: int)
    requires
        0 <= from <= i < b.len(),
        b[i] == c,
        forall|k: int| from <= k < i ==> b[k] != c,
    ensures
        first_byte(b, c, from) == Some(i),
    decreases i - from,
{
    if from < i {
        lemma_first_byte_at(b, c, from + 1, i);
    }
}

/// A buffer that starts with a record reads as that record, then the
/// records of the rest, when the header has no newline and the data no
/// NUL.
pub proof fn law_record_prefix(header: Seq<u8>, data: Seq<u8>, rest: Seq<u8>)
    requires
        !has_byte(header, 10),
        !has_byte(data, 0),
    ensures
        flat_records(record_bytes(header, data) + rest) == seq![(header, data)] + flat_records(rest),
{
    let b = record_bytes(header, data) + rest;
    let nl = header.len() as int;
    let z = nl + 1 + data.len();
    assert forall|k: int| 0 <= k < nl implies b[k] != 10 by {
        assert(b[k] == header[k]);
        if header[k] == 10 {
            assert(has_byte(header, 10));
        }
    }
    assert(b[nl] == 10);
    lemma_first_byte_at(b, 10, 0, nl);
    assert forall|k: int| nl + 1 <= k < z implies b[k] != 0 by {
        assert(b[k] == data[k - nl - 1]);
        if data[k - nl - 1] == 0 {
            assert(has_byte(data, 0));
        }
    }
    assert(b[z] == 0);
    lemma_first_byte_at(b, 0, nl + 1, z);
    assert(b.take(nl) =~= header);
    assert(b.subrange(nl + 1, z) =~= data);
    assert(b.skip(z + 1) =~= rest);
}

/// The bytes of a list of records, in order.
pub open spec fn records_bytes(recs: Seq<(Seq<u8>, Seq<u8>)>) -> Seq<u8>
    decreases recs.len(),
{
    if recs.len() == 0 {
        Seq::empty()
    } else {
        record_bytes(recs[0].0, recs[0].1) + records_bytes(recs.drop_first())
    }
}

/// Reading what a list of records was written as gives the list back, when
/// no header has a newline and no data a NUL.
pub proof fn law_records_round_trip(recs: Seq<(Seq<u8>, Seq<u8>)>)
    requires
        forall|k: int| 0 <= k < recs.len() ==> !has_byte(#[trigger] recs[k].0, 10) && !has_byte(recs[k].1, 0),
    ensures
        flat_records(records_bytes(recs)) == recs,
    decreases recs.len(),
{
    if recs.len() == 0 {
        assert(flat_records(Seq::<u8>::empty()) =~= Seq::<(Seq<u8>, Seq<u8>)>::empty());
    } else {
        let t = recs.drop_first();
        assert forall|k: int| 0 <= k < t.len() implies !has_byte(#[trigger] t[k].0, 10) && !has_byte(t[k].1, 0) by {
            assert(t[k] == recs[k + 1]);
        }
        law_records_round_trip(t);
        assert(!has_byte(recs[0].0, 10) && !has_byte(recs[0].1, 0));
        law_record_prefix(recs[0].0, recs[0].1, records_bytes(t));
        assert(seq![(recs[0].0, recs[0].1)] + t =~= recs);
    }
}

/// The records written for these header texts and data, in order.
pub open spec fn text_records(headers: Seq<Seq<char>>, datas: Seq<Seq<u8>>) -> Seq<(Seq<u8>, Seq<u8>)> {
    Seq::new(headers.len(), |k: int| (encode_utf8(headers[k]), datas[k]))
}

/// Appending records (`encode_record` of header text and data) and then
/// reading the buffer (`parse_records`) gives every record back, in order,
/// with its header text decoded as written, when no header's bytes hold a
/// newline and no data holds a NUL.
pub proof fn law_header_text_read_back(headers: Seq<Seq<char>>, datas: Seq<Seq<u8>>)
    requires
        headers.len() == datas.len(),
        forall|k: int|
            0 <= k < headers.len() ==> !has_byte(encode_utf8(#[trigger] headers[k]), 10) && !has_byte(
                datas[k],
                0,
            ),
    ensures
        flat_records(records_bytes(text_records(headers, datas))) == text_records(headers, datas),
        forall|k: int|
            0 <= k < headers.len() ==> valid_utf8(#[trigger] text_records(headers, datas)[k].0) && decode_utf8(
                text_records(headers, datas)[k].0,
            ) == headers[k] && text_records(headers, datas)[k].1 == datas[k],
{
    let recs = text_records(headers, datas);
    assert forall|k: int| 0 <= k < recs.len() implies !has_byte(#[trigger] recs[k].0, 10) && !has_byte(
        recs[k].1,
        0,
    ) by {
        assert(recs[k].0 == encode_utf8(headers[k]));
    }
    law_records_round_trip(recs);
    assert forall|k: int| 0 <= k < headers.len() implies valid_utf8(#[trigger] recs[k].0) && decode_utf8(
        recs[k].0,
    ) == headers[k] && recs[k].1 == datas[k] by {
        vstd::utf8::encode_utf8_valid_utf8(headers[k]);
        vstd::utf8::encode_utf8_decode_utf8(headers[k]);
    }
}

/// The header a message of `role` is saved under.
pub open spec fn header_for_role(role: Seq<char>) -> Seq<char> {
    if role == "user"@ {
        "UserMessage"@
    } else if role == "assistant"@ {
        "AssistantMessage"@
    } else {
        "UnknownMessage"@
    }
}

/// The header a message of `role` is saved under.
pub fn role_header(role: &str) -> (r: &'static str)
    ensures
        r@ == header_for_role(role@),
{
    if str_eq(role, "user") {
        "UserMessage"
    } else if str_eq(role, "assistant") {
        "AssistantMessage"
    } else {
        "UnknownMessage"
    }
}

/// The role a record's header stands for, if it is a message.
pub open spec fn role_for_header(header: Seq<char>) -> Option<Seq<char>> {
    if header == "UserMessage"@ {
        Some("user"@)
    } else if header == "AssistantMessage"@ {
        Some("assistant"@)
    } else {
        None
    }
}

/// The role a record's header stands for, if it is a message.
pub fn header_role(header: &str) -> (r: Option<&'static str>)
    ensures
        match r {
            Some(role) => role_for_header(header@) == Some(role@),
            None => role_for_header(header@) is None,
        },
{
    if str_eq(header, "UserMessage") {
        Some("user")
    } else if str_eq(header, "AssistantMessage") {
        Some("assistant")
    } else {
        None
    }
}

/// Roles survive a save and a load: the header a `user` or `assistant`
/// message is saved under reads back as that same role; the two roles get
/// different headers; and any header that reads as a role is exactly the
/// header that role is saved under.
pub proof fn law_role_round_trip(role: Seq<char>, header: Seq<char>)
    ensures
        (role == "user"@ || role == "assistant"@) ==> role_for_header(header_for_role(role)) == Some(role),
        role == "user"@ ==> header_for_role(role) == "UserMessage"@,
        role == "assistant"@ ==> header_for_role(role) == "AssistantMessage"@,
        header_for_role("user"@) != header_for_role("assistant"@),
        role_for_header(header) matches Some(r) ==> header_for_role(r) == header && (r == "user"@ || r
            == "assistant"@),
{
    reveal_strlit("user");
    reveal_strlit("assistant");
    reveal_strlit("UserMessage");
    reveal_strlit("AssistantMessage");
    reveal_strlit("UnknownMessage");
    let u: Seq<char> = "user"@;
    let a: Seq<char> = "assistant"@;
    let hu: Seq<char> = "UserMessage"@;
    let ha: Seq<char> = "AssistantMessage"@;
    assert(u != a) by {
        assert(u.len() != a.len());
    }
    assert(hu != ha) by {
        assert(hu.len() != ha.len());
    }
}

/// Session records on disk: `<base_dir>/<session_id>/session.dat`.
#[derive(Debug, Clone)]
pub struct FlatFileSessionManager {
    pub session_id: String,
    pub base_dir: String,
}

impl FlatFileSessionManager {
    /// A manager for `session_id` under `base_dir`.
    pub fn new(session_id: &str, base_dir: &str) -> (r: FlatFileSessionManager)
        ensures
            r.session_id@ == session_id@,
            r.base_dir@ == base_dir@,
    {
        FlatFileSessionManager { session_id: to_owned(session_id), base_dir: to_owned(base_dir) }
    }

    /// The record file of a session: `<base_dir>/<session_id>/session.dat`.
    pub fn session_path(&self, session_id: &str) -> (r: String)
        ensures
            r@ == join_path_spec(join_path_spec(self.base_dir@, session_id@), "session.dat"@),
    {
        let d = join_path(self.base_dir.as_str(), session_id);
        join_path(d.as_str(), "session.dat")
    }
}

} // verus!
