//! NUL-delimited session storage: `<base_dir>/<session_id>.session` holds
//! `<record_type>\n<data>\0` records. A saved session is a `SESSION_META`
//! record (`<session_id>|<timestamp>`) followed by one `USER_MSG` or
//! `ASSISTANT_MSG` record per message; `TOOL_CALL` and `TOOL_RESULT`
//! records load as assistant messages tagged with their type; unknown
//! record types are skipped. Reading a saved session gives it back.
use vstd::prelude::*;

use crate::text::{
    chars_slice_to_string, first_index_from, join_path, join_path_spec, split_chars, split_once_spec, split_spec,
    str_chars, str_eq, to_owned,
};

verus! {

// ------------------------------------------------------------ records

/// The record pieces of a file's text: every non-empty piece between NULs
/// that has a newline, split at its first newline into type and data.
pub open spec fn keep_records(pieces: Seq<Seq<char>>) -> Seq<(Seq<char>, Seq<char>)>
    decreases pieces.len(),
{
    if pieces.len() == 0 {
        Seq::empty()
    } else {
        let r = keep_records(pieces.drop_last());
        let p = pieces.last();
        if p.len() == 0 {
            r
        } else {
            match first_index_from(p, '\n', 0) {
                Some(i) => r.push((p.take(i), p.skip(i + 1))),
                None => r,
            }
        }
    }
}

/// The records of a file's text.
pub open spec fn storage_records(content: Seq<char>) -> Seq<(Seq<char>, Seq<char>)> {
    keep_records(split_spec(content, '\0'))
}

/// Parse the records of a file's text.
pub fn parse_records(content: &str) -> (r: Vec<(String, String)>)
    ensures
        r@.len() == storage_records(content@).len(),
        forall|k: int|
            0 <= k < r@.len() ==> (#[trigger] r@[k]).0@ == storage_records(content@)[k].0 && r@[k].1@
                == storage_records(content@)[k].1,
{
    let v = str_chars(content);
    let pieces = split_chars(&v, '\0');
    let ghost ps = split_spec(v@, '\0');
    let mut out: Vec<(String, String)> = Vec::new();
    let mut i: usize = 0;
    while i < pieces.len()
        invariant
            v@ == content@,
            ps == split_spec(v@, '\0'),
            pieces@.len() == ps.len(),
            forall|k: int| 0 <= k < pieces@.len() ==> #[trigger] pieces@[k]@ == ps[k],
            0 <= i <= ps.len(),
            out@.len() == keep_records(ps.take(i as int)).len(),
            forall|k: int|
                0 <= k < out@.len() ==> (#[trigger] out@[k]).0@ == keep_records(ps.take(i as int))[k].0
                    && out@[k].1@ == keep_records(ps.take(i as int))[k].1,
        decreases pieces.len() - i,
    {
        proof {
            assert(ps.take(i + 1).drop_last() =~= ps.take(i as int));
            assert(ps.take(i + 1).last() == ps[i as int]);
        }
        let p = &pieces[i];
        if p.len() > 0 {
            proof {
                crate::text::lemma_first_index_from(p@, '\n', 0);
            }
            match crate::text::find_char(p, '\n', 0, p.len()) {
                Some(nl) => {
                    proof {
                        crate::text::lemma_first_index_from_char(p@, '\n', 0, nl as int);
                    }
                    let t = chars_slice_to_string(p, 0, nl);
                    let d = chars_slice_to_string(p, nl + 1, p.len());
                    proof {
                        assert(t@ =~= p@.take(nl as int));
                        assert(d@ =~= p@.skip(nl + 1));
                    }
                    out.push((t, d));
                },
                None => {
                    proof {
                        crate::text::lemma_first_index_from_none(p@, '\n', 0);
                    }
                },
            }
        }
        i += 1;
    }
    proof {
        assert(ps.take(ps.len() as int) =~= ps);
    }
    out
}

/// The text of one record: `<type>\n<data>\0`.
pub open spec fn record_text(t: Seq<char>, d: Seq<char>) -> Seq<char> {
    t + "\n"@ + d + "\0"@
}

/// The text of a list of records, in order.
pub open spec fn records_text(recs: Seq<(Seq<char>, Seq<char>)>) -> Seq<char>
    decreases recs.len(),
{
    if recs.len() == 0 {
        Seq::empty()
    } else {
        records_text(recs.drop_last()) + record_text(recs.last().0, recs.last().1)
    }
}

/// A record that reads back as itself: a type without newline or NUL,
/// data without NUL.
pub open spec fn record_ok(r: (Seq<char>, Seq<char>)) -> bool {
    !r.0.contains('\n') && !r.0.contains('\0') && !r.1.contains('\0')
}

proof fn lemma_split_len(s: Seq<char>, c: char)
    ensures
        split_spec(s, c).len() >= 1,
    decreases s.len(),
{
    crate::text::lemma_split_len(s, c);
}

/// Appending text without the separator extends the last piece.
proof fn lemma_split_extend(a: Seq<char>, x: Seq<char>, c: char)
    requires
        !x.contains(c),
    ensures
        split_spec(a + x, c) == split_spec(a, c).update(split_spec(a, c).len() - 1, split_spec(a, c).last() + x),
    decreases x.len(),
{
    lemma_split_len(a, c);
    if x.len() == 0 {
        assert(a + x =~= a);
        assert(split_spec(a, c).last() + x =~= split_spec(a, c).last());
        assert(split_spec(a, c).update(split_spec(a, c).len() - 1, split_spec(a, c).last()) =~= split_spec(a, c));
    } else {
        let y = x.drop_last();
        assert(!y.contains(c)) by {
            if y.contains(c) {
                let k = choose|k: int| 0 <= k < y.len() && y[k] == c;
                assert(x[k] == c);
            }
        }
        assert(x.last() != c) by {
            if x.last() == c {
                assert(x[x.len() - 1] == c);
            }
        }
        lemma_split_extend(a, y, c);
        assert((a + x).drop_last() =~= a + y);
        assert((a + x).last() == x.last());
        lemma_split_len(a + y, c);
        let r = split_spec(a, c);
        let ry = split_spec(a + y, c);
        assert(ry.last() =~= r.last() + y);
        assert(ry.last().push(x.last()) =~= r.last() + x);
        assert(ry.update(ry.len() - 1, ry.last().push(x.last())) =~= r.update(r.len() - 1, r.last() + x));
    }
}

/// The record bodies (`<type>\n<data>`) of a list of records.
pub open spec fn bodies(recs: Seq<(Seq<char>, Seq<char>)>) -> Seq<Seq<char>>
    decreases recs.len(),
{
    if recs.len() == 0 {
        Seq::empty()
    } else {
        bodies(recs.drop_last()).push(recs.last().0 + "\n"@ + recs.last().1)
    }
}

proof fn lemma_body_record(t: Seq<char>, d: Seq<char>)
    requires
        record_ok((t, d)),
    ensures
        ({
            let b = t + "\n"@ + d;
            &&& b.len() > 0
            &&& !b.contains('\0')
            &&& first_index_from(b, '\n', 0) == Some(t.len() as int)
            &&& b.take(t.len() as int) == t
            &&& b.skip(t.len() as int + 1) == d
        }),
{
    reveal_strlit("\n");
    let b = t + "\n"@ + d;
    assert(b[t.len() as int] == '\n');
    assert forall|k: int| 0 <= k < t.len() implies b[k] != '\n' by {
        assert(b[k] == t[k]);
        if t[k] == '\n' {
            assert(t.contains('\n'));
        }
    }
    crate::text::lemma_first_index_from_char(b, '\n', 0, t.len() as int);
    assert(b.take(t.len() as int) =~= t);
    assert(b.skip(t.len() as int + 1) =~= d);
    assert(!b.contains('\0')) by {
        if b.contains('\0') {
            let k = choose|k: int| 0 <= k < b.len() && b[k] == '\0';
            if k < t.len() {
                assert(b[k] == t[k]);
                assert(t.contains('\0'));
            } else if k > t.len() {
                assert(b[k] == d[k - t.len() - 1]);
                assert(d.contains('\0'));
            }
        }
    }
}

/// The pieces of a list of records' text: their bodies, then an empty
/// piece after the last NUL.
proof fn lemma_records_split(recs: Seq<(Seq<char>, Seq<char>)>)
    requires
        forall|k: int| 0 <= k < recs.len() ==> record_ok(#[trigger] recs[k]),
    ensures
        split_spec(records_text(recs), '\0') == bodies(recs).push(Seq::empty()),
        keep_records(bodies(recs)) == recs,
    decreases recs.len(),
{
    reveal_strlit("\n");
    reveal_strlit("\0");
    if recs.len() == 0 {
        assert(split_spec(Seq::<char>::empty(), '\0') =~= seq![Seq::<char>::empty()]);
        assert(bodies(recs).push(Seq::empty()) =~= seq![Seq::<char>::empty()]);
        assert(keep_records(bodies(recs)) =~= recs);
    } else {
        let rs = recs.drop_last();
        let (t, d) = recs.last();
        assert forall|k: int| 0 <= k < rs.len() implies record_ok(#[trigger] rs[k]) by {
            assert(rs[k] == recs[k]);
        }
        assert(record_ok(recs[recs.len() - 1]));
        lemma_records_split(rs);
        lemma_body_record(t, d);
        let x = records_text(rs);
        let b = t + "\n"@ + d;
        let full = records_text(recs);
        assert(full =~= (x + b).push('\0'));
        lemma_split_extend(x, b, '\0');
        let p = split_spec(x, '\0');
        assert(p =~= bodies(rs).push(Seq::empty()));
        assert(p.last() + b =~= b);
        assert(split_spec(x + b, '\0') =~= bodies(rs).push(b));
        assert((x + b).push('\0').drop_last() =~= x + b);
        assert(split_spec(full, '\0') =~= bodies(rs).push(b).push(Seq::empty()));
        assert(bodies(recs) =~= bodies(rs).push(b));
        assert(bodies(recs).drop_last() =~= bodies(rs));
        assert(keep_records(bodies(recs)) =~= rs.push((t, d)));
        assert(rs.push((t, d)) =~= recs);
    }
}

/// Reading the text of records gives the records back when every type is
/// free of newlines and NULs and every datum free of NULs.
pub proof fn law_records_read_back(recs: Seq<(Seq<char>, Seq<char>)>)
    requires
        forall|k: int| 0 <= k < recs.len() ==> record_ok(#[trigger] recs[k]),
    ensures
        storage_records(records_text(recs)) == recs,
{
    lemma_records_split(recs);
    let ps = split_spec(records_text(recs), '\0');
    assert(ps.drop_last() =~= bodies(recs));
    assert(ps.last().len() == 0);
}

/// Append one record's text.
pub fn write_record(out: &mut String, record_type: &str, data: &str)
    ensures
        final(out)@ == old(out)@ + record_text(record_type@, data@),
{
    out.append(record_type);
    out.append("\n");
    out.append(data);
    out.append("\0");
}

// ------------------------------------------------------------ sessions

/// A session as stored: id, timestamp and (role, content) messages.
#[derive(Debug, Clone)]
pub struct StoredSession {
    pub session_id: String,
    pub timestamp: String,
    pub messages: Vec<(String, String)>,
}

/// A stored session as a mathematical value.
pub type SessionView = (Seq<char>, Seq<char>, Seq<(Seq<char>, Seq<char>)>);

/// The view of a stored session.
pub open spec fn session_view(s: StoredSession) -> SessionView {
    (s.session_id@, s.timestamp@, Seq::new(s.messages@.len(), |k: int| (s.messages@[k].0@, s.messages@[k].1@)))
}

/// One record applied to a session being built.
pub open spec fn build_step(s: SessionView, rec: (Seq<char>, Seq<char>)) -> SessionView {
    let (t, d) = rec;
    if t == "SESSION_META"@ {
        match split_once_spec(d, '|') {
            Some((id, ts)) => (id, ts, s.2),
            None => s,
        }
    } else if t == "USER_MSG"@ {
        (s.0, s.1, s.2.push(("user"@, d)))
    } else if t == "ASSISTANT_MSG"@ {
        (s.0, s.1, s.2.push(("assistant"@, d)))
    } else if t == "TOOL_CALL"@ || t == "TOOL_RESULT"@ {
        (s.0, s.1, s.2.push(("assistant"@, "["@ + t + "] "@ + d)))
    } else {
        s
    }
}

/// The session a list of records builds, from an empty id and timestamp.
pub open spec fn build_spec(recs: Seq<(Seq<char>, Seq<char>)>) -> SessionView
    decreases recs.len(),
{
    if recs.len() == 0 {
        (Seq::empty(), Seq::empty(), Seq::empty())
    } else {
        build_step(build_spec(recs.drop_last()), recs.last())
    }
}

/// Build a session from its records, in order.
pub fn build_session(records: Vec<(String, String)>) -> (r: StoredSession)
    ensures
        session_view(r) == build_spec(Seq::new(records@.len(), |k: int| (records@[k].0@, records@[k].1@))),
{
    let ghost rv = Seq::new(records@.len(), |k: int| (records@[k].0@, records@[k].1@));
    let mut session_id = String::new();
    let mut timestamp = String::new();
    let mut messages: Vec<(String, String)> = Vec::new();
    let mut i: usize = 0;
    proof {
        assert(rv.take(0) =~= Seq::<(Seq<char>, Seq<char>)>::empty());
    }
    while i < records.len()
        invariant
            rv == Seq::new(records@.len(), |k: int| (records@[k].0@, records@[k].1@)),
            0 <= i <= records@.len(),
            session_view(StoredSession { session_id, timestamp, messages }) == build_spec(rv.take(i as int)),
        decreases records.len() - i,
    {
        proof {
            assert(rv.take(i + 1).drop_last() =~= rv.take(i as int));
            assert(rv.take(i + 1).last() == rv[i as int]);
            reveal_strlit("SESSION_META");
            reveal_strlit("USER_MSG");
            reveal_strlit("ASSISTANT_MSG");
            reveal_strlit("TOOL_CALL");
            reveal_strlit("TOOL_RESULT");
        }
        let ghost before = messages@;
        let t = records[i].0.as_str();
        let d = records[i].1.as_str();
        if str_eq(t, "SESSION_META") {
            let dv = str_chars(d);
            proof {
                crate::text::lemma_first_index_from(dv@, '|', 0);
            }
            match crate::text::find_char(&dv, '|', 0, dv.len()) {
                Some(k) => {
                    proof {
                        crate::text::lemma_first_index_from_char(dv@, '|', 0, k as int);
                    }
                    session_id = chars_slice_to_string(&dv, 0, k);
                    timestamp = chars_slice_to_string(&dv, k + 1, dv.len());
                    proof {
                        assert(session_id@ =~= dv@.take(k as int));
                        assert(timestamp@ =~= dv@.skip(k + 1));
                    }
                },
                None => {
                    proof {
                        crate::text::lemma_first_index_from_none(dv@, '|', 0);
                    }
                },
            }
        } else if str_eq(t, "USER_MSG") {
            messages.push((to_owned("user"), to_owned(d)));
        } else if str_eq(t, "ASSISTANT_MSG") {
            messages.push((to_owned("assistant"), to_owned(d)));
        } else if str_eq(t, "TOOL_CALL") || str_eq(t, "TOOL_RESULT") {
            let mut c = to_owned("[");
            c.append(t);
            c.append("] ");
            c.append(d);
            messages.push((to_owned("assistant"), c));
        }
        proof {
            let s = StoredSession { session_id, timestamp, messages };
            assert(session_view(s).2 =~= build_spec(rv.take(i + 1)).2);
        }
        i += 1;
    }
    proof {
        assert(rv.take(records@.len() as int) =~= rv);
    }
    StoredSession { session_id, timestamp, messages }
}

/// The record type a message of `role` is saved under: assistant messages
/// as `ASSISTANT_MSG`, every other role as `USER_MSG`.
pub open spec fn type_for_role(role: Seq<char>) -> Seq<char> {
    if role == "assistant"@ {
        "ASSISTANT_MSG"@
    } else {
        "USER_MSG"@
    }
}

/// The records a session is saved as: its metadata, then its messages.
pub open spec fn session_records(id: Seq<char>, ts: Seq<char>, msgs: Seq<(Seq<char>, Seq<char>)>) -> Seq<
    (Seq<char>, Seq<char>),
> {
    seq![("SESSION_META"@, id + "|"@ + ts)] + Seq::new(msgs.len(), |k: int| (type_for_role(msgs[k].0), msgs[k].1))
}

/// The text a session is saved as.
pub fn encode_session(id: &str, timestamp: &str, messages: &Vec<(String, String)>) -> (r: String)
    ensures
        r@ == records_text(
            session_records(id@, timestamp@, Seq::new(messages@.len(), |k: int| (messages@[k].0@, messages@[k].1@))),
        ),
{
    let ghost mv = Seq::new(messages@.len(), |k: int| (messages@[k].0@, messages@[k].1@));
    let ghost recs = session_records(id@, timestamp@, mv);
    let mut meta = to_owned(id);
    meta.append("|");
    meta.append(timestamp);
    let mut out = String::new();
    write_record(&mut out, "SESSION_META", meta.as_str());
    proof {
        assert(recs.take(1).drop_last() =~= Seq::<(Seq<char>, Seq<char>)>::empty());
        assert(recs.take(1).last() == recs[0]);
        let head: Seq<(Seq<char>, Seq<char>)> = seq![("SESSION_META"@, id@ + "|"@ + timestamp@)];
        assert(recs == head + Seq::new(mv.len(), |k: int| (type_for_role(mv[k].0), mv[k].1)));
        assert(head[0] == ("SESSION_META"@, meta@));
        assert(recs[0] == head[0]);
        assert(records_text(recs.take(1).drop_last()) =~= Seq::<char>::empty());
        assert(records_text(recs.take(1)) == records_text(recs.take(1).drop_last()) + record_text(
            recs.take(1).last().0,
            recs.take(1).last().1,
        ));
        assert(records_text(recs.take(1)) =~= record_text("SESSION_META"@, meta@));
        assert(out@ =~= records_text(recs.take(1)));
    }
    let mut i: usize = 0;
    while i < messages.len()
        invariant
            mv == Seq::new(messages@.len(), |k: int| (messages@[k].0@, messages@[k].1@)),
            recs == session_records(id@, timestamp@, mv),
            recs.len() == messages@.len() + 1,
            0 <= i <= messages@.len(),
            out@ == records_text(recs.take(i + 1)),
        decreases messages.len() - i,
    {
        let role = messages[i].0.as_str();
        let ty = if str_eq(role, "assistant") {
            "ASSISTANT_MSG"
        } else {
            "USER_MSG"
        };
        write_record(&mut out, ty, messages[i].1.as_str());
        proof {
            assert(recs.take(i + 2).drop_last() =~= recs.take(i + 1));
            assert(recs.take(i + 2).last() == recs[i + 1]);
            assert(recs[i + 1] == (type_for_role(messages@[i as int].0@), messages@[i as int].1@));
        }
        i += 1;
    }
    proof {
        assert(recs.take(messages@.len() as int + 1) =~= recs);
    }
    out
}

/// Null-byte delimited file session storage.
#[derive(Debug, Clone)]
pub struct NullDelimitedSessionStorage {
    pub base_dir: String,
}

impl NullDelimitedSessionStorage {
    /// Storage under `base_dir`.
    pub fn new(base_dir: &str) -> (r: NullDelimitedSessionStorage)
        ensures
            r.base_dir@ == base_dir@,
    {
        NullDelimitedSessionStorage { base_dir: to_owned(base_dir) }
    }

    /// A session's file: `<base_dir>/<session_id>.session`.
    pub fn session_path(&self, session_id: &str) -> (r: String)
        ensures
            r@ == join_path_spec(self.base_dir@, session_id@ + ".session"@),
    {
        let mut name = to_owned(session_id);
        name.append(".session");
        join_path(self.base_dir.as_str(), name.as_str())
    }

    /// The session id a directory entry stands for: a `<id>.session` name.
    pub fn session_id_of(file_name: &str) -> (r: Option<String>)
        ensures
            match r {
                Some(id) => file_name@ == id@ + ".session"@,
                None => !(file_name@.len() >= 8 && file_name@.skip(file_name@.len() - 8) == ".session"@),
            },
    {
        proof {
            reveal_strlit(".session");
        }
        let v = str_chars(file_name);
        let n = v.len();
        if n < 8 {
            return None;
        }
        let tail = chars_slice_to_string(&v, n - 8, n);
        if !str_eq(tail.as_str(), ".session") {
            proof {
                assert(tail@ =~= file_name@.skip(n - 8));
            }
            return None;
        }
        let id = chars_slice_to_string(&v, 0, n - 8);
        proof {
            assert(tail@ =~= file_name@.skip(n - 8));
            assert(file_name@ =~= id@ + ".session"@);
        }
        Some(id)
    }
}

/// The role a message of `role` loads back as: `assistant` stays
/// `assistant`, every other role loads as `user`.
pub open spec fn loaded_role(role: Seq<char>) -> Seq<char> {
    if role == "assistant"@ {
        "assistant"@
    } else {
        "user"@
    }
}

/// The messages a saved session loads back as.
pub open spec fn loaded_messages(msgs: Seq<(Seq<char>, Seq<char>)>) -> Seq<(Seq<char>, Seq<char>)> {
    Seq::new(msgs.len(), |k: int| (loaded_role(msgs[k].0), msgs[k].1))
}

proof fn lemma_build_saved(id: Seq<char>, ts: Seq<char>, msgs: Seq<(Seq<char>, Seq<char>)>)
    requires
        !id.contains('|'),
    ensures
        build_spec(session_records(id, ts, msgs)) == (id, ts, loaded_messages(msgs)),
    decreases msgs.len(),
{
    reveal_strlit("SESSION_META");
    reveal_strlit("USER_MSG");
    reveal_strlit("ASSISTANT_MSG");
    reveal_strlit("TOOL_CALL");
    reveal_strlit("TOOL_RESULT");
    reveal_strlit("assistant");
    reveal_strlit("user");
    reveal_strlit("|");
    let recs = session_records(id, ts, msgs);
    if msgs.len() == 0 {
        let meta = id + "|"@ + ts;
        assert(recs =~= seq![("SESSION_META"@, meta)]);
        assert(recs.drop_last() =~= Seq::<(Seq<char>, Seq<char>)>::empty());
        assert forall|k: int| 0 <= k < id.len() implies meta[k] != '|' by {
            assert(meta[k] == id[k]);
            if id[k] == '|' {
                assert(id.contains('|'));
            }
        }
        assert(meta[id.len() as int] == '|');
        crate::text::lemma_first_index_from_char(meta, '|', 0, id.len() as int);
        assert(meta.take(id.len() as int) =~= id);
        assert(meta.skip(id.len() as int + 1) =~= ts);
        assert(loaded_messages(msgs) =~= Seq::<(Seq<char>, Seq<char>)>::empty());
        assert(build_spec(recs.drop_last()) == build_spec(Seq::<(Seq<char>, Seq<char>)>::empty()));
        assert(split_once_spec(meta, '|') == Some((id, ts)));
    } else {
        let m0 = msgs.drop_last();
        lemma_build_saved(id, ts, m0);
        assert(recs.drop_last() =~= session_records(id, ts, m0));
        let last = msgs.last();
        assert(recs.last() == (type_for_role(last.0), last.1));
        assert("USER_MSG"@ != "SESSION_META"@) by {
            assert("USER_MSG"@.len() != "SESSION_META"@.len());
        }
        assert("ASSISTANT_MSG"@ != "SESSION_META"@) by {
            assert("ASSISTANT_MSG"@.len() != "SESSION_META"@.len());
        }
        assert("ASSISTANT_MSG"@ != "USER_MSG"@) by {
            assert("ASSISTANT_MSG"@.len() != "USER_MSG"@.len());
        }
        assert(loaded_messages(msgs) =~= loaded_messages(m0).push((loaded_role(last.0), last.1)));
        assert(build_spec(recs.drop_last()) == (id, ts, loaded_messages(m0)));
        assert(build_spec(recs) == build_step(build_spec(recs.drop_last()), recs.last()));
        if last.0 == "assistant"@ {
            assert(type_for_role(last.0) == "ASSISTANT_MSG"@);
        } else {
            assert(type_for_role(last.0) == "USER_MSG"@);
        }
    }
}

/// Saving a session and reading its file back gives the session back: its
/// id, its timestamp and its messages in order, assistant messages as
/// `assistant` and all others as `user`. The id must not hold `|`, and no
/// part may hold a NUL.
pub proof fn law_session_read_back(id: Seq<char>, ts: Seq<char>, msgs: Seq<(Seq<char>, Seq<char>)>)
    requires
        !id.contains('|'),
        !id.contains('\0'),
        !ts.contains('\0'),
        forall|k: int| 0 <= k < msgs.len() ==> !(#[trigger] msgs[k]).1.contains('\0'),
    ensures
        build_spec(storage_records(records_text(session_records(id, ts, msgs)))) == (id, ts, loaded_messages(msgs)),
{
    reveal_strlit("SESSION_META");
    reveal_strlit("USER_MSG");
    reveal_strlit("ASSISTANT_MSG");
    reveal_strlit("|");
    let recs = session_records(id, ts, msgs);
    assert forall|k: int| 0 <= k < recs.len() implies record_ok(#[trigger] recs[k]) by {
        if k == 0 {
            let meta = id + "|"@ + ts;
            assert(recs[0] == ("SESSION_META"@, meta));
            assert(!meta.contains('\0')) by {
                if meta.contains('\0') {
                    let j = choose|j: int| 0 <= j < meta.len() && meta[j] == '\0';
                    if j < id.len() {
                        assert(meta[j] == id[j]);
                        assert(id.contains('\0'));
                    } else if j > id.len() {
                        assert(meta[j] == ts[j - id.len() - 1]);
                        assert(ts.contains('\0'));
                    }
                }
            }
        } else {
            assert(recs[k] == (type_for_role(msgs[k - 1].0), msgs[k - 1].1));
        }
    }
    law_records_read_back(recs);
    lemma_build_saved(id, ts, msgs);
}

} // verus!
