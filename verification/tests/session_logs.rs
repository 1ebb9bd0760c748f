use axonerai::file_session_manager::FileSessionManager;
use axonerai::flat_file_session::{encode_record, header_role, parse_records, role_header, FlatFileSessionManager};
use axonerai::null_delimited_file_session_manager::{
    encode_message, load_messages, parse_record_bytes, save_plan, AppendError, LogError,
    NullDelimitedFileSessionManager, SavePlan,
};
use axonerai::session_storage::{
    build_session, encode_session, parse_records as parse_storage, write_record, NullDelimitedSessionStorage,
};

#[test]
fn null_delimited_round_trip_messages() {
    let mut log = Vec::new();
    log.extend(encode_message("user", "hello").expect("plain message"));
    log.extend(encode_message("assistant", "world\nline2").expect("multi-line message"));
    let msgs = load_messages(&log).ok().expect("reads back");
    assert_eq!(
        msgs,
        vec![("user".to_string(), "hello".to_string()), ("assistant".to_string(), "world\nline2".to_string())]
    );
}

#[test]
fn content_with_nul_goes_through_base64_and_reads_back() {
    let bytes = encode_message("tool", "a\0b").expect("base64 record");
    let text = String::from_utf8(bytes.clone()).expect("ascii record");
    assert!(text.starts_with("type=message role=tool encoding=base64\n"));
    assert!(text.contains("YQBi"), "standard base64 of a\\0b: {text:?}");
    assert_eq!(bytes.iter().filter(|b| **b == 0).count(), 1, "only the record terminator");
    let msgs = load_messages(&bytes).ok().expect("reads back");
    assert_eq!(msgs, vec![("tool".to_string(), "a\0b".to_string())]);
}

#[test]
fn plain_record_layout() {
    let bytes = encode_message("user", "hi").expect("record");
    assert_eq!(bytes, b"type=message role=user encoding=utf8\nhi\0".to_vec());
}

#[test]
fn roles_that_break_the_header_are_refused() {
    assert_eq!(encode_message("us\ner", "x"), Err(AppendError::HeaderNotLine));
    assert_eq!(AppendError::DataHasNul.message(), "record data must not contain NUL bytes; use base64 encoding");
}

#[test]
fn record_decoding_errors() {
    assert!(matches!(parse_record_bytes(b""), Ok(None)));
    assert!(matches!(parse_record_bytes(b"type=other\ndata"), Ok(None)));
    assert!(matches!(parse_record_bytes(b"no header line"), Ok(None)));
    let e = parse_record_bytes(b"type=message role\nx").err().expect("bad segment");
    assert!(matches!(e, LogError::InvalidSegment(ref s) if s == "role"));
    assert_eq!(e.message(), "invalid header segment: role");
    let e = parse_record_bytes(b"type=message encoding=utf8\nx").err().expect("no role");
    assert!(matches!(e, LogError::MissingRole));
    let e = parse_record_bytes(b"type=message role=user encoding=rot13\nx").err().expect("encoding");
    assert_eq!(e.message(), "unknown encoding: rot13");
    let e = parse_record_bytes(b"type=message role=user encoding=base64\n!!!").err().expect("base64");
    assert!(matches!(e, LogError::Base64(_)));
    let e = parse_record_bytes(b"type=message role=user\n\xff").err().expect("utf8");
    assert!(matches!(e, LogError::ContentNotUtf8));
    let e = parse_record_bytes(b"\xff\nx").err().expect("header utf8");
    assert!(matches!(e, LogError::HeaderNotUtf8));
}

#[test]
fn broken_record_stops_the_load() {
    let mut log = encode_message("user", "ok").expect("record");
    log.extend_from_slice(b"type=message\nx\0");
    assert!(matches!(load_messages(&log), Err(LogError::MissingRole)));
}

#[test]
fn save_plan_rewrites_only_a_rewound_session() {
    assert_eq!(save_plan(3, 2), SavePlan::Rewrite);
    assert_eq!(save_plan(2, 5), SavePlan::AppendFrom(2));
    assert_eq!(save_plan(0, 0), SavePlan::AppendFrom(0));
}

#[test]
fn session_paths() {
    let m = NullDelimitedFileSessionManager::new("s1", "base");
    assert_eq!(m.session_id(), "s1");
    assert_eq!(m.session_dir(), "base/s1");
    assert_eq!(m.log_path(), "base/s1/session.ndl");
    let f = FileSessionManager::new("s2", "dir/");
    assert_eq!(f.messages_path(), "dir/s2/messages.json");
    assert_eq!(f.get_session(), "s2");
    let flat = FlatFileSessionManager::new("s3", "b");
    assert_eq!(flat.session_path("s3"), "b/s3/session.dat");
    let st = NullDelimitedSessionStorage::new("sessions");
    assert_eq!(st.session_path("abc"), "sessions/abc.session");
    assert_eq!(NullDelimitedSessionStorage::session_id_of("abc.session").as_deref(), Some("abc"));
    assert!(NullDelimitedSessionStorage::session_id_of("abc.txt").is_none());
}

#[test]
fn flat_records_round_trip_and_stop_at_an_incomplete_record() {
    let mut buf = Vec::new();
    encode_record(&mut buf, role_header("user"), b"hello");
    encode_record(&mut buf, role_header("assistant"), b"multi\nline");
    buf.extend_from_slice(b"UserMessage\nunterminated");
    let recs = parse_records(&buf);
    assert_eq!(recs.len(), 2);
    assert_eq!((recs[0].header.as_str(), recs[0].data.as_slice()), ("UserMessage", &b"hello"[..]));
    assert_eq!((recs[1].header.as_str(), recs[1].data.as_slice()), ("AssistantMessage", &b"multi\nline"[..]));
    assert_eq!(header_role("UserMessage"), Some("user"));
    assert_eq!(header_role("Other"), None);
    assert_eq!(role_header("system"), "UnknownMessage");
}

#[test]
fn stored_session_reads_back() {
    let msgs = vec![("user".to_string(), "hi".to_string()), ("assistant".to_string(), "a\nb".to_string())];
    let text = encode_session("sid", "2024-01-01T00:00:00Z", &msgs);
    assert!(text.starts_with("SESSION_META\nsid|2024-01-01T00:00:00Z\0USER_MSG\nhi\0"));
    let s = build_session(parse_storage(&text));
    assert_eq!(s.session_id, "sid");
    assert_eq!(s.timestamp, "2024-01-01T00:00:00Z");
    assert_eq!(s.messages, msgs);
}

#[test]
fn tool_records_load_as_tagged_assistant_messages_and_unknown_are_skipped() {
    let mut text = String::new();
    write_record(&mut text, "TOOL_CALL", "calc");
    write_record(&mut text, "MYSTERY", "x");
    write_record(&mut text, "TOOL_RESULT", "4");
    let s = build_session(parse_storage(&text));
    assert_eq!(
        s.messages,
        vec![
            ("assistant".to_string(), "[TOOL_CALL] calc".to_string()),
            ("assistant".to_string(), "[TOOL_RESULT] 4".to_string())
        ]
    );
}
