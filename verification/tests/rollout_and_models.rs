use axonerai::models_config::{
    file_name, load_from_dirs, parse_jsonc, set_context, set_cost, strip_trailing_commas, Candidate, ModelCosts,
    ModelSource, ModelsError, MutationError, ProviderModel, ProviderModelsFile,
};
use axonerai::rollout::{
    abridge, default_dir, next_ts, rollout_file_name, session_file_uuid, sort_sessions, ts_prefix, LineError,
    LineWalker, Rollout, SessionInfo, SessionScan,
};
use axonerai::tools::models_config::{provider_entry, providers_to_query};

const ID: &str = "01890a5d-ac96-774b-bcce-b302099a8057";

#[test]
fn ts_prefix_reads_the_digit_run_before_the_nul() {
    assert_eq!(ts_prefix("1700000000000\0{\"a\":1}"), Ok(1_700_000_000_000));
    assert_eq!(ts_prefix("0\0"), Ok(0));
}

#[test]
fn ts_prefix_errors() {
    assert_eq!(ts_prefix(""), Err(LineError::Empty));
    assert_eq!(ts_prefix("{\"a\":1}"), Err(LineError::NotDigit));
    assert_eq!(ts_prefix("123{\"a\":1}"), Err(LineError::NotDigit));
    assert_eq!(ts_prefix("123"), Err(LineError::MissingNul));
    assert_eq!(ts_prefix("18446744073709551616\0{}"), Err(LineError::Overflow));
    assert_eq!(ts_prefix("18446744073709551615\0{}"), Ok(u64::MAX));
    assert_eq!(LineError::MissingNul.message(), "timestamp is not followed by a NUL");
}

#[test]
fn line_walker_counts_lines_and_bytes_and_halts_on_corruption() {
    let mut w = LineWalker::new();
    let (ts, json) = w.step("5\0{\"x\":1}\n").ok().expect("valid line");
    assert_eq!((ts, json.as_str()), (5, "{\"x\":1}"));
    assert_eq!((w.line_no(), w.byte_offset()), (1, 10));
    let (ts, json) = w.step("7\0{}\r\n").ok().expect("crlf line");
    assert_eq!((ts, json.as_str()), (7, "{}"));
    assert_eq!(w.byte_offset(), 16);
    let err = w.step("oops\n").err().expect("corrupt line");
    assert_eq!((err.line_no, err.byte_offset, err.kind), (3, 16, LineError::NotDigit));
    assert!(w.is_halted());
}

#[test]
fn next_ts_is_strictly_increasing() {
    assert_eq!(next_ts(100, 50), 100);
    assert_eq!(next_ts(100, 100), 101);
    assert_eq!(next_ts(90, 100), 101);
    let mut last = 0;
    for now in [5u64, 5, 3, 9, 9] {
        let t = next_ts(now, last);
        assert!(t > last && t >= now);
        last = t;
    }
}

#[test]
fn rollout_names_and_dirs() {
    assert_eq!(rollout_file_name(ID), format!("{ID}.jsonlts"));
    assert_eq!(session_file_uuid(&format!("{ID}.jsonlts")).as_deref(), Some(ID));
    assert!(session_file_uuid(&format!("{ID}.json")).is_none());
    assert!(session_file_uuid("notes.jsonlts").is_none());
    assert_eq!(default_dir(), ".axonerai/sessions");
    assert_eq!(Rollout::at("a/b.jsonlts").path(), "a/b.jsonlts");
}

#[test]
fn session_scan_titles_rename_over_meta_over_uuid() {
    let mut s = SessionScan::new();
    s.observe_json(10, "{\"_type\":\"session_meta\",\"title\":\"first\"}");
    s.observe_json(30, "{\"_type\":\"session_meta\",\"title\":\"second meta\"}");
    s.observe_json(20, "not json");
    assert_eq!(s.updated, 30);
    assert_eq!(s.meta_title_or("x"), "first");
    assert_eq!(s.finish(ID, 7).title, "first");
    s.observe_json(25, "{\"_type\":\"session_rename\",\"title\":\"renamed\",\"ts\":1}");
    s.observe_json(26, "{\"_type\":\"session_rename\"}");
    let row = s.finish(ID, 7);
    assert_eq!((row.title.as_str(), row.updated, row.size), ("renamed", 30, 7));
    assert_eq!(SessionScan::new().finish(ID, 0).title, ID);
}

#[test]
fn sessions_sort_newest_first_then_by_uuid() {
    let row = |u: &str, t: u64| SessionInfo { uuid: u.to_string(), title: u.to_string(), updated: t, size: 0 };
    let sorted = sort_sessions(vec![row("b", 1), row("c", 5), row("a", 1), row("d", 3)]);
    let order: Vec<&str> = sorted.iter().map(|s| s.uuid.as_str()).collect();
    assert_eq!(order, vec!["c", "d", "a", "b"]);
}

#[test]
fn abridge_limits() {
    assert_eq!(abridge("abcdef", 3), "ab…");
    assert_eq!(abridge("", 0), "");
    assert_eq!(abridge("abc", 0), "");
    assert_eq!(abridge("abc", 1), "…");
}

fn model(id: &str, window: u32) -> ProviderModel {
    ProviderModel { id: id.into(), display: id.to_uppercase(), context_window: window, costs: None, offer: None }
}

fn file(provider: &str) -> ProviderModelsFile {
    ProviderModelsFile { provider: provider.into(), updated: "2026-01-01".into(), models: vec![model("a", 1), model("b", 2)] }
}

#[test]
fn jsonc_trailing_commas_are_removed_outside_strings() {
    assert_eq!(strip_trailing_commas("{\"a\": [1, 2,], }"), "{\"a\": [1, 2]}");
    assert_eq!(strip_trailing_commas("{\"s\": \",}\"}"), "{\"s\": \",}\"}");
    assert_eq!(parse_jsonc("{\"a\": 1, // c\n}"), "{\"a\": 1}");
}

#[test]
fn models_file_name_and_local_masks_user() {
    assert_eq!(file_name("mistral"), "mistral-models.jsonc");
    let r = load_from_dirs("l/m", Candidate::Parsed(file("mistral")), "u/m", Candidate::Parsed(file("mistral")), "mistral");
    let loaded = r.ok().flatten().expect("local loads");
    assert_eq!(loaded.source, ModelSource::Local);
    assert_eq!(loaded.path, "l/m");
    assert_eq!(loaded.context_window("b"), Some(2));
    assert!(loaded.find("zzz").is_none());
    let r = load_from_dirs("l/m", Candidate::Missing, "u/m", Candidate::Parsed(file("mistral")), "mistral");
    assert_eq!(r.ok().flatten().expect("user loads").source, ModelSource::User);
    assert!(matches!(load_from_dirs("l", Candidate::Missing, "u", Candidate::Missing, "mistral"), Ok(None)));
}

#[test]
fn models_load_errors_have_messages() {
    let r = load_from_dirs("l/m", Candidate::Invalid("bad".into()), "u/m", Candidate::Parsed(file("mistral")), "mistral");
    let e = r.err().expect("invalid local wins and fails");
    assert!(matches!(e, ModelsError::InvalidFile { source: ModelSource::Local, .. }));
    assert_eq!(e.message(), "local l/m is invalid; fix or remove it");
    let r = load_from_dirs("l/m", Candidate::Missing, "u/m", Candidate::Parsed(file("groq")), "mistral");
    let e = r.err().expect("mismatch");
    assert_eq!(e.message(), "user u/m declares provider 'groq' but was loaded as 'mistral'");
}

#[test]
fn mutations_touch_one_model_and_stamp_the_date() {
    let c = set_context(file("mistral"), "b", 64, 1_709_164_800).ok().expect("known model");
    assert_eq!(c.updated, "2024-02-29");
    assert_eq!((c.models[0].context_window, c.models[1].context_window), (1, 64));
    let c = set_cost(file("mistral"), "a", "0.5", "1.5", 0).ok().expect("known model");
    assert_eq!(c.updated, "1970-01-01");
    let costs: &ModelCosts = c.models[0].costs.as_ref().expect("costs set");
    assert_eq!(costs.input_per_mtok.as_deref(), Some("0.5"));
    assert_eq!(costs.output_per_mtok.as_deref(), Some("1.5"));
    assert!(c.models[1].costs.is_none());
    assert!(matches!(set_context(file("mistral"), "zzz", 1, 0), Err(MutationError::ModelNotFound)));
}

#[test]
fn models_tool_entries() {
    assert_eq!(providers_to_query(Some("groq".into()), vec!["a".into()]), vec!["groq"]);
    assert_eq!(providers_to_query(None, vec!["a".into(), "b".into()]), vec!["a", "b"]);
    assert!(provider_entry("mistral".into(), Ok(None)).is_none());
    let loaded = load_from_dirs("l/m", Candidate::Parsed(file("mistral")), "u", Candidate::Missing, "mistral")
        .ok()
        .flatten()
        .expect("loads");
    let e = provider_entry("mistral".into(), Ok(Some(loaded))).expect("entry");
    assert_eq!((e.source, e.path.as_deref(), e.error.is_none()), (Some("local"), Some("l/m"), true));
    let err = load_from_dirs("l/m", Candidate::Invalid("x".into()), "u", Candidate::Missing, "mistral").err().expect("err");
    let e = provider_entry("mistral".into(), Err(err)).expect("entry");
    assert_eq!(e.error.as_deref(), Some("local l/m is invalid; fix or remove it"));
    assert!(e.config.is_none() && e.source.is_none());
}
