use axonerai::chat_socket::{agent_outcome_reply, frame_text, user_echo, welcome, ChatSocketReply};
use axonerai::agent::tool_round_messages;
use axonerai::config::{AppConfig, ProviderConfig};
use axonerai::executor::ToolResult;
use axonerai::models_schema::{validate_models_json, validate_models_text};
use axonerai::provider::{StopReason, ToolCall};
use axonerai::rollout::{parse_record_fields, RecordTally};
use axonerai::server::{format_tool_use, server_round_messages, ServerTurn, TurnStep, SERVER_MAX_ITERATIONS};
use axonerai::tools::file_writer::{escape_refusal, lexical_refusal, unresolvable_message};

fn call(id: &str, name: &str, input: &str) -> ToolCall {
    ToolCall { id: id.to_string(), name: name.to_string(), input_json: input.to_string() }
}

#[test]
fn tool_round_records_the_calls_then_one_tool_message_per_result() {
    let calls = vec![call("c1", "calculator", "{\"a\":1}"), call("c2", "ReadFile", "{}")];
    let results = vec![ToolResult::success("c1", "calculator", "2"), ToolResult::failure("c2", "ReadFile", "nope")];
    let msgs = tool_round_messages(Some("thinking".to_string()), calls, &results);
    assert_eq!(msgs.len(), 3);
    assert_eq!((msgs[0].role.as_str(), msgs[0].content.as_str()), ("assistant", "thinking"));
    let recorded = msgs[0].tool_calls.as_ref().expect("calls recorded");
    assert_eq!((recorded[0].id.as_str(), recorded[1].name.as_str()), ("c1", "ReadFile"));
    assert_eq!((msgs[1].role.as_str(), msgs[1].content.as_str()), ("tool", "2"));
    assert_eq!(msgs[1].tool_call_id.as_deref(), Some("c1"));
    assert_eq!(msgs[2].tool_call_id.as_deref(), Some("c2"));
    let empty = tool_round_messages(None, vec![], &vec![]);
    assert_eq!((empty.len(), empty[0].content.as_str()), (1, ""));
}

#[test]
fn server_round_shows_tool_uses_with_compact_input() {
    let calls = vec![call("1", "calculator", "{ \"expression\" : \"1+1\" }"), call("2", "x", "not json")];
    assert_eq!(
        format_tool_use(&calls),
        "Using tool 'calculator' with input: {\"expression\":\"1+1\"}\nUsing tool 'x' with input: null"
    );
    let results = vec![ToolResult::success("1", "calculator", "2")];
    let msgs = server_round_messages(Some("hmm"), &calls, &results);
    assert_eq!(msgs.len(), 3);
    assert_eq!((msgs[0].role.as_str(), msgs[0].content.as_str()), ("assistant", "hmm"));
    assert_eq!(msgs[1].role, "assistant");
    assert!(msgs[1].content.starts_with("Using tool 'calculator'"));
    assert_eq!((msgs[2].role.as_str(), msgs[2].content.as_str()), ("user", "Tool 'calculator' returned: 2"));
    assert_eq!(server_round_messages(None, &calls, &results).len(), 2);
}

#[test]
fn server_turn_stops_after_its_provider_calls() {
    let mut turn = ServerTurn::new();
    let mut calls = 0;
    while turn.may_call() {
        assert!(matches!(turn.on_response(StopReason::ToolUse, None, 1), TurnStep::RunTools));
        calls += 1;
    }
    assert_eq!(calls, SERVER_MAX_ITERATIONS);
    assert_eq!(turn.exhausted_reply(), "Agent reached max iterations");
    let mut t = ServerTurn::new();
    assert!(matches!(t.on_response(StopReason::EndTurn, Some("hi"), 0), TurnStep::Reply(s) if s == "hi"));
}

#[test]
fn models_files_are_checked_against_the_jtd_schema() {
    let good = "{ // a comment\n \"provider\": \"groq\", \"updated\": \"2025-01-01\",\n \"models\": [ { \"id\": \"m\", \"display\": \"M\", \"context_window\": 8192, }, ], }";
    assert_eq!(validate_models_text(good), Ok(()));
    let bad = "{\"provider\": \"groq\", \"updated\": \"x\", \"models\": [{\"id\": \"m\", \"display\": \"M\", \"context_window\": -1}]}";
    let err = validate_models_json(bad).unwrap_err();
    assert!(err.starts_with("JTD validation failed: "), "{err}");
    assert!(err.contains("models/0/context_window"), "{err}");
    assert_eq!(validate_models_json("{not json"), Err("invalid JSON".to_string()));
    let two = "{\"provider\": 1, \"updated\": 2, \"models\": []}";
    assert_eq!(validate_models_json(two).unwrap_err().matches(" (schema ").count(), 2);
}

#[test]
fn record_fields_are_read_by_key() {
    let f = parse_record_fields("{\"_type\":\"session_meta\",\"title\":\"T\"}").expect("json");
    assert_eq!((f.record_type.as_deref(), f.title.as_deref()), (Some("session_meta"), Some("T")));
    let g = parse_record_fields("{\"_type\":3}").expect("json");
    assert_eq!((g.record_type, g.title), (None, None));
    assert!(parse_record_fields("nope").is_none());
}

#[test]
fn record_tally_filters_and_counts() {
    let mut t = RecordTally::new(5);
    assert!(!t.record(5));
    assert!(t.record(6));
    assert_eq!((t.last_ts, t.count), (6, 2));
}

#[test]
fn path_jail_decisions() {
    assert!(lexical_refusal("/etc/passwd", false).unwrap().contains("absolute paths are not allowed"));
    assert!(lexical_refusal("../x", true).unwrap().contains("agent scratch directory"));
    assert_eq!(lexical_refusal("a/b.txt", true), None);
    assert_eq!(escape_refusal("/repo/a/b", "/repo", false), None);
    assert_eq!(escape_refusal("/repository/a", "/repo", false), Some("Error: path escapes the repo root; read rejected."));
    assert_eq!(
        escape_refusal("/tmp", "/repo/.axonerai/scratch", true),
        Some("Error: path escapes the agent scratch directory; write rejected.")
    );
    assert_eq!(unresolvable_message(false, "denied"), "Error: cannot resolve path inside the repo root: denied");
}

fn provider(name: &str) -> ProviderConfig {
    ProviderConfig {
        name: name.to_string(),
        endpoint: "https://example.invalid/v1".to_string(),
        env_key: "K".to_string(),
        api_key: None,
        default_model: None,
        models: vec![],
    }
}

#[test]
fn checked_config_refuses_duplicate_provider_names() {
    let ok = AppConfig::checked("a".into(), "m".into(), vec![("a".into(), provider("A")), ("b".into(), provider("B"))]);
    assert!(ok.is_some());
    let dup = AppConfig::checked("a".into(), "m".into(), vec![("a".into(), provider("A")), ("a".into(), provider("B"))]);
    assert!(dup.is_none());
}

#[test]
fn chat_socket_takes_content_else_the_raw_frame() {
    assert_eq!(frame_text("{\"content\": \"hello\"}"), "hello");
    assert_eq!(frame_text("{\"content\": 5}"), "{\"content\": 5}");
    assert_eq!(frame_text("plain words"), "plain words");
    let w = welcome();
    assert_eq!((w.type_tag(), w.content()), ("system", "Connected to AxonerAI agent"));
    let e = user_echo("hi");
    assert_eq!((e.type_tag(), e.content()), ("user", "hi"));
    let ok = agent_outcome_reply(Ok("answer".to_string()));
    assert!(matches!(&ok, ChatSocketReply::Assistant(t) if t == "answer"));
    assert_eq!(ok.type_tag(), "assistant");
    let err = agent_outcome_reply(Err("boom".to_string()));
    assert_eq!((err.type_tag(), err.content()), ("error", "Error: boom"));
}
