use axonerai::agent::{AgentRun, LoopAction, ToolTrace, MAX_ITERATIONS};
use axonerai::executor::{CallRefusal, ToolExecutor, ToolResult, DEFAULT_TOOL_ROUND_BUDGET};
use axonerai::provider::{
    call_input, decode_completion, request_messages, CompletionError, Message, StopReason, WireChoice, WireToolCall,
};
use axonerai::tool::{ToolMeta, ToolRegistry, ToolSource};

fn builtin(name: &str, read_only: bool) -> ToolMeta {
    ToolMeta { name: name.to_string(), source: ToolSource::Builtin, mcp_server: None, read_only }
}

fn mcp(name: &str, server: &str) -> ToolMeta {
    ToolMeta { name: name.to_string(), source: ToolSource::Mcp, mcp_server: Some(server.to_string()), read_only: true }
}

fn registry() -> ToolRegistry {
    let mut r = ToolRegistry::new();
    r.register(builtin("WriteFile", false));
    r.register(builtin("ReadFile", true));
    r.register(mcp("tavily_search", "tavily"));
    r.register(mcp("tavily_extract", "tavily"));
    r.register(mcp("context7_get_library_docs", "context7"));
    r
}

#[test]
fn registering_a_name_again_replaces_the_tool() {
    let mut r = registry();
    assert_eq!(r.list_tools().len(), 5);
    r.register(builtin("WriteFile", true));
    assert_eq!(r.list_tools().len(), 5);
    assert!(r.get("WriteFile").expect("registered").read_only);
    assert!(r.get("Nope").is_none());
}

#[test]
fn suppression_hides_tools_and_is_listed() {
    let mut r = registry();
    r.set_suppressed("ReadFile", false);
    assert!(r.is_suppressed("ReadFile"));
    assert!(!r.visible_tool_names().contains(&"ReadFile".to_string()));
    assert_eq!(r.suppressed_names(), vec!["ReadFile"]);
    r.set_suppressed("ReadFile", true);
    assert!(!r.is_suppressed("ReadFile"));
    assert!(r.suppressed_names().is_empty());
}

#[test]
fn mcp_servers_are_sorted_and_toggle_all_their_tools() {
    let mut r = registry();
    assert_eq!(r.mcp_servers(), vec!["context7", "tavily"]);
    assert!(r.mcp_server_enabled("tavily"));
    r.set_mcp_suppressed("tavily", false);
    assert!(r.is_suppressed("tavily_search") && r.is_suppressed("tavily_extract"));
    assert!(!r.is_suppressed("context7_get_library_docs"));
    assert!(!r.mcp_server_enabled("tavily"));
    r.set_mcp_suppressed("tavily", true);
    assert!(r.mcp_server_enabled("tavily"));
}

#[test]
fn read_only_registry_drops_writers() {
    let r = registry().into_read_only();
    assert!(r.get("WriteFile").is_none());
    assert!(r.get("ReadFile").is_some());
    assert_eq!(r.list_tools().len(), 4);
}

#[test]
fn tool_info_is_sorted_with_enabled_flags() {
    let mut r = registry();
    r.set_suppressed("WriteFile", false);
    let infos = r.list_tools_info();
    let names: Vec<&str> = infos.iter().map(|i| i.name.as_str()).collect();
    assert_eq!(names, vec!["ReadFile", "WriteFile", "context7_get_library_docs", "tavily_extract", "tavily_search"]);
    assert!(infos[0].enabled && !infos[1].enabled);
    assert_eq!(infos[2].source, ToolSource::Mcp);
}

#[test]
fn executor_refuses_unknown_and_disabled_tools() {
    let mut r = registry();
    r.set_suppressed("WriteFile", false);
    let e = ToolExecutor::new(&r);
    assert_eq!(e.check_call("ReadFile"), Ok(()));
    assert_eq!(e.check_call("Ghost"), Err(CallRefusal::NotFound));
    assert_eq!(e.check_call("WriteFile"), Err(CallRefusal::Disabled));
    assert_eq!(CallRefusal::NotFound.message("Ghost"), "Tool not found: Ghost");
    assert_eq!(CallRefusal::Disabled.message("WriteFile"), "tool 'WriteFile' is disabled");
}

#[test]
fn executor_round_budget() {
    let r = ToolRegistry::new();
    let mut e = ToolExecutor::new(&r);
    assert_eq!(e.max_rounds(), DEFAULT_TOOL_ROUND_BUDGET);
    e.set_max_rounds(0);
    assert_eq!(e.max_rounds(), 1);
    assert!(e.round_available());
    e.begin_round();
    assert_eq!(e.rounds(), 1);
    assert!(!e.round_available());
    e.set_quiet(true);
    assert!(e.is_quiet());
}

#[test]
fn tool_results() {
    let ok = ToolResult::success("c1", "calc", "4");
    assert_eq!((ok.result.as_str(), ok.is_error), ("4", false));
    let bad = ToolResult::failure("c2", "calc", "boom");
    assert_eq!((bad.result.as_str(), bad.is_error, bad.tool_call_id.as_str()), ("error: boom", true, "c2"));
}

#[test]
fn agent_run_replies_on_end_turn() {
    let r = registry();
    let mut run = AgentRun::new(&r, MAX_ITERATIONS, 3, false);
    assert!(matches!(run.next(), LoopAction::CallProvider));
    assert!(run.is_awaiting());
    match run.on_response(StopReason::EndTurn, Some("done"), 0) {
        LoopAction::Reply { text, record, persist } => assert_eq!((text.as_str(), record, persist), ("done", true, true)),
        other => panic!("expected a reply, got {other:?}"),
    }
    assert!(run.is_done());
}

#[test]
fn agent_run_stops_when_the_tool_budget_is_spent() {
    let r = registry();
    let mut run = AgentRun::new(&r, 10, 1, true);
    assert!(matches!(run.next(), LoopAction::CallProvider));
    assert!(matches!(run.on_response(StopReason::ToolUse, None, 2), LoopAction::ExecuteTools));
    assert_eq!(run.executor().rounds(), 1);
    match run.next() {
        LoopAction::Reply { text, record, persist } => {
            assert_eq!((text.as_str(), record, persist), ("stopped: tool round budget 1 reached", false, true))
        }
        other => panic!("expected the budget stop, got {other:?}"),
    }
}

#[test]
fn agent_run_caps_provider_calls() {
    let r = registry();
    let mut run = AgentRun::new(&r, 2, 10, false);
    for _ in 0..2 {
        assert!(matches!(run.next(), LoopAction::CallProvider));
        assert!(matches!(run.on_response(StopReason::ToolUse, None, 1), LoopAction::ExecuteTools));
    }
    match run.next() {
        LoopAction::Reply { text, persist, .. } => {
            assert_eq!(text, "Agent reached max iterations (2)");
            assert!(persist);
        }
        other => panic!("expected the iteration cap, got {other:?}"),
    }
}

#[test]
fn agent_run_honest_stops() {
    let r = registry();
    let cases = [
        (StopReason::ToolUse, None, 0, "Agent wanted to use tools but didn't specify any"),
        (StopReason::MaxTokens, Some("x"), 0, "Agent hit max tokens limit"),
        (StopReason::ContentFilter, None, 0, "Agent stopped with reason: ContentFilter"),
        (StopReason::Error, None, 0, "Agent stopped with reason: Error"),
        (StopReason::EndTurn, None, 0, "(No response from agent)"),
    ];
    for (stop, text, n, expected) in cases {
        let mut run = AgentRun::new(&r, 10, 5, false);
        run.next();
        match run.on_response(stop, text, n) {
            LoopAction::Reply { text, record, persist } => {
                assert_eq!(text, expected);
                assert!(!record && !persist);
            }
            other => panic!("expected a reply, got {other:?}"),
        }
    }
}

#[test]
fn tool_trace_counts_bytes() {
    let t = ToolTrace::new("calc", "{\"a\":\"é\"}", "4", 12, 99);
    assert_eq!((t.bytes_up, t.bytes_down, t.duration_ms, t.ts), (10, 1, 12, 99));
}

#[test]
fn finish_reasons_map_to_stop_reasons() {
    assert_eq!(StopReason::from_finish_reason("tool_calls"), StopReason::ToolUse);
    assert_eq!(StopReason::from_finish_reason("stop"), StopReason::EndTurn);
    assert_eq!(StopReason::from_finish_reason("length"), StopReason::MaxTokens);
    assert_eq!(StopReason::from_finish_reason("content_filter"), StopReason::ContentFilter);
    assert_eq!(StopReason::from_finish_reason("weird"), StopReason::Error);
    assert_eq!(StopReason::ContentFilter.name(), "ContentFilter");
}

#[test]
fn system_prompt_goes_first() {
    let msgs = request_messages(Some("SYS"), vec![Message::plain("user", "hi")]);
    assert_eq!(msgs.len(), 2);
    assert_eq!((msgs[0].role.as_str(), msgs[0].content.as_str()), ("system", "SYS"));
    assert_eq!(msgs[1].content, "hi");
    assert_eq!(request_messages(None, vec![Message::tool_result("c", "4")])[0].tool_call_id.as_deref(), Some("c"));
}

#[test]
fn unparsable_arguments_become_empty_objects() {
    assert_eq!(call_input("{\"a\": 1}"), "{\"a\": 1}");
    assert_eq!(call_input("{not json"), "{}");
    assert_eq!(call_input("[1,2]"), "[1,2]");
}

#[test]
fn decoding_a_completion() {
    assert!(matches!(decode_completion(None), Err(CompletionError::NoChoices)));
    let c = decode_completion(Some(WireChoice {
        content: None,
        tool_calls: Some(vec![
            WireToolCall { id: "1".into(), name: "calc".into(), arguments: "{\"x\":2}".into() },
            WireToolCall { id: "2".into(), name: "calc".into(), arguments: "oops".into() },
        ]),
        finish_reason: "tool_calls".into(),
    }))
    .ok()
    .expect("decodes");
    assert_eq!(c.stop_reason, StopReason::ToolUse);
    assert!(c.text.is_none());
    assert_eq!(c.tool_calls.len(), 2);
    assert_eq!((c.tool_calls[0].input_json.as_str(), c.tool_calls[1].input_json.as_str()), ("{\"x\":2}", "{}"));
}
