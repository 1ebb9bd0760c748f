use axonerai::executor::ToolResult;
use axonerai::provider::StopReason;
use axonerai::server::{
    chat_reply, format_tool_results, invalid_message_reply, server_info, session_created_reply,
    session_deleted_reply, session_loaded_reply, sessions_list_reply, turn_step, MessageDto, ServerConfig, TurnStep,
    WsServerMessage,
};
use axonerai::wire::{ClientMsg, RolloutRecord, ServerMsg};
use axonerai::ws_session::{agent_reply, on_frame, SessionAction, SessionFrame, SessionReply, NO_PROVIDER_MESSAGE};

#[test]
fn server_defaults() {
    let c = ServerConfig::default();
    assert_eq!((c.host.as_str(), c.port, c.static_dir.as_str()), ("127.0.0.1", None, "./static"));
    assert!(c.use_null_delimited);
}

#[test]
fn server_info_lists_the_endpoints() {
    let info = server_info("0.3.0");
    assert_eq!((info.name.as_str(), info.version.as_str()), ("AxonerAI Agent Server", "0.3.0"));
    assert_eq!(info.endpoints.len(), 8);
    assert_eq!((info.endpoints[7].method.as_str(), info.endpoints[7].path.as_str()), ("POST", "/api/sessions/{id}/chat"));
}

#[test]
fn tool_results_become_one_line_each() {
    let rs = vec![ToolResult::success("1", "calc", "4"), ToolResult::failure("2", "web", "down")];
    assert_eq!(format_tool_results(&rs), "Tool 'calc' returned: 4\nTool 'web' returned: error: down");
    assert_eq!(format_tool_results(&vec![]), "");
}

#[test]
fn turn_steps() {
    assert!(matches!(turn_step(StopReason::EndTurn, Some("hi"), 0), TurnStep::Reply(t) if t == "hi"));
    assert!(matches!(turn_step(StopReason::EndTurn, None, 0), TurnStep::Reply(t) if t == "(No response)"));
    assert!(matches!(turn_step(StopReason::ToolUse, None, 2), TurnStep::RunTools));
    assert!(matches!(turn_step(StopReason::ToolUse, None, 0), TurnStep::Reply(t) if t == "Agent wanted to use tools but didn't specify any"));
    assert!(matches!(turn_step(StopReason::MaxTokens, None, 0), TurnStep::Reply(t) if t == "Agent hit max tokens limit"));
    assert!(matches!(turn_step(StopReason::Error, None, 0), TurnStep::Reply(t) if t == "Agent stopped: Error"));
}

#[test]
fn websocket_replies() {
    assert!(matches!(invalid_message_reply("eof"), WsServerMessage::Error { message } if message == "Invalid message format: eof"));
    assert!(matches!(session_created_reply("s".into(), Ok(())), WsServerMessage::SessionCreated { session_id } if session_id == "s"));
    assert!(matches!(session_created_reply("s".into(), Err("disk".into())), WsServerMessage::Error { message } if message == "disk"));
    let msgs = vec![MessageDto { role: "user".into(), content: "hi".into() }];
    assert!(matches!(session_loaded_reply("s".into(), Ok(Some(msgs))), WsServerMessage::SessionLoaded { messages, .. } if messages.len() == 1));
    assert!(matches!(session_loaded_reply("s".into(), Ok(None)), WsServerMessage::Error { message } if message == "Session not found"));
    assert!(matches!(sessions_list_reply(Ok(vec!["a".into()])), WsServerMessage::SessionsList { sessions } if sessions == vec!["a"]));
    assert!(matches!(session_deleted_reply("s".into(), Ok(())), WsServerMessage::SessionDeleted { .. }));
    assert!(matches!(chat_reply("s".into(), Ok("answer".into()), Ok(())), WsServerMessage::ChatResponse { message, .. } if message == "answer"));
    assert!(matches!(chat_reply("s".into(), Ok("answer".into()), Err("save".into())), WsServerMessage::Error { message } if message == "save"));
    assert!(matches!(chat_reply("s".into(), Err("turn".into()), Ok(())), WsServerMessage::Error { message } if message == "turn"));
}

#[test]
fn wire_tags_are_snake_case_variant_names() {
    assert_eq!(ServerMsg::Ready { version: "0.1.1", websocket_path: "/ws" }.type_tag(), "ready");
    assert_eq!(ServerMsg::Pong { id: None }.type_tag(), "pong");
    assert_eq!(
        ServerMsg::ToolCall {
            id: None,
            session_id: "s",
            tool: "t",
            args_pretty: "{}",
            result_pretty: "\"x\"",
            bytes_up: 1,
            bytes_down: 2,
            duration_ms: 3,
            ts: 4
        }
        .type_tag(),
        "tool_call"
    );
    assert_eq!(ServerMsg::SessionMeta { session_id: "s", title: "t", created_at: 1 }.type_tag(), "session_meta");
    assert_eq!(ServerMsg::Ack { for_type: "rename", ok: true, message: None }.type_tag(), "ack");
    assert_eq!(RolloutRecord::SessionRename { title: "r".into(), ts: 1 }.type_tag(), "session_rename");
    assert_eq!(ClientMsg::Rename { title: "x".into() }.type_tag(), "rename");
    assert_eq!(ClientMsg::Prompt { id: None, text: "x".into() }.type_tag(), "prompt");
}

#[test]
fn ws_session_answers_frames() {
    assert!(matches!(on_frame(true, Ok(SessionFrame::Ping { id: Some("p".into()) })),
        SessionAction::Send(SessionReply::Pong { id: Some(i) }) if i == "p"));
    assert!(matches!(on_frame(true, Ok(SessionFrame::Prompt { id: None, text: "  hi \n".into() })),
        SessionAction::RunAgent { text, .. } if text == "hi"));
    assert!(matches!(on_frame(false, Ok(SessionFrame::Prompt { id: Some("r".into()), text: "hi".into() })),
        SessionAction::Send(SessionReply::Error { id: Some(i), message }) if i == "r" && message == NO_PROVIDER_MESSAGE));
    assert!(matches!(on_frame(true, Err("bad tag".into())),
        SessionAction::Send(SessionReply::Error { id: None, message }) if message == "invalid message: bad tag"));
    assert!(matches!(agent_reply(None, Ok("yo".into())), SessionReply::Assistant { text, .. } if text == "yo"));
    assert!(matches!(agent_reply(None, Err("x".into())), SessionReply::Error { message, .. } if message == "agent error: x"));
}
