//! The web server's data and replies: its configuration, the WebSocket
//! message types, the REST bodies, the server-info document, and how each
//! step of a chat turn and each storage outcome is answered.
use vstd::prelude::*;

use crate::executor::ToolResult;
use crate::provider::{json_parses, Message, StopReason, ToolCall};
use crate::text::{join_spec, to_owned, views};

verus! {

/// Server configuration.
#[derive(Debug, Clone)]
pub struct ServerConfig {
    pub host: String,
    /// `None`: pick a free high port.
    pub port: Option<u16>,
    pub static_dir: String,
    pub sessions_dir: String,
    pub use_null_delimited: bool,
}

impl Default for ServerConfig {
    /// Loopback, a free high port, `./static`, `./sessions`, NUL-delimited
    /// storage.
    fn default() -> (r: ServerConfig)
        ensures
            r.host@ == "127.0.0.1"@,
            r.port is None,
            r.static_dir@ == "./static"@,
            r.sessions_dir@ == "./sessions"@,
            r.use_null_delimited,
    {
        ServerConfig {
            host: to_owned("127.0.0.1"),
            port: None,
            static_dir: to_owned("./static"),
            sessions_dir: to_owned("./sessions"),
            use_null_delimited: true,
        }
    }
}

/// A message of a conversation as the browser sees it.
#[derive(Debug, Clone)]
pub struct MessageDto {
    pub role: String,
    pub content: String,
}

/// What the browser sends over the WebSocket.
#[derive(Debug)]
pub enum WsClientMessage {
    Chat { session_id: String, message: String },
    NewSession,
    LoadSession { session_id: String },
    ListSessions,
    DeleteSession { session_id: String },
    Ping,
}

/// What the server sends over the WebSocket.
#[derive(Debug)]
pub enum WsServerMessage {
    ChatResponse { session_id: String, message: String },
    ChatChunk { session_id: String, chunk: String },
    ChatComplete { session_id: String },
    Thinking { session_id: String, message: String },
    ToolUse { session_id: String, tool: String, input: String },
    ToolResult { session_id: String, tool: String, result: String },
    SessionCreated { session_id: String },
    SessionLoaded { session_id: String, messages: Vec<MessageDto> },
    SessionsList { sessions: Vec<String> },
    SessionDeleted { session_id: String },
    Error { message: String },
    Pong,
}

/// One endpoint of the REST API.
#[derive(Debug, Clone)]
pub struct EndpointInfo {
    pub method: String,
    pub path: String,
    pub description: String,
}

/// The server-info document.
#[derive(Debug, Clone)]
pub struct ServerInfo {
    pub name: String,
    pub version: String,
    pub endpoints: Vec<EndpointInfo>,
}

/// A session summary of the REST API.
#[derive(Debug, Clone)]
pub struct SessionInfo {
    pub id: String,
    pub message_count: usize,
    pub created_at: String,
}

/// A chat request body.
#[derive(Debug, Clone)]
pub struct ChatRequest {
    pub message: String,
}

/// A chat response body.
#[derive(Debug, Clone)]
pub struct ChatResponse {
    pub response: String,
    pub session_id: String,
}

/// The endpoints the server lists, as (method, path, description).
pub open spec fn endpoints_spec() -> Seq<(Seq<char>, Seq<char>, Seq<char>)> {
    seq![
        ("GET"@, "/"@, "Serve the chat UI"@),
        ("GET"@, "/ws"@, "WebSocket endpoint for real-time chat"@),
        ("GET"@, "/api/info"@, "Server information"@),
        ("GET"@, "/api/sessions"@, "List all sessions"@),
        ("POST"@, "/api/sessions"@, "Create a new session"@),
        ("GET"@, "/api/sessions/{id}"@, "Get a session by ID"@),
        ("DELETE"@, "/api/sessions/{id}"@, "Delete a session"@),
        ("POST"@, "/api/sessions/{id}/chat"@, "Send a message to the agent"@),
    ]
}

fn endpoint(method: &str, path: &str, description: &str) -> (r: EndpointInfo)
    ensures
        r.method@ == method@,
        r.path@ == path@,
        r.description@ == description@,
{
    EndpointInfo { method: to_owned(method), path: to_owned(path), description: to_owned(description) }
}

/// The server-info document for a server of `version`.
pub fn server_info(version: &str) -> (r: ServerInfo)
    ensures
        r.name@ == "AxonerAI Agent Server"@,
        r.version@ == version@,
        r.endpoints@.len() == endpoints_spec().len(),
        forall|i: int|
            0 <= i < r.endpoints@.len() ==> (#[trigger] r.endpoints@[i]).method@ == endpoints_spec()[i].0
                && r.endpoints@[i].path@ == endpoints_spec()[i].1 && r.endpoints@[i].description@
                == endpoints_spec()[i].2,
{
    let mut e: Vec<EndpointInfo> = Vec::new();
    e.push(endpoint("GET", "/", "Serve the chat UI"));
    e.push(endpoint("GET", "/ws", "WebSocket endpoint for real-time chat"));
    e.push(endpoint("GET", "/api/info", "Server information"));
    e.push(endpoint("GET", "/api/sessions", "List all sessions"));
    e.push(endpoint("POST", "/api/sessions", "Create a new session"));
    e.push(endpoint("GET", "/api/sessions/{id}", "Get a session by ID"));
    e.push(endpoint("DELETE", "/api/sessions/{id}", "Delete a session"));
    e.push(endpoint("POST", "/api/sessions/{id}/chat", "Send a message to the agent"));
    ServerInfo { name: to_owned("AxonerAI Agent Server"), version: to_owned(version), endpoints: e }
}

/// One tool result as the model reads it: `Tool '<name>' returned: <result>`.
pub open spec fn tool_result_line(r: ToolResult) -> Seq<char> {
    "Tool '"@ + r.tool_name@ + "' returned: "@ + r.result@
}

/// The lines of tool results.
pub open spec fn tool_result_lines(rs: Seq<ToolResult>) -> Seq<Seq<char>> {
    Seq::new(rs.len(), |i: int| tool_result_line(rs[i]))
}

/// Tool results as one message: one line per result.
pub fn format_tool_results(results: &Vec<ToolResult>) -> (r: String)
    ensures
        r@ == join_spec(tool_result_lines(results@), "\n"@),
{
    let mut lines: Vec<String> = Vec::new();
    let mut i: usize = 0;
    while i < results.len()
        invariant
            0 <= i <= results@.len(),
            lines@.len() == i,
            forall|k: int| 0 <= k < i ==> (#[trigger] lines@[k])@ == tool_result_line(results@[k]),
        decreases results.len() - i,
    {
        let mut s = to_owned("Tool '");
        s.append(results[i].tool_name.as_str());
        s.append("' returned: ");
        s.append(results[i].result.as_str());
        lines.push(s);
        i += 1;
    }
    proof {
        assert(views(lines@) =~= tool_result_lines(results@));
    }
    crate::text::join_strings(&lines, "\n")
}

/// A JSON text rendered compactly after parsing it, `None` when it does
/// not parse (named result of `serde_json::from_str::<serde_json::Value>`
/// and then `serde_json::to_string`).
pub uninterp spec fn json_compact(text: Seq<char>) -> Option<Seq<char>>;

/// Parse a JSON text with `serde_json::from_str::<serde_json::Value>` and
/// render it again with `serde_json::to_string`; `None` exactly when the
/// text does not parse. The rendering is named, not stated.
#[verifier::external_body]
fn render_json(text: &str) -> (r: Option<String>)
    ensures
        match r {
            None => json_compact(text@) is None,
            Some(t) => json_compact(text@) == Some(t@),
        },
        r is None <==> !json_parses(text@),
{
    let v: serde_json::Value = serde_json::from_str(text).ok()?;
    serde_json::to_string(&v).ok()
}

/// A call's input as the tool-use line shows it: the compact JSON, `null`
/// when the arguments do not parse.
pub open spec fn shown_input(input_json: Seq<char>) -> Seq<char> {
    match json_compact(input_json) {
        Some(t) => t,
        None => "null"@,
    }
}

/// One tool call as the server's history records it.
pub open spec fn tool_use_line(c: ToolCall) -> Seq<char> {
    "Using tool '"@ + c.name@ + "' with input: "@ + shown_input(c.input_json@)
}

/// The lines of tool calls.
pub open spec fn tool_use_lines(cs: Seq<ToolCall>) -> Seq<Seq<char>> {
    Seq::new(cs.len(), |i: int| tool_use_line(cs[i]))
}

/// The tool calls of a response as one message: one line per call.
pub fn format_tool_use(calls: &Vec<ToolCall>) -> (r: String)
    ensures
        r@ == join_spec(tool_use_lines(calls@), "\n"@),
{
    let mut lines: Vec<String> = Vec::new();
    let mut i: usize = 0;
    while i < calls.len()
        invariant
            0 <= i <= calls@.len(),
            lines@.len() == i,
            forall|k: int| 0 <= k < i ==> (#[trigger] lines@[k])@ == tool_use_line(calls@[k]),
        decreases calls.len() - i,
    {
        let mut s = to_owned("Using tool '");
        s.append(calls[i].name.as_str());
        s.append("' with input: ");
        match render_json(calls[i].input_json.as_str()) {
            Some(t) => s.append(t.as_str()),
            None => s.append("null"),
        }
        lines.push(s);
        i += 1;
    }
    proof {
        assert(views(lines@) =~= tool_use_lines(calls@));
    }
    crate::text::join_strings(&lines, "\n")
}

/// A plain message (no tool fields) with this role and content.
pub open spec fn is_plain(m: Message, role: Seq<char>, content: Seq<char>) -> bool {
    &&& m.role@ == role
    &&& m.content@ == content
    &&& m.tool_calls is None
    &&& m.tool_call_id is None
}

/// What one tool round adds to a server chat turn's history: the
/// response's text as an assistant message when there is one, then the
/// tool-use lines as an assistant message, then the results as a user
/// message.
pub fn server_round_messages(text: Option<&str>, calls: &Vec<ToolCall>, results: &Vec<ToolResult>) -> (r: Vec<Message>)
    ensures
        ({
            let k: int = if text is Some { 1 } else { 0 };
            &&& r@.len() == k + 2
            &&& text is Some ==> is_plain(r@[0], "assistant"@, text.unwrap()@)
            &&& is_plain(r@[k], "assistant"@, join_spec(tool_use_lines(calls@), "\n"@))
            &&& is_plain(r@[k + 1], "user"@, join_spec(tool_result_lines(results@), "\n"@))
        }),
{
    let mut out: Vec<Message> = Vec::new();
    if let Some(t) = text {
        out.push(Message::plain("assistant", t));
    }
    let uses = format_tool_use(calls);
    out.push(Message::plain("assistant", uses.as_str()));
    let res = format_tool_results(results);
    out.push(Message::plain("user", res.as_str()));
    out
}

/// How far a server chat turn has got: the provider calls made so far.
pub struct ServerTurn {
    pub provider_calls: usize,
}

impl ServerTurn {
    /// A turn that has not called the provider yet.
    pub fn new() -> (r: ServerTurn)
        ensures
            r.provider_calls == 0,
    {
        ServerTurn { provider_calls: 0 }
    }

    /// Whether the turn may call the provider again.
    pub fn may_call(&self) -> (r: bool)
        ensures
            r == (self.provider_calls < SERVER_MAX_ITERATIONS),
    {
        self.provider_calls < SERVER_MAX_ITERATIONS
    }

    /// Account for one provider response and decide: reply, or run the
    /// tools and ask again.
    pub fn on_response(&mut self, stop: StopReason, text: Option<&str>, n_calls: usize) -> (r: TurnStep)
        requires
            old(self).provider_calls < SERVER_MAX_ITERATIONS,
        ensures
            final(self).provider_calls == old(self).provider_calls + 1,
            match turn_reply(
                stop,
                match text {
                    Some(t) => Some(t@),
                    None => None,
                },
                n_calls as nat,
            ) {
                Some(t) => r matches TurnStep::Reply(s) && s@ == t,
                None => r is RunTools,
            },
    {
        self.provider_calls = self.provider_calls + 1;
        turn_step(stop, text, n_calls)
    }

    /// The reply once the provider calls are used up.
    pub fn exhausted_reply(&self) -> (r: String)
        ensures
            r@ == MAX_ITERATIONS_REPLY@,
    {
        to_owned(MAX_ITERATIONS_REPLY)
    }
}

/// The most provider calls one server chat turn makes.
pub const SERVER_MAX_ITERATIONS: usize = 10;

/// The reply when a server chat turn uses up its provider calls.
pub const MAX_ITERATIONS_REPLY: &'static str = "Agent reached max iterations";

/// What a server chat turn does with a provider response: reply, or run
/// the requested tools and ask again.
#[derive(Debug)]
pub enum TurnStep {
    Reply(String),
    RunTools,
}

/// The reply a server chat turn gives on a response, if any.
pub open spec fn turn_reply(stop: StopReason, text: Option<Seq<char>>, n_calls: nat) -> Option<Seq<char>> {
    match stop {
        StopReason::EndTurn => Some(
            match text {
                Some(t) => t,
                None => "(No response)"@,
            },
        ),
        StopReason::ToolUse => if n_calls == 0 {
            Some("Agent wanted to use tools but didn't specify any"@)
        } else {
            None
        },
        StopReason::MaxTokens => Some("Agent hit max tokens limit"@),
        StopReason::ContentFilter => Some("Agent stopped: ContentFilter"@),
        StopReason::Error => Some("Agent stopped: Error"@),
    }
}

/// A server chat turn's decision on a provider response.
pub fn turn_step(stop: StopReason, text: Option<&str>, n_calls: usize) -> (r: TurnStep)
    ensures
        match turn_reply(
            stop,
            match text {
                Some(t) => Some(t@),
                None => None,
            },
            n_calls as nat,
        ) {
            Some(t) => r matches TurnStep::Reply(s) && s@ == t,
            None => r is RunTools,
        },
{
    match stop {
        StopReason::EndTurn => match text {
            Some(t) => TurnStep::Reply(to_owned(t)),
            None => TurnStep::Reply(to_owned("(No response)")),
        },
        StopReason::ToolUse => if n_calls == 0 {
            TurnStep::Reply(to_owned("Agent wanted to use tools but didn't specify any"))
        } else {
            TurnStep::RunTools
        },
        StopReason::MaxTokens => TurnStep::Reply(to_owned("Agent hit max tokens limit")),
        StopReason::ContentFilter => TurnStep::Reply(to_owned("Agent stopped: ContentFilter")),
        StopReason::Error => TurnStep::Reply(to_owned("Agent stopped: Error")),
    }
}

/// The answer to a frame that is not a client message.
pub fn invalid_message_reply(error: &str) -> (r: WsServerMessage)
    ensures
        r matches WsServerMessage::Error { message } && message@ == "Invalid message format: "@ + error@,
{
    let mut m = to_owned("Invalid message format: ");
    m.append(error);
    WsServerMessage::Error { message: m }
}

/// The answer to `new_session` once the empty session's save returned.
pub fn session_created_reply(session_id: String, saved: Result<(), String>) -> (r: WsServerMessage)
    ensures
        match saved {
            Ok(()) => r matches WsServerMessage::SessionCreated { session_id: id } && id == session_id,
            Err(e) => r matches WsServerMessage::Error { message } && message == e,
        },
{
    match saved {
        Ok(()) => WsServerMessage::SessionCreated { session_id },
        Err(e) => WsServerMessage::Error { message: e },
    }
}

/// The answer to `load_session` once the storage answered.
pub fn session_loaded_reply(session_id: String, loaded: Result<Option<Vec<MessageDto>>, String>) -> (r: WsServerMessage)
    ensures
        match loaded {
            Ok(Some(ms)) => r matches WsServerMessage::SessionLoaded { session_id: id, messages } && id
                == session_id && messages == ms,
            Ok(None) => r matches WsServerMessage::Error { message } && message@ == "Session not found"@,
            Err(e) => r matches WsServerMessage::Error { message } && message == e,
        },
{
    match loaded {
        Ok(Some(messages)) => WsServerMessage::SessionLoaded { session_id, messages },
        Ok(None) => WsServerMessage::Error { message: to_owned("Session not found") },
        Err(e) => WsServerMessage::Error { message: e },
    }
}

/// The answer to `list_sessions` once the storage answered.
pub fn sessions_list_reply(listed: Result<Vec<String>, String>) -> (r: WsServerMessage)
    ensures
        match listed {
            Ok(ss) => r matches WsServerMessage::SessionsList { sessions } && sessions == ss,
            Err(e) => r matches WsServerMessage::Error { message } && message == e,
        },
{
    match listed {
        Ok(sessions) => WsServerMessage::SessionsList { sessions },
        Err(e) => WsServerMessage::Error { message: e },
    }
}

/// The answer to `delete_session` once the storage answered.
pub fn session_deleted_reply(session_id: String, deleted: Result<(), String>) -> (r: WsServerMessage)
    ensures
        match deleted {
            Ok(()) => r matches WsServerMessage::SessionDeleted { session_id: id } && id == session_id,
            Err(e) => r matches WsServerMessage::Error { message } && message == e,
        },
{
    match deleted {
        Ok(()) => WsServerMessage::SessionDeleted { session_id },
        Err(e) => WsServerMessage::Error { message: e },
    }
}

/// The answer to `chat` once the turn finished and the session was saved.
pub fn chat_reply(session_id: String, turn: Result<String, String>, saved: Result<(), String>) -> (r: WsServerMessage)
    ensures
        match turn {
            Err(e) => r matches WsServerMessage::Error { message } && message == e,
            Ok(text) => match saved {
                Err(e) => r matches WsServerMessage::Error { message } && message == e,
                Ok(()) => r matches WsServerMessage::ChatResponse { session_id: id, message } && id == session_id
                    && message == text,
            },
        },
{
    match turn {
        Err(e) => WsServerMessage::Error { message: e },
        Ok(text) => match saved {
            Err(e) => WsServerMessage::Error { message: e },
            Ok(()) => WsServerMessage::ChatResponse { session_id, message: text },
        },
    }
}

} // verus!
