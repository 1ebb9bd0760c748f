//! The WebSocket wire protocol of `agt serve`.
//!
//! Every event is an object whose `_type` field names its variant in
//! snake_case; the other fields are those of the variant. The serde
//! encoding of these types lives beside the server program; here stand the
//! types and the tag each variant travels under.
use vstd::prelude::*;

verus! {

/// Events sent by the server to the browser over `/ws`.
#[derive(Debug, Clone)]
pub enum ServerMsg<'a> {
    Ready { version: &'a str, websocket_path: &'a str },
    Pong { id: Option<&'a str> },
    Assistant { id: Option<&'a str>, text: &'a str },
    Error { id: Option<&'a str>, message: &'a str },
    /// Per-tool-call trace; `args_pretty` and `result_pretty` are already
    /// abridged by the sender, the rollout keeps the full text.
    ToolCall {
        id: Option<&'a str>,
        session_id: &'a str,
        tool: &'a str,
        args_pretty: &'a str,
        result_pretty: &'a str,
        bytes_up: usize,
        bytes_down: usize,
        duration_ms: u64,
        ts: u64,
    },
    /// Session metadata; also the first record of a fresh rollout.
    SessionMeta { session_id: &'a str, title: &'a str, created_at: u64 },
    /// Generic acknowledgement (rename and later settings operations).
    Ack { for_type: &'a str, ok: bool, message: Option<&'a str> },
}

/// Records that live in a rollout only and are never broadcast.
#[derive(Debug, Clone)]
pub enum RolloutRecord {
    SessionRename { title: String, ts: u64 },
    /// Full-fidelity tool trace, the rollout counterpart of
    /// `ServerMsg::ToolCall`; `args_json` and `result_json` are pretty JSON.
    ToolTrace {
        tool: String,
        args_json: String,
        result_json: String,
        bytes_up: usize,
        bytes_down: usize,
        duration_ms: u64,
        ts: u64,
    },
}

/// Events sent by the browser to the server over `/ws`.
#[derive(Debug, Clone)]
pub enum ClientMsg {
    Prompt { id: Option<String>, text: String },
    Ping { id: Option<String> },
    Rename { title: String },
}

/// The `_type` tag of a server event.
pub open spec fn server_tag<'a>(m: ServerMsg<'a>) -> Seq<char> {
    match m {
        ServerMsg::Ready { .. } => "ready"@,
        ServerMsg::Pong { .. } => "pong"@,
        ServerMsg::Assistant { .. } => "assistant"@,
        ServerMsg::Error { .. } => "error"@,
        ServerMsg::ToolCall { .. } => "tool_call"@,
        ServerMsg::SessionMeta { .. } => "session_meta"@,
        ServerMsg::Ack { .. } => "ack"@,
    }
}

/// The `_type` tag of a rollout record.
pub open spec fn record_tag(r: RolloutRecord) -> Seq<char> {
    match r {
        RolloutRecord::SessionRename { .. } => "session_rename"@,
        RolloutRecord::ToolTrace { .. } => "tool_trace"@,
    }
}

/// The `_type` tag of a client event.
pub open spec fn client_tag(m: ClientMsg) -> Seq<char> {
    match m {
        ClientMsg::Prompt { .. } => "prompt"@,
        ClientMsg::Ping { .. } => "ping"@,
        ClientMsg::Rename { .. } => "rename"@,
    }
}

impl<'a> ServerMsg<'a> {
    /// The `_type` tag this event travels under.
    pub fn type_tag(&self) -> (r: &'static str)
        ensures
            r@ == server_tag(*self),
    {
        match self {
            ServerMsg::Ready { .. } => "ready",
            ServerMsg::Pong { .. } => "pong",
            ServerMsg::Assistant { .. } => "assistant",
            ServerMsg::Error { .. } => "error",
            ServerMsg::ToolCall { .. } => "tool_call",
            ServerMsg::SessionMeta { .. } => "session_meta",
            ServerMsg::Ack { .. } => "ack",
        }
    }
}

impl RolloutRecord {
    /// The `_type` tag this record is stored under.
    pub fn type_tag(&self) -> (r: &'static str)
        ensures
            r@ == record_tag(*self),
    {
        match self {
            RolloutRecord::SessionRename { .. } => "session_rename",
            RolloutRecord::ToolTrace { .. } => "tool_trace",
        }
    }
}

impl ClientMsg {
    /// The `_type` tag this event travels under.
    pub fn type_tag(&self) -> (r: &'static str)
        ensures
            r@ == client_tag(*self),
    {
        match self {
            ClientMsg::Prompt { .. } => "prompt",
            ClientMsg::Ping { .. } => "ping",
            ClientMsg::Rename { .. } => "rename",
        }
    }
}

} // verus!
