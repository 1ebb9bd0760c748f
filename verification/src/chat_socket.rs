//! The plain chat socket of the single-agent server: each text frame is a
//! user message (the `content` string of a JSON frame, else the frame's
//! text), echoed back, then answered by the agent or with the error.
use vstd::prelude::*;

use crate::rollout::json_string_field;
use crate::text::to_owned;

verus! {

/// The greeting sent when a socket connects.
pub const WELCOME_MESSAGE: &'static str = "Connected to AxonerAI agent";

/// A message sent over the chat socket: its kind and its content.
#[derive(Debug, Clone)]
pub enum ChatSocketReply {
    /// The greeting.
    System(String),
    /// The echo of the user's message.
    User(String),
    /// The agent's answer.
    Assistant(String),
    /// Why the agent could not answer.
    Error(String),
}

/// The `type` tag of a reply.
pub open spec fn reply_tag(r: ChatSocketReply) -> Seq<char> {
    match r {
        ChatSocketReply::System(_) => "system"@,
        ChatSocketReply::User(_) => "user"@,
        ChatSocketReply::Assistant(_) => "assistant"@,
        ChatSocketReply::Error(_) => "error"@,
    }
}

impl ChatSocketReply {
    /// The `type` tag the frame carries.
    pub fn type_tag(&self) -> (r: &'static str)
        ensures
            r@ == reply_tag(*self),
    {
        match self {
            ChatSocketReply::System(_) => "system",
            ChatSocketReply::User(_) => "user",
            ChatSocketReply::Assistant(_) => "assistant",
            ChatSocketReply::Error(_) => "error",
        }
    }

    /// The frame's `content`.
    pub fn content(&self) -> (r: &str)
        ensures
            r@ == match self {
                ChatSocketReply::System(c) => c@,
                ChatSocketReply::User(c) => c@,
                ChatSocketReply::Assistant(c) => c@,
                ChatSocketReply::Error(c) => c@,
            },
    {
        match self {
            ChatSocketReply::System(c) => c.as_str(),
            ChatSocketReply::User(c) => c.as_str(),
            ChatSocketReply::Assistant(c) => c.as_str(),
            ChatSocketReply::Error(c) => c.as_str(),
        }
    }
}

/// The greeting frame.
pub fn welcome() -> (r: ChatSocketReply)
    ensures
        r matches ChatSocketReply::System(c) && c@ == WELCOME_MESSAGE@,
{
    ChatSocketReply::System(to_owned(WELCOME_MESSAGE))
}

/// The user's message in a text frame: the `content` string when the frame
/// is JSON with one, else the frame's whole text.
pub open spec fn frame_text_spec(frame: Seq<char>) -> Seq<char> {
    match json_string_field(frame, "content"@) {
        Some(Some(c)) => c,
        _ => frame,
    }
}

/// The user's message in a text frame.
pub fn frame_text(frame: &str) -> (r: String)
    ensures
        r@ == frame_text_spec(frame@),
{
    match crate::rollout::json_str_field(frame, "content") {
        Some(Some(c)) => c,
        _ => to_owned(frame),
    }
}

/// The echo of the user's message.
pub fn user_echo(message: &str) -> (r: ChatSocketReply)
    ensures
        r matches ChatSocketReply::User(c) && c@ == message@,
{
    ChatSocketReply::User(to_owned(message))
}

/// The answer once the agent has run: its reply, or `Error: <why>`.
pub fn agent_outcome_reply(outcome: Result<String, String>) -> (r: ChatSocketReply)
    ensures
        match outcome {
            Ok(t) => r matches ChatSocketReply::Assistant(x) && x@ == t@,
            Err(e) => r matches ChatSocketReply::Error(m) && m@ == "Error: "@ + e@,
        },
{
    match outcome {
        Ok(t) => ChatSocketReply::Assistant(t),
        Err(e) => {
            let mut m = to_owned("Error: ");
            m.append(e.as_str());
            ChatSocketReply::Error(m)
        },
    }
}

} // verus!
