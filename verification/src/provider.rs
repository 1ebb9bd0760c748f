//! What a provider hands back, as plain values: why a completion stopped,
//! the tool calls it asked for, and the messages of a conversation. The
//! decoding of an OpenAI-compatible `choices[0]` into a completion is here;
//! the HTTP exchange itself is the caller's.
use vstd::prelude::*;

use crate::text::{str_eq, to_owned};

verus! {

/// Why the completion stopped.
#[derive(Debug, Clone, Copy, PartialEq, Eq, Structural)]
pub enum StopReason {
    /// Natural completion.
    EndTurn,
    /// Wants to call tools.
    ToolUse,
    /// Hit the token limit.
    MaxTokens,
    /// Filtered by the provider.
    ContentFilter,
    /// Something went wrong.
    Error,
}

/// The stop reason of an OpenAI-compatible `finish_reason`.
pub open spec fn finish_reason_spec(finish: Seq<char>) -> StopReason {
    if finish == "tool_calls"@ {
        StopReason::ToolUse
    } else if finish == "stop"@ {
        StopReason::EndTurn
    } else if finish == "length"@ {
        StopReason::MaxTokens
    } else if finish == "content_filter"@ {
        StopReason::ContentFilter
    } else {
        StopReason::Error
    }
}

impl StopReason {
    /// Map an OpenAI-compatible `finish_reason`; anything unknown is `Error`.
    pub fn from_finish_reason(finish: &str) -> (r: StopReason)
        ensures
            r == finish_reason_spec(finish@),
    {
        if str_eq(finish, "tool_calls") {
            StopReason::ToolUse
        } else if str_eq(finish, "stop") {
            StopReason::EndTurn
        } else if str_eq(finish, "length") {
            StopReason::MaxTokens
        } else if str_eq(finish, "content_filter") {
            StopReason::ContentFilter
        } else {
            StopReason::Error
        }
    }

    /// The variant's name, as `{:?}` prints it.
    pub fn name(self) -> (r: &'static str)
        ensures
            r@ == match self {
                StopReason::EndTurn => "EndTurn"@,
                StopReason::ToolUse => "ToolUse"@,
                StopReason::MaxTokens => "MaxTokens"@,
                StopReason::ContentFilter => "ContentFilter"@,
                StopReason::Error => "Error"@,
            },
    {
        match self {
            StopReason::EndTurn => "EndTurn",
            StopReason::ToolUse => "ToolUse",
            StopReason::MaxTokens => "MaxTokens",
            StopReason::ContentFilter => "ContentFilter",
            StopReason::Error => "Error",
        }
    }
}

/// A tool call the model asked for; `input_json` is the JSON text of the
/// call's arguments.
#[derive(Debug)]
pub struct ToolCall {
    pub id: String,
    pub name: String,
    pub input_json: String,
}

/// A message of a conversation: role `user`, `assistant`, `tool` or
/// `system`.
#[derive(Debug)]
pub struct Message {
    pub role: String,
    pub content: String,
    pub tool_calls: Option<Vec<ToolCall>>,
    pub tool_call_id: Option<String>,
}

impl Message {
    /// A plain message with no tool fields.
    pub fn plain(role: &str, content: &str) -> (r: Message)
        ensures
            r.role@ == role@,
            r.content@ == content@,
            r.tool_calls is None,
            r.tool_call_id is None,
    {
        Message { role: to_owned(role), content: to_owned(content), tool_calls: None, tool_call_id: None }
    }

    /// The message that carries a tool's result back to the model.
    pub fn tool_result(call_id: &str, content: &str) -> (r: Message)
        ensures
            r.role@ == "tool"@,
            r.content@ == content@,
            r.tool_calls is None,
            r.tool_call_id is Some && r.tool_call_id.unwrap()@ == call_id@,
    {
        Message {
            role: to_owned("tool"),
            content: to_owned(content),
            tool_calls: None,
            tool_call_id: Some(to_owned(call_id)),
        }
    }
}

/// The messages sent to an OpenAI-compatible endpoint: the system prompt,
/// when there is one, first as a `system` message, then the conversation.
pub fn request_messages(system_prompt: Option<&str>, messages: Vec<Message>) -> (r: Vec<Message>)
    ensures
        match system_prompt {
            Some(p) => r@.len() == messages@.len() + 1 && r@[0].role@ == "system"@ && r@[0].content@
                == p@ && r@[0].tool_calls is None && r@[0].tool_call_id is None && r@.skip(1)
                == messages@,
            None => r@ == messages@,
        },
{
    match system_prompt {
        Some(p) => {
            let mut out = messages;
            out.insert(0, Message::plain("system", p));
            proof {
                reveal_strlit("system");
            }
            out
        },
        None => messages,
    }
}

/// The JSON text parses as a JSON value (named result of
/// `serde_json::from_str::<serde_json::Value>`).
pub uninterp spec fn json_parses(text: Seq<char>) -> bool;

/// Whether `serde_json::from_str::<serde_json::Value>` accepts the text.
/// Nothing more of serde_json's grammar is stated than that the answer is
/// a function of the text.
#[verifier::external_body]
pub(crate) fn is_json(text: &str) -> (r: bool)
    ensures
        r == json_parses(text@),
{
    serde_json::from_str::<serde_json::Value>(text).is_ok()
}

/// A tool call as an OpenAI-compatible response carries it: the arguments
/// are JSON text that may not parse.
#[derive(Debug)]
pub struct WireToolCall {
    pub id: String,
    pub name: String,
    pub arguments: String,
}

/// The first choice of an OpenAI-compatible response.
#[derive(Debug)]
pub struct WireChoice {
    pub content: Option<String>,
    pub tool_calls: Option<Vec<WireToolCall>>,
    pub finish_reason: String,
}

/// Unified response from any provider.
#[derive(Debug)]
pub struct Completion {
    pub text: Option<String>,
    pub tool_calls: Vec<ToolCall>,
    pub stop_reason: StopReason,
}

/// Why a response could not be decoded.
#[derive(Debug, Clone, Copy, PartialEq, Eq, Structural)]
pub enum CompletionError {
    /// The response has no `choices[0]`.
    NoChoices,
}

/// The arguments text a decoded call keeps: the text itself when it is
/// JSON, `{}` otherwise.
pub open spec fn call_input_spec(arguments: Seq<char>, parses: bool) -> Seq<char> {
    if parses {
        arguments
    } else {
        "{}"@
    }
}

/// Decode the arguments of one wire call: unparsable arguments become `{}`.
pub fn call_input(arguments: &str) -> (r: String)
    ensures
        r@ == call_input_spec(arguments@, json_parses(arguments@)),
{
    if is_json(arguments) {
        to_owned(arguments)
    } else {
        to_owned("{}")
    }
}

/// Decode `choices[0]` of a response: its text, its tool calls (arguments
/// that do not parse become `{}`) and the stop reason of its
/// `finish_reason`. A response without choices is `NoChoices`.
pub fn decode_completion(choice: Option<WireChoice>) -> (r: Result<Completion, CompletionError>)
    ensures
        match choice {
            None => r == Err::<Completion, CompletionError>(CompletionError::NoChoices),
            Some(c) => r is Ok && {
                let d = r->Ok_0;
                &&& d.text == c.content
                &&& d.stop_reason == finish_reason_spec(c.finish_reason@)
                &&& match c.tool_calls {
                    None => d.tool_calls@.len() == 0,
                    Some(calls) => d.tool_calls@.len() == calls@.len() && forall|i: int|
                        0 <= i < calls@.len() ==> {
                            &&& (#[trigger] d.tool_calls@[i]).id == calls@[i].id
                            &&& d.tool_calls@[i].name == calls@[i].name
                            &&& d.tool_calls@[i].input_json@ == call_input_spec(
                                calls@[i].arguments@,
                                json_parses(calls@[i].arguments@),
                            )
                        },
                }
            },
        },
{
    match choice {
        None => Err(CompletionError::NoChoices),
        Some(c) => {
            let WireChoice { content, tool_calls, finish_reason } = c;
            let stop_reason = StopReason::from_finish_reason(finish_reason.as_str());
            let mut decoded: Vec<ToolCall> = Vec::new();
            match tool_calls {
                None => {},
                Some(calls) => {
                    let ghost orig = calls@;
                    let mut rest = calls;
                    let ghost mut j: int = 0;
                    while rest.len() > 0
                        invariant
                            0 <= j <= orig.len(),
                            rest@ == orig.skip(j),
                            decoded@.len() == j,
                            forall|i: int|
                                0 <= i < j ==> {
                                    &&& (#[trigger] decoded@[i]).id == orig[i].id
                                    &&& decoded@[i].name == orig[i].name
                                    &&& decoded@[i].input_json@ == call_input_spec(
                                        orig[i].arguments@,
                                        json_parses(orig[i].arguments@),
                                    )
                                },
                        decreases rest.len(),
                    {
                        let w = rest.remove(0);
                        proof {
                            assert(w == orig[j]);
                        }
                        let input_json = call_input(w.arguments.as_str());
                        decoded.push(ToolCall { id: w.id, name: w.name, input_json });
                        proof {
                            j = j + 1;
                            assert(rest@ =~= orig.skip(j));
                        }
                    }
                },
            }
            Ok(Completion { text: content, tool_calls: decoded, stop_reason })
        },
    }
}

} // verus!
