//! The decisions of one `agt serve` WebSocket session: what to answer to
//! each client frame, and how the agent's outcome is reported. The program
//! around it reads frames, runs the agent and sends the replies.
use vstd::prelude::*;

use crate::text::{to_owned, trim, trim_string};

verus! {

/// The error sent when a prompt arrives and no provider is configured.
pub const NO_PROVIDER_MESSAGE: &'static str = "No provider configured. Set OPENAI_API_KEY / GROQ_API_KEY / ANTHROPIC_API_KEY.";

/// A client frame of the session, once parsed.
#[derive(Debug, Clone)]
pub enum SessionFrame {
    Prompt { id: Option<String>, text: String },
    Ping { id: Option<String> },
}

/// A reply the session sends.
#[derive(Debug, Clone)]
pub enum SessionReply {
    Pong { id: Option<String> },
    Assistant { id: Option<String>, text: String },
    Error { id: Option<String>, message: String },
}

/// What the session does with one frame.
#[derive(Debug, Clone)]
pub enum SessionAction {
    /// Send this reply and wait for the next frame.
    Send(SessionReply),
    /// Run the agent on this (trimmed) prompt; report with `agent_reply`.
    RunAgent { id: Option<String>, text: String },
}

/// The answer to one frame: a parse error is reported without an id, a
/// ping is answered by a pong with its id, a prompt runs the agent on its
/// trimmed text when an agent is configured and is refused otherwise.
pub fn on_frame(agent_configured: bool, frame: Result<SessionFrame, String>) -> (r: SessionAction)
    ensures
        match frame {
            Err(e) => r matches SessionAction::Send(SessionReply::Error { id, message }) && id is None
                && message@ == "invalid message: "@ + e@,
            Ok(SessionFrame::Ping { id }) => r matches SessionAction::Send(SessionReply::Pong { id: pid })
                && pid == id,
            Ok(SessionFrame::Prompt { id, text }) => if agent_configured {
                r matches SessionAction::RunAgent { id: rid, text: t } && rid == id && t@ == trim(text@)
            } else {
                r matches SessionAction::Send(SessionReply::Error { id: eid, message }) && eid == id
                    && message@ == NO_PROVIDER_MESSAGE@
            },
        },
{
    match frame {
        Err(e) => {
            let mut m = to_owned("invalid message: ");
            m.append(e.as_str());
            SessionAction::Send(SessionReply::Error { id: None, message: m })
        },
        Ok(SessionFrame::Ping { id }) => SessionAction::Send(SessionReply::Pong { id }),
        Ok(SessionFrame::Prompt { id, text }) => {
            if agent_configured {
                SessionAction::RunAgent { id, text: trim_string(text.as_str()) }
            } else {
                SessionAction::Send(SessionReply::Error { id, message: to_owned(NO_PROVIDER_MESSAGE) })
            }
        },
    }
}

/// The report of an agent run: its reply, or the error prefixed with
/// `agent error: `, under the prompt's id.
pub fn agent_reply(id: Option<String>, outcome: Result<String, String>) -> (r: SessionReply)
    ensures
        match outcome {
            Ok(text) => r matches SessionReply::Assistant { id: rid, text: t } && rid == id && t == text,
            Err(e) => r matches SessionReply::Error { id: rid, message } && rid == id && message@
                == "agent error: "@ + e@,
        },
{
    match outcome {
        Ok(text) => SessionReply::Assistant { id, text },
        Err(e) => {
            let mut m = to_owned("agent error: ");
            m.append(e.as_str());
            SessionReply::Error { id, message: m }
        },
    }
}

} // verus!
