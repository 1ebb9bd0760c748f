//! The tool executor's rules: the per-run tool-round budget, whether a
//! requested call may run at all (known and not disabled), and how a failed
//! call is reported back to the model.
use vstd::prelude::*;

use crate::text::to_owned;
use crate::tool::ToolRegistry;

verus! {

/// Default per-run tool-round budget: how many model responses that request
/// tool use may be executed before the run stops with an honest final
/// message.
pub const DEFAULT_TOOL_ROUND_BUDGET: usize = 25;

/// Result from executing a tool. `is_error` marks a failed execution whose
/// `result` carries the error text.
#[derive(Debug, Clone)]
pub struct ToolResult {
    pub tool_call_id: String,
    pub tool_name: String,
    pub result: String,
    pub is_error: bool,
}

impl ToolResult {
    /// A successful call's result.
    pub fn success(call_id: &str, tool_name: &str, result: &str) -> (r: ToolResult)
        ensures
            r.tool_call_id@ == call_id@,
            r.tool_name@ == tool_name@,
            r.result@ == result@,
            !r.is_error,
    {
        ToolResult {
            tool_call_id: to_owned(call_id),
            tool_name: to_owned(tool_name),
            result: to_owned(result),
            is_error: false,
        }
    }

    /// A failed call's result: the error goes back to the model as
    /// `error: <message>`.
    pub fn failure(call_id: &str, tool_name: &str, message: &str) -> (r: ToolResult)
        ensures
            r.tool_call_id@ == call_id@,
            r.tool_name@ == tool_name@,
            r.result@ == "error: "@ + message@,
            r.is_error,
    {
        let mut text = to_owned("error: ");
        text.append(message);
        proof {
            reveal_strlit("error: ");
        }
        ToolResult { tool_call_id: to_owned(call_id), tool_name: to_owned(tool_name), result: text, is_error: true }
    }
}

/// Why a requested tool call may not run.
#[derive(Debug, Clone, Copy, PartialEq, Eq, Structural)]
pub enum CallRefusal {
    /// No tool of that name is registered.
    NotFound,
    /// The tool is registered but suppressed.
    Disabled,
}

/// The message of a refusal for the tool `name`.
pub open spec fn refusal_message_spec(refusal: CallRefusal, name: Seq<char>) -> Seq<char> {
    match refusal {
        CallRefusal::NotFound => "Tool not found: "@ + name,
        CallRefusal::Disabled => "tool '"@ + name + "' is disabled"@,
    }
}

impl CallRefusal {
    /// The message of the refusal, as the model sees it.
    pub fn message(self, name: &str) -> (r: String)
        ensures
            r@ == refusal_message_spec(self, name@),
    {
        match self {
            CallRefusal::NotFound => {
                let mut s = to_owned("Tool not found: ");
                s.append(name);
                s
            },
            CallRefusal::Disabled => {
                let mut s = to_owned("tool '");
                s.append(name);
                s.append("' is disabled");
                s
            },
        }
    }
}

/// Executes tool calls against a registry, counting tool rounds.
pub struct ToolExecutor<'a> {
    registry: &'a ToolRegistry,
    quiet: bool,
    max_rounds: usize,
    rounds: usize,
}

impl<'a> ToolExecutor<'a> {
    /// The registry calls are checked against.
    pub closed spec fn registry_spec(&self) -> &'a ToolRegistry {
        self.registry
    }

    /// The configured tool-round budget.
    pub closed spec fn max_rounds_spec(&self) -> nat {
        self.max_rounds as nat
    }

    /// Tool-use rounds counted so far.
    pub closed spec fn rounds_spec(&self) -> nat {
        self.rounds as nat
    }

    /// Whether per-call chatter is suppressed.
    pub closed spec fn quiet_spec(&self) -> bool {
        self.quiet
    }

    /// The counters are machine integers.
    pub proof fn lemma_counters_bounded(&self)
        ensures
            self.rounds_spec() <= usize::MAX,
            self.max_rounds_spec() <= usize::MAX,
    {
    }

    /// A fresh executor: budget `DEFAULT_TOOL_ROUND_BUDGET`, no rounds yet,
    /// not quiet.
    pub fn new(registry: &'a ToolRegistry) -> (r: Self)
        ensures
            r.registry_spec() == registry,
            r.max_rounds_spec() == DEFAULT_TOOL_ROUND_BUDGET,
            r.rounds_spec() == 0,
            !r.quiet_spec(),
    {
        ToolExecutor { registry, quiet: false, max_rounds: DEFAULT_TOOL_ROUND_BUDGET, rounds: 0 }
    }

    /// Suppress the per-call chatter.
    pub fn set_quiet(&mut self, quiet: bool)
        ensures
            final(self).quiet_spec() == quiet,
            final(self).registry_spec() == old(self).registry_spec(),
            final(self).max_rounds_spec() == old(self).max_rounds_spec(),
            final(self).rounds_spec() == old(self).rounds_spec(),
    {
        self.quiet = quiet;
    }

    /// Whether per-call chatter is suppressed.
    pub fn is_quiet(&self) -> (r: bool)
        ensures
            r == self.quiet_spec(),
    {
        self.quiet
    }

    /// Set the per-run tool-round budget; a budget of 0 becomes 1.
    pub fn set_max_rounds(&mut self, max_rounds: usize)
        ensures
            final(self).max_rounds_spec() == if max_rounds == 0 {
                1
            } else {
                max_rounds as nat
            },
            final(self).registry_spec() == old(self).registry_spec(),
            final(self).rounds_spec() == old(self).rounds_spec(),
            final(self).quiet_spec() == old(self).quiet_spec(),
    {
        self.max_rounds = if max_rounds == 0 {
            1
        } else {
            max_rounds
        };
    }

    /// The configured tool-round budget.
    pub fn max_rounds(&self) -> (r: usize)
        ensures
            r == self.max_rounds_spec(),
    {
        self.max_rounds
    }

    /// Tool-use rounds counted so far.
    pub fn rounds(&self) -> (r: usize)
        ensures
            r == self.rounds_spec(),
    {
        self.rounds
    }

    /// Whether another tool round may execute under the budget.
    pub fn round_available(&self) -> (r: bool)
        ensures
            r == (self.rounds_spec() < self.max_rounds_spec()),
    {
        self.rounds < self.max_rounds
    }

    /// Count one tool-use round.
    pub fn begin_round(&mut self)
        requires
            old(self).rounds_spec() < usize::MAX,
        ensures
            final(self).rounds_spec() == old(self).rounds_spec() + 1,
            final(self).max_rounds_spec() == old(self).max_rounds_spec(),
            final(self).registry_spec() == old(self).registry_spec(),
            final(self).quiet_spec() == old(self).quiet_spec(),
    {
        self.rounds = self.rounds + 1;
    }

    /// Whether a call of the tool `name` may run: `NotFound` when no tool of
    /// that name is registered, `Disabled` when it is suppressed.
    pub fn check_call(&self, name: &str) -> (r: Result<(), CallRefusal>)
        requires
            self.registry_spec().wf(),
        ensures
            r == if self.registry_spec().tool_spec(name@) is None {
                Err::<(), CallRefusal>(CallRefusal::NotFound)
            } else if self.registry_spec().suppressed_spec(name@) {
                Err(CallRefusal::Disabled)
            } else {
                Ok(())
            },
    {
        if self.registry.get(name).is_none() {
            return Err(CallRefusal::NotFound);
        }
        if self.registry.is_suppressed(name) {
            return Err(CallRefusal::Disabled);
        }
        Ok(())
    }
}

} // verus!
