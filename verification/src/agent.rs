//! The agent loop's decisions. A run alternates provider calls and tool
//! rounds; this module decides, from the run's state and the last response,
//! what happens next: call the provider, execute the requested tools, or
//! reply (and whether the reply is recorded and the session persisted).
//! The caller performs each action and reports the response back.
use vstd::prelude::*;

use crate::executor::{ToolExecutor, ToolResult};
use crate::provider::{Message, StopReason, ToolCall};
use crate::text::{dec, to_owned, u64_to_string};
use vstd::string::StringSliceAdditionalSpecFns;
use crate::tool::ToolRegistry;

verus! {

/// The most provider calls one run makes.
pub const MAX_ITERATIONS: usize = 10;

/// Full-fidelity trace of a single tool execution. The consumer abridges
/// before egress; these fields are untruncated.
#[derive(Debug, Clone)]
pub struct ToolTrace {
    pub tool: String,
    pub args_json: String,
    pub result_json: String,
    pub bytes_up: usize,
    pub bytes_down: usize,
    pub duration_ms: u64,
    pub ts: u64,
}

impl ToolTrace {
    /// The trace of one call; the byte counts are the UTF-8 lengths of the
    /// argument and result texts.
    pub fn new(tool: &str, args_json: &str, result_json: &str, duration_ms: u64, ts: u64) -> (r: ToolTrace)
        ensures
            r.tool@ == tool@,
            r.args_json@ == args_json@,
            r.result_json@ == result_json@,
            r.bytes_up == args_json.spec_bytes().len() as usize,
            r.bytes_down == result_json.spec_bytes().len() as usize,
            r.duration_ms == duration_ms,
            r.ts == ts,
    {
        ToolTrace {
            tool: to_owned(tool),
            args_json: to_owned(args_json),
            result_json: to_owned(result_json),
            bytes_up: args_json.len(),
            bytes_down: result_json.len(),
            duration_ms,
            ts,
        }
    }
}

/// What the loop does next.
#[derive(Debug)]
pub enum LoopAction {
    /// Send the conversation to the provider and report its response.
    CallProvider,
    /// Execute every tool call of the last response (recording the
    /// assistant message and one tool message per result), then ask again.
    ExecuteTools,
    /// The run ends with `text`. When `record`, the text is first added to
    /// the session as the assistant's message; when `persist`, the session
    /// is saved before returning.
    Reply { text: String, record: bool, persist: bool },
}

/// A loop action as a mathematical value.
pub enum Step {
    Call,
    Execute,
    Reply(Seq<char>, bool, bool),
}

/// The step an action stands for.
pub open spec fn step_of(a: &LoopAction) -> Step {
    match a {
        LoopAction::CallProvider => Step::Call,
        LoopAction::ExecuteTools => Step::Execute,
        LoopAction::Reply { text, record, persist } => Step::Reply(text@, *record, *persist),
    }
}

/// The final message when the provider-call cap is reached.
pub open spec fn max_iterations_text(n: nat) -> Seq<char> {
    "Agent reached max iterations ("@ + dec(n) + ")"@
}

/// The final message when the tool-round budget is exhausted.
pub open spec fn budget_text(n: nat) -> Seq<char> {
    "stopped: tool round budget "@ + dec(n) + " reached"@
}

/// The step taken at the top of an iteration.
pub open spec fn top_step(iterations: nat, max_iterations: nat, rounds: nat, max_rounds: nat) -> Step {
    if iterations >= max_iterations {
        Step::Reply(max_iterations_text(max_iterations), false, true)
    } else if rounds >= max_rounds {
        Step::Reply(budget_text(max_rounds), false, true)
    } else {
        Step::Call
    }
}

/// The step taken on a provider response.
pub open spec fn response_step(stop: StopReason, text: Option<Seq<char>>, n_calls: nat) -> Step {
    match stop {
        StopReason::EndTurn => match text {
            Some(t) => Step::Reply(t, true, true),
            None => Step::Reply("(No response from agent)"@, false, false),
        },
        StopReason::ToolUse => if n_calls == 0 {
            Step::Reply("Agent wanted to use tools but didn't specify any"@, false, false)
        } else {
            Step::Execute
        },
        StopReason::MaxTokens => Step::Reply("Agent hit max tokens limit"@, false, false),
        StopReason::ContentFilter => Step::Reply("Agent stopped with reason: ContentFilter"@, false, false),
        StopReason::Error => Step::Reply("Agent stopped with reason: Error"@, false, false),
    }
}

/// A run in which every provider response asks for at least one tool,
/// followed step by step from `iterations` provider calls and `rounds` tool
/// rounds: how many more provider calls it makes and the text it ends
/// with. Each iteration is the top step (`top_step`) and, on a call, the
/// response step (`response_step`) of a tool-use response.
pub open spec fn tool_only_run(iterations: nat, rounds: nat, max_iterations: nat, budget: nat, n_calls: nat) -> (
    nat,
    Seq<char>,
)
    decreases max_iterations - iterations,
{
    match top_step(iterations, max_iterations, rounds, budget) {
        Step::Reply(t, _, _) => (0, t),
        _ => if iterations < max_iterations && response_step(StopReason::ToolUse, None, n_calls) is Execute {
            let (c, t) = tool_only_run(iterations + 1, rounds + 1, max_iterations, budget, n_calls);
            (c + 1, t)
        } else {
            (0, Seq::empty())
        },
    }
}

/// When every response asks for tools, a run with budget `budget` (at
/// least 1) and cap `max_iterations` calls the provider exactly
/// `min(budget, max_iterations)` times, then ends with the max-iterations
/// text when the cap is not above the budget, else with the budget text.
pub proof fn law_tool_only_run(max_iterations: nat, budget: nat, n_calls: nat)
    requires
        budget >= 1,
        n_calls >= 1,
    ensures
        tool_only_run(0, 0, max_iterations, budget, n_calls) == (
            if budget < max_iterations { budget } else { max_iterations },
            if max_iterations <= budget { max_iterations_text(max_iterations) } else { budget_text(budget) },
        ),
{
    lemma_tool_only_run_from(0, max_iterations, budget, n_calls);
}

proof fn lemma_tool_only_run_from(k: nat, max_iterations: nat, budget: nat, n_calls: nat)
    requires
        budget >= 1,
        n_calls >= 1,
        k <= max_iterations,
        k <= budget,
    ensures
        tool_only_run(k, k, max_iterations, budget, n_calls) == (
            ((if budget < max_iterations { budget } else { max_iterations }) - k) as nat,
            if max_iterations <= budget { max_iterations_text(max_iterations) } else { budget_text(budget) },
        ),
    decreases max_iterations - k,
{
    if k < max_iterations && k < budget {
        lemma_tool_only_run_from(k + 1, max_iterations, budget, n_calls);
    }
}

/// One run of the agent loop.
pub struct AgentRun<'a> {
    executor: ToolExecutor<'a>,
    max_iterations: usize,
    iterations: usize,
    awaiting: bool,
    done: bool,
}

impl<'a> AgentRun<'a> {
    /// The run's executor (its registry and round counters).
    pub closed spec fn executor_spec(&self) -> ToolExecutor<'a> {
        self.executor
    }

    /// Provider calls made so far.
    pub closed spec fn iterations_spec(&self) -> nat {
        self.iterations as nat
    }

    /// The cap on provider calls.
    pub closed spec fn max_iterations_spec(&self) -> nat {
        self.max_iterations as nat
    }

    /// A provider call was made and its response is awaited.
    pub closed spec fn awaiting_spec(&self) -> bool {
        self.awaiting
    }

    /// The run has replied.
    pub closed spec fn done_spec(&self) -> bool {
        self.done
    }

    /// Tool rounds counted so far.
    pub open spec fn rounds_spec(&self) -> nat {
        self.executor_spec().rounds_spec()
    }

    /// The tool-round budget.
    pub open spec fn budget_spec(&self) -> nat {
        self.executor_spec().max_rounds_spec()
    }

    /// The run's counters stay within their caps, and a response is awaited
    /// only after a call made within both caps.
    pub closed spec fn wf(&self) -> bool {
        &&& self.iterations <= self.max_iterations
        &&& self.executor.rounds_spec() <= self.executor.max_rounds_spec()
        &&& self.executor.max_rounds_spec() >= 1
        &&& self.awaiting ==> self.executor.rounds_spec() < self.executor.max_rounds_spec()
            && self.iterations >= 1
        &&& !(self.awaiting && self.done)
    }

    /// A fresh run: no calls, no rounds, budget `tool_round_budget` (0
    /// becomes 1), at most `max_iterations` provider calls.
    pub fn new(registry: &'a ToolRegistry, max_iterations: usize, tool_round_budget: usize, quiet: bool) -> (r: Self)
        ensures
            r.wf(),
            r.executor_spec().registry_spec() == registry,
            r.executor_spec().quiet_spec() == quiet,
            r.iterations_spec() == 0,
            r.max_iterations_spec() == max_iterations,
            r.rounds_spec() == 0,
            r.budget_spec() == if tool_round_budget == 0 {
                1
            } else {
                tool_round_budget as nat
            },
            !r.awaiting_spec(),
            !r.done_spec(),
    {
        let mut executor = ToolExecutor::new(registry);
        executor.set_quiet(quiet);
        executor.set_max_rounds(tool_round_budget);
        AgentRun { executor, max_iterations, iterations: 0, awaiting: false, done: false }
    }

    /// The run's executor.
    pub fn executor(&self) -> (r: &ToolExecutor<'a>)
        ensures
            *r == self.executor_spec(),
    {
        &self.executor
    }

    /// Whether a provider response is awaited.
    pub fn is_awaiting(&self) -> (r: bool)
        ensures
            r == self.awaiting_spec(),
    {
        self.awaiting
    }

    /// Whether the run has replied.
    pub fn is_done(&self) -> (r: bool)
        ensures
            r == self.done_spec(),
    {
        self.done
    }

    /// The step at the top of an iteration: reply when the provider-call cap
    /// is reached, stop honestly when the previous round exhausted the tool
    /// budget (both persist the session), else call the provider.
    pub fn next(&mut self) -> (r: LoopAction)
        requires
            old(self).wf(),
            !old(self).awaiting_spec(),
            !old(self).done_spec(),
        ensures
            final(self).wf(),
            step_of(&r) == top_step(
                old(self).iterations_spec(),
                old(self).max_iterations_spec(),
                old(self).rounds_spec(),
                old(self).budget_spec(),
            ),
            final(self).executor_spec() == old(self).executor_spec(),
            final(self).max_iterations_spec() == old(self).max_iterations_spec(),
            final(self).iterations_spec() == old(self).iterations_spec() + if r is CallProvider {
                1int
            } else {
                0int
            },
            final(self).awaiting_spec() == r is CallProvider,
            final(self).done_spec() == !(r is CallProvider),
    {
        if self.iterations >= self.max_iterations {
            self.done = true;
            let mut text = to_owned("Agent reached max iterations (");
            text.append(u64_to_string(self.max_iterations as u64).as_str());
            text.append(")");
            proof {
                reveal_strlit("Agent reached max iterations (");
                reveal_strlit(")");
            }
            return LoopAction::Reply { text, record: false, persist: true };
        }
        if !self.executor.round_available() {
            self.done = true;
            let mut text = to_owned("stopped: tool round budget ");
            text.append(u64_to_string(self.executor.max_rounds() as u64).as_str());
            text.append(" reached");
            return LoopAction::Reply { text, record: false, persist: true };
        }
        self.iterations = self.iterations + 1;
        self.awaiting = true;
        LoopAction::CallProvider
    }

    /// The step on a provider response: the final text on an end of turn,
    /// a counted tool round on tool use, an honest stop otherwise.
    pub fn on_response(&mut self, stop: StopReason, text: Option<&str>, n_calls: usize) -> (r: LoopAction)
        requires
            old(self).wf(),
            old(self).awaiting_spec(),
        ensures
            final(self).wf(),
            step_of(&r) == response_step(
                stop,
                match text {
                    Some(t) => Some(t@),
                    None => None,
                },
                n_calls as nat,
            ),
            final(self).rounds_spec() == old(self).rounds_spec() + if stop == StopReason::ToolUse {
                1int
            } else {
                0int
            },
            final(self).budget_spec() == old(self).budget_spec(),
            final(self).executor_spec().registry_spec() == old(self).executor_spec().registry_spec(),
            final(self).iterations_spec() == old(self).iterations_spec(),
            final(self).max_iterations_spec() == old(self).max_iterations_spec(),
            !final(self).awaiting_spec(),
            final(self).done_spec() == !(r is ExecuteTools),
    {
        self.awaiting = false;
        match stop {
            StopReason::EndTurn => {
                self.done = true;
                match text {
                    Some(t) => LoopAction::Reply { text: to_owned(t), record: true, persist: true },
                    None => LoopAction::Reply {
                        text: to_owned("(No response from agent)"),
                        record: false,
                        persist: false,
                    },
                }
            },
            StopReason::ToolUse => {
                proof {
                    self.executor.lemma_counters_bounded();
                }
                self.executor.begin_round();
                if n_calls == 0 {
                    self.done = true;
                    LoopAction::Reply {
                        text: to_owned("Agent wanted to use tools but didn't specify any"),
                        record: false,
                        persist: false,
                    }
                } else {
                    LoopAction::ExecuteTools
                }
            },
            StopReason::MaxTokens => {
                self.done = true;
                LoopAction::Reply { text: to_owned("Agent hit max tokens limit"), record: false, persist: false }
            },
            StopReason::ContentFilter => {
                self.done = true;
                LoopAction::Reply {
                    text: to_owned("Agent stopped with reason: ContentFilter"),
                    record: false,
                    persist: false,
                }
            },
            StopReason::Error => {
                self.done = true;
                LoopAction::Reply { text: to_owned("Agent stopped with reason: Error"), record: false, persist: false }
            },
        }
    }
}

/// Whatever the responses, a run never exceeds its caps: at most
/// `max_iterations` provider calls and at most the tool-round budget of
/// executed tool rounds.
pub proof fn law_run_within_caps(run: &AgentRun)
    requires
        run.wf(),
    ensures
        run.iterations_spec() <= run.max_iterations_spec(),
        run.rounds_spec() <= run.budget_spec(),
        run.budget_spec() >= 1,
{
}


/// What one tool round adds to the conversation: the assistant message
/// that carries the response's text (empty when there is none) and the
/// tool calls, then one `tool` message per result, in order, each naming
/// the call it answers.
pub fn tool_round_messages(text: Option<String>, calls: Vec<ToolCall>, results: &Vec<ToolResult>) -> (r: Vec<
    Message,
>)
    ensures
        r@.len() == results@.len() + 1,
        r@[0].role@ == "assistant"@,
        r@[0].content@ == match text {
            Some(t) => t@,
            None => Seq::<char>::empty(),
        },
        r@[0].tool_calls == Some(calls),
        r@[0].tool_call_id is None,
        forall|i: int|
            0 <= i < results@.len() ==> {
                let m = #[trigger] r@[i + 1];
                &&& m.role@ == "tool"@
                &&& m.content@ == results@[i].result@
                &&& m.tool_calls is None
                &&& m.tool_call_id is Some
                &&& m.tool_call_id.unwrap()@ == results@[i].tool_call_id@
            },
{
    let content = match text {
        Some(t) => t,
        None => String::new(),
    };
    let mut out: Vec<Message> = Vec::new();
    out.push(Message { role: to_owned("assistant"), content, tool_calls: Some(calls), tool_call_id: None });
    let mut i: usize = 0;
    while i < results.len()
        invariant
            0 <= i <= results@.len(),
            out@.len() == i + 1,
            out@[0].role@ == "assistant"@,
            out@[0].content@ == match text {
                Some(t) => t@,
                None => Seq::<char>::empty(),
            },
            out@[0].tool_calls == Some(calls),
            out@[0].tool_call_id is None,
            forall|k: int|
                0 <= k < i ==> {
                    let m = #[trigger] out@[k + 1];
                    &&& m.role@ == "tool"@
                    &&& m.content@ == results@[k].result@
                    &&& m.tool_calls is None
                    &&& m.tool_call_id is Some
                    &&& m.tool_call_id.unwrap()@ == results@[k].tool_call_id@
                },
        decreases results.len() - i,
    {
        let ghost prev = out@;
        out.push(Message::tool_result(results[i].tool_call_id.as_str(), results[i].result.as_str()));
        proof {
            assert forall|k: int| 0 <= k < i + 1 implies {
                let m = #[trigger] out@[k + 1];
                &&& m.role@ == "tool"@
                &&& m.content@ == results@[k].result@
                &&& m.tool_calls is None
                &&& m.tool_call_id is Some
                &&& m.tool_call_id.unwrap()@ == results@[k].tool_call_id@
            } by {
                if k < i {
                    assert(out@[k + 1] == prev[k + 1]);
                }
            }
        }
        i += 1;
    }
    out
}

} // verus!
