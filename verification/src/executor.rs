//! Decisions of the agent loop: after each model reply, whether to answer or to run the
//! requested tools, and when the loop gives up.
use vstd::prelude::*;
use crate::report_blocks::string_views;
use crate::text::{opt_string_view, push_str, str_eq};
use crate::model::{LlmResponse, Message, MessageV, StopReason, ToolCall, ToolCallV, calls_v, call_entry};
use crate::events::{StreamEvent, step_start, tool_label_spec};
use crate::json::JsonV;
use crate::tools::MemorySearchItem;

verus! {

/// How many model rounds the agent loop runs at most by default.
pub const DEFAULT_MAX_ITERATIONS: usize = 8;

/// How many seconds the agent loop may run before it stops after a round.
pub const TIME_LIMIT_SECS: u64 = 30;

/// What the agent loop does after a model reply.
#[derive(Debug)]
pub enum AgentStep {
    /// Answer with this text and end the loop.
    Finish(String),
    /// Run the requested tools and ask the model again.
    RunTools,
}

/// What the agent loop does after a round of tool calls.
#[derive(Debug, Clone, Copy, PartialEq, Eq, Structural)]
pub enum RoundOutcome {
    /// Ask the model again.
    Continue,
    /// The time limit passed: end with the timeout answer.
    TimedOut,
    /// No round is left: end with the too-many-steps answer.
    Exhausted,
}

/// The agent loop of the work assistant.
pub struct AgentExecutor;

/// What the agent loop ends with.
#[derive(Debug)]
pub struct AgentResult {
    /// The final answer.
    pub answer: String,
    /// The tools used, each once, in order of first use.
    pub tool_labels: Vec<String>,
    /// The records the tools cited, for the answer's sources.
    pub references: Vec<MemorySearchItem>,
}

/// The system prompt used when the caller gives none.
pub open spec fn default_system_prompt_spec() -> Seq<char> {
    "你是 Work Report 的工作助手。你可以回答任何问题。对于工作相关问题，优先使用工具查询用户的真实工作记录。对于非工作问题，直接用你的知识回答。请使用简体中文回答，先给结论再给依据。不要编造不存在的事实。"@
}

/// The system prompt for a run: the one given, or the default.
pub fn system_prompt_or_default(given: Option<&str>) -> (r: &str)
    ensures
        r@ == (match given {
            Some(p) => p@,
            None => default_system_prompt_spec(),
        }),
{
    match given {
        Some(p) => p,
        None => "你是 Work Report 的工作助手。你可以回答任何问题。对于工作相关问题，优先使用工具查询用户的真实工作记录。对于非工作问题，直接用你的知识回答。请使用简体中文回答，先给结论再给依据。不要编造不存在的事实。",
    }
}

/// The text handed back to the model when a tool fails: `工具执行失败: ` and the error.
pub fn tool_failure_text(error: &str) -> (r: String)
    ensures
        r@ == "工具执行失败: "@ + error@,
{
    let mut t = "工具执行失败: ".to_owned();
    push_str(&mut t, error);
    t
}

/// What `decide_step` does with a reply.
pub open spec fn step_spec(reason: StopReason, content: Option<Seq<char>>, has_tool_calls: bool) -> Option<Seq<char>> {
    match reason {
        StopReason::Stop => Some(
            match content {
                Some(c) => c,
                None => Seq::empty(),
            },
        ),
        StopReason::ToolCall => if has_tool_calls {
            None
        } else {
            Some(
                match content {
                    Some(c) => c,
                    None => "模型未返回可执行的工具调用，请稍后重试。"@,
                },
            )
        },
        StopReason::MaxTokens => Some(
            match content {
                Some(c) => c,
                None => "回答被截断，请尝试缩短问题。"@,
            },
        ),
    }
}


/// A reply ends the loop unless it is a tool-call reply that names tools, and whenever it
/// ends the loop with the model's text present, that text is the answer, unchanged; a final
/// reply without text gives the empty answer.
pub proof fn lemma_step_answers_with_model_text(reason: StopReason, content: Option<Seq<char>>, has_tool_calls: bool)
    ensures
        step_spec(reason, content, has_tool_calls) is None <==> (reason is ToolCall && has_tool_calls),
        content matches Some(c) ==> (step_spec(reason, content, has_tool_calls) is None || step_spec(
            reason,
            content,
            has_tool_calls,
        ) == Some(c)),
        reason is Stop && content is None ==> step_spec(reason, content, has_tool_calls) == Some(
            Seq::<char>::empty(),
        ),
{
}

/// Decides what to do with a model reply: a final answer ends the loop with its text (empty
/// when there is none); a tool-call reply runs the tools, unless it names no tool, in which
/// case the loop ends with its text or a retry hint; a truncated reply ends the loop with
/// its text or a hint to shorten the question.
pub fn decide_step(reason: StopReason, content: Option<String>, has_tool_calls: bool) -> (r: AgentStep)
    ensures
        match r {
            AgentStep::Finish(a) => step_spec(reason, opt_string_view(content), has_tool_calls) == Some(a@),
            AgentStep::RunTools => step_spec(reason, opt_string_view(content), has_tool_calls) is None,
        },
{
    match reason {
        StopReason::Stop => AgentStep::Finish(
            match content {
                Some(c) => c,
                None => String::new(),
            },
        ),
        StopReason::ToolCall => {
            if has_tool_calls {
                AgentStep::RunTools
            } else {
                AgentStep::Finish(
                    match content {
                        Some(c) => c,
                        None => "模型未返回可执行的工具调用，请稍后重试。".to_owned(),
                    },
                )
            }
        },
        StopReason::MaxTokens => AgentStep::Finish(
            match content {
                Some(c) => c,
                None => "回答被截断，请尝试缩短问题。".to_owned(),
            },
        ),
    }
}

/// What the loop does after round `rounds_done` (counting from one) of at most
/// `max_rounds`, `elapsed_secs` after it started.
pub open spec fn round_spec(rounds_done: nat, max_rounds: nat, elapsed_secs: nat) -> RoundOutcome {
    if elapsed_secs > TIME_LIMIT_SECS {
        RoundOutcome::TimedOut
    } else if rounds_done >= max_rounds {
        RoundOutcome::Exhausted
    } else {
        RoundOutcome::Continue
    }
}

/// Decides, after a round of tool calls, whether the loop goes on: past the time limit it
/// stops with the timeout answer; with no round left it stops with the too-many-steps answer.
pub fn after_round(rounds_done: usize, max_rounds: usize, elapsed_secs: u64) -> (r: RoundOutcome)
    ensures
        r == round_spec(rounds_done as nat, max_rounds as nat, elapsed_secs as nat),
{
    if elapsed_secs > TIME_LIMIT_SECS {
        RoundOutcome::TimedOut
    } else if rounds_done >= max_rounds {
        RoundOutcome::Exhausted
    } else {
        RoundOutcome::Continue
    }
}

/// The answer when the time limit passes.
pub fn timeout_answer() -> (r: String)
    ensures
        r@ == "处理超时，请尝试更具体的问题。"@,
{
    "处理超时，请尝试更具体的问题。".to_owned()
}

/// The answer when the loop runs out of rounds.
pub fn exhausted_answer() -> (r: String)
    ensures
        r@ == "抱歉，处理这个问题需要过多步骤。请尝试更具体地描述。"@,
{
    "抱歉，处理这个问题需要过多步骤。请尝试更具体地描述。".to_owned()
}

/// The number of rounds to run: the requested number, or the default.
pub fn max_rounds(requested: Option<usize>) -> (r: usize)
    ensures
        r == (match requested {
            Some(n) => n,
            None => DEFAULT_MAX_ITERATIONS,
        }),
{
    match requested {
        Some(n) => n,
        None => DEFAULT_MAX_ITERATIONS,
    }
}

/// Records that a tool was used: its name is added to the labels unless already there.
pub fn record_tool_label(labels: &mut Vec<String>, name: &str)
    ensures
        string_views(old(labels)@).contains(name@) ==> final(labels)@ == old(labels)@,
        !string_views(old(labels)@).contains(name@) ==> string_views(final(labels)@)
            == string_views(old(labels)@).push(name@),
{
    let ghost views = string_views(labels@);
    let mut i: usize = 0;
    while i < labels.len()
        invariant
            i <= labels.len(),
            views == string_views(labels@),
            forall|j: int| 0 <= j < i ==> views[j] != name@,
        decreases labels.len() - i,
    {
        if str_eq(labels[i].as_str(), name) {
            assert(views[i as int] == name@);
            return;
        }
        i = i + 1;
    }
    labels.push(name.to_owned());
    assert(string_views(labels@) =~= views.push(name@));
}

/// The views of a list of messages.
pub open spec fn messages_v(ms: Seq<Message>) -> Seq<MessageV> {
    ms.map_values(|m: Message| m@)
}

/// The conversation of one agent run: the messages sent to the model and the tools used.
pub struct AgentConversation {
    pub messages: Vec<Message>,
    pub tool_labels: Vec<String>,
}

impl AgentConversation {
    /// A run that starts from the earlier conversation and the new question, with no tool
    /// used yet.
    pub fn start(history: &[Message], question: &str) -> (r: Self)
        ensures
            messages_v(r.messages@) == messages_v(history@).push(
                MessageV { role: "user"@, content: Some(question@), tool_calls: None, tool_call_id: None, name: None },
            ),
            r.tool_labels@.len() == 0,
    {
        let mut messages: Vec<Message> = Vec::new();
        let mut i: usize = 0;
        while i < history.len()
            invariant
                i <= history.len(),
                messages@.len() == i,
                messages_v(messages@) == messages_v(history@.take(i as int)),
            decreases history.len() - i,
        {
            let ghost before = messages@;
            messages.push(history[i].copy());
            assert(history@.take(i + 1) =~= history@.take(i as int).push(history@[i as int]));
            assert(messages@ =~= before.push(messages@.last()));
            assert forall|k: int| 0 <= k <= i implies #[trigger] messages_v(messages@)[k] == messages_v(
                history@.take(i + 1),
            )[k] by {
                if k < i {
                    assert(messages_v(before)[k] == messages_v(history@.take(i as int))[k]);
                    assert(messages@[k] == before[k]);
                } else {
                    assert(messages@[k]@ == history@[k]@);
                }
            }
            assert(messages_v(messages@) =~= messages_v(history@.take(i + 1)));
            i = i + 1;
        }
        assert(history@.take(history.len() as int) =~= history@);
        let ghost before = messages@;
        messages.push(Message::user(question));
        assert(messages_v(messages@) =~= messages_v(before).push(messages@.last()@));
        AgentConversation { messages, tool_labels: Vec::new() }
    }

    /// Records a reply that asks for tools: the assistant message that lists the calls is
    /// appended, and each called tool's name is added to the labels unless already there.
    pub fn record_calls(&mut self, calls: &[ToolCall])
        ensures
            messages_v(final(self).messages@) == messages_v(old(self).messages@).push(
                MessageV {
                    role: "assistant"@,
                    content: None,
                    tool_calls: Some(JsonV::Array(calls_v(calls@).map_values(|c: ToolCallV| call_entry(c)))),
                    tool_call_id: None,
                    name: None,
                },
            ),
            string_views(final(self).tool_labels@) == labels_after(string_views(old(self).tool_labels@), calls_v(calls@)),
    {
        let ghost before = self.messages@;
        let m = Message::assistant_with_tool_calls(calls);
        self.messages.push(m);
        assert(messages_v(self.messages@) =~= messages_v(before).push(self.messages@.last()@));
        let ghost pushed = self.messages@;
        let mut i: usize = 0;
        while i < calls.len()
            invariant
                i <= calls.len(),
                self.messages@ == pushed,
                string_views(self.tool_labels@) == labels_after(
                    string_views(old(self).tool_labels@),
                    calls_v(calls@).take(i as int),
                ),
            decreases calls.len() - i,
        {
            let ghost prev = string_views(self.tool_labels@);
            record_tool_label(&mut self.tool_labels, calls[i].name.as_str());
            assert(calls_v(calls@).take(i + 1).drop_last() =~= calls_v(calls@).take(i as int));
            i = i + 1;
        }
        assert(calls_v(calls@).take(calls.len() as int) =~= calls_v(calls@));
    }

    /// Records a tool's result: a tool message that answers the call by its id and names the
    /// tool.
    pub fn record_result(&mut self, call: &ToolCall, result: &str)
        ensures
            messages_v(final(self).messages@) == messages_v(old(self).messages@).push(
                MessageV {
                    role: "tool"@,
                    content: Some(result@),
                    tool_calls: None,
                    tool_call_id: Some(call.id@),
                    name: Some(call.name@),
                },
            ),
            final(self).tool_labels@ == old(self).tool_labels@,
    {
        let ghost before = self.messages@;
        self.messages.push(Message::tool_result_named(call.id.as_str(), result, Some(call.name.as_str())));
        assert(messages_v(self.messages@) =~= messages_v(before).push(self.messages@.last()@));
    }
}

/// Whether a model reply asks for at least one tool.
pub fn reply_has_calls(reply: &LlmResponse) -> (r: bool)
    ensures
        r == (reply@.tool_calls matches Some(c) && c.len() > 0),
{
    match &reply.tool_calls {
        Some(c) => c.len() > 0,
        None => false,
    }
}

/// What a tool call hands back to the model: its output, or the failure text when it failed.
pub open spec fn tool_result_spec(outcome: Result<Seq<char>, Seq<char>>) -> Seq<char> {
    match outcome {
        Ok(out) => out,
        Err(e) => "工具执行失败: "@ + e,
    }
}

/// Copies of cited records, in order.
fn copy_records(v: &Vec<MemorySearchItem>) -> (r: Vec<MemorySearchItem>)
    ensures
        r@ == v@,
{
    let mut out: Vec<MemorySearchItem> = Vec::new();
    let mut i: usize = 0;
    while i < v.len()
        invariant
            i <= v.len(),
            out@ == v@.take(i as int),
        decreases v.len() - i,
    {
        out.push(v[i].clone());
        i = i + 1;
        assert(out@ =~= v@.take(i as int));
    }
    assert(v@.take(v.len() as int) =~= v@);
    out
}

/// Copies of strings, in order.
fn copy_strings(v: &Vec<String>) -> (r: Vec<String>)
    ensures
        string_views(r@) == string_views(v@),
{
    let mut out: Vec<String> = Vec::new();
    let mut i: usize = 0;
    while i < v.len()
        invariant
            i <= v.len(),
            string_views(out@) == string_views(v@.take(i as int)),
        decreases v.len() - i,
    {
        let ghost before = out@;
        out.push(v[i].clone());
        assert(string_views(out@) =~= string_views(before).push(v@[i as int]@));
        assert(string_views(v@.take(i + 1)) =~= string_views(v@.take(i as int)).push(v@[i as int]@));
        i = i + 1;
    }
    assert(v@.take(v.len() as int) =~= v@);
    out
}

impl AgentConversation {
    /// The event sent before a requested tool runs: the tool and its label.
    pub fn begin_call(&self, call: &ToolCall) -> (r: StreamEvent)
        ensures
            r matches StreamEvent::StepStart { tool: t, label: l } && t@ == call.name@ && l@ == tool_label_spec(
                call.name@,
            ),
    {
        step_start(call.name.as_str())
    }

    /// Ends a tool call: its result (see `tool_result_spec`) is appended as the tool's
    /// message, and the event that reports the step carries the tool, how many records it
    /// newly cited, and those records.
    pub fn end_call(&mut self, call: &ToolCall, outcome: Result<String, String>, new_refs: Vec<MemorySearchItem>) -> (r: StreamEvent)
        ensures
            messages_v(final(self).messages@) == messages_v(old(self).messages@).push(
                MessageV {
                    role: "tool"@,
                    content: Some(
                        tool_result_spec(
                            match outcome {
                                Ok(o) => Ok(o@),
                                Err(e) => Err(e@),
                            },
                        ),
                    ),
                    tool_calls: None,
                    tool_call_id: Some(call.id@),
                    name: Some(call.name@),
                },
            ),
            final(self).tool_labels@ == old(self).tool_labels@,
            r matches StreamEvent::StepResult { tool: t, hits: h, references: refs } && t@ == call.name@ && h
                == new_refs@.len() && refs@ == new_refs@,
    {
        let result = match outcome {
            Ok(out) => out,
            Err(e) => tool_failure_text(e.as_str()),
        };
        self.record_result(call, result.as_str());
        let hits = new_refs.len();
        StreamEvent::StepResult { tool: call.name.clone(), hits, references: new_refs }
    }

    /// Ends the run with an answer and the records cited: the result, which lists the tools
    /// used, and the one `Done` event, which carries the same answer, records and tools.
    pub fn finish(self, answer: String, references: Vec<MemorySearchItem>) -> (r: (AgentResult, StreamEvent))
        ensures
            r.0.answer@ == answer@,
            string_views(r.0.tool_labels@) == string_views(self.tool_labels@),
            r.0.references@ == references@,
            r.1 matches StreamEvent::Done { answer: a, references: refs, tool_labels: ls } && a@ == answer@
                && refs@ == references@ && string_views(ls@) == string_views(self.tool_labels@),
    {
        let done = StreamEvent::Done {
            answer: answer.clone(),
            references: copy_records(&references),
            tool_labels: copy_strings(&self.tool_labels),
        };
        (AgentResult { answer, tool_labels: self.tool_labels, references }, done)
    }
}

/// The tool labels after recording calls: each call's tool name is added in order unless
/// already there.
pub open spec fn labels_after(labels: Seq<Seq<char>>, calls: Seq<ToolCallV>) -> Seq<Seq<char>>
    decreases calls.len(),
{
    if calls.len() == 0 {
        labels
    } else {
        let before = labels_after(labels, calls.drop_last());
        if before.contains(calls.last().name) {
            before
        } else {
            before.push(calls.last().name)
        }
    }
}

/// Recording calls never loses a label, never lists one twice, and lists every tool
/// called.
pub proof fn lemma_labels_after(labels: Seq<Seq<char>>, calls: Seq<ToolCallV>)
    requires
        labels.no_duplicates(),
    ensures
        labels_after(labels, calls).no_duplicates(),
        forall|i: int| 0 <= i < labels.len() ==> labels_after(labels, calls).contains(#[trigger] labels[i]),
        forall|i: int| 0 <= i < calls.len() ==> labels_after(labels, calls).contains(#[trigger] calls[i].name),
    decreases calls.len(),
{
    if calls.len() > 0 {
        let rest = calls.drop_last();
        lemma_labels_after(labels, rest);
        let before = labels_after(labels, rest);
        let name = calls.last().name;
        if !before.contains(name) {
            let after = before.push(name);
            assert forall|i: int, j: int| 0 <= i < j < after.len() implies after[i] != after[j] by {
                if j == after.len() - 1 {
                    assert(after[i] == before[i]);
                }
            }
            assert forall|i: int| 0 <= i < labels.len() implies after.contains(#[trigger] labels[i]) by {
                let k = choose|k: int| 0 <= k < before.len() && before[k] == labels[i];
                assert(after[k] == labels[i]);
            }
            assert forall|i: int| 0 <= i < calls.len() implies after.contains(#[trigger] calls[i].name) by {
                if i < calls.len() - 1 {
                    assert(calls[i] == rest[i]);
                    let k = choose|k: int| 0 <= k < before.len() && before[k] == rest[i].name;
                    assert(after[k] == calls[i].name);
                } else {
                    assert(after[after.len() - 1] == name);
                }
            }
        } else {
            assert forall|i: int| 0 <= i < calls.len() implies before.contains(#[trigger] calls[i].name) by {
                if i < calls.len() - 1 {
                    assert(calls[i] == rest[i]);
                }
            }
        }
    }
}

} // verus!
