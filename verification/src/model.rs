//! The provider-neutral chat model layer: the unified message format, and the translation of
//! each provider's reply (OpenAI-compatible, Messages API, Gemini) into one response shape.
use vstd::prelude::*;
use crate::json::{
    Json, JsonV, arr_v, obj_v, lemma_arr_v, lemma_obj_v, field, elem, get, as_str, as_array, lift,
    json_field, json_elem, json_as_str, json_as_array, clone_json, parse_json, parse_json_text,
    opt_jv, json_text, to_json_text,
};
use crate::text::{opt_string_view, push_str, push_u64, decimal, str_eq};

verus! {

broadcast use vstd::std_specs::vec::group_vec_axioms;

/// Why the model stopped generating.
#[derive(Debug, Clone, Copy, PartialEq, Eq, Structural)]
pub enum StopReason {
    Stop,
    ToolCall,
    MaxTokens,
}

/// A tool the model asks to run.
#[derive(Debug)]
pub struct ToolCall {
    pub id: String,
    pub name: String,
    pub arguments: Json,
}

/// The view of a tool call.
pub struct ToolCallV {
    pub id: Seq<char>,
    pub name: Seq<char>,
    pub arguments: JsonV,
}

impl View for ToolCall {
    type V = ToolCallV;

    open spec fn view(&self) -> ToolCallV {
        ToolCallV { id: self.id@, name: self.name@, arguments: self.arguments@ }
    }
}

/// The views of a sequence of tool calls.
pub open spec fn calls_v(s: Seq<ToolCall>) -> Seq<ToolCallV> {
    s.map_values(|c: ToolCall| c@)
}

/// A model reply in the provider-neutral shape.
#[derive(Debug)]
pub struct LlmResponse {
    pub content: Option<String>,
    pub tool_calls: Option<Vec<ToolCall>>,
    pub stop_reason: StopReason,
}

/// The view of a model reply.
pub struct LlmResponseV {
    pub content: Option<Seq<char>>,
    pub tool_calls: Option<Seq<ToolCallV>>,
    pub stop_reason: StopReason,
}


impl View for LlmResponse {
    type V = LlmResponseV;

    open spec fn view(&self) -> LlmResponseV {
        LlmResponseV {
            content: opt_string_view(self.content),
            tool_calls: match self.tool_calls {
                Some(v) => Some(calls_v(v@)),
                None => None,
            },
            stop_reason: self.stop_reason,
        }
    }
}

/// An error of a model call.
#[derive(Debug)]
pub enum ModelError {
    /// The call could not be made or the provider refused it; the text says why.
    Analysis(String),
}

/// A chat message in the provider-neutral format.
#[derive(Debug)]
pub struct Message {
    pub role: String,
    pub content: Option<String>,
    pub tool_calls: Option<Json>,
    pub tool_call_id: Option<String>,
    /// The tool's name, on tool-result messages.
    pub name: Option<String>,
}

/// The view of a message.
pub struct MessageV {
    pub role: Seq<char>,
    pub content: Option<Seq<char>>,
    pub tool_calls: Option<JsonV>,
    pub tool_call_id: Option<Seq<char>>,
    pub name: Option<Seq<char>>,
}

impl View for Message {
    type V = MessageV;

    open spec fn view(&self) -> MessageV {
        MessageV {
            role: self.role@,
            content: opt_string_view(self.content),
            tool_calls: opt_jv(self.tool_calls),
            tool_call_id: opt_string_view(self.tool_call_id),
            name: opt_string_view(self.name),
        }
    }
}

/// The entry that records one tool call in an assistant message: its id, the type
/// `function`, and the function's name and arguments (the arguments as JSON text).
pub open spec fn call_entry(c: ToolCallV) -> JsonV {
    JsonV::Object(
        seq![
            ("id"@, JsonV::Str(c.id)),
            ("type"@, JsonV::Str("function"@)),
            (
                "function"@,
                JsonV::Object(
                    seq![("name"@, JsonV::Str(c.name)), ("arguments"@, JsonV::Str(json_text(c.arguments)))],
                ),
            ),
        ],
    )
}

/// A copy of an optional string.
fn copy_opt(s: &Option<String>) -> (r: Option<String>)
    ensures
        opt_string_view(r) == opt_string_view(*s),
{
    match s {
        Some(x) => Some(x.clone()),
        None => None,
    }
}

impl Message {
    /// A user message with this text.
    pub fn user(content: &str) -> (m: Message)
        ensures
            m@ == (MessageV {
                role: "user"@,
                content: Some(content@),
                tool_calls: None,
                tool_call_id: None,
                name: None,
            }),
    {
        Message {
            role: "user".to_owned(),
            content: Some(content.to_owned()),
            tool_calls: None,
            tool_call_id: None,
            name: None,
        }
    }

    /// An assistant message with this text.
    pub fn assistant(content: &str) -> (m: Message)
        ensures
            m@ == (MessageV {
                role: "assistant"@,
                content: Some(content@),
                tool_calls: None,
                tool_call_id: None,
                name: None,
            }),
    {
        Message {
            role: "assistant".to_owned(),
            content: Some(content.to_owned()),
            tool_calls: None,
            tool_call_id: None,
            name: None,
        }
    }

    /// An assistant message that records the given tool calls, one entry each, in order.
    pub fn assistant_with_tool_calls(calls: &[ToolCall]) -> (m: Message)
        ensures
            m@ == (MessageV {
                role: "assistant"@,
                content: None,
                tool_calls: Some(JsonV::Array(calls_v(calls@).map_values(|c: ToolCallV| call_entry(c)))),
                tool_call_id: None,
                name: None,
            }),
    {
        let mut entries: Vec<Json> = Vec::new();
        let mut i: usize = 0;
        while i < calls.len()
            invariant
                i <= calls.len(),
                entries@.len() == i,
                forall|k: int| 0 <= k < i ==> #[trigger] jv_of(entries@[k]) == call_entry(calls@[k]@),
            decreases calls.len() - i,
        {
            let c = &calls[i];
            let mut function: Vec<(String, Json)> = Vec::new();
            function.push(("name".to_owned(), Json::Str(c.name.clone())));
            function.push(("arguments".to_owned(), Json::Str(to_json_text(&c.arguments))));
            let mut entry: Vec<(String, Json)> = Vec::new();
            entry.push(("id".to_owned(), Json::Str(c.id.clone())));
            entry.push(("type".to_owned(), Json::Str("function".to_owned())));
            entry.push(("function".to_owned(), Json::Object(function)));
            proof {
                lemma_obj_v(function@);
                lemma_obj_v(entry@);
                assert(obj_v(function@) =~= seq![
                    ("name"@, JsonV::Str(c.name@)),
                    ("arguments"@, JsonV::Str(json_text(c.arguments@))),
                ]);
            }
            let e = Json::Object(entry);
            assert(jv_of(e) == call_entry(calls@[i as int]@)) by {
                assert(obj_v(entry@) =~= seq![
                    ("id"@, JsonV::Str(c.id@)),
                    ("type"@, JsonV::Str("function"@)),
                    ("function"@, JsonV::Object(obj_v(function@))),
                ]);
            }
            entries.push(e);
            i = i + 1;
        }
        proof {
            lemma_arr_v(entries@);
            let target = calls_v(calls@).map_values(|c: ToolCallV| call_entry(c));
            assert forall|k: int| 0 <= k < entries@.len() implies arr_v(entries@)[k] == target[k] by {
                assert(jv_of(entries@[k]) == call_entry(calls@[k]@));
                assert(calls_v(calls@)[k] == calls@[k]@);
            }
            assert(arr_v(entries@) =~= target);
        }
        Message {
            role: "assistant".to_owned(),
            content: None,
            tool_calls: Some(Json::Array(entries)),
            tool_call_id: None,
            name: None,
        }
    }

    /// A tool-result message: the call's id, the result text, and the tool's name if given.
    pub fn tool_result_named(tool_call_id: &str, content: &str, name: Option<&str>) -> (m: Message)
        ensures
            m@ == (MessageV {
                role: "tool"@,
                content: Some(content@),
                tool_calls: None,
                tool_call_id: Some(tool_call_id@),
                name: match name {
                    Some(n) => Some(n@),
                    None => None,
                },
            }),
    {
        Message {
            role: "tool".to_owned(),
            content: Some(content.to_owned()),
            tool_calls: None,
            tool_call_id: Some(tool_call_id.to_owned()),
            name: match name {
                Some(n) => Some(n.to_owned()),
                None => None,
            },
        }
    }

    /// A copy of the message.
    pub fn copy(&self) -> (m: Message)
        ensures
            m@ == self@,
    {
        Message {
            role: self.role.clone(),
            content: copy_opt(&self.content),
            tool_calls: match &self.tool_calls {
                Some(j) => Some(clone_json(j)),
                None => None,
            },
            tool_call_id: copy_opt(&self.tool_call_id),
            name: copy_opt(&self.name),
        }
    }
}


/// The text of a JSON string value, or `d` for any other value.
pub open spec fn str_or(j: JsonV, d: Seq<char>) -> Seq<char> {
    match as_str(j) {
        Some(s) => s,
        None => d,
    }
}

/// What JSON text parses to, or an empty object when it is not JSON.
pub open spec fn parsed_or_empty(text: Seq<char>) -> JsonV {
    match parse_json(text) {
        Some(v) => v,
        None => JsonV::Object(seq![]),
    }
}

/// One tool call of an OpenAI reply, when it has a string id and a string function name;
/// its arguments are the JSON text under `function.arguments` (`{}` when absent), parsed.
pub open spec fn openai_call(tc: JsonV) -> Option<ToolCallV> {
    let f = field(tc, "function"@);
    match (as_str(field(tc, "id"@)), as_str(field(f, "name"@))) {
        (Some(id), Some(name)) => Some(
            ToolCallV {
                id: id,
                name: name,
                arguments: parsed_or_empty(str_or(field(f, "arguments"@), "{}"@)),
            },
        ),
        _ => None,
    }
}

/// The usable tool calls of an OpenAI reply, in order; the others are skipped.
pub open spec fn openai_calls(tcs: Seq<JsonV>) -> Seq<ToolCallV>
    decreases tcs.len(),
{
    if tcs.len() == 0 {
        seq![]
    } else {
        let rest = openai_calls(tcs.drop_last());
        match openai_call(tcs.last()) {
            Some(c) => rest.push(c),
            None => rest,
        }
    }
}

/// A sequence of tool calls, or `None` when it is empty.
pub open spec fn nonempty(calls: Seq<ToolCallV>) -> Option<Seq<ToolCallV>> {
    if calls.len() == 0 {
        None
    } else {
        Some(calls)
    }
}

/// The stop reason when the provider names none that is recognised: a reply with tool
/// calls stops for them, any other reply is final.
pub open spec fn default_reason(has_calls: bool) -> StopReason {
    if has_calls {
        StopReason::ToolCall
    } else {
        StopReason::Stop
    }
}

/// The reply of an OpenAI-compatible provider (Ollama answers in the same shape), read from
/// `choices[0]`: the message text, its usable tool calls, and the stop reason from
/// `finish_reason` (`tool_calls`, `length`, otherwise by whether calls came).
pub open spec fn openai_response(result: JsonV) -> LlmResponseV {
    let choice = elem(field(result, "choices"@), 0);
    let msg = field(choice, "message"@);
    let calls = match as_array(field(msg, "tool_calls"@)) {
        Some(tcs) => nonempty(openai_calls(tcs)),
        None => None,
    };
    let reason = match as_str(field(choice, "finish_reason"@)) {
        Some(r) => if r == "tool_calls"@ {
            StopReason::ToolCall
        } else if r == "length"@ {
            StopReason::MaxTokens
        } else {
            default_reason(calls is Some)
        },
        None => default_reason(calls is Some),
    };
    LlmResponseV { content: as_str(field(msg, "content"@)), tool_calls: calls, stop_reason: reason }
}

/// A string value's text as an owned string, or the default.
fn owned_str_or(j: Option<&Json>, d: &str) -> (r: String)
    ensures
        r@ == str_or(lift(j), d@),
{
    match json_as_str(j) {
        Some(s) => s.to_owned(),
        None => d.to_owned(),
    }
}

/// A copy of a looked-up value (`null` when absent).
fn lifted_copy(j: Option<&Json>) -> (r: Json)
    ensures
        r@ == lift(j),
{
    match j {
        Some(x) => clone_json(x),
        None => Json::Null,
    }
}

/// Parses JSON text; text that is not JSON gives an empty object.
fn parse_or_empty(text: &str) -> (r: Json)
    ensures
        r@ == parsed_or_empty(text@),
{
    match parse_json_text(text) {
        Some(v) => v,
        None => {
            proof {
                lemma_obj_v(Seq::<(String, Json)>::empty());
            }
            Json::Object(Vec::new())
        },
    }
}

/// One tool call of an OpenAI reply (see `openai_call`).
fn openai_call_exec(tc: &Json) -> (r: Option<ToolCall>)
    ensures
        match r {
            Some(c) => openai_call(tc@) == Some(c@),
            None => openai_call(tc@) is None,
        },
{
    let f = json_field(Some(tc), "function");
    let id = json_as_str(json_field(Some(tc), "id"));
    let name = json_as_str(json_field(f, "name"));
    match (id, name) {
        (Some(id), Some(name)) => {
            let args = match json_as_str(json_field(f, "arguments")) {
                Some(a) => a,
                None => "{}",
            };
            let arguments = parse_or_empty(args);
            Some(ToolCall { id: id.to_owned(), name: name.to_owned(), arguments })
        },
        _ => None,
    }
}

/// The usable tool calls among `tcs`, in order.
fn openai_calls_exec(tcs: &Vec<Json>) -> (r: Vec<ToolCall>)
    ensures
        calls_v(r@) == openai_calls(arr_v(tcs@)),
{
    proof {
        lemma_arr_v(tcs@);
    }
    let ghost all = arr_v(tcs@);
    let mut out: Vec<ToolCall> = Vec::new();
    let mut i: usize = 0;
    while i < tcs.len()
        invariant
            i <= tcs.len(),
            all == arr_v(tcs@),
            all.len() == tcs@.len(),
            forall|k: int| 0 <= k < tcs@.len() ==> #[trigger] all[k] == jv_of(tcs@[k]),
            calls_v(out@) == openai_calls(all.take(i as int)),
        decreases tcs.len() - i,
    {
        let ghost before = out@;
        assert(all.take(i + 1).drop_last() =~= all.take(i as int));
        assert(all.take(i + 1).last() == jv_of(tcs@[i as int]));
        match openai_call_exec(&tcs[i]) {
            Some(c) => {
                out.push(c);
                assert(calls_v(out@) =~= calls_v(before).push(out@.last()@));
            },
            None => {},
        }
        i = i + 1;
    }
    assert(all.take(tcs.len() as int) =~= all);
    out
}

/// `Some` of a non-empty call list, `None` for an empty one.
fn nonempty_exec(calls: Vec<ToolCall>) -> (r: Option<Vec<ToolCall>>)
    ensures
        match r {
            Some(v) => nonempty(calls_v(calls@)) == Some(calls_v(v@)),
            None => nonempty(calls_v(calls@)) is None,
        },
{
    if calls.len() == 0 {
        None
    } else {
        Some(calls)
    }
}

/// Reads the reply of an OpenAI-compatible provider (see `openai_response`). It always
/// succeeds: missing parts read as absent.
pub fn parse_openai_response(result: &Json) -> (r: Result<LlmResponse, ModelError>)
    ensures
        r is Ok,
        r matches Ok(resp) ==> resp@ == openai_response(result@),
{
    let choice = json_elem(json_field(Some(result), "choices"), 0);
    let msg = json_field(choice, "message");
    let tool_calls = match json_as_array(json_field(msg, "tool_calls")) {
        Some(tcs) => nonempty_exec(openai_calls_exec(tcs)),
        None => None,
    };
    let has_calls = tool_calls.is_some();
    let stop_reason = match json_as_str(json_field(choice, "finish_reason")) {
        Some(r) => if str_eq(r, "tool_calls") {
            StopReason::ToolCall
        } else if str_eq(r, "length") {
            StopReason::MaxTokens
        } else if has_calls {
            StopReason::ToolCall
        } else {
            StopReason::Stop
        },
        None => if has_calls {
            StopReason::ToolCall
        } else {
            StopReason::Stop
        },
    };
    let content = match json_as_str(json_field(msg, "content")) {
        Some(s) => Some(s.to_owned()),
        None => None,
    };
    Ok(LlmResponse { content, tool_calls, stop_reason })
}


/// The text that one Messages API content block contributes: its `text` for a `text` block.
pub open spec fn claude_block_text(b: JsonV) -> Seq<char> {
    if as_str(field(b, "type"@)) == Some("text"@) {
        str_or(field(b, "text"@), seq![])
    } else {
        seq![]
    }
}

/// The text of Messages API content blocks: the texts of the `text` blocks, joined in order.
pub open spec fn claude_text(blocks: Seq<JsonV>) -> Seq<char>
    decreases blocks.len(),
{
    if blocks.len() == 0 {
        seq![]
    } else {
        claude_text(blocks.drop_last()) + claude_block_text(blocks.last())
    }
}

/// The tool calls of Messages API content blocks: one per `tool_use` block, in order, with its
/// `id` and `name` (empty when absent) and its `input` as the arguments.
pub open spec fn claude_calls(blocks: Seq<JsonV>) -> Seq<ToolCallV>
    decreases blocks.len(),
{
    if blocks.len() == 0 {
        seq![]
    } else {
        let rest = claude_calls(blocks.drop_last());
        let b = blocks.last();
        if as_str(field(b, "type"@)) == Some("tool_use"@) {
            rest.push(
                ToolCallV {
                    id: str_or(field(b, "id"@), seq![]),
                    name: str_or(field(b, "name"@), seq![]),
                    arguments: field(b, "input"@),
                },
            )
        } else {
            rest
        }
    }
}

/// Text, or `None` when it is empty.
pub open spec fn nonempty_text(t: Seq<char>) -> Option<Seq<char>> {
    if t.len() == 0 {
        None
    } else {
        Some(t)
    }
}

/// The reply of the Messages API: the joined text of the `text` blocks and the `tool_use` calls of
/// `content` (each `None` when empty), and the stop reason from `stop_reason` (`tool_use`,
/// `max_tokens`, otherwise by whether calls came).
pub open spec fn claude_response(result: JsonV) -> LlmResponseV {
    let blocks = match as_array(field(result, "content"@)) {
        Some(b) => b,
        None => seq![],
    };
    let calls = claude_calls(blocks);
    let reason = match as_str(field(result, "stop_reason"@)) {
        Some(r) => if r == "tool_use"@ {
            StopReason::ToolCall
        } else if r == "max_tokens"@ {
            StopReason::MaxTokens
        } else {
            default_reason(calls.len() > 0)
        },
        None => default_reason(calls.len() > 0),
    };
    LlmResponseV {
        content: nonempty_text(claude_text(blocks)),
        tool_calls: nonempty(calls),
        stop_reason: reason,
    }
}

/// The text of a string, or `None` when it is empty.
fn nonempty_string(t: String) -> (r: Option<String>)
    ensures
        opt_string_view(r) == nonempty_text(t@),
{
    if t.as_str().is_empty() {
        None
    } else {
        Some(t)
    }
}

/// Reads a Messages API reply (see `claude_response`). It always succeeds.
pub fn parse_claude_response(result: &Json) -> (r: Result<LlmResponse, ModelError>)
    ensures
        r is Ok,
        r matches Ok(resp) ==> resp@ == claude_response(result@),
{
    let mut text = String::new();
    let mut calls: Vec<ToolCall> = Vec::new();
    let ghost blocks: Seq<JsonV> = match as_array(field(result@, "content"@)) {
        Some(b) => b,
        None => seq![],
    };
    match json_as_array(json_field(Some(result), "content")) {
        Some(v) => {
            proof {
                lemma_arr_v(v@);
            }
            let mut i: usize = 0;
            while i < v.len()
                invariant
                    i <= v.len(),
                    blocks == arr_v(v@),
                    blocks.len() == v@.len(),
                    forall|k: int| 0 <= k < v@.len() ==> #[trigger] blocks[k] == jv_of(v@[k]),
                    text@ == claude_text(blocks.take(i as int)),
                    calls_v(calls@) == claude_calls(blocks.take(i as int)),
                decreases v.len() - i,
            {
                let ghost before = calls@;
                proof {
                    reveal_strlit("text");
                    reveal_strlit("tool_use");
                    reveal_strlit("");
                    assert(""@ =~= Seq::<char>::empty());
                }
                assert(blocks.take(i + 1).drop_last() =~= blocks.take(i as int));
                assert(blocks.take(i + 1).last() == jv_of(v@[i as int]));
                let b = Some(&v[i]);
                let kind = json_as_str(json_field(b, "type"));
                let is_text = match kind {
                    Some(k) => str_eq(k, "text"),
                    None => false,
                };
                let is_tool = match kind {
                    Some(k) => str_eq(k, "tool_use"),
                    None => false,
                };
                if is_text {
                    match json_as_str(json_field(b, "text")) {
                        Some(t) => push_str(&mut text, t),
                        None => {},
                    }
                    assert("text"@.len() != "tool_use"@.len());
                    assert(claude_calls(blocks.take(i + 1)) == claude_calls(blocks.take(i as int)));
                } else if is_tool {
                    let id = owned_str_or(json_field(b, "id"), "");
                    let name = owned_str_or(json_field(b, "name"), "");
                    let arguments = lifted_copy(json_field(b, "input"));
                    calls.push(ToolCall { id, name, arguments });
                    assert(calls_v(calls@) =~= calls_v(before).push(calls@.last()@));
                }
                i = i + 1;
            }
            assert(blocks.take(v.len() as int) =~= blocks);
        },
        None => {},
    }
    let has_calls = calls.len() > 0;
    let stop_reason = match json_as_str(json_field(Some(result), "stop_reason")) {
        Some(r) => if str_eq(r, "tool_use") {
            StopReason::ToolCall
        } else if str_eq(r, "max_tokens") {
            StopReason::MaxTokens
        } else if has_calls {
            StopReason::ToolCall
        } else {
            StopReason::Stop
        },
        None => if has_calls {
            StopReason::ToolCall
        } else {
            StopReason::Stop
        },
    };
    let content = nonempty_string(text);
    let tool_calls = nonempty_exec(calls);
    Ok(LlmResponse { content, tool_calls, stop_reason })
}

/// The text one Gemini part contributes: its `text`, when that is a string.
pub open spec fn gemini_part_text(p: JsonV) -> Seq<char> {
    str_or(field(p, "text"@), seq![])
}

/// The text of Gemini parts, joined in order.
pub open spec fn gemini_text(parts: Seq<JsonV>) -> Seq<char>
    decreases parts.len(),
{
    if parts.len() == 0 {
        seq![]
    } else {
        gemini_text(parts.drop_last()) + gemini_part_text(parts.last())
    }
}

/// The tool calls of Gemini parts: one per part with a `functionCall` member, in order,
/// numbered `gemini_0`, `gemini_1`, ..., with the call's `name` (empty when absent) and
/// `args`.
pub open spec fn gemini_calls(parts: Seq<JsonV>) -> Seq<ToolCallV>
    decreases parts.len(),
{
    if parts.len() == 0 {
        seq![]
    } else {
        let rest = gemini_calls(parts.drop_last());
        match get(parts.last(), "functionCall"@) {
            Some(fc) => rest.push(
                ToolCallV {
                    id: "gemini_"@ + decimal(rest.len()),
                    name: str_or(field(fc, "name"@), seq![]),
                    arguments: field(fc, "args"@),
                },
            ),
            None => rest,
        }
    }
}

/// The parts of a Gemini reply: `candidates[0].content.parts`.
pub open spec fn gemini_parts(result: JsonV) -> Seq<JsonV> {
    match as_array(field(field(elem(field(result, "candidates"@), 0), "content"@), "parts"@)) {
        Some(p) => p,
        None => seq![],
    }
}

/// The reply of Gemini: the joined texts and the function calls of its parts (each `None`
/// when empty); it stops for tool calls exactly when there are some.
pub open spec fn gemini_response(result: JsonV) -> LlmResponseV {
    let parts = gemini_parts(result);
    let calls = gemini_calls(parts);
    LlmResponseV {
        content: nonempty_text(gemini_text(parts)),
        tool_calls: nonempty(calls),
        stop_reason: default_reason(calls.len() > 0),
    }
}

/// Reads a Gemini reply (see `gemini_response`). It always succeeds.
pub fn parse_gemini_response(result: &Json) -> (r: Result<LlmResponse, ModelError>)
    ensures
        r is Ok,
        r matches Ok(resp) ==> resp@ == gemini_response(result@),
{
    let mut text = String::new();
    let mut calls: Vec<ToolCall> = Vec::new();
    let ghost parts = gemini_parts(result@);
    let candidate = json_elem(json_field(Some(result), "candidates"), 0);
    match json_as_array(json_field(json_field(candidate, "content"), "parts")) {
        Some(v) => {
            proof {
                lemma_arr_v(v@);
            }
            let mut i: usize = 0;
            while i < v.len()
                invariant
                    i <= v.len(),
                    parts == arr_v(v@),
                    parts.len() == v@.len(),
                    forall|k: int| 0 <= k < v@.len() ==> #[trigger] parts[k] == jv_of(v@[k]),
                    text@ == gemini_text(parts.take(i as int)),
                    calls_v(calls@) == gemini_calls(parts.take(i as int)),
                decreases v.len() - i,
            {
                let ghost before = calls@;
                proof {
                    reveal_strlit("");
                    assert(""@ =~= Seq::<char>::empty());
                }
                assert(parts.take(i + 1).drop_last() =~= parts.take(i as int));
                assert(parts.take(i + 1).last() == jv_of(v@[i as int]));
                let p = Some(&v[i]);
                match json_as_str(json_field(p, "text")) {
                    Some(t) => push_str(&mut text, t),
                    None => {},
                }
                let fc = json_field(p, "functionCall");
                if fc.is_some() {
                    let mut id = "gemini_".to_owned();
                    push_u64(&mut id, calls.len() as u64);
                    let name = owned_str_or(json_field(fc, "name"), "");
                    let arguments = lifted_copy(json_field(fc, "args"));
                    calls.push(ToolCall { id, name, arguments });
                    assert(calls_v(calls@) =~= calls_v(before).push(calls@.last()@));
                }
                i = i + 1;
            }
            assert(parts.take(v.len() as int) =~= parts);
        },
        None => {},
    }
    let has_calls = calls.len() > 0;
    let stop_reason = if has_calls {
        StopReason::ToolCall
    } else {
        StopReason::Stop
    };
    let content = nonempty_string(text);
    let tool_calls = nonempty_exec(calls);
    Ok(LlmResponse { content, tool_calls, stop_reason })
}

/// The view of a JSON value (a name usable in triggers).
pub open spec fn jv_of(j: Json) -> JsonV {
    j@
}

} // verus!
