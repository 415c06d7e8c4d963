//! What a chat call sends to each provider: the endpoint URL, the headers and the JSON body,
//! built from the provider-neutral messages and tool definitions.
use vstd::prelude::*;
use crate::json::{
    Json, JsonV, member_from, json_text, arr_v, obj_v, lemma_arr_v, field, as_str, as_array, lift, json_field, json_as_str,
    json_as_array, clone_json, push_member, push_item, json_str, copy_items, opt_jv,
};
use crate::model::{
    Message, MessageV, ModelError, LlmResponse, LlmResponseV, StopReason, gemini_calls, ToolCallV,
    call_entry, jv_of, str_or, parsed_or_empty,
    openai_response, claude_response, gemini_response, parse_openai_response, parse_claude_response,
    parse_gemini_response,
};
use crate::text::{
    opt_string_view, opt_str_view, chars_of, string_of, trim, trim_chars, ends_with, matches_at_exec, push_str, push_range, str_eq,
    decimal,
};

verus! {

broadcast use vstd::std_specs::vec::group_vec_axioms;

/// `s` without its trailing `/` characters.
pub open spec fn trim_end_slashes(s: Seq<char>) -> Seq<char>
    decreases s.len(),
{
    if s.len() > 0 && s.last() == '/' {
        trim_end_slashes(s.drop_last())
    } else {
        s
    }
}

/// A configured endpoint without surrounding whitespace and trailing slashes.
pub open spec fn base_endpoint(e: Seq<char>) -> Seq<char> {
    trim_end_slashes(trim(e))
}

/// The URL of an API path under an endpoint: the endpoint itself when it already ends with
/// the path, otherwise the endpoint with the path appended.
pub open spec fn endpoint_url_spec(e: Seq<char>, path: Seq<char>) -> Seq<char> {
    let b = base_endpoint(e);
    if ends_with(b, path) {
        b
    } else {
        b + path
    }
}

/// The characters of a configured endpoint without surrounding whitespace and trailing
/// slashes.
fn base_endpoint_chars(endpoint: &str) -> (r: Vec<char>)
    ensures
        r@ == base_endpoint(endpoint@),
{
    let cs = chars_of(endpoint);
    let mut t = trim_chars(cs.as_slice());
    while t.len() > 0 && t[t.len() - 1] == '/'
        invariant
            trim_end_slashes(t@) == base_endpoint(endpoint@),
        decreases t.len(),
    {
        let ghost before = t@;
        t.pop();
        assert(t@ =~= before.drop_last());
    }
    t
}

/// The configured endpoint without surrounding whitespace and trailing slashes.
pub fn base_endpoint_of(endpoint: &str) -> (r: String)
    ensures
        r@ == base_endpoint(endpoint@),
{
    let b = base_endpoint_chars(endpoint);
    string_of(b.as_slice())
}

/// The URL of `path` under `endpoint` (see `endpoint_url_spec`).
pub fn endpoint_url(endpoint: &str, path: &str) -> (r: String)
    ensures
        r@ == endpoint_url_spec(endpoint@, path@),
{
    let b = base_endpoint_chars(endpoint);
    let p = chars_of(path);
    let already = p.len() <= b.len() && matches_at_exec(b.as_slice(), p.as_slice(), b.len() - p.len());
    let mut out = string_of(b.as_slice());
    if !already {
        push_str(&mut out, path);
    }
    out
}

/// The Gemini URL for a model: `{endpoint}/models/{model}:generateContent`.
pub open spec fn gemini_url_spec(endpoint: Seq<char>, model: Seq<char>) -> Seq<char> {
    base_endpoint(endpoint) + "/models/"@ + model + ":generateContent"@
}

/// The Gemini URL for a model (see `gemini_url_spec`).
pub fn gemini_url(endpoint: &str, model: &str) -> (r: String)
    ensures
        r@ == gemini_url_spec(endpoint@, model@),
{
    let mut out = base_endpoint_of(endpoint);
    push_str(&mut out, "/models/");
    push_str(&mut out, model);
    push_str(&mut out, ":generateContent");
    out
}

/// A member for an optional value: one member when it is present, none otherwise.
pub open spec fn opt_member(key: Seq<char>, v: Option<JsonV>) -> Seq<(Seq<char>, JsonV)> {
    match v {
        Some(x) => seq![(key, x)],
        None => seq![],
    }
}

/// An optional text as an optional JSON string.
pub open spec fn opt_text(s: Option<Seq<char>>) -> Option<JsonV> {
    match s {
        Some(x) => Some(JsonV::Str(x)),
        None => None,
    }
}

/// The JSON form of a message: `role`, then `content`, `tool_calls`, `tool_call_id` and
/// `name`, each only when present.
pub open spec fn message_json(m: MessageV) -> JsonV {
    JsonV::Object(
        seq![("role"@, JsonV::Str(m.role))] + opt_member("content"@, opt_text(m.content))
            + opt_member("tool_calls"@, m.tool_calls) + opt_member("tool_call_id"@, opt_text(m.tool_call_id))
            + opt_member("name"@, opt_text(m.name)),
    )
}

/// Appends a member for an optional string.
fn push_opt_str(members: &mut Vec<(String, Json)>, key: &str, v: &Option<String>)
    ensures
        obj_v(final(members)@) == obj_v(old(members)@) + opt_member(key@, opt_text(opt_string_view(*v))),
{
    match v {
        Some(x) => {
            push_member(members, key, Json::Str(x.clone()));
        },
        None => {},
    }
    assert(obj_v(members@) =~= obj_v(old(members)@) + opt_member(key@, opt_text(opt_string_view(*v))));
}

/// The JSON form of a message (see `message_json`).
pub fn message_value(m: &Message) -> (r: Json)
    ensures
        r@ == message_json(m@),
{
    let mut members: Vec<(String, Json)> = Vec::new();
    push_member(&mut members, "role", Json::Str(m.role.clone()));
    assert(obj_v(members@) =~= seq![("role"@, JsonV::Str(m.role@))]);
    push_opt_str(&mut members, "content", &m.content);
    match &m.tool_calls {
        Some(t) => {
            let ghost before = obj_v(members@);
            push_member(&mut members, "tool_calls", clone_json(t));
            assert(obj_v(members@) =~= before + opt_member("tool_calls"@, m@.tool_calls));
        },
        None => {
            assert(obj_v(members@) =~= obj_v(members@) + opt_member("tool_calls"@, m@.tool_calls));
        },
    }
    push_opt_str(&mut members, "tool_call_id", &m.tool_call_id);
    push_opt_str(&mut members, "name", &m.name);
    Json::Object(members)
}

/// The system message that opens every call.
pub open spec fn system_json(prompt: Seq<char>) -> JsonV {
    JsonV::Object(seq![("role"@, JsonV::Str("system"@)), ("content"@, JsonV::Str(prompt))])
}

/// The messages of a call: the system prompt, then the conversation, in order.
pub open spec fn full_messages_spec(prompt: Seq<char>, ms: Seq<Message>) -> Seq<JsonV> {
    seq![system_json(prompt)] + ms.map_values(|m: Message| message_json(m@))
}

/// The messages of a call (see `full_messages_spec`).
pub fn full_messages(system_prompt: &str, messages: &[Message]) -> (r: Vec<Json>)
    ensures
        arr_v(r@) == full_messages_spec(system_prompt@, messages@),
{
    let mut sys: Vec<(String, Json)> = Vec::new();
    push_member(&mut sys, "role", json_str("system"));
    push_member(&mut sys, "content", json_str(system_prompt));
    assert(obj_v(sys@) =~= seq![("role"@, JsonV::Str("system"@)), ("content"@, JsonV::Str(system_prompt@))]);
    let mut out: Vec<Json> = Vec::new();
    push_item(&mut out, Json::Object(sys));
    assert(arr_v(out@) =~= seq![system_json(system_prompt@)]);
    let mut i: usize = 0;
    while i < messages.len()
        invariant
            i <= messages.len(),
            arr_v(out@) == seq![system_json(system_prompt@)] + messages@.take(i as int).map_values(
                |m: Message| message_json(m@),
            ),
        decreases messages.len() - i,
    {
        let ghost before = arr_v(out@);
        push_item(&mut out, message_value(&messages[i]));
        assert(messages@.take(i + 1).map_values(|m: Message| message_json(m@)) =~= messages@.take(
            i as int,
        ).map_values(|m: Message| message_json(m@)).push(message_json(messages@[i as int]@)));
        assert(arr_v(out@) =~= seq![system_json(system_prompt@)] + messages@.take(i + 1).map_values(
            |m: Message| message_json(m@),
        ));
        i = i + 1;
    }
    assert(messages@.take(messages.len() as int) =~= messages@);
    out
}

/// The `tools` member, present only when there are tool definitions.
pub open spec fn tools_member(tools: Seq<JsonV>) -> Seq<(Seq<char>, JsonV)> {
    if tools.len() == 0 {
        seq![]
    } else {
        seq![("tools"@, JsonV::Array(tools))]
    }
}

/// The body of an OpenAI-compatible call: the model, the messages, at most 1600 tokens,
/// temperature 0.2, and the tools when there are any.
pub open spec fn openai_body_spec(model: Seq<char>, messages: Seq<JsonV>, tools: Seq<JsonV>) -> JsonV {
    JsonV::Object(
        seq![
            ("model"@, JsonV::Str(model)),
            ("messages"@, JsonV::Array(messages)),
            ("max_tokens"@, JsonV::Number("1600"@)),
            ("temperature"@, JsonV::Number("0.2"@)),
        ] + tools_member(tools),
    )
}

/// The body of an Ollama call: the model, the messages, no streaming, and the tools when
/// there are any.
pub open spec fn ollama_body_spec(model: Seq<char>, messages: Seq<JsonV>, tools: Seq<JsonV>) -> JsonV {
    JsonV::Object(
        seq![
            ("model"@, JsonV::Str(model)),
            ("messages"@, JsonV::Array(messages)),
            ("stream"@, JsonV::Bool(false)),
        ] + tools_member(tools),
    )
}

/// Appends the `tools` member when there are tool definitions.
fn push_tools(members: &mut Vec<(String, Json)>, tools: Vec<Json>)
    ensures
        obj_v(final(members)@) == obj_v(old(members)@) + tools_member(arr_v(tools@)),
{
    proof {
        lemma_arr_v(tools@);
    }
    if tools.len() > 0 {
        push_member(members, "tools", Json::Array(tools));
    }
    assert(obj_v(members@) =~= obj_v(old(members)@) + tools_member(arr_v(tools@)));
}

/// The body of an OpenAI-compatible call (see `openai_body_spec`).
pub fn openai_request_body(model: &str, messages: &[Json], tools: &[Json]) -> (r: Json)
    ensures
        r@ == openai_body_spec(model@, arr_v(messages@), arr_v(tools@)),
{
    let mut m: Vec<(String, Json)> = Vec::new();
    push_member(&mut m, "model", json_str(model));
    push_member(&mut m, "messages", Json::Array(copy_items(messages)));
    push_member(&mut m, "max_tokens", Json::Number("1600".to_owned()));
    push_member(&mut m, "temperature", Json::Number("0.2".to_owned()));
    let ghost fixed = obj_v(m@);
    push_tools(&mut m, copy_items(tools));
    assert(fixed =~= seq![
        ("model"@, JsonV::Str(model@)),
        ("messages"@, JsonV::Array(arr_v(messages@))),
        ("max_tokens"@, JsonV::Number("1600"@)),
        ("temperature"@, JsonV::Number("0.2"@)),
    ]);
    Json::Object(m)
}

/// The body of an Ollama call (see `ollama_body_spec`).
pub fn ollama_request_body(model: &str, messages: &[Json], tools: &[Json]) -> (r: Json)
    ensures
        r@ == ollama_body_spec(model@, arr_v(messages@), arr_v(tools@)),
{
    let mut m: Vec<(String, Json)> = Vec::new();
    push_member(&mut m, "model", json_str(model));
    push_member(&mut m, "messages", Json::Array(copy_items(messages)));
    push_member(&mut m, "stream", Json::Bool(false));
    let ghost fixed = obj_v(m@);
    push_tools(&mut m, copy_items(tools));
    assert(fixed =~= seq![
        ("model"@, JsonV::Str(model@)),
        ("messages"@, JsonV::Array(arr_v(messages@))),
        ("stream"@, JsonV::Bool(false)),
    ]);
    Json::Object(m)
}

/// The role of a message, when it is text.
pub open spec fn role_of(m: JsonV) -> Option<Seq<char>> {
    as_str(field(m, "role"@))
}

/// The tool calls an assistant message lists (none when `tool_calls` is not an array).
pub open spec fn listed_calls(m: JsonV) -> Seq<JsonV> {
    match as_array(field(m, "tool_calls"@)) {
        Some(c) => c,
        None => seq![],
    }
}

/// The arguments of a recorded tool call: its `function.arguments` text (`{}` when
/// absent), parsed; an empty object when that is not JSON.
pub open spec fn call_arguments(call: JsonV) -> JsonV {
    parsed_or_empty(str_or(field(field(call, "function"@), "arguments"@), "{}"@))
}

/// The Messages API `tool_use` block for one recorded tool call.
pub open spec fn claude_tool_use(call: JsonV) -> JsonV {
    JsonV::Object(
        seq![
            ("type"@, JsonV::Str("tool_use"@)),
            ("id"@, field(call, "id"@)),
            ("name"@, field(field(call, "function"@), "name"@)),
            ("input"@, call_arguments(call)),
        ],
    )
}

/// The Messages API text block that opens an assistant turn, when its content is non-empty text.
pub open spec fn claude_text_blocks(m: JsonV) -> Seq<JsonV> {
    match as_str(field(m, "content"@)) {
        Some(t) => if t.len() > 0 {
            seq![JsonV::Object(seq![("type"@, JsonV::Str("text"@)), ("text"@, JsonV::Str(t))])]
        } else {
            seq![]
        },
        None => seq![],
    }
}

/// How the Messages API receives one message: system messages are left out (the prompt goes apart);
/// an assistant message with tool calls becomes content blocks (its text, then one
/// `tool_use` per call); a tool result becomes a user message with a `tool_result` block;
/// any other message passes unchanged.
pub open spec fn claude_message(m: JsonV) -> Option<JsonV> {
    let role = role_of(m);
    if role == Some("system"@) {
        None
    } else if role == Some("assistant"@) && field(m, "tool_calls"@) is Array {
        Some(
            JsonV::Object(
                seq![
                    ("role"@, JsonV::Str("assistant"@)),
                    (
                        "content"@,
                        JsonV::Array(
                            claude_text_blocks(m) + listed_calls(m).map_values(|c: JsonV| claude_tool_use(c)),
                        ),
                    ),
                ],
            ),
        )
    } else if role == Some("tool"@) {
        Some(
            JsonV::Object(
                seq![
                    ("role"@, JsonV::Str("user"@)),
                    (
                        "content"@,
                        JsonV::Array(
                            seq![
                                JsonV::Object(
                                    seq![
                                        ("type"@, JsonV::Str("tool_result"@)),
                                        ("tool_use_id"@, field(m, "tool_call_id"@)),
                                        ("content"@, field(m, "content"@)),
                                    ],
                                ),
                            ],
                        ),
                    ),
                ],
            ),
        )
    } else {
        Some(m)
    }
}

/// The messages the Messages API receives, in order (see `claude_message`).
pub open spec fn claude_messages_spec(ms: Seq<JsonV>) -> Seq<JsonV>
    decreases ms.len(),
{
    if ms.len() == 0 {
        seq![]
    } else {
        let rest = claude_messages_spec(ms.drop_last());
        match claude_message(ms.last()) {
            Some(x) => rest.push(x),
            None => rest,
        }
    }
}

/// The first system message from index `i` on.
pub open spec fn first_system_from(ms: Seq<JsonV>, i: int) -> Option<JsonV>
    decreases ms.len() - i,
{
    if i < 0 || i >= ms.len() {
        None
    } else if role_of(ms[i]) == Some("system"@) {
        Some(ms[i])
    } else {
        first_system_from(ms, i + 1)
    }
}

/// The system prompt the Messages API receives apart: the content of the first system message when
/// it is text, otherwise empty.
pub open spec fn claude_system_spec(ms: Seq<JsonV>) -> Seq<char> {
    match first_system_from(ms, 0) {
        Some(m) => str_or(field(m, "content"@), seq![]),
        None => seq![],
    }
}

/// The Messages API form of one tool definition: `name`, `description`, and the parameters as
/// `input_schema`.
pub open spec fn claude_tool(t: JsonV) -> JsonV {
    let f = field(t, "function"@);
    JsonV::Object(
        seq![
            ("name"@, field(f, "name"@)),
            ("description"@, field(f, "description"@)),
            ("input_schema"@, field(f, "parameters"@)),
        ],
    )
}

/// The body of a Messages API call: the model, at most 1600 tokens, the system prompt, the
/// converted messages, and the converted tools when there are any.
pub open spec fn claude_body_spec(model: Seq<char>, messages: Seq<JsonV>, tools: Seq<JsonV>) -> JsonV {
    JsonV::Object(
        seq![
            ("model"@, JsonV::Str(model)),
            ("max_tokens"@, JsonV::Number("1600"@)),
            ("system"@, JsonV::Str(claude_system_spec(messages))),
            ("messages"@, JsonV::Array(claude_messages_spec(messages))),
        ] + tools_member(tools.map_values(|t: JsonV| claude_tool(t))),
    )
}

/// The arguments of a recorded tool call (see `call_arguments`).
fn call_arguments_exec(call: Option<&Json>) -> (r: Json)
    ensures
        r@ == call_arguments(lift(call)),
{
    let text = match json_as_str(json_field(json_field(call, "function"), "arguments")) {
        Some(a) => a,
        None => "{}",
    };
    match crate::json::parse_json_text(text) {
        Some(v) => v,
        None => {
            assert(obj_v(Seq::<(String, Json)>::empty()) =~= Seq::<(Seq<char>, JsonV)>::empty());
            Json::Object(Vec::new())
        },
    }
}

/// A copy of a looked-up value (`null` when absent).
fn copy_or_null(j: Option<&Json>) -> (r: Json)
    ensures
        r@ == lift(j),
{
    match j {
        Some(x) => clone_json(x),
        None => Json::Null,
    }
}

/// The Messages API `tool_use` block for one recorded tool call.
fn claude_tool_use_exec(call: &Json) -> (r: Json)
    ensures
        r@ == claude_tool_use(call@),
{
    let c = Some(call);
    let mut m: Vec<(String, Json)> = Vec::new();
    push_member(&mut m, "type", json_str("tool_use"));
    push_member(&mut m, "id", copy_or_null(json_field(c, "id")));
    push_member(&mut m, "name", copy_or_null(json_field(json_field(c, "function"), "name")));
    push_member(&mut m, "input", call_arguments_exec(c));
    assert(obj_v(m@) =~= seq![
        ("type"@, JsonV::Str("tool_use"@)),
        ("id"@, field(call@, "id"@)),
        ("name"@, field(field(call@, "function"@), "name"@)),
        ("input"@, call_arguments(call@)),
    ]);
    Json::Object(m)
}

/// Applies a conversion to each of a list of values, in order.
fn claude_tool_uses(calls: &Vec<Json>) -> (r: Vec<Json>)
    ensures
        arr_v(r@) == arr_v(calls@).map_values(|c: JsonV| claude_tool_use(c)),
{
    proof {
        lemma_arr_v(calls@);
    }
    let mut out: Vec<Json> = Vec::new();
    let mut i: usize = 0;
    while i < calls.len()
        invariant
            i <= calls.len(),
            arr_v(calls@).len() == calls@.len(),
            forall|k: int| 0 <= k < calls@.len() ==> #[trigger] arr_v(calls@)[k] == jv_of(calls@[k]),
            arr_v(out@) == arr_v(calls@).take(i as int).map_values(|c: JsonV| claude_tool_use(c)),
        decreases calls.len() - i,
    {
        let ghost before = arr_v(out@);
        push_item(&mut out, claude_tool_use_exec(&calls[i]));
        assert(arr_v(calls@).take(i + 1).map_values(|c: JsonV| claude_tool_use(c)) =~= before.push(
            claude_tool_use(jv_of(calls@[i as int])),
        ));
        i = i + 1;
    }
    assert(arr_v(calls@).take(calls.len() as int) =~= arr_v(calls@));
    out
}

/// The opening text block of an assistant turn (see `claude_text_blocks`).
fn claude_text_blocks_exec(m: &Json) -> (r: Vec<Json>)
    ensures
        arr_v(r@) == claude_text_blocks(m@),
{
    let mut out: Vec<Json> = Vec::new();
    match json_as_str(json_field(Some(m), "content")) {
        Some(t) => {
            if !t.is_empty() {
                let mut b: Vec<(String, Json)> = Vec::new();
                push_member(&mut b, "type", json_str("text"));
                push_member(&mut b, "text", json_str(t));
                assert(obj_v(b@) =~= seq![("type"@, JsonV::Str("text"@)), ("text"@, JsonV::Str(t@))]);
                push_item(&mut out, Json::Object(b));
            }
        },
        None => {},
    }
    assert(arr_v(out@) =~= claude_text_blocks(m@));
    out
}

/// Joins two element lists.
fn append_items(a: &mut Vec<Json>, b: Vec<Json>)
    ensures
        arr_v(final(a)@) == arr_v(old(a)@) + arr_v(b@),
{
    let mut b = b;
    let ghost bv = arr_v(b@);
    proof {
        lemma_arr_v(b@);
    }
    let ghost all = b@;
    let n: usize = b.len();
    assert(all.len() == n);
    let mut i: usize = 0;
    let ghost start = arr_v(a@);
    while b.len() > 0
        invariant
            all.len() == bv.len(),
            all.len() <= usize::MAX,
            forall|k: int| 0 <= k < all.len() ==> #[trigger] bv[k] == jv_of(all[k]),
            i <= all.len(),
            b@ =~= all.subrange(i as int, all.len() as int),
            arr_v(a@) == start + bv.take(i as int),
        decreases b.len(),
    {
        let x = b.remove(0);
        assert(x == all[i as int]);
        let ghost before = arr_v(a@);
        push_item(a, x);
        assert(bv.take(i + 1) =~= bv.take(i as int).push(bv[i as int]));
        i = i + 1;
    }
    assert(bv.take(all.len() as int) =~= bv);
}

/// How the Messages API receives one message (see `claude_message`).
fn claude_message_exec(m: &Json) -> (r: Option<Json>)
    ensures
        match r {
            Some(x) => claude_message(m@) == Some(x@),
            None => claude_message(m@) is None,
        },
{
    let mm = Some(m);
    let role = json_as_str(json_field(mm, "role"));
    let is_system = match role {
        Some(r) => str_eq(r, "system"),
        None => false,
    };
    let is_assistant = match role {
        Some(r) => str_eq(r, "assistant"),
        None => false,
    };
    let is_tool = match role {
        Some(r) => str_eq(r, "tool"),
        None => false,
    };
    if is_system {
        return None;
    }
    let calls = json_as_array(json_field(mm, "tool_calls"));
    if is_assistant && calls.is_some() {
        let calls = calls.unwrap();
        let mut content = claude_text_blocks_exec(m);
        let uses = claude_tool_uses(calls);
        append_items(&mut content, uses);
        let mut out: Vec<(String, Json)> = Vec::new();
        push_member(&mut out, "role", json_str("assistant"));
        push_member(&mut out, "content", Json::Array(content));
        assert(obj_v(out@) =~= seq![
            ("role"@, JsonV::Str("assistant"@)),
            (
                "content"@,
                JsonV::Array(claude_text_blocks(m@) + listed_calls(m@).map_values(|c: JsonV| claude_tool_use(c))),
            ),
        ]);
        return Some(Json::Object(out));
    }
    if is_tool {
        let mut block: Vec<(String, Json)> = Vec::new();
        push_member(&mut block, "type", json_str("tool_result"));
        push_member(&mut block, "tool_use_id", copy_or_null(json_field(mm, "tool_call_id")));
        push_member(&mut block, "content", copy_or_null(json_field(mm, "content")));
        let mut blocks: Vec<Json> = Vec::new();
        push_item(&mut blocks, Json::Object(block));
        let mut out: Vec<(String, Json)> = Vec::new();
        push_member(&mut out, "role", json_str("user"));
        push_member(&mut out, "content", Json::Array(blocks));
        assert(obj_v(block@) =~= seq![
            ("type"@, JsonV::Str("tool_result"@)),
            ("tool_use_id"@, field(m@, "tool_call_id"@)),
            ("content"@, field(m@, "content"@)),
        ]);
        assert(arr_v(blocks@) =~= seq![JsonV::Object(obj_v(block@))]);
        assert(obj_v(out@) =~= seq![("role"@, JsonV::Str("user"@)), ("content"@, JsonV::Array(arr_v(blocks@)))]);
        return Some(Json::Object(out));
    }
    Some(clone_json(m))
}

/// The messages the Messages API receives (see `claude_messages_spec`).
pub fn claude_messages(messages: &[Json]) -> (r: Vec<Json>)
    ensures
        arr_v(r@) == claude_messages_spec(arr_v(messages@)),
{
    proof {
        lemma_arr_v(messages@);
    }
    let ghost all = arr_v(messages@);
    let mut out: Vec<Json> = Vec::new();
    let mut i: usize = 0;
    while i < messages.len()
        invariant
            i <= messages.len(),
            all == arr_v(messages@),
            all.len() == messages@.len(),
            forall|k: int| 0 <= k < messages@.len() ==> #[trigger] all[k] == jv_of(messages@[k]),
            arr_v(out@) == claude_messages_spec(all.take(i as int)),
        decreases messages.len() - i,
    {
        assert(all.take(i + 1).drop_last() =~= all.take(i as int));
        assert(all.take(i + 1).last() == jv_of(messages@[i as int]));
        match claude_message_exec(&messages[i]) {
            Some(x) => push_item(&mut out, x),
            None => {},
        }
        i = i + 1;
    }
    assert(all.take(messages.len() as int) =~= all);
    out
}

/// The system prompt the Messages API receives apart (see `claude_system_spec`).
pub fn claude_system(messages: &[Json]) -> (r: String)
    ensures
        r@ == claude_system_spec(arr_v(messages@)),
{
    proof {
        lemma_arr_v(messages@);
        reveal_strlit("");
    }
    let ghost all = arr_v(messages@);
    let mut i: usize = 0;
    while i < messages.len()
        invariant
            i <= messages.len(),
            all == arr_v(messages@),
            all.len() == messages@.len(),
            forall|k: int| 0 <= k < messages@.len() ==> #[trigger] all[k] == jv_of(messages@[k]),
            first_system_from(all, 0) == first_system_from(all, i as int),
        decreases messages.len() - i,
    {
        let m = Some(&messages[i]);
        let is_system = match json_as_str(json_field(m, "role")) {
            Some(r) => str_eq(r, "system"),
            None => false,
        };
        assert(all[i as int] == jv_of(messages@[i as int]));
        if is_system {
            return match json_as_str(json_field(m, "content")) {
                Some(t) => t.to_owned(),
                None => {
                    proof {
                        reveal_strlit("");
                    }
                    assert(""@ =~= Seq::<char>::empty());
                    "".to_owned()
                },
            };
        }
        i = i + 1;
    }
    assert(""@ =~= Seq::<char>::empty());
    "".to_owned()
}

/// The Messages API form of one tool definition (see `claude_tool`).
fn claude_tool_exec(t: &Json) -> (r: Json)
    ensures
        r@ == claude_tool(t@),
{
    let f = json_field(Some(t), "function");
    let mut m: Vec<(String, Json)> = Vec::new();
    push_member(&mut m, "name", copy_or_null(json_field(f, "name")));
    push_member(&mut m, "description", copy_or_null(json_field(f, "description")));
    push_member(&mut m, "input_schema", copy_or_null(json_field(f, "parameters")));
    assert(obj_v(m@) =~= seq![
        ("name"@, field(field(t@, "function"@), "name"@)),
        ("description"@, field(field(t@, "function"@), "description"@)),
        ("input_schema"@, field(field(t@, "function"@), "parameters"@)),
    ]);
    Json::Object(m)
}

/// The Messages API forms of the tool definitions, in order.
pub fn claude_tools(tools: &[Json]) -> (r: Vec<Json>)
    ensures
        arr_v(r@) == arr_v(tools@).map_values(|t: JsonV| claude_tool(t)),
{
    proof {
        lemma_arr_v(tools@);
    }
    let mut out: Vec<Json> = Vec::new();
    let mut i: usize = 0;
    while i < tools.len()
        invariant
            i <= tools.len(),
            arr_v(tools@).len() == tools@.len(),
            forall|k: int| 0 <= k < tools@.len() ==> #[trigger] arr_v(tools@)[k] == jv_of(tools@[k]),
            arr_v(out@) == arr_v(tools@).take(i as int).map_values(|t: JsonV| claude_tool(t)),
        decreases tools.len() - i,
    {
        let ghost before = arr_v(out@);
        push_item(&mut out, claude_tool_exec(&tools[i]));
        assert(arr_v(tools@).take(i + 1).map_values(|t: JsonV| claude_tool(t)) =~= before.push(
            claude_tool(jv_of(tools@[i as int])),
        ));
        i = i + 1;
    }
    assert(arr_v(tools@).take(tools.len() as int) =~= arr_v(tools@));
    out
}

/// The body of a Messages API call (see `claude_body_spec`).
pub fn claude_request_body(model: &str, messages: &[Json], tools: &[Json]) -> (r: Json)
    ensures
        r@ == claude_body_spec(model@, arr_v(messages@), arr_v(tools@)),
{
    let mut m: Vec<(String, Json)> = Vec::new();
    push_member(&mut m, "model", json_str(model));
    push_member(&mut m, "max_tokens", Json::Number("1600".to_owned()));
    push_member(&mut m, "system", Json::Str(claude_system(messages)));
    push_member(&mut m, "messages", Json::Array(claude_messages(messages)));
    let ghost fixed = obj_v(m@);
    push_tools(&mut m, claude_tools(tools));
    assert(fixed =~= seq![
        ("model"@, JsonV::Str(model@)),
        ("max_tokens"@, JsonV::Number("1600"@)),
        ("system"@, JsonV::Str(claude_system_spec(arr_v(messages@)))),
        ("messages"@, JsonV::Array(claude_messages_spec(arr_v(messages@)))),
    ]);
    Json::Object(m)
}

/// A one-member object.
pub open spec fn obj1(k: Seq<char>, v: JsonV) -> JsonV {
    JsonV::Object(seq![(k, v)])
}

/// A Gemini turn: a role and its parts.
pub open spec fn gemini_turn(role: Seq<char>, parts: Seq<JsonV>) -> JsonV {
    JsonV::Object(seq![("role"@, JsonV::Str(role)), ("parts"@, JsonV::Array(parts))])
}

/// The Gemini `functionCall` part for one recorded tool call.
pub open spec fn gemini_call_part(call: JsonV) -> JsonV {
    obj1(
        "functionCall"@,
        JsonV::Object(
            seq![("name"@, field(field(call, "function"@), "name"@)), ("args"@, call_arguments(call))],
        ),
    )
}

/// The text part that opens an assistant turn with tool calls, when its content is
/// non-empty text.
pub open spec fn gemini_text_parts(m: JsonV) -> Seq<JsonV> {
    match as_str(field(m, "content"@)) {
        Some(t) => if t.len() > 0 {
            seq![obj1("text"@, JsonV::Str(t))]
        } else {
            seq![]
        },
        None => seq![],
    }
}

/// How Gemini receives one message, as a turn of `contents`: a user message becomes a
/// `user` turn with its content as text; an assistant message with tool calls becomes a
/// `model` turn of its text and one `functionCall` per call (left out when that is empty);
/// another assistant message becomes a `model` turn with its text (empty when absent); a
/// tool result becomes a `function` turn with a `functionResponse` named by the message's
/// `name` (`unknown` when absent). System and other messages give no turn.
pub open spec fn gemini_content(m: JsonV) -> Option<JsonV> {
    let role = role_of(m);
    if role == Some("user"@) {
        Some(gemini_turn("user"@, seq![obj1("text"@, field(m, "content"@))]))
    } else if role == Some("assistant"@) && field(m, "tool_calls"@) is Array {
        let parts = gemini_text_parts(m) + listed_calls(m).map_values(|c: JsonV| gemini_call_part(c));
        if parts.len() > 0 {
            Some(gemini_turn("model"@, parts))
        } else {
            None
        }
    } else if role == Some("assistant"@) {
        Some(gemini_turn("model"@, seq![obj1("text"@, JsonV::Str(str_or(field(m, "content"@), seq![])))]))
    } else if role == Some("tool"@) {
        Some(
            gemini_turn(
                "function"@,
                seq![
                    obj1(
                        "functionResponse"@,
                        JsonV::Object(
                            seq![
                                ("name"@, JsonV::Str(str_or(field(m, "name"@), "unknown"@))),
                                ("response"@, obj1("result"@, field(m, "content"@))),
                            ],
                        ),
                    ),
                ],
            ),
        )
    } else {
        None
    }
}

/// The `contents` of a Gemini call, in order (see `gemini_content`).
pub open spec fn gemini_contents_spec(ms: Seq<JsonV>) -> Seq<JsonV>
    decreases ms.len(),
{
    if ms.len() == 0 {
        seq![]
    } else {
        let rest = gemini_contents_spec(ms.drop_last());
        match gemini_content(ms.last()) {
            Some(x) => rest.push(x),
            None => rest,
        }
    }
}

/// The system instruction of a Gemini call: the content of the last system message, as
/// the text of its one part.
pub open spec fn gemini_system_spec(ms: Seq<JsonV>) -> Option<JsonV>
    decreases ms.len(),
{
    if ms.len() == 0 {
        None
    } else if role_of(ms.last()) == Some("system"@) {
        Some(obj1("parts"@, JsonV::Array(seq![obj1("text"@, field(ms.last(), "content"@))])))
    } else {
        gemini_system_spec(ms.drop_last())
    }
}

/// The Gemini form of one tool definition: `name`, `description` and `parameters`.
pub open spec fn gemini_tool(t: JsonV) -> JsonV {
    let f = field(t, "function"@);
    JsonV::Object(
        seq![
            ("name"@, field(f, "name"@)),
            ("description"@, field(f, "description"@)),
            ("parameters"@, field(f, "parameters"@)),
        ],
    )
}

/// The body of a Gemini call: the contents, the system instruction when there is one, and
/// the function declarations when there are tools.
pub open spec fn gemini_body_spec(messages: Seq<JsonV>, tools: Seq<JsonV>) -> JsonV {
    JsonV::Object(
        seq![("contents"@, JsonV::Array(gemini_contents_spec(messages)))] + opt_member(
            "systemInstruction"@,
            gemini_system_spec(messages),
        ) + (if tools.len() == 0 {
            seq![]
        } else {
            seq![
                (
                    "tools"@,
                    JsonV::Array(
                        seq![obj1("function_declarations"@, JsonV::Array(tools.map_values(|t: JsonV| gemini_tool(t))))],
                    ),
                ),
            ]
        }),
    )
}

/// A one-member object.
fn obj1_exec(k: &str, v: Json) -> (r: Json)
    ensures
        r@ == obj1(k@, v@),
{
    let mut m: Vec<(String, Json)> = Vec::new();
    push_member(&mut m, k, v);
    assert(obj_v(m@) =~= seq![(k@, v@)]);
    Json::Object(m)
}

/// A Gemini turn.
fn gemini_turn_exec(role: &str, parts: Vec<Json>) -> (r: Json)
    ensures
        r@ == gemini_turn(role@, arr_v(parts@)),
{
    let mut m: Vec<(String, Json)> = Vec::new();
    push_member(&mut m, "role", json_str(role));
    push_member(&mut m, "parts", Json::Array(parts));
    assert(obj_v(m@) =~= seq![("role"@, JsonV::Str(role@)), ("parts"@, JsonV::Array(arr_v(parts@)))]);
    Json::Object(m)
}

/// A one-element list.
fn single(x: Json) -> (r: Vec<Json>)
    ensures
        arr_v(r@) == seq![x@],
{
    let mut v: Vec<Json> = Vec::new();
    push_item(&mut v, x);
    assert(arr_v(v@) =~= seq![x@]);
    v
}

/// The Gemini `functionCall` part for one recorded tool call.
fn gemini_call_part_exec(call: &Json) -> (r: Json)
    ensures
        r@ == gemini_call_part(call@),
{
    let c = Some(call);
    let mut m: Vec<(String, Json)> = Vec::new();
    push_member(&mut m, "name", copy_or_null(json_field(json_field(c, "function"), "name")));
    push_member(&mut m, "args", call_arguments_exec(c));
    assert(obj_v(m@) =~= seq![
        ("name"@, field(field(call@, "function"@), "name"@)),
        ("args"@, call_arguments(call@)),
    ]);
    obj1_exec("functionCall", Json::Object(m))
}

/// The `functionCall` parts of the listed calls, in order.
fn gemini_call_parts(calls: &Vec<Json>) -> (r: Vec<Json>)
    ensures
        arr_v(r@) == arr_v(calls@).map_values(|c: JsonV| gemini_call_part(c)),
{
    proof {
        lemma_arr_v(calls@);
    }
    let mut out: Vec<Json> = Vec::new();
    let mut i: usize = 0;
    while i < calls.len()
        invariant
            i <= calls.len(),
            arr_v(calls@).len() == calls@.len(),
            forall|k: int| 0 <= k < calls@.len() ==> #[trigger] arr_v(calls@)[k] == jv_of(calls@[k]),
            arr_v(out@) == arr_v(calls@).take(i as int).map_values(|c: JsonV| gemini_call_part(c)),
        decreases calls.len() - i,
    {
        let ghost before = arr_v(out@);
        push_item(&mut out, gemini_call_part_exec(&calls[i]));
        assert(arr_v(calls@).take(i + 1).map_values(|c: JsonV| gemini_call_part(c)) =~= before.push(
            gemini_call_part(jv_of(calls@[i as int])),
        ));
        i = i + 1;
    }
    assert(arr_v(calls@).take(calls.len() as int) =~= arr_v(calls@));
    out
}

/// How Gemini receives one message (see `gemini_content`).
fn gemini_content_exec(m: &Json) -> (r: Option<Json>)
    ensures
        match r {
            Some(x) => gemini_content(m@) == Some(x@),
            None => gemini_content(m@) is None,
        },
{
    proof {
        reveal_strlit("");
        assert(""@ =~= Seq::<char>::empty());
    }
    let mm = Some(m);
    let role = json_as_str(json_field(mm, "role"));
    let (is_user, is_assistant, is_tool) = match role {
        Some(r) => (str_eq(r, "user"), str_eq(r, "assistant"), str_eq(r, "tool")),
        None => (false, false, false),
    };
    if is_user {
        let part = obj1_exec("text", copy_or_null(json_field(mm, "content")));
        return Some(gemini_turn_exec("user", single(part)));
    }
    let calls = json_as_array(json_field(mm, "tool_calls"));
    if is_assistant && calls.is_some() {
        let calls = calls.unwrap();
        let mut parts: Vec<Json> = Vec::new();
        match json_as_str(json_field(mm, "content")) {
            Some(t) => {
                if !t.is_empty() {
                    push_item(&mut parts, obj1_exec("text", json_str(t)));
                }
            },
            None => {},
        }
        assert(arr_v(parts@) =~= gemini_text_parts(m@));
        let fc = gemini_call_parts(calls);
        append_items(&mut parts, fc);
        if parts.len() > 0 {
            proof {
                lemma_arr_v(parts@);
            }
            return Some(gemini_turn_exec("model", parts));
        } else {
            proof {
                lemma_arr_v(parts@);
            }
            return None;
        }
    }
    if is_assistant {
        let text = match json_as_str(json_field(mm, "content")) {
            Some(t) => t,
            None => "",
        };
        let part = obj1_exec("text", json_str(text));
        return Some(gemini_turn_exec("model", single(part)));
    }
    if is_tool {
        let name = match json_as_str(json_field(mm, "name")) {
            Some(n) => n,
            None => "unknown",
        };
        let mut resp: Vec<(String, Json)> = Vec::new();
        push_member(&mut resp, "name", json_str(name));
        push_member(&mut resp, "response", obj1_exec("result", copy_or_null(json_field(mm, "content"))));
        assert(obj_v(resp@) =~= seq![
            ("name"@, JsonV::Str(str_or(field(m@, "name"@), "unknown"@))),
            ("response"@, obj1("result"@, field(m@, "content"@))),
        ]);
        let part = obj1_exec("functionResponse", Json::Object(resp));
        return Some(gemini_turn_exec("function", single(part)));
    }
    None
}

/// The `contents` of a Gemini call (see `gemini_contents_spec`).
pub fn gemini_contents(messages: &[Json]) -> (r: Vec<Json>)
    ensures
        arr_v(r@) == gemini_contents_spec(arr_v(messages@)),
{
    proof {
        lemma_arr_v(messages@);
    }
    let ghost all = arr_v(messages@);
    let mut out: Vec<Json> = Vec::new();
    let mut i: usize = 0;
    while i < messages.len()
        invariant
            i <= messages.len(),
            all == arr_v(messages@),
            all.len() == messages@.len(),
            forall|k: int| 0 <= k < messages@.len() ==> #[trigger] all[k] == jv_of(messages@[k]),
            arr_v(out@) == gemini_contents_spec(all.take(i as int)),
        decreases messages.len() - i,
    {
        assert(all.take(i + 1).drop_last() =~= all.take(i as int));
        assert(all.take(i + 1).last() == jv_of(messages@[i as int]));
        match gemini_content_exec(&messages[i]) {
            Some(x) => push_item(&mut out, x),
            None => {},
        }
        i = i + 1;
    }
    assert(all.take(messages.len() as int) =~= all);
    out
}

/// The system instruction of a Gemini call (see `gemini_system_spec`).
pub fn gemini_system(messages: &[Json]) -> (r: Option<Json>)
    ensures
        opt_jv(r) == gemini_system_spec(arr_v(messages@)),
{
    proof {
        lemma_arr_v(messages@);
    }
    let ghost all = arr_v(messages@);
    let mut out: Option<Json> = None;
    let mut i: usize = 0;
    while i < messages.len()
        invariant
            i <= messages.len(),
            all == arr_v(messages@),
            all.len() == messages@.len(),
            forall|k: int| 0 <= k < messages@.len() ==> #[trigger] all[k] == jv_of(messages@[k]),
            opt_jv(out) == gemini_system_spec(all.take(i as int)),
        decreases messages.len() - i,
    {
        assert(all.take(i + 1).drop_last() =~= all.take(i as int));
        assert(all.take(i + 1).last() == jv_of(messages@[i as int]));
        let m = Some(&messages[i]);
        let is_system = match json_as_str(json_field(m, "role")) {
            Some(r) => str_eq(r, "system"),
            None => false,
        };
        if is_system {
            let part = obj1_exec("text", copy_or_null(json_field(m, "content")));
            out = Some(obj1_exec("parts", Json::Array(single(part))));
        }
        i = i + 1;
    }
    assert(all.take(messages.len() as int) =~= all);
    out
}


/// The Gemini form of one tool definition (see `gemini_tool`).
fn gemini_tool_exec(t: &Json) -> (r: Json)
    ensures
        r@ == gemini_tool(t@),
{
    let f = json_field(Some(t), "function");
    let mut m: Vec<(String, Json)> = Vec::new();
    push_member(&mut m, "name", copy_or_null(json_field(f, "name")));
    push_member(&mut m, "description", copy_or_null(json_field(f, "description")));
    push_member(&mut m, "parameters", copy_or_null(json_field(f, "parameters")));
    assert(obj_v(m@) =~= seq![
        ("name"@, field(field(t@, "function"@), "name"@)),
        ("description"@, field(field(t@, "function"@), "description"@)),
        ("parameters"@, field(field(t@, "function"@), "parameters"@)),
    ]);
    Json::Object(m)
}

/// The Gemini forms of the tool definitions, in order.
pub fn gemini_tools(tools: &[Json]) -> (r: Vec<Json>)
    ensures
        arr_v(r@) == arr_v(tools@).map_values(|t: JsonV| gemini_tool(t)),
{
    proof {
        lemma_arr_v(tools@);
    }
    let mut out: Vec<Json> = Vec::new();
    let mut i: usize = 0;
    while i < tools.len()
        invariant
            i <= tools.len(),
            arr_v(tools@).len() == tools@.len(),
            forall|k: int| 0 <= k < tools@.len() ==> #[trigger] arr_v(tools@)[k] == jv_of(tools@[k]),
            arr_v(out@) == arr_v(tools@).take(i as int).map_values(|t: JsonV| gemini_tool(t)),
        decreases tools.len() - i,
    {
        let ghost before = arr_v(out@);
        push_item(&mut out, gemini_tool_exec(&tools[i]));
        assert(arr_v(tools@).take(i + 1).map_values(|t: JsonV| gemini_tool(t)) =~= before.push(
            gemini_tool(jv_of(tools@[i as int])),
        ));
        i = i + 1;
    }
    assert(arr_v(tools@).take(tools.len() as int) =~= arr_v(tools@));
    out
}

/// The body of a Gemini call (see `gemini_body_spec`).
pub fn gemini_request_body(messages: &[Json], tools: &[Json]) -> (r: Json)
    ensures
        r@ == gemini_body_spec(arr_v(messages@), arr_v(tools@)),
{
    proof {
        lemma_arr_v(tools@);
    }
    let mut m: Vec<(String, Json)> = Vec::new();
    push_member(&mut m, "contents", Json::Array(gemini_contents(messages)));
    let ghost first = obj_v(m@);
    match gemini_system(messages) {
        Some(sys) => push_member(&mut m, "systemInstruction", sys),
        None => {},
    }
    let ghost second = obj_v(m@);
    assert(second =~= first + opt_member("systemInstruction"@, gemini_system_spec(arr_v(messages@))));
    let ghost third: Seq<(Seq<char>, JsonV)> = if tools@.len() == 0 {
        seq![]
    } else {
        seq![
            (
                "tools"@,
                JsonV::Array(
                    seq![obj1("function_declarations"@, JsonV::Array(arr_v(tools@).map_values(|t: JsonV| gemini_tool(t))))],
                ),
            ),
        ]
    };
    if tools.len() > 0 {
        let decls = obj1_exec("function_declarations", Json::Array(gemini_tools(tools)));
        push_member(&mut m, "tools", Json::Array(single(decls)));
        assert(obj_v(m@) =~= second + third);
    } else {
        assert(obj_v(m@) =~= second + third);
    }
    assert(first =~= seq![("contents"@, JsonV::Array(gemini_contents_spec(arr_v(messages@))))]);
    assert(obj_v(m@) =~= seq![("contents"@, JsonV::Array(gemini_contents_spec(arr_v(messages@))))] + opt_member(
        "systemInstruction"@,
        gemini_system_spec(arr_v(messages@)),
    ) + third);
    Json::Object(m)
}

/// The wire format a provider speaks.
#[derive(Debug, Clone, Copy, PartialEq, Eq, Structural)]
pub enum Dialect {
    /// OpenAI and the providers that share its chat-completions format.
    OpenAi,
    Ollama,
    Claude,
    Gemini,
}

/// What one chat call sends: where, with which headers, and the JSON body.
#[derive(Debug)]
pub struct ChatRequest {
    pub url: String,
    pub headers: Vec<(String, String)>,
    pub body: Json,
}

/// The view of a chat request.
pub struct ChatRequestV {
    pub url: Seq<char>,
    pub headers: Seq<(Seq<char>, Seq<char>)>,
    pub body: JsonV,
}

/// The views of header pairs.
pub open spec fn headers_v(h: Seq<(String, String)>) -> Seq<(Seq<char>, Seq<char>)> {
    h.map_values(|p: (String, String)| (p.0@, p.1@))
}

impl View for ChatRequest {
    type V = ChatRequestV;

    open spec fn view(&self) -> ChatRequestV {
        ChatRequestV { url: self.url@, headers: headers_v(self.headers@), body: self.body@ }
    }
}

/// The text of a model error.
pub open spec fn error_text(e: ModelError) -> Seq<char> {
    match e {
        ModelError::Analysis(s) => s@,
    }
}

/// The headers of an OpenAI-compatible call: a bearer token when a non-empty key is set.
pub open spec fn openai_headers(api_key: Option<Seq<char>>) -> Seq<(Seq<char>, Seq<char>)> {
    match api_key {
        Some(k) => if k.len() > 0 {
            seq![("Authorization"@, "Bearer "@ + k)]
        } else {
            seq![]
        },
        None => seq![],
    }
}

/// The headers of a Messages API call.
pub open spec fn claude_headers(key: Seq<char>) -> Seq<(Seq<char>, Seq<char>)> {
    seq![
        ("anthropic-version"@, "2023-06-01"@),
        ("content-type"@, "application/json"@),
        ("x-api-key"@, key),
    ]
}

/// What a chat call sends (or why it cannot be made): the Messages API and Gemini need an API key;
/// each provider gets its URL, headers and body built from the system prompt, the
/// conversation and the tool definitions. `label` is the provider's display name, which the
/// Messages API's errors begin with.
pub open spec fn chat_request_spec(
    d: Dialect,
    label: Seq<char>,
    endpoint: Seq<char>,
    model: Seq<char>,
    api_key: Option<Seq<char>>,
    prompt: Seq<char>,
    messages: Seq<Message>,
    tools: Seq<JsonV>,
) -> Result<ChatRequestV, Seq<char>> {
    let ms = full_messages_spec(prompt, messages);
    match d {
        Dialect::OpenAi => Ok(
            ChatRequestV {
                url: endpoint_url_spec(endpoint, "/chat/completions"@),
                headers: openai_headers(api_key),
                body: openai_body_spec(model, ms, tools),
            },
        ),
        Dialect::Ollama => Ok(
            ChatRequestV {
                url: endpoint_url_spec(endpoint, "/api/chat"@),
                headers: seq![],
                body: ollama_body_spec(model, ms, tools),
            },
        ),
        Dialect::Claude => match api_key {
            Some(k) => Ok(
                ChatRequestV {
                    url: endpoint_url_spec(endpoint, "/messages"@),
                    headers: claude_headers(k),
                    body: claude_body_spec(model, ms, tools),
                },
            ),
            None => Err(label + " 需要 API Key，请在设置中配置"@),
        },
        Dialect::Gemini => match api_key {
            Some(k) => Ok(
                ChatRequestV {
                    url: gemini_url_spec(endpoint, model),
                    headers: seq![("x-goog-api-key"@, k)],
                    body: gemini_body_spec(ms, tools),
                },
            ),
            None => Err("Gemini 需要 API Key，请在设置中配置"@),
        },
    }
}

/// Appends a header.
fn push_header(headers: &mut Vec<(String, String)>, name: &str, value: String)
    ensures
        headers_v(final(headers)@) == headers_v(old(headers)@).push((name@, value@)),
{
    let ghost before = headers@;
    headers.push((name.to_owned(), value));
    assert(headers_v(headers@) =~= headers_v(before).push((name@, value@)));
}

/// What a chat call sends, or the error when it cannot be made (see `chat_request_spec`).
pub fn build_chat_request(
    dialect: Dialect,
    label: &str,
    endpoint: &str,
    model: &str,
    api_key: Option<&str>,
    system_prompt: &str,
    messages: &[Message],
    tools: &[Json],
) -> (r: Result<ChatRequest, ModelError>)
    ensures
        match r {
            Ok(q) => chat_request_spec(
                dialect,
                label@,
                endpoint@,
                model@,
                opt_str_view(api_key),
                system_prompt@,
                messages@,
                arr_v(tools@),
            ) == Ok::<ChatRequestV, Seq<char>>(q@),
            Err(e) => chat_request_spec(
                dialect,
                label@,
                endpoint@,
                model@,
                opt_str_view(api_key),
                system_prompt@,
                messages@,
                arr_v(tools@),
            ) == Err::<ChatRequestV, Seq<char>>(error_text(e)),
        },
{
    let ms = full_messages(system_prompt, messages);
    let mut headers: Vec<(String, String)> = Vec::new();
    assert(headers_v(headers@) =~= Seq::<(Seq<char>, Seq<char>)>::empty());
    match dialect {
        Dialect::OpenAi => {
            match api_key {
                Some(k) => {
                    if !k.is_empty() {
                        let mut v = "Bearer ".to_owned();
                        push_str(&mut v, k);
                        push_header(&mut headers, "Authorization", v);
                        assert(headers_v(headers@) =~= openai_headers(opt_str_view(api_key)));
                    }
                },
                None => {},
            }
            let url = endpoint_url(endpoint, "/chat/completions");
            let body = openai_request_body(model, ms.as_slice(), tools);
            Ok(ChatRequest { url, headers, body })
        },
        Dialect::Ollama => {
            let url = endpoint_url(endpoint, "/api/chat");
            let body = ollama_request_body(model, ms.as_slice(), tools);
            Ok(ChatRequest { url, headers, body })
        },
        Dialect::Claude => match api_key {
            Some(k) => {
                push_header(&mut headers, "anthropic-version", "2023-06-01".to_owned());
                push_header(&mut headers, "content-type", "application/json".to_owned());
                push_header(&mut headers, "x-api-key", k.to_owned());
                assert(headers_v(headers@) =~= claude_headers(k@));
                let url = endpoint_url(endpoint, "/messages");
                let body = claude_request_body(model, ms.as_slice(), tools);
                Ok(ChatRequest { url, headers, body })
            },
            None => {
                let mut t = label.to_owned();
                push_str(&mut t, " 需要 API Key，请在设置中配置");
                Err(ModelError::Analysis(t))
            },
        },
        Dialect::Gemini => match api_key {
            Some(k) => {
                push_header(&mut headers, "x-goog-api-key", k.to_owned());
                assert(headers_v(headers@) =~= seq![("x-goog-api-key"@, k@)]);
                let url = gemini_url(endpoint, model);
                let body = gemini_request_body(ms.as_slice(), tools);
                Ok(ChatRequest { url, headers, body })
            },
            None => Err(ModelError::Analysis("Gemini 需要 API Key，请在设置中配置".to_owned())),
        },
    }
}


/// Reads a provider's reply in the provider's format.
pub open spec fn chat_response_spec(d: Dialect, result: JsonV) -> LlmResponseV {
    match d {
        Dialect::OpenAi => openai_response(result),
        Dialect::Ollama => openai_response(result),
        Dialect::Claude => claude_response(result),
        Dialect::Gemini => gemini_response(result),
    }
}

/// Reads a provider's reply (see `chat_response_spec`); it always succeeds.
pub fn parse_chat_response(dialect: Dialect, result: &Json) -> (r: Result<LlmResponse, ModelError>)
    ensures
        r is Ok,
        r matches Ok(resp) ==> resp@ == chat_response_spec(dialect, result@),
{
    match dialect {
        Dialect::OpenAi => parse_openai_response(result),
        Dialect::Ollama => parse_openai_response(result),
        Dialect::Claude => parse_claude_response(result),
        Dialect::Gemini => parse_gemini_response(result),
    }
}

/// The error text when a provider answers with a failure status: the provider's error body
/// (for Ollama the status line; for Gemini only its first 300 characters). The Messages
/// API's text begins with the provider's display name `label`.
pub open spec fn call_failure_spec(d: Dialect, label: Seq<char>, status: Seq<char>, body: Seq<char>) -> Seq<char> {
    match d {
        Dialect::OpenAi => "LLM 调用失败: "@ + body,
        Dialect::Ollama => "Ollama 调用失败: "@ + status,
        Dialect::Claude => label + " 调用失败: "@ + body,
        Dialect::Gemini => "Gemini 调用失败: "@ + (if body.len() <= 300 {
            body
        } else {
            body.take(300)
        }),
    }
}

/// The error for a failure status (see `call_failure_spec`).
pub fn call_failure(dialect: Dialect, label: &str, status: &str, body: &str) -> (r: ModelError)
    ensures
        error_text(r) == call_failure_spec(dialect, label@, status@, body@),
{
    match dialect {
        Dialect::OpenAi => {
            let mut t = "LLM 调用失败: ".to_owned();
            push_str(&mut t, body);
            ModelError::Analysis(t)
        },
        Dialect::Ollama => {
            let mut t = "Ollama 调用失败: ".to_owned();
            push_str(&mut t, status);
            ModelError::Analysis(t)
        },
        Dialect::Claude => {
            let mut t = label.to_owned();
            push_str(&mut t, " 调用失败: ");
            push_str(&mut t, body);
            ModelError::Analysis(t)
        },
        Dialect::Gemini => {
            let cs = chars_of(body);
            let n: usize = if cs.len() <= 300 {
                cs.len()
            } else {
                300
            };
            let mut hv: Vec<char> = Vec::new();
            push_range(&mut hv, cs.as_slice(), 0, n);
            let head = string_of(hv.as_slice());
            let mut t = "Gemini 调用失败: ".to_owned();
            push_str(&mut t, head.as_str());
            assert(cs@.take(n as int) =~= (if body@.len() <= 300 {
                body@
            } else {
                body@.take(300)
            }));
            ModelError::Analysis(t)
        },
    }
}

/// A reply never carries an empty list of tool calls: the list is absent or has a call.
pub proof fn lemma_reply_calls_never_empty(d: Dialect, result: JsonV)
    ensures
        chat_response_spec(d, result).tool_calls matches Some(c) ==> c.len() > 0,
{
}

/// A Gemini reply stops for tool calls exactly when it carries some.
pub proof fn lemma_gemini_stops_for_calls(result: JsonV)
    ensures
        (gemini_response(result).stop_reason == StopReason::ToolCall) <==> gemini_response(result).tool_calls is Some,
        gemini_response(result).stop_reason != StopReason::MaxTokens,
{
}

/// Gemini gives no call ids, so the calls of a reply are numbered in order: call `i` has
/// the id `gemini_i`.
pub proof fn lemma_gemini_call_ids(parts: Seq<JsonV>)
    ensures
        forall|i: int| 0 <= i < gemini_calls(parts).len() ==> #[trigger] gemini_calls(parts)[i].id == "gemini_"@
            + decimal(i as nat),
    decreases parts.len(),
{
    if parts.len() > 0 {
        lemma_gemini_call_ids(parts.drop_last());
    }
}

/// The Messages API never receives a system message among its messages: the prompt goes apart.
pub proof fn lemma_claude_messages_have_no_system(ms: Seq<JsonV>)
    ensures
        forall|i: int| 0 <= i < claude_messages_spec(ms).len() ==> role_of(#[trigger] claude_messages_spec(ms)[i])
            != Some("system"@),
    decreases ms.len(),
{
    reveal_strlit("system");
    reveal_strlit("assistant");
    reveal_strlit("user");
    reveal_strlit("role");
    if ms.len() > 0 {
        lemma_claude_messages_have_no_system(ms.drop_last());
        let m = ms.last();
        match claude_message(m) {
            Some(x) => {
                let rest = claude_messages_spec(ms.drop_last());
                assert(claude_messages_spec(ms) == rest.push(x));
                assert(role_of(x) != Some("system"@)) by {
                    if role_of(m) == Some("assistant"@) && field(m, "tool_calls"@) is Array {
                        assert(role_of(x) == Some("assistant"@));
                        assert("assistant"@.len() != "system"@.len());
                    } else if role_of(m) == Some("tool"@) {
                        assert(role_of(x) == Some("user"@));
                        assert("user"@.len() != "system"@.len());
                    }
                }
            },
            None => {},
        }
    }
}

/// Looking up the members of a recorded tool call entry.
proof fn lemma_call_entry_fields(c: ToolCallV)
    ensures
        field(call_entry(c), "id"@) == JsonV::Str(c.id),
        field(field(call_entry(c), "function"@), "name"@) == JsonV::Str(c.name),
        field(field(call_entry(c), "function"@), "arguments"@) == JsonV::Str(json_text(c.arguments)),
{
    reveal_strlit("id");
    reveal_strlit("type");
    reveal_strlit("function");
    reveal_strlit("name");
    reveal_strlit("arguments");
    let ms = call_entry(c)->Object_0;
    assert("id"@.len() != "function"@.len() && "type"@.len() != "function"@.len());
    assert(member_from(ms, "function"@, 2) == Some(ms[2].1));
    assert(member_from(ms, "function"@, 1) == member_from(ms, "function"@, 2));
    let fs = field(call_entry(c), "function"@)->Object_0;
    assert("name"@.len() != "arguments"@.len());
    assert(member_from(fs, "arguments"@, 1) == Some(fs[1].1));
}

/// A tool call recorded in an assistant message reaches the Messages API as a `tool_use` block with
/// the same id and name, and with the arguments read back from their recorded JSON text.
pub proof fn lemma_recorded_call_reaches_claude(c: ToolCallV)
    ensures
        claude_tool_use(call_entry(c)) == JsonV::Object(
            seq![
                ("type"@, JsonV::Str("tool_use"@)),
                ("id"@, JsonV::Str(c.id)),
                ("name"@, JsonV::Str(c.name)),
                ("input"@, parsed_or_empty(json_text(c.arguments))),
            ],
        ),
{
    lemma_call_entry_fields(c);
}

/// A tool call recorded in an assistant message reaches Gemini as a `functionCall` part
/// with the same name, and with the arguments read back from their recorded JSON text.
pub proof fn lemma_recorded_call_reaches_gemini(c: ToolCallV)
    ensures
        gemini_call_part(call_entry(c)) == obj1(
            "functionCall"@,
            JsonV::Object(seq![("name"@, JsonV::Str(c.name)), ("args"@, parsed_or_empty(json_text(c.arguments)))]),
        ),
{
    lemma_call_entry_fields(c);
}

/// The view of a tool-result message.
pub open spec fn tool_result_view(id: Seq<char>, content: Seq<char>, name: Option<Seq<char>>) -> MessageV {
    MessageV { role: "tool"@, content: Some(content), tool_calls: None, tool_call_id: Some(id), name: name }
}

/// Looking up the members of a tool-result message.
proof fn lemma_tool_result_fields(id: Seq<char>, content: Seq<char>, name: Option<Seq<char>>)
    ensures
        role_of(message_json(tool_result_view(id, content, name))) == Some("tool"@),
        field(message_json(tool_result_view(id, content, name)), "tool_calls"@) == JsonV::Null,
        field(message_json(tool_result_view(id, content, name)), "tool_call_id"@) == JsonV::Str(id),
        field(message_json(tool_result_view(id, content, name)), "content"@) == JsonV::Str(content),
        field(message_json(tool_result_view(id, content, name)), "name"@) == match name {
            Some(n) => JsonV::Str(n),
            None => JsonV::Null,
        },
{
    reveal_strlit("role");
    reveal_strlit("content");
    reveal_strlit("tool_calls");
    reveal_strlit("tool_call_id");
    reveal_strlit("name");
    let ms = message_json(tool_result_view(id, content, name))->Object_0;
    let base = seq![
        ("role"@, JsonV::Str("tool"@)),
        ("content"@, JsonV::Str(content)),
        ("tool_call_id"@, JsonV::Str(id)),
    ];
    assert(ms =~= base + opt_member("name"@, opt_text(name)));
    assert("role"@[0] != "content"@[0] && "role"@[0] != "tool_calls"@[0] && "role"@[0] != "tool_call_id"@[0]
        && "role"@[0] != "name"@[0]);
    assert("content"@[0] != "tool_calls"@[0] && "content"@[0] != "tool_call_id"@[0] && "content"@[0] != "name"@[0]);
    assert("tool_call_id"@.len() != "tool_calls"@.len() && "tool_call_id"@[0] != "name"@[0]);
    assert("tool_calls"@[0] != "name"@[0]);
    assert(member_from(ms, "tool_calls"@, 3) == member_from(ms, "tool_calls"@, 4));
    assert(member_from(ms, "tool_calls"@, 2) == member_from(ms, "tool_calls"@, 3));
    assert(member_from(ms, "tool_calls"@, 1) == member_from(ms, "tool_calls"@, 2));
    assert(member_from(ms, "name"@, 2) == member_from(ms, "name"@, 3));
    assert(member_from(ms, "name"@, 1) == member_from(ms, "name"@, 2));
    assert(member_from(ms, "tool_call_id"@, 1) == member_from(ms, "tool_call_id"@, 2));
    assert(member_from(ms, "content"@, 0) == member_from(ms, "content"@, 1));
}

/// A tool result reaches the Messages API as a user message with one `tool_result` block that names
/// the call and carries the result text.
pub proof fn lemma_tool_result_reaches_claude(id: Seq<char>, content: Seq<char>, name: Option<Seq<char>>)
    ensures
        claude_message(message_json(tool_result_view(id, content, name))) == Some(
            JsonV::Object(
                seq![
                    ("role"@, JsonV::Str("user"@)),
                    (
                        "content"@,
                        JsonV::Array(
                            seq![
                                JsonV::Object(
                                    seq![
                                        ("type"@, JsonV::Str("tool_result"@)),
                                        ("tool_use_id"@, JsonV::Str(id)),
                                        ("content"@, JsonV::Str(content)),
                                    ],
                                ),
                            ],
                        ),
                    ),
                ],
            ),
        ),
{
    lemma_tool_result_fields(id, content, name);
    reveal_strlit("tool");
    reveal_strlit("system");
    reveal_strlit("assistant");
    assert("tool"@.len() != "system"@.len() && "tool"@.len() != "assistant"@.len());
}

/// The name a tool result goes to Gemini under: the tool's name, `unknown` without one.
pub open spec fn name_or_unknown(name: Option<Seq<char>>) -> Seq<char> {
    match name {
        Some(n) => n,
        None => "unknown"@,
    }
}

/// The Gemini `function` turn that carries a tool result.
pub open spec fn gemini_result_turn(content: Seq<char>, name: Option<Seq<char>>) -> JsonV {
    gemini_turn(
        "function"@,
        seq![
            obj1(
                "functionResponse"@,
                JsonV::Object(
                    seq![
                        ("name"@, JsonV::Str(name_or_unknown(name))),
                        ("response"@, obj1("result"@, JsonV::Str(content))),
                    ],
                ),
            ),
        ],
    )
}

/// A tool result reaches Gemini as a `function` turn whose `functionResponse` is named by
/// the message's tool name (`unknown` without one) and carries the result text.
pub proof fn lemma_tool_result_reaches_gemini(id: Seq<char>, content: Seq<char>, name: Option<Seq<char>>)
    ensures
        gemini_content(message_json(tool_result_view(id, content, name))) == Some(gemini_result_turn(content, name)),
{
    lemma_tool_result_fields(id, content, name);
    reveal_strlit("tool");
    reveal_strlit("user");
    reveal_strlit("assistant");
    assert("tool"@[0] != "user"@[0]);
    assert("tool"@.len() != "assistant"@.len());
}

} // verus!
