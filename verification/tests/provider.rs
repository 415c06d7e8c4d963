use work_review::json::{json_as_array, json_as_str, json_elem, json_field, Json};
use work_review::model::{Message, ModelError, ToolCall};
use work_review::provider::{
    build_chat_request, call_failure, claude_messages, claude_system, endpoint_url, full_messages,
    gemini_contents, gemini_url, parse_chat_response, Dialect,
};
use work_review::tools::ToolRegistry;

#[allow(dead_code)]
fn json_of(v: &serde_json::Value) -> Json {
    match v {
        serde_json::Value::Null => Json::Null,
        serde_json::Value::Bool(b) => Json::Bool(*b),
        serde_json::Value::Number(n) => Json::Number(n.to_string()),
        serde_json::Value::String(s) => Json::Str(s.clone()),
        serde_json::Value::Array(a) => Json::Array(a.iter().map(json_of).collect()),
        serde_json::Value::Object(m) => Json::Object(m.iter().map(|(k, x)| (k.clone(), json_of(x))).collect()),
    }
}

#[allow(dead_code)]
fn value_of_json(j: &Json) -> serde_json::Value {
    match j {
        Json::Null => serde_json::Value::Null,
        Json::Bool(b) => serde_json::Value::Bool(*b),
        Json::Number(n) => serde_json::Value::Number(n.parse().unwrap()),
        Json::Str(s) => serde_json::Value::String(s.clone()),
        Json::Array(a) => serde_json::Value::Array(a.iter().map(value_of_json).collect()),
        Json::Object(m) => {
            serde_json::Value::Object(m.iter().map(|(k, x)| (k.clone(), value_of_json(x))).collect())
        }
    }
}

#[allow(dead_code)]
fn parse_json_text(text: &str) -> Option<Json> {
    serde_json::from_str::<serde_json::Value>(text).ok().map(|v| json_of(&v))
}

#[allow(dead_code)]
fn to_json_text(j: &Json) -> String {
    value_of_json(j).to_string()
}


fn s<'a>(j: Option<&'a Json>) -> Option<&'a str> {
    json_as_str(j)
}

fn conversation() -> Vec<Message> {
    let call = ToolCall {
        id: "call_1".to_string(),
        name: "search_memory".to_string(),
        arguments: parse_json_text(r#"{"query":"debug"}"#).unwrap(),
    };
    vec![
        Message::user("查一下"),
        Message::assistant_with_tool_calls(&[call]),
        Message::tool_result_named("call_1", "结果", Some("search_memory")),
        Message::assistant("好的"),
    ]
}

#[test]
fn endpoint_urls_append_the_path_once() {
    assert_eq!(endpoint_url(" https://api.x.com/v1/ ", "/chat/completions"), "https://api.x.com/v1/chat/completions");
    assert_eq!(
        endpoint_url("https://api.x.com/v1/chat/completions//", "/chat/completions"),
        "https://api.x.com/v1/chat/completions"
    );
    assert_eq!(endpoint_url("http://localhost:11434", "/api/chat"), "http://localhost:11434/api/chat");
    assert_eq!(endpoint_url("https://api.anthropic.com/v1/messages", "/messages"), "https://api.anthropic.com/v1/messages");
    assert_eq!(
        gemini_url("https://g.example/v1beta/", "gemini-pro"),
        "https://g.example/v1beta/models/gemini-pro:generateContent"
    );
}

#[test]
fn full_messages_start_with_the_system_prompt() {
    let ms = full_messages("sys", &conversation());
    assert_eq!(ms.len(), 5);
    assert_eq!(s(json_field(Some(&ms[0]), "role")), Some("system"));
    assert_eq!(s(json_field(Some(&ms[0]), "content")), Some("sys"));
    assert_eq!(s(json_field(Some(&ms[1]), "role")), Some("user"));
    assert!(json_field(Some(&ms[1]), "tool_calls").is_none());
    assert!(json_field(Some(&ms[2]), "content").is_none());
    assert_eq!(s(json_field(Some(&ms[3]), "name")), Some("search_memory"));
}

#[test]
fn claude_gets_tool_use_and_tool_result_blocks() {
    let ms = full_messages("sys", &conversation());
    assert_eq!(claude_system(&ms), "sys");
    let cm = claude_messages(&ms);
    assert_eq!(cm.len(), 4);
    let assistant = Some(&cm[1]);
    assert_eq!(s(json_field(assistant, "role")), Some("assistant"));
    let block = json_elem(json_field(assistant, "content"), 0);
    assert_eq!(s(json_field(block, "type")), Some("tool_use"));
    assert_eq!(s(json_field(block, "id")), Some("call_1"));
    assert_eq!(s(json_field(block, "name")), Some("search_memory"));
    assert_eq!(s(json_field(json_field(block, "input"), "query")), Some("debug"));
    let result = Some(&cm[2]);
    assert_eq!(s(json_field(result, "role")), Some("user"));
    let rb = json_elem(json_field(result, "content"), 0);
    assert_eq!(s(json_field(rb, "type")), Some("tool_result"));
    assert_eq!(s(json_field(rb, "tool_use_id")), Some("call_1"));
    assert_eq!(s(json_field(rb, "content")), Some("结果"));
    assert_eq!(s(json_field(Some(&cm[3]), "content")), Some("好的"));
}

#[test]
fn claude_system_is_empty_without_a_system_message() {
    assert_eq!(claude_system(&[]), "");
}

#[test]
fn gemini_gets_model_function_turns() {
    let ms = full_messages("sys", &conversation());
    let contents = gemini_contents(&ms);
    assert_eq!(contents.len(), 4);
    assert_eq!(s(json_field(Some(&contents[0]), "role")), Some("user"));
    assert_eq!(s(json_field(json_elem(json_field(Some(&contents[0]), "parts"), 0), "text")), Some("查一下"));
    assert_eq!(s(json_field(Some(&contents[1]), "role")), Some("model"));
    let fc = json_field(json_elem(json_field(Some(&contents[1]), "parts"), 0), "functionCall");
    assert_eq!(s(json_field(fc, "name")), Some("search_memory"));
    assert_eq!(s(json_field(json_field(fc, "args"), "query")), Some("debug"));
    assert_eq!(s(json_field(Some(&contents[2]), "role")), Some("function"));
    let fr = json_field(json_elem(json_field(Some(&contents[2]), "parts"), 0), "functionResponse");
    assert_eq!(s(json_field(fr, "name")), Some("search_memory"));
    assert_eq!(s(json_field(json_field(fr, "response"), "result")), Some("结果"));
    assert_eq!(s(json_field(Some(&contents[3]), "role")), Some("model"));
}

#[test]
fn gemini_tool_result_without_name_is_unknown() {
    let ms = full_messages("sys", &[Message::tool_result_named("c", "r", None)]);
    let contents = gemini_contents(&ms);
    let fr = json_field(json_elem(json_field(Some(&contents[0]), "parts"), 0), "functionResponse");
    assert_eq!(s(json_field(fr, "name")), Some("unknown"));
}

#[test]
fn requests_carry_url_headers_and_body() {
    let tools = ToolRegistry::new().to_openai_tools();
    let openai = build_chat_request(Dialect::OpenAi, "OpenAI", "https://a/v1", "gpt", Some("k"), "sys", &conversation(), &tools)
        .unwrap();
    assert_eq!(openai.url, "https://a/v1/chat/completions");
    assert_eq!(openai.headers, vec![("Authorization".to_string(), "Bearer k".to_string())]);
    assert_eq!(s(json_field(Some(&openai.body), "model")), Some("gpt"));
    assert_eq!(json_as_array(json_field(Some(&openai.body), "tools")).unwrap().len(), 5);
    assert_eq!(json_as_array(json_field(Some(&openai.body), "messages")).unwrap().len(), 5);

    let no_key = build_chat_request(Dialect::OpenAi, "OpenAI", "https://a/v1", "gpt", Some(""), "sys", &[], &[]).unwrap();
    assert!(no_key.headers.is_empty());
    assert!(json_field(Some(&no_key.body), "tools").is_none());

    let ollama = build_chat_request(Dialect::Ollama, "Ollama", "http://h:11434/", "llama", None, "sys", &[], &tools).unwrap();
    assert_eq!(ollama.url, "http://h:11434/api/chat");
    assert!(matches!(json_field(Some(&ollama.body), "stream"), Some(Json::Bool(false))));

    let messages_api = build_chat_request(Dialect::Claude, "Msg", "https://c/v1", "m1", Some("ck"), "sys", &conversation(), &tools)
        .unwrap();
    assert_eq!(messages_api.url, "https://c/v1/messages");
    assert_eq!(messages_api.headers.len(), 3);
    assert_eq!(s(json_field(Some(&messages_api.body), "system")), Some("sys"));
    let t0 = json_elem(json_field(Some(&messages_api.body), "tools"), 0);
    assert!(json_field(t0, "input_schema").is_some());

    let gemini = build_chat_request(Dialect::Gemini, "Gemini", "https://g/v1beta", "gm", Some("gk"), "sys", &conversation(), &tools)
        .unwrap();
    assert_eq!(gemini.url, "https://g/v1beta/models/gm:generateContent");
    assert_eq!(gemini.headers, vec![("x-goog-api-key".to_string(), "gk".to_string())]);
    let sys_text = json_field(json_elem(json_field(json_field(Some(&gemini.body), "systemInstruction"), "parts"), 0), "text");
    assert_eq!(s(sys_text), Some("sys"));
    let decls = json_field(json_elem(json_field(Some(&gemini.body), "tools"), 0), "function_declarations");
    assert_eq!(json_as_array(decls).unwrap().len(), 5);
}

#[test]
fn claude_and_gemini_need_a_key() {
    match build_chat_request(Dialect::Claude, "Msg", "https://c", "m", None, "sys", &[], &[]) {
        Err(ModelError::Analysis(e)) => assert_eq!(e, "Msg 需要 API Key，请在设置中配置"),
        Ok(_) => panic!("a key is needed"),
    }
    match build_chat_request(Dialect::Gemini, "Gemini", "https://g", "m", None, "sys", &[], &[]) {
        Err(ModelError::Analysis(e)) => assert_eq!(e, "Gemini 需要 API Key，请在设置中配置"),
        Ok(_) => panic!("a key is needed"),
    }
}

#[test]
fn failure_texts() {
    let ModelError::Analysis(a) = call_failure(Dialect::OpenAi, "OpenAI", "500", "bad");
    assert_eq!(a, "LLM 调用失败: bad");
    let ModelError::Analysis(b) = call_failure(Dialect::Ollama, "Ollama", "404 Not Found", "x");
    assert_eq!(b, "Ollama 调用失败: 404 Not Found");
    let ModelError::Analysis(c) = call_failure(Dialect::Claude, "Msg", "500", "oops");
    assert_eq!(c, "Msg 调用失败: oops");
    let long: String = std::iter::repeat('字').take(400).collect();
    let ModelError::Analysis(d) = call_failure(Dialect::Gemini, "Gemini", "500", &long);
    assert_eq!(d.chars().count(), "Gemini 调用失败: ".chars().count() + 300);
}

#[test]
fn replies_are_read_by_dialect() {
    let body = parse_json_text(r#"{"choices":[{"message":{"content":"hi"}}]}"#).unwrap();
    assert_eq!(parse_chat_response(Dialect::Ollama, &body).unwrap().content.as_deref(), Some("hi"));
    assert!(parse_chat_response(Dialect::Claude, &body).unwrap().content.is_none());
}
