use work_review::json::{json_as_str, json_elem, json_field, Json};
use work_review::model::{
    parse_claude_response, parse_gemini_response, parse_openai_response, Message, StopReason,
};

#[allow(dead_code)]
fn json_of(v: &serde_json::Value) -> Json {
    match v {
        serde_json::Value::Null => Json::Null,
        serde_json::Value::Bool(b) => Json::Bool(*b),
        serde_json::Value::Number(n) => Json::Number(n.to_string()),
        serde_json::Value::String(s) => Json::Str(s.clone()),
        serde_json::Value::Array(a) => Json::Array(a.iter().map(json_of).collect()),
        serde_json::Value::Object(m) => Json::Object(m.iter().map(|(k, x)| (k.clone(), json_of(x))).collect()),
    }
}

#[allow(dead_code)]
fn value_of_json(j: &Json) -> serde_json::Value {
    match j {
        Json::Null => serde_json::Value::Null,
        Json::Bool(b) => serde_json::Value::Bool(*b),
        Json::Number(n) => serde_json::Value::Number(n.parse().unwrap()),
        Json::Str(s) => serde_json::Value::String(s.clone()),
        Json::Array(a) => serde_json::Value::Array(a.iter().map(value_of_json).collect()),
        Json::Object(m) => {
            serde_json::Value::Object(m.iter().map(|(k, x)| (k.clone(), value_of_json(x))).collect())
        }
    }
}

#[allow(dead_code)]
fn parse_json_text(text: &str) -> Option<Json> {
    serde_json::from_str::<serde_json::Value>(text).ok().map(|v| json_of(&v))
}

#[allow(dead_code)]
fn to_json_text(j: &Json) -> String {
    value_of_json(j).to_string()
}


fn doc(text: &str) -> Json {
    parse_json_text(text).expect("test JSON parses")
}

fn arg<'a>(j: &'a Json, key: &str) -> Option<&'a str> {
    json_as_str(json_field(Some(j), key))
}

#[test]
fn test_message_user() {
    let msg = Message::user("你好");
    assert_eq!(msg.role, "user");
    assert_eq!(msg.content.as_deref(), Some("你好"));
    assert!(msg.tool_calls.is_none());
    assert!(msg.tool_call_id.is_none());
}

#[test]
fn test_message_tool_result() {
    let msg = Message::tool_result_named("call_123", "结果数据", None);
    assert_eq!(msg.role, "tool");
    assert_eq!(msg.tool_call_id.as_deref(), Some("call_123"));
}

#[test]
fn test_parse_openai_response_with_tool_call() {
    let response = doc(
        r#"{
            "choices": [{
                "message": {
                    "role": "assistant",
                    "content": null,
                    "tool_calls": [{
                        "id": "call_abc123",
                        "type": "function",
                        "function": {
                            "name": "analyze_intents",
                            "arguments": "{\"date_from\":\"2026-06-01\",\"date_to\":\"2026-06-09\"}"
                        }
                    }]
                },
                "finish_reason": "tool_calls"
            }]
        }"#,
    );

    let parsed = parse_openai_response(&response).unwrap();

    assert_eq!(parsed.stop_reason, StopReason::ToolCall);
    assert!(parsed.content.is_none());

    let calls = parsed.tool_calls.unwrap();
    let tc = &calls[0];
    assert_eq!(tc.id, "call_abc123");
    assert_eq!(tc.name, "analyze_intents");
    assert_eq!(arg(&tc.arguments, "date_from"), Some("2026-06-01"));
}

#[test]
fn test_parse_openai_response_text_only() {
    let response = doc(
        r#"{
            "choices": [{
                "message": {
                    "role": "assistant",
                    "content": "你好！我是你的工作助手。"
                },
                "finish_reason": "stop"
            }]
        }"#,
    );

    let parsed = parse_openai_response(&response).unwrap();
    assert_eq!(parsed.stop_reason, StopReason::Stop);
    assert_eq!(parsed.content.as_deref(), Some("你好！我是你的工作助手。"));
    assert!(parsed.tool_calls.is_none());
}

#[test]
fn test_parse_claude_response_with_tool_use() {
    let response = doc(
        r#"{
            "content": [
                {"type": "text", "text": "让我查一下..."},
                {"type": "tool_use", "id": "toolu_xyz", "name": "search_memory", "input": {"query": "debug"}}
            ],
            "stop_reason": "tool_use"
        }"#,
    );

    let parsed = parse_claude_response(&response).unwrap();

    assert_eq!(parsed.stop_reason, StopReason::ToolCall);
    assert_eq!(parsed.content.as_deref(), Some("让我查一下..."));

    let calls = parsed.tool_calls.unwrap();
    let tc = &calls[0];
    assert_eq!(tc.id, "toolu_xyz");
    assert_eq!(tc.name, "search_memory");
    assert_eq!(arg(&tc.arguments, "query"), Some("debug"));
}

#[test]
fn test_parse_gemini_response_with_function_call() {
    let response = doc(
        r#"{
            "candidates": [{
                "content": {
                    "parts": [{
                        "functionCall": {
                            "name": "analyze_intents",
                            "args": {"date_from": "2026-05-01", "date_to": "2026-05-31"}
                        }
                    }]
                }
            }]
        }"#,
    );

    let parsed = parse_gemini_response(&response).unwrap();

    assert_eq!(parsed.stop_reason, StopReason::ToolCall);
    let calls = parsed.tool_calls.unwrap();
    let tc = &calls[0];
    assert_eq!(tc.name, "analyze_intents");
    assert_eq!(arg(&tc.arguments, "date_from"), Some("2026-05-01"));
}

#[test]
fn test_openai_arguments_are_string_but_parsed_to_object() {
    let response = doc(
        r#"{
            "choices": [{
                "message": {
                    "tool_calls": [{
                        "id": "call_test",
                        "type": "function",
                        "function": {
                            "name": "search_memory",
                            "arguments": "{\"query\":\"编码\",\"date_from\":\"2026-06-01\"}"
                        }
                    }]
                },
                "finish_reason": "tool_calls"
            }]
        }"#,
    );

    let parsed = parse_openai_response(&response).unwrap();
    let calls = parsed.tool_calls.unwrap();
    let tc = &calls[0];
    assert!(matches!(tc.arguments, Json::Object(_)));
    assert_eq!(arg(&tc.arguments, "query"), Some("编码"));
}

#[test]
fn openai_calls_without_id_or_name_are_skipped() {
    let response = doc(
        r#"{"choices": [{"message": {"tool_calls": [
            {"type": "function", "function": {"name": "search_memory"}},
            {"id": "x", "function": {"arguments": "{}"}}
        ]}}]}"#,
    );
    let parsed = parse_openai_response(&response).unwrap();
    assert!(parsed.tool_calls.is_none());
    assert_eq!(parsed.stop_reason, StopReason::Stop);
}

#[test]
fn openai_missing_or_bad_arguments_become_empty_object() {
    let response = doc(
        r#"{"choices": [{"message": {"tool_calls": [
            {"id": "a", "function": {"name": "search_memory"}},
            {"id": "b", "function": {"name": "search_memory", "arguments": "not json"}}
        ]}, "finish_reason": "length"}]}"#,
    );
    let parsed = parse_openai_response(&response).unwrap();
    assert_eq!(parsed.stop_reason, StopReason::MaxTokens);
    let calls = parsed.tool_calls.unwrap();
    assert_eq!(calls.len(), 2);
    assert_eq!(to_json_text(&calls[0].arguments), "{}");
    assert_eq!(to_json_text(&calls[1].arguments), "{}");
}

#[test]
fn openai_unknown_finish_reason_follows_the_calls() {
    let with_calls = doc(
        r#"{"choices": [{"message": {"tool_calls": [{"id": "a", "function": {"name": "n"}}]}, "finish_reason": "other"}]}"#,
    );
    assert_eq!(parse_openai_response(&with_calls).unwrap().stop_reason, StopReason::ToolCall);
    let empty = doc(r#"{}"#);
    let parsed = parse_openai_response(&empty).unwrap();
    assert_eq!(parsed.stop_reason, StopReason::Stop);
    assert!(parsed.content.is_none());
}

#[test]
fn claude_joins_text_blocks_and_fills_missing_ids() {
    let response = doc(
        r#"{"content": [
            {"type": "text", "text": "a"},
            {"type": "image"},
            {"type": "text", "text": "b"},
            {"type": "tool_use"}
        ], "stop_reason": "max_tokens"}"#,
    );
    let parsed = parse_claude_response(&response).unwrap();
    assert_eq!(parsed.content.as_deref(), Some("ab"));
    assert_eq!(parsed.stop_reason, StopReason::MaxTokens);
    let calls = parsed.tool_calls.unwrap();
    assert_eq!(calls[0].id, "");
    assert_eq!(calls[0].name, "");
    assert!(matches!(calls[0].arguments, Json::Null));
}

#[test]
fn claude_empty_reply_is_a_plain_stop() {
    let parsed = parse_claude_response(&doc(r#"{"content": []}"#)).unwrap();
    assert!(parsed.content.is_none());
    assert!(parsed.tool_calls.is_none());
    assert_eq!(parsed.stop_reason, StopReason::Stop);
}

#[test]
fn gemini_numbers_calls_and_joins_text() {
    let response = doc(
        r#"{"candidates": [{"content": {"parts": [
            {"text": "x"},
            {"functionCall": {"name": "a", "args": {}}},
            {"text": "y", "functionCall": {"name": "b"}}
        ]}}]}"#,
    );
    let parsed = parse_gemini_response(&response).unwrap();
    assert_eq!(parsed.content.as_deref(), Some("xy"));
    let calls = parsed.tool_calls.unwrap();
    assert_eq!(calls.len(), 2);
    assert_eq!(calls[0].id, "gemini_0");
    assert_eq!(calls[1].id, "gemini_1");
    assert_eq!(calls[1].name, "b");
    let first = json_elem(Some(&response), 0);
    assert!(first.is_none());
}
