use work_review::events::{default_tool_label, StreamEvent};
use work_review::executor::{
    after_round, decide_step, exhausted_answer, max_rounds, record_tool_label, reply_has_calls,
    system_prompt_or_default, timeout_answer, tool_failure_text, AgentConversation, AgentStep, RoundOutcome,
    DEFAULT_MAX_ITERATIONS,
};
use work_review::json::{json_as_str, json_field, Json};
use work_review::model::{LlmResponse, Message, StopReason, ToolCall};
use work_review::tools::MemorySearchItem;

#[allow(dead_code)]
fn json_of(v: &serde_json::Value) -> Json {
    match v {
        serde_json::Value::Null => Json::Null,
        serde_json::Value::Bool(b) => Json::Bool(*b),
        serde_json::Value::Number(n) => Json::Number(n.to_string()),
        serde_json::Value::String(s) => Json::Str(s.clone()),
        serde_json::Value::Array(a) => Json::Array(a.iter().map(json_of).collect()),
        serde_json::Value::Object(m) => Json::Object(m.iter().map(|(k, x)| (k.clone(), json_of(x))).collect()),
    }
}

#[allow(dead_code)]
fn value_of_json(j: &Json) -> serde_json::Value {
    match j {
        Json::Null => serde_json::Value::Null,
        Json::Bool(b) => serde_json::Value::Bool(*b),
        Json::Number(n) => serde_json::Value::Number(n.parse().unwrap()),
        Json::Str(s) => serde_json::Value::String(s.clone()),
        Json::Array(a) => serde_json::Value::Array(a.iter().map(value_of_json).collect()),
        Json::Object(m) => {
            serde_json::Value::Object(m.iter().map(|(k, x)| (k.clone(), value_of_json(x))).collect())
        }
    }
}

#[allow(dead_code)]
fn parse_json_text(text: &str) -> Option<Json> {
    serde_json::from_str::<serde_json::Value>(text).ok().map(|v| json_of(&v))
}

#[allow(dead_code)]
fn to_json_text(j: &Json) -> String {
    value_of_json(j).to_string()
}


#[test]
fn test_max_iterations_default() {
    assert_eq!(DEFAULT_MAX_ITERATIONS, 8);
}

#[test]
fn tool_labels_default_to_processing() {
    assert_eq!(default_tool_label("search_memory"), "记忆检索");
    assert_eq!(default_tool_label("trend_comparison"), "趋势对比");
    assert_eq!(default_tool_label("other"), "处理中");
}

#[test]
fn agent_steps() {
    match decide_step(StopReason::Stop, None, false) {
        AgentStep::Finish(a) => assert_eq!(a, ""),
        AgentStep::RunTools => panic!("a final answer ends the loop"),
    }
    match decide_step(StopReason::ToolCall, None, false) {
        AgentStep::Finish(a) => assert_eq!(a, "模型未返回可执行的工具调用，请稍后重试。"),
        AgentStep::RunTools => panic!("no tool call to run"),
    }
    assert!(matches!(decide_step(StopReason::ToolCall, Some("x".to_string()), true), AgentStep::RunTools));
    match decide_step(StopReason::MaxTokens, Some("partial".to_string()), true) {
        AgentStep::Finish(a) => assert_eq!(a, "partial"),
        AgentStep::RunTools => panic!("truncation ends the loop"),
    }
    match decide_step(StopReason::MaxTokens, None, false) {
        AgentStep::Finish(a) => assert_eq!(a, "回答被截断，请尝试缩短问题。"),
        AgentStep::RunTools => panic!("truncation ends the loop"),
    }
}

#[test]
fn agent_rounds_and_labels() {
    assert_eq!(after_round(1, 8, 5), RoundOutcome::Continue);
    assert_eq!(after_round(8, 8, 5), RoundOutcome::Exhausted);
    assert_eq!(after_round(2, 8, 31), RoundOutcome::TimedOut);
    assert_eq!(max_rounds(None), 8);
    assert_eq!(max_rounds(Some(3)), 3);
    assert_eq!(timeout_answer(), "处理超时，请尝试更具体的问题。");
    assert_eq!(exhausted_answer(), "抱歉，处理这个问题需要过多步骤。请尝试更具体地描述。");
    let mut labels = vec![];
    record_tool_label(&mut labels, "search_memory");
    record_tool_label(&mut labels, "aggregate_stats");
    record_tool_label(&mut labels, "search_memory");
    assert_eq!(labels, vec!["search_memory".to_string(), "aggregate_stats".to_string()]);
}

#[test]
fn test_message_construction() {
    let user_msg = Message::user("今天做了什么");
    assert_eq!(user_msg.role, "user");
    assert_eq!(user_msg.content.as_deref(), Some("今天做了什么"));

    let tool_msg = Message::tool_result_named("call_123", "结果", None);
    assert_eq!(tool_msg.role, "tool");
    assert_eq!(tool_msg.tool_call_id.as_deref(), Some("call_123"));

    let tc = ToolCall {
        id: "call_456".to_string(),
        name: "search_memory".to_string(),
        arguments: parse_json_text(r#"{"query": "debug"}"#).unwrap(),
    };
    let assistant_msg = Message::assistant_with_tool_calls(&[tc]);
    assert_eq!(assistant_msg.role, "assistant");
    assert!(assistant_msg.tool_calls.is_some());
}

#[test]
fn recorded_tool_call_entry_holds_id_name_and_argument_text() {
    let tc = ToolCall {
        id: "call_456".to_string(),
        name: "search_memory".to_string(),
        arguments: parse_json_text(r#"{"query": "debug"}"#).unwrap(),
    };
    let msg = Message::assistant_with_tool_calls(&[tc]);
    let calls = msg.tool_calls.as_ref();
    let entry = work_review::json::json_elem(calls, 0);
    assert_eq!(json_as_str(json_field(entry, "id")), Some("call_456"));
    assert_eq!(json_as_str(json_field(entry, "type")), Some("function"));
    let f = json_field(entry, "function");
    assert_eq!(json_as_str(json_field(f, "name")), Some("search_memory"));
    assert_eq!(json_as_str(json_field(f, "arguments")), Some(r#"{"query":"debug"}"#));
}

#[test]
fn conversation_records_calls_and_results_in_order() {
    let history = vec![Message::user("hi"), Message::assistant("hello")];
    let mut conv = AgentConversation::start(&history, "今天做了什么");
    assert_eq!(conv.messages.len(), 3);
    assert_eq!(conv.messages[2].content.as_deref(), Some("今天做了什么"));
    let calls = vec![
        ToolCall { id: "a".to_string(), name: "search_memory".to_string(), arguments: parse_json_text("{}").unwrap() },
        ToolCall { id: "b".to_string(), name: "search_memory".to_string(), arguments: parse_json_text("{}").unwrap() },
        ToolCall { id: "c".to_string(), name: "aggregate_stats".to_string(), arguments: parse_json_text("{}").unwrap() },
    ];
    conv.record_calls(&calls);
    assert_eq!(conv.messages.len(), 4);
    assert_eq!(conv.messages[3].role, "assistant");
    assert_eq!(conv.tool_labels, vec!["search_memory".to_string(), "aggregate_stats".to_string()]);
    conv.record_result(&calls[0], "结果");
    assert_eq!(conv.messages[4].role, "tool");
    assert_eq!(conv.messages[4].tool_call_id.as_deref(), Some("a"));
    assert_eq!(conv.messages[4].name.as_deref(), Some("search_memory"));
}

#[test]
fn default_system_prompt_and_tool_failure_text() {
    assert_eq!(system_prompt_or_default(Some("自定义")), "自定义");
    assert!(system_prompt_or_default(None).starts_with("你是 Work Report 的工作助手。"));
    assert!(system_prompt_or_default(None).ends_with("不要编造不存在的事实。"));
    assert_eq!(tool_failure_text("boom"), "工具执行失败: boom");
}

fn record(id: i64, title: &str) -> MemorySearchItem {
    MemorySearchItem {
        source_id: id,
        timestamp: 100 + id,
        date: "2026-06-01".to_string(),
        title: title.to_string(),
        app_name: None,
        browser_url: None,
        duration: None,
    }
}

#[test]
fn a_reply_has_calls_only_when_it_names_a_tool() {
    let call = ToolCall { id: "a".to_string(), name: "search_memory".to_string(), arguments: parse_json_text("{}").unwrap() };
    let reply = |calls: Option<Vec<ToolCall>>| LlmResponse { content: None, tool_calls: calls, stop_reason: StopReason::ToolCall };
    assert!(reply_has_calls(&reply(Some(vec![call]))));
    assert!(!reply_has_calls(&reply(Some(vec![]))));
    assert!(!reply_has_calls(&reply(None)));
}

#[test]
fn tool_call_events_and_the_single_done_event() {
    let mut conv = AgentConversation::start(&[], "今天做了什么");
    let calls = vec![
        ToolCall { id: "a".to_string(), name: "search_memory".to_string(), arguments: parse_json_text("{}").unwrap() },
        ToolCall { id: "b".to_string(), name: "unknown_tool".to_string(), arguments: parse_json_text("{}").unwrap() },
    ];
    conv.record_calls(&calls);
    match conv.begin_call(&calls[0]) {
        StreamEvent::StepStart { tool, label } => {
            assert_eq!(tool, "search_memory");
            assert_eq!(label, "记忆检索");
        }
        other => panic!("unexpected event {other:?}"),
    }
    match conv.end_call(&calls[0], Ok("找到 1 条".to_string()), vec![record(1, "review")]) {
        StreamEvent::StepResult { tool, hits, references } => {
            assert_eq!(tool, "search_memory");
            assert_eq!(hits, 1);
            assert_eq!(references[0].title, "review");
        }
        other => panic!("unexpected event {other:?}"),
    }
    assert_eq!(conv.messages[2].content.as_deref(), Some("找到 1 条"));
    assert_eq!(conv.messages[2].tool_call_id.as_deref(), Some("a"));
    match conv.end_call(&calls[1], Err("未知工具".to_string()), vec![]) {
        StreamEvent::StepResult { hits, references, .. } => {
            assert_eq!(hits, 0);
            assert!(references.is_empty());
        }
        other => panic!("unexpected event {other:?}"),
    }
    assert_eq!(conv.messages[3].content.as_deref(), Some("工具执行失败: 未知工具"));
    let (result, done) = conv.finish("答案".to_string(), vec![record(1, "review"), record(2, "plan")]);
    assert_eq!(result.answer, "答案");
    assert_eq!(result.tool_labels, vec!["search_memory".to_string(), "unknown_tool".to_string()]);
    assert_eq!(result.references.len(), 2);
    match done {
        StreamEvent::Done { answer, references, tool_labels } => {
            assert_eq!(answer, "答案");
            assert_eq!(references.len(), 2);
            assert_eq!(references[1].title, "plan");
            assert_eq!(tool_labels, result.tool_labels);
        }
        other => panic!("unexpected event {other:?}"),
    }
}
