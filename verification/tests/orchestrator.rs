use work_review::orchestrator::{
    direct_answer, fallback_answer, handle_step, model_is_configured, orchestrator_result, path_tool_label,
    prefers_chinese_answer, route_query, HandleAction, HandleEvent, QueryPath,
};
use work_review::executor::AgentResult;
use work_review::tools::MemorySearchItem;

#[test]
fn test_route_greeting() {
    let d = route_query("你好", true);
    assert_eq!(d.path, QueryPath::Direct);
}

#[test]
fn test_route_simple_time_query() {
    let d = route_query("今天做了什么", true);
    assert_eq!(d.path, QueryPath::Agent);
}

#[test]
fn test_route_simple_time_query_month() {
    let d = route_query("这个月的时间分布", true);
    assert_eq!(d.path, QueryPath::Agent);
}

#[test]
fn test_route_non_work_weather_uses_agent() {
    let d = route_query("今天天气怎么样", true);
    assert_eq!(d.path, QueryPath::Agent);
}

#[test]
fn test_route_non_work_weather_no_model_fallback() {
    let d = route_query("今天天气怎么样", false);
    assert_eq!(d.path, QueryPath::Fallback);
}

#[test]
fn test_route_complex_comparison() {
    let d = route_query("对比上个月和这个月的工作效率", true);
    assert_eq!(d.path, QueryPath::Agent);
}

#[test]
fn test_route_complex_why() {
    let d = route_query("为什么最近编码时间下降了", true);
    assert_eq!(d.path, QueryPath::Agent);
}

#[test]
fn test_route_multi_time_periods() {
    let d = route_query("上个月和这个月有什么变化", true);
    assert_eq!(d.path, QueryPath::Agent);
}

#[test]
fn test_route_pure_multi_time_periods() {
    let d = route_query("上个月和这个月的工作记录", true);
    assert_eq!(d.path, QueryPath::Agent);
}

#[test]
fn test_route_no_model_time_word_fast() {
    let d = route_query("对比上个月和这个月", false);
    assert_eq!(d.path, QueryPath::Fast);
}

#[test]
fn test_route_no_model_work_query_fast() {
    let d = route_query("我这周主要做了什么", false);
    assert_eq!(d.path, QueryPath::Fast);
}

#[test]
fn test_route_no_model_non_work_fallback() {
    let d = route_query("随便聊聊", false);
    assert_eq!(d.path, QueryPath::Fallback);
}

#[test]
fn test_route_unknown_with_model() {
    let d = route_query("帮我看看效率情况", true);
    assert_eq!(d.path, QueryPath::Agent);
}

#[test]
fn test_route_unknown_without_model() {
    let d = route_query("帮我看看效率情况", false);
    assert_eq!(d.path, QueryPath::Fast);
}

#[test]
fn test_direct_answer_greeting() {
    let answer = direct_answer("你好");
    assert!(answer.contains("工作助手"));
}

#[test]
fn test_fallback_answer() {
    let answer = fallback_answer("随便聊聊");
    assert!(answer.contains("AI 模型"));
}

#[test]
fn test_fallback_answer_follows_english_question() {
    let answer = fallback_answer("Can you chat with me?");
    assert!(answer.contains("AI model"));
    assert!(!answer.contains("我目前无法使用"));
}

#[test]
fn greeting_routing_needs_a_short_question() {
    assert_eq!(route_query("  HELLO  ", false).path, QueryPath::Direct);
    assert_eq!(route_query("  HELLO  ", false).reason, "简短问候/求助");
    // 21 bytes of UTF-8 after trimming: too long for a greeting
    let long = "hello there my friend";
    assert_eq!(route_query(long, true).path, QueryPath::Agent);
    assert_eq!(route_query(long, false).path, QueryPath::Fallback);
    assert_eq!(route_query(long, true).reason, "交给模型判断意图");
}

#[test]
fn no_model_routing_reasons() {
    assert_eq!(route_query("今天天气怎么样", false).reason, "无模型且明显非工作领域，模板兜底");
    assert_eq!(route_query("Show my SESSION list", false).path, QueryPath::Fast);
    assert_eq!(route_query("我这周主要做了什么", false).reason, "无模型，工作查询走统计模板");
    assert_eq!(route_query("随便聊聊", false).reason, "无模型，模板兜底");
}

#[test]
fn direct_answer_follows_question_language() {
    assert!(direct_answer("hi there").starts_with("Hello! I'm your work assistant"));
    assert!(direct_answer("帮助").starts_with("我可以帮你："));
    assert!(direct_answer("HELP").starts_with("I can help you:"));
    assert_eq!(direct_answer("嗯"), "请告诉我你想了解的工作信息。");
    assert_eq!(direct_answer("ok"), "Tell me what work info you'd like to know.");
}

#[test]
fn chinese_detection_and_model_config() {
    assert!(prefers_chinese_answer("abc中"));
    assert!(!prefers_chinese_answer("こんにちは"));
    assert!(model_is_configured(" https://x ", "gpt"));
    assert!(!model_is_configured("https://x", "   "));
    assert_eq!(path_tool_label(QueryPath::Fast), "rule-based");
    assert_eq!(path_tool_label(QueryPath::Agent), "降级查询");
}

#[test]
fn orchestrator_result_marks_agent_answers_and_degraded_ones() {
    let degraded = orchestrator_result(QueryPath::Agent, "规则回答".to_string(), None);
    assert_eq!(degraded.answer, "规则回答");
    assert!(!degraded.used_ai);
    assert_eq!(degraded.tool_labels, vec!["降级查询".to_string()]);
    assert!(degraded.references.is_empty());
    let fast = orchestrator_result(QueryPath::Fast, "x".to_string(), None);
    assert_eq!(fast.tool_labels, vec!["rule-based".to_string()]);
    let cited = MemorySearchItem {
        source_id: 7,
        timestamp: 1,
        date: "2026-06-01".to_string(),
        title: "review".to_string(),
        app_name: None,
        browser_url: None,
        duration: None,
    };
    let agent = orchestrator_result(
        QueryPath::Agent,
        "模型回答".to_string(),
        Some((vec!["search_memory".to_string()], vec![cited])),
    );
    assert!(agent.used_ai);
    assert_eq!(agent.answer, "模型回答");
    assert_eq!(agent.tool_labels, vec!["search_memory".to_string()]);
    assert_eq!(agent.references[0].source_id, 7);
}

fn reply(a: HandleAction) -> work_review::orchestrator::OrchestratorResult {
    match a {
        HandleAction::Reply(r) => r,
        other => panic!("expected a reply, got {other:?}"),
    }
}

#[test]
fn handle_steps_follow_the_route_and_degrade_after_agent_failure() {
    let greeting = reply(handle_step("你好", true, HandleEvent::Start));
    assert_eq!(greeting.answer, direct_answer("你好"));
    assert!(!greeting.used_ai);
    assert_eq!(greeting.tool_labels, vec!["direct".to_string()]);
    let weather = reply(handle_step("随便聊聊", false, HandleEvent::Start));
    assert_eq!(weather.answer, fallback_answer("随便聊聊"));
    assert_eq!(weather.tool_labels, vec!["fallback".to_string()]);
    assert!(matches!(handle_step("我这周主要做了什么", false, HandleEvent::Start), HandleAction::RunFastAnswer));
    let fast = reply(handle_step("我这周主要做了什么", false, HandleEvent::FastAnswered("统计".to_string())));
    assert_eq!(fast.tool_labels, vec!["rule-based".to_string()]);
    assert!(!fast.used_ai);
    let q = "为什么最近编码时间下降了";
    assert!(matches!(handle_step(q, true, HandleEvent::Start), HandleAction::RunAgent));
    assert!(matches!(handle_step(q, true, HandleEvent::AgentFailed), HandleAction::RunFastAnswer));
    let degraded = reply(handle_step(q, true, HandleEvent::FastAnswered("统计".to_string())));
    assert_eq!(degraded.answer, "统计");
    assert!(!degraded.used_ai);
    assert_eq!(degraded.tool_labels, vec!["降级查询".to_string()]);
    assert!(degraded.references.is_empty());
    let agent = AgentResult { answer: "分析".to_string(), tool_labels: vec!["trend_comparison".to_string()], references: vec![] };
    let answered = reply(handle_step(q, true, HandleEvent::AgentAnswered(agent)));
    assert!(answered.used_ai);
    assert_eq!(answered.answer, "分析");
    assert_eq!(answered.tool_labels, vec!["trend_comparison".to_string()]);
}
