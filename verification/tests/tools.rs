use work_review::json::{json_as_array, json_as_str, json_field, Json};
use work_review::tools::{
    format_duration_compact, format_search_results, resolve_category_key, MemorySearchItem,
    ToolContext, ToolKind, ToolRegistry,
};

#[allow(dead_code)]
fn json_of(v: &serde_json::Value) -> Json {
    match v {
        serde_json::Value::Null => Json::Null,
        serde_json::Value::Bool(b) => Json::Bool(*b),
        serde_json::Value::Number(n) => Json::Number(n.to_string()),
        serde_json::Value::String(s) => Json::Str(s.clone()),
        serde_json::Value::Array(a) => Json::Array(a.iter().map(json_of).collect()),
        serde_json::Value::Object(m) => Json::Object(m.iter().map(|(k, x)| (k.clone(), json_of(x))).collect()),
    }
}

#[allow(dead_code)]
fn value_of_json(j: &Json) -> serde_json::Value {
    match j {
        Json::Null => serde_json::Value::Null,
        Json::Bool(b) => serde_json::Value::Bool(*b),
        Json::Number(n) => serde_json::Value::Number(n.parse().unwrap()),
        Json::Str(s) => serde_json::Value::String(s.clone()),
        Json::Array(a) => serde_json::Value::Array(a.iter().map(value_of_json).collect()),
        Json::Object(m) => {
            serde_json::Value::Object(m.iter().map(|(k, x)| (k.clone(), value_of_json(x))).collect())
        }
    }
}

#[allow(dead_code)]
fn parse_json_text(text: &str) -> Option<Json> {
    serde_json::from_str::<serde_json::Value>(text).ok().map(|v| json_of(&v))
}

#[allow(dead_code)]
fn to_json_text(j: &Json) -> String {
    value_of_json(j).to_string()
}


fn tools_text(tools: &[Json]) -> String {
    let mut items = Vec::new();
    for t in tools {
        items.push(work_review::json::clone_json(t));
    }
    to_json_text(&Json::Array(items))
}

fn required_names(schema: &Json) -> Vec<&str> {
    let required = json_as_array(json_field(Some(schema), "required")).unwrap();
    required.iter().filter_map(|r| json_as_str(Some(r))).collect()
}

fn is_object(j: Option<&Json>) -> bool {
    matches!(j, Some(Json::Object(_)))
}

fn is_string(j: Option<&Json>) -> bool {
    matches!(j, Some(Json::Str(_)))
}

fn item(id: i64, ts: i64, title: &str, app: Option<&str>, url: Option<&str>, dur: Option<i64>) -> MemorySearchItem {
    MemorySearchItem {
        source_id: id,
        timestamp: ts,
        date: "2026-06-01".to_string(),
        title: title.to_string(),
        app_name: app.map(|a| a.to_string()),
        browser_url: url.map(|u| u.to_string()),
        duration: dur,
    }
}

#[test]
fn test_format_duration_compact() {
    assert_eq!(format_duration_compact(3661), "1h1m");
    assert_eq!(format_duration_compact(3600), "1h0m");
    assert_eq!(format_duration_compact(125), "2m");
    assert_eq!(format_duration_compact(45), "45s");
    assert_eq!(format_duration_compact(0), "0s");
}

#[test]
fn test_resolve_category_key_english() {
    assert_eq!(
        resolve_category_key("development"),
        Some("development".to_string())
    );
    assert_eq!(resolve_category_key("BROWSER"), Some("browser".to_string()));
    assert_eq!(
        resolve_category_key("Communication"),
        Some("communication".to_string())
    );
}

#[test]
fn test_resolve_category_key_chinese_exact() {
    assert_eq!(
        resolve_category_key("开发工具"),
        Some("development".to_string())
    );
    assert_eq!(
        resolve_category_key("通讯协作"),
        Some("communication".to_string())
    );
    assert_eq!(resolve_category_key("办公软件"), Some("office".to_string()));
}

#[test]
fn test_resolve_category_key_chinese_partial() {
    assert_eq!(
        resolve_category_key("开发"),
        Some("development".to_string())
    );
    assert_eq!(
        resolve_category_key("通讯"),
        Some("communication".to_string())
    );
    assert_eq!(resolve_category_key("办公"), Some("office".to_string()));
    assert_eq!(resolve_category_key("浏览"), Some("browser".to_string()));
    assert_eq!(resolve_category_key("设计"), Some("design".to_string()));
}

#[test]
fn test_resolve_category_key_unknown_returns_none() {
    assert_eq!(resolve_category_key("xyz"), None);
    assert_eq!(resolve_category_key("未知分类"), None);
    assert_eq!(resolve_category_key(""), None);
}

#[test]
fn resolve_category_key_trims_input() {
    assert_eq!(resolve_category_key("  Other \t"), Some("other".to_string()));
    assert_eq!(resolve_category_key("   "), None);
}

#[test]
fn format_duration_compact_negative_is_zero() {
    assert_eq!(format_duration_compact(-5), "0s");
    assert_eq!(format_duration_compact(90061), "25h1m");
}

#[test]
fn collect_references_skips_duplicates() {
    let mut ctx = ToolContext { ignored_apps: vec![], excluded_domains: vec![], collected_references: vec![] };
    ctx.collect_references(vec![item(1, 10, "a", None, None, None), item(1, 10, "a", None, None, None), item(2, 10, "a", None, None, None)]);
    assert_eq!(ctx.references_len(), 2);
    let base = ctx.references_len();
    ctx.collect_references(vec![item(1, 10, "a", None, None, None), item(3, 11, "b", None, None, None)]);
    let fresh = ctx.drain_from(base);
    assert_eq!(fresh.len(), 1);
    assert_eq!(fresh[0].source_id, 3);
    assert!(ctx.drain_from(99).is_empty());
    let all = ctx.take_all_references();
    assert_eq!(all.len(), 3);
    assert_eq!(ctx.references_len(), 0);
}

#[test]
fn search_results_respect_privacy_settings() {
    let ctx = ToolContext {
        ignored_apps: vec!["wechat".to_string()],
        excluded_domains: vec!["Bank.COM".to_string()],
        collected_references: vec![],
    };
    let hits = vec![
        item(1, 1, "chat", Some("WeChat"), None, None),
        item(2, 2, "statement", Some("Chrome"), Some("https://bank.com/x"), None),
        item(3, 3, "my BANK.com login", None, None, None),
        item(4, 4, "code", Some("VS Code"), None, Some(4000)),
    ];
    let kept = ctx.filter_search_results(hits);
    assert_eq!(kept.len(), 1);
    assert_eq!(kept[0].source_id, 4);
}

#[test]
fn search_results_text() {
    assert_eq!(format_search_results("debug", &vec![]), "搜索 'debug' 无结果。");
    let hits = vec![
        item(1, 1, "fix bug", Some("VS Code"), None, Some(3900)),
        item(2, 2, "read docs", None, None, Some(300)),
        item(3, 3, "meeting", None, None, None),
    ];
    assert_eq!(
        format_search_results("debug", &hits),
        "搜索 'debug' 的结果（共3条）：\n  - 2026-06-01 | fix bug | VS Code | 1h5m\n  - 2026-06-01 | read docs | 5m\n  - 2026-06-01 | meeting | "
    );
}

#[test]
fn registry_knows_builtin_tools() {
    let registry = ToolRegistry::new();
    assert_eq!(registry.tools().len(), 5);
    assert_eq!(registry.lookup("trend_comparison"), Ok(ToolKind::TrendComparison));
    assert_eq!(registry.lookup("nonexistent_tool"), Err("未知的工具: nonexistent_tool".to_string()));
    assert_eq!(ToolKind::SearchMemory.name(), "search_memory");
    assert!(ToolKind::CategorySearch.description().contains("category 参数"));
}

#[test]
fn test_registry_has_builtin_tools() {
    let registry = ToolRegistry::new();
    let json_str = tools_text(&registry.to_openai_tools());
    assert!(json_str.contains("search_memory"), "应包含 search_memory");
    assert!(json_str.contains("analyze_intents"), "应包含 analyze_intents");
    assert!(json_str.contains("aggregate_stats"), "应包含 aggregate_stats");
    assert!(json_str.contains("category_search"), "应包含 category_search");
    assert!(json_str.contains("trend_comparison"), "应包含 trend_comparison");
}

#[test]
fn test_openai_tools_format_is_valid() {
    let registry = ToolRegistry::new();
    let tools = registry.to_openai_tools();

    assert_eq!(tools.len(), 5);

    for tool in &tools {
        assert_eq!(json_as_str(json_field(Some(tool), "type")), Some("function"));
        let f = json_field(Some(tool), "function");
        assert!(is_string(json_field(f, "name")));
        assert!(is_string(json_field(f, "description")));
        let p = json_field(f, "parameters");
        assert!(is_string(json_field(p, "type")));
        assert!(is_object(json_field(p, "properties")));
    }
}

#[test]
fn test_search_memory_schema_matches_expected() {
    let schema = ToolKind::SearchMemory.parameters_schema();
    assert_eq!(json_as_str(json_field(Some(&schema), "type")), Some("object"));
    let props = json_field(Some(&schema), "properties");
    assert!(is_object(json_field(props, "query")));
    assert!(is_object(json_field(props, "date_from")));
    assert!(is_object(json_field(props, "date_to")));
    assert!(required_names(&schema).iter().any(|r| *r == "query"));
}

#[test]
fn test_analyze_intents_schema_requires_dates() {
    let schema = ToolKind::AnalyzeIntents.parameters_schema();
    let required_strs = required_names(&schema);
    assert!(required_strs.contains(&"date_from"));
    assert!(required_strs.contains(&"date_to"));
}

#[test]
fn test_aggregate_stats_schema_has_required_fields() {
    let schema = ToolKind::AggregateStats.parameters_schema();
    let required_strs = required_names(&schema);
    assert!(required_strs.contains(&"date_from"));
    assert!(required_strs.contains(&"date_to"));
    let props = json_field(Some(&schema), "properties");
    assert!(is_object(json_field(props, "metric")));
    assert!(is_object(json_field(props, "category")));
    assert!(is_object(json_field(props, "limit")));
}

#[test]
fn test_category_search_schema_requires_category() {
    let schema = ToolKind::CategorySearch.parameters_schema();
    assert!(required_names(&schema).iter().any(|r| *r == "category"));
}

#[test]
fn test_trend_comparison_schema_requires_all_dates() {
    let schema = ToolKind::TrendComparison.parameters_schema();
    let required_strs = required_names(&schema);
    assert!(required_strs.contains(&"period_a_from"));
    assert!(required_strs.contains(&"period_a_to"));
    assert!(required_strs.contains(&"period_b_from"));
    assert!(required_strs.contains(&"period_b_to"));
}

#[test]
fn test_execute_unknown_tool_returns_error() {
    let registry = ToolRegistry::new();
    let json_str = tools_text(&registry.to_openai_tools());
    assert!(!json_str.contains("nonexistent_tool"));
}

#[test]
fn test_tool_definitions_are_complete() {
    let registry = ToolRegistry::new();
    let tools = registry.to_openai_tools();
    let json_str = tools_text(&tools);
    assert!(json_str.contains("search_memory"));
    assert!(json_str.contains("analyze_intents"));
    assert!(json_str.contains("aggregate_stats"));
    assert!(json_str.contains("category_search"));
    assert!(json_str.contains("trend_comparison"));
    assert!(json_str.contains("parameters"));
}

#[test]
fn metric_lists_its_choices_and_limit_is_an_integer() {
    let schema = ToolKind::AggregateStats.parameters_schema();
    let props = json_field(Some(&schema), "properties");
    let metric = json_field(props, "metric");
    let choices = json_as_array(json_field(metric, "enum")).unwrap();
    let names: Vec<&str> = choices.iter().filter_map(|c| json_as_str(Some(c))).collect();
    assert_eq!(names, vec!["by_app", "by_category", "summary"]);
    assert_eq!(json_as_str(json_field(json_field(props, "limit"), "type")), Some("integer"));
    assert!(json_field(json_field(props, "limit"), "enum").is_none());
}

#[test]
fn every_offered_tool_can_be_looked_up() {
    let registry = ToolRegistry::new();
    for k in registry.tools() {
        assert!(registry.lookup(k.name()).is_ok());
    }
}
