use work_review::json::Json;
use work_review::stats::{
    category_entries, first_title, sort_by_duration_desc, sort_dedup, split_by_category, str_lt, tally_by_key,
    trend_rows,
};
use work_review::tool_args::{aggregate_stats_args, category_search_args, search_memory_args, trend_args};

#[allow(dead_code)]
fn json_of(v: &serde_json::Value) -> Json {
    match v {
        serde_json::Value::Null => Json::Null,
        serde_json::Value::Bool(b) => Json::Bool(*b),
        serde_json::Value::Number(n) => Json::Number(n.to_string()),
        serde_json::Value::String(s) => Json::Str(s.clone()),
        serde_json::Value::Array(a) => Json::Array(a.iter().map(json_of).collect()),
        serde_json::Value::Object(m) => Json::Object(m.iter().map(|(k, x)| (k.clone(), json_of(x))).collect()),
    }
}

#[allow(dead_code)]
fn value_of_json(j: &Json) -> serde_json::Value {
    match j {
        Json::Null => serde_json::Value::Null,
        Json::Bool(b) => serde_json::Value::Bool(*b),
        Json::Number(n) => serde_json::Value::Number(n.parse().unwrap()),
        Json::Str(s) => serde_json::Value::String(s.clone()),
        Json::Array(a) => serde_json::Value::Array(a.iter().map(value_of_json).collect()),
        Json::Object(m) => {
            serde_json::Value::Object(m.iter().map(|(k, x)| (k.clone(), value_of_json(x))).collect())
        }
    }
}

#[allow(dead_code)]
fn parse_json_text(text: &str) -> Option<Json> {
    serde_json::from_str::<serde_json::Value>(text).ok().map(|v| json_of(&v))
}

#[allow(dead_code)]
fn to_json_text(j: &Json) -> String {
    value_of_json(j).to_string()
}


fn pairs(v: &[(&str, i64)]) -> Vec<(String, i64)> {
    v.iter().map(|(k, d)| (k.to_string(), *d)).collect()
}

#[test]
fn tally_sums_per_key_in_first_seen_order() {
    let t = tally_by_key(&pairs(&[("vscode", 60), ("chrome", 30), ("vscode", 15), ("slack", 0), ("chrome", 5)]));
    assert_eq!(t, Some(pairs(&[("vscode", 75), ("chrome", 35), ("slack", 0)])));
    assert_eq!(tally_by_key(&Vec::new()), Some(Vec::new()));
    assert_eq!(tally_by_key(&pairs(&[("a", i64::MAX), ("b", 1), ("a", 1)])), None);
    assert_eq!(tally_by_key(&pairs(&[("a", i64::MAX), ("a", -1), ("a", 1)])), Some(pairs(&[("a", i64::MAX)])));
}

#[test]
fn sort_puts_largest_first_and_keeps_ties_in_order() {
    let s = sort_by_duration_desc(pairs(&[("a", 10), ("b", 30), ("c", 10), ("d", 30), ("e", 20)]));
    assert_eq!(s, pairs(&[("b", 30), ("d", 30), ("e", 20), ("a", 10), ("c", 10)]));
}

#[test]
fn string_order_matches_std() {
    let words = ["office", "browser", "design", "", "développement", "other", "browse", "Browser"];
    for a in words {
        for b in words {
            assert_eq!(str_lt(a, b), a < b, "{a} < {b}");
        }
    }
    let keys: Vec<String> = ["other", "browser", "office", "browser", "design", "other"].iter().map(|s| s.to_string()).collect();
    assert_eq!(sort_dedup(&keys), vec!["browser", "design", "office", "other"]);
}

#[test]
fn trend_rows_order_by_total_then_name() {
    let a = pairs(&[("office", 100), ("browser", 50)]);
    let b = pairs(&[("design", 150), ("browser", 100)]);
    let keys: Vec<String> = ["browser", "design", "office"].iter().map(|s| s.to_string()).collect();
    let rows = trend_rows(&a, &b, &keys).unwrap();
    assert_eq!(
        rows,
        vec![
            ("browser".to_string(), 50, 100),
            ("design".to_string(), 0, 150),
            ("office".to_string(), 100, 0),
        ]
    );
}

#[test]
fn category_entries_rank_apps_and_pick_titles() {
    let acts = vec![
        ("Code".to_string(), 100, "".to_string()),
        ("Term".to_string(), 300, "bash".to_string()),
        ("Code".to_string(), 250, "main.rs — 一个很长的窗口标题".repeat(4)),
        ("Git".to_string(), 10, "log".to_string()),
    ];
    let e = category_entries(&acts, 2).unwrap();
    assert_eq!(e.len(), 2);
    assert_eq!(e[0].0, "Code");
    assert_eq!(e[0].1, 350);
    assert_eq!(e[0].2.chars().count(), 60);
    assert_eq!(e[1], ("Term".to_string(), 300, "bash".to_string()));
    assert_eq!(first_title(&acts, "Git"), "log");
    let big = vec![("x".to_string(), i64::MAX, String::new()), ("x".to_string(), 1, String::new())];
    assert!(category_entries(&big, 5).is_none());
    let huge = pairs(&[("k", i64::MAX)]);
    assert!(trend_rows(&huge, &huge, &vec!["k".to_string()]).is_none());
    assert_eq!(first_title(&acts, "None"), "");
}

#[test]
fn tool_arguments_are_read_with_defaults_and_errors() {
    let a = search_memory_args(&parse_json_text(r#"{"query":"debug","date_to":"2026-06-09"}"#).unwrap()).unwrap();
    assert_eq!(a.query, "debug");
    assert_eq!(a.date_from, None);
    assert_eq!(a.date_to.as_deref(), Some("2026-06-09"));
    assert_eq!(search_memory_args(&parse_json_text("{}").unwrap()).err(), Some("缺少必需参数: query".to_string()));

    let g = aggregate_stats_args(&parse_json_text(r#"{"date_from":"a","date_to":"b","category":"开发","limit":3}"#).unwrap())
        .unwrap();
    assert_eq!(g.metric, "summary");
    assert_eq!(g.limit, 3);
    assert_eq!(g.category.as_deref(), Some("development"));
    let g2 = aggregate_stats_args(&parse_json_text(r#"{"date_from":"a","date_to":"b","metric":"by_app","limit":"x"}"#).unwrap())
        .unwrap();
    assert_eq!(g2.metric, "by_app");
    assert_eq!(g2.limit, 10);
    assert_eq!(
        aggregate_stats_args(&parse_json_text(r#"{"date_from":"a"}"#).unwrap()).err(),
        Some("缺少必需参数: date_to".to_string())
    );
    assert_eq!(
        aggregate_stats_args(&parse_json_text(r#"{"date_from":"a","date_to":"b","category":"xyz"}"#).unwrap()).err(),
        Some("无法识别的分类: 'xyz'。支持: 开发/浏览器/通讯/办公/设计/娱乐/其他".to_string())
    );

    let c = category_search_args(&parse_json_text(r#"{"category":"浏览"}"#).unwrap()).unwrap();
    assert_eq!(c.key, "browser");
    assert_eq!(c.limit, 20);

    assert_eq!(
        trend_args(&parse_json_text(r#"{"period_a_from":"a","period_a_to":"b","period_b_to":"d"}"#).unwrap()).err(),
        Some("缺少必需参数: period_b_from".to_string())
    );
}

#[test]
fn split_by_category_keeps_only_the_filtered_category_in_order() {
    let acts = vec![
        ("development".to_string(), "Code".to_string(), 100),
        ("browser".to_string(), "Chrome".to_string(), 50),
        ("development".to_string(), "Terminal".to_string(), 20),
    ];
    let (apps, cats) = split_by_category(&acts, &Some("development".to_string()));
    assert_eq!(apps, pairs(&[("Code", 100), ("Terminal", 20)]));
    assert_eq!(cats, pairs(&[("development", 100), ("development", 20)]));
    let (apps, cats) = split_by_category(&acts, &None);
    assert_eq!(apps, pairs(&[("Code", 100), ("Chrome", 50), ("Terminal", 20)]));
    assert_eq!(cats, pairs(&[("development", 100), ("browser", 50), ("development", 20)]));
    let (apps, cats) = split_by_category(&acts, &Some("design".to_string()));
    assert!(apps.is_empty() && cats.is_empty());
}
