use work_review::tool_args::AggregateStatsArgs;
use work_review::tool_text::{
    aggregate_answer, by_app_text, by_category_text, category_empty_text, category_search_empty_text, category_search_text,
    english_category_name, intents_text, no_records_text, overview_duration_text, overview_empty_text,
    overview_text, summary_text, trend_text, IntentRow, Share, TrendRow,
};

fn share(name: &str, d: i64, p: &str) -> Share {
    Share { name: name.to_string(), duration: d, percent: p.to_string() }
}

#[test]
fn ranking_and_breakdown_texts() {
    let apps = vec![("Code".to_string(), 3661), ("Chrome".to_string(), 125), ("Slack".to_string(), 45)];
    assert_eq!(
        by_app_text("2026-06-01", "2026-06-07", &apps, 2, 3831),
        "应用使用时长排名 (2026-06-01 ~ 2026-06-07)：\n  - Code: 1h1m\n  - Chrome: 2m\n  ---\n  总计: 1h3m"
    );
    let cats = vec![share("开发", 3600, "94"), share("浏览", 231, "6")];
    assert_eq!(
        by_category_text("a", "b", &cats, 3831),
        "分类使用时长 (a ~ b)：\n  - 开发: 1h0m (94%)\n  - 浏览: 3m (6%)\n  ---\n  总计: 1h3m"
    );
    assert_eq!(
        summary_text("a", "b", 3831, &apps, &cats),
        "时间总览 (a ~ b)：\n  总活动时长: 1h3m\n  最多使用: Code(1h1m), Chrome(2m), Slack(45s)\n\n  分类分布:\n    - 开发: 1h0m (94%)\n    - 浏览: 3m (6%)"
    );
    assert_eq!(no_records_text("a", "b"), "在 a ~ b 范围内无活动记录。");
    assert_eq!(category_empty_text("a", "b", None), "在 a ~ b 范围内未找到 '所有' 分类的活动记录。");
    assert_eq!(category_empty_text("a", "b", Some("开发")), "在 a ~ b 范围内未找到 '开发' 分类的活动记录。");
}

#[test]
fn category_search_texts() {
    let entries = vec![("Code".to_string(), 3600, "main.rs".to_string()), ("Git".to_string(), 60, "".to_string())];
    assert_eq!(
        category_search_text("开发", Some("a"), Some("b"), 3, 3660, &entries),
        "开发 类别活动（a ~ b）：\n  共 3 条记录，总时长 1h1m\n\n  - Code: 1h0m\n    窗口: main.rs\n  - Git: 1m"
    );
    assert!(category_search_text("开发", None, Some("b"), 1, 60, &entries[1..]).starts_with("开发 类别活动（全部）："));
    assert_eq!(category_search_empty_text("开发", None, None), "在 指定范围 范围内未找到 '开发' 类别的活动记录。");
}

#[test]
fn intents_and_trend_texts() {
    let rows = vec![IntentRow { label: "编码开发".to_string(), duration: 7300, percent: "80".to_string(), sessions: 4 }];
    assert_eq!(intents_text("a", "b", &rows), "工作意图分布 (a ~ b)：\n  - 编码开发: 2h (80%) | 4个session");
    let t = vec![
        TrendRow { name: "开发".to_string(), before: 3600, after: 7200, percent: "100.0".to_string() },
        TrendRow { name: "设计".to_string(), before: 0, after: 60, percent: String::new() },
        TrendRow { name: "通讯".to_string(), before: 120, after: 0, percent: String::new() },
        TrendRow { name: "其他".to_string(), before: 0, after: 0, percent: String::new() },
    ];
    assert_eq!(
        trend_text("a1", "a2", "b1", "b2", 3720, 7260, "95.2", &t),
        "时段对比：\n  时段A: a1 ~ a2 (1h2m)\n  时段B: b1 ~ b2 (2h1m)\n\n  总时长变化: +59m (+95.2%)\n\n  分类对比：\n    开发: 1h0m → 2h0m (+100.0%)\n    设计: 0 → 1m (新增)\n    通讯: 2m → 0 (消失)"
    );
    assert_eq!(
        trend_text("a1", "a2", "b1", "b2", 0, 60, "", &[]),
        "时段对比：\n  时段A: a1 ~ a2 (0s)\n  时段B: b1 ~ b2 (1m)\n\n  分类对比："
    );
}

#[test]
fn overview_texts_follow_the_question_language() {
    assert_eq!(overview_duration_text(3661), "1h1m");
    assert_eq!(overview_duration_text(125), "2m");
    assert_eq!(overview_duration_text(45), "45s");
    assert_eq!(english_category_name("entertainment"), "Leisure");
    assert_eq!(english_category_name("custom"), "custom");
    assert_eq!(overview_empty_text("这周做了什么", None, None), "在 全部 ~ 今天 范围内未找到活动记录。");
    assert_eq!(overview_empty_text("what did I do", Some("x"), None), "No activity records found in x ~ Today.");
    let cats = vec![share("Development", 3600, "100")];
    let apps = vec![("Code".to_string(), 3600)];
    let related = vec![("2026-06-01".to_string(), "review".to_string())];
    assert_eq!(
        overview_text("what did I do", Some("a"), Some("b"), 2, 3600, &cats, &apps, &related),
        "a ~ b Activity overview：\n2 records, total 1h0m\n\nCategory breakdown：\n  - Development: 1h0m (100%)\n\nTop apps：\n  - Code: 1h0m\n\nRelated records：\n- 2026-06-01 | review"
    );
    assert_eq!(
        overview_text("我做了什么", None, None, 1, 59, &[], &[], &[]),
        "全部 ~ 今天 活动总览：\n1 条记录，总时长 59s\n\n分类分布：\n\n使用最多的应用："
    );
}

#[test]
fn trend_total_change_reports_the_size_of_a_drop() {
    assert_eq!(
        trend_text("a1", "a2", "b1", "b2", 7260, 3720, "-48.8", &[]),
        "时段对比：\n  时段A: a1 ~ a2 (2h1m)\n  时段B: b1 ~ b2 (1h2m)\n\n  总时长变化: -59m (-48.8%)\n\n  分类对比："
    );
    assert_eq!(
        trend_text("a1", "a2", "b1", "b2", 60, 60, "0.0", &[]),
        "时段对比：\n  时段A: a1 ~ a2 (1m)\n  时段B: b1 ~ b2 (1m)\n\n  总时长变化: 0s (0.0%)\n\n  分类对比："
    );
    assert_eq!(
        trend_text("a1", "a2", "b1", "b2", i64::MAX, i64::MIN, "x", &[]).lines().nth(4),
        Some("  总时长变化: -5124095576030431h0m (x%)")
    );
}

fn aggregate_args(metric: &str, limit: u64, category: Option<&str>) -> AggregateStatsArgs {
    AggregateStatsArgs {
        date_from: "a".to_string(),
        date_to: "b".to_string(),
        metric: metric.to_string(),
        limit,
        category: category.map(|c| c.to_string()),
    }
}

#[test]
fn aggregate_answer_follows_the_metric() {
    let apps = vec![("Code".to_string(), 3661), ("Chrome".to_string(), 125)];
    let cats = vec![share("开发", 3661, "97"), share("浏览", 125, "3")];
    assert_eq!(
        aggregate_answer(&aggregate_args("by_app", 1, None), None, 3786, &apps, &cats),
        "应用使用时长排名 (a ~ b)：\n  - Code: 1h1m\n  ---\n  总计: 1h3m"
    );
    assert_eq!(
        aggregate_answer(&aggregate_args("by_category", 10, None), None, 3786, &apps, &cats),
        "分类使用时长 (a ~ b)：\n  - 开发: 1h1m (97%)\n  - 浏览: 2m (3%)\n  ---\n  总计: 1h3m"
    );
    assert_eq!(
        aggregate_answer(&aggregate_args("summary", 10, None), None, 3786, &apps, &cats),
        "时间总览 (a ~ b)：\n  总活动时长: 1h3m\n  最多使用: Code(1h1m), Chrome(2m)\n\n  分类分布:\n    - 开发: 1h1m (97%)\n    - 浏览: 2m (3%)"
    );
    assert_eq!(
        aggregate_answer(&aggregate_args("anything", 10, None), None, 3786, &apps, &cats),
        aggregate_answer(&aggregate_args("summary", 10, None), None, 3786, &apps, &cats)
    );
    assert_eq!(
        aggregate_answer(&aggregate_args("by_app", 10, Some("design")), Some("设计工具"), 0, &[], &[]),
        "在 a ~ b 范围内未找到 '设计工具' 分类的活动记录。"
    );
}
