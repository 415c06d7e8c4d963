use work_review::report_blocks::{
    apply_preferences, assemble, assemble_with_section_count, default_local_order,
    default_summary_order, format_section_heading, merge_ai_order, parse_block_name,
    render_report_with_live_stats, replace_block, wrap_block, StatsBlock, BLOCK_APP_USAGE_TABLE,
    BLOCK_CATEGORY_TABLE,
};
use work_review::report_render::{
    format_domain_label_local, format_hour_range_for_note, render_app_usage_table,
    render_category_table, render_hourly_summary, render_local_app_usage_list,
    render_local_category_list, render_local_domain_usage_list, render_local_overview, AppLine,
    AppLocale, CategoryLine, DomainLine, HourLine, ReportStats,
};

fn empty_stats() -> ReportStats {
    ReportStats {
        total_duration_text: "0秒".to_string(),
        screenshot_count: 0,
        categories: vec![],
        apps: vec![],
        domains: vec![],
        hours: vec![],
        hourly_summary: None,
    }
}

fn sample_stats_for_numbering(locale: AppLocale) -> ReportStats {
    let (label, dur_all, dur_app) = match locale {
        AppLocale::En => ("Development", "1h 0m", "40m"),
        _ => ("开发工具", "1小时0分钟", "40分钟"),
    };
    ReportStats {
        total_duration_text: dur_all.to_string(),
        screenshot_count: 3,
        categories: vec![CategoryLine {
            label: label.to_string(),
            duration_text: dur_all.to_string(),
            share_rounded: 100,
            share_truncated: 100,
        }],
        apps: vec![AppLine { app_name: "VS Code".to_string(), duration_text: dur_app.to_string() }],
        domains: vec![],
        hours: vec![],
        hourly_summary: None,
    }
}

fn sample_stats_for_editorial_notes(locale: AppLocale) -> ReportStats {
    let en = locale == AppLocale::En;
    let t = |zh: &str, e: &str| if en { e.to_string() } else { zh.to_string() };
    ReportStats {
        total_duration_text: t("2小时0分钟", "2h 0m"),
        screenshot_count: 8,
        categories: vec![
            CategoryLine {
                label: t("开发工具", "Development"),
                duration_text: t("1小时30分钟", "1h 30m"),
                share_rounded: 75,
                share_truncated: 75,
            },
            CategoryLine {
                label: t("浏览器", "Browser"),
                duration_text: t("30分钟", "30m"),
                share_rounded: 25,
                share_truncated: 25,
            },
        ],
        apps: vec![
            AppLine { app_name: "VS Code".to_string(), duration_text: t("1小时10分钟", "1h 10m") },
            AppLine { app_name: "Chrome".to_string(), duration_text: t("30分钟", "30m") },
        ],
        domains: vec![DomainLine {
            domain: "github.com".to_string(),
            semantic_category: Some("开发协作".to_string()),
            semantic_label: t("开发协作", "Dev collaboration"),
            duration_text: t("25分钟", "25m"),
        }],
        hours: vec![
            HourLine { hour: 9, duration: 1200, duration_text: t("20分钟", "20m") },
            HourLine { hour: 10, duration: 3000, duration_text: t("50分钟", "50m") },
        ],
        hourly_summary: Some(t(
            "- 高峰时段: 10:00-11:00（50分钟）\n",
            "- Peak hour: 10:00-11:00 (50m)\n",
        )),
    }
}

#[test]
fn wrap_block_skips_empty() {
    assert!(wrap_block(BLOCK_CATEGORY_TABLE, "").is_empty());
}

#[test]
fn wrap_block_adds_markers_and_trailing_newline() {
    let wrapped = wrap_block(BLOCK_CATEGORY_TABLE, "hello\n");
    assert!(wrapped.starts_with("<!-- WR_BLOCK_START:CATEGORY_TABLE -->\n"));
    assert!(wrapped.contains("hello\n"));
    assert!(wrapped
        .trim_end()
        .ends_with("<!-- WR_BLOCK_END:CATEGORY_TABLE -->"));
}

#[test]
fn replace_block_overwrites_content_between_markers() {
    let original = "before\n<!-- WR_BLOCK_START:APP_USAGE_TABLE -->\nstale rows\n<!-- WR_BLOCK_END:APP_USAGE_TABLE -->\nafter\n";
    let updated = replace_block(original, BLOCK_APP_USAGE_TABLE, "fresh rows\n");
    assert!(updated.contains("fresh rows"));
    assert!(!updated.contains("stale rows"));
    assert!(updated.starts_with("before\n"));
    assert!(updated.ends_with("after\n"));
}

#[test]
fn replace_block_returns_input_when_no_markers() {
    let original = "no markers here\n";
    let updated = replace_block(original, BLOCK_CATEGORY_TABLE, "ignored");
    assert_eq!(updated, original);
}

#[test]
fn replace_block_handles_unmatched_start() {
    let original = "<!-- WR_BLOCK_START:CATEGORY_TABLE -->\nnever closed\n";
    let updated = replace_block(original, BLOCK_CATEGORY_TABLE, "ignored");
    assert_eq!(updated, original);
}

#[test]
fn render_report_with_live_stats_passes_through_legacy_content() {
    let legacy = "# 工作日报\n\n直接写死的旧版本，没有任何标记\n";
    let stats = empty_stats();
    assert_eq!(
        render_report_with_live_stats(legacy, &stats, AppLocale::ZhCn),
        legacy
    );
}

#[test]
fn assemble_numbers_sections_in_block_order_and_counts_them() {
    let stats = sample_stats_for_numbering(AppLocale::ZhCn);
    let (markdown, section_count) = assemble_with_section_count(
        &[StatsBlock::AppUsageTable, StatsBlock::CategoryTable],
        &stats,
        AppLocale::ZhCn,
    );

    assert_eq!(section_count, 2);
    assert!(markdown.contains("## 一、应用使用明细"));
    assert!(markdown.contains("## 二、时间分配"));
    assert!(!markdown.contains("## 三、应用使用明细"));
}

#[test]
fn english_section_titles_use_arabic_numbers_in_order() {
    let stats = sample_stats_for_numbering(AppLocale::En);
    let (markdown, section_count) = assemble_with_section_count(
        &[StatsBlock::CategoryTable, StatsBlock::AppUsageTable],
        &stats,
        AppLocale::En,
    );

    assert_eq!(section_count, 2);
    assert!(markdown.contains("## 1. Time Allocation"));
    assert!(markdown.contains("## 2. App Details"));
}

#[test]
fn summary_blocks_keep_takeaway_after_heading() {
    let stats = sample_stats_for_editorial_notes(AppLocale::ZhCn);
    let markdown = assemble(&default_summary_order(), &stats, AppLocale::ZhCn);

    assert!(markdown.contains("## 一、时间分配\n\n> **短结论：**"));
    assert!(markdown.contains("主要时间集中在"));
    assert!(markdown.contains("| 类别 | 时长 | 占比 |"));

    assert!(markdown.contains("## 二、应用使用明细\n\n> **短结论：**"));
    assert!(markdown.contains("使用最久的应用是 VS Code"));
    assert!(markdown.contains("| 序号 | 应用名称 | 使用时长 |"));

    assert!(markdown.contains("## 三、按小时活跃度\n\n> **短结论：**"));
    assert!(markdown.contains("活跃高峰出现在"));
    assert!(markdown.contains("- 高峰时段:"));

    assert!(markdown.contains("## 四、网站访问明细\n\n> **短结论：**"));
    assert!(markdown.contains("访问时间最长的网站是 github.com"));
    assert!(markdown.contains("| 序号 | 网站域名 | 访问时长 |"));
}

#[test]
fn english_summary_blocks_use_takeaway() {
    let stats = sample_stats_for_editorial_notes(AppLocale::En);
    let markdown = assemble(
        &[
            StatsBlock::CategoryTable,
            StatsBlock::AppUsageTable,
            StatsBlock::HourlySummary,
            StatsBlock::DomainUsageTable,
        ],
        &stats,
        AppLocale::En,
    );

    assert!(markdown.contains("## 1. Time Allocation\n\n> **Takeaway:**"));
    assert!(markdown.contains("Most tracked time went to"));
    assert!(markdown.contains("## 2. App Details\n\n> **Takeaway:**"));
    assert!(markdown.contains("The most-used app was VS Code"));
    assert!(markdown.contains("## 3. Hourly Activity\n\n> **Takeaway:**"));
    assert!(markdown.contains("Activity peaked at"));
    assert!(markdown.contains("## 4. Website Details\n\n> **Takeaway:**"));
    assert!(markdown.contains("The longest website visit was github.com"));
}

#[test]
fn parse_block_name_round_trips_every_block() {
    let all = [
        StatsBlock::CategoryTable,
        StatsBlock::AppUsageTable,
        StatsBlock::HourlySummary,
        StatsBlock::DomainUsageTable,
        StatsBlock::LocalOverview,
        StatsBlock::LocalCategory,
        StatsBlock::LocalAppUsage,
        StatsBlock::LocalDomainUsage,
    ];
    for b in all {
        assert_eq!(parse_block_name(b.block_name()), Some(b));
    }
}

#[test]
fn parse_block_name_trims_and_ignores_case() {
    assert_eq!(parse_block_name("  category_table \n"), Some(StatsBlock::CategoryTable));
    assert_eq!(parse_block_name("Local_App_Usage"), Some(StatsBlock::LocalAppUsage));
    assert_eq!(parse_block_name("AI_ANALYSIS"), None);
    assert_eq!(parse_block_name(""), None);
}

#[test]
fn merge_ai_order_puts_ai_blocks_first_and_keeps_all_available() {
    let ai = vec![
        "hourly_summary".to_string(),
        "unknown".to_string(),
        "LOCAL_OVERVIEW".to_string(),
        "HOURLY_SUMMARY".to_string(),
        "app_usage_table".to_string(),
    ];
    let merged = merge_ai_order(&ai, &default_summary_order());
    assert_eq!(
        merged,
        vec![
            StatsBlock::HourlySummary,
            StatsBlock::AppUsageTable,
            StatsBlock::CategoryTable,
            StatsBlock::DomainUsageTable,
        ]
    );
    assert_eq!(merge_ai_order(&[], &default_local_order()), default_local_order());
}

#[test]
fn apply_preferences_moves_pinned_blocks_first() {
    let pinned = vec!["DOMAIN_USAGE_TABLE".to_string(), "HOURLY_SUMMARY".to_string(), "NOPE".to_string()];
    let ordered = apply_preferences(default_summary_order(), &pinned);
    assert_eq!(
        ordered,
        vec![
            StatsBlock::DomainUsageTable,
            StatsBlock::HourlySummary,
            StatsBlock::CategoryTable,
            StatsBlock::AppUsageTable,
        ]
    );
    assert_eq!(apply_preferences(default_local_order(), &[]), default_local_order());
}

#[test]
fn section_heading_numbers_follow_locale() {
    assert_eq!(format_section_heading(AppLocale::ZhCn, 3, "标题"), "## 三、标题\n\n");
    assert_eq!(format_section_heading(AppLocale::ZhTw, 0, "X"), "## 一、X\n\n");
    assert_eq!(format_section_heading(AppLocale::ZhCn, 11, "X"), "## 11、X\n\n");
    assert_eq!(format_section_heading(AppLocale::En, 2, "Title"), "## 2. Title\n\n");
}

#[test]
fn live_stats_replace_wrapped_block_with_fresh_content() {
    let stats = sample_stats_for_numbering(AppLocale::En);
    let fresh = render_app_usage_table(&stats, AppLocale::En);
    let saved = format!("intro\n{}outro\n", wrap_block(BLOCK_APP_USAGE_TABLE, "old table\n"));
    let shown = render_report_with_live_stats(&saved, &stats, AppLocale::En);
    assert_eq!(shown, format!("intro\n{}outro\n", wrap_block(BLOCK_APP_USAGE_TABLE, fresh.trim_matches('\n'))));
}

#[test]
fn replace_block_with_empty_fresh_leaves_empty_block() {
    let original = "<!-- WR_BLOCK_START:CATEGORY_TABLE -->\nold\n<!-- WR_BLOCK_END:CATEGORY_TABLE -->\n";
    let updated = replace_block(original, BLOCK_CATEGORY_TABLE, "\n\n");
    assert_eq!(updated, "<!-- WR_BLOCK_START:CATEGORY_TABLE -->\n<!-- WR_BLOCK_END:CATEGORY_TABLE -->\n");
}

#[test]
fn category_table_rows_and_takeaway() {
    let stats = sample_stats_for_editorial_notes(AppLocale::ZhCn);
    let table = render_category_table(&stats, AppLocale::ZhCn);
    assert_eq!(
        table,
        "## 时间分配\n\n> **短结论：** 主要时间集中在开发工具，累计1小时30分钟，占总记录时长 75%。\n\n| 类别 | 时长 | 占比 |\n|:--|--:|--:|\n| 开发工具 | 1小时30分钟 | 75% |\n| 浏览器 | 30分钟 | 25% |\n\n"
    );
    assert_eq!(render_category_table(&empty_stats(), AppLocale::ZhCn), "");
}

#[test]
fn hourly_peak_prefers_earliest_of_equal_hours() {
    let mut stats = empty_stats();
    stats.hourly_summary = Some("summary\n".to_string());
    stats.hours = vec![
        HourLine { hour: 14, duration: 600, duration_text: "10m".to_string() },
        HourLine { hour: 9, duration: 600, duration_text: "10m".to_string() },
        HourLine { hour: 3, duration: 0, duration_text: "0m".to_string() },
    ];
    let text = render_hourly_summary(&stats, AppLocale::En);
    assert_eq!(
        text,
        "## Hourly Activity\n\n> **Takeaway:** Activity peaked at 09:00-10:00, with 10m recorded in that hour across 2 active hours.\n\nsummary\n\n"
    );
    assert_eq!(render_hourly_summary(&empty_stats(), AppLocale::En), "");
}

#[test]
fn hour_range_clamps_and_wraps() {
    assert_eq!(format_hour_range_for_note(23), "23:00-00:00");
    assert_eq!(format_hour_range_for_note(-4), "00:00-01:00");
    assert_eq!(format_hour_range_for_note(99), "23:00-00:00");
    assert_eq!(format_hour_range_for_note(7), "07:00-08:00");
}

#[test]
fn domain_label_shows_semantic_category_only_when_not_blank() {
    let mut d = DomainLine {
        domain: "github.com".to_string(),
        semantic_category: Some(" 开发协作 ".to_string()),
        semantic_label: "开发协作".to_string(),
        duration_text: "5分钟".to_string(),
    };
    assert_eq!(format_domain_label_local(&d, AppLocale::ZhCn), "github.com（开发协作）");
    assert_eq!(format_domain_label_local(&d, AppLocale::En), "github.com (开发协作)");
    d.semantic_category = Some("   ".to_string());
    assert_eq!(format_domain_label_local(&d, AppLocale::ZhCn), "github.com");
}

#[test]
fn local_lists_show_at_most_five_items() {
    let mut stats = empty_stats();
    for i in 0..7 {
        stats.apps.push(AppLine { app_name: format!("App{i}"), duration_text: "1m".to_string() });
    }
    let list = render_local_app_usage_list(&stats, AppLocale::En);
    assert!(list.starts_with("## App usage\n\n1. **App0**: 1m\n"));
    assert!(list.contains("5. **App4**: 1m\n"));
    assert!(!list.contains("App5"));
    assert_eq!(render_local_domain_usage_list(&empty_stats(), AppLocale::En), "");
}

#[test]
fn local_overview_and_category_list() {
    let stats = sample_stats_for_editorial_notes(AppLocale::ZhTw);
    assert_eq!(
        render_local_overview(&stats, AppLocale::ZhTw),
        "## 今日概覽\n\n- **總工作時長**: 2小时0分钟\n- **截圖數量**: 8 張\n- **使用應用**: 2 個\n"
    );
    assert_eq!(
        render_local_category_list(&stats, AppLocale::ZhTw),
        "## 時間分配\n\n- **开发工具**: 1小时30分钟 (75%)\n- **浏览器**: 30分钟 (25%)\n"
    );
}

#[test]
fn replacing_a_block_twice_equals_replacing_it_once() {
    let saved = format!(
        "intro\n{}middle\n{}<!-- WR_BLOCK_START:CATEGORY_TABLE -->\nunclosed\n",
        wrap_block(BLOCK_CATEGORY_TABLE, "old\n"),
        wrap_block(BLOCK_CATEGORY_TABLE, "older")
    );
    let once = replace_block(&saved, BLOCK_CATEGORY_TABLE, "\nfresh table\n\n");
    assert_eq!(replace_block(&once, BLOCK_CATEGORY_TABLE, "\nfresh table\n\n"), once);
    assert_eq!(
        once,
        "intro\n<!-- WR_BLOCK_START:CATEGORY_TABLE -->\nfresh table\n<!-- WR_BLOCK_END:CATEGORY_TABLE -->\nmiddle\n<!-- WR_BLOCK_START:CATEGORY_TABLE -->\nfresh table\n<!-- WR_BLOCK_END:CATEGORY_TABLE -->\n<!-- WR_BLOCK_START:CATEGORY_TABLE -->\nunclosed\n"
    );
}

#[test]
fn live_refresh_of_a_lone_wrapped_block_writes_the_fresh_rendering() {
    let stats = sample_stats_for_numbering(AppLocale::ZhCn);
    let fresh = render_category_table(&stats, AppLocale::ZhCn);
    let saved = wrap_block(BLOCK_CATEGORY_TABLE, "stale numbers");
    let shown = render_report_with_live_stats(&saved, &stats, AppLocale::ZhCn);
    let t = fresh.trim_matches('\n');
    let body = if t.is_empty() { String::new() } else { format!("{t}\n") };
    assert_eq!(
        shown,
        format!("<!-- WR_BLOCK_START:CATEGORY_TABLE -->\n{body}<!-- WR_BLOCK_END:CATEGORY_TABLE -->\n")
    );
}

#[test]
fn a_name_whose_block_holds_an_early_end_marker_is_not_refreshed_idempotently() {
    let name = " -->\n<!-- WR_BLOCK_END:";
    let fresh = "<!-- WR_BLOCK_END: -->";
    let start = format!("<!-- WR_BLOCK_START:{name} -->");
    let end = format!("<!-- WR_BLOCK_END:{name} -->");
    let content = format!("{start}old{end}");
    let once = replace_block(&content, name, fresh);
    let twice = replace_block(&once, name, fresh);
    assert_ne!(once, twice);
    assert!(twice.len() > once.len());
}
