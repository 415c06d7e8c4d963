//! Rendering of the statistics blocks of a daily report, in three locales.
use vstd::prelude::*;
use crate::text::{chars_of, decimal, digit_char, int_text, push_char, push_i64, push_str, push_u64, trim, trim_chars};

verus! {

/// Display language of a report.
#[derive(Clone, Copy, PartialEq, Eq, Structural, Debug)]
pub enum AppLocale {
    ZhCn,
    ZhTw,
    En,
}

/// One category of a day's statistics, as shown in the report's locale.
pub struct CategoryLine {
    /// Localized category name.
    pub label: String,
    /// Localized duration text.
    pub duration_text: String,
    /// Share of the day's recorded time in percent, rounded to the nearest integer.
    pub share_rounded: i32,
    /// Share of the day's recorded time in percent, rounded toward zero.
    pub share_truncated: i32,
}

/// One application of a day's statistics.
pub struct AppLine {
    pub app_name: String,
    /// Localized duration text.
    pub duration_text: String,
}

/// One website of a day's statistics.
pub struct DomainLine {
    pub domain: String,
    /// The website's semantic category as recorded (may be blank).
    pub semantic_category: Option<String>,
    /// Localized name of the trimmed semantic category.
    pub semantic_label: String,
    /// Localized duration text.
    pub duration_text: String,
}

/// Activity within one hour of the day.
pub struct HourLine {
    pub hour: i32,
    /// Recorded seconds in this hour.
    pub duration: i64,
    /// Localized duration text.
    pub duration_text: String,
}

/// A day's statistics, prepared for one locale: every duration comes with its localized
/// text and every category with its localized name.
pub struct ReportStats {
    /// Localized total recorded duration.
    pub total_duration_text: String,
    pub screenshot_count: i64,
    /// Categories, longest first.
    pub categories: Vec<CategoryLine>,
    /// Applications, longest first.
    pub apps: Vec<AppLine>,
    /// Websites, longest first.
    pub domains: Vec<DomainLine>,
    /// Hourly activity buckets.
    pub hours: Vec<HourLine>,
    /// The localized hourly activity summary, when the day has one.
    pub hourly_summary: Option<String>,
}

/// Locale text `cat_heading`.
pub open spec fn cat_heading(locale: AppLocale) -> Seq<char> {
    match locale {
        AppLocale::ZhCn => "## 时间分配\n\n"@,
        AppLocale::ZhTw => "## 時間分配\n\n"@,
        AppLocale::En => "## Time Allocation\n\n"@,
    }
}

fn cat_heading_str(locale: AppLocale) -> (r: &'static str)
    ensures
        r@ == cat_heading(locale),
{
    match locale {
        AppLocale::ZhCn => "## 时间分配\n\n",
        AppLocale::ZhTw => "## 時間分配\n\n",
        AppLocale::En => "## Time Allocation\n\n",
    }
}

/// Locale text `cat_table_header`.
pub open spec fn cat_table_header(locale: AppLocale) -> Seq<char> {
    match locale {
        AppLocale::ZhCn => "| 类别 | 时长 | 占比 |\n|:--|--:|--:|\n"@,
        AppLocale::ZhTw => "| 類別 | 時長 | 佔比 |\n|:--|--:|--:|\n"@,
        AppLocale::En => "| Category | Duration | Share |\n|:--|--:|--:|\n"@,
    }
}

fn cat_table_header_str(locale: AppLocale) -> (r: &'static str)
    ensures
        r@ == cat_table_header(locale),
{
    match locale {
        AppLocale::ZhCn => "| 类别 | 时长 | 占比 |\n|:--|--:|--:|\n",
        AppLocale::ZhTw => "| 類別 | 時長 | 佔比 |\n|:--|--:|--:|\n",
        AppLocale::En => "| Category | Duration | Share |\n|:--|--:|--:|\n",
    }
}

/// Locale text `cat_take_0`.
pub open spec fn cat_take_0(locale: AppLocale) -> Seq<char> {
    match locale {
        AppLocale::ZhCn => "> **短结论：** 主要时间集中在"@,
        AppLocale::ZhTw => "> **短結論：** 主要時間集中在"@,
        AppLocale::En => "> **Takeaway:** Most tracked time went to "@,
    }
}

fn cat_take_0_str(locale: AppLocale) -> (r: &'static str)
    ensures
        r@ == cat_take_0(locale),
{
    match locale {
        AppLocale::ZhCn => "> **短结论：** 主要时间集中在",
        AppLocale::ZhTw => "> **短結論：** 主要時間集中在",
        AppLocale::En => "> **Takeaway:** Most tracked time went to ",
    }
}

/// Locale text `cat_take_1`.
pub open spec fn cat_take_1(locale: AppLocale) -> Seq<char> {
    match locale {
        AppLocale::ZhCn => "，累计"@,
        AppLocale::ZhTw => "，累計"@,
        AppLocale::En => ", totaling "@,
    }
}

fn cat_take_1_str(locale: AppLocale) -> (r: &'static str)
    ensures
        r@ == cat_take_1(locale),
{
    match locale {
        AppLocale::ZhCn => "，累计",
        AppLocale::ZhTw => "，累計",
        AppLocale::En => ", totaling ",
    }
}

/// Locale text `cat_take_2`.
pub open spec fn cat_take_2(locale: AppLocale) -> Seq<char> {
    match locale {
        AppLocale::ZhCn => "，占总记录时长 "@,
        AppLocale::ZhTw => "，佔總記錄時長 "@,
        AppLocale::En => " ("@,
    }
}

fn cat_take_2_str(locale: AppLocale) -> (r: &'static str)
    ensures
        r@ == cat_take_2(locale),
{
    match locale {
        AppLocale::ZhCn => "，占总记录时长 ",
        AppLocale::ZhTw => "，佔總記錄時長 ",
        AppLocale::En => " (",
    }
}

/// Locale text `cat_take_3`.
pub open spec fn cat_take_3(locale: AppLocale) -> Seq<char> {
    match locale {
        AppLocale::ZhCn => "%。\n\n"@,
        AppLocale::ZhTw => "%。\n\n"@,
        AppLocale::En => "% of the recorded day).\n\n"@,
    }
}

fn cat_take_3_str(locale: AppLocale) -> (r: &'static str)
    ensures
        r@ == cat_take_3(locale),
{
    match locale {
        AppLocale::ZhCn => "%。\n\n",
        AppLocale::ZhTw => "%。\n\n",
        AppLocale::En => "% of the recorded day).\n\n",
    }
}

/// Locale text `app_heading`.
pub open spec fn app_heading(locale: AppLocale) -> Seq<char> {
    match locale {
        AppLocale::ZhCn => "## 应用使用明细\n\n"@,
        AppLocale::ZhTw => "## 應用使用明細\n\n"@,
        AppLocale::En => "## App Details\n\n"@,
    }
}

fn app_heading_str(locale: AppLocale) -> (r: &'static str)
    ensures
        r@ == app_heading(locale),
{
    match locale {
        AppLocale::ZhCn => "## 应用使用明细\n\n",
        AppLocale::ZhTw => "## 應用使用明細\n\n",
        AppLocale::En => "## App Details\n\n",
    }
}

/// Locale text `app_table_header`.
pub open spec fn app_table_header(locale: AppLocale) -> Seq<char> {
    match locale {
        AppLocale::ZhCn => "| 序号 | 应用名称 | 使用时长 |\n|--:|:--|--:|\n"@,
        AppLocale::ZhTw => "| 序號 | 應用名稱 | 使用時長 |\n|--:|:--|--:|\n"@,
        AppLocale::En => "| # | App | Duration |\n|--:|:--|--:|\n"@,
    }
}

fn app_table_header_str(locale: AppLocale) -> (r: &'static str)
    ensures
        r@ == app_table_header(locale),
{
    match locale {
        AppLocale::ZhCn => "| 序号 | 应用名称 | 使用时长 |\n|--:|:--|--:|\n",
        AppLocale::ZhTw => "| 序號 | 應用名稱 | 使用時長 |\n|--:|:--|--:|\n",
        AppLocale::En => "| # | App | Duration |\n|--:|:--|--:|\n",
    }
}

/// Locale text `app_take_0`.
pub open spec fn app_take_0(locale: AppLocale) -> Seq<char> {
    match locale {
        AppLocale::ZhCn => "> **短结论：** 使用最久的应用是 "@,
        AppLocale::ZhTw => "> **短結論：** 使用最久的應用是 "@,
        AppLocale::En => "> **Takeaway:** The most-used app was "@,
    }
}

fn app_take_0_str(locale: AppLocale) -> (r: &'static str)
    ensures
        r@ == app_take_0(locale),
{
    match locale {
        AppLocale::ZhCn => "> **短结论：** 使用最久的应用是 ",
        AppLocale::ZhTw => "> **短結論：** 使用最久的應用是 ",
        AppLocale::En => "> **Takeaway:** The most-used app was ",
    }
}

/// Locale text `app_take_1`.
pub open spec fn app_take_1(locale: AppLocale) -> Seq<char> {
    match locale {
        AppLocale::ZhCn => "，累计"@,
        AppLocale::ZhTw => "，累計"@,
        AppLocale::En => ", totaling "@,
    }
}

fn app_take_1_str(locale: AppLocale) -> (r: &'static str)
    ensures
        r@ == app_take_1(locale),
{
    match locale {
        AppLocale::ZhCn => "，累计",
        AppLocale::ZhTw => "，累計",
        AppLocale::En => ", totaling ",
    }
}

/// Locale text `app_take_2`.
pub open spec fn app_take_2(locale: AppLocale) -> Seq<char> {
    match locale {
        AppLocale::ZhCn => "；今天共记录 "@,
        AppLocale::ZhTw => "；今天共記錄 "@,
        AppLocale::En => "; "@,
    }
}

fn app_take_2_str(locale: AppLocale) -> (r: &'static str)
    ensures
        r@ == app_take_2(locale),
{
    match locale {
        AppLocale::ZhCn => "；今天共记录 ",
        AppLocale::ZhTw => "；今天共記錄 ",
        AppLocale::En => "; ",
    }
}

/// Locale text `app_take_3`.
pub open spec fn app_take_3(locale: AppLocale) -> Seq<char> {
    match locale {
        AppLocale::ZhCn => " 个应用。\n\n"@,
        AppLocale::ZhTw => " 個應用。\n\n"@,
        AppLocale::En => " apps were recorded today.\n\n"@,
    }
}

fn app_take_3_str(locale: AppLocale) -> (r: &'static str)
    ensures
        r@ == app_take_3(locale),
{
    match locale {
        AppLocale::ZhCn => " 个应用。\n\n",
        AppLocale::ZhTw => " 個應用。\n\n",
        AppLocale::En => " apps were recorded today.\n\n",
    }
}

/// Locale text `hour_heading`.
pub open spec fn hour_heading(locale: AppLocale) -> Seq<char> {
    match locale {
        AppLocale::ZhCn => "## 按小时活跃度\n\n"@,
        AppLocale::ZhTw => "## 按小時活躍度\n\n"@,
        AppLocale::En => "## Hourly Activity\n\n"@,
    }
}

fn hour_heading_str(locale: AppLocale) -> (r: &'static str)
    ensures
        r@ == hour_heading(locale),
{
    match locale {
        AppLocale::ZhCn => "## 按小时活跃度\n\n",
        AppLocale::ZhTw => "## 按小時活躍度\n\n",
        AppLocale::En => "## Hourly Activity\n\n",
    }
}

/// Locale text `hour_take_0`.
pub open spec fn hour_take_0(locale: AppLocale) -> Seq<char> {
    match locale {
        AppLocale::ZhCn => "> **短结论：** 活跃高峰出现在"@,
        AppLocale::ZhTw => "> **短結論：** 活躍高峰出現在"@,
        AppLocale::En => "> **Takeaway:** Activity peaked at "@,
    }
}

fn hour_take_0_str(locale: AppLocale) -> (r: &'static str)
    ensures
        r@ == hour_take_0(locale),
{
    match locale {
        AppLocale::ZhCn => "> **短结论：** 活跃高峰出现在",
        AppLocale::ZhTw => "> **短結論：** 活躍高峰出現在",
        AppLocale::En => "> **Takeaway:** Activity peaked at ",
    }
}

/// Locale text `hour_take_1`.
pub open spec fn hour_take_1(locale: AppLocale) -> Seq<char> {
    match locale {
        AppLocale::ZhCn => "，该小时记录"@,
        AppLocale::ZhTw => "，該小時記錄"@,
        AppLocale::En => ", with "@,
    }
}

fn hour_take_1_str(locale: AppLocale) -> (r: &'static str)
    ensures
        r@ == hour_take_1(locale),
{
    match locale {
        AppLocale::ZhCn => "，该小时记录",
        AppLocale::ZhTw => "，該小時記錄",
        AppLocale::En => ", with ",
    }
}

/// Locale text `hour_take_2`.
pub open spec fn hour_take_2(locale: AppLocale) -> Seq<char> {
    match locale {
        AppLocale::ZhCn => "；全天共有 "@,
        AppLocale::ZhTw => "；全天共有 "@,
        AppLocale::En => " recorded in that hour across "@,
    }
}

fn hour_take_2_str(locale: AppLocale) -> (r: &'static str)
    ensures
        r@ == hour_take_2(locale),
{
    match locale {
        AppLocale::ZhCn => "；全天共有 ",
        AppLocale::ZhTw => "；全天共有 ",
        AppLocale::En => " recorded in that hour across ",
    }
}

/// Locale text `hour_take_3`.
pub open spec fn hour_take_3(locale: AppLocale) -> Seq<char> {
    match locale {
        AppLocale::ZhCn => " 个活跃小时。\n\n"@,
        AppLocale::ZhTw => " 個活躍小時。\n\n"@,
        AppLocale::En => " active hours.\n\n"@,
    }
}

fn hour_take_3_str(locale: AppLocale) -> (r: &'static str)
    ensures
        r@ == hour_take_3(locale),
{
    match locale {
        AppLocale::ZhCn => " 个活跃小时。\n\n",
        AppLocale::ZhTw => " 個活躍小時。\n\n",
        AppLocale::En => " active hours.\n\n",
    }
}

/// Locale text `dom_heading`.
pub open spec fn dom_heading(locale: AppLocale) -> Seq<char> {
    match locale {
        AppLocale::ZhCn => "## 网站访问明细\n\n"@,
        AppLocale::ZhTw => "## 網站造訪明細\n\n"@,
        AppLocale::En => "## Website Details\n\n"@,
    }
}

fn dom_heading_str(locale: AppLocale) -> (r: &'static str)
    ensures
        r@ == dom_heading(locale),
{
    match locale {
        AppLocale::ZhCn => "## 网站访问明细\n\n",
        AppLocale::ZhTw => "## 網站造訪明細\n\n",
        AppLocale::En => "## Website Details\n\n",
    }
}

/// Locale text `dom_table_header`.
pub open spec fn dom_table_header(locale: AppLocale) -> Seq<char> {
    match locale {
        AppLocale::ZhCn => "| 序号 | 网站域名 | 访问时长 |\n|--:|:--|--:|\n"@,
        AppLocale::ZhTw => "| 序號 | 網站網域 | 造訪時長 |\n|--:|:--|--:|\n"@,
        AppLocale::En => "| # | Domain | Duration |\n|--:|:--|--:|\n"@,
    }
}

fn dom_table_header_str(locale: AppLocale) -> (r: &'static str)
    ensures
        r@ == dom_table_header(locale),
{
    match locale {
        AppLocale::ZhCn => "| 序号 | 网站域名 | 访问时长 |\n|--:|:--|--:|\n",
        AppLocale::ZhTw => "| 序號 | 網站網域 | 造訪時長 |\n|--:|:--|--:|\n",
        AppLocale::En => "| # | Domain | Duration |\n|--:|:--|--:|\n",
    }
}

/// Locale text `dom_take_0`.
pub open spec fn dom_take_0(locale: AppLocale) -> Seq<char> {
    match locale {
        AppLocale::ZhCn => "> **短结论：** 访问时间最长的网站是 "@,
        AppLocale::ZhTw => "> **短結論：** 造訪時間最長的網站是 "@,
        AppLocale::En => "> **Takeaway:** The longest website visit was "@,
    }
}

fn dom_take_0_str(locale: AppLocale) -> (r: &'static str)
    ensures
        r@ == dom_take_0(locale),
{
    match locale {
        AppLocale::ZhCn => "> **短结论：** 访问时间最长的网站是 ",
        AppLocale::ZhTw => "> **短結論：** 造訪時間最長的網站是 ",
        AppLocale::En => "> **Takeaway:** The longest website visit was ",
    }
}

/// Locale text `dom_take_1`.
pub open spec fn dom_take_1(locale: AppLocale) -> Seq<char> {
    match locale {
        AppLocale::ZhCn => "，累计"@,
        AppLocale::ZhTw => "，累計"@,
        AppLocale::En => ", totaling "@,
    }
}

fn dom_take_1_str(locale: AppLocale) -> (r: &'static str)
    ensures
        r@ == dom_take_1(locale),
{
    match locale {
        AppLocale::ZhCn => "，累计",
        AppLocale::ZhTw => "，累計",
        AppLocale::En => ", totaling ",
    }
}

/// Locale text `dom_take_2`.
pub open spec fn dom_take_2(locale: AppLocale) -> Seq<char> {
    match locale {
        AppLocale::ZhCn => "；今天共记录 "@,
        AppLocale::ZhTw => "；今天共記錄 "@,
        AppLocale::En => "; "@,
    }
}

fn dom_take_2_str(locale: AppLocale) -> (r: &'static str)
    ensures
        r@ == dom_take_2(locale),
{
    match locale {
        AppLocale::ZhCn => "；今天共记录 ",
        AppLocale::ZhTw => "；今天共記錄 ",
        AppLocale::En => "; ",
    }
}

/// Locale text `dom_take_3`.
pub open spec fn dom_take_3(locale: AppLocale) -> Seq<char> {
    match locale {
        AppLocale::ZhCn => " 个网站。\n\n"@,
        AppLocale::ZhTw => " 個網站。\n\n"@,
        AppLocale::En => " websites were recorded today.\n\n"@,
    }
}

fn dom_take_3_str(locale: AppLocale) -> (r: &'static str)
    ensures
        r@ == dom_take_3(locale),
{
    match locale {
        AppLocale::ZhCn => " 个网站。\n\n",
        AppLocale::ZhTw => " 個網站。\n\n",
        AppLocale::En => " websites were recorded today.\n\n",
    }
}

/// Locale text `ov_heading`.
pub open spec fn ov_heading(locale: AppLocale) -> Seq<char> {
    match locale {
        AppLocale::ZhCn => "## 今日概览\n\n"@,
        AppLocale::ZhTw => "## 今日概覽\n\n"@,
        AppLocale::En => "## Overview\n\n"@,
    }
}

fn ov_heading_str(locale: AppLocale) -> (r: &'static str)
    ensures
        r@ == ov_heading(locale),
{
    match locale {
        AppLocale::ZhCn => "## 今日概览\n\n",
        AppLocale::ZhTw => "## 今日概覽\n\n",
        AppLocale::En => "## Overview\n\n",
    }
}

/// Locale text `ov_0`.
pub open spec fn ov_0(locale: AppLocale) -> Seq<char> {
    match locale {
        AppLocale::ZhCn => "- **总工作时长**: "@,
        AppLocale::ZhTw => "- **總工作時長**: "@,
        AppLocale::En => "- **Total work duration**: "@,
    }
}

fn ov_0_str(locale: AppLocale) -> (r: &'static str)
    ensures
        r@ == ov_0(locale),
{
    match locale {
        AppLocale::ZhCn => "- **总工作时长**: ",
        AppLocale::ZhTw => "- **總工作時長**: ",
        AppLocale::En => "- **Total work duration**: ",
    }
}

/// Locale text `ov_1`.
pub open spec fn ov_1(locale: AppLocale) -> Seq<char> {
    match locale {
        AppLocale::ZhCn => "\n- **截图数量**: "@,
        AppLocale::ZhTw => "\n- **截圖數量**: "@,
        AppLocale::En => "\n- **Screenshots**: "@,
    }
}

fn ov_1_str(locale: AppLocale) -> (r: &'static str)
    ensures
        r@ == ov_1(locale),
{
    match locale {
        AppLocale::ZhCn => "\n- **截图数量**: ",
        AppLocale::ZhTw => "\n- **截圖數量**: ",
        AppLocale::En => "\n- **Screenshots**: ",
    }
}

/// Locale text `ov_2`.
pub open spec fn ov_2(locale: AppLocale) -> Seq<char> {
    match locale {
        AppLocale::ZhCn => " 张\n- **使用应用**: "@,
        AppLocale::ZhTw => " 張\n- **使用應用**: "@,
        AppLocale::En => "\n- **Apps used**: "@,
    }
}

fn ov_2_str(locale: AppLocale) -> (r: &'static str)
    ensures
        r@ == ov_2(locale),
{
    match locale {
        AppLocale::ZhCn => " 张\n- **使用应用**: ",
        AppLocale::ZhTw => " 張\n- **使用應用**: ",
        AppLocale::En => "\n- **Apps used**: ",
    }
}

/// Locale text `ov_3`.
pub open spec fn ov_3(locale: AppLocale) -> Seq<char> {
    match locale {
        AppLocale::ZhCn => " 个\n"@,
        AppLocale::ZhTw => " 個\n"@,
        AppLocale::En => "\n"@,
    }
}

fn ov_3_str(locale: AppLocale) -> (r: &'static str)
    ensures
        r@ == ov_3(locale),
{
    match locale {
        AppLocale::ZhCn => " 个\n",
        AppLocale::ZhTw => " 個\n",
        AppLocale::En => "\n",
    }
}

/// Locale text `lcat_heading`.
pub open spec fn lcat_heading(locale: AppLocale) -> Seq<char> {
    match locale {
        AppLocale::ZhCn => "## 时间分配\n\n"@,
        AppLocale::ZhTw => "## 時間分配\n\n"@,
        AppLocale::En => "## Time allocation\n\n"@,
    }
}

fn lcat_heading_str(locale: AppLocale) -> (r: &'static str)
    ensures
        r@ == lcat_heading(locale),
{
    match locale {
        AppLocale::ZhCn => "## 时间分配\n\n",
        AppLocale::ZhTw => "## 時間分配\n\n",
        AppLocale::En => "## Time allocation\n\n",
    }
}

/// Locale text `lapp_heading`.
pub open spec fn lapp_heading(locale: AppLocale) -> Seq<char> {
    match locale {
        AppLocale::ZhCn => "## 应用使用情况\n\n"@,
        AppLocale::ZhTw => "## 應用使用情況\n\n"@,
        AppLocale::En => "## App usage\n\n"@,
    }
}

fn lapp_heading_str(locale: AppLocale) -> (r: &'static str)
    ensures
        r@ == lapp_heading(locale),
{
    match locale {
        AppLocale::ZhCn => "## 应用使用情况\n\n",
        AppLocale::ZhTw => "## 應用使用情況\n\n",
        AppLocale::En => "## App usage\n\n",
    }
}

/// Locale text `ldom_heading`.
pub open spec fn ldom_heading(locale: AppLocale) -> Seq<char> {
    match locale {
        AppLocale::ZhCn => "## 网站访问\n\n"@,
        AppLocale::ZhTw => "## 網站造訪\n\n"@,
        AppLocale::En => "## Website visits\n\n"@,
    }
}

fn ldom_heading_str(locale: AppLocale) -> (r: &'static str)
    ensures
        r@ == ldom_heading(locale),
{
    match locale {
        AppLocale::ZhCn => "## 网站访问\n\n",
        AppLocale::ZhTw => "## 網站造訪\n\n",
        AppLocale::En => "## Website visits\n\n",
    }
}

/// Locale text `label_open`.
pub open spec fn label_open(locale: AppLocale) -> Seq<char> {
    match locale {
        AppLocale::ZhCn => "（"@,
        AppLocale::ZhTw => "（"@,
        AppLocale::En => " ("@,
    }
}

fn label_open_str(locale: AppLocale) -> (r: &'static str)
    ensures
        r@ == label_open(locale),
{
    match locale {
        AppLocale::ZhCn => "（",
        AppLocale::ZhTw => "（",
        AppLocale::En => " (",
    }
}

/// Locale text `label_close`.
pub open spec fn label_close(locale: AppLocale) -> Seq<char> {
    match locale {
        AppLocale::ZhCn => "）"@,
        AppLocale::ZhTw => "）"@,
        AppLocale::En => ")"@,
    }
}

fn label_close_str(locale: AppLocale) -> (r: &'static str)
    ensures
        r@ == label_close(locale),
{
    match locale {
        AppLocale::ZhCn => "）",
        AppLocale::ZhTw => "）",
        AppLocale::En => ")",
    }
}

// ─────────── summary mode: category table ───────────

/// The one-line conclusion above the category table: the top category, its duration and share.
pub open spec fn category_takeaway(stats: ReportStats, l: AppLocale) -> Seq<char> {
    if stats.categories@.len() == 0 {
        seq![]
    } else {
        let c = stats.categories@[0];
        cat_take_0(l) + c.label@ + cat_take_1(l) + c.duration_text@ + cat_take_2(l) + int_text(
            c.share_rounded as int,
        ) + cat_take_3(l)
    }
}

/// One row of the category table.
pub open spec fn category_row(c: CategoryLine) -> Seq<char> {
    "| "@ + c.label@ + " | "@ + c.duration_text@ + " | "@ + int_text(c.share_rounded as int)
        + "% |\n"@
}

/// The rows of the category table.
pub open spec fn category_rows(cs: Seq<CategoryLine>) -> Seq<char>
    decreases cs.len(),
{
    if cs.len() == 0 {
        seq![]
    } else {
        category_rows(cs.drop_last()) + category_row(cs.last())
    }
}

/// What `render_category_table` gives.
pub open spec fn category_table_spec(stats: ReportStats, l: AppLocale) -> Seq<char> {
    if stats.categories@.len() == 0 {
        seq![]
    } else {
        cat_heading(l) + category_takeaway(stats, l) + cat_table_header(l) + category_rows(
            stats.categories@,
        ) + seq!['\n']
    }
}

/// The category table of summary mode: heading, conclusion, and one row per category.
/// Empty when there are no categories.
pub fn render_category_table(stats: &ReportStats, locale: AppLocale) -> (r: String)
    ensures
        r@ == category_table_spec(*stats, locale),
{
    let cs = &stats.categories;
    if cs.len() == 0 {
        return String::new();
    }
    let mut out = String::new();
    push_str(&mut out, cat_heading_str(locale));
    let top = &cs[0];
    push_str(&mut out, cat_take_0_str(locale));
    push_str(&mut out, top.label.as_str());
    push_str(&mut out, cat_take_1_str(locale));
    push_str(&mut out, top.duration_text.as_str());
    push_str(&mut out, cat_take_2_str(locale));
    push_i64(&mut out, top.share_rounded as i64);
    push_str(&mut out, cat_take_3_str(locale));
    push_str(&mut out, cat_table_header_str(locale));
    let ghost head = out@;
    assert(head =~= cat_heading(locale) + category_takeaway(*stats, locale) + cat_table_header(
        locale,
    ));
    let mut i: usize = 0;
    while i < cs.len()
        invariant
            i <= cs.len(),
            out@ == head + category_rows(cs@.take(i as int)),
        decreases cs.len() - i,
    {
        let c = &cs[i];
        let ghost before = out@;
        push_str(&mut out, "| ");
        push_str(&mut out, c.label.as_str());
        push_str(&mut out, " | ");
        push_str(&mut out, c.duration_text.as_str());
        push_str(&mut out, " | ");
        push_i64(&mut out, c.share_rounded as i64);
        push_str(&mut out, "% |\n");
        assert(cs@.take(i + 1).drop_last() =~= cs@.take(i as int));
        assert(out@ =~= before + category_row(cs@[i as int]));
        i = i + 1;
    }
    assert(cs@.take(cs.len() as int) =~= cs@);
    push_char(&mut out, '\n');
    out
}

// ─────────── summary mode: app table ───────────

/// The conclusion above the app table: the top app, its duration and the number of apps.
pub open spec fn app_takeaway(stats: ReportStats, l: AppLocale) -> Seq<char> {
    if stats.apps@.len() == 0 {
        seq![]
    } else {
        let a = stats.apps@[0];
        app_take_0(l) + a.app_name@ + app_take_1(l) + a.duration_text@ + app_take_2(l) + decimal(
            stats.apps@.len(),
        ) + app_take_3(l)
    }
}

/// Row `n` (counting from one) of the app table.
pub open spec fn app_row(n: nat, a: AppLine) -> Seq<char> {
    "| "@ + decimal(n) + " | "@ + a.app_name@ + " | "@ + a.duration_text@ + " |\n"@
}

/// The rows of the app table.
pub open spec fn app_rows(apps: Seq<AppLine>) -> Seq<char>
    decreases apps.len(),
{
    if apps.len() == 0 {
        seq![]
    } else {
        app_rows(apps.drop_last()) + app_row(apps.len(), apps.last())
    }
}

/// What `render_app_usage_table` gives.
pub open spec fn app_table_spec(stats: ReportStats, l: AppLocale) -> Seq<char> {
    if stats.apps@.len() == 0 {
        seq![]
    } else {
        app_heading(l) + app_takeaway(stats, l) + app_table_header(l) + app_rows(stats.apps@)
            + seq!['\n']
    }
}

/// The app table of summary mode: heading, conclusion, and one numbered row per app.
/// Empty when no app was recorded.
pub fn render_app_usage_table(stats: &ReportStats, locale: AppLocale) -> (r: String)
    ensures
        r@ == app_table_spec(*stats, locale),
{
    let apps = &stats.apps;
    if apps.len() == 0 {
        return String::new();
    }
    let mut out = String::new();
    push_str(&mut out, app_heading_str(locale));
    let top = &apps[0];
    push_str(&mut out, app_take_0_str(locale));
    push_str(&mut out, top.app_name.as_str());
    push_str(&mut out, app_take_1_str(locale));
    push_str(&mut out, top.duration_text.as_str());
    push_str(&mut out, app_take_2_str(locale));
    push_u64(&mut out, apps.len() as u64);
    push_str(&mut out, app_take_3_str(locale));
    push_str(&mut out, app_table_header_str(locale));
    let ghost head = out@;
    assert(head =~= app_heading(locale) + app_takeaway(*stats, locale) + app_table_header(locale));
    let mut i: usize = 0;
    while i < apps.len()
        invariant
            i <= apps.len(),
            out@ == head + app_rows(apps@.take(i as int)),
        decreases apps.len() - i,
    {
        let a = &apps[i];
        let ghost before = out@;
        push_str(&mut out, "| ");
        push_u64(&mut out, (i as u64) + 1);
        push_str(&mut out, " | ");
        push_str(&mut out, a.app_name.as_str());
        push_str(&mut out, " | ");
        push_str(&mut out, a.duration_text.as_str());
        push_str(&mut out, " |\n");
        assert(apps@.take(i + 1).drop_last() =~= apps@.take(i as int));
        assert(out@ =~= before + app_row((i + 1) as nat, apps@[i as int]));
        i = i + 1;
    }
    assert(apps@.take(apps.len() as int) =~= apps@);
    push_char(&mut out, '\n');
    out
}

// ─────────── summary mode: hourly activity ───────────

/// `b` wins over `c` as the peak hour: longer, or as long and not later.
pub open spec fn beats_peak(b: HourLine, c: HourLine) -> bool {
    b.duration > c.duration || (b.duration == c.duration && b.hour <= c.hour)
}

/// The peak among the active hours (duration above zero): the longest one, and among
/// equally long ones the earliest hour.
pub open spec fn peak_hour(hs: Seq<HourLine>) -> Option<HourLine>
    decreases hs.len(),
{
    if hs.len() == 0 {
        None
    } else {
        let p = peak_hour(hs.drop_last());
        let b = hs.last();
        if b.duration <= 0 {
            p
        } else {
            match p {
                None => Some(b),
                Some(c) => if beats_peak(b, c) {
                    Some(b)
                } else {
                    Some(c)
                },
            }
        }
    }
}

/// The number of hours with a duration above zero.
pub open spec fn active_hour_count(hs: Seq<HourLine>) -> nat
    decreases hs.len(),
{
    if hs.len() == 0 {
        0
    } else {
        active_hour_count(hs.drop_last()) + (if hs.last().duration > 0 {
            1nat
        } else {
            0nat
        })
    }
}

/// Two-digit, zero-padded text of `n < 100`.
pub open spec fn two_digits(n: int) -> Seq<char> {
    seq![digit_char((n / 10) as nat), digit_char((n % 10) as nat)]
}

/// `"HH:00-HH:00"` for the hour `hour` (clamped to 0..=23) and the hour after it.
pub open spec fn hour_range(hour: i32) -> Seq<char> {
    let start: int = if hour < 0 {
        0
    } else if hour > 23 {
        23
    } else {
        hour as int
    };
    let end = (start + 1) % 24;
    two_digits(start) + ":00-"@ + two_digits(end) + ":00"@
}

fn push_two_digits(out: &mut String, n: i32)
    requires
        0 <= n < 100,
    ensures
        final(out)@ == old(out)@ + two_digits(n as int),
{
    let tens: u8 = (n / 10) as u8;
    let ones: u8 = (n % 10) as u8;
    push_char(out, (48u8 + tens) as char);
    push_char(out, (48u8 + ones) as char);
}

/// The text of an hour range, as the hourly conclusion shows it.
pub fn format_hour_range_for_note(hour: i32) -> (r: String)
    ensures
        r@ == hour_range(hour),
{
    let start: i32 = if hour < 0 {
        0
    } else if hour > 23 {
        23
    } else {
        hour
    };
    let end = (start + 1) % 24;
    let mut out = String::new();
    push_two_digits(&mut out, start);
    push_str(&mut out, ":00-");
    push_two_digits(&mut out, end);
    push_str(&mut out, ":00");
    assert(out@ =~= hour_range(hour));
    out
}

/// The conclusion above the hourly summary: peak hour, its duration, number of active hours.
pub open spec fn hourly_takeaway(stats: ReportStats, l: AppLocale) -> Seq<char> {
    match peak_hour(stats.hours@) {
        None => seq![],
        Some(p) => hour_take_0(l) + hour_range(p.hour) + hour_take_1(l) + p.duration_text@
            + hour_take_2(l) + decimal(active_hour_count(stats.hours@)) + hour_take_3(l),
    }
}

/// The peak hour that the hourly takeaway names is the longest active hour, and the earliest
/// of equally long ones: it is one of the hours, it has time, no active hour has more, and an
/// active hour with as much time does not come before it. No hour is named exactly when no
/// hour has time.
pub proof fn lemma_peak_hour_is_longest(hs: Seq<HourLine>)
    ensures
        peak_hour(hs) is None <==> forall|i: int| 0 <= i < hs.len() ==> #[trigger] hs[i].duration <= 0,
        peak_hour(hs) matches Some(p) ==> p.duration > 0 && hs.contains(p),
        peak_hour(hs) matches Some(p) ==> forall|i: int|
            0 <= i < hs.len() && #[trigger] hs[i].duration > 0 ==> hs[i].duration <= p.duration && (hs[i].duration
                == p.duration ==> p.hour <= hs[i].hour),
    decreases hs.len(),
{
    if hs.len() > 0 {
        let rest = hs.drop_last();
        lemma_peak_hour_is_longest(rest);
        let b = hs.last();
        let n = rest.len() as int;
        assert(hs[n] == b);
        // what the shorter list says of its hours holds of the same hours here
        assert forall|i: int| 0 <= i < n implies #[trigger] hs[i] == rest[i] by {}
        if peak_hour(hs) is None {
            assert forall|i: int| 0 <= i < hs.len() implies #[trigger] hs[i].duration <= 0 by {
                if i < n {
                    assert(rest[i].duration <= 0);
                }
            }
        }
        if forall|i: int| 0 <= i < hs.len() ==> #[trigger] hs[i].duration <= 0 {
            assert(b.duration <= 0);
            assert forall|i: int| 0 <= i < n implies #[trigger] rest[i].duration <= 0 by {
                assert(hs[i].duration <= 0);
            }
        }
        match peak_hour(hs) {
            None => {},
            Some(p) => {
                if p == b {
                    assert(hs.contains(b));
                } else {
                    let c = peak_hour(rest)->Some_0;
                    assert(p == c);
                    let k = choose|k: int| 0 <= k < rest.len() && rest[k] == c;
                    assert(hs[k] == c);
                }
                assert forall|i: int|
                    0 <= i < hs.len() && #[trigger] hs[i].duration > 0 implies hs[i].duration <= p.duration
                        && (hs[i].duration == p.duration ==> p.hour <= hs[i].hour) by {
                    if i < n {
                        assert(rest[i].duration > 0);
                    }
                }
            },
        }
    }
}

/// The number of active hours that the hourly takeaway gives is the number of hours with
/// recorded time.
pub proof fn lemma_active_hour_count_counts_active_hours(hs: Seq<HourLine>)
    ensures
        active_hour_count(hs) == hs.filter(|h: HourLine| h.duration > 0).len(),
    decreases hs.len(),
{
    reveal(Seq::filter);
    if hs.len() > 0 {
        lemma_active_hour_count_counts_active_hours(hs.drop_last());
    }
}

proof fn lemma_active_count_bound(hs: Seq<HourLine>)
    ensures
        active_hour_count(hs) <= hs.len(),
    decreases hs.len(),
{
    if hs.len() > 0 {
        lemma_active_count_bound(hs.drop_last());
    }
}

/// Index of the peak hour and the number of active hours.
fn find_peak(hs: &Vec<HourLine>) -> (r: (Option<usize>, usize))
    ensures
        match r.0 {
            Some(i) => i < hs@.len() && peak_hour(hs@) == Some(hs@[i as int]),
            None => peak_hour(hs@) is None,
        },
        r.1 == active_hour_count(hs@),
{
    let mut best: Option<usize> = None;
    let mut count: usize = 0;
    let mut i: usize = 0;
    while i < hs.len()
        invariant
            i <= hs.len(),
            match best {
                Some(k) => k < i && peak_hour(hs@.take(i as int)) == Some(hs@[k as int]),
                None => peak_hour(hs@.take(i as int)) is None,
            },
            count == active_hour_count(hs@.take(i as int)),
        decreases hs.len() - i,
    {
        proof {
            assert(hs@.take(i + 1).drop_last() =~= hs@.take(i as int));
            lemma_active_count_bound(hs@.take(i as int));
        }
        let b = &hs[i];
        if b.duration > 0 {
            count = count + 1;
            match best {
                None => {
                    best = Some(i);
                },
                Some(k) => {
                    let c = &hs[k];
                    if b.duration > c.duration || (b.duration == c.duration && b.hour <= c.hour) {
                        best = Some(i);
                    }
                },
            }
        }
        i = i + 1;
    }
    assert(hs@.take(hs.len() as int) =~= hs@);
    (best, count)
}

/// What `render_hourly_summary` gives.
pub open spec fn hourly_summary_spec(stats: ReportStats, l: AppLocale) -> Seq<char> {
    match stats.hourly_summary {
        None => seq![],
        Some(h) => hour_heading(l) + hourly_takeaway(stats, l) + h@ + seq!['\n'],
    }
}

/// The hourly activity block: heading, conclusion, and the hourly summary text.
/// Empty when the day has no hourly summary.
pub fn render_hourly_summary(stats: &ReportStats, locale: AppLocale) -> (r: String)
    ensures
        r@ == hourly_summary_spec(*stats, locale),
{
    match &stats.hourly_summary {
        None => String::new(),
        Some(h) => {
            let mut out = String::new();
            push_str(&mut out, hour_heading_str(locale));
            let (best, count) = find_peak(&stats.hours);
            if let Some(k) = best {
                let p = &stats.hours[k];
                push_str(&mut out, hour_take_0_str(locale));
                let range = format_hour_range_for_note(p.hour);
                push_str(&mut out, range.as_str());
                push_str(&mut out, hour_take_1_str(locale));
                push_str(&mut out, p.duration_text.as_str());
                push_str(&mut out, hour_take_2_str(locale));
                push_u64(&mut out, count as u64);
                push_str(&mut out, hour_take_3_str(locale));
            }
            push_str(&mut out, h.as_str());
            push_char(&mut out, '\n');
            assert(out@ =~= hourly_summary_spec(*stats, locale));
            out
        },
    }
}

// ─────────── summary mode: website table ───────────

/// The website has a semantic category that is not blank.
pub open spec fn has_semantic(d: DomainLine) -> bool {
    match d.semantic_category {
        Some(s) => trim(s@).len() > 0,
        None => false,
    }
}

/// How a website is named in the report: the domain, followed by its semantic category
/// in brackets when it has one.
pub open spec fn domain_label(d: DomainLine, l: AppLocale) -> Seq<char> {
    if has_semantic(d) {
        d.domain@ + label_open(l) + d.semantic_label@ + label_close(l)
    } else {
        d.domain@
    }
}

fn push_domain_label(out: &mut String, d: &DomainLine, locale: AppLocale)
    ensures
        final(out)@ == old(out)@ + domain_label(*d, locale),
{
    let semantic = match &d.semantic_category {
        Some(s) => {
            let cv = chars_of(s.as_str());
            let t = trim_chars(cv.as_slice());
            t.len() > 0
        },
        None => false,
    };
    let ghost start = out@;
    push_str(out, d.domain.as_str());
    if semantic {
        push_str(out, label_open_str(locale));
        push_str(out, d.semantic_label.as_str());
        push_str(out, label_close_str(locale));
    }
    assert(out@ =~= start + domain_label(*d, locale));
}

/// The label of a website, as the report lists it.
pub fn format_domain_label_local(d: &DomainLine, locale: AppLocale) -> (r: String)
    ensures
        r@ == domain_label(*d, locale),
{
    let mut out = String::new();
    push_domain_label(&mut out, d, locale);
    out
}

/// The conclusion above the website table: top website, its duration, number of websites.
pub open spec fn domain_takeaway(stats: ReportStats, l: AppLocale) -> Seq<char> {
    if stats.domains@.len() == 0 {
        seq![]
    } else {
        let d = stats.domains@[0];
        dom_take_0(l) + domain_label(d, l) + dom_take_1(l) + d.duration_text@ + dom_take_2(l)
            + decimal(stats.domains@.len()) + dom_take_3(l)
    }
}

/// Row `n` (counting from one) of the website table.
pub open spec fn domain_row(n: nat, d: DomainLine, l: AppLocale) -> Seq<char> {
    "| "@ + decimal(n) + " | "@ + domain_label(d, l) + " | "@ + d.duration_text@ + " |\n"@
}

/// The rows of the website table.
pub open spec fn domain_rows(ds: Seq<DomainLine>, l: AppLocale) -> Seq<char>
    decreases ds.len(),
{
    if ds.len() == 0 {
        seq![]
    } else {
        domain_rows(ds.drop_last(), l) + domain_row(ds.len(), ds.last(), l)
    }
}

/// What `render_domain_usage_table` gives.
pub open spec fn domain_table_spec(stats: ReportStats, l: AppLocale) -> Seq<char> {
    if stats.domains@.len() == 0 {
        seq![]
    } else {
        dom_heading(l) + domain_takeaway(stats, l) + dom_table_header(l) + domain_rows(
            stats.domains@,
            l,
        ) + seq!['\n']
    }
}

/// The website table of summary mode. Empty when no website was recorded.
pub fn render_domain_usage_table(stats: &ReportStats, locale: AppLocale) -> (r: String)
    ensures
        r@ == domain_table_spec(*stats, locale),
{
    let ds = &stats.domains;
    if ds.len() == 0 {
        return String::new();
    }
    let mut out = String::new();
    push_str(&mut out, dom_heading_str(locale));
    let top = &ds[0];
    push_str(&mut out, dom_take_0_str(locale));
    push_domain_label(&mut out, top, locale);
    push_str(&mut out, dom_take_1_str(locale));
    push_str(&mut out, top.duration_text.as_str());
    push_str(&mut out, dom_take_2_str(locale));
    push_u64(&mut out, ds.len() as u64);
    push_str(&mut out, dom_take_3_str(locale));
    push_str(&mut out, dom_table_header_str(locale));
    let ghost head = out@;
    assert(head =~= dom_heading(locale) + domain_takeaway(*stats, locale) + dom_table_header(
        locale,
    ));
    let mut i: usize = 0;
    while i < ds.len()
        invariant
            i <= ds.len(),
            out@ == head + domain_rows(ds@.take(i as int), locale),
        decreases ds.len() - i,
    {
        let d = &ds[i];
        let ghost before = out@;
        push_str(&mut out, "| ");
        push_u64(&mut out, (i as u64) + 1);
        push_str(&mut out, " | ");
        push_domain_label(&mut out, d, locale);
        push_str(&mut out, " | ");
        push_str(&mut out, d.duration_text.as_str());
        push_str(&mut out, " |\n");
        assert(ds@.take(i + 1).drop_last() =~= ds@.take(i as int));
        assert(out@ =~= before + domain_row((i + 1) as nat, ds@[i as int], locale));
        i = i + 1;
    }
    assert(ds@.take(ds.len() as int) =~= ds@);
    push_char(&mut out, '\n');
    out
}

// ─────────── local mode ───────────

/// What `render_local_overview` gives.
pub open spec fn local_overview_spec(stats: ReportStats, l: AppLocale) -> Seq<char> {
    ov_heading(l) + ov_0(l) + stats.total_duration_text@ + ov_1(l) + int_text(
        stats.screenshot_count as int,
    ) + ov_2(l) + decimal(stats.apps@.len()) + ov_3(l)
}

/// The overview of local mode: total duration, screenshot count, number of apps.
pub fn render_local_overview(stats: &ReportStats, locale: AppLocale) -> (r: String)
    ensures
        r@ == local_overview_spec(*stats, locale),
{
    let mut out = String::new();
    push_str(&mut out, ov_heading_str(locale));
    push_str(&mut out, ov_0_str(locale));
    push_str(&mut out, stats.total_duration_text.as_str());
    push_str(&mut out, ov_1_str(locale));
    push_i64(&mut out, stats.screenshot_count);
    push_str(&mut out, ov_2_str(locale));
    push_u64(&mut out, stats.apps.len() as u64);
    push_str(&mut out, ov_3_str(locale));
    assert(out@ =~= local_overview_spec(*stats, locale));
    out
}

/// One item of the local category list.
pub open spec fn local_category_item(c: CategoryLine) -> Seq<char> {
    "- **"@ + c.label@ + "**: "@ + c.duration_text@ + " ("@ + int_text(c.share_truncated as int)
        + "%)\n"@
}

/// The items of the local category list.
pub open spec fn local_category_items(cs: Seq<CategoryLine>) -> Seq<char>
    decreases cs.len(),
{
    if cs.len() == 0 {
        seq![]
    } else {
        local_category_items(cs.drop_last()) + local_category_item(cs.last())
    }
}

/// What `render_local_category_list` gives.
pub open spec fn local_category_spec(stats: ReportStats, l: AppLocale) -> Seq<char> {
    if stats.categories@.len() == 0 {
        seq![]
    } else {
        lcat_heading(l) + local_category_items(stats.categories@)
    }
}

/// The time allocation list of local mode. Empty when there are no categories.
pub fn render_local_category_list(stats: &ReportStats, locale: AppLocale) -> (r: String)
    ensures
        r@ == local_category_spec(*stats, locale),
{
    let cs = &stats.categories;
    if cs.len() == 0 {
        return String::new();
    }
    let mut out = String::new();
    push_str(&mut out, lcat_heading_str(locale));
    let ghost head = out@;
    let mut i: usize = 0;
    while i < cs.len()
        invariant
            i <= cs.len(),
            out@ == head + local_category_items(cs@.take(i as int)),
        decreases cs.len() - i,
    {
        let c = &cs[i];
        let ghost before = out@;
        push_str(&mut out, "- **");
        push_str(&mut out, c.label.as_str());
        push_str(&mut out, "**: ");
        push_str(&mut out, c.duration_text.as_str());
        push_str(&mut out, " (");
        push_i64(&mut out, c.share_truncated as i64);
        push_str(&mut out, "%)\n");
        assert(cs@.take(i + 1).drop_last() =~= cs@.take(i as int));
        assert(out@ =~= before + local_category_item(cs@[i as int]));
        i = i + 1;
    }
    assert(cs@.take(cs.len() as int) =~= cs@);
    out
}

/// The number of list items local mode shows at most.
pub open spec fn local_limit(n: nat) -> int {
    if n < 5 {
        n as int
    } else {
        5
    }
}

/// Item `n` (counting from one) of the local app list.
pub open spec fn local_app_item(n: nat, a: AppLine) -> Seq<char> {
    decimal(n) + ". **"@ + a.app_name@ + "**: "@ + a.duration_text@ + "\n"@
}

/// The items of the local app list.
pub open spec fn local_app_items(apps: Seq<AppLine>) -> Seq<char>
    decreases apps.len(),
{
    if apps.len() == 0 {
        seq![]
    } else {
        local_app_items(apps.drop_last()) + local_app_item(apps.len(), apps.last())
    }
}

/// What `render_local_app_usage_list` gives.
pub open spec fn local_app_spec(stats: ReportStats, l: AppLocale) -> Seq<char> {
    if stats.apps@.len() == 0 {
        seq![]
    } else {
        lapp_heading(l) + local_app_items(stats.apps@.take(local_limit(stats.apps@.len())))
    }
}

/// The app list of local mode: the first five apps, numbered. Empty when no app was recorded.
pub fn render_local_app_usage_list(stats: &ReportStats, locale: AppLocale) -> (r: String)
    ensures
        r@ == local_app_spec(*stats, locale),
{
    let apps = &stats.apps;
    if apps.len() == 0 {
        return String::new();
    }
    let mut out = String::new();
    push_str(&mut out, lapp_heading_str(locale));
    let ghost head = out@;
    let limit: usize = if apps.len() < 5 {
        apps.len()
    } else {
        5
    };
    let mut i: usize = 0;
    while i < limit
        invariant
            i <= limit <= apps.len(),
            out@ == head + local_app_items(apps@.take(i as int)),
        decreases limit - i,
    {
        let a = &apps[i];
        let ghost before = out@;
        push_u64(&mut out, (i as u64) + 1);
        push_str(&mut out, ". **");
        push_str(&mut out, a.app_name.as_str());
        push_str(&mut out, "**: ");
        push_str(&mut out, a.duration_text.as_str());
        push_str(&mut out, "\n");
        assert(apps@.take(i + 1).drop_last() =~= apps@.take(i as int));
        assert(out@ =~= before + local_app_item((i + 1) as nat, apps@[i as int]));
        i = i + 1;
    }
    out
}

/// One item of the local website list.
pub open spec fn local_domain_item(d: DomainLine, l: AppLocale) -> Seq<char> {
    "- **"@ + domain_label(d, l) + "**: "@ + d.duration_text@ + "\n"@
}

/// The items of the local website list.
pub open spec fn local_domain_items(ds: Seq<DomainLine>, l: AppLocale) -> Seq<char>
    decreases ds.len(),
{
    if ds.len() == 0 {
        seq![]
    } else {
        local_domain_items(ds.drop_last(), l) + local_domain_item(ds.last(), l)
    }
}

/// What `render_local_domain_usage_list` gives.
pub open spec fn local_domain_spec(stats: ReportStats, l: AppLocale) -> Seq<char> {
    if stats.domains@.len() == 0 {
        seq![]
    } else {
        ldom_heading(l) + local_domain_items(
            stats.domains@.take(local_limit(stats.domains@.len())),
            l,
        )
    }
}

/// The website list of local mode: the first five websites. Empty when none was recorded.
pub fn render_local_domain_usage_list(stats: &ReportStats, locale: AppLocale) -> (r: String)
    ensures
        r@ == local_domain_spec(*stats, locale),
{
    let ds = &stats.domains;
    if ds.len() == 0 {
        return String::new();
    }
    let mut out = String::new();
    push_str(&mut out, ldom_heading_str(locale));
    let ghost head = out@;
    let limit: usize = if ds.len() < 5 {
        ds.len()
    } else {
        5
    };
    let mut i: usize = 0;
    while i < limit
        invariant
            i <= limit <= ds.len(),
            out@ == head + local_domain_items(ds@.take(i as int), locale),
        decreases limit - i,
    {
        let d = &ds[i];
        let ghost before = out@;
        push_str(&mut out, "- **");
        push_domain_label(&mut out, d, locale);
        push_str(&mut out, "**: ");
        push_str(&mut out, d.duration_text.as_str());
        push_str(&mut out, "\n");
        assert(ds@.take(i + 1).drop_last() =~= ds@.take(i as int));
        assert(out@ =~= before + local_domain_item(ds@[i as int], locale));
        i = i + 1;
    }
    out
}

} // verus!
