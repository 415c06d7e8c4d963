//! Reading the arguments the model passes to each tool, with the errors the tools answer
//! when one is missing or names an unknown category.
use vstd::prelude::*;
use crate::json::{Json, JsonV, field, as_str, as_u64, json_field, json_as_str, json_as_u64};
use crate::text::{opt_string_view, push_str};
use crate::tools::{resolve_category_key, resolve_category_spec};

verus! {

/// The text argument `name`, when it is a string.
pub open spec fn str_arg(args: JsonV, name: Seq<char>) -> Option<Seq<char>> {
    as_str(field(args, name))
}

/// The error for a missing required argument.
pub open spec fn missing_arg(name: Seq<char>) -> Seq<char> {
    "缺少必需参数: "@ + name
}

/// The error for a category name that maps to no category.
pub open spec fn unknown_category(input: Seq<char>) -> Seq<char> {
    "无法识别的分类: '"@ + input + "'。支持: 开发/浏览器/通讯/办公/设计/娱乐/其他"@
}


/// A required text argument, or the error naming it.
pub fn required_str(args: &Json, name: &str) -> (r: Result<String, String>)
    ensures
        match r {
            Ok(s) => str_arg(args@, name@) == Some(s@),
            Err(e) => str_arg(args@, name@) is None && e@ == missing_arg(name@),
        },
{
    match json_as_str(json_field(Some(args), name)) {
        Some(s) => Ok(s.to_owned()),
        None => {
            let mut e = "缺少必需参数: ".to_owned();
            push_str(&mut e, name);
            Err(e)
        },
    }
}

/// An optional text argument.
pub fn optional_str(args: &Json, name: &str) -> (r: Option<String>)
    ensures
        opt_string_view(r) == str_arg(args@, name@),
{
    match json_as_str(json_field(Some(args), name)) {
        Some(s) => Some(s.to_owned()),
        None => None,
    }
}

/// A count argument: an unsigned integer, or the default.
pub open spec fn count_arg(args: JsonV, name: Seq<char>, default: u64) -> u64 {
    match as_u64(field(args, name)) {
        Some(n) => n,
        None => default,
    }
}

/// A count argument (see `count_arg`).
pub fn count(args: &Json, name: &str, default: u64) -> (r: u64)
    ensures
        r == count_arg(args@, name@, default),
{
    match json_as_u64(json_field(Some(args), name)) {
        Some(n) => n,
        None => default,
    }
}

/// The category key a name maps to, or the error that names it.
pub fn category_key_or_error(input: &str) -> (r: Result<String, String>)
    ensures
        match r {
            Ok(k) => resolve_category_spec(input@) == Some(k@),
            Err(e) => resolve_category_spec(input@) is None && e@ == unknown_category(input@),
        },
{
    match resolve_category_key(input) {
        Some(k) => Ok(k),
        None => {
            let mut e = "无法识别的分类: '".to_owned();
            push_str(&mut e, input);
            push_str(&mut e, "'。支持: 开发/浏览器/通讯/办公/设计/娱乐/其他");
            Err(e)
        },
    }
}

/// The arguments of `search_memory`.
pub struct SearchMemoryArgs {
    pub query: String,
    pub date_from: Option<String>,
    pub date_to: Option<String>,
}

/// Reads `search_memory`'s arguments: `query` is required, the dates are optional.
pub fn search_memory_args(args: &Json) -> (r: Result<SearchMemoryArgs, String>)
    ensures
        match r {
            Ok(a) => str_arg(args@, "query"@) == Some(a.query@) && opt_string_view(a.date_from) == str_arg(
                args@,
                "date_from"@,
            ) && opt_string_view(a.date_to) == str_arg(args@, "date_to"@),
            Err(e) => str_arg(args@, "query"@) is None && e@ == missing_arg("query"@),
        },
{
    let query = required_str(args, "query")?;
    Ok(SearchMemoryArgs { query, date_from: optional_str(args, "date_from"), date_to: optional_str(args, "date_to") })
}

/// A required date range.
pub struct DateRange {
    pub date_from: String,
    pub date_to: String,
}

/// Reads a required date range from the arguments `from` and `to`, in that order.
pub fn date_range_args(args: &Json, from: &str, to: &str) -> (r: Result<DateRange, String>)
    ensures
        match r {
            Ok(a) => str_arg(args@, from@) == Some(a.date_from@) && str_arg(args@, to@) == Some(a.date_to@),
            Err(e) => (str_arg(args@, from@) is None && e@ == missing_arg(from@)) || (str_arg(args@, from@) is Some
                && str_arg(args@, to@) is None && e@ == missing_arg(to@)),
        },
{
    let date_from = required_str(args, from)?;
    let date_to = required_str(args, to)?;
    Ok(DateRange { date_from, date_to })
}

/// The arguments of `aggregate_stats`.
pub struct AggregateStatsArgs {
    pub date_from: String,
    pub date_to: String,
    /// `by_app`, `by_category`, or the summary for anything else.
    pub metric: String,
    pub limit: u64,
    /// The category key to keep, when one is named.
    pub category: Option<String>,
}

/// Reads `aggregate_stats`'s arguments: both dates are required; the metric defaults to
/// `summary`, the limit to 10; a named category must map to a category key.
pub fn aggregate_stats_args(args: &Json) -> (r: Result<AggregateStatsArgs, String>)
    ensures
        match r {
            Ok(a) => {
                &&& str_arg(args@, "date_from"@) == Some(a.date_from@)
                &&& str_arg(args@, "date_to"@) == Some(a.date_to@)
                &&& a.metric@ == (match str_arg(args@, "metric"@) {
                    Some(m) => m,
                    None => "summary"@,
                })
                &&& a.limit == count_arg(args@, "limit"@, 10)
                &&& match str_arg(args@, "category"@) {
                    Some(c) => resolve_category_spec(c) == opt_string_view(a.category) && a.category is Some,
                    None => a.category is None,
                }
            },
            Err(e) => {
                ||| str_arg(args@, "date_from"@) is None && e@ == missing_arg("date_from"@)
                ||| str_arg(args@, "date_from"@) is Some && str_arg(args@, "date_to"@) is None && e@ == missing_arg(
                    "date_to"@,
                )
                ||| str_arg(args@, "date_from"@) is Some && str_arg(args@, "date_to"@) is Some && (str_arg(
                    args@,
                    "category"@,
                ) matches Some(c) && resolve_category_spec(c) is None && e@ == unknown_category(c))
            },
        },
{
    let range = date_range_args(args, "date_from", "date_to")?;
    let metric = match optional_str(args, "metric") {
        Some(m) => m,
        None => "summary".to_owned(),
    };
    let limit = count(args, "limit", 10);
    let category = match optional_str(args, "category") {
        Some(c) => Some(category_key_or_error(c.as_str())?),
        None => None,
    };
    Ok(AggregateStatsArgs { date_from: range.date_from, date_to: range.date_to, metric, limit, category })
}

/// The arguments of `category_search`.
pub struct CategorySearchArgs {
    /// The category as the model named it.
    pub category: String,
    /// The category key it maps to.
    pub key: String,
    pub date_from: Option<String>,
    pub date_to: Option<String>,
    pub limit: u64,
}

/// Reads `category_search`'s arguments: the category is required and must map to a key;
/// the dates are optional and the limit defaults to 20.
pub fn category_search_args(args: &Json) -> (r: Result<CategorySearchArgs, String>)
    ensures
        match r {
            Ok(a) => {
                &&& str_arg(args@, "category"@) == Some(a.category@)
                &&& resolve_category_spec(a.category@) == Some(a.key@)
                &&& opt_string_view(a.date_from) == str_arg(args@, "date_from"@)
                &&& opt_string_view(a.date_to) == str_arg(args@, "date_to"@)
                &&& a.limit == count_arg(args@, "limit"@, 20)
            },
            Err(e) => {
                ||| str_arg(args@, "category"@) is None && e@ == missing_arg("category"@)
                ||| str_arg(args@, "category"@) matches Some(c) && resolve_category_spec(c) is None && e@
                    == unknown_category(c)
            },
        },
{
    let category = required_str(args, "category")?;
    let date_from = optional_str(args, "date_from");
    let date_to = optional_str(args, "date_to");
    let limit = count(args, "limit", 20);
    let key = category_key_or_error(category.as_str())?;
    Ok(CategorySearchArgs { category, key, date_from, date_to, limit })
}

/// The arguments of `trend_comparison`: two required date ranges.
pub struct TrendArgs {
    pub a: DateRange,
    pub b: DateRange,
}

/// Reads `trend_comparison`'s arguments: all four dates are required, and the first one
/// missing (in the order `period_a_from`, `period_a_to`, `period_b_from`, `period_b_to`) is
/// the one the error names.
pub fn trend_args(args: &Json) -> (r: Result<TrendArgs, String>)
    ensures
        match r {
            Ok(t) => {
                &&& str_arg(args@, "period_a_from"@) == Some(t.a.date_from@)
                &&& str_arg(args@, "period_a_to"@) == Some(t.a.date_to@)
                &&& str_arg(args@, "period_b_from"@) == Some(t.b.date_from@)
                &&& str_arg(args@, "period_b_to"@) == Some(t.b.date_to@)
            },
            Err(e) => {
                ||| str_arg(args@, "period_a_from"@) is None && e@ == missing_arg("period_a_from"@)
                ||| str_arg(args@, "period_a_from"@) is Some && str_arg(args@, "period_a_to"@) is None && e@
                    == missing_arg("period_a_to"@)
                ||| str_arg(args@, "period_a_from"@) is Some && str_arg(args@, "period_a_to"@) is Some
                    && str_arg(args@, "period_b_from"@) is None && e@ == missing_arg("period_b_from"@)
                ||| str_arg(args@, "period_a_from"@) is Some && str_arg(args@, "period_a_to"@) is Some
                    && str_arg(args@, "period_b_from"@) is Some && str_arg(args@, "period_b_to"@) is None && e@
                    == missing_arg("period_b_to"@)
            },
        },
{
    let a = date_range_args(args, "period_a_from", "period_a_to")?;
    let b = date_range_args(args, "period_b_from", "period_b_to")?;
    Ok(TrendArgs { a, b })
}

} // verus!
