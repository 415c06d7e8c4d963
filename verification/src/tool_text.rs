//! The texts the statistics tools hand back to the model: rankings, category breakdowns,
//! period comparisons and the rule-based overview.
use vstd::prelude::*;
use crate::report_blocks::string_views;
use crate::stats::pairs_v;
use crate::text::{decimal, opt_str_view, push_char, push_str, push_u64, str_eq};
use crate::tools::{duration_compact, format_duration_compact};
use crate::tool_args::AggregateStatsArgs;

verus! {

broadcast use vstd::std_specs::vec::group_vec_axioms;

/// Lines joined with newlines.
pub open spec fn join_lines(lines: Seq<Seq<char>>) -> Seq<char>
    decreases lines.len(),
{
    if lines.len() == 0 {
        seq![]
    } else if lines.len() == 1 {
        lines[0]
    } else {
        join_lines(lines.drop_last()) + seq!['\n'] + lines.last()
    }
}

/// Joins lines with newlines (see `join_lines`).
pub fn join(lines: &Vec<String>) -> (r: String)
    ensures
        r@ == join_lines(string_views(lines@)),
{
    let ghost v = string_views(lines@);
    let mut out = String::new();
    let mut i: usize = 0;
    while i < lines.len()
        invariant
            i <= lines.len(),
            v == string_views(lines@),
            out@ == join_lines(v.take(i as int)),
        decreases lines.len() - i,
    {
        assert(v.take(i + 1).drop_last() =~= v.take(i as int));
        if i > 0 {
            push_str(&mut out, "\n");
            proof {
                reveal_strlit("\n");
                assert("\n"@ =~= seq!['\n']);
            }
        } else {
            assert(out@ =~= Seq::<char>::empty());
        }
        push_str(&mut out, lines[i].as_str());
        i = i + 1;
        assert(out@ =~= join_lines(v.take(i as int)));
    }
    assert(v.take(lines.len() as int) =~= v);
    out
}

/// Appends a line.
fn push_line(lines: &mut Vec<String>, l: String)
    ensures
        string_views(final(lines)@) == string_views(old(lines)@).push(l@),
{
    let ghost before = lines@;
    lines.push(l);
    assert(string_views(lines@) =~= string_views(before).push(l@));
}

/// Concatenates pieces into one string.
fn cat(parts: &[&str]) -> (r: String)
    ensures
        r@ == concat_all(parts@.map_values(|p: &str| p@)),
{
    let ghost pv = parts@.map_values(|p: &str| p@);
    let mut out = String::new();
    let mut i: usize = 0;
    while i < parts.len()
        invariant
            i <= parts.len(),
            pv == parts@.map_values(|p: &str| p@),
            out@ == concat_all(pv.take(i as int)),
        decreases parts.len() - i,
    {
        assert(pv.take(i + 1).drop_last() =~= pv.take(i as int));
        push_str(&mut out, parts[i]);
        i = i + 1;
    }
    assert(pv.take(parts.len() as int) =~= pv);
    out
}

/// Pieces concatenated.
pub open spec fn concat_all(parts: Seq<Seq<char>>) -> Seq<char>
    decreases parts.len(),
{
    if parts.len() == 0 {
        seq![]
    } else {
        concat_all(parts.drop_last()) + parts.last()
    }
}

/// The answer when a range holds no activity.
pub open spec fn no_records_spec(from: Seq<char>, to: Seq<char>) -> Seq<char> {
    "在 "@ + from + " ~ "@ + to + " 范围内无活动记录。"@
}

/// The answer when a range holds no activity (see `no_records_spec`).
pub fn no_records_text(from: &str, to: &str) -> (r: String)
    ensures
        r@ == no_records_spec(from@, to@),
{
    let r = cat(&["在 ", from, " ~ ", to, " 范围内无活动记录。"]);
    proof {
        reveal_with_fuel(concat_all, 6);
    }
    r
}

/// A ranking line: `  - name: duration`.
pub open spec fn rank_line(p: (Seq<char>, int)) -> Seq<char> {
    "  - "@ + p.0 + ": "@ + duration_compact(p.1)
}

/// A ranking line (see `rank_line`).
fn rank_line_exec(name: &str, dur: i64) -> (r: String)
    ensures
        r@ == rank_line((name@, dur as int)),
{
    let d = format_duration_compact(dur);
    let r = cat(&["  - ", name, ": ", d.as_str()]);
    proof {
        reveal_with_fuel(concat_all, 5);
    }
    r
}

/// The number of entries kept under a limit.
pub open spec fn kept(len: nat, limit: u64) -> int {
    if len <= limit {
        len as int
    } else {
        limit as int
    }
}

/// The application ranking of `aggregate_stats`: the header, the first `limit`
/// applications (already ordered) with their time, a rule, and the total.
pub open spec fn by_app_spec(from: Seq<char>, to: Seq<char>, apps: Seq<(Seq<char>, int)>, limit: u64, total: int) -> Seq<char> {
    join_lines(
        seq!["应用使用时长排名 ("@ + from + " ~ "@ + to + ")："@] + apps.take(kept(apps.len(), limit)).map_values(
            |p: (Seq<char>, int)| rank_line(p),
        ) + seq!["  ---"@, "  总计: "@ + duration_compact(total)],
    )
}

/// Appends one ranking line per entry, in order.
fn push_rank_lines(lines: &mut Vec<String>, items: &[(String, i64)], n: usize)
    requires
        n <= items.len(),
    ensures
        string_views(final(lines)@) == string_views(old(lines)@) + pairs_v(items@).take(n as int).map_values(
            |p: (Seq<char>, int)| rank_line(p),
        ),
{
    let ghost start = string_views(lines@);
    let ghost pv = pairs_v(items@);
    let mut i: usize = 0;
    while i < n
        invariant
            i <= n <= items.len(),
            pv == pairs_v(items@),
            string_views(lines@) == start + pv.take(i as int).map_values(|p: (Seq<char>, int)| rank_line(p)),
        decreases n - i,
    {
        push_line(lines, rank_line_exec(items[i].0.as_str(), items[i].1));
        assert(pv.take(i + 1).map_values(|p: (Seq<char>, int)| rank_line(p)) =~= pv.take(i as int).map_values(
            |p: (Seq<char>, int)| rank_line(p),
        ).push(rank_line(pv[i as int])));
        i = i + 1;
    }
}

/// The application ranking of `aggregate_stats` (see `by_app_spec`).
pub fn by_app_text(from: &str, to: &str, apps: &[(String, i64)], limit: u64, total: i64) -> (r: String)
    ensures
        r@ == by_app_spec(from@, to@, pairs_v(apps@), limit, total as int),
{
    let mut lines: Vec<String> = Vec::new();
    let header = cat(&["应用使用时长排名 (", from, " ~ ", to, ")："]);
    proof {
        reveal_with_fuel(concat_all, 6);
    }
    push_line(&mut lines, header);
    let n: usize = if (apps.len() as u64) <= limit {
        apps.len()
    } else {
        limit as usize
    };
    push_rank_lines(&mut lines, apps, n);
    push_line(&mut lines, "  ---".to_owned());
    let t = format_duration_compact(total);
    let mut tl = "  总计: ".to_owned();
    push_str(&mut tl, t.as_str());
    push_line(&mut lines, tl);
    let ghost want = seq!["应用使用时长排名 ("@ + from@ + " ~ "@ + to@ + ")："@] + pairs_v(apps@).take(
        kept(pairs_v(apps@).len(), limit),
    ).map_values(|p: (Seq<char>, int)| rank_line(p)) + seq!["  ---"@, "  总计: "@ + duration_compact(total as int)];
    assert(string_views(lines@) =~= want);
    join(&lines)
}

/// A category's share of the time: its name, its duration and its percentage as written.
pub struct Share {
    pub name: String,
    pub duration: i64,
    pub percent: String,
}

/// The view of a share.
pub open spec fn share_v(s: Share) -> (Seq<char>, int, Seq<char>) {
    (s.name@, s.duration as int, s.percent@)
}

/// The views of shares.
pub open spec fn shares_v(v: Seq<Share>) -> Seq<(Seq<char>, int, Seq<char>)> {
    v.map_values(|s: Share| share_v(s))
}

/// A share line: `{indent}- name: duration (percent%)`.
pub open spec fn share_line(indent: Seq<char>, s: (Seq<char>, int, Seq<char>)) -> Seq<char> {
    indent + "- "@ + s.0 + ": "@ + duration_compact(s.1) + " ("@ + s.2 + "%)"@
}

/// A share line (see `share_line`).
fn share_line_exec(indent: &str, s: &Share) -> (r: String)
    ensures
        r@ == share_line(indent@, share_v(*s)),
{
    let d = format_duration_compact(s.duration);
    let r = cat(&[indent, "- ", s.name.as_str(), ": ", d.as_str(), " (", s.percent.as_str(), "%)"]);
    proof {
        reveal_with_fuel(concat_all, 9);
    }
    r
}

/// Appends one share line per share, in order.
fn push_share_lines(lines: &mut Vec<String>, indent: &str, shares: &[Share])
    ensures
        string_views(final(lines)@) == string_views(old(lines)@) + shares_v(shares@).map_values(
            |s: (Seq<char>, int, Seq<char>)| share_line(indent@, s),
        ),
{
    let ghost start = string_views(lines@);
    let ghost sv = shares_v(shares@);
    let mut i: usize = 0;
    while i < shares.len()
        invariant
            i <= shares.len(),
            sv == shares_v(shares@),
            string_views(lines@) == start + sv.take(i as int).map_values(
                |s: (Seq<char>, int, Seq<char>)| share_line(indent@, s),
            ),
        decreases shares.len() - i,
    {
        push_line(lines, share_line_exec(indent, &shares[i]));
        assert(sv.take(i + 1).map_values(|s: (Seq<char>, int, Seq<char>)| share_line(indent@, s)) =~= sv.take(
            i as int,
        ).map_values(|s: (Seq<char>, int, Seq<char>)| share_line(indent@, s)).push(share_line(indent@, sv[i as int])));
        i = i + 1;
    }
    assert(sv.take(shares.len() as int) =~= sv);
}

/// The category breakdown of `aggregate_stats`: the header, one line per category (already
/// ordered), a rule, and the total.
pub open spec fn by_category_spec(from: Seq<char>, to: Seq<char>, cats: Seq<(Seq<char>, int, Seq<char>)>, total: int) -> Seq<char> {
    join_lines(
        seq!["分类使用时长 ("@ + from + " ~ "@ + to + ")："@] + cats.map_values(
            |s: (Seq<char>, int, Seq<char>)| share_line("  "@, s),
        ) + seq!["  ---"@, "  总计: "@ + duration_compact(total)],
    )
}

/// The category breakdown of `aggregate_stats` (see `by_category_spec`).
pub fn by_category_text(from: &str, to: &str, cats: &[Share], total: i64) -> (r: String)
    ensures
        r@ == by_category_spec(from@, to@, shares_v(cats@), total as int),
{
    let mut lines: Vec<String> = Vec::new();
    let header = cat(&["分类使用时长 (", from, " ~ ", to, ")："]);
    proof {
        reveal_with_fuel(concat_all, 6);
    }
    push_line(&mut lines, header);
    push_share_lines(&mut lines, "  ", cats);
    push_line(&mut lines, "  ---".to_owned());
    let t = format_duration_compact(total);
    let mut tl = "  总计: ".to_owned();
    push_str(&mut tl, t.as_str());
    push_line(&mut lines, tl);
    let ghost want = seq!["分类使用时长 ("@ + from@ + " ~ "@ + to@ + ")："@] + shares_v(cats@).map_values(
        |s: (Seq<char>, int, Seq<char>)| share_line("  "@, s),
    ) + seq!["  ---"@, "  总计: "@ + duration_compact(total as int)];
    assert(string_views(lines@) =~= want);
    join(&lines)
}

/// Items joined with a separator.
pub open spec fn join_with(items: Seq<Seq<char>>, sep: Seq<char>) -> Seq<char>
    decreases items.len(),
{
    if items.len() == 0 {
        seq![]
    } else if items.len() == 1 {
        items[0]
    } else {
        join_with(items.drop_last(), sep) + sep + items.last()
    }
}

/// A top-application entry of the overview: `name(duration)`.
pub open spec fn top_entry(p: (Seq<char>, int)) -> Seq<char> {
    p.0 + "("@ + duration_compact(p.1) + ")"@
}

/// The overview of `aggregate_stats`: the total, the three most used applications, and
/// the category breakdown.
pub open spec fn summary_spec(
    from: Seq<char>,
    to: Seq<char>,
    total: int,
    apps: Seq<(Seq<char>, int)>,
    cats: Seq<(Seq<char>, int, Seq<char>)>,
) -> Seq<char> {
    join_lines(
        seq![
            "时间总览 ("@ + from + " ~ "@ + to + ")："@,
            "  总活动时长: "@ + duration_compact(total),
            "  最多使用: "@ + join_with(
                apps.take(kept(apps.len(), 3)).map_values(|p: (Seq<char>, int)| top_entry(p)),
                ", "@,
            ),
            ""@,
            "  分类分布:"@,
        ] + cats.map_values(|s: (Seq<char>, int, Seq<char>)| share_line("    "@, s)),
    )
}

/// The top applications joined by `, `.
fn top_apps_text(apps: &[(String, i64)], n: usize) -> (r: String)
    requires
        n <= apps.len(),
    ensures
        r@ == join_with(pairs_v(apps@).take(n as int).map_values(|p: (Seq<char>, int)| top_entry(p)), ", "@),
{
    let ghost pv = pairs_v(apps@);
    let mut out = String::new();
    let mut i: usize = 0;
    while i < n
        invariant
            i <= n <= apps.len(),
            pv == pairs_v(apps@),
            out@ == join_with(pv.take(i as int).map_values(|p: (Seq<char>, int)| top_entry(p)), ", "@),
        decreases n - i,
    {
        let ghost items = pv.take(i as int).map_values(|p: (Seq<char>, int)| top_entry(p));
        let ghost next = pv.take(i + 1).map_values(|p: (Seq<char>, int)| top_entry(p));
        assert(next.drop_last() =~= items);
        if i > 0 {
            push_str(&mut out, ", ");
        } else {
            assert(out@ =~= Seq::<char>::empty());
        }
        let d = format_duration_compact(apps[i].1);
        push_str(&mut out, apps[i].0.as_str());
        push_str(&mut out, "(");
        push_str(&mut out, d.as_str());
        push_str(&mut out, ")");
        i = i + 1;
        assert(out@ =~= join_with(next, ", "@));
    }
    out
}

/// The overview of `aggregate_stats` (see `summary_spec`).
pub fn summary_text(from: &str, to: &str, total: i64, apps: &[(String, i64)], cats: &[Share]) -> (r: String)
    ensures
        r@ == summary_spec(from@, to@, total as int, pairs_v(apps@), shares_v(cats@)),
{
    let mut lines: Vec<String> = Vec::new();
    let header = cat(&["时间总览 (", from, " ~ ", to, ")："]);
    proof {
        reveal_with_fuel(concat_all, 6);
    }
    push_line(&mut lines, header);
    let t = format_duration_compact(total);
    let mut tl = "  总活动时长: ".to_owned();
    push_str(&mut tl, t.as_str());
    push_line(&mut lines, tl);
    let n: usize = if apps.len() <= 3 {
        apps.len()
    } else {
        3
    };
    let top = top_apps_text(apps, n);
    let mut top_line = "  最多使用: ".to_owned();
    push_str(&mut top_line, top.as_str());
    push_line(&mut lines, top_line);
    push_line(&mut lines, "".to_owned());
    push_line(&mut lines, "  分类分布:".to_owned());
    push_share_lines(&mut lines, "    ", cats);
    let ghost want = seq![
        "时间总览 ("@ + from@ + " ~ "@ + to@ + ")："@,
        "  总活动时长: "@ + duration_compact(total as int),
        "  最多使用: "@ + join_with(
            pairs_v(apps@).take(kept(pairs_v(apps@).len(), 3)).map_values(|p: (Seq<char>, int)| top_entry(p)),
            ", "@,
        ),
        ""@,
        "  分类分布:"@,
    ] + shares_v(cats@).map_values(|s: (Seq<char>, int, Seq<char>)| share_line("    "@, s));
    assert(string_views(lines@) =~= want);
    join(&lines)
}

/// The answer when no activity of the asked category is in the range (`所有` names every
/// category).
pub open spec fn category_empty_spec(from: Seq<char>, to: Seq<char>, name: Option<Seq<char>>) -> Seq<char> {
    "在 "@ + from + " ~ "@ + to + " 范围内未找到 '"@ + (match name {
        Some(n) => n,
        None => "所有"@,
    }) + "' 分类的活动记录。"@
}

/// The answer when no activity of the asked category is in the range (see
/// `category_empty_spec`).
pub fn category_empty_text(from: &str, to: &str, name: Option<&str>) -> (r: String)
    ensures
        r@ == category_empty_spec(from@, to@, match name {
            Some(n) => Some(n@),
            None => None,
        }),
{
    let n = match name {
        Some(n) => n,
        None => "所有",
    };
    let r = cat(&["在 ", from, " ~ ", to, " 范围内未找到 '", n, "' 分类的活动记录。"]);
    proof {
        reveal_with_fuel(concat_all, 8);
    }
    r
}

/// The answer of `aggregate_stats` once the activities are totalled: the empty-category
/// answer when no activity passed the filter, else the view the metric asks for
/// (`by_app`, `by_category`, or the overview for any other metric).
pub open spec fn aggregate_spec(
    a: AggregateStatsArgs,
    empty_name: Option<Seq<char>>,
    total: int,
    apps: Seq<(Seq<char>, int)>,
    cats: Seq<(Seq<char>, int, Seq<char>)>,
) -> Seq<char> {
    if apps.len() == 0 {
        category_empty_spec(a.date_from@, a.date_to@, empty_name)
    } else if a.metric@ == "by_app"@ {
        by_app_spec(a.date_from@, a.date_to@, apps, a.limit, total)
    } else if a.metric@ == "by_category"@ {
        by_category_spec(a.date_from@, a.date_to@, cats, total)
    } else {
        summary_spec(a.date_from@, a.date_to@, total, apps, cats)
    }
}

/// The answer of `aggregate_stats` from the application totals (ordered), the category
/// shares (ordered), and the total (see `aggregate_spec`); `empty_name` names the filtered
/// category for the empty answer.
pub fn aggregate_answer(
    a: &AggregateStatsArgs,
    empty_name: Option<&str>,
    total: i64,
    app_totals: &[(String, i64)],
    shares: &[Share],
) -> (r: String)
    ensures
        r@ == aggregate_spec(*a, opt_str_view(empty_name), total as int, pairs_v(app_totals@), shares_v(shares@)),
{
    if app_totals.len() == 0 {
        return category_empty_text(a.date_from.as_str(), a.date_to.as_str(), empty_name);
    }
    let from = a.date_from.as_str();
    let to = a.date_to.as_str();
    if str_eq(a.metric.as_str(), "by_app") {
        proof {
            reveal_strlit("by_app");
        }
        by_app_text(from, to, app_totals, a.limit, total)
    } else if str_eq(a.metric.as_str(), "by_category") {
        proof {
            reveal_strlit("by_app");
            reveal_strlit("by_category");
        }
        by_category_text(from, to, shares, total)
    } else {
        summary_text(from, to, total, app_totals, shares)
    }
}

/// `from ~ to` when both dates are given, otherwise `d`.
pub open spec fn range_or(from: Option<Seq<char>>, to: Option<Seq<char>>, d: Seq<char>) -> Seq<char> {
    match (from, to) {
        (Some(f), Some(t)) => f + " ~ "@ + t,
        _ => d,
    }
}

/// `from ~ to` when both dates are given, otherwise `d` (see `range_or`).
fn range_text(from: Option<&str>, to: Option<&str>, d: &str) -> (r: String)
    ensures
        r@ == range_or(opt_str_view(from), opt_str_view(to), d@),
{
    match (from, to) {
        (Some(f), Some(t)) => {
            let r = cat(&[f, " ~ ", t]);
            proof {
                reveal_with_fuel(concat_all, 4);
            }
            r
        },
        _ => d.to_owned(),
    }
}


/// The answer of `category_search` when the category has no activity in the range.
pub open spec fn category_search_empty_spec(name: Seq<char>, from: Option<Seq<char>>, to: Option<Seq<char>>) -> Seq<char> {
    "在 "@ + range_or(from, to, "指定范围"@) + " 范围内未找到 '"@ + name + "' 类别的活动记录。"@
}

/// The answer of `category_search` when the category has no activity in the range (see
/// `category_search_empty_spec`).
pub fn category_search_empty_text(name: &str, from: Option<&str>, to: Option<&str>) -> (r: String)
    ensures
        r@ == category_search_empty_spec(name@, opt_str_view(from), opt_str_view(to)),
{
    let range = range_text(from, to, "指定范围");
    let r = cat(&["在 ", range.as_str(), " 范围内未找到 '", name, "' 类别的活动记录。"]);
    proof {
        reveal_with_fuel(concat_all, 6);
    }
    r
}

/// The lines of one application in `category_search`: its time, then its window title
/// when it has one.
pub open spec fn app_entry_lines(e: (Seq<char>, int, Seq<char>)) -> Seq<Seq<char>> {
    if e.2.len() > 0 {
        seq![rank_line((e.0, e.1)), "    窗口: "@ + e.2]
    } else {
        seq![rank_line((e.0, e.1))]
    }
}

/// The lines of all applications, in order.
pub open spec fn app_entries_lines(es: Seq<(Seq<char>, int, Seq<char>)>) -> Seq<Seq<char>>
    decreases es.len(),
{
    if es.len() == 0 {
        seq![]
    } else {
        app_entries_lines(es.drop_last()) + app_entry_lines(es.last())
    }
}

/// The views of application entries.
pub open spec fn entries_v(v: Seq<(String, i64, String)>) -> Seq<(Seq<char>, int, Seq<char>)> {
    v.map_values(|e: (String, i64, String)| (e.0@, e.1 as int, e.2@))
}

/// The answer of `category_search`: the category and range, the number of records and the
/// total time, then each application (already ordered and limited) with its time and a
/// window title.
pub open spec fn category_search_spec(
    name: Seq<char>,
    from: Option<Seq<char>>,
    to: Option<Seq<char>>,
    count: nat,
    total: int,
    entries: Seq<(Seq<char>, int, Seq<char>)>,
) -> Seq<char> {
    join_lines(
        seq![
            name + " 类别活动（"@ + range_or(from, to, "全部"@) + "）："@,
            "  共 "@ + decimal(count) + " 条记录，总时长 "@ + duration_compact(total),
            ""@,
        ] + app_entries_lines(entries),
    )
}

/// The answer of `category_search` (see `category_search_spec`).
pub fn category_search_text(
    name: &str,
    from: Option<&str>,
    to: Option<&str>,
    count: u64,
    total: i64,
    entries: &[(String, i64, String)],
) -> (r: String)
    ensures
        r@ == category_search_spec(name@, opt_str_view(from), opt_str_view(to), count as nat, total as int, entries_v(entries@)),
{
    let mut lines: Vec<String> = Vec::new();
    let range = range_text(from, to, "全部");
    let header = cat(&[name, " 类别活动（", range.as_str(), "）："]);
    proof {
        reveal_with_fuel(concat_all, 5);
    }
    push_line(&mut lines, header);
    let mut second = "  共 ".to_owned();
    push_u64(&mut second, count);
    push_str(&mut second, " 条记录，总时长 ");
    let t = format_duration_compact(total);
    push_str(&mut second, t.as_str());
    push_line(&mut lines, second);
    push_line(&mut lines, "".to_owned());
    let ghost head = string_views(lines@);
    let ghost ev = entries_v(entries@);
    let mut i: usize = 0;
    while i < entries.len()
        invariant
            i <= entries.len(),
            ev == entries_v(entries@),
            string_views(lines@) == head + app_entries_lines(ev.take(i as int)),
        decreases entries.len() - i,
    {
        assert(ev.take(i + 1).drop_last() =~= ev.take(i as int));
        let ghost before = string_views(lines@);
        push_line(&mut lines, rank_line_exec(entries[i].0.as_str(), entries[i].1));
        if !entries[i].2.as_str().is_empty() {
            let mut w = "    窗口: ".to_owned();
            push_str(&mut w, entries[i].2.as_str());
            push_line(&mut lines, w);
        }
        assert(string_views(lines@) =~= before + app_entry_lines(ev[i as int]));
        i = i + 1;
    }
    assert(ev.take(entries.len() as int) =~= ev);
    let ghost want = seq![
        name@ + " 类别活动（"@ + range_or(opt_str_view(from), opt_str_view(to), "全部"@) + "）："@,
        "  共 "@ + decimal(count as nat) + " 条记录，总时长 "@ + duration_compact(total as int),
        ""@,
    ] + app_entries_lines(ev);
    assert(string_views(lines@) =~= want);
    join(&lines)
}

/// One intent of `analyze_intents`: its label, its duration, its percentage as written and
/// its number of sessions.
pub struct IntentRow {
    pub label: String,
    pub duration: i64,
    pub percent: String,
    pub sessions: u64,
}

/// A line of `analyze_intents`: `  - label: {whole hours}h (percent%) | {n}个session`.
pub open spec fn intent_line(r: IntentRow) -> Seq<char> {
    "  - "@ + r.label@ + ": "@ + crate::text::int_text(crate::tools::tdiv(r.duration as int, 3600)) + "h ("@
        + r.percent@ + "%) | "@ + decimal(r.sessions as nat) + "个session"@
}

/// The answer of `analyze_intents`: the range, then one line per intent.
pub open spec fn intents_spec(from: Seq<char>, to: Seq<char>, rows: Seq<IntentRow>) -> Seq<char> {
    join_lines(
        seq!["工作意图分布 ("@ + from + " ~ "@ + to + ")："@] + rows.map_values(|r: IntentRow| intent_line(r)),
    )
}

/// The answer of `analyze_intents` (see `intents_spec`).
pub fn intents_text(from: &str, to: &str, rows: &[IntentRow]) -> (r: String)
    ensures
        r@ == intents_spec(from@, to@, rows@),
{
    let mut lines: Vec<String> = Vec::new();
    let header = cat(&["工作意图分布 (", from, " ~ ", to, ")："]);
    proof {
        reveal_with_fuel(concat_all, 6);
    }
    push_line(&mut lines, header);
    let ghost head = string_views(lines@);
    let mut i: usize = 0;
    while i < rows.len()
        invariant
            i <= rows.len(),
            string_views(lines@) == head + rows@.take(i as int).map_values(|r: IntentRow| intent_line(r)),
        decreases rows.len() - i,
    {
        let r = &rows[i];
        let mut l = "  - ".to_owned();
        push_str(&mut l, r.label.as_str());
        push_str(&mut l, ": ");
        let (hours, _) = crate::tools::hours_minutes(r.duration);
        crate::text::push_i64(&mut l, hours);
        push_str(&mut l, "h (");
        push_str(&mut l, r.percent.as_str());
        push_str(&mut l, "%) | ");
        push_u64(&mut l, r.sessions);
        push_str(&mut l, "个session");
        push_line(&mut lines, l);
        assert(rows@.take(i + 1).map_values(|r: IntentRow| intent_line(r)) =~= rows@.take(i as int).map_values(
            |r: IntentRow| intent_line(r),
        ).push(intent_line(rows@[i as int])));
        i = i + 1;
    }
    assert(rows@.take(rows.len() as int) =~= rows@);
    assert(head =~= seq!["工作意图分布 ("@ + from@ + " ~ "@ + to@ + ")："@]);
    assert(string_views(lines@) =~= seq!["工作意图分布 ("@ + from@ + " ~ "@ + to@ + ")："@] + rows@.map_values(
        |r: IntentRow| intent_line(r),
    ));
    join(&lines)
}

/// A row of a period comparison: the category's name, its duration in each period, and
/// its change in percent as written.
pub struct TrendRow {
    pub name: String,
    pub before: i64,
    pub after: i64,
    pub percent: String,
}

/// `+` before a rise, nothing otherwise.
pub open spec fn sign(d: int) -> Seq<char> {
    if d > 0 {
        "+"@
    } else {
        ""@
    }
}

/// The line of one category in a comparison: both durations and the change when it is in
/// both periods, `新增` when only in the second, `消失` when only in the first, none when in
/// neither.
pub open spec fn trend_row_lines(r: TrendRow) -> Seq<Seq<char>> {
    let a = r.before as int;
    let b = r.after as int;
    if a == 0 && b == 0 {
        seq![]
    } else if a > 0 && b > 0 {
        seq!["    "@ + r.name@ + ": "@ + duration_compact(a) + " → "@ + duration_compact(b) + " ("@ + sign(b - a) + r.percent@ + "%)"@]
    } else if a == 0 {
        seq!["    "@ + r.name@ + ": 0 → "@ + duration_compact(b) + " (新增)"@]
    } else {
        seq!["    "@ + r.name@ + ": "@ + duration_compact(a) + " → 0 (消失)"@]
    }
}

/// The lines of all rows, in order.
pub open spec fn trend_rows_lines(rows: Seq<TrendRow>) -> Seq<Seq<char>>
    decreases rows.len(),
{
    if rows.len() == 0 {
        seq![]
    } else {
        trend_rows_lines(rows.drop_last()) + trend_row_lines(rows.last())
    }
}

/// How the change of the total is written: a rise with `+`, a drop with `-`, each followed
/// by the size of the change; no change as `0s`.
pub open spec fn total_change(d: int) -> Seq<char> {
    if d > 0 {
        "+"@ + duration_compact(d)
    } else if d < 0 {
        "-"@ + duration_compact(-d)
    } else {
        duration_compact(0)
    }
}

/// A non-negative duration in seconds, written compactly (see `duration_compact`).
fn compact_magnitude(seconds: u64) -> (r: String)
    ensures
        r@ == duration_compact(seconds as int),
{
    if seconds == 0 {
        return "0s".to_owned();
    }
    let h = seconds / 3600;
    let m = (seconds % 3600) / 60;
    let s = seconds % 60;
    let mut out = String::new();
    if h > 0 {
        push_u64(&mut out, h);
        push_char(&mut out, 'h');
        push_u64(&mut out, m);
        push_char(&mut out, 'm');
    } else if m > 0 {
        push_u64(&mut out, m);
        push_char(&mut out, 'm');
    } else {
        push_u64(&mut out, s);
        push_char(&mut out, 's');
    }
    assert(out@ =~= duration_compact(seconds as int));
    out
}

/// The line on the change of the total between two periods.
fn total_change_line(total_a: i64, total_b: i64, total_percent: &str) -> (r: String)
    ensures
        r@ == "  总时长变化: "@ + total_change(total_b - total_a) + " ("@ + sign(total_b - total_a)
            + total_percent@ + "%)"@,
{
    let delta: i128 = total_b as i128 - total_a as i128;
    let (sg, mark, size): (&str, &str, u64) = if delta > 0 {
        ("+", "+", delta as u64)
    } else if delta < 0 {
        ("", "-", (-delta) as u64)
    } else {
        ("", "", 0u64)
    };
    let d = compact_magnitude(size);
    let l = cat(&["  总时长变化: ", mark, d.as_str(), " (", sg, total_percent, "%)"]);
    proof {
        reveal_with_fuel(concat_all, 8);
        reveal_strlit("+");
        reveal_strlit("-");
        reveal_strlit("");
        assert(mark@ + d@ =~= total_change(total_b - total_a));
        assert(sg@ =~= sign(total_b - total_a));
    }
    l
}

/// The answer of `trend_comparison`: both periods with their totals, the change of the total
/// (when the first period has time), and the per-category comparison.
pub open spec fn trend_spec(
    a_from: Seq<char>,
    a_to: Seq<char>,
    b_from: Seq<char>,
    b_to: Seq<char>,
    total_a: int,
    total_b: int,
    total_percent: Seq<char>,
    rows: Seq<TrendRow>,
) -> Seq<char> {
    join_lines(
        seq![
            "时段对比："@,
            "  时段A: "@ + a_from + " ~ "@ + a_to + " ("@ + duration_compact(total_a) + ")"@,
            "  时段B: "@ + b_from + " ~ "@ + b_to + " ("@ + duration_compact(total_b) + ")"@,
            ""@,
        ] + (if total_a > 0 {
            seq![
                "  总时长变化: "@ + total_change(total_b - total_a) + " ("@ + sign(total_b - total_a)
                    + total_percent + "%)"@,
                ""@,
            ]
        } else {
            seq![]
        }) + seq!["  分类对比："@] + trend_rows_lines(rows),
    )
}

/// The lines of one comparison row (see `trend_row_lines`).
fn push_trend_row(lines: &mut Vec<String>, r: &TrendRow)
    ensures
        string_views(final(lines)@) == string_views(old(lines)@) + trend_row_lines(*r),
{
    let ghost start = string_views(lines@);
    if r.before == 0 && r.after == 0 {
    } else if r.before > 0 && r.after > 0 {
        let a = format_duration_compact(r.before);
        let b = format_duration_compact(r.after);
        let sg = if r.after - r.before > 0 {
            "+"
        } else {
            ""
        };
        let l = cat(&["    ", r.name.as_str(), ": ", a.as_str(), " → ", b.as_str(), " (", sg, r.percent.as_str(), "%)"]);
        proof {
            reveal_with_fuel(concat_all, 11);
        }
        push_line(lines, l);
    } else if r.before == 0 {
        let b = format_duration_compact(r.after);
        let l = cat(&["    ", r.name.as_str(), ": 0 → ", b.as_str(), " (新增)"]);
        proof {
            reveal_with_fuel(concat_all, 6);
        }
        push_line(lines, l);
    } else {
        let a = format_duration_compact(r.before);
        let l = cat(&["    ", r.name.as_str(), ": ", a.as_str(), " → 0 (消失)"]);
        proof {
            reveal_with_fuel(concat_all, 6);
        }
        push_line(lines, l);
    }
    assert(string_views(lines@) =~= start + trend_row_lines(*r));
}

/// The answer of `trend_comparison` (see `trend_spec`).
pub fn trend_text(
    a_from: &str,
    a_to: &str,
    b_from: &str,
    b_to: &str,
    total_a: i64,
    total_b: i64,
    total_percent: &str,
    rows: &[TrendRow],
) -> (r: String)
    ensures
        r@ == trend_spec(a_from@, a_to@, b_from@, b_to@, total_a as int, total_b as int, total_percent@, rows@),
{
    let mut lines: Vec<String> = Vec::new();
    push_line(&mut lines, "时段对比：".to_owned());
    let ta = format_duration_compact(total_a);
    let tb = format_duration_compact(total_b);
    let la = cat(&["  时段A: ", a_from, " ~ ", a_to, " (", ta.as_str(), ")"]);
    let lb = cat(&["  时段B: ", b_from, " ~ ", b_to, " (", tb.as_str(), ")"]);
    proof {
        reveal_with_fuel(concat_all, 8);
    }
    push_line(&mut lines, la);
    push_line(&mut lines, lb);
    push_line(&mut lines, "".to_owned());
    let ghost head = string_views(lines@);
    if total_a > 0 {
        let l = total_change_line(total_a, total_b, total_percent);
        push_line(&mut lines, l);
        push_line(&mut lines, "".to_owned());
    }
    push_line(&mut lines, "  分类对比：".to_owned());
    let ghost mid = string_views(lines@);
    let mut i: usize = 0;
    while i < rows.len()
        invariant
            i <= rows.len(),
            string_views(lines@) == mid + trend_rows_lines(rows@.take(i as int)),
        decreases rows.len() - i,
    {
        assert(rows@.take(i + 1).drop_last() =~= rows@.take(i as int));
        let ghost before = string_views(lines@);
        push_trend_row(&mut lines, &rows[i]);
        assert(string_views(lines@) =~= mid + trend_rows_lines(rows@.take(i + 1)));
        i = i + 1;
    }
    assert(rows@.take(rows.len() as int) =~= rows@);
    let ghost want = seq![
        "时段对比："@,
        "  时段A: "@ + a_from@ + " ~ "@ + a_to@ + " ("@ + duration_compact(total_a as int) + ")"@,
        "  时段B: "@ + b_from@ + " ~ "@ + b_to@ + " ("@ + duration_compact(total_b as int) + ")"@,
        ""@,
    ] + (if total_a > 0 {
        seq![
            "  总时长变化: "@ + total_change(total_b - total_a) + " ("@ + sign(total_b - total_a)
                + total_percent@ + "%)"@,
            ""@,
        ]
    } else {
        seq![]
    }) + seq!["  分类对比："@] + trend_rows_lines(rows@);
    assert(string_views(lines@) =~= want);
    join(&lines)
}

/// A duration as the rule-based overview writes it: hours and minutes, minutes alone, or
/// the seconds (all of them) when under a minute.
pub open spec fn overview_duration(s: int) -> Seq<char> {
    let h = crate::tools::tdiv(s, 3600);
    let m = crate::tools::tdiv(crate::tools::tmod(s, 3600), 60);
    if h > 0 {
        crate::text::int_text(h) + "h"@ + crate::text::int_text(m) + "m"@
    } else if m > 0 {
        crate::text::int_text(m) + "m"@
    } else {
        crate::text::int_text(s) + "s"@
    }
}

/// A duration as the rule-based overview writes it (see `overview_duration`).
pub fn overview_duration_text(s: i64) -> (r: String)
    ensures
        r@ == overview_duration(s as int),
{
    let (h, m) = crate::tools::hours_minutes(s);
    let mut out = String::new();
    if h > 0 {
        crate::text::push_i64(&mut out, h);
        push_str(&mut out, "h");
        crate::text::push_i64(&mut out, m);
        push_str(&mut out, "m");
    } else if m > 0 {
        crate::text::push_i64(&mut out, m);
        push_str(&mut out, "m");
    } else {
        crate::text::push_i64(&mut out, s);
        push_str(&mut out, "s");
    }
    assert(out@ =~= overview_duration(s as int));
    out
}

/// The English name of a category key; other keys stand for themselves.
pub open spec fn english_category(key: Seq<char>) -> Seq<char> {
    if key == "development"@ {
        "Development"@
    } else if key == "browser"@ {
        "Browser"@
    } else if key == "communication"@ {
        "Communication"@
    } else if key == "office"@ {
        "Office"@
    } else if key == "design"@ {
        "Design"@
    } else if key == "entertainment"@ {
        "Leisure"@
    } else if key == "other"@ {
        "Other"@
    } else {
        key
    }
}

/// The English name of a category key (see `english_category`).
pub fn english_category_name(key: &str) -> (r: String)
    ensures
        r@ == english_category(key@),
{
    if str_eq(key, "development") {
        "Development".to_owned()
    } else if str_eq(key, "browser") {
        "Browser".to_owned()
    } else if str_eq(key, "communication") {
        "Communication".to_owned()
    } else if str_eq(key, "office") {
        "Office".to_owned()
    } else if str_eq(key, "design") {
        "Design".to_owned()
    } else if str_eq(key, "entertainment") {
        "Leisure".to_owned()
    } else if str_eq(key, "other") {
        "Other".to_owned()
    } else {
        key.to_owned()
    }
}

/// An optional date, or the word for an open end.
pub open spec fn date_or(d: Option<Seq<char>>, word: Seq<char>) -> Seq<char> {
    match d {
        Some(x) => x,
        None => word,
    }
}

/// The rule-based answer when the range holds no activity, in Chinese or English.
pub open spec fn overview_empty_spec(zh: bool, from: Option<Seq<char>>, to: Option<Seq<char>>) -> Seq<char> {
    if zh {
        "在 "@ + date_or(from, "全部"@) + " ~ "@ + date_or(to, "今天"@) + " 范围内未找到活动记录。"@
    } else {
        "No activity records found in "@ + date_or(from, "All"@) + " ~ "@ + date_or(to, "Today"@) + "."@
    }
}

/// The rule-based answer when the range holds no activity (see `overview_empty_spec`); the
/// language follows the question (Chinese when it has CJK characters).
pub fn overview_empty_text(question: &str, from: Option<&str>, to: Option<&str>) -> (r: String)
    ensures
        r@ == overview_empty_spec(crate::orchestrator::has_cjk(question@), opt_str_view(from), opt_str_view(to)),
{
    let zh = crate::orchestrator::prefers_chinese_answer(question);
    let (all, today) = if zh {
        ("全部", "今天")
    } else {
        ("All", "Today")
    };
    let f = match from {
        Some(x) => x,
        None => all,
    };
    let t = match to {
        Some(x) => x,
        None => today,
    };
    let r = if zh {
        cat(&["在 ", f, " ~ ", t, " 范围内未找到活动记录。"])
    } else {
        cat(&["No activity records found in ", f, " ~ ", t, "."])
    };
    proof {
        reveal_with_fuel(concat_all, 6);
    }
    r
}

/// The labels of the overview, in Chinese or English: overview, records, categories, top
/// applications, related records.
pub open spec fn overview_labels(zh: bool) -> (Seq<char>, Seq<char>, Seq<char>, Seq<char>, Seq<char>) {
    if zh {
        ("活动总览"@, "条记录，总时长"@, "分类分布"@, "使用最多的应用"@, "相关记录"@)
    } else {
        ("Activity overview"@, "records, total"@, "Category breakdown"@, "Top apps"@, "Related records"@)
    }
}

/// A category line of the overview.
pub open spec fn overview_share_line(s: (Seq<char>, int, Seq<char>)) -> Seq<char> {
    "  - "@ + s.0 + ": "@ + overview_duration(s.1) + " ("@ + s.2 + "%)"@
}

/// An application line of the overview.
pub open spec fn overview_app_line(p: (Seq<char>, int)) -> Seq<char> {
    "  - "@ + p.0 + ": "@ + overview_duration(p.1)
}

/// A related record of the overview: date and title.
pub open spec fn related_line(r: (Seq<char>, Seq<char>)) -> Seq<char> {
    "- "@ + r.0 + " | "@ + r.1
}

/// The views of related records.
pub open spec fn related_v(v: Seq<(String, String)>) -> Seq<(Seq<char>, Seq<char>)> {
    v.map_values(|r: (String, String)| (r.0@, r.1@))
}

/// The rule-based overview of a range: the range, the number of records and the total,
/// the categories (already ordered, with their names and percentages), the five most used
/// applications (already ordered), and the related records when there are any.
pub open spec fn overview_spec(
    zh: bool,
    from: Option<Seq<char>>,
    to: Option<Seq<char>>,
    count: nat,
    total: int,
    cats: Seq<(Seq<char>, int, Seq<char>)>,
    apps: Seq<(Seq<char>, int)>,
    related: Seq<(Seq<char>, Seq<char>)>,
) -> Seq<char> {
    let l = overview_labels(zh);
    join_lines(
        seq![
            date_or(from, if zh {
                "全部"@
            } else {
                "All"@
            }) + " ~ "@ + date_or(to, if zh {
                "今天"@
            } else {
                "Today"@
            }) + " "@ + l.0 + "："@,
            decimal(count) + " "@ + l.1 + " "@ + overview_duration(total),
            ""@,
            l.2 + "："@,
        ] + cats.map_values(|s: (Seq<char>, int, Seq<char>)| overview_share_line(s)) + seq![""@, l.3 + "："@]
            + apps.take(kept(apps.len(), 5)).map_values(|p: (Seq<char>, int)| overview_app_line(p)) + (if related.len()
            > 0 {
            seq![""@, l.4 + "："@] + related.map_values(|r: (Seq<char>, Seq<char>)| related_line(r))
        } else {
            seq![]
        }),
    )
}

/// The rule-based overview of a range (see `overview_spec`); the language follows the
/// question.
pub fn overview_text(
    question: &str,
    from: Option<&str>,
    to: Option<&str>,
    count: u64,
    total: i64,
    cats: &[Share],
    apps: &[(String, i64)],
    related: &[(String, String)],
) -> (r: String)
    ensures
        r@ == overview_spec(
            crate::orchestrator::has_cjk(question@),
            opt_str_view(from),
            opt_str_view(to),
            count as nat,
            total as int,
            shares_v(cats@),
            pairs_v(apps@),
            related_v(related@),
        ),
{
    let zh = crate::orchestrator::prefers_chinese_answer(question);
    let (lo, lr, lc, lt, lrel, all, today) = if zh {
        ("活动总览", "条记录，总时长", "分类分布", "使用最多的应用", "相关记录", "全部", "今天")
    } else {
        ("Activity overview", "records, total", "Category breakdown", "Top apps", "Related records", "All", "Today")
    };
    let f = match from {
        Some(x) => x,
        None => all,
    };
    let t = match to {
        Some(x) => x,
        None => today,
    };
    let mut lines: Vec<String> = Vec::new();
    let first = cat(&[f, " ~ ", t, " ", lo, "："]);
    let mut second = String::new();
    push_u64(&mut second, count);
    let td = overview_duration_text(total);
    let second_rest = cat(&[" ", lr, " ", td.as_str()]);
    push_str(&mut second, second_rest.as_str());
    let third = cat(&[lc, "："]);
    proof {
        reveal_with_fuel(concat_all, 7);
    }
    let ghost l5 = overview_labels(zh);
    assert(first@ =~= date_or(opt_str_view(from), if zh {
        "全部"@
    } else {
        "All"@
    }) + " ~ "@ + date_or(opt_str_view(to), if zh {
        "今天"@
    } else {
        "Today"@
    }) + " "@ + l5.0 + "："@);
    assert(second@ =~= decimal(count as nat) + " "@ + l5.1 + " "@ + overview_duration(total as int));
    assert(third@ =~= l5.2 + "："@);
    push_line(&mut lines, first);
    push_line(&mut lines, second);
    push_line(&mut lines, "".to_owned());
    push_line(&mut lines, third);
    let ghost head = string_views(lines@);
    assert(head =~= seq![
        date_or(opt_str_view(from), if zh {
            "全部"@
        } else {
            "All"@
        }) + " ~ "@ + date_or(opt_str_view(to), if zh {
            "今天"@
        } else {
            "Today"@
        }) + " "@ + l5.0 + "："@,
        decimal(count as nat) + " "@ + l5.1 + " "@ + overview_duration(total as int),
        ""@,
        l5.2 + "："@,
    ]);
    let ghost cv = shares_v(cats@);
    let mut i: usize = 0;
    while i < cats.len()
        invariant
            i <= cats.len(),
            cv == shares_v(cats@),
            string_views(lines@) == head + cv.take(i as int).map_values(
                |s: (Seq<char>, int, Seq<char>)| overview_share_line(s),
            ),
        decreases cats.len() - i,
    {
        let c = &cats[i];
        let d = overview_duration_text(c.duration);
        let l = cat(&["  - ", c.name.as_str(), ": ", d.as_str(), " (", c.percent.as_str(), "%)"]);
        proof {
            reveal_with_fuel(concat_all, 8);
        }
        push_line(&mut lines, l);
        assert(cv.take(i + 1).map_values(|s: (Seq<char>, int, Seq<char>)| overview_share_line(s)) =~= cv.take(
            i as int,
        ).map_values(|s: (Seq<char>, int, Seq<char>)| overview_share_line(s)).push(overview_share_line(cv[i as int])));
        i = i + 1;
    }
    assert(cv.take(cats.len() as int) =~= cv);
    push_line(&mut lines, "".to_owned());
    let top = cat(&[lt, "："]);
    proof {
        reveal_with_fuel(concat_all, 3);
    }
    assert(top@ =~= l5.3 + "："@);
    push_line(&mut lines, top);
    let ghost mid = string_views(lines@);
    let ghost pv = pairs_v(apps@);
    let n: usize = if apps.len() <= 5 {
        apps.len()
    } else {
        5
    };
    let mut k: usize = 0;
    while k < n
        invariant
            k <= n <= apps.len(),
            pv == pairs_v(apps@),
            string_views(lines@) == mid + pv.take(k as int).map_values(|p: (Seq<char>, int)| overview_app_line(p)),
        decreases n - k,
    {
        let d = overview_duration_text(apps[k].1);
        let l = cat(&["  - ", apps[k].0.as_str(), ": ", d.as_str()]);
        proof {
            reveal_with_fuel(concat_all, 5);
        }
        push_line(&mut lines, l);
        assert(pv.take(k + 1).map_values(|p: (Seq<char>, int)| overview_app_line(p)) =~= pv.take(k as int).map_values(
            |p: (Seq<char>, int)| overview_app_line(p),
        ).push(overview_app_line(pv[k as int])));
        k = k + 1;
    }
    let ghost tail_start = string_views(lines@);
    assert(pv.take(n as int) =~= pv.take(kept(pv.len(), 5)));
    assert(mid =~= head + cv.map_values(|s: (Seq<char>, int, Seq<char>)| overview_share_line(s)) + seq![
        ""@,
        l5.3 + "："@,
    ]);
    let ghost rv = related_v(related@);
    if related.len() > 0 {
        push_line(&mut lines, "".to_owned());
        let rl = cat(&[lrel, "："]);
        proof {
            reveal_with_fuel(concat_all, 3);
        }
        assert(rl@ =~= l5.4 + "："@);
        push_line(&mut lines, rl);
        let ghost rstart = string_views(lines@);
        let mut j: usize = 0;
        while j < related.len()
            invariant
                j <= related.len(),
                rv == related_v(related@),
                string_views(lines@) == rstart + rv.take(j as int).map_values(|r: (Seq<char>, Seq<char>)| related_line(r)),
            decreases related.len() - j,
        {
            let l = cat(&["- ", related[j].0.as_str(), " | ", related[j].1.as_str()]);
            proof {
                reveal_with_fuel(concat_all, 5);
            }
            push_line(&mut lines, l);
            assert(rv.take(j + 1).map_values(|r: (Seq<char>, Seq<char>)| related_line(r)) =~= rv.take(j as int).map_values(
                |r: (Seq<char>, Seq<char>)| related_line(r),
            ).push(related_line(rv[j as int])));
            j = j + 1;
        }
        assert(rv.take(related.len() as int) =~= rv);
    }
    let ghost want = overview_spec(
        zh,
        opt_str_view(from),
        opt_str_view(to),
        count as nat,
        total as int,
        cv,
        pv,
        rv,
    );
    assert(string_views(lines@) =~= seq![
        date_or(opt_str_view(from), if zh {
            "全部"@
        } else {
            "All"@
        }) + " ~ "@ + date_or(opt_str_view(to), if zh {
            "今天"@
        } else {
            "Today"@
        }) + " "@ + overview_labels(zh).0 + "："@,
        decimal(count as nat) + " "@ + overview_labels(zh).1 + " "@ + overview_duration(total as int),
        ""@,
        overview_labels(zh).2 + "："@,
    ] + cv.map_values(|s: (Seq<char>, int, Seq<char>)| overview_share_line(s)) + seq![""@, overview_labels(zh).3 + "："@]
        + pv.take(kept(pv.len(), 5)).map_values(|p: (Seq<char>, int)| overview_app_line(p)) + (if rv.len() > 0 {
        seq![""@, overview_labels(zh).4 + "："@] + rv.map_values(|r: (Seq<char>, Seq<char>)| related_line(r))
    } else {
        seq![]
    }));
    join(&lines)
}

} // verus!
