//! Daily report statistics blocks: marker wrapping, live re-rendering of saved
//! reports, block ordering, and section numbering.
use vstd::prelude::*;
use crate::report_render::{
    app_table_spec, category_table_spec, domain_table_spec, hourly_summary_spec, local_app_spec,
    local_category_spec, local_domain_spec, local_overview_spec, render_app_usage_table,
    render_category_table, render_domain_usage_table, render_hourly_summary,
    render_local_app_usage_list, render_local_category_list, render_local_domain_usage_list,
    render_local_overview, AppLocale, ReportStats,
};
use crate::text::{
    lemma_trim_nl_last,
    contains, lemma_contains_find, matches_at,
    decimal, push_char, push_str, push_u64, starts_with,
    find_from, find_spec, lemma_find_skip, lemma_find_spec, push_all, push_range, trim_newlines,
    trim_nl, trim_start_nl, trim_end_nl,
    all_ascii, ascii_upper_char, chars_of, is_ws, str_eq, string_of, to_upper, trim, trim_chars,
    trim_end, trim_start, upper_case,
};

verus! {

pub const BLOCK_CATEGORY_TABLE: &'static str = "CATEGORY_TABLE";
pub const BLOCK_APP_USAGE_TABLE: &'static str = "APP_USAGE_TABLE";
pub const BLOCK_HOURLY_SUMMARY: &'static str = "HOURLY_SUMMARY";
pub const BLOCK_DOMAIN_USAGE_TABLE: &'static str = "DOMAIN_USAGE_TABLE";
pub const BLOCK_AI_ANALYSIS: &'static str = "AI_ANALYSIS";
pub const BLOCK_LOCAL_OVERVIEW: &'static str = "LOCAL_OVERVIEW";
pub const BLOCK_LOCAL_CATEGORY: &'static str = "LOCAL_CATEGORY";
pub const BLOCK_LOCAL_APP_USAGE: &'static str = "LOCAL_APP_USAGE";
pub const BLOCK_LOCAL_DOMAIN_USAGE: &'static str = "LOCAL_DOMAIN_USAGE";

/// One independently rendered statistics block of a daily report.
#[derive(Clone, Copy, PartialEq, Eq, Structural, Debug, Hash)]
pub enum StatsBlock {
    /// summary mode: time allocation table
    CategoryTable,
    /// summary mode: app usage table
    AppUsageTable,
    /// summary and local mode: hourly activity
    HourlySummary,
    /// summary mode: website table
    DomainUsageTable,
    /// local mode: overview
    LocalOverview,
    /// local mode: time allocation list
    LocalCategory,
    /// local mode: app usage list
    LocalAppUsage,
    /// local mode: website list
    LocalDomainUsage,
}

/// The marker name of a block.
pub open spec fn name_of(b: StatsBlock) -> Seq<char> {
    match b {
        StatsBlock::CategoryTable => BLOCK_CATEGORY_TABLE@,
        StatsBlock::AppUsageTable => BLOCK_APP_USAGE_TABLE@,
        StatsBlock::HourlySummary => BLOCK_HOURLY_SUMMARY@,
        StatsBlock::DomainUsageTable => BLOCK_DOMAIN_USAGE_TABLE@,
        StatsBlock::LocalOverview => BLOCK_LOCAL_OVERVIEW@,
        StatsBlock::LocalCategory => BLOCK_LOCAL_CATEGORY@,
        StatsBlock::LocalAppUsage => BLOCK_LOCAL_APP_USAGE@,
        StatsBlock::LocalDomainUsage => BLOCK_LOCAL_DOMAIN_USAGE@,
    }
}

/// The block whose marker name is exactly `key`.
pub open spec fn block_for_key(key: Seq<char>) -> Option<StatsBlock> {
    if key == BLOCK_CATEGORY_TABLE@ {
        Some(StatsBlock::CategoryTable)
    } else if key == BLOCK_APP_USAGE_TABLE@ {
        Some(StatsBlock::AppUsageTable)
    } else if key == BLOCK_HOURLY_SUMMARY@ {
        Some(StatsBlock::HourlySummary)
    } else if key == BLOCK_DOMAIN_USAGE_TABLE@ {
        Some(StatsBlock::DomainUsageTable)
    } else if key == BLOCK_LOCAL_OVERVIEW@ {
        Some(StatsBlock::LocalOverview)
    } else if key == BLOCK_LOCAL_CATEGORY@ {
        Some(StatsBlock::LocalCategory)
    } else if key == BLOCK_LOCAL_APP_USAGE@ {
        Some(StatsBlock::LocalAppUsage)
    } else if key == BLOCK_LOCAL_DOMAIN_USAGE@ {
        Some(StatsBlock::LocalDomainUsage)
    } else {
        None
    }
}

/// What `parse_block_name` gives: the block named by the trimmed, uppercased input.
pub open spec fn parse_block_name_spec(name: Seq<char>) -> Option<StatsBlock> {
    block_for_key(upper_case(trim(name)))
}

impl StatsBlock {
    /// The marker name of this block (one of the `BLOCK_*` constants).
    pub fn block_name(&self) -> (r: &'static str)
        ensures
            r@ == name_of(*self),
    {
        match self {
            StatsBlock::CategoryTable => BLOCK_CATEGORY_TABLE,
            StatsBlock::AppUsageTable => BLOCK_APP_USAGE_TABLE,
            StatsBlock::HourlySummary => BLOCK_HOURLY_SUMMARY,
            StatsBlock::DomainUsageTable => BLOCK_DOMAIN_USAGE_TABLE,
            StatsBlock::LocalOverview => BLOCK_LOCAL_OVERVIEW,
            StatsBlock::LocalCategory => BLOCK_LOCAL_CATEGORY,
            StatsBlock::LocalAppUsage => BLOCK_LOCAL_APP_USAGE,
            StatsBlock::LocalDomainUsage => BLOCK_LOCAL_DOMAIN_USAGE,
        }
    }
}

/// Parses a block name (as an AI ordering returns it) back into a block:
/// surrounding whitespace is ignored and the comparison is case-insensitive.
pub fn parse_block_name(name: &str) -> (r: Option<StatsBlock>)
    ensures
        r == parse_block_name_spec(name@),
{
    let chars = chars_of(name);
    let trimmed = trim_chars(chars.as_slice());
    let trimmed_str = string_of(trimmed.as_slice());
    let key = to_upper(trimmed_str.as_str());
    let k = key.as_str();
    if str_eq(k, BLOCK_CATEGORY_TABLE) {
        Some(StatsBlock::CategoryTable)
    } else if str_eq(k, BLOCK_APP_USAGE_TABLE) {
        Some(StatsBlock::AppUsageTable)
    } else if str_eq(k, BLOCK_HOURLY_SUMMARY) {
        Some(StatsBlock::HourlySummary)
    } else if str_eq(k, BLOCK_DOMAIN_USAGE_TABLE) {
        Some(StatsBlock::DomainUsageTable)
    } else if str_eq(k, BLOCK_LOCAL_OVERVIEW) {
        Some(StatsBlock::LocalOverview)
    } else if str_eq(k, BLOCK_LOCAL_CATEGORY) {
        Some(StatsBlock::LocalCategory)
    } else if str_eq(k, BLOCK_LOCAL_APP_USAGE) {
        Some(StatsBlock::LocalAppUsage)
    } else if str_eq(k, BLOCK_LOCAL_DOMAIN_USAGE) {
        Some(StatsBlock::LocalDomainUsage)
    } else {
        None
    }
}

/// Default block order of summary mode.
pub fn default_summary_order() -> (r: Vec<StatsBlock>)
    ensures
        r@ == seq![
            StatsBlock::CategoryTable,
            StatsBlock::AppUsageTable,
            StatsBlock::HourlySummary,
            StatsBlock::DomainUsageTable,
        ],
{
    let mut v = Vec::new();
    v.push(StatsBlock::CategoryTable);
    v.push(StatsBlock::AppUsageTable);
    v.push(StatsBlock::HourlySummary);
    v.push(StatsBlock::DomainUsageTable);
    v
}

/// Default block order of local mode.
pub fn default_local_order() -> (r: Vec<StatsBlock>)
    ensures
        r@ == seq![
            StatsBlock::LocalOverview,
            StatsBlock::LocalCategory,
            StatsBlock::LocalAppUsage,
            StatsBlock::HourlySummary,
            StatsBlock::LocalDomainUsage,
        ],
{
    let mut v = Vec::new();
    v.push(StatsBlock::LocalOverview);
    v.push(StatsBlock::LocalCategory);
    v.push(StatsBlock::LocalAppUsage);
    v.push(StatsBlock::HourlySummary);
    v.push(StatsBlock::LocalDomainUsage);
    v
}


/// Every block name is plain uppercase ASCII without surrounding whitespace.
proof fn lemma_name_shape(b: StatsBlock)
    ensures
        trim(name_of(b)) == name_of(b),
        all_ascii(name_of(b)),
        name_of(b).map_values(|c: char| ascii_upper_char(c)) == name_of(b),
        name_of(b).len() > 0,
{
    reveal_strlit("CATEGORY_TABLE");
    reveal_strlit("APP_USAGE_TABLE");
    reveal_strlit("HOURLY_SUMMARY");
    reveal_strlit("DOMAIN_USAGE_TABLE");
    reveal_strlit("LOCAL_OVERVIEW");
    reveal_strlit("LOCAL_CATEGORY");
    reveal_strlit("LOCAL_APP_USAGE");
    reveal_strlit("LOCAL_DOMAIN_USAGE");
    let n = name_of(b);
    assert(!is_ws(n[0]));
    assert(trim_start(n) == n);
    assert(!is_ws(n.last()));
    assert(trim_end(n) == n);
    assert(n.map_values(|c: char| ascii_upper_char(c)) =~= n);
}

/// Block names are distinct: each names exactly its own block.
pub proof fn lemma_block_for_key_name(b: StatsBlock)
    ensures
        block_for_key(name_of(b)) == Some(b),
{
    reveal_strlit("CATEGORY_TABLE");
    reveal_strlit("APP_USAGE_TABLE");
    reveal_strlit("HOURLY_SUMMARY");
    reveal_strlit("DOMAIN_USAGE_TABLE");
    reveal_strlit("LOCAL_OVERVIEW");
    reveal_strlit("LOCAL_CATEGORY");
    reveal_strlit("LOCAL_APP_USAGE");
    reveal_strlit("LOCAL_DOMAIN_USAGE");
    assert(BLOCK_CATEGORY_TABLE@ != BLOCK_APP_USAGE_TABLE@) by {
        assert(BLOCK_CATEGORY_TABLE@.len() != BLOCK_APP_USAGE_TABLE@.len());
    }
    assert(BLOCK_CATEGORY_TABLE@ != BLOCK_HOURLY_SUMMARY@) by {
        assert(BLOCK_CATEGORY_TABLE@[0] != BLOCK_HOURLY_SUMMARY@[0]);
    }
    assert(BLOCK_CATEGORY_TABLE@ != BLOCK_DOMAIN_USAGE_TABLE@) by {
        assert(BLOCK_CATEGORY_TABLE@.len() != BLOCK_DOMAIN_USAGE_TABLE@.len());
    }
    assert(BLOCK_CATEGORY_TABLE@ != BLOCK_LOCAL_OVERVIEW@) by {
        assert(BLOCK_CATEGORY_TABLE@[0] != BLOCK_LOCAL_OVERVIEW@[0]);
    }
    assert(BLOCK_CATEGORY_TABLE@ != BLOCK_LOCAL_CATEGORY@) by {
        assert(BLOCK_CATEGORY_TABLE@[0] != BLOCK_LOCAL_CATEGORY@[0]);
    }
    assert(BLOCK_CATEGORY_TABLE@ != BLOCK_LOCAL_APP_USAGE@) by {
        assert(BLOCK_CATEGORY_TABLE@.len() != BLOCK_LOCAL_APP_USAGE@.len());
    }
    assert(BLOCK_CATEGORY_TABLE@ != BLOCK_LOCAL_DOMAIN_USAGE@) by {
        assert(BLOCK_CATEGORY_TABLE@.len() != BLOCK_LOCAL_DOMAIN_USAGE@.len());
    }
    assert(BLOCK_APP_USAGE_TABLE@ != BLOCK_HOURLY_SUMMARY@) by {
        assert(BLOCK_APP_USAGE_TABLE@.len() != BLOCK_HOURLY_SUMMARY@.len());
    }
    assert(BLOCK_APP_USAGE_TABLE@ != BLOCK_DOMAIN_USAGE_TABLE@) by {
        assert(BLOCK_APP_USAGE_TABLE@.len() != BLOCK_DOMAIN_USAGE_TABLE@.len());
    }
    assert(BLOCK_APP_USAGE_TABLE@ != BLOCK_LOCAL_OVERVIEW@) by {
        assert(BLOCK_APP_USAGE_TABLE@.len() != BLOCK_LOCAL_OVERVIEW@.len());
    }
    assert(BLOCK_APP_USAGE_TABLE@ != BLOCK_LOCAL_CATEGORY@) by {
        assert(BLOCK_APP_USAGE_TABLE@.len() != BLOCK_LOCAL_CATEGORY@.len());
    }
    assert(BLOCK_APP_USAGE_TABLE@ != BLOCK_LOCAL_APP_USAGE@) by {
        assert(BLOCK_APP_USAGE_TABLE@[0] != BLOCK_LOCAL_APP_USAGE@[0]);
    }
    assert(BLOCK_APP_USAGE_TABLE@ != BLOCK_LOCAL_DOMAIN_USAGE@) by {
        assert(BLOCK_APP_USAGE_TABLE@.len() != BLOCK_LOCAL_DOMAIN_USAGE@.len());
    }
    assert(BLOCK_HOURLY_SUMMARY@ != BLOCK_DOMAIN_USAGE_TABLE@) by {
        assert(BLOCK_HOURLY_SUMMARY@.len() != BLOCK_DOMAIN_USAGE_TABLE@.len());
    }
    assert(BLOCK_HOURLY_SUMMARY@ != BLOCK_LOCAL_OVERVIEW@) by {
        assert(BLOCK_HOURLY_SUMMARY@[0] != BLOCK_LOCAL_OVERVIEW@[0]);
    }
    assert(BLOCK_HOURLY_SUMMARY@ != BLOCK_LOCAL_CATEGORY@) by {
        assert(BLOCK_HOURLY_SUMMARY@[0] != BLOCK_LOCAL_CATEGORY@[0]);
    }
    assert(BLOCK_HOURLY_SUMMARY@ != BLOCK_LOCAL_APP_USAGE@) by {
        assert(BLOCK_HOURLY_SUMMARY@.len() != BLOCK_LOCAL_APP_USAGE@.len());
    }
    assert(BLOCK_HOURLY_SUMMARY@ != BLOCK_LOCAL_DOMAIN_USAGE@) by {
        assert(BLOCK_HOURLY_SUMMARY@.len() != BLOCK_LOCAL_DOMAIN_USAGE@.len());
    }
    assert(BLOCK_DOMAIN_USAGE_TABLE@ != BLOCK_LOCAL_OVERVIEW@) by {
        assert(BLOCK_DOMAIN_USAGE_TABLE@.len() != BLOCK_LOCAL_OVERVIEW@.len());
    }
    assert(BLOCK_DOMAIN_USAGE_TABLE@ != BLOCK_LOCAL_CATEGORY@) by {
        assert(BLOCK_DOMAIN_USAGE_TABLE@.len() != BLOCK_LOCAL_CATEGORY@.len());
    }
    assert(BLOCK_DOMAIN_USAGE_TABLE@ != BLOCK_LOCAL_APP_USAGE@) by {
        assert(BLOCK_DOMAIN_USAGE_TABLE@.len() != BLOCK_LOCAL_APP_USAGE@.len());
    }
    assert(BLOCK_DOMAIN_USAGE_TABLE@ != BLOCK_LOCAL_DOMAIN_USAGE@) by {
        assert(BLOCK_DOMAIN_USAGE_TABLE@[0] != BLOCK_LOCAL_DOMAIN_USAGE@[0]);
    }
    assert(BLOCK_LOCAL_OVERVIEW@ != BLOCK_LOCAL_CATEGORY@) by {
        assert(BLOCK_LOCAL_OVERVIEW@[6] != BLOCK_LOCAL_CATEGORY@[6]);
    }
    assert(BLOCK_LOCAL_OVERVIEW@ != BLOCK_LOCAL_APP_USAGE@) by {
        assert(BLOCK_LOCAL_OVERVIEW@.len() != BLOCK_LOCAL_APP_USAGE@.len());
    }
    assert(BLOCK_LOCAL_OVERVIEW@ != BLOCK_LOCAL_DOMAIN_USAGE@) by {
        assert(BLOCK_LOCAL_OVERVIEW@.len() != BLOCK_LOCAL_DOMAIN_USAGE@.len());
    }
    assert(BLOCK_LOCAL_CATEGORY@ != BLOCK_LOCAL_APP_USAGE@) by {
        assert(BLOCK_LOCAL_CATEGORY@.len() != BLOCK_LOCAL_APP_USAGE@.len());
    }
    assert(BLOCK_LOCAL_CATEGORY@ != BLOCK_LOCAL_DOMAIN_USAGE@) by {
        assert(BLOCK_LOCAL_CATEGORY@.len() != BLOCK_LOCAL_DOMAIN_USAGE@.len());
    }
    assert(BLOCK_LOCAL_APP_USAGE@ != BLOCK_LOCAL_DOMAIN_USAGE@) by {
        assert(BLOCK_LOCAL_APP_USAGE@.len() != BLOCK_LOCAL_DOMAIN_USAGE@.len());
    }
}

/// Parsing the marker name of a block gives that block back.
pub proof fn lemma_parse_block_name_round_trip(b: StatsBlock)
    ensures
        parse_block_name_spec(name_of(b)) == Some(b),
{
    lemma_name_shape(b);
    lemma_block_for_key_name(b);
}


/// A key names a block only when it is that block's marker name.
pub proof fn lemma_block_for_key_is_name(k: Seq<char>)
    ensures
        block_for_key(k) matches Some(b) ==> name_of(b) == k,
{
}

/// The character views of a list of strings.
pub open spec fn string_views(v: Seq<String>) -> Seq<Seq<char>> {
    v.map_values(|s: String| s@)
}

/// The pinned blocks, in the order of the pinned names: each name that is the marker of
/// a block present in `blocks` contributes that block (once per occurrence of the name).
pub open spec fn pinned_blocks(blocks: Seq<StatsBlock>, pinned: Seq<Seq<char>>) -> Seq<StatsBlock>
    decreases pinned.len(),
{
    if pinned.len() == 0 {
        seq![]
    } else {
        let prev = pinned_blocks(blocks, pinned.drop_last());
        match block_for_key(pinned.last()) {
            Some(b) => if blocks.contains(b) {
                prev.push(b)
            } else {
                prev
            },
            None => prev,
        }
    }
}

/// The blocks whose names are not pinned, in their original order.
pub open spec fn unpinned_blocks(blocks: Seq<StatsBlock>, pinned: Seq<Seq<char>>) -> Seq<StatsBlock>
    decreases blocks.len(),
{
    if blocks.len() == 0 {
        seq![]
    } else {
        let prev = unpinned_blocks(blocks.drop_last(), pinned);
        if pinned.contains(name_of(blocks.last())) {
            prev
        } else {
            prev.push(blocks.last())
        }
    }
}

/// Whether `v` holds the block `b`.
pub fn blocks_contain(v: &[StatsBlock], b: StatsBlock) -> (r: bool)
    ensures
        r == v@.contains(b),
{
    let mut i: usize = 0;
    while i < v.len()
        invariant
            i <= v.len(),
            forall|j: int| 0 <= j < i ==> v@[j] != b,
        decreases v.len() - i,
    {
        if v[i] == b {
            assert(v@[i as int] == b);
            return true;
        }
        i = i + 1;
    }
    false
}

/// Whether one of `names` is exactly `name`.
pub fn names_contain(names: &[String], name: &str) -> (r: bool)
    ensures
        r == string_views(names@).contains(name@),
{
    let ghost views = string_views(names@);
    let mut i: usize = 0;
    while i < names.len()
        invariant
            i <= names.len(),
            views == string_views(names@),
            forall|j: int| 0 <= j < i ==> views[j] != name@,
        decreases names.len() - i,
    {
        if str_eq(names[i].as_str(), name) {
            assert(views[i as int] == name@);
            return true;
        }
        i = i + 1;
    }
    false
}

/// The first block of `blocks` whose marker name is `name`.
fn find_named(blocks: &[StatsBlock], name: &str) -> (r: Option<StatsBlock>)
    ensures
        r == (match block_for_key(name@) {
            Some(b) => if blocks@.contains(b) {
                Some(b)
            } else {
                None
            },
            None => None,
        }),
{
    proof {
        lemma_block_for_key_is_name(name@);
    }
    let mut i: usize = 0;
    while i < blocks.len()
        invariant
            i <= blocks.len(),
            forall|j: int| 0 <= j < i ==> name_of(#[trigger] blocks@[j]) != name@,
        decreases blocks.len() - i,
    {
        let b = blocks[i];
        if str_eq(b.block_name(), name) {
            proof {
                lemma_block_for_key_name(b);
                assert(blocks@[i as int] == b);
            }
            return Some(b);
        }
        i = i + 1;
    }
    None
}

/// Reorders blocks by the user's pinned preference: blocks named in `pinned` come first,
/// in the order of `pinned`; the others follow in their original order. Hidden blocks are
/// kept (hiding is done where the report is shown).
pub fn apply_preferences(blocks: Vec<StatsBlock>, pinned: &[String]) -> (r: Vec<StatsBlock>)
    ensures
        r@ == pinned_blocks(blocks@, string_views(pinned@)) + unpinned_blocks(
            blocks@,
            string_views(pinned@),
        ),
{
    let ghost pv = string_views(pinned@);
    let mut out: Vec<StatsBlock> = Vec::new();
    let mut k: usize = 0;
    while k < pinned.len()
        invariant
            k <= pinned.len(),
            pv == string_views(pinned@),
            out@ == pinned_blocks(blocks@, pv.take(k as int)),
        decreases pinned.len() - k,
    {
        let found = find_named(blocks.as_slice(), pinned[k].as_str());
        assert(pv.take(k + 1).drop_last() =~= pv.take(k as int));
        if let Some(b) = found {
            out.push(b);
        }
        k = k + 1;
    }
    assert(pv.take(pinned.len() as int) =~= pv);
    let ghost head = out@;
    let mut i: usize = 0;
    while i < blocks.len()
        invariant
            i <= blocks.len(),
            pv == string_views(pinned@),
            head == pinned_blocks(blocks@, pv),
            out@ == head + unpinned_blocks(blocks@.take(i as int), pv),
        decreases blocks.len() - i,
    {
        let b = blocks[i];
        assert(blocks@.take(i + 1).drop_last() =~= blocks@.take(i as int));
        if !names_contain(pinned, b.block_name()) {
            out.push(b);
        }
        i = i + 1;
    }
    assert(blocks@.take(blocks.len() as int) =~= blocks@);
    out
}

/// The blocks an AI ordering names, in that order: names that do not parse, blocks not
/// available, and repeats are skipped.
pub open spec fn ai_picked(ai: Seq<Seq<char>>, available: Seq<StatsBlock>) -> Seq<StatsBlock>
    decreases ai.len(),
{
    if ai.len() == 0 {
        seq![]
    } else {
        let prev = ai_picked(ai.drop_last(), available);
        match parse_block_name_spec(ai.last()) {
            Some(b) => if available.contains(b) && !prev.contains(b) {
                prev.push(b)
            } else {
                prev
            },
            None => prev,
        }
    }
}

/// The blocks of `available` that are not in `picked`, in their original order.
pub open spec fn not_picked(available: Seq<StatsBlock>, picked: Seq<StatsBlock>) -> Seq<StatsBlock>
    decreases available.len(),
{
    if available.len() == 0 {
        seq![]
    } else {
        let prev = not_picked(available.drop_last(), picked);
        if picked.contains(available.last()) {
            prev
        } else {
            prev.push(available.last())
        }
    }
}

/// What `merge_ai_order` gives.
pub open spec fn merge_ai_order_spec(ai: Seq<Seq<char>>, available: Seq<StatsBlock>) -> Seq<StatsBlock> {
    let picked = ai_picked(ai, available);
    picked + not_picked(available, picked)
}

/// Maps an AI-proposed order (block names) onto the available blocks: the named blocks
/// that are available come first in the AI's order, then the remaining available blocks
/// in their original order.
pub fn merge_ai_order(ai_order: &[String], available: &[StatsBlock]) -> (r: Vec<StatsBlock>)
    ensures
        r@ == merge_ai_order_spec(string_views(ai_order@), available@),
{
    let ghost av = string_views(ai_order@);
    let mut picked: Vec<StatsBlock> = Vec::new();
    let mut k: usize = 0;
    while k < ai_order.len()
        invariant
            k <= ai_order.len(),
            av == string_views(ai_order@),
            picked@ == ai_picked(av.take(k as int), available@),
        decreases ai_order.len() - k,
    {
        assert(av.take(k + 1).drop_last() =~= av.take(k as int));
        if let Some(b) = parse_block_name(ai_order[k].as_str()) {
            if blocks_contain(available, b) && !blocks_contain(picked.as_slice(), b) {
                picked.push(b);
            }
        }
        k = k + 1;
    }
    assert(av.take(ai_order.len() as int) =~= av);
    let mut out: Vec<StatsBlock> = picked.clone();
    let mut i: usize = 0;
    while i < available.len()
        invariant
            i <= available.len(),
            picked@ == ai_picked(av, available@),
            out@ == picked@ + not_picked(available@.take(i as int), picked@),
        decreases available.len() - i,
    {
        let b = available[i];
        assert(available@.take(i + 1).drop_last() =~= available@.take(i as int));
        if !blocks_contain(picked.as_slice(), b) {
            out.push(b);
        }
        i = i + 1;
    }
    assert(available@.take(available.len() as int) =~= available@);
    out
}


pub const BLOCK_PREFIX_START: &'static str = "<!-- WR_BLOCK_START:";
pub const BLOCK_PREFIX_END: &'static str = "<!-- WR_BLOCK_END:";
pub const MARKER_SUFFIX: &'static str = " -->";

/// The marker line that opens block `name` (without its newline).
pub open spec fn start_marker(name: Seq<char>) -> Seq<char> {
    BLOCK_PREFIX_START@ + name + MARKER_SUFFIX@
}

/// The marker line that closes block `name` (without its newline).
pub open spec fn end_marker(name: Seq<char>) -> Seq<char> {
    BLOCK_PREFIX_END@ + name + MARKER_SUFFIX@
}

/// What `wrap_block` gives: empty content stays empty; otherwise the content between the
/// start and end marker lines, with a newline added when the content lacks a final one.
pub open spec fn wrap_spec(name: Seq<char>, content: Seq<char>) -> Seq<char> {
    if content.len() == 0 {
        seq![]
    } else {
        start_marker(name) + seq!['\n'] + content + (if content.last() == '\n' {
            seq![]
        } else {
            seq!['\n']
        }) + end_marker(name) + seq!['\n']
    }
}

/// The characters of the marker that opens block `name`.
fn start_marker_chars(name: &str) -> (r: Vec<char>)
    ensures
        r@ == start_marker(name@),
{
    let mut r = chars_of(BLOCK_PREFIX_START);
    let n = chars_of(name);
    push_all(&mut r, n.as_slice());
    let suf = chars_of(MARKER_SUFFIX);
    push_all(&mut r, suf.as_slice());
    r
}

/// The characters of the marker that closes block `name`.
fn end_marker_chars(name: &str) -> (r: Vec<char>)
    ensures
        r@ == end_marker(name@),
{
    let mut r = chars_of(BLOCK_PREFIX_END);
    let n = chars_of(name);
    push_all(&mut r, n.as_slice());
    let suf = chars_of(MARKER_SUFFIX);
    push_all(&mut r, suf.as_slice());
    r
}

/// Wraps content in the start/end markers of block `name`. Empty content gives an empty
/// string (no empty block is inserted).
pub fn wrap_block(name: &str, content: &str) -> (r: String)
    ensures
        r@ == wrap_spec(name@, content@),
{
    let c = chars_of(content);
    if c.len() == 0 {
        return String::new();
    }
    let mut out = start_marker_chars(name);
    out.push('\n');
    push_all(&mut out, c.as_slice());
    if c[c.len() - 1] != '\n' {
        out.push('\n');
    }
    let e = end_marker_chars(name);
    push_all(&mut out, e.as_slice());
    out.push('\n');
    let ghost nl: Seq<char> = if content@.last() == '\n' { seq![] } else { seq!['\n'] };
    assert(out@ =~= start_marker(name@) + seq!['\n'] + content@ + nl + end_marker(name@) + seq!['\n']);
    string_of(out.as_slice())
}

/// What a re-rendered block holds between its markers: the fresh content without
/// surrounding newlines, plus one newline when anything is left.
pub open spec fn fresh_body(fresh: Seq<char>) -> Seq<char> {
    let t = trim_nl(fresh);
    if t.len() == 0 {
        seq![]
    } else {
        t.push('\n')
    }
}

/// Replaces, left to right, every paired `start` ... `end` region of `content` by
/// `start`, a newline, `body` and `end`. An unpaired `start` and all text after it stay.
pub open spec fn replace_markers(
    content: Seq<char>,
    start: Seq<char>,
    end: Seq<char>,
    body: Seq<char>,
) -> Seq<char>
    decreases content.len(),
{
    if end.len() == 0 {
        content
    } else {
        match find_spec(content, start, 0) {
            None => content,
            Some(i) => match find_spec(content, end, i) {
                None => content,
                Some(j) => {
                    proof {
                        lemma_find_spec(content, start, 0);
                        lemma_find_spec(content, end, i);
                    }
                    content.take(i) + start + seq!['\n'] + body + end + replace_markers(
                        content.skip(j + end.len()),
                        start,
                        end,
                        body,
                    )
                },
            },
        }
    }
}

/// What `replace_block` gives.
pub open spec fn replace_block_spec(content: Seq<char>, name: Seq<char>, fresh: Seq<char>) -> Seq<
    char,
> {
    replace_markers(content, start_marker(name), end_marker(name), fresh_body(fresh))
}

proof fn lemma_end_marker_nonempty(name: Seq<char>)
    ensures
        end_marker(name).len() > 0,
{
    reveal_strlit(" -->");
}

/// Replaces the content of every `name` block of `content` by `fresh` (trimmed of
/// surrounding newlines). Text outside the blocks, and a start marker without an end
/// marker, stay as they are.
pub fn replace_block(content: &str, name: &str, fresh: &str) -> (r: String)
    ensures
        r@ == replace_block_spec(content@, name@, fresh@),
{
    let cv = chars_of(content);
    let start = start_marker_chars(name);
    let end = end_marker_chars(name);
    let fv = chars_of(fresh);
    let trimmed = trim_newlines(fv.as_slice());
    let ghost body = fresh_body(fresh@);
    let ghost sm = start@;
    let ghost em = end@;
    proof {
        lemma_end_marker_nonempty(name@);
    }
    let mut result: Vec<char> = Vec::new();
    let mut cursor: usize = 0;
    assert(cv@.skip(0) =~= cv@);
    assert(result@ + replace_markers(cv@, sm, em, body) =~= replace_markers(cv@, sm, em, body));
    loop
        invariant_except_break
            result@ + replace_markers(cv@.skip(cursor as int), sm, em, body) == replace_markers(
                cv@,
                sm,
                em,
                body,
            ),
        invariant
            cursor <= cv.len(),
            sm == start@,
            em == end@,
            em.len() > 0,
            trimmed@ == trim_nl(fresh@),
            body == fresh_body(fresh@),
        ensures
            result@ == replace_markers(cv@, sm, em, body),
        decreases cv.len() - cursor,
    {
        let ghost t = cv@.skip(cursor as int);
        proof {
            lemma_find_skip(cv@, sm, cursor as int, 0);
        }
        let found_start = find_from(cv.as_slice(), start.as_slice(), cursor);
        match found_start {
            None => {
                push_range(&mut result, cv.as_slice(), cursor, cv.len());
                assert(cv@.subrange(cursor as int, cv.len() as int) =~= t);
                break;
            },
            Some(abs_start) => {
                proof {
                    lemma_find_spec(cv@, sm, cursor as int);
                    lemma_find_skip(cv@, em, cursor as int, abs_start - cursor);
                }
                let found_end = find_from(cv.as_slice(), end.as_slice(), abs_start);
                match found_end {
                    None => {
                        push_range(&mut result, cv.as_slice(), cursor, cv.len());
                        assert(cv@.subrange(cursor as int, cv.len() as int) =~= t);
                        break;
                    },
                    Some(abs_end_start) => {
                        proof {
                            lemma_find_spec(cv@, em, abs_start as int);
                        }
                        let ghost old_result = result@;
                        push_range(&mut result, cv.as_slice(), cursor, abs_start);
                        push_all(&mut result, start.as_slice());
                        result.push('\n');
                        if trimmed.len() > 0 {
                            push_all(&mut result, trimmed.as_slice());
                            result.push('\n');
                        }
                        push_all(&mut result, end.as_slice());
                        let next = abs_end_start + end.len();
                        proof {
                            let i = abs_start - cursor;
                            let j = abs_end_start - cursor;
                            assert(t.take(i as int) =~= cv@.subrange(cursor as int, abs_start as int));
                            assert(t.skip(j + em.len()) =~= cv@.skip(next as int));
                            assert(result@ =~= old_result + (t.take(i as int) + sm + seq!['\n'] + body + em));
                        }
                        cursor = next;
                    },
                }
            },
        }
    }
    string_of(result.as_slice())
}


/// The CJK numeral for `k + 1`, for `k < 10`.
pub open spec fn cjk_numeral(k: int) -> char {
    if k == 0 {
        '一'
    } else if k == 1 {
        '二'
    } else if k == 2 {
        '三'
    } else if k == 3 {
        '四'
    } else if k == 4 {
        '五'
    } else if k == 5 {
        '六'
    } else if k == 6 {
        '七'
    } else if k == 7 {
        '八'
    } else if k == 8 {
        '九'
    } else {
        '十'
    }
}

/// The number that precedes the title of section `index`: `"3. "` in English,
/// `"三、"` otherwise (CJK numerals up to ten, decimal digits beyond; index 0 reads as one).
pub open spec fn section_prefix(locale: AppLocale, index: nat) -> Seq<char> {
    match locale {
        AppLocale::En => decimal(index) + seq!['.', ' '],
        _ => {
            let k: int = if index >= 1 {
                index - 1
            } else {
                0
            };
            (if k < 10 {
                seq![cjk_numeral(k)]
            } else {
                decimal(index)
            }) + seq!['、']
        },
    }
}

fn cjk_numeral_exec(k: usize) -> (c: char)
    requires
        k < 10,
    ensures
        c == cjk_numeral(k as int),
{
    if k == 0 {
        '一'
    } else if k == 1 {
        '二'
    } else if k == 2 {
        '三'
    } else if k == 3 {
        '四'
    } else if k == 4 {
        '五'
    } else if k == 5 {
        '六'
    } else if k == 6 {
        '七'
    } else if k == 7 {
        '八'
    } else if k == 8 {
        '九'
    } else {
        '十'
    }
}

/// Appends the section number prefix for `index`.
fn push_section_prefix(out: &mut String, locale: AppLocale, index: usize)
    ensures
        final(out)@ == old(out)@ + section_prefix(locale, index as nat),
{
    let ghost start = out@;
    match locale {
        AppLocale::En => {
            push_u64(out, index as u64);
            push_char(out, '.');
            push_char(out, ' ');
            assert(out@ =~= start + section_prefix(locale, index as nat));
        },
        _ => {
            let k: usize = if index >= 1 {
                index - 1
            } else {
                0
            };
            if k < 10 {
                push_char(out, cjk_numeral_exec(k));
            } else {
                push_u64(out, index as u64);
            }
            push_char(out, '、');
            assert(out@ =~= start + section_prefix(locale, index as nat));
        },
    }
}

/// Section heading text: `"## "`, the section number, the title, and a blank line.
pub open spec fn section_heading(locale: AppLocale, index: nat, title: Seq<char>) -> Seq<char> {
    seq!['#', '#', ' '] + section_prefix(locale, index) + title + seq!['\n', '\n']
}

/// A level-two heading with a section number that follows the locale.
pub fn format_section_heading(locale: AppLocale, index: usize, title: &str) -> (r: String)
    ensures
        r@ == section_heading(locale, index as nat, title@),
{
    let mut out = String::new();
    push_char(&mut out, '#');
    push_char(&mut out, '#');
    push_char(&mut out, ' ');
    push_section_prefix(&mut out, locale, index);
    push_str(&mut out, title);
    push_char(&mut out, '\n');
    push_char(&mut out, '\n');
    assert(out@ =~= section_heading(locale, index as nat, title@));
    out
}

/// The length of the first line of `s`, its newline included.
pub open spec fn line_len(s: Seq<char>) -> int {
    match find_spec(s, seq!['\n'], 0) {
        Some(i) => i + 1,
        None => s.len() as int,
    }
}

/// A non-empty text's first line is not empty and lies within it.
pub proof fn lemma_line_len(s: Seq<char>)
    requires
        s.len() > 0,
    ensures
        1 <= line_len(s) <= s.len(),
{
    lemma_find_spec(s, seq!['\n'], 0);
}

/// `s` with every line that begins with `"## "` numbered, counting from `next`.
pub open spec fn numbered_lines(s: Seq<char>, locale: AppLocale, next: nat) -> Seq<char>
    decreases s.len(),
{
    if s.len() == 0 {
        seq![]
    } else {
        let n = line_len(s);
        proof {
            lemma_line_len(s);
        }
        let line = s.take(n);
        if starts_with(line, seq!['#', '#', ' ']) {
            seq!['#', '#', ' '] + section_prefix(locale, next) + line.skip(3) + numbered_lines(
                s.skip(n),
                locale,
                next + 1,
            )
        } else {
            line + numbered_lines(s.skip(n), locale, next)
        }
    }
}

/// The number of lines of `s` that begin with `"## "`.
pub open spec fn heading_count(s: Seq<char>) -> nat
    decreases s.len(),
{
    if s.len() == 0 {
        0
    } else {
        let n = line_len(s);
        proof {
            lemma_line_len(s);
        }
        (if starts_with(s.take(n), seq!['#', '#', ' ']) {
            1nat
        } else {
            0nat
        }) + heading_count(s.skip(n))
    }
}

/// Every heading line has at least three characters.
pub proof fn lemma_heading_count_bound(s: Seq<char>)
    ensures
        heading_count(s) * 3 <= s.len(),
    decreases s.len(),
{
    if s.len() > 0 {
        lemma_line_len(s);
        lemma_heading_count_bound(s.skip(line_len(s)));
    }
}

/// Numbers every `"## "` heading line of `markdown`, starting at `first_index`, and
/// returns the text with the number of headings numbered.
#[verifier::spinoff_prover]
fn number_sections_from(markdown: &str, locale: AppLocale, first_index: usize) -> (r: (
    String,
    usize,
))
    requires
        first_index <= usize::MAX / 2,
    ensures
        r.0@ == numbered_lines(markdown@, locale, first_index as nat),
        r.1 == heading_count(markdown@),
{
    let cv = chars_of(markdown);
    proof {
        lemma_heading_count_bound(markdown@);
    }
    let nl: Vec<char> = vec!['\n'];
    let mut out = String::new();
    let mut counter: usize = 0;
    let mut pos: usize = 0;
    assert(cv@.skip(0) =~= cv@);
    while pos < cv.len()
        invariant
            pos <= cv.len(),
            cv@ == markdown@,
            nl@ == seq!['\n'],
            first_index <= usize::MAX / 2,
            heading_count(markdown@) * 3 <= cv@.len(),
            counter + heading_count(cv@.skip(pos as int)) == heading_count(cv@),
            out@ + numbered_lines(cv@.skip(pos as int), locale, (first_index + counter) as nat)
                == numbered_lines(cv@, locale, first_index as nat),
        decreases cv.len() - pos,
    {
        let ghost t = cv@.skip(pos as int);
        proof {
            lemma_find_skip(cv@, seq!['\n'], pos as int, 0);
            lemma_line_len(t);
        }
        let line_end: usize = match find_from(cv.as_slice(), nl.as_slice(), pos) {
            Some(i) => i + 1,
            None => cv.len(),
        };
        let ghost n = line_len(t);
        assert(line_end == pos + n);
        let ghost line = t.take(n);
        assert(line =~= cv@.subrange(pos as int, line_end as int));
        assert(t.skip(n) =~= cv@.skip(line_end as int));
        let is_heading = line_end - pos >= 3 && cv[pos] == '#' && cv[pos + 1] == '#' && cv[pos + 2]
            == ' ';
        assert(is_heading == starts_with(line, seq!['#', '#', ' '])) by {
            if line.len() >= 3 {
                assert(line.subrange(0, 3)[0] == cv@[pos as int]);
                assert(line.subrange(0, 3)[1] == cv@[pos + 1]);
                assert(line.subrange(0, 3)[2] == cv@[pos + 2]);
                if is_heading {
                    assert(line.subrange(0, 3) =~= seq!['#', '#', ' ']);
                }
            }
        }
        let ghost old_out = out@;
        if is_heading {
            counter = counter + 1;
            push_char(&mut out, '#');
            push_char(&mut out, '#');
            push_char(&mut out, ' ');
            push_section_prefix(&mut out, locale, first_index + counter - 1);
            let mut k = pos + 3;
            while k < line_end
                invariant
                    pos + 3 <= k <= line_end <= cv.len(),
                    out@ == old_out + seq!['#', '#', ' '] + section_prefix(
                        locale,
                        (first_index + counter - 1) as nat,
                    ) + cv@.subrange(pos + 3, k as int),
                decreases line_end - k,
            {
                push_char(&mut out, cv[k]);
                k = k + 1;
                assert(out@ =~= old_out + seq!['#', '#', ' '] + section_prefix(
                    locale,
                    (first_index + counter - 1) as nat,
                ) + cv@.subrange(pos + 3, k as int));
            }
            assert(line.skip(3) =~= cv@.subrange(pos + 3, line_end as int));
        } else {
            let mut k = pos;
            while k < line_end
                invariant
                    pos <= k <= line_end <= cv.len(),
                    out@ == old_out + cv@.subrange(pos as int, k as int),
                decreases line_end - k,
            {
                push_char(&mut out, cv[k]);
                k = k + 1;
                assert(out@ =~= old_out + cv@.subrange(pos as int, k as int));
            }
        }
        pos = line_end;
    }
    assert(cv@.skip(pos as int) =~= Seq::<char>::empty());
    (out, counter)
}


/// What `StatsBlock::render` gives for each block.
pub open spec fn render_spec(b: StatsBlock, stats: ReportStats, l: AppLocale) -> Seq<char> {
    match b {
        StatsBlock::CategoryTable => category_table_spec(stats, l),
        StatsBlock::AppUsageTable => app_table_spec(stats, l),
        StatsBlock::HourlySummary => hourly_summary_spec(stats, l),
        StatsBlock::DomainUsageTable => domain_table_spec(stats, l),
        StatsBlock::LocalOverview => local_overview_spec(stats, l),
        StatsBlock::LocalCategory => local_category_spec(stats, l),
        StatsBlock::LocalAppUsage => local_app_spec(stats, l),
        StatsBlock::LocalDomainUsage => local_domain_spec(stats, l),
    }
}

impl StatsBlock {
    /// The markdown of this block for the given statistics (without markers and without
    /// section numbers).
    pub fn render(&self, stats: &ReportStats, locale: AppLocale) -> (r: String)
        ensures
            r@ == render_spec(*self, *stats, locale),
    {
        match self {
            StatsBlock::CategoryTable => render_category_table(stats, locale),
            StatsBlock::AppUsageTable => render_app_usage_table(stats, locale),
            StatsBlock::HourlySummary => render_hourly_summary(stats, locale),
            StatsBlock::DomainUsageTable => render_domain_usage_table(stats, locale),
            StatsBlock::LocalOverview => render_local_overview(stats, locale),
            StatsBlock::LocalCategory => render_local_category_list(stats, locale),
            StatsBlock::LocalAppUsage => render_local_app_usage_list(stats, locale),
            StatsBlock::LocalDomainUsage => render_local_domain_usage_list(stats, locale),
        }
    }
}

/// The blocks rendered and wrapped in their markers, one after another, before numbering.
pub open spec fn wrapped_blocks(blocks: Seq<StatsBlock>, stats: ReportStats, l: AppLocale) -> Seq<
    char,
>
    decreases blocks.len(),
{
    if blocks.len() == 0 {
        seq![]
    } else {
        wrapped_blocks(blocks.drop_last(), stats, l) + wrap_spec(
            name_of(blocks.last()),
            render_spec(blocks.last(), stats, l),
        )
    }
}

/// Renders the blocks in the given order, wraps each in its markers (blocks that render
/// empty are left out), numbers the section headings from one, and returns the text with
/// the number of sections.
pub fn assemble_with_section_count(blocks: &[StatsBlock], stats: &ReportStats, locale: AppLocale) -> (r: (
    String,
    usize,
))
    ensures
        r.0@ == numbered_lines(wrapped_blocks(blocks@, *stats, locale), locale, 1),
        r.1 == heading_count(wrapped_blocks(blocks@, *stats, locale)),
{
    let mut out = String::new();
    let mut i: usize = 0;
    while i < blocks.len()
        invariant
            i <= blocks.len(),
            out@ == wrapped_blocks(blocks@.take(i as int), *stats, locale),
        decreases blocks.len() - i,
    {
        let b = blocks[i];
        let rendered = b.render(stats, locale);
        let wrapped = wrap_block(b.block_name(), rendered.as_str());
        push_str(&mut out, wrapped.as_str());
        assert(blocks@.take(i + 1).drop_last() =~= blocks@.take(i as int));
        i = i + 1;
    }
    assert(blocks@.take(blocks.len() as int) =~= blocks@);
    number_sections_from(out.as_str(), locale, 1)
}

/// Renders the blocks in the given order with markers and numbered section headings.
pub fn assemble(blocks: &[StatsBlock], stats: &ReportStats, locale: AppLocale) -> (r: String)
    ensures
        r@ == numbered_lines(wrapped_blocks(blocks@, *stats, locale), locale, 1),
{
    assemble_with_section_count(blocks, stats, locale).0
}

/// What `render_report_with_live_stats` gives: each known block of the saved report
/// replaced by its fresh rendering, in the fixed order of the blocks.
pub open spec fn live_stats_spec(content: Seq<char>, stats: ReportStats, l: AppLocale) -> Seq<char> {
    let c1 = replace_block_spec(content, name_of(StatsBlock::CategoryTable), category_table_spec(stats, l));
    let c2 = replace_block_spec(c1, name_of(StatsBlock::AppUsageTable), app_table_spec(stats, l));
    let c3 = replace_block_spec(c2, name_of(StatsBlock::HourlySummary), hourly_summary_spec(stats, l));
    let c4 = replace_block_spec(c3, name_of(StatsBlock::DomainUsageTable), domain_table_spec(stats, l));
    let c5 = replace_block_spec(c4, name_of(StatsBlock::LocalOverview), local_overview_spec(stats, l));
    let c6 = replace_block_spec(c5, name_of(StatsBlock::LocalCategory), local_category_spec(stats, l));
    let c7 = replace_block_spec(c6, name_of(StatsBlock::LocalAppUsage), local_app_spec(stats, l));
    replace_block_spec(c7, name_of(StatsBlock::LocalDomainUsage), local_domain_spec(stats, l))
}

/// Re-renders, when a saved report is read, every known statistics block with the latest
/// statistics. Unknown blocks and text outside blocks stay as they are.
pub fn render_report_with_live_stats(content: &str, stats: &ReportStats, locale: AppLocale) -> (r: String)
    ensures
        r@ == live_stats_spec(content@, *stats, locale),
{
    let f1 = render_category_table(stats, locale);
    let o1 = replace_block(content, BLOCK_CATEGORY_TABLE, f1.as_str());
    let f2 = render_app_usage_table(stats, locale);
    let o2 = replace_block(o1.as_str(), BLOCK_APP_USAGE_TABLE, f2.as_str());
    let f3 = render_hourly_summary(stats, locale);
    let o3 = replace_block(o2.as_str(), BLOCK_HOURLY_SUMMARY, f3.as_str());
    let f4 = render_domain_usage_table(stats, locale);
    let o4 = replace_block(o3.as_str(), BLOCK_DOMAIN_USAGE_TABLE, f4.as_str());
    let f5 = render_local_overview(stats, locale);
    let o5 = replace_block(o4.as_str(), BLOCK_LOCAL_OVERVIEW, f5.as_str());
    let f6 = render_local_category_list(stats, locale);
    let o6 = replace_block(o5.as_str(), BLOCK_LOCAL_CATEGORY, f6.as_str());
    let f7 = render_local_app_usage_list(stats, locale);
    let o7 = replace_block(o6.as_str(), BLOCK_LOCAL_APP_USAGE, f7.as_str());
    let f8 = render_local_domain_usage_list(stats, locale);
    replace_block(o7.as_str(), BLOCK_LOCAL_DOMAIN_USAGE, f8.as_str())
}


/// An occurrence of `p + q` is an occurrence of `p` at the same place.
proof fn lemma_matches_prefix(s: Seq<char>, p: Seq<char>, q: Seq<char>, i: int)
    requires
        matches_at(s, p + q, i),
    ensures
        matches_at(s, p, i),
{
    assert(s.subrange(i, i + p.len()) =~= (p + q).subrange(0, p.len() as int));
    assert((p + q).subrange(0, p.len() as int) =~= p);
}

/// Text without a start marker of `name` is left unchanged by `replace_block`.
pub proof fn lemma_replace_block_no_marker(content: Seq<char>, name: Seq<char>, fresh: Seq<char>)
    requires
        !contains(content, start_marker(name)),
    ensures
        replace_block_spec(content, name, fresh) == content,
{
    lemma_contains_find(content, start_marker(name));
}

/// A start marker of any block holds the common start prefix.
proof fn lemma_start_marker_has_prefix(content: Seq<char>, name: Seq<char>)
    requires
        !contains(content, BLOCK_PREFIX_START@),
    ensures
        !contains(content, start_marker(name)),
{
    if contains(content, start_marker(name)) {
        let i = choose|i: int| matches_at(content, start_marker(name), i);
        assert(start_marker(name) == BLOCK_PREFIX_START@ + (name + MARKER_SUFFIX@));
        lemma_matches_prefix(content, BLOCK_PREFIX_START@, name + MARKER_SUFFIX@, i);
    }
}

/// A saved report without any block markers (an old-style report) is shown exactly as saved.
pub proof fn lemma_live_stats_keeps_unmarked_report(content: Seq<char>, stats: ReportStats, l: AppLocale)
    requires
        !contains(content, BLOCK_PREFIX_START@),
    ensures
        live_stats_spec(content, stats, l) == content,
{
    lemma_start_marker_has_prefix(content, name_of(StatsBlock::CategoryTable));
    lemma_start_marker_has_prefix(content, name_of(StatsBlock::AppUsageTable));
    lemma_start_marker_has_prefix(content, name_of(StatsBlock::HourlySummary));
    lemma_start_marker_has_prefix(content, name_of(StatsBlock::DomainUsageTable));
    lemma_start_marker_has_prefix(content, name_of(StatsBlock::LocalOverview));
    lemma_start_marker_has_prefix(content, name_of(StatsBlock::LocalCategory));
    lemma_start_marker_has_prefix(content, name_of(StatsBlock::LocalAppUsage));
    lemma_start_marker_has_prefix(content, name_of(StatsBlock::LocalDomainUsage));
    lemma_replace_block_no_marker(content, name_of(StatsBlock::CategoryTable), category_table_spec(stats, l));
    lemma_replace_block_no_marker(content, name_of(StatsBlock::AppUsageTable), app_table_spec(stats, l));
    lemma_replace_block_no_marker(content, name_of(StatsBlock::HourlySummary), hourly_summary_spec(stats, l));
    lemma_replace_block_no_marker(content, name_of(StatsBlock::DomainUsageTable), domain_table_spec(stats, l));
    lemma_replace_block_no_marker(content, name_of(StatsBlock::LocalOverview), local_overview_spec(stats, l));
    lemma_replace_block_no_marker(content, name_of(StatsBlock::LocalCategory), local_category_spec(stats, l));
    lemma_replace_block_no_marker(content, name_of(StatsBlock::LocalAppUsage), local_app_spec(stats, l));
    lemma_replace_block_no_marker(content, name_of(StatsBlock::LocalDomainUsage), local_domain_spec(stats, l));
}


/// `s` holds no `'<'`.
pub open spec fn lt_free(s: Seq<char>) -> bool
    decreases s.len(),
{
    s.len() == 0 || (s[0] != '<' && lt_free(s.drop_first()))
}

proof fn lemma_lt_free_index(s: Seq<char>)
    requires
        lt_free(s),
    ensures
        forall|i: int| 0 <= i < s.len() ==> s[i] != '<',
    decreases s.len(),
{
    if s.len() > 0 {
        lemma_lt_free_index(s.drop_first());
        assert forall|i: int| 0 <= i < s.len() implies s[i] != '<' by {
            if i > 0 {
                assert(s[i] == s.drop_first()[i - 1]);
            }
        }
    }
}

proof fn lemma_lt_free_concat(a: Seq<char>, b: Seq<char>)
    requires
        lt_free(a),
        lt_free(b),
    ensures
        lt_free(a + b),
    decreases a.len(),
{
    if a.len() > 0 {
        lemma_lt_free_concat(a.drop_first(), b);
        assert((a + b).drop_first() =~= a.drop_first() + b);
    } else {
        assert(a + b =~= b);
    }
}

/// The names of the library's blocks hold no `'<'`.
proof fn lemma_block_name_lt_free(b: StatsBlock)
    ensures
        lt_free(name_of(b)),
{
    reveal_strlit("CATEGORY_TABLE");
    reveal_strlit("APP_USAGE_TABLE");
    reveal_strlit("HOURLY_SUMMARY");
    reveal_strlit("DOMAIN_USAGE_TABLE");
    reveal_strlit("LOCAL_OVERVIEW");
    reveal_strlit("LOCAL_CATEGORY");
    reveal_strlit("LOCAL_APP_USAGE");
    reveal_strlit("LOCAL_DOMAIN_USAGE");
    reveal_with_fuel(lt_free, 20);
}

/// The shape of the markers of a block that the replacement argument needs: each opens
/// with `'<'` and holds no other `'<'`, and the two differ at index 14.
proof fn lemma_marker_shape(b: StatsBlock)
    ensures
        start_marker(name_of(b)).len() > 14,
        end_marker(name_of(b)).len() > 14,
        start_marker(name_of(b))[0] == '<',
        end_marker(name_of(b))[0] == '<',
        forall|i: int| 0 < i < start_marker(name_of(b)).len() ==> start_marker(name_of(b))[i] != '<',
        forall|i: int| 0 < i < end_marker(name_of(b)).len() ==> end_marker(name_of(b))[i] != '<',
        start_marker(name_of(b))[14] != end_marker(name_of(b))[14],
        end_marker(name_of(b)).last() == '>',
{
    lemma_block_name_lt_free(b);
    lemma_marker_shape_of(name_of(b));
}

/// The marker shape of any name without `'<'` (see `lemma_marker_shape`).
proof fn lemma_marker_shape_of(n: Seq<char>)
    requires
        lt_free(n),
    ensures
        start_marker(n).len() > 14,
        end_marker(n).len() > 14,
        start_marker(n)[0] == '<',
        end_marker(n)[0] == '<',
        forall|i: int| 0 < i < start_marker(n).len() ==> start_marker(n)[i] != '<',
        forall|i: int| 0 < i < end_marker(n).len() ==> end_marker(n)[i] != '<',
        start_marker(n)[14] != end_marker(n)[14],
        end_marker(n).last() == '>',
{
    reveal_strlit("<!-- WR_BLOCK_START:");
    reveal_strlit("<!-- WR_BLOCK_END:");
    reveal_strlit(" -->");
    let ps = BLOCK_PREFIX_START@;
    let pe = BLOCK_PREFIX_END@;
    let sf = MARKER_SUFFIX@;
    assert(lt_free(ps.drop_first())) by {
        reveal_with_fuel(lt_free, 21);
    }
    assert(lt_free(pe.drop_first())) by {
        reveal_with_fuel(lt_free, 19);
    }
    assert(lt_free(sf)) by {
        reveal_with_fuel(lt_free, 5);
    }
    lemma_lt_free_concat(n, sf);
    lemma_lt_free_concat(ps.drop_first(), n + sf);
    lemma_lt_free_concat(pe.drop_first(), n + sf);
    let sm = start_marker(n);
    let em = end_marker(n);
    assert(sm.drop_first() =~= ps.drop_first() + (n + sf));
    assert(em.drop_first() =~= pe.drop_first() + (n + sf));
    lemma_lt_free_index(sm.drop_first());
    lemma_lt_free_index(em.drop_first());
    assert forall|i: int| 0 < i < sm.len() implies sm[i] != '<' by {
        assert(sm[i] == sm.drop_first()[i - 1]);
    }
    assert forall|i: int| 0 < i < em.len() implies em[i] != '<' by {
        assert(em[i] == em.drop_first()[i - 1]);
    }
    assert(sm[14] == ps[14]);
    assert(em[14] == pe[14]);
    assert(em.last() == sf.last());
}

/// Before the closing marker of a wrapped block there is no other closing marker.
proof fn lemma_no_early_end(
    w: Seq<char>,
    sm: Seq<char>,
    old: Seq<char>,
    nl: Seq<char>,
    em: Seq<char>,
    j: int,
)
    requires
        w == sm + seq!['\n'] + old + nl + em + seq!['\n'],
        nl == seq!['\n'] || nl.len() == 0,
        sm.len() > 14,
        em.len() > 14,
        sm[0] == '<',
        em[0] == '<',
        forall|i: int| 0 < i < sm.len() ==> sm[i] != '<',
        forall|i: int| 0 < i < em.len() ==> em[i] != '<',
        sm[14] != em[14],
        em.last() == '>',
        !contains(old, em),
        0 <= j < sm.len() + 1 + old.len() + nl.len(),
    ensures
        !matches_at(w, em, j),
{
    let k: int = (sm.len() + 1 + old.len() + nl.len()) as int;
    let ob: int = (sm.len() + 1) as int;
    let oe: int = ob + old.len();
    assert(w.len() == k + em.len() + 1);
    if matches_at(w, em, j) {
        let sub = w.subrange(j, j + em.len());
        assert(sub == em);
        assert(w[j] == sub[0]);
        if j == 0 {
            assert(w[14] == sub[14]);
            assert(w[14] == sm[14]);
        } else if j < sm.len() {
            assert(w[j] == sm[j]);
        } else if j == sm.len() {
            assert(w[j] == '\n');
        } else if j < oe {
            if j + em.len() <= oe {
                assert(old.subrange(j - ob, j - ob + em.len()) =~= sub);
                assert(matches_at(old, em, j - ob));
            } else if j + em.len() > k {
                assert(w[k] == em[0]);
                assert(w[k] == sub[k - j]);
            } else {
                assert(nl.len() == 1);
                assert(j + em.len() == k);
                assert(w[k - 1] == '\n');
                assert(w[k - 1] == sub[em.len() - 1]);
            }
        } else {
            assert(w[j] == '\n');
        }
    }
}

/// What a block written by `wrap_block` holds after it is re-rendered on read: the start
/// marker, the fresh content (trimmed of surrounding newlines, followed by one newline
/// when anything is left), and the end marker. When the trimmed fresh content is not
/// empty this is the block that `wrap_block` would write for it.
pub proof fn lemma_replace_wrapped_block(b: StatsBlock, old: Seq<char>, fresh: Seq<char>)
    requires
        old.len() > 0,
        !contains(old, end_marker(name_of(b))),
    ensures
        replace_block_spec(wrap_spec(name_of(b), old), name_of(b), fresh) == start_marker(
            name_of(b),
        ) + seq!['\n'] + fresh_body(fresh) + end_marker(name_of(b)) + seq!['\n'],
        trim_nl(fresh).len() > 0 ==> replace_block_spec(
            wrap_spec(name_of(b), old),
            name_of(b),
            fresh,
        ) == wrap_spec(name_of(b), trim_nl(fresh)),
{
    let n = name_of(b);
    let sm = start_marker(n);
    let em = end_marker(n);
    let nl: Seq<char> = if old.last() == '\n' {
        seq![]
    } else {
        seq!['\n']
    };
    let w = wrap_spec(n, old);
    assert(w == sm + seq!['\n'] + old + nl + em + seq!['\n']);
    lemma_marker_shape(b);
    let body = fresh_body(fresh);
    // the start marker is found at the very beginning
    assert(w.subrange(0, sm.len() as int) =~= sm);
    assert(matches_at(w, sm, 0));
    assert(find_spec(w, sm, 0) == Some(0int));
    // the first end marker is the closing one
    let k: int = (sm.len() + 1 + old.len() + nl.len()) as int;
    assert(w.subrange(k, k + em.len()) =~= em);
    assert(matches_at(w, em, k));
    lemma_find_spec(w, em, 0);
    assert forall|j: int| 0 <= j < k implies !#[trigger] matches_at(w, em, j) by {
        lemma_no_early_end(w, sm, old, nl, em, j);
    }
    assert(find_spec(w, em, 0) == Some(k));
    // after the closing marker only a newline is left, which holds no start marker
    let rest = w.skip(k + em.len());
    assert(rest =~= seq!['\n']);
    lemma_find_spec(rest, sm, 0);
    assert(find_spec(rest, sm, 0) is None);
    assert(replace_markers(rest, sm, em, body) == rest);
    assert(w.take(0) =~= Seq::<char>::empty());
    assert(replace_markers(w, sm, em, body) =~= sm + seq!['\n'] + body + em + seq!['\n']);
    if trim_nl(fresh).len() > 0 {
        let t = trim_nl(fresh);
        lemma_trim_nl_last(fresh);
        assert(t.last() != '\n');
        assert(wrap_spec(n, t) =~= sm + seq!['\n'] + t + seq!['\n'] + em + seq!['\n']);
        assert(body =~= t + seq!['\n']);
        assert(sm + seq!['\n'] + body + em + seq!['\n'] =~= sm + seq!['\n'] + t + seq!['\n'] + em
            + seq!['\n']);
    }
}


/// A match inside a suffix is a match in the whole text, shifted.
proof fn lemma_match_in_tail(s: Seq<char>, pat: Seq<char>, k: int, i: int)
    requires
        0 <= k <= s.len(),
        matches_at(s.skip(k), pat, i),
    ensures
        matches_at(s, pat, i + k),
{
    assert(s.subrange(i + k, i + k + pat.len()) =~= s.skip(k).subrange(i, i + pat.len()));
}

/// A match inside a prefix is a match in the whole text.
proof fn lemma_match_in_head(s: Seq<char>, pat: Seq<char>, k: int, i: int)
    requires
        0 <= k <= s.len(),
        matches_at(s.take(k), pat, i),
    ensures
        matches_at(s, pat, i),
{
    assert(s.subrange(i, i + pat.len()) =~= s.take(k).subrange(i, i + pat.len()));
}

/// Trimming newlines keeps no occurrence that the text did not have.
proof fn lemma_trim_nl_contains(s: Seq<char>, pat: Seq<char>)
    ensures
        contains(trim_nl(s), pat) ==> contains(s, pat),
{
    lemma_trim_start_nl_contains(s, pat);
    lemma_trim_end_nl_contains(trim_start_nl(s), pat);
}

proof fn lemma_trim_start_nl_contains(s: Seq<char>, pat: Seq<char>)
    ensures
        contains(trim_start_nl(s), pat) ==> contains(s, pat),
    decreases s.len(),
{
    if s.len() > 0 && s[0] == '\n' {
        lemma_trim_start_nl_contains(s.drop_first(), pat);
        if contains(s.drop_first(), pat) {
            let i = choose|i: int| matches_at(s.drop_first(), pat, i);
            assert(s.drop_first() =~= s.skip(1));
            lemma_match_in_tail(s, pat, 1, i);
        }
    }
}

proof fn lemma_trim_end_nl_contains(s: Seq<char>, pat: Seq<char>)
    ensures
        contains(trim_end_nl(s), pat) ==> contains(s, pat),
    decreases s.len(),
{
    if s.len() > 0 && s.last() == '\n' {
        lemma_trim_end_nl_contains(s.drop_last(), pat);
        if contains(s.drop_last(), pat) {
            let i = choose|i: int| matches_at(s.drop_last(), pat, i);
            assert(s.drop_last() =~= s.take(s.len() - 1));
            lemma_match_in_head(s, pat, s.len() - 1, i);
        }
    }
}

/// The refreshed body of a block holds a pattern that ends in `'>'` only where the fresh
/// content does.
proof fn lemma_fresh_body_contains(fresh: Seq<char>, pat: Seq<char>)
    requires
        pat.len() > 0,
        pat.last() == '>',
        !contains(fresh, pat),
    ensures
        !contains(fresh_body(fresh), pat),
{
    lemma_trim_nl_contains(fresh, pat);
    let t = trim_nl(fresh);
    if t.len() > 0 && contains(t.push('\n'), pat) {
        let i = choose|i: int| matches_at(t.push('\n'), pat, i);
        if i + pat.len() <= t.len() {
            assert(t.push('\n').take(t.len() as int) =~= t);
            assert(t.subrange(i, i + pat.len()) =~= t.push('\n').subrange(i, i + pat.len()));
            assert(matches_at(t, pat, i));
        } else {
            let sub = t.push('\n').subrange(i, i + pat.len());
            assert(sub[pat.len() - 1] == t.push('\n')[t.len() as int]);
        }
    }
}

/// Text that agrees with `c` up to the first start marker of `c`, the marker included, has
/// its first start marker at the same place.
proof fn lemma_same_first_start(c: Seq<char>, sm: Seq<char>, r: Seq<char>, i: int)
    requires
        0 <= i,
        find_spec(c, sm, 0) == Some(i),
        i + sm.len() <= r.len(),
        r.take(i) == c.take(i),
        r.subrange(i, i + sm.len()) == sm,
    ensures
        find_spec(r, sm, 0) == Some(i),
{
    lemma_find_spec(c, sm, 0);
    assert(matches_at(c, sm, i));
    assert(c.subrange(i, i + sm.len()) == sm);
    assert forall|p: int| 0 <= p < i implies !#[trigger] matches_at(r, sm, p) by {
        if matches_at(r, sm, p) {
            assert forall|t: int| p <= t < p + sm.len() implies #[trigger] r[t] == c[t] by {
                if t >= i {
                    assert(c.subrange(i, i + sm.len())[t - i] == c[t]);
                    assert(r.subrange(i, i + sm.len())[t - i] == r[t]);
                } else {
                    assert(r.take(i)[t] == r[t]);
                    assert(c.take(i)[t] == c[t]);
                }
            }
            assert(c.subrange(p, p + sm.len()) =~= r.subrange(p, p + sm.len()));
            assert(matches_at(c, sm, p));
        }
    }
    assert(matches_at(r, sm, i));
    lemma_find_spec(r, sm, 0);
}

/// In a replaced block, the first end marker from the start marker on is the one written
/// after the body.
#[verifier::spinoff_prover]
#[verifier::rlimit(40)]
proof fn lemma_first_end_after_body(
    pre: Seq<char>,
    sm: Seq<char>,
    body: Seq<char>,
    em: Seq<char>,
    rest: Seq<char>,
)
    requires
        sm.len() > 14,
        em.len() > 14,
        sm[0] == '<',
        em[0] == '<',
        forall|i: int| 0 < i < sm.len() ==> sm[i] != '<',
        forall|i: int| 0 < i < em.len() ==> em[i] != '<',
        sm[14] != em[14],
        em.last() == '>',
        !contains(body, em),
    ensures
        find_spec(pre + sm + seq!['\n'] + body + em + rest, em, pre.len() as int) == Some(
            (pre.len() + sm.len() + 1 + body.len()) as int,
        ),
{
    let blk = sm + seq!['\n'] + body + em;
    let k2: int = (sm.len() + 1 + body.len()) as int;
    assert forall|q: int| 0 <= q < k2 implies !#[trigger] matches_at(blk, em, q) by {
        let w = sm + seq!['\n'] + body + seq![] + em + seq!['\n'];
        lemma_no_early_end(w, sm, body, seq![], em, q);
        if matches_at(blk, em, q) {
            assert(w.subrange(q, q + em.len()) =~= blk.subrange(q, q + em.len()));
        }
    }
    let r = pre + blk + rest;
    assert(r =~= pre + sm + seq!['\n'] + body + em + rest);
    let i: int = pre.len() as int;
    let k: int = i + k2;
    assert(r.subrange(k, k + em.len()) =~= em);
    assert forall|p: int| i <= p < k implies !#[trigger] matches_at(r, em, p) by {
        if matches_at(r, em, p) {
            assert(blk.subrange(p - i, p - i + em.len()) =~= r.subrange(p, p + em.len()));
            assert(matches_at(blk, em, p - i));
        }
    }
    assert(matches_at(r, em, k));
    lemma_find_spec(r, em, i);
}

/// A written block's first end marker, searched from where the block starts, is the same
/// in any surrounding text.
proof fn lemma_block_first_end_in_context(pre: Seq<char>, w: Seq<char>, em: Seq<char>, rest: Seq<char>)
    requires
        em.len() <= w.len(),
        find_spec(w, em, 0) == Some(w.len() - em.len()),
    ensures
        find_spec(pre + w + rest, em, pre.len() as int) == Some(pre.len() + w.len() - em.len()),
{
    let r = pre + w + rest;
    let i: int = pre.len() as int;
    let k: int = w.len() - em.len();
    lemma_find_spec(w, em, 0);
    assert(r.subrange(i, i + w.len()) =~= w);
    assert(r.subrange(i + k, i + k + em.len()) =~= w.subrange(k, k + em.len()));
    assert forall|p: int| i <= p < i + k implies !#[trigger] matches_at(r, em, p) by {
        if matches_at(r, em, p) {
            assert(w.subrange(p - i, p - i + em.len()) =~= r.subrange(p, p + em.len()));
            assert(matches_at(w, em, p - i));
        }
    }
    assert(matches_at(r, em, i + k));
    lemma_find_spec(r, em, i);
}

/// Replacing every block once more after a replacement changes nothing, when the block that
/// the replacement writes has its own end marker as its first one.
proof fn lemma_replace_markers_idempotent(c: Seq<char>, sm: Seq<char>, em: Seq<char>, body: Seq<char>)
    requires
        find_spec(sm + seq!['\n'] + body + em, em, 0) == Some((sm.len() + 1 + body.len()) as int),
    ensures
        replace_markers(replace_markers(c, sm, em, body), sm, em, body) == replace_markers(c, sm, em, body),
    decreases c.len(),
{
    if em.len() == 0 {
        return;
    }
    let r = replace_markers(c, sm, em, body);
    match find_spec(c, sm, 0) {
        None => {},
        Some(i) => match find_spec(c, em, i) {
            None => {},
            Some(j) => {
                lemma_find_spec(c, sm, 0);
                lemma_find_spec(c, em, i);
                let x = c.skip(j + em.len());
                let rx = replace_markers(x, sm, em, body);
                lemma_replace_markers_idempotent(x, sm, em, body);
                let pre = c.take(i);
                let w = sm + seq!['\n'] + body + em;
                assert(r == pre + sm + seq!['\n'] + body + em + rx);
                assert(r =~= pre + w + rx);
                assert(r.take(i) =~= pre);
                assert(r.subrange(i, i + sm.len()) =~= sm);
                lemma_same_first_start(c, sm, r, i);
                lemma_block_first_end_in_context(pre, w, em, rx);
                let k: int = i + sm.len() + 1 + body.len();
                assert(r.skip(k + em.len()) =~= rx);
            },
        },
    }
}

/// The block that `replace_block` writes for `name` and `fresh` (start marker, newline,
/// fresh body, end marker) holds no end marker of `name` before its own.
pub open spec fn writes_closed_block(name: Seq<char>, fresh: Seq<char>) -> bool {
    let w = start_marker(name) + seq!['\n'] + fresh_body(fresh) + end_marker(name);
    find_spec(w, end_marker(name), 0) == Some(w.len() - end_marker(name).len())
}

/// Refreshing a block twice gives what refreshing it once gives: a second `replace_block`
/// with the same name and fresh content changes nothing, whenever the block it writes holds
/// no end marker before its own (see `lemma_plain_name_writes_closed_block` for when that
/// holds).
pub proof fn lemma_replace_block_idempotent(content: Seq<char>, name: Seq<char>, fresh: Seq<char>)
    requires
        writes_closed_block(name, fresh),
    ensures
        replace_block_spec(replace_block_spec(content, name, fresh), name, fresh) == replace_block_spec(
            content,
            name,
            fresh,
        ),
{
    lemma_replace_markers_idempotent(content, start_marker(name), end_marker(name), fresh_body(fresh));
}

/// For a name without `'<'` (as every block name of the library is), the written block holds
/// no early end marker whenever the fresh content holds no end marker.
pub proof fn lemma_plain_name_writes_closed_block(name: Seq<char>, fresh: Seq<char>)
    requires
        lt_free(name),
        !contains(fresh, end_marker(name)),
    ensures
        writes_closed_block(name, fresh),
{
    lemma_marker_shape_of(name);
    lemma_fresh_body_contains(fresh, end_marker(name));
    let e: Seq<char> = seq![];
    lemma_first_end_after_body(e, start_marker(name), fresh_body(fresh), end_marker(name), e);
    assert(e + start_marker(name) + seq!['\n'] + fresh_body(fresh) + end_marker(name) + e =~= start_marker(name)
        + seq!['\n'] + fresh_body(fresh) + end_marker(name));
}

/// Replacing in non-empty text never gives empty text.
proof fn lemma_replace_markers_nonempty(x: Seq<char>, sm: Seq<char>, em: Seq<char>, body: Seq<char>)
    requires
        x.len() > 0,
    ensures
        replace_markers(x, sm, em, body).len() > 0,
{
}

/// The written block for `name` and `fresh` up to the end of its first end marker: a text
/// on which a second refresh changes the result when that marker is not the block's own.
pub open spec fn early_end_witness(name: Seq<char>, fresh: Seq<char>) -> Seq<char> {
    let w = start_marker(name) + seq!['\n'] + fresh_body(fresh) + end_marker(name);
    match find_spec(w, end_marker(name), 0) {
        Some(p) => w.take(p + end_marker(name).len()),
        None => w,
    }
}

/// Where the written block holds an end marker before its own, refreshing is not
/// idempotent: on `early_end_witness` a second refresh gives a longer text than the first.
/// Replacing in a written block whose first end marker sits at `p`: the text up to that
/// marker becomes the whole block, and the block itself keeps everything after the marker
/// as well.
proof fn lemma_refresh_up_to_first_end(sm: Seq<char>, em: Seq<char>, b: Seq<char>, p: int)
    requires
        sm.len() > 0,
        em.len() > 0,
        find_spec(sm + seq!['\n'] + b + em, em, 0) == Some(p),
        sm.len() <= p + em.len(),
    ensures
        replace_markers((sm + seq!['\n'] + b + em).take(p + em.len()), sm, em, b) == sm + seq!['\n'] + b + em,
        replace_markers(sm + seq!['\n'] + b + em, sm, em, b) == (sm + seq!['\n'] + b + em) + replace_markers(
            (sm + seq!['\n'] + b + em).skip(p + em.len()),
            sm,
            em,
            b,
        ),
{
    let w = sm + seq!['\n'] + b + em;
    lemma_find_spec(w, em, 0);
    let v = w.take(p + em.len());
    let empty: Seq<char> = seq![];
    assert(v.subrange(0, sm.len() as int) =~= sm);
    assert(matches_at(v, sm, 0));
    lemma_find_spec(v, sm, 0);
    assert(v.subrange(p, p + em.len()) =~= w.subrange(p, p + em.len()));
    assert forall|q: int| 0 <= q < p implies !#[trigger] matches_at(v, em, q) by {
        if matches_at(v, em, q) {
            assert(w.subrange(q, q + em.len()) =~= v.subrange(q, q + em.len()));
            assert(matches_at(w, em, q));
        }
    }
    assert(matches_at(v, em, p));
    lemma_find_spec(v, em, 0);
    assert(v.skip(p + em.len()) =~= empty);
    lemma_find_spec(empty, sm, 0);
    assert(v.take(0) =~= empty);
    assert(find_spec(v, sm, 0) == Some(0int));
    assert(find_spec(v, em, 0) == Some(p));
    assert(replace_markers(empty, sm, em, b) == empty);
    assert(replace_markers(v, sm, em, b) == v.take(0) + sm + seq!['\n'] + b + em + replace_markers(
        v.skip(p + em.len()),
        sm,
        em,
        b,
    ));
    assert(replace_markers(v, sm, em, b) =~= w);
    assert(w.subrange(0, sm.len() as int) =~= sm);
    assert(matches_at(w, sm, 0));
    lemma_find_spec(w, sm, 0);
    assert(w.take(0) =~= empty);
}

/// Where the written block holds an end marker before its own, refreshing is not
/// idempotent: on `early_end_witness` a second refresh gives a longer text than the first.
#[verifier::spinoff_prover]
#[verifier::rlimit(40)]
pub proof fn lemma_replace_block_not_idempotent(name: Seq<char>, fresh: Seq<char>)
    requires
        !writes_closed_block(name, fresh),
    ensures
        replace_block_spec(replace_block_spec(early_end_witness(name, fresh), name, fresh), name, fresh)
            != replace_block_spec(early_end_witness(name, fresh), name, fresh),
{
    let sm = start_marker(name);
    let em = end_marker(name);
    let b = fresh_body(fresh);
    let w = sm + seq!['\n'] + b + em;
    let k: int = w.len() - em.len();
    assert(sm.len() == em.len() + 2 && sm[14] == 'S' && em[14] == 'E' && em.len() > 14 && em[0] == '<'
        && sm[1] != '<' && sm[2] != '<') by {
        lemma_prefix_shape(name);
        reveal_strlit("START:");
        reveal_strlit("END:");
        reveal_strlit(" -->");
    }
    assert(matches_at(w, em, k)) by {
        assert(w.subrange(k, k + em.len()) =~= em);
    }
    lemma_find_spec(w, em, 0);
    let p = find_spec(w, em, 0)->Some_0;
    assert(p >= 3) by {
        assert(w.subrange(p, p + em.len())[0] == w[p]);
        if p == 0 {
            assert(w.subrange(0, em.len() as int)[14] == w[14]);
            assert(w[14] == sm[14]);
        } else if p < 3 {
            assert(w[p] == sm[p]);
        }
    }
    lemma_refresh_up_to_first_end(sm, em, b, p);
    lemma_replace_markers_nonempty(w.skip(p + em.len()), sm, em, b);
    let v = early_end_witness(name, fresh);
    assert(v == w.take(p + em.len()));
    assert(replace_block_spec(v, name, fresh) == w);
    assert(replace_block_spec(w, name, fresh).len() > w.len());
}

/// Refreshing any report twice with the same name and fresh content gives what refreshing it
/// once gives exactly when the block that the refresh writes holds no end marker before its
/// own.
pub proof fn lemma_replace_block_idempotent_exactly(name: Seq<char>, fresh: Seq<char>)
    ensures
        writes_closed_block(name, fresh) <==> forall|content: Seq<char>|
            #[trigger] replace_block_spec(replace_block_spec(content, name, fresh), name, fresh)
                == replace_block_spec(content, name, fresh),
{
    if writes_closed_block(name, fresh) {
        assert forall|content: Seq<char>|
            #[trigger] replace_block_spec(replace_block_spec(content, name, fresh), name, fresh)
                == replace_block_spec(content, name, fresh) by {
            lemma_replace_block_idempotent(content, name, fresh);
        }
    } else {
        lemma_replace_block_not_idempotent(name, fresh);
    }
}

/// The text that every block marker starts with.
pub open spec fn marker_prefix() -> Seq<char> {
    "<!-- WR_BLOCK_"@
}

/// The marker prefix opens with `'<'` and holds no other `'<'` and no newline; both markers
/// of a name start with it.
proof fn lemma_prefix_shape(n: Seq<char>)
    ensures
        marker_prefix().len() == 14,
        marker_prefix()[0] == '<',
        forall|j: int| 0 < j < 14 ==> marker_prefix()[j] != '<' && marker_prefix()[j] != '\n',
        start_marker(n) == marker_prefix() + ("START:"@ + n + MARKER_SUFFIX@),
        end_marker(n) == marker_prefix() + ("END:"@ + n + MARKER_SUFFIX@),
{
    reveal_strlit("<!-- WR_BLOCK_");
    reveal_strlit("<!-- WR_BLOCK_START:");
    reveal_strlit("<!-- WR_BLOCK_END:");
    reveal_strlit("START:");
    reveal_strlit("END:");
    let p = marker_prefix();
    assert(p =~= seq!['<', '!', '-', '-', ' ', 'W', 'R', '_', 'B', 'L', 'O', 'C', 'K', '_']);
    assert(BLOCK_PREFIX_START@ =~= p + "START:"@);
    assert(BLOCK_PREFIX_END@ =~= p + "END:"@);
    assert(start_marker(n) =~= p + ("START:"@ + n + MARKER_SUFFIX@));
    assert(end_marker(n) =~= p + ("END:"@ + n + MARKER_SUFFIX@));
}

/// In a block whose content holds no marker prefix, the prefix occurs only where the two
/// markers start.
proof fn lemma_prefix_only_at_markers(
    w: Seq<char>,
    sm: Seq<char>,
    x: Seq<char>,
    nl: Seq<char>,
    em: Seq<char>,
    i: int,
)
    requires
        w == sm + seq!['\n'] + x + nl + em + seq!['\n'],
        nl == seq!['\n'] || nl.len() == 0,
        sm.len() > 14,
        em.len() > 14,
        sm[0] == '<',
        em[0] == '<',
        forall|t: int| 0 < t < sm.len() ==> sm[t] != '<',
        forall|t: int| 0 < t < em.len() ==> em[t] != '<',
        !contains(x, marker_prefix()),
        matches_at(w, marker_prefix(), i),
    ensures
        i == 0 || i == sm.len() + 1 + x.len() + nl.len(),
{
    lemma_prefix_shape(seq![]);
    let p = marker_prefix();
    let ob: int = (sm.len() + 1) as int;
    let oe: int = ob + x.len();
    let k: int = oe + nl.len();
    assert(w.len() == k + em.len() + 1);
    let sub = w.subrange(i, i + 14);
    assert(sub == p);
    assert(w[i] == sub[0]);
    if 0 < i < sm.len() {
        assert(w[i] == sm[i]);
    } else if i == sm.len() {
        assert(w[i] == '\n');
    } else if ob <= i < oe {
        if i + 14 <= oe {
            assert(x.subrange(i - ob, i - ob + 14) =~= sub);
            assert(matches_at(x, p, i - ob));
        } else if nl.len() == 1 {
            assert(w[oe] == '\n');
            assert(w[oe] == sub[oe - i]);
        } else {
            assert(w[k] == em[0]);
            assert(w[k] == sub[k - i]);
        }
    } else if oe <= i < k {
        assert(w[i] == '\n');
    } else if k < i < k + em.len() {
        assert(w[i] == em[i - k]);
    }
}

/// `s` holds no space.
spec fn space_free(s: Seq<char>) -> bool
    decreases s.len(),
{
    s.len() == 0 || (s[0] != ' ' && space_free(s.drop_first()))
}

proof fn lemma_space_free_index(s: Seq<char>)
    requires
        space_free(s),
    ensures
        forall|i: int| 0 <= i < s.len() ==> s[i] != ' ',
    decreases s.len(),
{
    if s.len() > 0 {
        lemma_space_free_index(s.drop_first());
        assert forall|i: int| 0 <= i < s.len() implies s[i] != ' ' by {
            if i > 0 {
                assert(s[i] == s.drop_first()[i - 1]);
            }
        }
    }
}

/// The block names hold no space, and different blocks have different names.
proof fn lemma_block_names(b: StatsBlock, b2: StatsBlock)
    ensures
        space_free(name_of(b)),
        b != b2 ==> name_of(b) != name_of(b2),
{
    reveal_strlit("CATEGORY_TABLE");
    reveal_strlit("APP_USAGE_TABLE");
    reveal_strlit("HOURLY_SUMMARY");
    reveal_strlit("DOMAIN_USAGE_TABLE");
    reveal_strlit("LOCAL_OVERVIEW");
    reveal_strlit("LOCAL_CATEGORY");
    reveal_strlit("LOCAL_APP_USAGE");
    reveal_strlit("LOCAL_DOMAIN_USAGE");
    reveal_with_fuel(space_free, 20);
    if b != b2 && name_of(b).len() == name_of(b2).len() {
        assert(name_of(b)[0] != name_of(b2)[0] || name_of(b)[6] != name_of(b2)[6]);
    }
}

/// A block of the library whose content holds no marker prefix holds no start marker of
/// another block.
proof fn lemma_no_foreign_start(b: StatsBlock, b2: StatsBlock, x: Seq<char>, nl: Seq<char>)
    requires
        b != b2,
        nl == seq!['\n'] || nl.len() == 0,
        !contains(x, marker_prefix()),
    ensures
        !contains(
            start_marker(name_of(b)) + seq!['\n'] + x + nl + end_marker(name_of(b)) + seq!['\n'],
            start_marker(name_of(b2)),
        ),
{
    let n = name_of(b);
    let n2 = name_of(b2);
    let sm = start_marker(n);
    let em = end_marker(n);
    let s2 = start_marker(n2);
    let w = sm + seq!['\n'] + x + nl + em + seq!['\n'];
    lemma_marker_shape(b);
    lemma_prefix_shape(n);
    lemma_prefix_shape(n2);
    lemma_block_names(b, b2);
    lemma_block_names(b2, b);
    if contains(w, s2) {
        let i = choose|i: int| matches_at(w, s2, i);
        lemma_matches_prefix(w, marker_prefix(), "START:"@ + n2 + MARKER_SUFFIX@, i);
        lemma_prefix_only_at_markers(w, sm, x, nl, em, i);
        let sub = w.subrange(i, i + s2.len());
        assert(sub == s2);
        reveal_strlit("<!-- WR_BLOCK_START:");
        reveal_strlit(" -->");
        assert(sm =~= BLOCK_PREFIX_START@ + n + MARKER_SUFFIX@);
        assert(s2 =~= BLOCK_PREFIX_START@ + n2 + MARKER_SUFFIX@);
        if i == 0 {
            lemma_space_free_index(n);
            lemma_space_free_index(n2);
            assert forall|t: int| 0 <= t < sm.len() implies #[trigger] w[t] == sm[t] by {}
            if n.len() == n2.len() {
                assert forall|t: int| 0 <= t < n.len() implies n[t] == n2[t] by {
                    assert(w[20 + t] == sm[20 + t]);
                    assert(sub[20 + t] == w[20 + t]);
                }
                assert(n =~= n2);
            } else if n.len() < n2.len() {
                let t: int = (20 + n.len()) as int;
                assert(w[t] == sm[t]);
                assert(sub[t] == w[t]);
                assert(s2[t] == n2[n.len() as int]);
            } else {
                let t: int = (20 + n2.len()) as int;
                assert(w[t] == sm[t]);
                assert(sm[t] == n[n2.len() as int]);
                assert(sub[t] == w[t]);
            }
        } else {
            let k: int = (sm.len() + 1 + x.len() + nl.len()) as int;
            assert(w[k + 14] == em[14]);
            assert(sub[14] == w[k + 14]);
            assert(s2[14] == sm[14]);
        }
    }
}

/// What a live refresh writes for block `b`: its markers around the fresh content.
pub open spec fn refreshed_block(b: StatsBlock, fresh: Seq<char>) -> Seq<char> {
    start_marker(name_of(b)) + seq!['\n'] + fresh_body(fresh) + end_marker(name_of(b)) + seq!['\n']
}

/// One replacement step of a live refresh on a single wrapped block: another block's
/// replacement leaves the block as it is, before and after its own refresh; its own
/// replacement writes the fresh content.
proof fn lemma_refresh_step(b: StatsBlock, bk: StatsBlock, old: Seq<char>, fresh: Seq<char>, fk: Seq<char>)
    requires
        old.len() > 0,
        !contains(old, marker_prefix()),
        !contains(fresh, marker_prefix()),
    ensures
        bk != b ==> replace_block_spec(wrap_spec(name_of(b), old), name_of(bk), fk) == wrap_spec(
            name_of(b),
            old,
        ),
        bk != b ==> replace_block_spec(refreshed_block(b, fresh), name_of(bk), fk) == refreshed_block(
            b,
            fresh,
        ),
        bk == b && fk == fresh ==> replace_block_spec(wrap_spec(name_of(b), old), name_of(bk), fk)
            == refreshed_block(b, fresh),
{
    let n = name_of(b);
    let sm = start_marker(n);
    let em = end_marker(n);
    if bk != b {
        let nl: Seq<char> = if old.last() == '\n' {
            seq![]
        } else {
            seq!['\n']
        };
        assert(wrap_spec(n, old) == sm + seq!['\n'] + old + nl + em + seq!['\n']);
        lemma_no_foreign_start(b, bk, old, nl);
        lemma_replace_block_no_marker(wrap_spec(n, old), name_of(bk), fk);
        let t = trim_nl(fresh);
        lemma_trim_nl_contains(fresh, marker_prefix());
        if t.len() > 0 {
            assert(refreshed_block(b, fresh) =~= sm + seq!['\n'] + t + seq!['\n'] + em + seq!['\n']);
            lemma_no_foreign_start(b, bk, t, seq!['\n']);
        } else {
            let e: Seq<char> = seq![];
            assert(!contains(e, marker_prefix())) by {
                lemma_prefix_shape(n);
            }
            assert(refreshed_block(b, fresh) =~= sm + seq!['\n'] + e + e + em + seq!['\n']);
            lemma_no_foreign_start(b, bk, e, e);
        }
        lemma_replace_block_no_marker(refreshed_block(b, fresh), name_of(bk), fk);
    } else if fk == fresh {
        lemma_prefix_shape(n);
        if contains(old, em) {
            let i = choose|i: int| matches_at(old, em, i);
            lemma_matches_prefix(old, marker_prefix(), "END:"@ + n + MARKER_SUFFIX@, i);
        }
        lemma_replace_wrapped_block(b, old, fresh);
    }
}

/// Reading a saved report refreshes a statistics block that `wrap_block` wrote: when the
/// report is that block alone and neither its old content nor the block's fresh rendering
/// holds a marker prefix, the result is the block's markers around the fresh rendering
/// (trimmed of surrounding newlines, followed by one newline when anything is left).
pub proof fn lemma_live_stats_refreshes_block(b: StatsBlock, old: Seq<char>, stats: ReportStats, l: AppLocale)
    requires
        old.len() > 0,
        !contains(old, marker_prefix()),
        !contains(render_spec(b, stats, l), marker_prefix()),
    ensures
        live_stats_spec(wrap_spec(name_of(b), old), stats, l) == refreshed_block(b, render_spec(b, stats, l)),
{
    let f = render_spec(b, stats, l);
    lemma_refresh_step(b, StatsBlock::CategoryTable, old, f, category_table_spec(stats, l));
    lemma_refresh_step(b, StatsBlock::AppUsageTable, old, f, app_table_spec(stats, l));
    lemma_refresh_step(b, StatsBlock::HourlySummary, old, f, hourly_summary_spec(stats, l));
    lemma_refresh_step(b, StatsBlock::DomainUsageTable, old, f, domain_table_spec(stats, l));
    lemma_refresh_step(b, StatsBlock::LocalOverview, old, f, local_overview_spec(stats, l));
    lemma_refresh_step(b, StatsBlock::LocalCategory, old, f, local_category_spec(stats, l));
    lemma_refresh_step(b, StatsBlock::LocalAppUsage, old, f, local_app_spec(stats, l));
    lemma_refresh_step(b, StatsBlock::LocalDomainUsage, old, f, local_domain_spec(stats, l));
}

proof fn lemma_push_contains<T>(s: Seq<T>, x: T)
    ensures
        forall|b: T| #[trigger] s.push(x).contains(b) <==> (s.contains(b) || b == x),
{
    assert forall|b: T| #[trigger] s.push(x).contains(b) <==> (s.contains(b) || b == x) by {
        if s.push(x).contains(b) {
            let i = choose|i: int| 0 <= i < s.push(x).len() && s.push(x)[i] == b;
            if i < s.len() {
                assert(s[i] == b);
            }
        }
        if s.contains(b) {
            let i = choose|i: int| 0 <= i < s.len() && s[i] == b;
            assert(s.push(x)[i] == b);
        }
        if b == x {
            assert(s.push(x)[s.len() as int] == b);
        }
    }
}

proof fn lemma_concat_contains<T>(a: Seq<T>, c: Seq<T>)
    ensures
        forall|b: T| #[trigger] (a + c).contains(b) <==> (a.contains(b) || c.contains(b)),
{
    assert forall|b: T| #[trigger] (a + c).contains(b) <==> (a.contains(b) || c.contains(b)) by {
        if (a + c).contains(b) {
            let i = choose|i: int| 0 <= i < (a + c).len() && (a + c)[i] == b;
            if i < a.len() {
                assert(a[i] == b);
            } else {
                assert(c[i - a.len()] == b);
            }
        }
        if a.contains(b) {
            let i = choose|i: int| 0 <= i < a.len() && a[i] == b;
            assert((a + c)[i] == b);
        }
        if c.contains(b) {
            let i = choose|i: int| 0 <= i < c.len() && c[i] == b;
            assert((a + c)[a.len() + i] == b);
        }
    }
}

proof fn lemma_split_last<T>(s: Seq<T>)
    requires
        s.len() > 0,
    ensures
        s == s.drop_last().push(s.last()),
        s.no_duplicates() ==> s.drop_last().no_duplicates() && !s.drop_last().contains(s.last()),
{
    assert(s =~= s.drop_last().push(s.last()));
    let d = s.drop_last();
    if s.no_duplicates() {
        assert forall|i: int, j: int| 0 <= i < d.len() && 0 <= j < d.len() && i != j implies d[i]
            != d[j] by {
            assert(d[i] == s[i] && d[j] == s[j]);
        }
        if d.contains(s.last()) {
            let k = choose|k: int| 0 <= k < d.len() && d[k] == s.last();
            assert(s[k] == s[s.len() - 1]);
        }
    }
}

proof fn lemma_push_no_dup<T>(s: Seq<T>, x: T)
    requires
        s.no_duplicates(),
        !s.contains(x),
    ensures
        s.push(x).no_duplicates(),
{
    let t = s.push(x);
    assert forall|i: int, j: int| 0 <= i < t.len() && 0 <= j < t.len() && i != j implies t[i]
        != t[j] by {
        if i < s.len() && j < s.len() {
            assert(t[i] == s[i] && t[j] == s[j]);
        } else if i < s.len() {
            assert(t[i] == s[i]);
        } else if j < s.len() {
            assert(t[j] == s[j]);
        }
    }
}

proof fn lemma_ai_picked(ai: Seq<Seq<char>>, available: Seq<StatsBlock>)
    ensures
        ai_picked(ai, available).no_duplicates(),
        forall|b: StatsBlock| #[trigger]
            ai_picked(ai, available).contains(b) ==> available.contains(b),
    decreases ai.len(),
{
    if ai.len() > 0 {
        let prev = ai_picked(ai.drop_last(), available);
        lemma_ai_picked(ai.drop_last(), available);
        if let Some(b0) = parse_block_name_spec(ai.last()) {
            if available.contains(b0) && !prev.contains(b0) {
                lemma_push_contains(prev, b0);
                lemma_push_no_dup(prev, b0);
            }
        }
    }
}

proof fn lemma_not_picked(available: Seq<StatsBlock>, picked: Seq<StatsBlock>)
    ensures
        forall|b: StatsBlock| #[trigger]
            not_picked(available, picked).contains(b) <==> (available.contains(b)
                && !picked.contains(b)),
        available.no_duplicates() ==> not_picked(available, picked).no_duplicates(),
    decreases available.len(),
{
    if available.len() > 0 {
        let d = available.drop_last();
        let x = available.last();
        let prev = not_picked(d, picked);
        lemma_not_picked(d, picked);
        lemma_split_last(available);
        lemma_push_contains(d, x);
        if !picked.contains(x) {
            lemma_push_contains(prev, x);
            if available.no_duplicates() {
                lemma_push_no_dup(prev, x);
            }
        }
    }
}

/// When the available blocks are distinct, merging an AI order keeps exactly the
/// available blocks, each once, whatever the AI returned.
pub proof fn lemma_merge_ai_order_is_permutation(ai: Seq<Seq<char>>, available: Seq<StatsBlock>)
    requires
        available.no_duplicates(),
    ensures
        merge_ai_order_spec(ai, available).no_duplicates(),
        forall|b: StatsBlock| #[trigger]
            merge_ai_order_spec(ai, available).contains(b) <==> available.contains(b),
{
    let picked = ai_picked(ai, available);
    let rest = not_picked(available, picked);
    let r = merge_ai_order_spec(ai, available);
    lemma_ai_picked(ai, available);
    lemma_not_picked(available, picked);
    lemma_concat_contains(picked, rest);
    assert(r == picked + rest);
    assert forall|i: int, j: int| 0 <= i < r.len() && 0 <= j < r.len() && i != j implies r[i]
        != r[j] by {
        if i < picked.len() && j >= picked.len() {
            assert(r[j] == rest[j - picked.len()]);
            assert(rest.contains(r[j]));
            assert(picked[i] == r[i]);
            assert(picked.contains(r[i]));
        } else if j < picked.len() && i >= picked.len() {
            assert(r[i] == rest[i - picked.len()]);
            assert(rest.contains(r[i]));
            assert(picked[j] == r[j]);
            assert(picked.contains(r[j]));
        } else if i >= picked.len() && j >= picked.len() {
            assert(r[i] == rest[i - picked.len()]);
            assert(r[j] == rest[j - picked.len()]);
        } else {
            assert(r[i] == picked[i] && r[j] == picked[j]);
        }
    }
}

proof fn lemma_pinned_blocks(blocks: Seq<StatsBlock>, pinned: Seq<Seq<char>>)
    ensures
        forall|b: StatsBlock| #[trigger] pinned_blocks(blocks, pinned).contains(b) ==> blocks.contains(b),
        forall|b: StatsBlock| blocks.contains(b) && pinned.contains(name_of(b)) ==> #[trigger] pinned_blocks(blocks, pinned).contains(b),
    decreases pinned.len(),
{
    if pinned.len() > 0 {
        let d = pinned.drop_last();
        let prev = pinned_blocks(blocks, d);
        lemma_pinned_blocks(blocks, d);
        lemma_block_for_key_is_name(pinned.last());
        lemma_split_last(pinned);
        lemma_push_contains(d, pinned.last());
        if let Some(b0) = block_for_key(pinned.last()) {
            if blocks.contains(b0) {
                lemma_push_contains(prev, b0);
            }
        }
        assert forall|b: StatsBlock| blocks.contains(b) && pinned.contains(name_of(b)) implies #[trigger] pinned_blocks(blocks, pinned).contains(b) by {
            if !d.contains(name_of(b)) {
                lemma_block_for_key_name(b);
            }
        }
    }
}

proof fn lemma_unpinned_blocks(blocks: Seq<StatsBlock>, pinned: Seq<Seq<char>>)
    ensures
        forall|b: StatsBlock| #[trigger] unpinned_blocks(blocks, pinned).contains(b) <==> (blocks.contains(b) && !pinned.contains(name_of(b))),
        pinned.len() == 0 ==> unpinned_blocks(blocks, pinned) == blocks,
    decreases blocks.len(),
{
    if blocks.len() > 0 {
        let d = blocks.drop_last();
        let x = blocks.last();
        let prev = unpinned_blocks(d, pinned);
        lemma_unpinned_blocks(d, pinned);
        lemma_split_last(blocks);
        lemma_push_contains(d, x);
        if !pinned.contains(name_of(x)) {
            lemma_push_contains(prev, x);
        }
    } else {
        assert(unpinned_blocks(blocks, pinned) =~= blocks);
    }
}

/// Pinning reorders without losing or inventing blocks: the result holds exactly the
/// blocks of the input; with nothing pinned the order is unchanged.
pub proof fn lemma_apply_preferences_keeps_blocks(blocks: Seq<StatsBlock>, pinned: Seq<Seq<char>>)
    ensures
        forall|b: StatsBlock| #[trigger]
            (pinned_blocks(blocks, pinned) + unpinned_blocks(blocks, pinned)).contains(b)
                <==> blocks.contains(b),
        pinned.len() == 0 ==> pinned_blocks(blocks, pinned) + unpinned_blocks(blocks, pinned)
            == blocks,
{
    let p = pinned_blocks(blocks, pinned);
    let u = unpinned_blocks(blocks, pinned);
    lemma_pinned_blocks(blocks, pinned);
    lemma_unpinned_blocks(blocks, pinned);
    lemma_concat_contains(p, u);
    if pinned.len() == 0 {
        assert(p =~= Seq::<StatsBlock>::empty());
        assert(p + u =~= u);
    }
}

} // verus!
