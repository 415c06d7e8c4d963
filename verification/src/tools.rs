//! The work assistant's tools: duration and category helpers, the collection of cited
//! records, the privacy filter on search hits, and the tool registry.
use vstd::prelude::*;
use crate::report_blocks::string_views;
use crate::json::{Json, JsonV, arr_v, obj_v, push_member, push_item, json_str};
use crate::text::{
    chars_of, contains, decimal, int_text, lower_case, push_char, push_i64, push_str, push_u64,
    str_contains, str_eq, string_of, to_lower, trim, trim_chars, is_ws, trim_start, trim_end, matches_at,
};

verus! {

/// What `format_duration_compact` gives: `"0s"` for no time, else hours and minutes
/// (`"1h0m"`), minutes alone (`"2m"`), or seconds alone (`"45s"`).
pub open spec fn duration_compact(seconds: int) -> Seq<char> {
    if seconds <= 0 {
        "0s"@
    } else {
        let h = seconds / 3600;
        let m = (seconds % 3600) / 60;
        let s = seconds % 60;
        if h > 0 {
            decimal(h as nat) + seq!['h'] + decimal(m as nat) + seq!['m']
        } else if m > 0 {
            decimal(m as nat) + seq!['m']
        } else {
            decimal(s as nat) + seq!['s']
        }
    }
}

/// A duration in seconds, written compactly.
pub fn format_duration_compact(seconds: i64) -> (r: String)
    ensures
        r@ == duration_compact(seconds as int),
{
    if seconds <= 0 {
        return "0s".to_owned();
    }
    let h = seconds / 3600;
    let m = (seconds % 3600) / 60;
    let s = seconds % 60;
    let mut out = String::new();
    let ghost start = out@;
    if h > 0 {
        push_i64(&mut out, h);
        push_char(&mut out, 'h');
        push_i64(&mut out, m);
        push_char(&mut out, 'm');
    } else if m > 0 {
        push_i64(&mut out, m);
        push_char(&mut out, 'm');
    } else {
        push_i64(&mut out, s);
        push_char(&mut out, 's');
    }
    assert(out@ =~= duration_compact(seconds as int));
    out
}

/// The category keys and their Chinese names, in lookup order.
pub open spec fn category_mapping() -> Seq<(Seq<char>, Seq<char>)> {
    seq![
        ("development"@, "开发工具"@),
        ("browser"@, "浏览器"@),
        ("communication"@, "通讯协作"@),
        ("office"@, "办公软件"@),
        ("design"@, "设计工具"@),
        ("entertainment"@, "娱乐"@),
        ("other"@, "其他"@),
    ]
}

/// The first mapping entry, from index `k` on, that `input` (trimmed) or `lower` (its
/// lowercase form) selects: the key itself, the Chinese name, or part of the Chinese name.
pub open spec fn resolve_from(input: Seq<char>, lower: Seq<char>, k: int) -> Option<Seq<char>>
    decreases 7 - k,
{
    if k < 0 || k >= 7 {
        None
    } else {
        let (key, chinese) = category_mapping()[k];
        if lower == key || input == chinese || contains(chinese, input) {
            Some(key)
        } else {
            resolve_from(input, lower, k + 1)
        }
    }
}

/// What `resolve_category_key` gives.
pub open spec fn resolve_category_spec(input: Seq<char>) -> Option<Seq<char>> {
    let t = trim(input);
    if t.len() == 0 {
        None
    } else {
        resolve_from(t, lower_case(t), 0)
    }
}

/// The English keys of the categories.
pub open spec fn is_category_key(s: Seq<char>) -> bool {
    s == "development"@ || s == "browser"@ || s == "communication"@ || s == "office"@ || s == "design"@
        || s == "entertainment"@ || s == "other"@
}

/// Text without the pattern's first character holds no occurrence of the pattern.
proof fn lemma_no_first_char(s: Seq<char>, p: Seq<char>)
    requires
        p.len() > 0,
        forall|i: int| 0 <= i < s.len() ==> s[i] != p[0],
    ensures
        !contains(s, p),
        s != p,
{
    if contains(s, p) {
        let i = choose|i: int| matches_at(s, p, i);
        assert(s.subrange(i, i + p.len())[0] == s[i]);
    }
    if s == p {
        assert(s[0] == p[0]);
    }
}

/// Lookup goes past the entries that the input does not select.
proof fn lemma_resolve_skips(input: Seq<char>, lower: Seq<char>, k: int)
    requires
        0 <= k <= 7,
        forall|j: int|
            0 <= j < k ==> !(lower == (#[trigger] category_mapping()[j]).0 || input == category_mapping()[j].1
                || contains(category_mapping()[j].1, input)),
    ensures
        resolve_from(input, lower, 0) == resolve_from(input, lower, k),
    decreases k,
{
    if k > 0 {
        lemma_resolve_skips(input, lower, k - 1);
    }
}

/// A Chinese name of the mapping, with no surrounding whitespace, whose lowercase form is no
/// English key and which no earlier entry selects, resolves to its own key.
proof fn lemma_resolve_entry(input: Seq<char>, k: int)
    requires
        0 <= k < 7,
        input.len() > 0,
        !is_ws(input[0]),
        !is_ws(input.last()),
        input == category_mapping()[k].1,
        !is_category_key(lower_case(input)),
        forall|j: int|
            0 <= j < k ==> input != (#[trigger] category_mapping()[j]).1 && !contains(category_mapping()[j].1, input),
    ensures
        resolve_category_spec(input) == Some(category_mapping()[k].0),
{
    assert(trim_start(input) == input);
    assert(trim_end(input) == input);
    assert(trim(input) == input);
    let lower = lower_case(input);
    assert forall|j: int| 0 <= j < 7 implies lower != (#[trigger] category_mapping()[j]).0 by {}
    lemma_resolve_skips(input, lower, k);
}

/// Each Chinese category name resolves to its own English key: 开发工具 to development,
/// 浏览器 to browser, 通讯协作 to communication, 办公软件 to office, 设计工具 to design,
/// 娱乐 to entertainment and 其他 to other (the English keys are matched first, so each
/// statement holds where the name's lowercase form is no English key, as std's lowercasing
/// of these characters gives).
pub proof fn lemma_chinese_names_resolve_to_their_keys()
    ensures
        !is_category_key(lower_case("开发工具"@)) ==> resolve_category_spec("开发工具"@) == Some("development"@),
        !is_category_key(lower_case("浏览器"@)) ==> resolve_category_spec("浏览器"@) == Some("browser"@),
        !is_category_key(lower_case("通讯协作"@)) ==> resolve_category_spec("通讯协作"@) == Some("communication"@),
        !is_category_key(lower_case("办公软件"@)) ==> resolve_category_spec("办公软件"@) == Some("office"@),
        !is_category_key(lower_case("设计工具"@)) ==> resolve_category_spec("设计工具"@) == Some("design"@),
        !is_category_key(lower_case("娱乐"@)) ==> resolve_category_spec("娱乐"@) == Some("entertainment"@),
        !is_category_key(lower_case("其他"@)) ==> resolve_category_spec("其他"@) == Some("other"@),
{
    reveal_strlit("开发工具");
    reveal_strlit("浏览器");
    reveal_strlit("通讯协作");
    reveal_strlit("办公软件");
    reveal_strlit("设计工具");
    reveal_strlit("娱乐");
    reveal_strlit("其他");
    reveal_strlit("development");
    reveal_strlit("browser");
    reveal_strlit("communication");
    reveal_strlit("office");
    reveal_strlit("design");
    reveal_strlit("entertainment");
    reveal_strlit("other");
    if !is_category_key(lower_case("开发工具"@)) {

        lemma_resolve_entry("开发工具"@, 0);
    }
    if !is_category_key(lower_case("浏览器"@)) {
        lemma_no_first_char("开发工具"@, "浏览器"@);
        lemma_resolve_entry("浏览器"@, 1);
    }
    if !is_category_key(lower_case("通讯协作"@)) {
        lemma_no_first_char("开发工具"@, "通讯协作"@);
        lemma_no_first_char("浏览器"@, "通讯协作"@);
        lemma_resolve_entry("通讯协作"@, 2);
    }
    if !is_category_key(lower_case("办公软件"@)) {
        lemma_no_first_char("开发工具"@, "办公软件"@);
        lemma_no_first_char("浏览器"@, "办公软件"@);
        lemma_no_first_char("通讯协作"@, "办公软件"@);
        lemma_resolve_entry("办公软件"@, 3);
    }
    if !is_category_key(lower_case("设计工具"@)) {
        lemma_no_first_char("开发工具"@, "设计工具"@);
        lemma_no_first_char("浏览器"@, "设计工具"@);
        lemma_no_first_char("通讯协作"@, "设计工具"@);
        lemma_no_first_char("办公软件"@, "设计工具"@);
        lemma_resolve_entry("设计工具"@, 4);
    }
    if !is_category_key(lower_case("娱乐"@)) {
        lemma_no_first_char("开发工具"@, "娱乐"@);
        lemma_no_first_char("浏览器"@, "娱乐"@);
        lemma_no_first_char("通讯协作"@, "娱乐"@);
        lemma_no_first_char("办公软件"@, "娱乐"@);
        lemma_no_first_char("设计工具"@, "娱乐"@);
        lemma_resolve_entry("娱乐"@, 5);
    }
    if !is_category_key(lower_case("其他"@)) {
        lemma_no_first_char("开发工具"@, "其他"@);
        lemma_no_first_char("浏览器"@, "其他"@);
        lemma_no_first_char("通讯协作"@, "其他"@);
        lemma_no_first_char("办公软件"@, "其他"@);
        lemma_no_first_char("设计工具"@, "其他"@);
        lemma_no_first_char("娱乐"@, "其他"@);
        lemma_resolve_entry("其他"@, 6);
    }
}

fn mapping_entry(k: usize) -> (r: (&'static str, &'static str))
    requires
        k < 7,
    ensures
        (r.0@, r.1@) == category_mapping()[k as int],
{
    if k == 0 {
        ("development", "开发工具")
    } else if k == 1 {
        ("browser", "浏览器")
    } else if k == 2 {
        ("communication", "通讯协作")
    } else if k == 3 {
        ("office", "办公软件")
    } else if k == 4 {
        ("design", "设计工具")
    } else if k == 5 {
        ("entertainment", "娱乐")
    } else {
        ("other", "其他")
    }
}

/// Maps a category name to its key: an English key in any case, a Chinese name, or part of
/// a Chinese name ("开发" gives "development"). Blank input and unknown names give `None`.
pub fn resolve_category_key(input: &str) -> (r: Option<String>)
    ensures
        match r {
            Some(k) => resolve_category_spec(input@) == Some(k@),
            None => resolve_category_spec(input@) is None,
        },
{
    let cv = chars_of(input);
    let tv = trim_chars(cv.as_slice());
    if tv.len() == 0 {
        return None;
    }
    let t = string_of(tv.as_slice());
    let lower = to_lower(t.as_str());
    let mut k: usize = 0;
    while k < 7
        invariant
            k <= 7,
            t@ == trim(input@),
            lower@ == lower_case(t@),
            t@.len() > 0,
            resolve_category_spec(input@) == resolve_from(t@, lower@, k as int),
        decreases 7 - k,
    {
        let (key, chinese) = mapping_entry(k);
        if str_eq(lower.as_str(), key) || str_eq(t.as_str(), chinese) || str_contains(chinese, t.as_str()) {
            return Some(key.to_owned());
        }
        k = k + 1;
    }
    None
}

/// A record that a tool cites as evidence for an answer.
#[derive(Debug)]
pub struct MemorySearchItem {
    pub source_id: i64,
    pub timestamp: i64,
    pub date: String,
    pub title: String,
    pub app_name: Option<String>,
    pub browser_url: Option<String>,
    /// Recorded seconds, when known.
    pub duration: Option<i64>,
}

fn clone_opt_string(s: &Option<String>) -> (r: Option<String>)
    ensures
        r == *s,
{
    match s {
        Some(x) => Some(x.clone()),
        None => None,
    }
}

impl Clone for MemorySearchItem {
    fn clone(&self) -> (r: Self)
        ensures
            r == *self,
    {
        MemorySearchItem {
            source_id: self.source_id,
            timestamp: self.timestamp,
            date: self.date.clone(),
            title: self.title.clone(),
            app_name: clone_opt_string(&self.app_name),
            browser_url: clone_opt_string(&self.browser_url),
            duration: self.duration,
        }
    }
}

/// Two citations are the same record: same source, time and title.
pub open spec fn same_record(a: MemorySearchItem, b: MemorySearchItem) -> bool {
    a.source_id == b.source_id && a.timestamp == b.timestamp && a.title@ == b.title@
}

/// `buf` already cites the record `x`.
pub open spec fn cites(buf: Seq<MemorySearchItem>, x: MemorySearchItem) -> bool {
    exists|i: int| 0 <= i < buf.len() && same_record(#[trigger] buf[i], x)
}

/// `buf` after adding `items` in order, each only when not already cited.
pub open spec fn collect_spec(buf: Seq<MemorySearchItem>, items: Seq<MemorySearchItem>) -> Seq<MemorySearchItem>
    decreases items.len(),
{
    if items.len() == 0 {
        buf
    } else {
        let b = collect_spec(buf, items.drop_last());
        if cites(b, items.last()) {
            b
        } else {
            b.push(items.last())
        }
    }
}

/// What a tool call needs besides the database: the user's privacy settings and the
/// records cited so far.
pub struct ToolContext {
    /// Ignored applications (lowercase substrings).
    pub ignored_apps: Vec<String>,
    /// Excluded domains.
    pub excluded_domains: Vec<String>,
    /// Records cited by the tools so far, for the answer's evidence.
    pub collected_references: Vec<MemorySearchItem>,
}

/// A search hit is kept by the privacy filter: its application is not ignored and neither
/// its URL nor its title names an excluded domain.
pub open spec fn search_hit_allowed(
    ignored: Seq<Seq<char>>,
    excluded: Seq<Seq<char>>,
    r: MemorySearchItem,
) -> bool {
    let app_hidden = ignored.len() > 0 && match r.app_name {
        Some(app) => exists|i: int|
            0 <= i < ignored.len() && (contains(lower_case(app@), #[trigger] ignored[i])
                || contains(ignored[i], lower_case(app@))),
        None => false,
    };
    let url: Seq<char> = match r.browser_url {
        Some(u) => u@,
        None => Seq::empty(),
    };
    let domain_hidden = excluded.len() > 0 && exists|i: int|
        0 <= i < excluded.len() && (contains(lower_case(url), lower_case(#[trigger] excluded[i]))
            || contains(lower_case(r.title@), lower_case(excluded[i])));
    !app_hidden && !domain_hidden
}

/// The hits that pass the privacy filter, in order.
pub open spec fn allowed_hits(
    ignored: Seq<Seq<char>>,
    excluded: Seq<Seq<char>>,
    hits: Seq<MemorySearchItem>,
) -> Seq<MemorySearchItem>
    decreases hits.len(),
{
    if hits.len() == 0 {
        seq![]
    } else {
        let prev = allowed_hits(ignored, excluded, hits.drop_last());
        if search_hit_allowed(ignored, excluded, hits.last()) {
            prev.push(hits.last())
        } else {
            prev
        }
    }
}

impl ToolContext {
    /// Adds the cited records, skipping any record (same source, time and title) that is
    /// already cited.
    pub fn collect_references(&mut self, items: Vec<MemorySearchItem>)
        ensures
            final(self).collected_references@ == collect_spec(
                old(self).collected_references@,
                items@,
            ),
            final(self).ignored_apps == old(self).ignored_apps,
            final(self).excluded_domains == old(self).excluded_domains,
    {
        let ghost start = self.collected_references@;
        let mut k: usize = 0;
        while k < items.len()
            invariant
                k <= items.len(),
                self.ignored_apps == old(self).ignored_apps,
                self.excluded_domains == old(self).excluded_domains,
                start == old(self).collected_references@,
                self.collected_references@ == collect_spec(start, items@.take(k as int)),
            decreases items.len() - k,
        {
            assert(items@.take(k + 1).drop_last() =~= items@.take(k as int));
            if !self.already_cited(&items[k]) {
                self.collected_references.push(items[k].clone());
            }
            k = k + 1;
        }
        assert(items@.take(items.len() as int) =~= items@);
    }

    /// Whether the record is already cited.
    fn already_cited(&self, x: &MemorySearchItem) -> (r: bool)
        ensures
            r == cites(self.collected_references@, *x),
    {
        let buf = &self.collected_references;
        let mut i: usize = 0;
        while i < buf.len()
            invariant
                i <= buf.len(),
                buf@ == self.collected_references@,
                forall|j: int| 0 <= j < i ==> !same_record(#[trigger] buf@[j], *x),
            decreases buf.len() - i,
        {
            let b = &buf[i];
            if b.source_id == x.source_id && b.timestamp == x.timestamp && str_eq(b.title.as_str(), x.title.as_str()) {
                assert(same_record(buf@[i as int], *x));
                assert(cites(self.collected_references@, *x));
                return true;
            }
            i = i + 1;
        }
        false
    }

    /// The number of records cited so far.
    pub fn references_len(&self) -> (r: usize)
        ensures
            r == self.collected_references@.len(),
    {
        self.collected_references.len()
    }

    /// Copies of the records cited from index `start` on (none when `start` is past the end).
    pub fn drain_from(&self, start: usize) -> (r: Vec<MemorySearchItem>)
        ensures
            start <= self.collected_references@.len() ==> r@ == self.collected_references@.skip(
                start as int,
            ),
            start > self.collected_references@.len() ==> r@.len() == 0,
    {
        let buf = &self.collected_references;
        let mut out: Vec<MemorySearchItem> = Vec::new();
        if start > buf.len() {
            return out;
        }
        let mut i = start;
        while i < buf.len()
            invariant
                start <= i <= buf.len(),
                out@ == buf@.subrange(start as int, i as int),
            decreases buf.len() - i,
        {
            out.push(buf[i].clone());
            i = i + 1;
            assert(out@ =~= buf@.subrange(start as int, i as int));
        }
        assert(buf@.subrange(start as int, buf.len() as int) =~= buf@.skip(start as int));
        out
    }

    /// Takes out all cited records, leaving none.
    pub fn take_all_references(&mut self) -> (r: Vec<MemorySearchItem>)
        ensures
            r@ == old(self).collected_references@,
            final(self).collected_references@.len() == 0,
            final(self).ignored_apps == old(self).ignored_apps,
            final(self).excluded_domains == old(self).excluded_domains,
    {
        let mut taken: Vec<MemorySearchItem> = Vec::new();
        std::mem::swap(&mut taken, &mut self.collected_references);
        taken
    }

    /// Whether a search hit passes the user's privacy settings.
    fn hit_allowed(&self, r: &MemorySearchItem) -> (b: bool)
        ensures
            b == search_hit_allowed(
                string_views(self.ignored_apps@),
                string_views(self.excluded_domains@),
                *r,
            ),
    {
        let ghost ig = string_views(self.ignored_apps@);
        let ghost ex = string_views(self.excluded_domains@);
        if self.ignored_apps.len() > 0 {
            if let Some(app) = &r.app_name {
                let app_lower = to_lower(app.as_str());
                let mut i: usize = 0;
                while i < self.ignored_apps.len()
                    invariant
                        i <= self.ignored_apps.len(),
                        ig == string_views(self.ignored_apps@),
                        app_lower@ == lower_case(app@),
                        r.app_name == Some(*app),
                        ig.len() > 0,
                        forall|j: int| 0 <= j < i ==> !(contains(lower_case(app@), #[trigger] ig[j]) || contains(ig[j], lower_case(app@))),
                    decreases self.ignored_apps.len() - i,
                {
                    let g = self.ignored_apps[i].as_str();
                    if str_contains(app_lower.as_str(), g) || str_contains(g, app_lower.as_str()) {
                        assert(contains(lower_case(app@), ig[i as int]) || contains(ig[i as int], lower_case(app@)));
                        assert(exists|j: int| 0 <= j < ig.len() && (contains(lower_case(app@), #[trigger] ig[j]) || contains(ig[j], lower_case(app@))));
                        return false;
                    }
                    i = i + 1;
                }
            }
        }
        if self.excluded_domains.len() > 0 {
            let url_lower = match &r.browser_url {
                Some(u) => to_lower(u.as_str()),
                None => to_lower(""),
            };
            proof {
                reveal_strlit("");
            }
            let title_lower = to_lower(r.title.as_str());
            let ghost url: Seq<char> = match &r.browser_url {
                Some(u) => u@,
                None => Seq::empty(),
            };
            assert(url_lower@ == lower_case(url));
            let mut i: usize = 0;
            while i < self.excluded_domains.len()
                invariant
                    i <= self.excluded_domains.len(),
                    ex == string_views(self.excluded_domains@),
                    ex.len() > 0,
                    url == (match r.browser_url {
                        Some(u) => u@,
                        None => Seq::<char>::empty(),
                    }),
                    url_lower@ == lower_case(url),
                    title_lower@ == lower_case(r.title@),
                    forall|j: int| 0 <= j < i ==> !(contains(lower_case(url), lower_case(#[trigger] ex[j])) || contains(lower_case(r.title@), lower_case(ex[j]))),
                decreases self.excluded_domains.len() - i,
            {
                let e = to_lower(self.excluded_domains[i].as_str());
                if str_contains(url_lower.as_str(), e.as_str()) || str_contains(title_lower.as_str(), e.as_str()) {
                    assert(contains(lower_case(url), lower_case(ex[i as int])) || contains(lower_case(r.title@), lower_case(ex[i as int])));
                    return false;
                }
                i = i + 1;
            }
        }
        true
    }

    /// Drops the search hits that the user's privacy settings hide: hits of an ignored
    /// application, and hits whose URL or title names an excluded domain (case-insensitive).
    pub fn filter_search_results(&self, hits: Vec<MemorySearchItem>) -> (r: Vec<MemorySearchItem>)
        ensures
            r@ == allowed_hits(
                string_views(self.ignored_apps@),
                string_views(self.excluded_domains@),
                hits@,
            ),
    {
        let ghost ig = string_views(self.ignored_apps@);
        let ghost ex = string_views(self.excluded_domains@);
        let mut out: Vec<MemorySearchItem> = Vec::new();
        let mut i: usize = 0;
        while i < hits.len()
            invariant
                i <= hits.len(),
                ig == string_views(self.ignored_apps@),
                ex == string_views(self.excluded_domains@),
                out@ == allowed_hits(ig, ex, hits@.take(i as int)),
            decreases hits.len() - i,
        {
            assert(hits@.take(i + 1).drop_last() =~= hits@.take(i as int));
            if self.hit_allowed(&hits[i]) {
                out.push(hits[i].clone());
            }
            i = i + 1;
        }
        assert(hits@.take(hits.len() as int) =~= hits@);
        out
    }
}


/// Truncating division by a positive number (Rust's `/` on integers).
pub open spec fn tdiv(a: int, b: int) -> int {
    if a >= 0 {
        a / b
    } else {
        -((-a) / b)
    }
}

/// Remainder of truncating division (Rust's `%` on integers).
pub open spec fn tmod(a: int, b: int) -> int {
    a - b * tdiv(a, b)
}

/// The duration shown with a search hit: hours and minutes (`"1h5m"`) when there is at
/// least an hour, else minutes (`"5m"`); nothing when the duration is unknown.
pub open spec fn hit_duration_text(d: Option<i64>) -> Seq<char> {
    match d {
        None => seq![],
        Some(x) => {
            let h = tdiv(x as int, 3600);
            let m = tdiv(tmod(x as int, 3600), 60);
            if h > 0 {
                int_text(h) + seq!['h'] + int_text(m) + seq!['m']
            } else {
                int_text(m) + seq!['m']
            }
        },
    }
}

/// One line of the search results: date, title, application, duration.
pub open spec fn hit_line(r: MemorySearchItem) -> Seq<char> {
    "  - "@ + r.date@ + " | "@ + r.title@ + (match r.app_name {
        Some(a) => " | "@ + a@,
        None => seq![],
    }) + " | "@ + hit_duration_text(r.duration)
}

/// The hit lines, each preceded by a newline.
pub open spec fn hit_lines(hits: Seq<MemorySearchItem>) -> Seq<char>
    decreases hits.len(),
{
    if hits.len() == 0 {
        seq![]
    } else {
        hit_lines(hits.drop_last()) + seq!['\n'] + hit_line(hits.last())
    }
}

/// What `format_search_results` gives.
pub open spec fn search_results_text(query: Seq<char>, hits: Seq<MemorySearchItem>) -> Seq<char> {
    if hits.len() == 0 {
        "搜索 '"@ + query + "' 无结果。"@
    } else {
        "搜索 '"@ + query + "' 的结果（共"@ + decimal(hits.len()) + "条）："@ + hit_lines(hits)
    }
}

/// Hours and minutes of a duration, with Rust's truncating division.
pub fn hours_minutes(d: i64) -> (r: (i64, i64))
    ensures
        r.0 == tdiv(d as int, 3600),
        r.1 == tdiv(tmod(d as int, 3600), 60),
{
    if d >= 0 {
        (d / 3600, (d % 3600) / 60)
    } else {
        let a: i128 = -(d as i128);
        let h: i128 = a / 3600;
        let m: i128 = (a % 3600) / 60;
        assert(tmod(d as int, 3600) == -(a % 3600));
        ((-h) as i64, (-m) as i64)
    }
}

fn push_hit_duration(out: &mut String, d: Option<i64>)
    ensures
        final(out)@ == old(out)@ + hit_duration_text(d),
{
    let ghost start = out@;
    if let Some(d) = d {
        let (hh, mm) = hours_minutes(d);
        if hh > 0 {
            push_i64(out, hh);
            push_char(out, 'h');
            push_i64(out, mm);
            push_char(out, 'm');
        } else {
            push_i64(out, mm);
            push_char(out, 'm');
        }
    }
    assert(out@ =~= start + hit_duration_text(d));
}

fn push_hit_line(out: &mut String, h: &MemorySearchItem)
    ensures
        final(out)@ == old(out)@ + seq!['\n'] + hit_line(*h),
{
    let ghost start = out@;
    push_char(out, '\n');
    push_str(out, "  - ");
    push_str(out, h.date.as_str());
    push_str(out, " | ");
    push_str(out, h.title.as_str());
    let ghost mid = out@;
    if let Some(a) = &h.app_name {
        push_str(out, " | ");
        push_str(out, a.as_str());
    }
    let ghost app_part: Seq<char> = match &h.app_name {
        Some(a) => " | "@ + a@,
        None => seq![],
    };
    assert(out@ =~= mid + app_part);
    push_str(out, " | ");
    push_hit_duration(out, h.duration);
    assert(out@ =~= start + seq!['\n'] + hit_line(*h));
}

/// The text a search tool returns to the model: the number of hits and one line per hit,
/// or a no-result note.
pub fn format_search_results(query: &str, hits: &Vec<MemorySearchItem>) -> (r: String)
    ensures
        r@ == search_results_text(query@, hits@),
{
    let mut out = String::new();
    push_str(&mut out, "搜索 '");
    push_str(&mut out, query);
    if hits.len() == 0 {
        push_str(&mut out, "' 无结果。");
        return out;
    }
    push_str(&mut out, "' 的结果（共");
    push_u64(&mut out, hits.len() as u64);
    push_str(&mut out, "条）：");
    let ghost head = out@;
    assert(head =~= "搜索 '"@ + query@ + "' 的结果（共"@ + decimal(hits@.len()) + "条）："@);
    let mut i: usize = 0;
    while i < hits.len()
        invariant
            i <= hits.len(),
            out@ == head + hit_lines(hits@.take(i as int)),
        decreases hits.len() - i,
    {
        push_hit_line(&mut out, &hits[i]);
        assert(hits@.take(i + 1).drop_last() =~= hits@.take(i as int));
        i = i + 1;
    }
    assert(hits@.take(hits.len() as int) =~= hits@);
    out
}

/// The built-in tools.
#[derive(Debug, Clone, Copy, PartialEq, Eq, Structural)]
pub enum ToolKind {
    SearchMemory,
    AnalyzeIntents,
    AggregateStats,
    CategorySearch,
    TrendComparison,
}

/// The name the model calls a tool by.
pub open spec fn tool_name(k: ToolKind) -> Seq<char> {
    match k {
        ToolKind::SearchMemory => "search_memory"@,
        ToolKind::AnalyzeIntents => "analyze_intents"@,
        ToolKind::AggregateStats => "aggregate_stats"@,
        ToolKind::CategorySearch => "category_search"@,
        ToolKind::TrendComparison => "trend_comparison"@,
    }
}

/// The description the model reads for a tool.
pub open spec fn tool_description(k: ToolKind) -> Seq<char> {
    match k {
        ToolKind::SearchMemory => "搜索工作记录记忆库。支持关键词搜索和日期范围过滤。当用户问到具体做了什么、工作时间安排、某个项目的进展时使用。"@,
        ToolKind::AnalyzeIntents => "分析指定日期范围内的工作意图分布。返回各意图类别（如编码开发、会议沟通、文档撰写等）的时间和占比。当用户问时间分布、时间占比、各类型工作时长时使用。"@,
        ToolKind::AggregateStats => "统计指定日期范围内的应用和分类使用时长。可按应用、分类或总览维度输出排名。当用户问到「花时间最多的是什么」「编码占比多少」「哪个类别最多」「时间分布」时使用。"@,
        ToolKind::CategorySearch => "按分类筛选活动记录，返回该分类下的应用使用明细。当用户问到「开发做了什么」「通讯花了多久」「浏览器使用详情」时使用。category 参数支持中文简称如'开发'、'通讯'、'办公'。"@,
        ToolKind::TrendComparison => "对比两个时间段的活动时长和分类分布变化。计算各分类的增减量和百分比变化。当用户问到「效率变化」「对比前后两周」「最近工作趋势」时使用。"@,
    }
}

impl ToolKind {
    /// The name the model calls this tool by.
    pub fn name(&self) -> (r: &'static str)
        ensures
            r@ == tool_name(*self),
    {
        match self {
            ToolKind::SearchMemory => "search_memory",
            ToolKind::AnalyzeIntents => "analyze_intents",
            ToolKind::AggregateStats => "aggregate_stats",
            ToolKind::CategorySearch => "category_search",
            ToolKind::TrendComparison => "trend_comparison",
        }
    }

    /// The description the model reads for this tool.
    pub fn description(&self) -> (r: &'static str)
        ensures
            r@ == tool_description(*self),
    {
        match self {
            ToolKind::SearchMemory => "搜索工作记录记忆库。支持关键词搜索和日期范围过滤。当用户问到具体做了什么、工作时间安排、某个项目的进展时使用。",
            ToolKind::AnalyzeIntents => "分析指定日期范围内的工作意图分布。返回各意图类别（如编码开发、会议沟通、文档撰写等）的时间和占比。当用户问时间分布、时间占比、各类型工作时长时使用。",
            ToolKind::AggregateStats => "统计指定日期范围内的应用和分类使用时长。可按应用、分类或总览维度输出排名。当用户问到「花时间最多的是什么」「编码占比多少」「哪个类别最多」「时间分布」时使用。",
            ToolKind::CategorySearch => "按分类筛选活动记录，返回该分类下的应用使用明细。当用户问到「开发做了什么」「通讯花了多久」「浏览器使用详情」时使用。category 参数支持中文简称如'开发'、'通讯'、'办公'。",
            ToolKind::TrendComparison => "对比两个时间段的活动时长和分类分布变化。计算各分类的增减量和百分比变化。当用户问到「效率变化」「对比前后两周」「最近工作趋势」时使用。",
        }
    }
}

/// The built-in tools in registration order.
pub open spec fn builtin_tools() -> Seq<ToolKind> {
    seq![ToolKind::SearchMemory, ToolKind::AnalyzeIntents, ToolKind::AggregateStats, ToolKind::CategorySearch, ToolKind::TrendComparison]
}

/// The registry of the tools the model may call.
pub struct ToolRegistry {
    tools: Vec<ToolKind>,
}

/// What `ToolRegistry::lookup` gives for a tool name.
pub open spec fn lookup_spec(tools: Seq<ToolKind>, name: Seq<char>) -> Result<ToolKind, Seq<char>>
    decreases tools.len(),
{
    if tools.len() == 0 {
        Err("未知的工具: "@ + name)
    } else if tool_name(tools[0]) == name {
        Ok(tools[0])
    } else {
        lookup_spec(tools.drop_first(), name)
    }
}

impl ToolRegistry {
    /// The tools registered.
    pub closed spec fn registered(&self) -> Seq<ToolKind> {
        self.tools@
    }

    /// A registry with all built-in tools.
    pub fn new() -> (r: Self)
        ensures
            r.registered() == builtin_tools(),
    {
        let mut tools: Vec<ToolKind> = Vec::new();
        tools.push(ToolKind::SearchMemory);
        tools.push(ToolKind::AnalyzeIntents);
        tools.push(ToolKind::AggregateStats);
        tools.push(ToolKind::CategorySearch);
        tools.push(ToolKind::TrendComparison);
        ToolRegistry { tools }
    }

    /// The registered tools, in registration order.
    pub fn tools(&self) -> (r: &Vec<ToolKind>)
        ensures
            r@ == self.registered(),
    {
        &self.tools
    }

    /// The tool a name refers to; an unknown name gives the error `"未知的工具: "` and the name.
    pub fn lookup(&self, tool_name_arg: &str) -> (r: Result<ToolKind, String>)
        ensures
            match r {
                Ok(k) => lookup_spec(self.registered(), tool_name_arg@) == Ok::<ToolKind, Seq<char>>(k),
                Err(e) => lookup_spec(self.registered(), tool_name_arg@) == Err::<ToolKind, Seq<char>>(e@),
            },
    {
        let mut i: usize = 0;
        assert(self.tools@.skip(0) =~= self.tools@);
        while i < self.tools.len()
            invariant
                i <= self.tools.len(),
                lookup_spec(self.tools@, tool_name_arg@) == lookup_spec(self.tools@.skip(i as int), tool_name_arg@),
            decreases self.tools.len() - i,
        {
            let k = self.tools[i];
            assert(self.tools@.skip(i as int).drop_first() =~= self.tools@.skip(i + 1));
            if str_eq(k.name(), tool_name_arg) {
                return Ok(k);
            }
            i = i + 1;
        }
        let mut msg = String::new();
        push_str(&mut msg, "未知的工具: ");
        push_str(&mut msg, tool_name_arg);
        Err(msg)
    }
}


/// No record is cited twice.
pub open spec fn distinct_records(buf: Seq<MemorySearchItem>) -> bool {
    forall|i: int, j: int|
        0 <= i < buf.len() && 0 <= j < buf.len() && i != j ==> !same_record(
            #[trigger] buf[i],
            #[trigger] buf[j],
        )
}

/// Collecting citations keeps the earlier ones in place (so a round's new citations are
/// what follows the count taken before it), cites every collected record afterwards, and
/// never cites a record twice.
pub proof fn lemma_collect_references(buf: Seq<MemorySearchItem>, items: Seq<MemorySearchItem>)
    ensures
        collect_spec(buf, items).len() >= buf.len(),
        collect_spec(buf, items).take(buf.len() as int) == buf,
        forall|k: int| 0 <= k < items.len() ==> cites(collect_spec(buf, items), #[trigger] items[k]),
        distinct_records(buf) ==> distinct_records(collect_spec(buf, items)),
    decreases items.len(),
{
    if items.len() == 0 {
        assert(buf.take(buf.len() as int) =~= buf);
    } else {
        let d = items.drop_last();
        let x = items.last();
        let b = collect_spec(buf, d);
        lemma_collect_references(buf, d);
        let c = collect_spec(buf, items);
        if !cites(b, x) {
            assert(c == b.push(x));
            assert(c.take(buf.len() as int) =~= b.take(buf.len() as int));
            assert forall|k: int| 0 <= k < items.len() implies cites(c, #[trigger] items[k]) by {
                if k < d.len() {
                    assert(items[k] == d[k]);
                    assert(cites(b, d[k]));
                    let i = choose|i: int| 0 <= i < b.len() && same_record(#[trigger] b[i], d[k]);
                    assert(c[i] == b[i]);
                } else {
                    assert(same_record(c[c.len() - 1], x));
                }
            }
            if distinct_records(b) {
                assert forall|i: int, j: int| 0 <= i < c.len() && 0 <= j < c.len() && i != j implies !same_record(#[trigger] c[i], #[trigger] c[j]) by {
                    if i < b.len() && j < b.len() {
                        assert(c[i] == b[i] && c[j] == b[j]);
                    } else if i < b.len() {
                        assert(c[i] == b[i]);
                        assert(c[j] == x);
                        assert(!same_record(b[i], x));
                    } else if j < b.len() {
                        assert(c[j] == b[j]);
                        assert(c[i] == x);
                        assert(!same_record(b[j], x));
                    }
                }
            }
        } else {
            assert forall|k: int| 0 <= k < items.len() implies cites(c, #[trigger] items[k]) by {
                if k < d.len() {
                    assert(items[k] == d[k]);
                }
            }
        }
    }
}

/// One parameter of a tool: its name, JSON type, description, and the allowed values
/// (none listed when any value goes).
pub struct ToolParam {
    pub name: &'static str,
    pub kind: &'static str,
    pub description: &'static str,
    pub choices: Vec<&'static str>,
}

/// The view of a parameter: name, type, description and allowed values.
pub open spec fn param_v(p: ToolParam) -> (Seq<char>, Seq<char>, Seq<char>, Seq<Seq<char>>) {
    (p.name@, p.kind@, p.description@, p.choices@.map_values(|c: &str| c@))
}

/// A parameter described in the schema table.
pub open spec fn pspec(name: Seq<char>, kind: Seq<char>, description: Seq<char>) -> (
    Seq<char>,
    Seq<char>,
    Seq<char>,
    Seq<Seq<char>>,
) {
    (name, kind, description, seq![])
}

/// The parameters each tool takes, in order.
pub open spec fn tool_params(k: ToolKind) -> Seq<(Seq<char>, Seq<char>, Seq<char>, Seq<Seq<char>>)> {
    match k {
        ToolKind::SearchMemory => seq![
            pspec("query"@, "string"@, "搜索关键词，例如 'debug'、'编码'、'会议'"@),
            pspec("date_from"@, "string"@, "开始日期，格式 YYYY-MM-DD"@),
            pspec("date_to"@, "string"@, "结束日期，格式 YYYY-MM-DD"@),
        ],
        ToolKind::AnalyzeIntents => seq![
            pspec("date_from"@, "string"@, "开始日期，格式 YYYY-MM-DD"@),
            pspec("date_to"@, "string"@, "结束日期，格式 YYYY-MM-DD"@),
        ],
        ToolKind::AggregateStats => seq![
            pspec("date_from"@, "string"@, "开始日期，格式 YYYY-MM-DD"@),
            pspec("date_to"@, "string"@, "结束日期，格式 YYYY-MM-DD"@),
            (
                "metric"@,
                "string"@,
                "统计维度：by_app=按应用排名, by_category=按分类排名, summary=总览。默认 summary"@,
                seq!["by_app"@, "by_category"@, "summary"@],
            ),
            pspec("category"@, "string"@, "可选的分类过滤，如 '开发'、'通讯'、'browser'。仅统计该分类"@),
            pspec("limit"@, "integer"@, "返回条数，默认10"@),
        ],
        ToolKind::CategorySearch => seq![
            pspec("category"@, "string"@, "分类名，支持中文如'开发'、'通讯'、'办公'，或英文如'browser'"@),
            pspec("date_from"@, "string"@, "开始日期，格式 YYYY-MM-DD（可选，默认最近7天）"@),
            pspec("date_to"@, "string"@, "结束日期，格式 YYYY-MM-DD（可选，默认今天）"@),
            pspec("limit"@, "integer"@, "返回条数，默认20"@),
        ],
        ToolKind::TrendComparison => seq![
            pspec("period_a_from"@, "string"@, "时段A开始日期，格式 YYYY-MM-DD"@),
            pspec("period_a_to"@, "string"@, "时段A结束日期，格式 YYYY-MM-DD"@),
            pspec("period_b_from"@, "string"@, "时段B开始日期，格式 YYYY-MM-DD"@),
            pspec("period_b_to"@, "string"@, "时段B结束日期，格式 YYYY-MM-DD"@),
        ],
    }
}

/// The parameters each tool requires.
pub open spec fn tool_required(k: ToolKind) -> Seq<Seq<char>> {
    match k {
        ToolKind::SearchMemory => seq!["query"@],
        ToolKind::AnalyzeIntents => seq!["date_from"@, "date_to"@],
        ToolKind::AggregateStats => seq!["date_from"@, "date_to"@],
        ToolKind::CategorySearch => seq!["category"@],
        ToolKind::TrendComparison => seq!["period_a_from"@, "period_a_to"@, "period_b_from"@, "period_b_to"@],
    }
}

/// The JSON schema of one parameter: its type, its allowed values when listed, and its
/// description.
pub open spec fn param_schema(p: (Seq<char>, Seq<char>, Seq<char>, Seq<Seq<char>>)) -> JsonV {
    JsonV::Object(
        seq![("type"@, JsonV::Str(p.1))] + (if p.3.len() == 0 {
            seq![]
        } else {
            seq![("enum"@, JsonV::Array(p.3.map_values(|c: Seq<char>| JsonV::Str(c))))]
        }) + seq![("description"@, JsonV::Str(p.2))],
    )
}

/// The JSON schema of a tool's parameters: an object with the listed properties and the
/// required names.
pub open spec fn schema_spec(k: ToolKind) -> JsonV {
    JsonV::Object(
        seq![
            ("type"@, JsonV::Str("object"@)),
            (
                "properties"@,
                JsonV::Object(
                    tool_params(k).map_values(
                        |p: (Seq<char>, Seq<char>, Seq<char>, Seq<Seq<char>>)| (p.0, param_schema(p)),
                    ),
                ),
            ),
            ("required"@, JsonV::Array(tool_required(k).map_values(|c: Seq<char>| JsonV::Str(c)))),
        ],
    )
}

/// The definition of a tool as the OpenAI `tools` list takes it.
pub open spec fn openai_tool_spec(k: ToolKind) -> JsonV {
    JsonV::Object(
        seq![
            ("type"@, JsonV::Str("function"@)),
            (
                "function"@,
                JsonV::Object(
                    seq![
                        ("name"@, JsonV::Str(tool_name(k))),
                        ("description"@, JsonV::Str(tool_description(k))),
                        ("parameters"@, schema_spec(k)),
                    ],
                ),
            ),
        ],
    )
}

/// A parameter with any value allowed.
fn param(name: &'static str, kind: &'static str, description: &'static str) -> (r: ToolParam)
    ensures
        param_v(r) == pspec(name@, kind@, description@),
{
    let r = ToolParam { name, kind, description, choices: Vec::new() };
    assert(r.choices@.map_values(|c: &str| c@) =~= Seq::<Seq<char>>::empty());
    r
}

/// The views of a parameter list.
pub open spec fn params_v(ps: Seq<ToolParam>) -> Seq<(Seq<char>, Seq<char>, Seq<char>, Seq<Seq<char>>)> {
    ps.map_values(|p: ToolParam| param_v(p))
}

/// Strings as JSON string values, in order.
fn string_values(names: &Vec<&'static str>) -> (r: Vec<Json>)
    ensures
        arr_v(r@) == names@.map_values(|c: &str| c@).map_values(|c: Seq<char>| JsonV::Str(c)),
{
    let mut out: Vec<Json> = Vec::new();
    let mut i: usize = 0;
    while i < names.len()
        invariant
            i <= names.len(),
            arr_v(out@) == names@.take(i as int).map_values(|c: &str| c@).map_values(
                |c: Seq<char>| JsonV::Str(c),
            ),
        decreases names.len() - i,
    {
        push_item(&mut out, json_str(names[i]));
        assert(names@.take(i + 1).map_values(|c: &str| c@).map_values(|c: Seq<char>| JsonV::Str(c))
            =~= names@.take(i as int).map_values(|c: &str| c@).map_values(|c: Seq<char>| JsonV::Str(c)).push(
            JsonV::Str(names@[i as int]@),
        ));
        i = i + 1;
    }
    assert(names@.take(names.len() as int) =~= names@);
    out
}

/// The JSON schema of one parameter (see `param_schema`).
fn param_schema_exec(p: &ToolParam) -> (r: Json)
    ensures
        r@ == param_schema(param_v(*p)),
{
    let mut m: Vec<(String, Json)> = Vec::new();
    push_member(&mut m, "type", json_str(p.kind));
    let ghost first = obj_v(m@);
    if p.choices.len() > 0 {
        push_member(&mut m, "enum", Json::Array(string_values(&p.choices)));
    }
    let ghost second = obj_v(m@);
    push_member(&mut m, "description", json_str(p.description));
    assert(first =~= seq![("type"@, JsonV::Str(p.kind@))]);
    assert(obj_v(m@) =~= param_schema(param_v(*p))->Object_0);
    Json::Object(m)
}

impl ToolKind {
    /// The parameters this tool takes, in order.
    pub fn params(&self) -> (r: Vec<ToolParam>)
        ensures
            params_v(r@) == tool_params(*self),
    {
        let mut v: Vec<ToolParam> = Vec::new();
        match self {
            ToolKind::SearchMemory => {
                v.push(param("query", "string", "搜索关键词，例如 'debug'、'编码'、'会议'"));
                v.push(param("date_from", "string", "开始日期，格式 YYYY-MM-DD"));
                v.push(param("date_to", "string", "结束日期，格式 YYYY-MM-DD"));
            },
            ToolKind::AnalyzeIntents => {
                v.push(param("date_from", "string", "开始日期，格式 YYYY-MM-DD"));
                v.push(param("date_to", "string", "结束日期，格式 YYYY-MM-DD"));
            },
            ToolKind::AggregateStats => {
                v.push(param("date_from", "string", "开始日期，格式 YYYY-MM-DD"));
                v.push(param("date_to", "string", "结束日期，格式 YYYY-MM-DD"));
                let mut choices: Vec<&'static str> = Vec::new();
                choices.push("by_app");
                choices.push("by_category");
                choices.push("summary");
                assert(choices@.map_values(|c: &str| c@) =~= seq!["by_app"@, "by_category"@, "summary"@]);
                v.push(
                    ToolParam {
                        name: "metric",
                        kind: "string",
                        description: "统计维度：by_app=按应用排名, by_category=按分类排名, summary=总览。默认 summary",
                        choices,
                    },
                );
                v.push(param("category", "string", "可选的分类过滤，如 '开发'、'通讯'、'browser'。仅统计该分类"));
                v.push(param("limit", "integer", "返回条数，默认10"));
            },
            ToolKind::CategorySearch => {
                v.push(param("category", "string", "分类名，支持中文如'开发'、'通讯'、'办公'，或英文如'browser'"));
                v.push(param("date_from", "string", "开始日期，格式 YYYY-MM-DD（可选，默认最近7天）"));
                v.push(param("date_to", "string", "结束日期，格式 YYYY-MM-DD（可选，默认今天）"));
                v.push(param("limit", "integer", "返回条数，默认20"));
            },
            ToolKind::TrendComparison => {
                v.push(param("period_a_from", "string", "时段A开始日期，格式 YYYY-MM-DD"));
                v.push(param("period_a_to", "string", "时段A结束日期，格式 YYYY-MM-DD"));
                v.push(param("period_b_from", "string", "时段B开始日期，格式 YYYY-MM-DD"));
                v.push(param("period_b_to", "string", "时段B结束日期，格式 YYYY-MM-DD"));
            },
        }
        assert(params_v(v@) =~= tool_params(*self));
        v
    }

    /// The parameters this tool requires.
    pub fn required(&self) -> (r: Vec<&'static str>)
        ensures
            r@.map_values(|c: &str| c@) == tool_required(*self),
    {
        let mut v: Vec<&'static str> = Vec::new();
        match self {
            ToolKind::SearchMemory => {
                v.push("query");
            },
            ToolKind::AnalyzeIntents | ToolKind::AggregateStats => {
                v.push("date_from");
                v.push("date_to");
            },
            ToolKind::CategorySearch => {
                v.push("category");
            },
            ToolKind::TrendComparison => {
                v.push("period_a_from");
                v.push("period_a_to");
                v.push("period_b_from");
                v.push("period_b_to");
            },
        }
        assert(v@.map_values(|c: &str| c@) =~= tool_required(*self));
        v
    }

    /// The JSON schema of this tool's parameters (see `schema_spec`).
    pub fn parameters_schema(&self) -> (r: Json)
        ensures
            r@ == schema_spec(*self),
    {
        let ps = self.params();
        let mut props: Vec<(String, Json)> = Vec::new();
        let mut i: usize = 0;
        while i < ps.len()
            invariant
                i <= ps.len(),
                obj_v(props@) == params_v(ps@).take(i as int).map_values(
                    |p: (Seq<char>, Seq<char>, Seq<char>, Seq<Seq<char>>)| (p.0, param_schema(p)),
                ),
            decreases ps.len() - i,
        {
            let ghost before = obj_v(props@);
            push_member(&mut props, ps[i].name, param_schema_exec(&ps[i]));
            assert(params_v(ps@).take(i + 1).map_values(
                |p: (Seq<char>, Seq<char>, Seq<char>, Seq<Seq<char>>)| (p.0, param_schema(p)),
            ) =~= before.push((ps@[i as int].name@, param_schema(param_v(ps@[i as int])))));
            i = i + 1;
        }
        assert(params_v(ps@).take(ps.len() as int) =~= params_v(ps@));
        let req = self.required();
        let mut m: Vec<(String, Json)> = Vec::new();
        push_member(&mut m, "type", json_str("object"));
        push_member(&mut m, "properties", Json::Object(props));
        push_member(&mut m, "required", Json::Array(string_values(&req)));
        assert(obj_v(m@) =~= schema_spec(*self)->Object_0);
        Json::Object(m)
    }

    /// This tool's definition as the OpenAI `tools` list takes it (see `openai_tool_spec`).
    pub fn openai_tool(&self) -> (r: Json)
        ensures
            r@ == openai_tool_spec(*self),
    {
        let mut f: Vec<(String, Json)> = Vec::new();
        push_member(&mut f, "name", json_str(self.name()));
        push_member(&mut f, "description", json_str(self.description()));
        push_member(&mut f, "parameters", self.parameters_schema());
        let mut m: Vec<(String, Json)> = Vec::new();
        push_member(&mut m, "type", json_str("function"));
        push_member(&mut m, "function", Json::Object(f));
        assert(obj_v(f@) =~= seq![
            ("name"@, JsonV::Str(tool_name(*self))),
            ("description"@, JsonV::Str(tool_description(*self))),
            ("parameters"@, schema_spec(*self)),
        ]);
        assert(obj_v(m@) =~= openai_tool_spec(*self)->Object_0);
        Json::Object(m)
    }
}

impl ToolRegistry {
    /// The definitions of the registered tools as the OpenAI `tools` list takes them, in
    /// registration order.
    pub fn to_openai_tools(&self) -> (r: Vec<Json>)
        ensures
            arr_v(r@) == self.registered().map_values(|k: ToolKind| openai_tool_spec(k)),
    {
        let mut out: Vec<Json> = Vec::new();
        let mut i: usize = 0;
        while i < self.tools.len()
            invariant
                i <= self.tools.len(),
                arr_v(out@) == self.tools@.take(i as int).map_values(|k: ToolKind| openai_tool_spec(k)),
            decreases self.tools.len() - i,
        {
            let ghost before = arr_v(out@);
            push_item(&mut out, self.tools[i].openai_tool());
            assert(self.tools@.take(i + 1).map_values(|k: ToolKind| openai_tool_spec(k)) =~= before.push(
                openai_tool_spec(self.tools@[i as int]),
            ));
            i = i + 1;
        }
        assert(self.tools@.take(self.tools.len() as int) =~= self.tools@);
        out
    }
}

/// Every tool offered to the model can be run: looking up the name of any built-in tool in
/// a new registry finds that tool.
pub proof fn lemma_offered_tools_resolve(k: ToolKind)
    ensures
        lookup_spec(builtin_tools(), tool_name(k)) == Ok::<ToolKind, Seq<char>>(k),
{
    reveal_strlit("search_memory");
    reveal_strlit("analyze_intents");
    reveal_strlit("aggregate_stats");
    reveal_strlit("category_search");
    reveal_strlit("trend_comparison");
    let t = builtin_tools();
    assert(t.drop_first() =~= seq![ToolKind::AnalyzeIntents, ToolKind::AggregateStats, ToolKind::CategorySearch, ToolKind::TrendComparison]);
    assert(t.drop_first().drop_first() =~= seq![ToolKind::AggregateStats, ToolKind::CategorySearch, ToolKind::TrendComparison]);
    assert(t.drop_first().drop_first().drop_first() =~= seq![ToolKind::CategorySearch, ToolKind::TrendComparison]);
    assert(t.drop_first().drop_first().drop_first().drop_first() =~= seq![ToolKind::TrendComparison]);
    assert("search_memory"@[0] != "analyze_intents"@[0]);
    assert("search_memory"@[0] != "aggregate_stats"@[0]);
    assert("search_memory"@[0] != "category_search"@[0]);
    assert("search_memory"@[0] != "trend_comparison"@[0]);
    assert("analyze_intents"@[1] != "aggregate_stats"@[1]);
    assert("analyze_intents"@[0] != "category_search"@[0]);
    assert("analyze_intents"@[0] != "trend_comparison"@[0]);
    assert("aggregate_stats"@[0] != "category_search"@[0]);
    assert("aggregate_stats"@[0] != "trend_comparison"@[0]);
    assert("category_search"@[0] != "trend_comparison"@[0]);
    reveal_with_fuel(lookup_spec, 6);
}

/// The privacy filter keeps exactly the allowed hits: no kept hit names an ignored
/// application or an excluded domain, and every allowed hit is kept.
pub proof fn lemma_privacy_filter(ignored: Seq<Seq<char>>, excluded: Seq<Seq<char>>, hits: Seq<MemorySearchItem>)
    ensures
        forall|i: int| 0 <= i < allowed_hits(ignored, excluded, hits).len() ==> search_hit_allowed(
            ignored,
            excluded,
            #[trigger] allowed_hits(ignored, excluded, hits)[i],
        ),
        forall|j: int| 0 <= j < hits.len() && search_hit_allowed(ignored, excluded, #[trigger] hits[j])
            ==> allowed_hits(ignored, excluded, hits).contains(hits[j]),
        allowed_hits(ignored, excluded, hits).len() <= hits.len(),
    decreases hits.len(),
{
    if hits.len() > 0 {
        let p = hits.drop_last();
        lemma_privacy_filter(ignored, excluded, p);
        let prev = allowed_hits(ignored, excluded, p);
        let r = allowed_hits(ignored, excluded, hits);
        assert forall|j: int| 0 <= j < hits.len() && search_hit_allowed(ignored, excluded, #[trigger] hits[j])
            implies r.contains(hits[j]) by {
            if j < hits.len() - 1 {
                assert(hits[j] == p[j]);
                assert(prev.contains(p[j]));
                let k = choose|k: int| 0 <= k < prev.len() && prev[k] == p[j];
                assert(r[k] == prev[k]);
            } else {
                assert(r[r.len() - 1] == hits.last());
            }
        }
    }
}

} // verus!
