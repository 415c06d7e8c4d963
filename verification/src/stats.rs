//! Duration totals per key (application, category), and their order from the largest down.
use vstd::prelude::*;
use crate::text::str_eq;

verus! {

broadcast use vstd::std_specs::vec::group_vec_axioms;

/// The view of keyed durations.
pub open spec fn pairs_v(v: Seq<(String, i64)>) -> Seq<(Seq<char>, int)> {
    v.map_values(|p: (String, i64)| (p.0@, p.1 as int))
}

/// The sum of the durations.
pub open spec fn dsum(s: Seq<(Seq<char>, int)>) -> int
    decreases s.len(),
{
    if s.len() == 0 {
        0
    } else {
        dsum(s.drop_last()) + s.last().1
    }
}

/// The first index at or after `i` that holds key `k`.
pub open spec fn find_key(t: Seq<(Seq<char>, int)>, k: Seq<char>, i: int) -> Option<int>
    decreases t.len() - i,
{
    if i < 0 || i >= t.len() {
        None
    } else if t[i].0 == k {
        Some(i)
    } else {
        find_key(t, k, i + 1)
    }
}

/// The totals per key, keys in order of first appearance.
pub open spec fn tally_spec(e: Seq<(Seq<char>, int)>) -> Seq<(Seq<char>, int)>
    decreases e.len(),
{
    if e.len() == 0 {
        seq![]
    } else {
        let t = tally_spec(e.drop_last());
        let x = e.last();
        match find_key(t, x.0, 0) {
            Some(i) => t.update(i, (x.0, t[i].1 + x.1)),
            None => t.push(x),
        }
    }
}

/// The summed duration of the entries with key `k`.
pub open spec fn key_total(e: Seq<(Seq<char>, int)>, k: Seq<char>) -> int
    decreases e.len(),
{
    if e.len() == 0 {
        0
    } else {
        key_total(e.drop_last(), k) + if e.last().0 == k {
            e.last().1
        } else {
            0
        }
    }
}

/// No duration is negative.
pub open spec fn nonneg(s: Seq<(Seq<char>, int)>) -> bool {
    forall|i: int| 0 <= i < s.len() ==> #[trigger] s[i].1 >= 0
}

/// No key appears twice.
pub open spec fn distinct_keys(s: Seq<(Seq<char>, int)>) -> bool {
    forall|i: int, j: int| 0 <= i < j < s.len() ==> #[trigger] s[i].0 != #[trigger] s[j].0
}

/// Where `find_key` stops.
proof fn lemma_find_key(t: Seq<(Seq<char>, int)>, k: Seq<char>, i: int)
    requires
        0 <= i,
    ensures
        find_key(t, k, i) matches Some(j) ==> i <= j < t.len() && t[j].0 == k && forall|q: int| i <= q < j ==> t[q].0 != k,
        find_key(t, k, i) is None ==> forall|q: int| i <= q < t.len() ==> t[q].0 != k,
    decreases t.len() - i,
{
    if i < t.len() && t[i].0 != k {
        lemma_find_key(t, k, i + 1);
    }
}

/// Replacing one duration changes the sum by the difference.
proof fn lemma_dsum_update(t: Seq<(Seq<char>, int)>, i: int, x: (Seq<char>, int))
    requires
        0 <= i < t.len(),
    ensures
        dsum(t.update(i, x)) == dsum(t) - t[i].1 + x.1,
    decreases t.len(),
{
    if i < t.len() - 1 {
        lemma_dsum_update(t.drop_last(), i, x);
        assert(t.update(i, x).drop_last() =~= t.drop_last().update(i, x));
    } else {
        assert(t.update(i, x).drop_last() =~= t.drop_last());
    }
}

/// Totals per key: the keys appear once each, in order of first appearance, each with the
/// summed duration of its entries, and together they sum to the whole.
pub proof fn lemma_tally(e: Seq<(Seq<char>, int)>)
    ensures
        distinct_keys(tally_spec(e)),
        dsum(tally_spec(e)) == dsum(e),
        forall|i: int| 0 <= i < tally_spec(e).len() ==> #[trigger] tally_spec(e)[i].1 == key_total(e, tally_spec(e)[i].0),
        forall|i: int| 0 <= i < e.len() ==> #[trigger] find_key(tally_spec(e), e[i].0, 0) is Some,
        nonneg(e) ==> nonneg(tally_spec(e)),
    decreases e.len(), 0int,
{
    if e.len() > 0 {
        let p = e.drop_last();
        lemma_tally(p);
        let t = tally_spec(p);
        let x = e.last();
        lemma_find_key(t, x.0, 0);
        let r = tally_spec(e);
        match find_key(t, x.0, 0) {
            Some(i) => {
                lemma_dsum_update(t, i, (x.0, t[i].1 + x.1));
                assert forall|j: int| 0 <= j < r.len() implies #[trigger] r[j].1 == key_total(e, r[j].0) by {
                    assert(key_total(e, r[j].0) == key_total(p, r[j].0) + if x.0 == r[j].0 {
                        x.1
                    } else {
                        0
                    });
                    if j != i {
                        assert(r[j] == t[j]);
                        assert(t[j].0 != t[i].0) by {
                            if j < i {
                                assert(t[j].0 != t[i].0);
                            } else {
                                assert(t[i].0 != t[j].0);
                            }
                        }
                    }
                }
                assert forall|q: int| 0 <= q < e.len() implies #[trigger] find_key(r, e[q].0, 0) is Some by {
                    if q < e.len() - 1 {
                        assert(e[q] == p[q]);
                        lemma_find_key(t, p[q].0, 0);
                        let j = find_key(t, p[q].0, 0)->0;
                        lemma_find_key(r, e[q].0, 0);
                        assert(r[j].0 == t[j].0);
                    } else {
                        lemma_find_key(r, x.0, 0);
                        assert(r[i].0 == x.0);
                    }
                }
            },
            None => {
                assert(r == t.push(x));
                assert(r.drop_last() =~= t);
                assert forall|j: int| 0 <= j < r.len() implies #[trigger] r[j].1 == key_total(e, r[j].0) by {
                    if j < t.len() {
                        assert(r[j] == t[j]);
                        assert(t[j].0 != x.0);
                    } else {
                        lemma_key_total_absent(p, x.0);
                    }
                }
                assert forall|q: int| 0 <= q < e.len() implies #[trigger] find_key(r, e[q].0, 0) is Some by {
                    if q < e.len() - 1 {
                        assert(e[q] == p[q]);
                        lemma_find_key(t, p[q].0, 0);
                        let j = find_key(t, p[q].0, 0)->0;
                        lemma_find_key(r, e[q].0, 0);
                        assert(r[j].0 == t[j].0);
                    } else {
                        lemma_find_key(r, x.0, 0);
                        assert(r[t.len() as int].0 == x.0);
                    }
                }
            },
        }
    }
}

/// A key that no tally entry holds has no entries.
proof fn lemma_key_total_absent(e: Seq<(Seq<char>, int)>, k: Seq<char>)
    requires
        find_key(tally_spec(e), k, 0) is None,
    ensures
        key_total(e, k) == 0,
    decreases e.len(), 1int,
{
    if e.len() > 0 {
        lemma_tally(e);
        let q = e.len() - 1;
        assert(find_key(tally_spec(e), e[q].0, 0) is Some);
        assert(e[q].0 != k);
        let p = e.drop_last();
        let t = tally_spec(p);
        lemma_find_key(tally_spec(e), k, 0);
        lemma_find_key(t, k, 0);
        if find_key(t, k, 0) is Some {
            let j = find_key(t, k, 0)->0;
            lemma_find_key(t, e.last().0, 0);
            assert(tally_spec(e)[j].0 == t[j].0);
        }
        lemma_key_total_absent(p, k);
    }
}

/// Every duration fits in `i64`.
pub open spec fn fits_i64(t: Seq<(Seq<char>, int)>) -> bool {
    forall|i: int| 0 <= i < t.len() ==> i64::MIN <= #[trigger] t[i].1 <= i64::MAX
}

/// Every running total, after each entry, fits in `i64`.
pub open spec fn tally_fits(e: Seq<(Seq<char>, int)>) -> bool {
    forall|n: int| 0 <= n <= e.len() ==> #[trigger] fits_i64(tally_spec(e.take(n)))
}

/// Totals per key (see `tally_spec`), or `None` when a running total leaves `i64`.
pub fn tally_by_key(entries: &Vec<(String, i64)>) -> (r: Option<Vec<(String, i64)>>)
    ensures
        r is Some <==> tally_fits(pairs_v(entries@)),
        r matches Some(v) ==> pairs_v(v@) == tally_spec(pairs_v(entries@)),
{
    let ghost e = pairs_v(entries@);
    let mut out: Vec<(String, i64)> = Vec::new();
    let mut n: usize = 0;
    assert(e.take(0) =~= Seq::<(Seq<char>, int)>::empty());
    while n < entries.len()
        invariant
            n <= entries.len(),
            e == pairs_v(entries@),
            pairs_v(out@) == tally_spec(e.take(n as int)),
            forall|m: int| 0 <= m <= n ==> #[trigger] fits_i64(tally_spec(e.take(m))),
        decreases entries.len() - n,
    {
        proof {
            assert(e.take(n + 1).drop_last() =~= e.take(n as int));
            assert(e.take(n + 1).last() == e[n as int]);
        }
        let ghost t = pairs_v(out@);
        let key = &entries[n].0;
        let d = entries[n].1;
        let mut i: usize = 0;
        while i < out.len() && !str_eq(out[i].0.as_str(), key.as_str())
            invariant
                i <= out.len(),
                t == pairs_v(out@),
                find_key(t, key@, 0) == find_key(t, key@, i as int),
            decreases out.len() - i,
        {
            i = i + 1;
        }
        proof {
            lemma_find_key(t, key@, 0);
        }
        if i < out.len() {
            assert(find_key(t, key@, 0) == Some(i as int));
            let old_total = out[i].1;
            match old_total.checked_add(d) {
                Some(total) => {
                    let k = out[i].0.clone();
                    out.set(i, (k, total));
                    assert(pairs_v(out@) =~= t.update(i as int, (key@, t[i as int].1 + d)));
                },
                None => {
                    proof {
                        let bad = tally_spec(e.take(n + 1));
                        assert(bad[i as int].1 == old_total + d);
                        assert(!fits_i64(bad));
                    }
                    return None;
                },
            }
        } else {
            out.push((key.clone(), d));
            assert(pairs_v(out@) =~= t.push((key@, d as int)));
        }
        proof {
            let now = tally_spec(e.take(n + 1));
            assert forall|q: int| 0 <= q < now.len() implies i64::MIN <= #[trigger] now[q].1 <= i64::MAX by {
                assert(now[q] == pairs_v(out@)[q]);
            }
            assert(fits_i64(now));
        }
        n = n + 1;
    }
    assert(e.take(entries.len() as int) =~= e);
    Some(out)
}

/// Where a duration goes in a list ordered from the largest down: after every entry at
/// least as large.
pub open spec fn insert_pos(s: Seq<(Seq<char>, int)>, d: int, i: int) -> int
    decreases s.len() - i,
{
    if i < 0 || i >= s.len() {
        s.len() as int
    } else if s[i].1 < d {
        i
    } else {
        insert_pos(s, d, i + 1)
    }
}

/// The entries ordered from the largest duration down; equal durations keep their order.
pub open spec fn sort_desc_spec(s: Seq<(Seq<char>, int)>) -> Seq<(Seq<char>, int)>
    decreases s.len(),
{
    if s.len() == 0 {
        s
    } else {
        let r = sort_desc_spec(s.drop_last());
        r.insert(insert_pos(r, s.last().1, 0), s.last())
    }
}

/// Ordered from the largest duration down.
pub open spec fn sorted_desc(s: Seq<(Seq<char>, int)>) -> bool {
    forall|i: int, j: int| 0 <= i < j < s.len() ==> #[trigger] s[i].1 >= #[trigger] s[j].1
}

proof fn lemma_insert_pos(s: Seq<(Seq<char>, int)>, d: int, i: int)
    requires
        0 <= i <= s.len(),
    ensures
        i <= insert_pos(s, d, i) <= s.len(),
        forall|q: int| i <= q < insert_pos(s, d, i) ==> s[q].1 >= d,
        insert_pos(s, d, i) < s.len() ==> s[insert_pos(s, d, i)].1 < d,
    decreases s.len() - i,
{
    if i < s.len() && s[i].1 >= d {
        lemma_insert_pos(s, d, i + 1);
    }
}

/// Ordering keeps every entry (the same multiset) and puts them from the largest duration
/// down.
pub proof fn lemma_sort_desc(s: Seq<(Seq<char>, int)>)
    ensures
        sorted_desc(sort_desc_spec(s)),
        sort_desc_spec(s).to_multiset() == s.to_multiset(),
        sort_desc_spec(s).len() == s.len(),
    decreases s.len(),
{
    broadcast use vstd::seq_lib::to_multiset_insert, vstd::seq_lib::to_multiset_build;

    if s.len() > 0 {
        let p = s.drop_last();
        lemma_sort_desc(p);
        let r = sort_desc_spec(p);
        let x = s.last();
        lemma_insert_pos(r, x.1, 0);
        let k = insert_pos(r, x.1, 0);
        let out = r.insert(k, x);
        assert(sorted_desc(out)) by {
            assert forall|i: int, j: int| 0 <= i < j < out.len() implies #[trigger] out[i].1 >= #[trigger] out[j].1 by {
                if j < k {
                    assert(out[i] == r[i] && out[j] == r[j]);
                } else if j == k {
                    assert(out[i] == r[i]);
                } else if i < k {
                    assert(out[i] == r[i] && out[j] == r[j - 1]);
                    if k < r.len() {
                        assert(r[k].1 < x.1);
                    }
                } else if i == k {
                    assert(out[j] == r[j - 1]);
                    assert(r[k].1 < x.1);
                    assert(r[k].1 >= r[j - 1].1 || k == j - 1);
                } else {
                    assert(out[i] == r[i - 1] && out[j] == r[j - 1]);
                }
            }
        }
        assert(s =~= p.push(x));
    }
}

/// Orders the entries from the largest duration down (see `sort_desc_spec`).
pub fn sort_by_duration_desc(v: Vec<(String, i64)>) -> (r: Vec<(String, i64)>)
    ensures
        pairs_v(r@) == sort_desc_spec(pairs_v(v@)),
{
    let ghost e = pairs_v(v@);
    let mut out: Vec<(String, i64)> = Vec::new();
    let mut rest = v;
    let ghost all = rest@;
    let mut n: usize = 0;
    let total: usize = rest.len();
    while rest.len() > 0
        invariant
            n + rest@.len() == all.len(),
            all.len() == total,
            rest@ == all.subrange(n as int, all.len() as int),
            e == pairs_v(all),
            pairs_v(out@) == sort_desc_spec(e.take(n as int)),
        decreases rest.len(),
    {
        let x = rest.remove(0);
        assert(x == all[n as int]);
        let ghost t = pairs_v(out@);
        let mut i: usize = 0;
        while i < out.len() && out[i].1 >= x.1
            invariant
                i <= out.len(),
                t == pairs_v(out@),
                insert_pos(t, x.1 as int, 0) == insert_pos(t, x.1 as int, i as int),
            decreases out.len() - i,
        {
            i = i + 1;
        }
        proof {
            assert(e.take(n + 1).drop_last() =~= e.take(n as int));
            assert(e.take(n + 1).last() == (x.0@, x.1 as int));
        }
        out.insert(i, x);
        assert(pairs_v(out@) =~= t.insert(i as int, (x.0@, x.1 as int)));
        n = n + 1;
    }
    assert(e.take(total as int) =~= e);
    out
}

/// The first `n` characters of `s` (all of it when shorter).
pub open spec fn first_chars(s: Seq<char>, n: nat) -> Seq<char> {
    if s.len() <= n {
        s
    } else {
        s.take(n as int)
    }
}

/// The window title shown for an application: the first non-empty title among its
/// activities (from index `i` on), cut to 60 characters; empty when there is none.
pub open spec fn first_title_from(acts: Seq<(Seq<char>, int, Seq<char>)>, app: Seq<char>, i: int) -> Seq<char>
    decreases acts.len() - i,
{
    if i < 0 || i >= acts.len() {
        seq![]
    } else if acts[i].0 == app && acts[i].2.len() > 0 {
        first_chars(acts[i].2, 60)
    } else {
        first_title_from(acts, app, i + 1)
    }
}

/// The views of activities: application, duration, window title.
pub open spec fn acts_v(v: Seq<(String, i64, String)>) -> Seq<(Seq<char>, int, Seq<char>)> {
    v.map_values(|a: (String, i64, String)| (a.0@, a.1 as int, a.2@))
}

/// The application and duration of each activity.
pub open spec fn app_durations(a: Seq<(Seq<char>, int, Seq<char>)>) -> Seq<(Seq<char>, int)> {
    a.map_values(|x: (Seq<char>, int, Seq<char>)| (x.0, x.1))
}

/// The window title shown for an application (see `first_title_from`).
pub fn first_title(acts: &[(String, i64, String)], app: &str) -> (r: String)
    ensures
        r@ == first_title_from(acts_v(acts@), app@, 0),
{
    let ghost av = acts_v(acts@);
    let mut i: usize = 0;
    while i < acts.len()
        invariant
            i <= acts.len(),
            av == acts_v(acts@),
            first_title_from(av, app@, 0) == first_title_from(av, app@, i as int),
        decreases acts.len() - i,
    {
        if str_eq(acts[i].0.as_str(), app) && !acts[i].2.as_str().is_empty() {
            let cs = crate::text::chars_of(acts[i].2.as_str());
            let mut out: Vec<char> = Vec::new();
            let n: usize = if cs.len() <= 60 {
                cs.len()
            } else {
                60
            };
            crate::text::push_range(&mut out, cs.as_slice(), 0, n);
            assert(out@ =~= first_chars(av[i as int].2, 60));
            return crate::text::string_of(out.as_slice());
        }
        i = i + 1;
    }
    proof {
        assert(seq![] =~= Seq::<char>::empty());
    }
    String::new()
}

/// The per-application lines of `category_search`: the applications by total time from the
/// largest down (ties in order of first appearance), at most `limit` of them, each with its
/// window title.
pub open spec fn category_entries_spec(acts: Seq<(Seq<char>, int, Seq<char>)>, limit: u64) -> Seq<(Seq<char>, int, Seq<char>)> {
    let t = sort_desc_spec(tally_spec(app_durations(acts)));
    t.take(if t.len() <= limit {
        t.len() as int
    } else {
        limit as int
    }).map_values(|p: (Seq<char>, int)| (p.0, p.1, first_title_from(acts, p.0, 0)))
}

/// The per-application lines of `category_search` (see `category_entries_spec`), or `None`
/// when an application's running total leaves `i64`.
pub fn category_entries(acts: &Vec<(String, i64, String)>, limit: u64) -> (r: Option<Vec<(String, i64, String)>>)
    ensures
        r is Some <==> tally_fits(app_durations(acts_v(acts@))),
        r matches Some(v) ==> acts_v(v@) == category_entries_spec(acts_v(acts@), limit),
{
    let mut pairs: Vec<(String, i64)> = Vec::new();
    let mut i: usize = 0;
    while i < acts.len()
        invariant
            i <= acts.len(),
            pairs@.len() == i,
            pairs_v(pairs@) == app_durations(acts_v(acts@)).take(i as int),
        decreases acts.len() - i,
    {
        let ghost before = pairs@;
        let name = acts[i].0.clone();
        assert(name@ == acts@[i as int].0@);
        pairs.push((name, acts[i].1));
        assert(pairs@ =~= before.push(pairs@.last()));
        assert(acts_v(acts@)[i as int] == (acts@[i as int].0@, acts@[i as int].1 as int, acts@[i as int].2@));
        assert(app_durations(acts_v(acts@))[i as int] == (acts@[i as int].0@, acts@[i as int].1 as int));
        assert forall|j: int| 0 <= j <= i implies #[trigger] pairs_v(pairs@)[j] == app_durations(acts_v(acts@)).take(
            i + 1,
        )[j] by {
            if j < i {
                assert(pairs@[j] == before[j]);
                assert(pairs_v(before)[j] == app_durations(acts_v(acts@)).take(i as int)[j]);
            }
        }
        assert(pairs_v(pairs@) =~= app_durations(acts_v(acts@)).take(i + 1));
        i = i + 1;
    }
    assert(app_durations(acts_v(acts@)).take(acts.len() as int) =~= app_durations(acts_v(acts@)));
    let totals = match tally_by_key(&pairs) {
        Some(t) => t,
        None => {
            return None;
        },
    };
    let sorted = sort_by_duration_desc(totals);
    let n: usize = if (sorted.len() as u64) <= limit {
        sorted.len()
    } else {
        limit as usize
    };
    let ghost t = pairs_v(sorted@);
    proof {
        lemma_sort_desc(tally_spec(app_durations(acts_v(acts@))));
    }
    let mut out: Vec<(String, i64, String)> = Vec::new();
    let mut k: usize = 0;
    while k < n
        invariant
            k <= n <= sorted.len(),
            out@.len() == k,
            t == pairs_v(sorted@),
            acts_v(out@) == t.take(k as int).map_values(
                |p: (Seq<char>, int)| (p.0, p.1, first_title_from(acts_v(acts@), p.0, 0)),
            ),
        decreases n - k,
    {
        let title = first_title(acts.as_slice(), sorted[k].0.as_str());
        let ghost before = out@;
        let name = sorted[k].0.clone();
        assert(name@ == sorted@[k as int].0@);
        out.push((name, sorted[k].1, title));
        assert(out@ =~= before.push(out@.last()));
        assert(t[k as int] == (sorted@[k as int].0@, sorted@[k as int].1 as int));
        assert forall|j: int| 0 <= j <= k implies #[trigger] acts_v(out@)[j] == t.take(k + 1).map_values(
            |p: (Seq<char>, int)| (p.0, p.1, first_title_from(acts_v(acts@), p.0, 0)),
        )[j] by {
            if j < k {
                assert(out@[j] == before[j]);
                assert(acts_v(before)[j] == t.take(k as int).map_values(
                    |p: (Seq<char>, int)| (p.0, p.1, first_title_from(acts_v(acts@), p.0, 0)),
                )[j]);
            }
        }
        assert(acts_v(out@) =~= t.take(k + 1).map_values(
            |p: (Seq<char>, int)| (p.0, p.1, first_title_from(acts_v(acts@), p.0, 0)),
        ));
        k = k + 1;
    }
    Some(out)
}

/// `a` comes before `b` in the order of `String` (character by character, by code point; a
/// proper prefix first), comparing from index `i` on.
pub open spec fn lt_from(a: Seq<char>, b: Seq<char>, i: int) -> bool
    decreases a.len() - i,
{
    if i < 0 {
        false
    } else if i >= a.len() {
        i < b.len()
    } else if i >= b.len() {
        false
    } else if a[i] != b[i] {
        a[i] < b[i]
    } else {
        lt_from(a, b, i + 1)
    }
}

/// `a` comes before `b` in the order of `String`.
pub open spec fn str_before(a: Seq<char>, b: Seq<char>) -> bool {
    lt_from(a, b, 0)
}

/// The order is transitive.
proof fn lemma_lt_trans(a: Seq<char>, b: Seq<char>, c: Seq<char>, i: int)
    requires
        0 <= i,
        lt_from(a, b, i),
        lt_from(b, c, i),
    ensures
        lt_from(a, c, i),
    decreases a.len() - i,
{
    if i < a.len() && i < b.len() && i < c.len() && a[i] == b[i] && b[i] == c[i] {
        lemma_lt_trans(a, b, c, i + 1);
    }
}

/// Two strings that agree before `i` are equal or ordered one way or the other.
proof fn lemma_lt_total(a: Seq<char>, b: Seq<char>, i: int)
    requires
        0 <= i <= a.len(),
        i <= b.len(),
        forall|j: int| 0 <= j < i ==> a[j] == b[j],
    ensures
        lt_from(a, b, i) || lt_from(b, a, i) || a == b,
    decreases a.len() - i,
{
    if i < a.len() && i < b.len() {
        if a[i] == b[i] {
            lemma_lt_total(a, b, i + 1);
        }
    } else if i == a.len() && i == b.len() {
        assert(a =~= b);
    }
}

/// Whether `a` comes before `b` in the order of `String` (see `str_before`).
pub fn str_lt(a: &str, b: &str) -> (r: bool)
    ensures
        r == str_before(a@, b@),
{
    let av = crate::text::chars_of(a);
    let bv = crate::text::chars_of(b);
    let mut i: usize = 0;
    while i < av.len() && i < bv.len() && av[i] == bv[i]
        invariant
            i <= av.len(),
            i <= bv.len(),
            av@ == a@,
            bv@ == b@,
            lt_from(a@, b@, 0) == lt_from(a@, b@, i as int),
        decreases av.len() - i,
    {
        i = i + 1;
    }
    if i >= av.len() {
        i < bv.len()
    } else if i >= bv.len() {
        false
    } else {
        av[i] < bv[i]
    }
}

/// Strictly increasing in the order of `String`: ordered, with no string twice.
pub open spec fn strictly_sorted(s: Seq<Seq<char>>) -> bool {
    forall|i: int, j: int| 0 <= i < j < s.len() ==> str_before(#[trigger] s[i], #[trigger] s[j])
}

/// The distinct strings among `keys`, in the order of `String`.
pub fn sort_dedup(keys: &Vec<String>) -> (r: Vec<String>)
    ensures
        strictly_sorted(crate::report_blocks::string_views(r@)),
        forall|x: Seq<char>| crate::report_blocks::string_views(r@).contains(x) <==> crate::report_blocks::string_views(
            keys@,
        ).contains(x),
{
    let ghost kv = crate::report_blocks::string_views(keys@);
    let mut out: Vec<String> = Vec::new();
    let mut n: usize = 0;
    while n < keys.len()
        invariant
            n <= keys.len(),
            kv == crate::report_blocks::string_views(keys@),
            strictly_sorted(crate::report_blocks::string_views(out@)),
            forall|x: Seq<char>| crate::report_blocks::string_views(out@).contains(x) <==> kv.take(n as int).contains(x),
        decreases keys.len() - n,
    {
        let ghost ov = crate::report_blocks::string_views(out@);
        let k = &keys[n];
        let mut i: usize = 0;
        while i < out.len() && str_lt(out[i].as_str(), k.as_str())
            invariant
                i <= out.len(),
                ov == crate::report_blocks::string_views(out@),
                forall|j: int| 0 <= j < i ==> str_before(#[trigger] ov[j], k@),
            decreases out.len() - i,
        {
            i = i + 1;
        }
        proof {
            assert(kv.take(n + 1) =~= kv.take(n as int).push(k@));
        }
        if i < out.len() && str_eq(out[i].as_str(), k.as_str()) {
            assert(ov[i as int] == k@);
            assert forall|x: Seq<char>| ov.contains(x) <==> kv.take(n + 1).contains(x) by {
                if kv.take(n + 1).contains(x) {
                    if x == k@ {
                        assert(ov[i as int] == x);
                    } else {
                        let q = choose|q: int| 0 <= q < n + 1 && #[trigger] kv.take(n + 1)[q] == x;
                        assert(q < n);
                        assert(kv.take(n as int)[q] == x);
                    }
                }
                if ov.contains(x) {
                    assert(kv.take(n as int).contains(x));
                    let q = choose|q: int| 0 <= q < n && #[trigger] kv.take(n as int)[q] == x;
                    assert(kv.take(n + 1)[q] == x);
                }
            }
        } else {
            proof {
                if i < out.len() {
                    lemma_lt_total(ov[i as int], k@, 0);
                }
            }
            let ghost before = out@;
            out.insert(i, k.clone());
            let ghost nv = crate::report_blocks::string_views(out@);
            assert(nv =~= ov.insert(i as int, k@));
            assert forall|p: int, q: int| 0 <= p < q < nv.len() implies str_before(#[trigger] nv[p], #[trigger] nv[q]) by {
                if q < i {
                    assert(nv[p] == ov[p] && nv[q] == ov[q]);
                } else if q == i {
                    assert(nv[p] == ov[p]);
                } else if p < i {
                    assert(nv[p] == ov[p] && nv[q] == ov[q - 1]);
                    assert(str_before(ov[p], k@));
                    assert(str_before(k@, ov[i as int]));
                    lemma_lt_trans(ov[p], k@, ov[i as int], 0);
                    if q - 1 > i {
                        lemma_lt_trans(ov[p], ov[i as int], ov[q - 1], 0);
                    }
                } else if p == i {
                    assert(nv[q] == ov[q - 1]);
                    assert(str_before(k@, ov[i as int]));
                    if q - 1 > i {
                        lemma_lt_trans(k@, ov[i as int], ov[q - 1], 0);
                    }
                } else {
                    assert(nv[p] == ov[p - 1] && nv[q] == ov[q - 1]);
                }
            }
            assert forall|x: Seq<char>| nv.contains(x) <==> kv.take(n + 1).contains(x) by {
                if kv.take(n + 1).contains(x) {
                    if x == k@ {
                        assert(nv[i as int] == x);
                    } else {
                        let q = choose|q: int| 0 <= q < n + 1 && #[trigger] kv.take(n + 1)[q] == x;
                        assert(q < n);
                        assert(kv.take(n as int)[q] == x);
                        assert(ov.contains(x));
                        let w = choose|w: int| 0 <= w < ov.len() && #[trigger] ov[w] == x;
                        if w < i {
                            assert(nv[w] == x);
                        } else {
                            assert(nv[w + 1] == x);
                        }
                    }
                }
                if nv.contains(x) {
                    let w = choose|w: int| 0 <= w < nv.len() && #[trigger] nv[w] == x;
                    if w == i {
                        assert(kv.take(n + 1)[n as int] == x);
                    } else {
                        if w < i {
                            assert(ov[w] == x);
                        } else {
                            assert(ov[w - 1] == x);
                        }
                        assert(ov.contains(x));
                        let q = choose|q: int| 0 <= q < n && #[trigger] kv.take(n as int)[q] == x;
                        assert(kv.take(n + 1)[q] == x);
                    }
                }
            }
        }
        n = n + 1;
    }
    assert(kv.take(keys.len() as int) =~= kv);
    out
}

/// The duration a tally holds for a key (none is zero).
pub open spec fn value_of(t: Seq<(Seq<char>, int)>, k: Seq<char>) -> int {
    match find_key(t, k, 0) {
        Some(i) => t[i].1,
        None => 0,
    }
}

/// The duration a tally holds for a key (see `value_of`).
pub fn lookup_value(t: &Vec<(String, i64)>, k: &str) -> (r: i64)
    ensures
        r == value_of(pairs_v(t@), k@),
{
    let ghost tv = pairs_v(t@);
    let mut i: usize = 0;
    while i < t.len() && !str_eq(t[i].0.as_str(), k)
        invariant
            i <= t.len(),
            tv == pairs_v(t@),
            find_key(tv, k@, 0) == find_key(tv, k@, i as int),
        decreases t.len() - i,
    {
        i = i + 1;
    }
    if i < t.len() {
        t[i].1
    } else {
        0
    }
}

/// The views of comparison rows: key, duration in the first period, in the second.
pub open spec fn rows_v(v: Seq<(String, i64, i64)>) -> Seq<(Seq<char>, int, int)> {
    v.map_values(|r: (String, i64, i64)| (r.0@, r.1 as int, r.2 as int))
}

/// The rows of a period comparison: each key (given in the order of `String`) with its
/// duration in each period, ordered by the two durations together from the largest down;
/// equal sums keep the order of the keys.
pub open spec fn trend_rows_spec(a: Seq<(Seq<char>, int)>, b: Seq<(Seq<char>, int)>, keys: Seq<Seq<char>>) -> Seq<(Seq<char>, int, int)> {
    sort_desc_spec(keys.map_values(|k: Seq<char>| (k, value_of(a, k) + value_of(b, k)))).map_values(
        |p: (Seq<char>, int)| (p.0, value_of(a, p.0), value_of(b, p.0)),
    )
}

/// A key's durations in both periods together fit in `i64`.
pub open spec fn sums_fit(a: Seq<(Seq<char>, int)>, b: Seq<(Seq<char>, int)>, keys: Seq<Seq<char>>) -> bool {
    forall|i: int| 0 <= i < keys.len() ==> i64::MIN <= value_of(a, #[trigger] keys[i]) + value_of(b, keys[i]) <= i64::MAX
}

/// The rows of a period comparison (see `trend_rows_spec`), or `None` when a key's two
/// durations together leave `i64`.
pub fn trend_rows(a: &Vec<(String, i64)>, b: &Vec<(String, i64)>, keys: &Vec<String>) -> (r: Option<Vec<(String, i64, i64)>>)
    ensures
        r is Some <==> sums_fit(pairs_v(a@), pairs_v(b@), crate::report_blocks::string_views(keys@)),
        r matches Some(v) ==> rows_v(v@) == trend_rows_spec(pairs_v(a@), pairs_v(b@), crate::report_blocks::string_views(keys@)),
{
    let ghost av = pairs_v(a@);
    let ghost bv = pairs_v(b@);
    let ghost kv = crate::report_blocks::string_views(keys@);
    let mut sums: Vec<(String, i64)> = Vec::new();
    let mut i: usize = 0;
    while i < keys.len()
        invariant
            i <= keys.len(),
            av == pairs_v(a@),
            bv == pairs_v(b@),
            kv == crate::report_blocks::string_views(keys@),
            forall|q: int| 0 <= q < i ==> i64::MIN <= value_of(av, #[trigger] kv[q]) + value_of(bv, kv[q]) <= i64::MAX,
            sums@.len() == i,
            pairs_v(sums@) == kv.take(i as int).map_values(|k: Seq<char>| (k, value_of(av, k) + value_of(bv, k))),
        decreases keys.len() - i,
    {
        let va = lookup_value(a, keys[i].as_str());
        let vb = lookup_value(b, keys[i].as_str());
        let both = match va.checked_add(vb) {
            Some(x) => x,
            None => {
                assert(kv[i as int] == keys@[i as int]@);
                assert(!(i64::MIN <= value_of(av, kv[i as int]) + value_of(bv, kv[i as int]) <= i64::MAX));
                return None;
            },
        };
        let ghost before = sums@;
        let name = keys[i].clone();
        sums.push((name, both));
        assert(sums@ =~= before.push(sums@.last()));
        assert forall|j: int| 0 <= j <= i implies #[trigger] pairs_v(sums@)[j] == kv.take(i + 1).map_values(
            |k: Seq<char>| (k, value_of(av, k) + value_of(bv, k)),
        )[j] by {
            if j < i {
                assert(sums@[j] == before[j]);
                assert(pairs_v(before)[j] == kv.take(i as int).map_values(
                    |k: Seq<char>| (k, value_of(av, k) + value_of(bv, k)),
                )[j]);
            }
        }
        assert(pairs_v(sums@) =~= kv.take(i + 1).map_values(|k: Seq<char>| (k, value_of(av, k) + value_of(bv, k))));
        i = i + 1;
    }
    assert(kv.take(keys.len() as int) =~= kv);
    let sorted = sort_by_duration_desc(sums);
    let ghost sv = pairs_v(sorted@);
    let mut out: Vec<(String, i64, i64)> = Vec::new();
    let mut k: usize = 0;
    while k < sorted.len()
        invariant
            k <= sorted.len(),
            sv == pairs_v(sorted@),
            av == pairs_v(a@),
            bv == pairs_v(b@),
            out@.len() == k,
            rows_v(out@) == sv.take(k as int).map_values(
                |p: (Seq<char>, int)| (p.0, value_of(av, p.0), value_of(bv, p.0)),
            ),
        decreases sorted.len() - k,
    {
        let va = lookup_value(a, sorted[k].0.as_str());
        let vb = lookup_value(b, sorted[k].0.as_str());
        let ghost before = out@;
        let name = sorted[k].0.clone();
        out.push((name, va, vb));
        assert(out@ =~= before.push(out@.last()));
        assert forall|j: int| 0 <= j <= k implies #[trigger] rows_v(out@)[j] == sv.take(k + 1).map_values(
            |p: (Seq<char>, int)| (p.0, value_of(av, p.0), value_of(bv, p.0)),
        )[j] by {
            if j < k {
                assert(out@[j] == before[j]);
                assert(rows_v(before)[j] == sv.take(k as int).map_values(
                    |p: (Seq<char>, int)| (p.0, value_of(av, p.0), value_of(bv, p.0)),
                )[j]);
            }
        }
        assert(rows_v(out@) =~= sv.take(k + 1).map_values(
            |p: (Seq<char>, int)| (p.0, value_of(av, p.0), value_of(bv, p.0)),
        ));
        k = k + 1;
    }
    assert(sv.take(sorted.len() as int) =~= sv);
    Some(out)
}


/// An activity as `aggregate_stats` reads it: category key, application name, duration.
pub open spec fn activity_v(e: (String, String, i64)) -> (Seq<char>, Seq<char>, int) {
    (e.0@, e.1@, e.2 as int)
}

/// Whether an activity passes the category filter: any does when no category is named,
/// else those of that category.
pub open spec fn passes_filter(e: (Seq<char>, Seq<char>, int), filter: Option<Seq<char>>) -> bool {
    match filter {
        Some(f) => e.0 == f,
        None => true,
    }
}

/// The activities that pass the category filter, in order.
pub open spec fn filtered_activities(s: Seq<(String, String, i64)>, filter: Option<Seq<char>>) -> Seq<
    (Seq<char>, Seq<char>, int),
>
    decreases s.len(),
{
    if s.len() == 0 {
        seq![]
    } else {
        let e = activity_v(s.last());
        filtered_activities(s.drop_last(), filter) + (if passes_filter(e, filter) {
            seq![e]
        } else {
            seq![]
        })
    }
}

/// The application entries of activities: name and duration.
pub open spec fn app_pairs(s: Seq<(Seq<char>, Seq<char>, int)>) -> Seq<(Seq<char>, int)> {
    s.map_values(|e: (Seq<char>, Seq<char>, int)| (e.1, e.2))
}

/// The category entries of activities: key and duration.
pub open spec fn category_pairs(s: Seq<(Seq<char>, Seq<char>, int)>) -> Seq<(Seq<char>, int)> {
    s.map_values(|e: (Seq<char>, Seq<char>, int)| (e.0, e.2))
}

/// Splits activities `(category key, application, duration)` that pass the category filter
/// into application entries and category entries, each in the order of the activities.
pub fn split_by_category(activities: &Vec<(String, String, i64)>, filter: &Option<String>) -> (r: (
    Vec<(String, i64)>,
    Vec<(String, i64)>,
))
    ensures
        pairs_v(r.0@) == app_pairs(filtered_activities(activities@, crate::text::opt_string_view(*filter))),
        pairs_v(r.1@) == category_pairs(filtered_activities(activities@, crate::text::opt_string_view(*filter))),
{
    let ghost f = crate::text::opt_string_view(*filter);
    let mut apps: Vec<(String, i64)> = Vec::new();
    let mut cats: Vec<(String, i64)> = Vec::new();
    let mut i: usize = 0;
    while i < activities.len()
        invariant
            i <= activities.len(),
            f == crate::text::opt_string_view(*filter),
            pairs_v(apps@) == app_pairs(filtered_activities(activities@.take(i as int), f)),
            pairs_v(cats@) == category_pairs(filtered_activities(activities@.take(i as int), f)),
        decreases activities.len() - i,
    {
        let ghost before = filtered_activities(activities@.take(i as int), f);
        assert(activities@.take(i + 1).drop_last() =~= activities@.take(i as int));
        assert(activities@.take(i + 1).last() == activities@[i as int]);
        let e = &activities[i];
        let keep = match filter {
            Some(k) => str_eq(e.0.as_str(), k.as_str()),
            None => true,
        };
        if keep {
            let ghost a0 = apps@;
            let ghost c0 = cats@;
            let app = e.1.clone();
            let category = e.0.clone();
            apps.push((app, e.2));
            cats.push((category, e.2));
            assert(filtered_activities(activities@.take(i + 1), f) == before.push(activity_v(*e)));
            assert(pairs_v(apps@) =~= pairs_v(a0).push((e.1@, e.2 as int)));
            assert(pairs_v(cats@) =~= pairs_v(c0).push((e.0@, e.2 as int)));
            assert(app_pairs(before.push(activity_v(*e))) =~= app_pairs(before).push((e.1@, e.2 as int)));
            assert(category_pairs(before.push(activity_v(*e))) =~= category_pairs(before).push(
                (e.0@, e.2 as int),
            ));
        } else {
            assert(filtered_activities(activities@.take(i + 1), f) =~= before);
        }
        i = i + 1;
    }
    assert(activities@.take(activities.len() as int) =~= activities@);
    (apps, cats)
}

} // verus!
