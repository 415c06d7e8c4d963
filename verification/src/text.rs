use vstd::prelude::*;

verus! {

/// Appends one character to a string (std `String::push`).
#[verifier::external_body]
pub fn push_char(s: &mut String, c: char)
    ensures
        final(s)@ == old(s)@.push(c),
{
    s.push(c);
}

/// The characters of a string slice, in order.
pub fn chars_of(s: &str) -> (v: Vec<char>)
    ensures
        v@ == s@,
{
    let mut v: Vec<char> = Vec::new();
    for c in it: s.chars()
        invariant
            v@ == it.seq().take(it.index() as int),
    {
        v.push(c);
    }
    v
}


/// The string made of the given characters, in order.
pub fn string_of(v: &[char]) -> (s: String)
    ensures
        s@ == v@,
{
    let mut s = String::new();
    let mut i: usize = 0;
    while i < v.len()
        invariant
            i <= v.len(),
            s@ == v@.take(i as int),
        decreases v.len() - i,
    {
        push_char(&mut s, v[i]);
        i = i + 1;
        assert(s@ == v@.take(i as int));
    }
    assert(v@.take(v.len() as int) == v@);
    s
}

/// Appends a string slice.
pub fn push_str(out: &mut String, s: &str)
    ensures
        final(out)@ == old(out)@ + s@,
{
    out.append(s);
}

/// The decimal digit character for `d < 10`.
pub open spec fn digit_char(d: nat) -> char {
    ((48 + d) as u8) as char
}

/// Decimal representation of a natural number, without leading zeros.
pub open spec fn decimal(n: nat) -> Seq<char>
    decreases n,
{
    if n < 10 {
        seq![digit_char(n)]
    } else {
        decimal(n / 10).push(digit_char(n % 10))
    }
}

/// Decimal representation of an integer, with a leading `-` when negative.
pub open spec fn int_text(n: int) -> Seq<char> {
    if n < 0 {
        seq!['-'] + decimal((-n) as nat)
    } else {
        decimal(n as nat)
    }
}

/// Appends the decimal representation of `n`.
pub fn push_u64(out: &mut String, n: u64)
    ensures
        final(out)@ == old(out)@ + decimal(n as nat),
    decreases n,
{
    if n >= 10 {
        push_u64(out, n / 10);
    }
    let d: u8 = (n % 10) as u8;
    push_char(out, (48u8 + d) as char);
}

/// Appends the decimal representation of `n`, with a leading `-` when negative.
pub fn push_i64(out: &mut String, n: i64)
    ensures
        final(out)@ == old(out)@ + int_text(n as int),
{
    if n < 0 {
        push_char(out, '-');
        let m: u64 = if n == i64::MIN {
            9223372036854775808u64
        } else {
            (-n) as u64
        };
        push_u64(out, m);
        assert(seq!['-'] + decimal(m as nat) == seq!['-'].add(decimal(m as nat)));
    } else {
        push_u64(out, n as u64);
    }
}


/// `pat` occurs in `s` starting at index `i`.
pub open spec fn matches_at(s: Seq<char>, pat: Seq<char>, i: int) -> bool {
    0 <= i && i + pat.len() <= s.len() && s.subrange(i, i + pat.len()) == pat
}

/// `pat` occurs somewhere in `s`.
pub open spec fn contains(s: Seq<char>, pat: Seq<char>) -> bool {
    exists|i: int| matches_at(s, pat, i)
}

/// The first index at or after `from` where `pat` occurs in `s`.
pub open spec fn find_spec(s: Seq<char>, pat: Seq<char>, from: int) -> Option<int>
    decreases s.len() - from + 1,
{
    if from < 0 || from + pat.len() > s.len() {
        None
    } else if matches_at(s, pat, from) {
        Some(from)
    } else {
        find_spec(s, pat, from + 1)
    }
}

/// What `find_spec` returns is the first occurrence at or after `from`.
pub proof fn lemma_find_spec(s: Seq<char>, pat: Seq<char>, from: int)
    requires
        0 <= from,
    ensures
        match find_spec(s, pat, from) {
            Some(i) => from <= i && matches_at(s, pat, i) && forall|j: int|
                from <= j < i ==> !#[trigger] matches_at(s, pat, j),
            None => forall|j: int| from <= j ==> !#[trigger] matches_at(s, pat, j),
        },
    decreases s.len() - from + 1,
{
    if from + pat.len() > s.len() {
    } else if matches_at(s, pat, from) {
    } else {
        lemma_find_spec(s, pat, from + 1);
    }
}

/// `contains` holds exactly when a search from the start finds something.
pub proof fn lemma_contains_find(s: Seq<char>, pat: Seq<char>)
    ensures
        contains(s, pat) <==> find_spec(s, pat, 0) is Some,
{
    lemma_find_spec(s, pat, 0);
    if let Some(i) = find_spec(s, pat, 0) {
        assert(matches_at(s, pat, i));
    }
}

/// Whether `pat` occurs in `s` at index `i` (executable).
pub fn matches_at_exec(s: &[char], pat: &[char], i: usize) -> (r: bool)
    ensures
        r == matches_at(s@, pat@, i as int),
{
    if i > s.len() || pat.len() > s.len() - i {
        return false;
    }
    let mut k: usize = 0;
    while k < pat.len()
        invariant
            i + pat.len() <= s.len(),
            k <= pat.len(),
            forall|t: int| 0 <= t < k ==> s@[i + t] == pat@[t],
        decreases pat.len() - k,
    {
        if s[i + k] != pat[k] {
            assert(s@.subrange(i as int, i + pat.len())[k as int] != pat@[k as int]);
            return false;
        }
        k = k + 1;
    }
    assert(s@.subrange(i as int, i + pat.len()) =~= pat@);
    true
}

/// The first index at or after `from` where `pat` occurs in `s`.
pub fn find_from(s: &[char], pat: &[char], from: usize) -> (r: Option<usize>)
    ensures
        match r {
            Some(i) => find_spec(s@, pat@, from as int) == Some(i as int),
            None => find_spec(s@, pat@, from as int) is None,
        },
{
    let mut i = from;
    while i <= s.len() && pat.len() <= s.len() - i
        invariant
            from <= i,
            find_spec(s@, pat@, from as int) == find_spec(s@, pat@, i as int),
        decreases s.len() + 1 - i,
    {
        if matches_at_exec(s, pat, i) {
            return Some(i);
        }
        if i == s.len() {
            proof {
                if pat@.len() == 0 {
                    assert(s@.subrange(i as int, i as int) =~= pat@);
                }
            }
            return None;
        }
        i = i + 1;
    }
    None
}

/// Whether `pat` occurs in `s` (executable).
pub fn contains_exec(s: &[char], pat: &[char]) -> (r: bool)
    ensures
        r == contains(s@, pat@),
{
    proof {
        lemma_contains_find(s@, pat@);
    }
    find_from(s, pat, 0).is_some()
}

/// Whether the string slice `s` holds `pat`.
pub fn str_contains(s: &str, pat: &str) -> (r: bool)
    ensures
        r == contains(s@, pat@),
{
    let sv = chars_of(s);
    let pv = chars_of(pat);
    contains_exec(sv.as_slice(), pv.as_slice())
}

/// The two strings hold the same characters.
pub fn str_eq(a: &str, b: &str) -> (r: bool)
    ensures
        r == (a@ == b@),
{
    let av = chars_of(a);
    let bv = chars_of(b);
    seq_eq(av.as_slice(), bv.as_slice())
}

/// The two character slices are equal.
pub fn seq_eq(a: &[char], b: &[char]) -> (r: bool)
    ensures
        r == (a@ == b@),
{
    if a.len() != b.len() {
        return false;
    }
    let mut k: usize = 0;
    while k < a.len()
        invariant
            a.len() == b.len(),
            k <= a.len(),
            forall|t: int| 0 <= t < k ==> a@[t] == b@[t],
        decreases a.len() - k,
    {
        if a[k] != b[k] {
            return false;
        }
        k = k + 1;
    }
    assert(a@ =~= b@);
    true
}

/// `s` begins with `pat`.
pub open spec fn starts_with(s: Seq<char>, pat: Seq<char>) -> bool {
    pat.len() <= s.len() && s.subrange(0, pat.len() as int) == pat
}

/// `s` ends with `pat`.
pub open spec fn ends_with(s: Seq<char>, pat: Seq<char>) -> bool {
    pat.len() <= s.len() && s.subrange(s.len() - pat.len(), s.len() as int) == pat
}

/// Characters with the Unicode `White_Space` property (what `char::is_whitespace` tests).
pub open spec fn is_ws(c: char) -> bool {
    let u = c as u32;
    (0x09 <= u && u <= 0x0D) || u == 0x20 || u == 0x85 || u == 0xA0 || u == 0x1680
        || (0x2000 <= u && u <= 0x200A) || u == 0x2028 || u == 0x2029 || u == 0x202F
        || u == 0x205F || u == 0x3000
}

/// Whether `c` has the Unicode `White_Space` property.
pub fn is_ws_exec(c: char) -> (r: bool)
    ensures
        r == is_ws(c),
{
    let u = c as u32;
    (0x09 <= u && u <= 0x0D) || u == 0x20 || u == 0x85 || u == 0xA0 || u == 0x1680
        || (0x2000 <= u && u <= 0x200A) || u == 0x2028 || u == 0x2029 || u == 0x202F
        || u == 0x205F || u == 0x3000
}

/// `s` without its leading whitespace.
pub open spec fn trim_start(s: Seq<char>) -> Seq<char>
    decreases s.len(),
{
    if s.len() > 0 && is_ws(s[0]) {
        trim_start(s.drop_first())
    } else {
        s
    }
}

/// `s` without its trailing whitespace.
pub open spec fn trim_end(s: Seq<char>) -> Seq<char>
    decreases s.len(),
{
    if s.len() > 0 && is_ws(s.last()) {
        trim_end(s.drop_last())
    } else {
        s
    }
}

/// `s` without leading and trailing whitespace (what `str::trim` gives).
pub open spec fn trim(s: Seq<char>) -> Seq<char> {
    trim_end(trim_start(s))
}

proof fn lemma_trim_start_skip(s: Seq<char>, i: int)
    requires
        0 <= i <= s.len(),
        forall|t: int| 0 <= t < i ==> is_ws(#[trigger] s[t]),
    ensures
        trim_start(s) == trim_start(s.skip(i)),
    decreases i,
{
    if i > 0 {
        assert(is_ws(s[0]));
        let d = s.drop_first();
        assert forall|t: int| 0 <= t < i - 1 implies is_ws(#[trigger] d[t]) by {
            assert(d[t] == s[t + 1]);
        }
        lemma_trim_start_skip(d, i - 1);
        assert(d.skip(i - 1) =~= s.skip(i));
    } else {
        assert(s.skip(0) =~= s);
    }
}

proof fn lemma_trim_end_take(s: Seq<char>, j: int)
    requires
        0 <= j <= s.len(),
        forall|t: int| j <= t < s.len() ==> is_ws(#[trigger] s[t]),
    ensures
        trim_end(s) == trim_end(s.take(j)),
    decreases s.len() - j,
{
    if j < s.len() {
        assert(is_ws(s[s.len() - 1]));
        let d = s.drop_last();
        assert forall|t: int| j <= t < d.len() implies is_ws(#[trigger] d[t]) by {
            assert(d[t] == s[t]);
        }
        lemma_trim_end_take(d, j);
        assert(d.take(j) =~= s.take(j));
    } else {
        assert(s.take(j) =~= s);
    }
}

/// `s` without leading and trailing whitespace.
pub fn trim_chars(s: &[char]) -> (r: Vec<char>)
    ensures
        r@ == trim(s@),
{
    let mut i: usize = 0;
    while i < s.len() && is_ws_exec(s[i])
        invariant
            i <= s.len(),
            forall|t: int| 0 <= t < i ==> is_ws(#[trigger] s@[t]),
        decreases s.len() - i,
    {
        i = i + 1;
    }
    let mut j: usize = s.len();
    while j > i && is_ws_exec(s[j - 1])
        invariant
            i <= j <= s.len(),
            forall|t: int| j <= t < s.len() ==> is_ws(#[trigger] s@[t]),
        decreases j,
    {
        j = j - 1;
    }
    proof {
        lemma_trim_start_skip(s@, i as int);
        let u = s@.skip(i as int);
        assert(u.len() == 0 || !is_ws(u[0]) || i == j);
        if i < s.len() && i < j {
            assert(!is_ws(u[0]));
        }
        if i == j && i < s.len() {
            // every character from i on is whitespace
            assert(!is_ws(s@[i as int]));
        }
        assert(trim_start(s@) == u);
        let k = (j - i) as int;
        assert forall|t: int| k <= t < u.len() implies is_ws(#[trigger] u[t]) by {
            assert(u[t] == s@[t + i]);
        }
        lemma_trim_end_take(u, k);
        let w = u.take(k);
        if w.len() > 0 {
            assert(w.last() == s@[j - 1]);
        }
        assert(trim_end(w) == w);
    }
    let mut r: Vec<char> = Vec::new();
    let mut k: usize = i;
    while k < j
        invariant
            i <= k <= j <= s.len(),
            r@ == s@.subrange(i as int, k as int),
        decreases j - k,
    {
        r.push(s[k]);
        k = k + 1;
        assert(r@ =~= s@.subrange(i as int, k as int));
    }
    assert(s@.skip(i as int).take(j - i) =~= s@.subrange(i as int, j as int));
    r
}

/// All characters are ASCII.
pub open spec fn all_ascii(s: Seq<char>) -> bool {
    forall|i: int| 0 <= i < s.len() ==> (#[trigger] s[i] as u32) < 128
}

/// ASCII uppercase of one character.
pub open spec fn ascii_upper_char(c: char) -> char {
    if 'a' <= c && c <= 'z' {
        ((c as u32) - 32) as char
    } else {
        c
    }
}

/// ASCII lowercase of one character.
pub open spec fn ascii_lower_char(c: char) -> char {
    if 'A' <= c && c <= 'Z' {
        ((c as u32) + 32) as char
    } else {
        c
    }
}

/// Lowercase mapping of a string that holds a non-ASCII character, as `str::to_lowercase`
/// computes it from the Unicode case tables.
pub uninterp spec fn unicode_lower(s: Seq<char>) -> Seq<char>;

/// Uppercase mapping of a string that holds a non-ASCII character, as `str::to_uppercase`
/// computes it from the Unicode case tables.
pub uninterp spec fn unicode_upper(s: Seq<char>) -> Seq<char>;

/// What `str::to_lowercase` gives: on ASCII text each of `A`-`Z` is lowered on its own.
pub open spec fn lower_case(s: Seq<char>) -> Seq<char> {
    if all_ascii(s) {
        s.map_values(|c: char| ascii_lower_char(c))
    } else {
        unicode_lower(s)
    }
}

/// What `str::to_uppercase` gives: on ASCII text each of `a`-`z` is raised on its own.
pub open spec fn upper_case(s: Seq<char>) -> Seq<char> {
    if all_ascii(s) {
        s.map_values(|c: char| ascii_upper_char(c))
    } else {
        unicode_upper(s)
    }
}

/// std `str::to_lowercase`. On ASCII text the result lowers `A`-`Z` character by character,
/// as the std documentation gives; on other text it is named by `unicode_lower`, since the
/// Unicode case tables are not restated here.
#[verifier::external_body]
pub fn to_lower(s: &str) -> (r: String)
    ensures
        all_ascii(s@) ==> r@ == s@.map_values(|c: char| ascii_lower_char(c)),
        !all_ascii(s@) ==> r@ == unicode_lower(s@),
        r@ == lower_case(s@),
{
    s.to_lowercase()
}

/// std `str::to_uppercase`. On ASCII text the result raises `a`-`z` character by character,
/// as the std documentation gives; on other text it is named by `unicode_upper`.
#[verifier::external_body]
pub fn to_upper(s: &str) -> (r: String)
    ensures
        all_ascii(s@) ==> r@ == s@.map_values(|c: char| ascii_upper_char(c)),
        !all_ascii(s@) ==> r@ == unicode_upper(s@),
        r@ == upper_case(s@),
{
    s.to_uppercase()
}


/// `find_spec` from an offset into `s` is `find_spec` on the suffix after that offset, shifted.
pub proof fn lemma_find_skip(s: Seq<char>, pat: Seq<char>, c: int, k: int)
    requires
        0 <= c <= s.len(),
        0 <= k,
    ensures
        find_spec(s, pat, c + k) == (match find_spec(s.skip(c), pat, k) {
            Some(x) => Some(x + c),
            None => None,
        }),
    decreases s.len() - c - k + 1,
{
    let t = s.skip(c);
    if c + k + pat.len() > s.len() {
    } else {
        assert(t.subrange(k, k + pat.len()) =~= s.subrange(c + k, c + k + pat.len()));
        if matches_at(s, pat, c + k) {
        } else {
            lemma_find_skip(s, pat, c, k + 1);
        }
    }
}

/// Appends `s[from..to]` to `out`.
pub fn push_range(out: &mut Vec<char>, s: &[char], from: usize, to: usize)
    requires
        from <= to <= s.len(),
    ensures
        final(out)@ == old(out)@ + s@.subrange(from as int, to as int),
{
    let ghost start = out@;
    let mut k: usize = from;
    while k < to
        invariant
            from <= k <= to <= s.len(),
            out@ == start + s@.subrange(from as int, k as int),
        decreases to - k,
    {
        out.push(s[k]);
        k = k + 1;
        assert(out@ =~= start + s@.subrange(from as int, k as int));
    }
}

/// Appends all of `s` to `out`.
pub fn push_all(out: &mut Vec<char>, s: &[char])
    ensures
        final(out)@ == old(out)@ + s@,
{
    push_range(out, s, 0, s.len());
    assert(s@.subrange(0, s@.len() as int) =~= s@);
}

/// `s` without leading newlines.
pub open spec fn trim_start_nl(s: Seq<char>) -> Seq<char>
    decreases s.len(),
{
    if s.len() > 0 && s[0] == '\n' {
        trim_start_nl(s.drop_first())
    } else {
        s
    }
}

/// `s` without trailing newlines.
pub open spec fn trim_end_nl(s: Seq<char>) -> Seq<char>
    decreases s.len(),
{
    if s.len() > 0 && s.last() == '\n' {
        trim_end_nl(s.drop_last())
    } else {
        s
    }
}

/// `s` without leading and trailing newlines (what `str::trim_matches('\n')` gives).
pub open spec fn trim_nl(s: Seq<char>) -> Seq<char> {
    trim_end_nl(trim_start_nl(s))
}

/// After trimming newlines, a non-empty result does not end with a newline.
pub proof fn lemma_trim_nl_last(s: Seq<char>)
    ensures
        trim_nl(s).len() > 0 ==> trim_nl(s).last() != '\n',
{
    lemma_trim_end_nl_last(trim_start_nl(s));
}

proof fn lemma_trim_end_nl_last(s: Seq<char>)
    ensures
        trim_end_nl(s).len() > 0 ==> trim_end_nl(s).last() != '\n',
    decreases s.len(),
{
    if s.len() > 0 && s.last() == '\n' {
        lemma_trim_end_nl_last(s.drop_last());
    }
}

proof fn lemma_trim_start_nl_skip(s: Seq<char>, i: int)
    requires
        0 <= i <= s.len(),
        forall|t: int| 0 <= t < i ==> #[trigger] s[t] == '\n',
    ensures
        trim_start_nl(s) == trim_start_nl(s.skip(i)),
    decreases i,
{
    if i > 0 {
        let d = s.drop_first();
        assert forall|t: int| 0 <= t < i - 1 implies #[trigger] d[t] == '\n' by {
            assert(d[t] == s[t + 1]);
        }
        lemma_trim_start_nl_skip(d, i - 1);
        assert(d.skip(i - 1) =~= s.skip(i));
    } else {
        assert(s.skip(0) =~= s);
    }
}

proof fn lemma_trim_end_nl_take(s: Seq<char>, j: int)
    requires
        0 <= j <= s.len(),
        forall|t: int| j <= t < s.len() ==> #[trigger] s[t] == '\n',
    ensures
        trim_end_nl(s) == trim_end_nl(s.take(j)),
    decreases s.len() - j,
{
    if j < s.len() {
        let d = s.drop_last();
        assert forall|t: int| j <= t < d.len() implies #[trigger] d[t] == '\n' by {
            assert(d[t] == s[t]);
        }
        lemma_trim_end_nl_take(d, j);
        assert(d.take(j) =~= s.take(j));
    } else {
        assert(s.take(j) =~= s);
    }
}

/// `s` without leading and trailing newlines.
pub fn trim_newlines(s: &[char]) -> (r: Vec<char>)
    ensures
        r@ == trim_nl(s@),
{
    let mut i: usize = 0;
    while i < s.len() && s[i] == '\n'
        invariant
            i <= s.len(),
            forall|t: int| 0 <= t < i ==> #[trigger] s@[t] == '\n',
        decreases s.len() - i,
    {
        i = i + 1;
    }
    let mut j: usize = s.len();
    while j > i && s[j - 1] == '\n'
        invariant
            i <= j <= s.len(),
            forall|t: int| j <= t < s.len() ==> #[trigger] s@[t] == '\n',
        decreases j,
    {
        j = j - 1;
    }
    proof {
        lemma_trim_start_nl_skip(s@, i as int);
        let u = s@.skip(i as int);
        if i < j {
            assert(u[0] != '\n');
        }
        if i == j && i < s.len() {
            assert(s@[i as int] != '\n');
        }
        assert(trim_start_nl(s@) == u);
        let k = (j - i) as int;
        assert forall|t: int| k <= t < u.len() implies #[trigger] u[t] == '\n' by {
            assert(u[t] == s@[t + i]);
        }
        lemma_trim_end_nl_take(u, k);
        let w = u.take(k);
        if w.len() > 0 {
            assert(w.last() == s@[j - 1]);
        }
        assert(trim_end_nl(w) == w);
    }
    let mut r: Vec<char> = Vec::new();
    push_range(&mut r, s, i, j);
    assert(s@.skip(i as int).take(j - i) =~= s@.subrange(i as int, j as int));
    assert(r@ =~= s@.subrange(i as int, j as int));
    r
}


/// The number of bytes of the UTF-8 encoding of `c`.
pub open spec fn utf8_width(c: char) -> nat {
    let u = c as u32;
    if u < 0x80 {
        1
    } else if u < 0x800 {
        2
    } else if u < 0x10000 {
        3
    } else {
        4
    }
}

/// The number of bytes of the UTF-8 encoding of `s` (what `str::len` gives).
pub open spec fn utf8_len(s: Seq<char>) -> nat
    decreases s.len(),
{
    if s.len() == 0 {
        0
    } else {
        utf8_len(s.drop_last()) + utf8_width(s.last())
    }
}

/// The UTF-8 length of text counts one to four bytes per character: exactly one for ASCII
/// text, and exactly three for text of characters from U+0800 to U+FFFF (such as CJK
/// characters and full-width punctuation).
pub proof fn lemma_utf8_len_counts_bytes(s: Seq<char>)
    ensures
        s.len() <= utf8_len(s) <= 4 * s.len(),
        (forall|i: int| 0 <= i < s.len() ==> (#[trigger] s[i] as u32) < 0x80) ==> utf8_len(s) == s.len(),
        (forall|i: int| 0 <= i < s.len() ==> 0x800 <= (#[trigger] s[i] as u32) < 0x10000) ==> utf8_len(s) == 3
            * s.len(),
    decreases s.len(),
{
    if s.len() > 0 {
        let d = s.drop_last();
        lemma_utf8_len_counts_bytes(d);
        assert forall|i: int| 0 <= i < d.len() implies #[trigger] d[i] == s[i] by {}
        if forall|i: int| 0 <= i < s.len() ==> (#[trigger] s[i] as u32) < 0x80 {
            assert((s[s.len() - 1] as u32) < 0x80);
            assert forall|i: int| 0 <= i < d.len() implies (#[trigger] d[i] as u32) < 0x80 by {
                assert((s[i] as u32) < 0x80);
            }
        }
        if forall|i: int| 0 <= i < s.len() ==> 0x800 <= (#[trigger] s[i] as u32) < 0x10000 {
            assert(0x800 <= (s[s.len() - 1] as u32) < 0x10000);
            assert forall|i: int| 0 <= i < d.len() implies 0x800 <= (#[trigger] d[i] as u32) < 0x10000 by {
                assert(0x800 <= (s[i] as u32) < 0x10000);
            }
        }
    }
}

proof fn lemma_utf8_len_prefix(s: Seq<char>, i: int)
    requires
        0 <= i <= s.len(),
    ensures
        utf8_len(s.take(i)) <= utf8_len(s),
    decreases s.len() - i,
{
    if i < s.len() {
        lemma_utf8_len_prefix(s, i + 1);
        assert(s.take(i + 1).drop_last() =~= s.take(i));
    } else {
        assert(s.take(i) =~= s);
    }
}

/// Whether the UTF-8 encoding of `s` is shorter than `bound` bytes.
pub fn utf8_len_below(s: &[char], bound: usize) -> (r: bool)
    ensures
        r == (utf8_len(s@) < bound),
{
    if bound == 0 {
        return false;
    }
    let mut acc: usize = 0;
    let mut i: usize = 0;
    assert(s@.take(0) =~= Seq::<char>::empty());
    while i < s.len()
        invariant
            i <= s.len(),
            acc == utf8_len(s@.take(i as int)),
            acc < bound,
        decreases s.len() - i,
    {
        let u = s[i] as u32;
        let w: usize = if u < 0x80 {
            1
        } else if u < 0x800 {
            2
        } else if u < 0x10000 {
            3
        } else {
            4
        };
        assert(s@.take(i + 1).drop_last() =~= s@.take(i as int));
        if w >= bound - acc {
            proof {
                lemma_utf8_len_prefix(s@, i + 1);
            }
            return false;
        }
        acc = acc + w;
        i = i + 1;
    }
    assert(s@.take(s.len() as int) =~= s@);
    true
}


proof fn lemma_trim_start_shape(s: Seq<char>)
    ensures
        trim_start(s).len() == 0 || !is_ws(trim_start(s)[0]),
    decreases s.len(),
{
    if s.len() > 0 && is_ws(s[0]) {
        lemma_trim_start_shape(s.drop_first());
    }
}

proof fn lemma_trim_end_shape(s: Seq<char>)
    ensures
        trim_end(s).len() <= s.len(),
        trim_end(s) == s.take(trim_end(s).len() as int),
        trim_end(s).len() == 0 || !is_ws(trim_end(s).last()),
    decreases s.len(),
{
    if s.len() > 0 && is_ws(s.last()) {
        lemma_trim_end_shape(s.drop_last());
        assert(s.drop_last().take(trim_end(s).len() as int) =~= s.take(trim_end(s).len() as int));
    } else {
        assert(s.take(s.len() as int) =~= s);
    }
}

/// Trimming twice is trimming once.
pub proof fn lemma_trim_idempotent(s: Seq<char>)
    ensures
        trim(trim(s)) == trim(s),
{
    let u = trim_start(s);
    let v = trim_end(u);
    lemma_trim_start_shape(s);
    lemma_trim_end_shape(u);
    if v.len() > 0 {
        assert(v[0] == u[0]);
    }
    assert(trim_start(v) == v);
}

/// The view of an optional string.
pub open spec fn opt_string_view(s: Option<String>) -> Option<Seq<char>> {
    match s {
        Some(x) => Some(x@),
        None => None,
    }
}

/// The view of an optional string slice.
pub open spec fn opt_str_view(s: Option<&str>) -> Option<Seq<char>> {
    match s {
        Some(x) => Some(x@),
        None => None,
    }
}

} // verus!
