//! A JSON document model (exec values and their mathematical view), with the lookups the
//! model-provider code uses.
use vstd::prelude::*;

verus! {

broadcast use vstd::std_specs::vec::group_vec_axioms;

/// serde_json's `Value`, carried through opaquely.
#[verifier::external_type_specification]
#[verifier::external_body]
pub struct ExValue(serde_json::Value);

/// A JSON value. Numbers are kept as their JSON text; object members keep their order.
#[derive(Debug)]
pub enum Json {
    Null,
    Bool(bool),
    Number(String),
    Str(String),
    Array(Vec<Json>),
    Object(Vec<(String, Json)>),
}

/// The mathematical view of a JSON value.
pub enum JsonV {
    Null,
    Bool(bool),
    Number(Seq<char>),
    Str(Seq<char>),
    Array(Seq<JsonV>),
    Object(Seq<(Seq<char>, JsonV)>),
}

/// The view of a JSON value.
pub open spec fn jv(j: Json) -> JsonV
    decreases j,
{
    match j {
        Json::Null => JsonV::Null,
        Json::Bool(b) => JsonV::Bool(b),
        Json::Number(n) => JsonV::Number(n@),
        Json::Str(s) => JsonV::Str(s@),
        Json::Array(v) => JsonV::Array(arr_v(v@)),
        Json::Object(m) => JsonV::Object(obj_v(m@)),
    }
}

/// The views of array elements.
pub open spec fn arr_v(v: Seq<Json>) -> Seq<JsonV>
    decreases v,
{
    if v.len() == 0 {
        seq![]
    } else {
        arr_v(v.drop_last()).push(jv(v.last()))
    }
}

/// The views of object members.
pub open spec fn obj_v(m: Seq<(String, Json)>) -> Seq<(Seq<char>, JsonV)>
    decreases m,
{
    if m.len() == 0 {
        seq![]
    } else {
        obj_v(m.drop_last()).push((m.last().0@, jv(m.last().1)))
    }
}

impl View for Json {
    type V = JsonV;

    open spec fn view(&self) -> JsonV {
        jv(*self)
    }
}

/// The view of an array has one element per element, each the element's view.
pub proof fn lemma_arr_v(v: Seq<Json>)
    ensures
        arr_v(v).len() == v.len(),
        forall|i: int| 0 <= i < v.len() ==> #[trigger] arr_v(v)[i] == jv(v[i]),
    decreases v.len(),
{
    if v.len() > 0 {
        lemma_arr_v(v.drop_last());
        assert forall|i: int| 0 <= i < v.len() implies #[trigger] arr_v(v)[i] == jv(v[i]) by {
            if i < v.len() - 1 {
                assert(v.drop_last()[i] == v[i]);
            }
        }
    }
}

/// The view of an object has one member per member, each the key's and value's views.
pub proof fn lemma_obj_v(m: Seq<(String, Json)>)
    ensures
        obj_v(m).len() == m.len(),
        forall|i: int| 0 <= i < m.len() ==> #[trigger] obj_v(m)[i] == (m[i].0@, jv(m[i].1)),
    decreases m.len(),
{
    if m.len() > 0 {
        lemma_obj_v(m.drop_last());
        assert forall|i: int| 0 <= i < m.len() implies #[trigger] obj_v(m)[i] == (m[i].0@, jv(m[i].1)) by {
            if i < m.len() - 1 {
                assert(m.drop_last()[i] == m[i]);
            }
        }
    }
}

/// The value of the first member named `key`, looking from index `i` on.
pub open spec fn member_from(ms: Seq<(Seq<char>, JsonV)>, key: Seq<char>, i: int) -> Option<JsonV>
    decreases ms.len() - i,
{
    if i < 0 || i >= ms.len() {
        None
    } else if ms[i].0 == key {
        Some(ms[i].1)
    } else {
        member_from(ms, key, i + 1)
    }
}

/// `value.get(key)`: the first member `key` of an object; `None` for other values.
pub open spec fn get(j: JsonV, key: Seq<char>) -> Option<JsonV> {
    match j {
        JsonV::Object(ms) => member_from(ms, key, 0),
        _ => None,
    }
}

/// `value[key]`: the member `key` of an object; `null` when there is none.
pub open spec fn field(j: JsonV, key: Seq<char>) -> JsonV {
    match get(j, key) {
        Some(x) => x,
        None => JsonV::Null,
    }
}

/// `value[i]`: element `i` of an array; `null` when there is none.
pub open spec fn elem(j: JsonV, i: int) -> JsonV {
    match j {
        JsonV::Array(v) => if 0 <= i < v.len() {
            v[i]
        } else {
            JsonV::Null
        },
        _ => JsonV::Null,
    }
}

/// `value.as_str()`.
pub open spec fn as_str(j: JsonV) -> Option<Seq<char>> {
    match j {
        JsonV::Str(s) => Some(s),
        _ => None,
    }
}

/// `value.as_array()`.
pub open spec fn as_array(j: JsonV) -> Option<Seq<JsonV>> {
    match j {
        JsonV::Array(v) => Some(v),
        _ => None,
    }
}

/// A borrowed optional value, as a view (absent is `null`).
pub open spec fn lift(r: Option<&Json>) -> JsonV {
    match r {
        Some(x) => x@,
        None => JsonV::Null,
    }
}

/// The first member named `key` among an object's members.
fn object_member<'a>(m: &'a Vec<(String, Json)>, key: &str) -> (r: Option<&'a Json>)
    ensures
        match r {
            Some(x) => member_from(obj_v(m@), key@, 0) == Some(x@),
            None => member_from(obj_v(m@), key@, 0) is None,
        },
{
    proof {
        lemma_obj_v(m@);
    }
    let ghost ms = obj_v(m@);
    let mut i: usize = 0;
    while i < m.len()
        invariant
            i <= m.len(),
            ms == obj_v(m@),
            ms.len() == m@.len(),
            forall|k: int| 0 <= k < m@.len() ==> #[trigger] ms[k] == (m@[k].0@, jv(m@[k].1)),
            member_from(ms, key@, 0) == member_from(ms, key@, i as int),
        decreases m.len() - i,
    {
        assert(ms[i as int] == (m@[i as int].0@, jv(m@[i as int].1)));
        if crate::text::str_eq(m[i].0.as_str(), key) {
            return Some(&m[i].1);
        }
        i = i + 1;
    }
    None
}

/// `value[key]` (absent is `null`).
pub fn json_field<'a>(j: Option<&'a Json>, key: &str) -> (r: Option<&'a Json>)
    ensures
        lift(r) == field(lift(j), key@),
        r is Some <==> get(lift(j), key@) is Some,
{
    match j {
        Some(Json::Object(m)) => object_member(m, key),
        _ => None,
    }
}

/// `value[i]` (absent is `null`).
pub fn json_elem<'a>(j: Option<&'a Json>, i: usize) -> (r: Option<&'a Json>)
    ensures
        lift(r) == elem(lift(j), i as int),
{
    match j {
        Some(Json::Array(v)) => {
            proof {
                lemma_arr_v(v@);
            }
            if i < v.len() {
                Some(&v[i])
            } else {
                None
            }
        },
        _ => None,
    }
}

/// `value.as_str()` (absent is `null`).
pub fn json_as_str<'a>(j: Option<&'a Json>) -> (r: Option<&'a str>)
    ensures
        match r {
            Some(s) => as_str(lift(j)) == Some(s@),
            None => as_str(lift(j)) is None,
        },
{
    match j {
        Some(Json::Str(s)) => Some(s.as_str()),
        _ => None,
    }
}

/// `value.as_array()` (absent is `null`).
pub fn json_as_array<'a>(j: Option<&'a Json>) -> (r: Option<&'a Vec<Json>>)
    ensures
        match r {
            Some(v) => as_array(lift(j)) == Some(arr_v(v@)),
            None => as_array(lift(j)) is None,
        },
{
    match j {
        Some(Json::Array(v)) => Some(v),
        _ => None,
    }
}

/// A copy of a value.
pub fn clone_json(j: &Json) -> (r: Json)
    ensures
        r@ == j@,
    decreases j,
{
    match j {
        Json::Null => Json::Null,
        Json::Bool(b) => Json::Bool(*b),
        Json::Number(n) => Json::Number(n.clone()),
        Json::Str(s) => Json::Str(s.clone()),
        Json::Array(v) => {
            let mut out: Vec<Json> = Vec::new();
            let mut i: usize = 0;
            while i < v.len()
                invariant
                    i <= v.len(),
                    arr_v(out@) == arr_v(v@.take(i as int)),
                    *j == Json::Array(*v),
                decreases v.len() - i,
            {
                proof {
                    assert(decreases_to!(*j => j->Array_0));
                    assert(decreases_to!(j->Array_0 => j->Array_0[i as int]));
                }
                let x = clone_json(&v[i]);
                let ghost before = out@;
                out.push(x);
                assert(out@.drop_last() == before);
                assert(v@.take(i + 1).drop_last() =~= v@.take(i as int));
                i = i + 1;
            }
            assert(v@.take(v.len() as int) =~= v@);
            Json::Array(out)
        },
        Json::Object(m) => {
            let mut out: Vec<(String, Json)> = Vec::new();
            let mut i: usize = 0;
            while i < m.len()
                invariant
                    i <= m.len(),
                    obj_v(out@) == obj_v(m@.take(i as int)),
                    *j == Json::Object(*m),
                decreases m.len() - i,
            {
                let k = m[i].0.clone();
                proof {
                    assert(decreases_to!(*j => j->Object_0));
                    assert(decreases_to!(j->Object_0 => j->Object_0[i as int]));
                    assert(decreases_to!(j->Object_0[i as int] => j->Object_0[i as int].1));
                }
                let x = clone_json(&m[i].1);
                let ghost before = out@;
                out.push((k, x));
                assert(out@.drop_last() == before);
                assert(m@.take(i + 1).drop_last() =~= m@.take(i as int));
                i = i + 1;
            }
            assert(m@.take(m.len() as int) =~= m@);
            Json::Object(out)
        },
    }
}


/// Appends a member to an object's member list.
pub fn push_member(members: &mut Vec<(String, Json)>, key: &str, v: Json)
    ensures
        obj_v(final(members)@) == obj_v(old(members)@).push((key@, v@)),
{
    let ghost before = members@;
    members.push((key.to_owned(), v));
    assert(members@.drop_last() =~= before);
}

/// Appends an element to an array's element list.
pub fn push_item(items: &mut Vec<Json>, v: Json)
    ensures
        arr_v(final(items)@) == arr_v(old(items)@).push(v@),
{
    let ghost before = items@;
    items.push(v);
    assert(items@.drop_last() =~= before);
}

/// A string value.
pub fn json_str(s: &str) -> (r: Json)
    ensures
        r@ == JsonV::Str(s@),
{
    Json::Str(s.to_owned())
}

/// The values of a list of JSON values, copied.
pub fn copy_items(v: &[Json]) -> (r: Vec<Json>)
    ensures
        arr_v(r@) == arr_v(v@),
{
    let mut out: Vec<Json> = Vec::new();
    let mut i: usize = 0;
    while i < v.len()
        invariant
            i <= v.len(),
            arr_v(out@) == arr_v(v@.take(i as int)),
        decreases v.len() - i,
    {
        push_item(&mut out, clone_json(&v[i]));
        assert(v@.take(i + 1).drop_last() =~= v@.take(i as int));
        i = i + 1;
    }
    assert(v@.take(v.len() as int) =~= v@);
    out
}


/// The character is an ASCII digit.
pub open spec fn is_digit(c: char) -> bool {
    '0' <= c && c <= '9'
}

/// The value of a string of decimal digits.
pub open spec fn digits_value(t: Seq<char>) -> nat
    decreases t.len(),
{
    if t.len() == 0 {
        0
    } else {
        digits_value(t.drop_last()) * 10 + ((t.last() as u32) - 48) as nat
    }
}

/// `value.as_u64()`: a number written with digits only (a JSON integer that is not
/// negative) whose value fits in `u64`.
pub open spec fn as_u64(j: JsonV) -> Option<u64> {
    match j {
        JsonV::Number(t) => if t.len() > 0 && (forall|i: int| 0 <= i < t.len() ==> is_digit(#[trigger] t[i]))
            && digits_value(t) <= u64::MAX {
            Some(digits_value(t) as u64)
        } else {
            None
        },
        _ => None,
    }
}

/// `value.as_u64()` (absent is `null`).
pub fn json_as_u64(j: Option<&Json>) -> (r: Option<u64>)
    ensures
        r == as_u64(lift(j)),
{
    match j {
        Some(Json::Number(t)) => {
            let cs = crate::text::chars_of(t.as_str());
            if cs.len() == 0 {
                return None;
            }
            let mut k: usize = 0;
            while k < cs.len()
                invariant
                    k <= cs.len(),
                    cs@ == t@,
                    lift(j) == JsonV::Number(t@),
                    forall|q: int| 0 <= q < k ==> is_digit(#[trigger] cs@[q]),
                decreases cs.len() - k,
            {
                let c = cs[k];
                if !('0' <= c && c <= '9') {
                    assert(!is_digit(cs@[k as int]));
                    return None;
                }
                k = k + 1;
            }
            let mut v: u64 = 0;
            let mut i: usize = 0;
            while i < cs.len()
                invariant
                    i <= cs.len(),
                    cs@ == t@,
                    lift(j) == JsonV::Number(t@),
                    forall|q: int| 0 <= q < cs@.len() ==> is_digit(#[trigger] cs@[q]),
                    v == digits_value(cs@.take(i as int)),
                decreases cs.len() - i,
            {
                let c = cs[i];
                assert(is_digit(cs@[i as int]));
                let d: u64 = ((c as u32) - 48) as u64;
                assert(cs@.take(i + 1).drop_last() =~= cs@.take(i as int));
                assert(cs@.take(i + 1).last() == c);
                if v > (u64::MAX - d) / 10 {
                    proof {
                        lemma_digits_value_prefix(cs@, i + 1);
                        assert(v * 10 + d > u64::MAX) by (nonlinear_arith)
                            requires
                                v > (u64::MAX - d) / 10,
                                d <= 9,
                        ;
                    }
                    return None;
                }
                v = v * 10 + d;
                i = i + 1;
            }
            assert(cs@.take(cs.len() as int) =~= cs@);
            Some(v)
        },
        _ => None,
    }
}

/// A longer digit string is worth at least as much as its prefix.
proof fn lemma_digits_value_prefix(t: Seq<char>, n: int)
    requires
        0 <= n <= t.len(),
        forall|i: int| 0 <= i < t.len() ==> is_digit(#[trigger] t[i]),
    ensures
        digits_value(t.take(n)) <= digits_value(t),
    decreases t.len() - n,
{
    if n < t.len() {
        lemma_digits_value_prefix(t, n + 1);
        assert(t.take(n + 1).drop_last() =~= t.take(n));
        assert(t[n] == t.take(n + 1).last());
    } else {
        assert(t.take(n) =~= t);
    }
}

/// The value that JSON text parses to (`serde_json::from_str::<Value>`), `None` when the
/// text is not JSON.
pub uninterp spec fn parse_json(text: Seq<char>) -> Option<JsonV>;

/// The compact JSON text of a value (`Value::to_string`).
pub uninterp spec fn json_text(j: JsonV) -> Seq<char>;

/// The view of an optional value.
pub open spec fn opt_jv(r: Option<Json>) -> Option<JsonV> {
    match r {
        Some(x) => Some(x@),
        None => None,
    }
}

/// serde_json: `from_str::<Value>` on the text, with the parsed value converted member by
/// member into `Json` (numbers as their text). The result is named by `parse_json`.
#[verifier::external_body]
pub(crate) fn parse_json_text(text: &str) -> (r: Option<Json>)
    ensures
        opt_jv(r) == parse_json(text@),
{
    match serde_json::from_str::<serde_json::Value>(text) {
        Ok(v) => Some(Json::from_value(&v)),
        Err(_) => None,
    }
}


/// The message serde_json gives for text that is not JSON (`Error`'s display text).
pub uninterp spec fn json_error_text(text: Seq<char>) -> Seq<char>;

/// serde_json: the display text of the error `from_str::<Value>` returns on the text
/// (empty when the text parses). The result is named by `json_error_text` for text that
/// does not parse; nothing is stated of text that parses.
#[verifier::external_body]
pub(crate) fn json_error_message(text: &str) -> (r: String)
    ensures
        parse_json(text@) is None ==> r@ == json_error_text(text@),
{
    match serde_json::from_str::<serde_json::Value>(text) {
        Ok(_) => String::new(),
        Err(e) => e.to_string(),
    }
}

/// The lowercase hexadecimal digit for `n < 16`.
pub open spec fn hex_digit(n: nat) -> char {
    if n < 10 {
        ((48 + n) as u8) as char
    } else {
        ((87 + n) as u8) as char
    }
}

/// How serde_json writes one character inside a JSON string: `"` and `\` with a
/// backslash, the control characters with short escapes where JSON has one and as
/// `\u00XX` (lowercase hex) otherwise; every other character as itself.
pub open spec fn json_escape_char(c: char) -> Seq<char> {
    let u = c as u32;
    if c == '"' {
        seq!['\\', '"']
    } else if c == '\\' {
        seq!['\\', '\\']
    } else if u == 0x08 {
        seq!['\\', 'b']
    } else if u == 0x09 {
        seq!['\\', 't']
    } else if u == 0x0A {
        seq!['\\', 'n']
    } else if u == 0x0C {
        seq!['\\', 'f']
    } else if u == 0x0D {
        seq!['\\', 'r']
    } else if u < 0x20 {
        seq!['\\', 'u', '0', '0', hex_digit((u / 16) as nat), hex_digit((u % 16) as nat)]
    } else {
        seq![c]
    }
}

/// The escaped characters of a JSON string.
pub open spec fn json_escape(s: Seq<char>) -> Seq<char>
    decreases s.len(),
{
    if s.len() == 0 {
        seq![]
    } else {
        json_escape(s.drop_last()) + json_escape_char(s.last())
    }
}

/// A JSON string literal.
pub open spec fn json_string(s: Seq<char>) -> Seq<char> {
    seq!['"'] + json_escape(s) + seq!['"']
}

/// The compact JSON text of an object with one string member.
pub open spec fn json_single(key: Seq<char>, value: Seq<char>) -> Seq<char> {
    seq!['{'] + json_string(key) + seq![':'] + json_string(value) + seq!['}']
}

/// The key and text of an object whose one member is a string.
pub open spec fn single_str_member(j: JsonV) -> Option<(Seq<char>, Seq<char>)> {
    match j {
        JsonV::Object(ms) => if ms.len() == 1 {
            match ms[0].1 {
                JsonV::Str(v) => Some((ms[0].0, v)),
                _ => None,
            }
        } else {
            None
        },
        _ => None,
    }
}

/// serde_json: `Value::to_string` (compact JSON text) of the value converted from `Json`.
/// The result is named by `json_text`; for an object of one member whose value is a string,
/// the contract also states the text, restating serde_json's compact writer and its string
/// escaping (its `ESCAPE` table and `write_char_escape`).
#[verifier::external_body]
pub(crate) fn to_json_text(j: &Json) -> (r: String)
    ensures
        r@ == json_text(j@),
        single_str_member(j@) matches Some(kv) ==> r@ == json_single(kv.0, kv.1),
{
    j.to_value().to_string()
}

impl Json {
    /// One-for-one conversion from a serde_json value (numbers kept as their text).
    #[verifier::external_body]
    fn from_value(v: &serde_json::Value) -> Json {
        match v {
            serde_json::Value::Null => Json::Null,
            serde_json::Value::Bool(b) => Json::Bool(*b),
            serde_json::Value::Number(n) => Json::Number(n.to_string()),
            serde_json::Value::String(s) => Json::Str(s.clone()),
            serde_json::Value::Array(a) => Json::Array(a.iter().map(Json::from_value).collect()),
            serde_json::Value::Object(m) => Json::Object(m.iter().map(|(k, x)| (k.clone(), Json::from_value(x))).collect()),
        }
    }

    /// One-for-one conversion into a serde_json value (a number text that serde_json does
    /// not read becomes `null`).
    #[verifier::external_body]
    fn to_value(&self) -> serde_json::Value {
        match self {
            Json::Null => serde_json::Value::Null,
            Json::Bool(b) => serde_json::Value::Bool(*b),
            Json::Number(n) => n.parse::<serde_json::Number>().map(serde_json::Value::Number).unwrap_or(serde_json::Value::Null),
            Json::Str(s) => serde_json::Value::String(s.clone()),
            Json::Array(a) => serde_json::Value::Array(a.iter().map(Json::to_value).collect()),
            Json::Object(m) => serde_json::Value::Object(m.iter().map(|(k, x)| (k.clone(), x.to_value())).collect()),
        }
    }
}

} // verus!
