//! Feishu bot webhook: token checking, the decisions on an incoming event, and the JSON
//! bodies of the webhook's responses.
use vstd::prelude::*;
use vstd::utf8::{encode_utf8, encode_utf8_decode_utf8};
use subtle::ConstantTimeEq;
use crate::text::{
    opt_string_view, chars_of, is_ws, is_ws_exec, push_str, str_eq, string_of, trim, trim_chars, trim_start,
};
use crate::json::{
    Json, JsonV, obj_v, get, as_str, as_u64, json_field, json_as_str, json_as_u64, json_text,
    to_json_text, push_member, json_str, field, parse_json, parse_json_text, json_error_text,
    json_error_message, json_single,
};
use crate::model::str_or;

verus! {

/// The compact JSON text of an object with one string member.
fn json_object_text(key: &str, value: &str) -> (r: String)
    ensures
        r@ == json_single(key@, value@),
{
    let mut m: Vec<(String, Json)> = Vec::new();
    push_member(&mut m, key, json_str(value));
    assert(obj_v(m@) =~= seq![(key@, JsonV::Str(value@))]);
    to_json_text(&Json::Object(m))
}

/// subtle: `<[u8] as ConstantTimeEq>::ct_eq` on the UTF-8 bytes of the two strings,
/// converted to `bool`: true exactly when the byte slices have the same length and the same
/// bytes (compared without an early exit on the contents).
#[verifier::external_body]
fn bytes_ct_eq(provided: &str, expected: &str) -> (r: bool)
    ensures
        r == (encode_utf8(provided@) == encode_utf8(expected@)),
{
    provided.as_bytes().ct_eq(expected.as_bytes()).into()
}

/// Compares a provided verification token with the configured one in constant time.
pub fn token_matches(provided: &str, expected: &str) -> (r: bool)
    ensures
        r == (provided@ == expected@),
{
    proof {
        encode_utf8_decode_utf8(provided@);
        encode_utf8_decode_utf8(expected@);
    }
    bytes_ct_eq(provided, expected)
}

/// The HTTP response of the webhook.
pub struct FeishuResponse {
    pub status: u16,
    pub body: String,
}

impl FeishuResponse {
    /// A response whose body is the compact JSON text of the value.
    pub fn json(status: u16, value: &Json) -> (r: Self)
        ensures
            r.status == status,
            r.body@ == json_text(value@),
    {
        FeishuResponse { status, body: to_json_text(value) }
    }

    /// A response whose body is the JSON object `{"error": message}`.
    pub fn error(status: u16, message: &str) -> (r: Self)
        ensures
            r.status == status,
            r.body@ == json_single("error"@, message@),
    {
        FeishuResponse { status, body: json_object_text("error", message) }
    }

    /// A response whose body is the JSON object `{"challenge": challenge}`.
    pub fn challenge(challenge: &str) -> (r: Self)
        ensures
            r.status == 200,
            r.body@ == json_single("challenge"@, challenge@),
    {
        FeishuResponse { status: 200, body: json_object_text("challenge", challenge) }
    }
}

/// The fields of an incoming Feishu event that the webhook reads (absent or non-string
/// fields are `None`).
pub struct FeishuEvent {
    /// Top-level `type`.
    pub kind: Option<String>,
    /// Top-level `challenge`.
    pub challenge: Option<String>,
    /// Top-level `token` (URL verification).
    pub token: Option<String>,
    /// A `header` member is present.
    pub has_header: bool,
    /// `header.event_type`.
    pub header_event_type: Option<String>,
    /// `header.token`.
    pub header_token: Option<String>,
    /// An `event` member is present.
    pub has_event: bool,
    /// An `event.message` member is present.
    pub has_message: bool,
    /// `event.message.message_id`.
    pub message_id: Option<String>,
    /// `event.message.message_type`.
    pub message_type: Option<String>,
    /// The `text` of the JSON held in `event.message.content`.
    pub text: Option<String>,
}

/// The bot settings the webhook needs.
pub struct FeishuSettings {
    pub verification_token: Option<String>,
    pub app_id: Option<String>,
    pub app_secret: Option<String>,
}

/// What the webhook does with an event.
pub enum WebhookDecision {
    /// Answer at once with this response.
    Respond(FeishuResponse),
    /// Answer 200 with an `ignored` status, this reason and detail.
    Ignore { reason: String, detail: Option<String> },
    /// Tell the sender that only text is understood, then answer 200 `non_text_replied`.
    ReplyNonText { message_id: String, app_id: String, app_secret: String },
    /// Run the bot command in `text` and reply with its result.
    RunCommand { message_id: String, text: String, command: String, app_id: String, app_secret: String },
}

/// The view of an optional string, absent as empty.
pub open spec fn or_empty(s: Option<String>) -> Seq<char> {
    match s {
        Some(x) => x@,
        None => Seq::empty(),
    }
}

/// The configured value when it is present and not empty.
pub open spec fn configured(s: Option<String>) -> Option<Seq<char>> {
    match s {
        Some(x) => if x@.len() > 0 {
            Some(x@)
        } else {
            None
        },
        None => None,
    }
}

/// The first whitespace-separated word of `s`.
pub open spec fn first_word(s: Seq<char>) -> Seq<char> {
    let t = trim_start(s);
    t.take(word_end(t, 0))
}

/// The index of the first whitespace character of `t` at or after `i`, or its length.
pub open spec fn word_end(t: Seq<char>, i: int) -> int
    decreases t.len() - i,
{
    if i < 0 || i >= t.len() {
        t.len() as int
    } else if is_ws(t[i]) {
        i
    } else {
        word_end(t, i + 1)
    }
}

/// What `normalize_command` gives: a leading `/` removed, and anything from the first `@`
/// on (a bot-name suffix) removed.
pub open spec fn normalize_command_spec(word: Seq<char>) -> Seq<char> {
    let w = if word.len() > 0 && word[0] == '/' {
        word.drop_first()
    } else {
        word
    };
    w.take(at_index(w, 0))
}

/// The index of the first `@` of `w` at or after `i`, or its length.
pub open spec fn at_index(w: Seq<char>, i: int) -> int
    decreases w.len() - i,
{
    if i < 0 || i >= w.len() {
        w.len() as int
    } else if w[i] == '@' {
        i
    } else {
        at_index(w, i + 1)
    }
}

/// A bot command word without its slash and bot-name suffix (`"/reports@bot"` gives `"reports"`).
pub fn normalize_command(word: &str) -> (r: String)
    ensures
        r@ == normalize_command_spec(word@),
{
    let cv = chars_of(word);
    let start: usize = if cv.len() > 0 && cv[0] == '/' { 1 } else { 0 };
    let ghost w = if word@.len() > 0 && word@[0] == '/' { word@.drop_first() } else { word@ };
    assert(w =~= cv@.skip(start as int));
    let mut i = start;
    while i < cv.len() && cv[i] != '@'
        invariant
            start <= i <= cv.len(),
            w == cv@.skip(start as int),
            at_index(w, 0) == at_index(w, i - start),
        decreases cv.len() - i,
    {
        i = i + 1;
    }
    let mut out: Vec<char> = Vec::new();
    let mut k = start;
    while k < i
        invariant
            start <= k <= i <= cv.len(),
            out@ == cv@.subrange(start as int, k as int),
        decreases i - k,
    {
        out.push(cv[k]);
        k = k + 1;
        assert(out@ =~= cv@.subrange(start as int, k as int));
    }
    assert(w.take(i - start) =~= cv@.subrange(start as int, i as int));
    string_of(out.as_slice())
}

/// The first whitespace-separated word of a text (what `split_whitespace().next()` gives,
/// empty when there is none).
pub fn first_word_of(text: &str) -> (r: String)
    ensures
        r@ == first_word(text@),
{
    let cv = chars_of(text);
    let mut i: usize = 0;
    assert(cv@.skip(0) =~= cv@);
    while i < cv.len() && is_ws_exec(cv[i])
        invariant
            i <= cv.len(),
            trim_start(cv@) == trim_start(cv@.skip(i as int)),
        decreases cv.len() - i,
    {
        assert(cv@.skip(i as int).drop_first() =~= cv@.skip(i + 1));
        i = i + 1;
    }
    let ghost t = cv@.skip(i as int);
    assert(trim_start(t) == t);
    let mut j = i;
    while j < cv.len() && !is_ws_exec(cv[j])
        invariant
            i <= j <= cv.len(),
            t == cv@.skip(i as int),
            word_end(t, 0) == word_end(t, j - i),
        decreases cv.len() - j,
    {
        j = j + 1;
    }
    let mut out: Vec<char> = Vec::new();
    let mut k = i;
    while k < j
        invariant
            i <= k <= j <= cv.len(),
            out@ == cv@.subrange(i as int, k as int),
        decreases j - k,
    {
        out.push(cv[k]);
        k = k + 1;
        assert(out@ =~= cv@.subrange(i as int, k as int));
    }
    assert(t.take(j - i) =~= cv@.subrange(i as int, j as int));
    string_of(out.as_slice())
}


/// The decision is the error response with this status and message.
pub open spec fn is_error(d: WebhookDecision, status: u16, msg: Seq<char>) -> bool {
    d matches WebhookDecision::Respond(r) && r.status == status && r.body@ == json_single(
        "error"@,
        msg,
    )
}

/// The decision is to answer `ignored` with this reason and detail.
pub open spec fn is_ignore(d: WebhookDecision, reason: Seq<char>, detail: Option<Seq<char>>) -> bool {
    d matches WebhookDecision::Ignore { reason: r, detail: dt } && r@ == reason && (match dt {
        Some(x) => detail == Some(x@),
        None => detail is None,
    })
}

/// What the webhook decides for an event.
pub open spec fn webhook_decision_ok(e: FeishuEvent, s: FeishuSettings, d: WebhookDecision) -> bool {
    let expected = or_empty(s.verification_token);
    if e.kind matches Some(k) && k@ == "url_verification"@ {
        if expected.len() == 0 {
            is_error(d, 403, "verification token not configured"@)
        } else if or_empty(e.token) != expected {
            is_error(d, 403, "verification token mismatch"@)
        } else {
            d matches WebhookDecision::Respond(r) && r.status == 200 && r.body@ == json_single(
                "challenge"@,
                or_empty(e.challenge),
            )
        }
    } else if !e.has_header {
        is_error(d, 400, "missing header"@)
    } else if !(e.header_event_type matches Some(t) && t@ == "im.message.receive_v1"@) {
        is_ignore(d, "event_type_not_supported"@, None)
    } else if expected.len() == 0 {
        is_error(d, 403, "verification token not configured"@)
    } else if or_empty(e.header_token) != expected {
        is_error(d, 403, "token mismatch"@)
    } else if !e.has_event {
        is_error(d, 400, "missing event body"@)
    } else if !e.has_message {
        is_error(d, 400, "missing message"@)
    } else if e.message_id is None {
        is_error(d, 400, "missing message_id"@)
    } else if or_empty(e.message_type) != "text"@ {
        if configured(s.app_id) is None {
            is_ignore(d, "non_text_message"@, Some("feishu_app_id 未配置"@))
        } else if configured(s.app_secret) is None {
            is_ignore(d, "non_text_message"@, Some("feishu_app_secret 未配置"@))
        } else {
            d matches WebhookDecision::ReplyNonText { message_id, app_id, app_secret }
                && Some(message_id@) == opt_string_view(e.message_id) && Some(app_id@) == configured(s.app_id)
                && Some(app_secret@) == configured(s.app_secret)
        }
    } else if trim(or_empty(e.text)).len() == 0 {
        is_ignore(d, "empty_text"@, None)
    } else if configured(s.app_id) is None {
        is_error(d, 500, "feishu_app_id not configured"@)
    } else if configured(s.app_secret) is None {
        is_error(d, 500, "feishu_app_secret not configured"@)
    } else {
        d matches WebhookDecision::RunCommand { message_id, text, command, app_id, app_secret }
            && Some(message_id@) == opt_string_view(e.message_id) && text@ == trim(or_empty(e.text))
            && command@ == normalize_command_spec(first_word(trim(or_empty(e.text))))
            && Some(app_id@) == configured(s.app_id) && Some(app_secret@) == configured(s.app_secret)
    }
}


fn or_empty_str(s: &Option<String>) -> (r: &str)
    ensures
        r@ == or_empty(*s),
{
    match s {
        Some(x) => x.as_str(),
        None => {
            proof {
                reveal_strlit("");
            }
            ""
        },
    }
}

fn configured_str(s: &Option<String>) -> (r: Option<String>)
    ensures
        opt_string_view(r) == configured(*s),
{
    match s {
        Some(x) => if !x.as_str().is_empty() {
            Some(x.clone())
        } else {
            None
        },
        None => None,
    }
}

fn ignore(reason: &str, detail: Option<&str>) -> (d: WebhookDecision)
    ensures
        is_ignore(d, reason@, match detail {
            Some(x) => Some(x@),
            None => None,
        }),
{
    WebhookDecision::Ignore {
        reason: reason.to_owned(),
        detail: match detail {
            Some(x) => Some(x.to_owned()),
            None => None,
        },
    }
}

/// Decides what to do with an incoming event: answer the URL-verification challenge when
/// the token matches, reject events with a missing or wrong token or missing parts, ignore
/// unsupported events and empty texts, tell senders of non-text messages to use text, and
/// run the command of a text message.
pub fn decide_webhook(e: &FeishuEvent, s: &FeishuSettings) -> (d: WebhookDecision)
    ensures
        webhook_decision_ok(*e, *s, d),
{
    let expected = or_empty_str(&s.verification_token);
    let kind = or_empty_str(&e.kind);
    if e.kind.is_some() && str_eq(kind, "url_verification") {
        if expected.is_empty() {
            return WebhookDecision::Respond(FeishuResponse::error(403, "verification token not configured"));
        }
        let token = or_empty_str(&e.token);
        if !token_matches(token, expected) {
            return WebhookDecision::Respond(FeishuResponse::error(403, "verification token mismatch"));
        }
        return WebhookDecision::Respond(FeishuResponse::challenge(or_empty_str(&e.challenge)));
    }
    if !e.has_header {
        return WebhookDecision::Respond(FeishuResponse::error(400, "missing header"));
    }
    let header_event_type = or_empty_str(&e.header_event_type);
    if !(e.header_event_type.is_some() && str_eq(header_event_type, "im.message.receive_v1")) {
        return ignore("event_type_not_supported", None);
    }
    if expected.is_empty() {
        return WebhookDecision::Respond(FeishuResponse::error(403, "verification token not configured"));
    }
    if !token_matches(or_empty_str(&e.header_token), expected) {
        return WebhookDecision::Respond(FeishuResponse::error(403, "token mismatch"));
    }
    if !e.has_event {
        return WebhookDecision::Respond(FeishuResponse::error(400, "missing event body"));
    }
    if !e.has_message {
        return WebhookDecision::Respond(FeishuResponse::error(400, "missing message"));
    }
    let message_id = match &e.message_id {
        Some(id) => id.clone(),
        None => {
            return WebhookDecision::Respond(FeishuResponse::error(400, "missing message_id"));
        },
    };
    let app_id = configured_str(&s.app_id);
    let app_secret = configured_str(&s.app_secret);
    if !str_eq(or_empty_str(&e.message_type), "text") {
        let app_id = match app_id {
            Some(a) => a,
            None => {
                return ignore("non_text_message", Some("feishu_app_id 未配置"));
            },
        };
        let app_secret = match app_secret {
            Some(a) => a,
            None => {
                return ignore("non_text_message", Some("feishu_app_secret 未配置"));
            },
        };
        return WebhookDecision::ReplyNonText { message_id, app_id, app_secret };
    }
    let raw = chars_of(or_empty_str(&e.text));
    let tv = trim_chars(raw.as_slice());
    if tv.len() == 0 {
        return ignore("empty_text", None);
    }
    let app_id = match app_id {
        Some(a) => a,
        None => {
            return WebhookDecision::Respond(FeishuResponse::error(500, "feishu_app_id not configured"));
        },
    };
    let app_secret = match app_secret {
        Some(a) => a,
        None => {
            return WebhookDecision::Respond(FeishuResponse::error(500, "feishu_app_secret not configured"));
        },
    };
    let text = string_of(tv.as_slice());
    let word = first_word_of(text.as_str());
    let command = normalize_command(word.as_str());
    WebhookDecision::RunCommand { message_id, text, command, app_id, app_secret }
}


/// The webhook acts on a message (replies to it or runs its command) only when the
/// configured verification token is set and the event carries exactly that token; it
/// answers a URL-verification challenge only under the same condition.
pub proof fn lemma_webhook_requires_token(e: FeishuEvent, s: FeishuSettings, d: WebhookDecision)
    requires
        webhook_decision_ok(e, s, d),
    ensures
        (d is ReplyNonText || d is RunCommand) ==> or_empty(s.verification_token).len() > 0
            && or_empty(e.header_token) == or_empty(s.verification_token),
        (d matches WebhookDecision::Respond(r) && r.status == 200) ==> or_empty(s.verification_token).len() > 0
            && or_empty(e.token) == or_empty(s.verification_token),
{
    reveal_strlit("error");
    reveal_strlit("challenge");
}

/// The body of the tenant-token request: the app's id and secret.
pub open spec fn token_request_spec(app_id: Seq<char>, app_secret: Seq<char>) -> JsonV {
    JsonV::Object(seq![("app_id"@, JsonV::Str(app_id)), ("app_secret"@, JsonV::Str(app_secret))])
}

/// The body of the tenant-token request (see `token_request_spec`).
pub fn token_request_body(app_id: &str, app_secret: &str) -> (r: Json)
    ensures
        r@ == token_request_spec(app_id@, app_secret@),
{
    let mut m: Vec<(String, Json)> = Vec::new();
    push_member(&mut m, "app_id", json_str(app_id));
    push_member(&mut m, "app_secret", json_str(app_secret));
    assert(obj_v(m@) =~= token_request_spec(app_id@, app_secret@)->Object_0);
    Json::Object(m)
}

/// How long a tenant token is kept: the lifetime the server gives (7200 seconds when it
/// gives none) less a minute, and at least a minute.
pub open spec fn token_cache_ttl_spec(expire: Option<u64>) -> u64 {
    let e = match expire {
        Some(x) => x,
        None => 7200,
    };
    let t = if e >= 60 {
        (e - 60) as u64
    } else {
        0
    };
    if t >= 60 {
        t
    } else {
        60
    }
}

/// How long a tenant token is kept (see `token_cache_ttl_spec`).
pub fn token_cache_ttl(expire: Option<u64>) -> (r: u64)
    ensures
        r == token_cache_ttl_spec(expire),
{
    let e = match expire {
        Some(x) => x,
        None => 7200,
    };
    let t = e.saturating_sub(60);
    if t >= 60 {
        t
    } else {
        60
    }
}

/// The token in the tenant-token reply, with how long to keep it: none when the reply has
/// no string `tenant_access_token`; the lifetime comes from `expire` when it is an
/// unsigned integer.
pub open spec fn token_reply_spec(data: JsonV) -> Option<(Seq<char>, u64)> {
    match get(data, "tenant_access_token"@) {
        Some(t) => match as_str(t) {
            Some(token) => Some(
                (
                    token,
                    token_cache_ttl_spec(
                        match get(data, "expire"@) {
                            Some(e) => as_u64(e),
                            None => None,
                        },
                    ),
                ),
            ),
            None => None,
        },
        None => None,
    }
}

/// Reads the tenant-token reply (see `token_reply_spec`).
pub fn read_token_reply(data: &Json) -> (r: Option<(String, u64)>)
    ensures
        match r {
            Some((t, ttl)) => token_reply_spec(data@) == Some((t@, ttl)),
            None => token_reply_spec(data@) is None,
        },
{
    let d = Some(data);
    let tok = json_field(d, "tenant_access_token");
    if tok.is_none() {
        return None;
    }
    match json_as_str(tok) {
        Some(token) => {
            let ex = json_field(d, "expire");
            let expire = if ex.is_some() {
                json_as_u64(ex)
            } else {
                None
            };
            Some((token.to_owned(), token_cache_ttl(expire)))
        },
        None => None,
    }
}

/// The URL that replies to a message.
pub open spec fn reply_url_spec(message_id: Seq<char>) -> Seq<char> {
    "https://open.feishu.cn/open-apis/im/v1/messages/"@ + message_id + "/reply"@
}

/// The URL that replies to a message (see `reply_url_spec`).
pub fn reply_url(message_id: &str) -> (r: String)
    ensures
        r@ == reply_url_spec(message_id@),
{
    let mut u = "https://open.feishu.cn/open-apis/im/v1/messages/".to_owned();
    push_str(&mut u, message_id);
    push_str(&mut u, "/reply");
    u
}

/// The body of a text reply: type `text`, and as content the JSON text `{"text": text}`.
pub open spec fn reply_body_spec(text: Seq<char>) -> JsonV {
    JsonV::Object(
        seq![("content_type"@, JsonV::Str("text"@)), ("content"@, JsonV::Str(json_single("text"@, text)))],
    )
}

/// The body of a text reply (see `reply_body_spec`).
pub fn reply_body(text: &str) -> (r: Json)
    ensures
        r@ == reply_body_spec(text@),
{
    let mut m: Vec<(String, Json)> = Vec::new();
    push_member(&mut m, "content_type", json_str("text"));
    push_member(&mut m, "content", Json::Str(json_object_text("text", text)));
    assert(obj_v(m@) =~= reply_body_spec(text@)->Object_0);
    Json::Object(m)
}

/// The text of the JSON a text message holds in `content` (`{}` when absent): its `text`
/// member when that is a string; text that is not JSON holds none.
pub open spec fn message_text_spec(message: JsonV) -> Option<Seq<char>> {
    let content = match parse_json(str_or(field(message, "content"@), "{}"@)) {
        Some(c) => c,
        None => JsonV::Null,
    };
    as_str(field(content, "text"@))
}

/// An optional string slice as an owned string.
fn owned(s: Option<&str>) -> (r: Option<String>)
    ensures
        opt_string_view(r) == match s {
            Some(x) => Some(x@),
            None => None,
        },
{
    match s {
        Some(x) => Some(x.to_owned()),
        None => None,
    }
}

/// Reads the fields the webhook decides on from the event's JSON.
pub fn event_from_json(v: &Json) -> (e: FeishuEvent)
    ensures
        opt_string_view(e.kind) == as_str(field(v@, "type"@)),
        opt_string_view(e.challenge) == as_str(field(v@, "challenge"@)),
        opt_string_view(e.token) == as_str(field(v@, "token"@)),
        e.has_header == get(v@, "header"@) is Some,
        opt_string_view(e.header_event_type) == as_str(field(field(v@, "header"@), "event_type"@)),
        opt_string_view(e.header_token) == as_str(field(field(v@, "header"@), "token"@)),
        e.has_event == get(v@, "event"@) is Some,
        e.has_message == get(field(v@, "event"@), "message"@) is Some,
        opt_string_view(e.message_id) == as_str(field(field(field(v@, "event"@), "message"@), "message_id"@)),
        opt_string_view(e.message_type) == as_str(field(field(field(v@, "event"@), "message"@), "message_type"@)),
        opt_string_view(e.text) == message_text_spec(field(field(v@, "event"@), "message"@)),
{
    let d = Some(v);
    let header = json_field(d, "header");
    let event = json_field(d, "event");
    let message = json_field(event, "message");
    let content_text = match json_as_str(json_field(message, "content")) {
        Some(c) => c,
        None => "{}",
    };
    let content = parse_json_text(content_text);
    let text = match &content {
        Some(c) => owned(json_as_str(json_field(Some(c), "text"))),
        None => None,
    };
    FeishuEvent {
        kind: owned(json_as_str(json_field(d, "type"))),
        challenge: owned(json_as_str(json_field(d, "challenge"))),
        token: owned(json_as_str(json_field(d, "token"))),
        has_header: header.is_some(),
        header_event_type: owned(json_as_str(json_field(header, "event_type"))),
        header_token: owned(json_as_str(json_field(header, "token"))),
        has_event: event.is_some(),
        has_message: message.is_some(),
        message_id: owned(json_as_str(json_field(message, "message_id"))),
        message_type: owned(json_as_str(json_field(message, "message_type"))),
        text,
    }
}

/// What the webhook does with a request body: body text that is not JSON is answered 400
/// with `JSON parse error: ` and the parser's message; otherwise the event read from it
/// decides (see `webhook_decision_ok`).
pub fn decide_webhook_body(body: &str, s: &FeishuSettings) -> (d: WebhookDecision)
    ensures
        parse_json(body@) is None ==> is_error(d, 400, "JSON parse error: "@ + json_error_text(body@)),
        parse_json(body@) matches Some(v) ==> exists|e: FeishuEvent|
            #![trigger webhook_decision_ok(e, *s, d)]
            event_read_from(e, v) && webhook_decision_ok(e, *s, d),
{
    match parse_json_text(body) {
        None => {
            let mut msg = "JSON parse error: ".to_owned();
            let detail = json_error_message(body);
            push_str(&mut msg, detail.as_str());
            WebhookDecision::Respond(FeishuResponse::error(400, msg.as_str()))
        },
        Some(v) => {
            let e = event_from_json(&v);
            let d = decide_webhook(&e, s);
            assert(event_read_from(e, v@));
            d
        },
    }
}

/// The event's fields are those read from the JSON value (see `event_from_json`).
pub open spec fn event_read_from(e: FeishuEvent, v: JsonV) -> bool {
    &&& opt_string_view(e.kind) == as_str(field(v, "type"@))
    &&& opt_string_view(e.challenge) == as_str(field(v, "challenge"@))
    &&& opt_string_view(e.token) == as_str(field(v, "token"@))
    &&& e.has_header == get(v, "header"@) is Some
    &&& opt_string_view(e.header_event_type) == as_str(field(field(v, "header"@), "event_type"@))
    &&& opt_string_view(e.header_token) == as_str(field(field(v, "header"@), "token"@))
    &&& e.has_event == get(v, "event"@) is Some
    &&& e.has_message == get(field(v, "event"@), "message"@) is Some
    &&& opt_string_view(e.message_id) == as_str(field(field(field(v, "event"@), "message"@), "message_id"@))
    &&& opt_string_view(e.message_type) == as_str(field(field(field(v, "event"@), "message"@), "message_type"@))
    &&& opt_string_view(e.text) == message_text_spec(field(field(v, "event"@), "message"@))
}

} // verus!
