use work_review::feishu_bot::{
    decide_webhook, decide_webhook_body, event_from_json, first_word_of, normalize_command,
    read_token_reply, reply_body, reply_url, token_cache_ttl, token_matches, token_request_body,
    FeishuEvent, FeishuResponse, FeishuSettings, WebhookDecision,
};
use work_review::json::{json_as_str, json_field, Json};

#[allow(dead_code)]
fn json_of(v: &serde_json::Value) -> Json {
    match v {
        serde_json::Value::Null => Json::Null,
        serde_json::Value::Bool(b) => Json::Bool(*b),
        serde_json::Value::Number(n) => Json::Number(n.to_string()),
        serde_json::Value::String(s) => Json::Str(s.clone()),
        serde_json::Value::Array(a) => Json::Array(a.iter().map(json_of).collect()),
        serde_json::Value::Object(m) => Json::Object(m.iter().map(|(k, x)| (k.clone(), json_of(x))).collect()),
    }
}

#[allow(dead_code)]
fn value_of_json(j: &Json) -> serde_json::Value {
    match j {
        Json::Null => serde_json::Value::Null,
        Json::Bool(b) => serde_json::Value::Bool(*b),
        Json::Number(n) => serde_json::Value::Number(n.parse().unwrap()),
        Json::Str(s) => serde_json::Value::String(s.clone()),
        Json::Array(a) => serde_json::Value::Array(a.iter().map(value_of_json).collect()),
        Json::Object(m) => {
            serde_json::Value::Object(m.iter().map(|(k, x)| (k.clone(), value_of_json(x))).collect())
        }
    }
}

#[allow(dead_code)]
fn parse_json_text(text: &str) -> Option<Json> {
    serde_json::from_str::<serde_json::Value>(text).ok().map(|v| json_of(&v))
}

#[allow(dead_code)]
fn to_json_text(j: &Json) -> String {
    value_of_json(j).to_string()
}


fn settings(token: Option<&str>, id: Option<&str>, secret: Option<&str>) -> FeishuSettings {
    FeishuSettings {
        verification_token: token.map(|s| s.to_string()),
        app_id: id.map(|s| s.to_string()),
        app_secret: secret.map(|s| s.to_string()),
    }
}

fn message_event(token: &str, msg_type: &str, text: Option<&str>) -> FeishuEvent {
    FeishuEvent {
        kind: None,
        challenge: None,
        token: None,
        has_header: true,
        header_event_type: Some("im.message.receive_v1".to_string()),
        header_token: Some(token.to_string()),
        has_event: true,
        has_message: true,
        message_id: Some("om_1".to_string()),
        message_type: Some(msg_type.to_string()),
        text: text.map(|s| s.to_string()),
    }
}

fn error_of(d: WebhookDecision) -> (u16, String) {
    match d {
        WebhookDecision::Respond(FeishuResponse { status, body }) => (status, body),
        _ => panic!("expected a response"),
    }
}

#[test]
fn feishu_command_supports_slash_and_bot_suffix() {
    assert_eq!(normalize_command("/help"), "help");
    assert_eq!(normalize_command("/reports@work_review_bot"), "reports");
    assert_eq!(normalize_command("帮助"), "帮助");
}

#[test]
fn token_comparison() {
    assert!(token_matches("abc", "abc"));
    assert!(!token_matches("abc", "abd"));
    assert!(!token_matches("ab", "abc"));
}

#[test]
fn url_verification() {
    let ev = FeishuEvent {
        kind: Some("url_verification".to_string()),
        challenge: Some("c\"1".to_string()),
        token: Some("t".to_string()),
        has_header: false,
        header_event_type: None,
        header_token: None,
        has_event: false,
        has_message: false,
        message_id: None,
        message_type: None,
        text: None,
    };
    assert_eq!(error_of(decide_webhook(&ev, &settings(Some("t"), None, None))), (200, "{\"challenge\":\"c\\\"1\"}".to_string()));
    assert_eq!(
        error_of(decide_webhook(&ev, &settings(Some("x"), None, None))),
        (403, "{\"error\":\"verification token mismatch\"}".to_string())
    );
    assert_eq!(
        error_of(decide_webhook(&ev, &settings(None, None, None))),
        (403, "{\"error\":\"verification token not configured\"}".to_string())
    );
}

#[test]
fn message_events() {
    let s = settings(Some("t"), Some("id"), Some("sec"));
    assert_eq!(error_of(decide_webhook(&message_event("bad", "text", Some("/help")), &s)), (403, "{\"error\":\"token mismatch\"}".to_string()));
    match decide_webhook(&message_event("t", "text", Some("  /reports@bot  week ")), &s) {
        WebhookDecision::RunCommand { message_id, text, command, app_id, app_secret } => {
            assert_eq!(message_id, "om_1");
            assert_eq!(text, "/reports@bot  week");
            assert_eq!(command, "reports");
            assert_eq!(app_id, "id");
            assert_eq!(app_secret, "sec");
        }
        _ => panic!("expected a command"),
    }
    match decide_webhook(&message_event("t", "text", Some("   ")), &s) {
        WebhookDecision::Ignore { reason, detail } => {
            assert_eq!(reason, "empty_text");
            assert_eq!(detail, None);
        }
        _ => panic!("expected ignore"),
    }
    match decide_webhook(&message_event("t", "image", None), &settings(Some("t"), None, Some("s"))) {
        WebhookDecision::Ignore { reason, detail } => {
            assert_eq!(reason, "non_text_message");
            assert_eq!(detail, Some("feishu_app_id 未配置".to_string()));
        }
        _ => panic!("expected ignore"),
    }
    assert!(matches!(decide_webhook(&message_event("t", "image", None), &s), WebhookDecision::ReplyNonText { .. }));
    assert_eq!(
        error_of(decide_webhook(&message_event("t", "text", Some("hi")), &settings(Some("t"), Some(""), Some("s")))),
        (500, "{\"error\":\"feishu_app_id not configured\"}".to_string())
    );
    let mut ev = message_event("t", "text", Some("hi"));
    ev.message_id = None;
    assert_eq!(error_of(decide_webhook(&ev, &s)), (400, "{\"error\":\"missing message_id\"}".to_string()));
    ev.has_header = false;
    assert_eq!(error_of(decide_webhook(&ev, &s)), (400, "{\"error\":\"missing header\"}".to_string()));
    let mut other = message_event("t", "text", Some("hi"));
    other.header_event_type = Some("im.chat.updated_v1".to_string());
    match decide_webhook(&other, &s) {
        WebhookDecision::Ignore { reason, .. } => assert_eq!(reason, "event_type_not_supported"),
        _ => panic!("expected ignore"),
    }
}

#[test]
fn error_body_escapes_json() {
    let r = FeishuResponse::error(500, "a\"b\\c\nd\u{1}");
    assert_eq!(r.status, 500);
    assert_eq!(r.body, "{\"error\":\"a\\\"b\\\\c\\nd\\u0001\"}");
    assert_eq!(first_word_of("  \t/help me"), "/help");
    assert_eq!(first_word_of("   "), "");
}

#[test]
fn json_response_carries_the_value_text() {
    let v = parse_json_text(r#"{"status":"ok"}"#).unwrap();
    let r = FeishuResponse::json(201, &v);
    assert_eq!(r.status, 201);
    assert_eq!(r.body, r#"{"status":"ok"}"#);
}

#[test]
fn token_request_and_reply() {
    let body = token_request_body("cli_a", "sec");
    assert_eq!(json_as_str(json_field(Some(&body), "app_id")), Some("cli_a"));
    assert_eq!(json_as_str(json_field(Some(&body), "app_secret")), Some("sec"));
    let reply = parse_json_text(r#"{"tenant_access_token":"t-1","expire":7140}"#).unwrap();
    assert_eq!(read_token_reply(&reply), Some(("t-1".to_string(), 7080)));
    let no_expire = parse_json_text(r#"{"tenant_access_token":"t-2"}"#).unwrap();
    assert_eq!(read_token_reply(&no_expire), Some(("t-2".to_string(), 7140)));
    let odd_expire = parse_json_text(r#"{"tenant_access_token":"t-3","expire":-5}"#).unwrap();
    assert_eq!(read_token_reply(&odd_expire), Some(("t-3".to_string(), 7140)));
    let missing = parse_json_text(r#"{"code":99991663}"#).unwrap();
    assert_eq!(read_token_reply(&missing), None);
    let not_text = parse_json_text(r#"{"tenant_access_token":5}"#).unwrap();
    assert_eq!(read_token_reply(&not_text), None);
}

#[test]
fn token_ttl_keeps_a_minute_margin() {
    assert_eq!(token_cache_ttl(None), 7140);
    assert_eq!(token_cache_ttl(Some(7200)), 7140);
    assert_eq!(token_cache_ttl(Some(90)), 60);
    assert_eq!(token_cache_ttl(Some(30)), 60);
    assert_eq!(token_cache_ttl(Some(u64::MAX)), u64::MAX - 60);
}

#[test]
fn reply_request_shape() {
    assert_eq!(reply_url("om_1"), "https://open.feishu.cn/open-apis/im/v1/messages/om_1/reply");
    let b = reply_body("你好 \"x\"");
    assert_eq!(json_as_str(json_field(Some(&b), "content_type")), Some("text"));
    assert_eq!(json_as_str(json_field(Some(&b), "content")), Some(r#"{"text":"你好 \"x\""}"#));
    assert_eq!(to_json_text(&b).len() > 0, true);
}

#[test]
fn event_fields_are_read_from_json() {
    let v = parse_json_text(
        r#"{"header":{"event_type":"im.message.receive_v1","token":"tk"},
            "event":{"message":{"message_id":"om_9","message_type":"text","content":"{\"text\":\" /help \"}"}}}"#,
    )
    .unwrap();
    let e = event_from_json(&v);
    assert!(e.has_header && e.has_event && e.has_message);
    assert_eq!(e.header_event_type.as_deref(), Some("im.message.receive_v1"));
    assert_eq!(e.header_token.as_deref(), Some("tk"));
    assert_eq!(e.message_id.as_deref(), Some("om_9"));
    assert_eq!(e.text.as_deref(), Some(" /help "));
    assert!(e.kind.is_none());
}

#[test]
fn webhook_body_that_is_not_json_is_rejected() {
    let (status, body) = error_of(decide_webhook_body("{oops", &settings(Some("tk"), None, None)));
    assert_eq!(status, 400);
    assert!(body.starts_with(r#"{"error":"JSON parse error: "#));
    assert!(body.contains("line 1 column"));
}

#[test]
fn webhook_body_runs_the_command() {
    let body = r#"{"header":{"event_type":"im.message.receive_v1","token":"tk"},
        "event":{"message":{"message_id":"om_9","message_type":"text","content":"{\"text\":\"/status@bot now\"}"}}}"#;
    match decide_webhook_body(body, &settings(Some("tk"), Some("id"), Some("sec"))) {
        WebhookDecision::RunCommand { message_id, text, command, .. } => {
            assert_eq!(message_id, "om_9");
            assert_eq!(text, "/status@bot now");
            assert_eq!(command, "status");
        }
        _ => panic!("expected a command"),
    }
}
