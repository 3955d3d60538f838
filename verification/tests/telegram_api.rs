use cross_telegram::{
    collect_updates, get_updates_request, get_updates_web_request, send_message_json_body,
    send_message_request, send_message_web_request, GetUpdatesResponse, IncomingMessage,
    TgMessage, TgUser, Update,
};

fn user(first: Option<&str>, last: Option<&str>, username: Option<&str>) -> TgUser {
    TgUser {
        first_name: first.map(|s| s.to_string()),
        last_name: last.map(|s| s.to_string()),
        username: username.map(|s| s.to_string()),
    }
}

fn text_update(id: i64, text: &str, from: Option<TgUser>, date: Option<i64>) -> Update {
    Update {
        update_id: id,
        message: Some(TgMessage { text: Some(text.to_string()), from, date }),
    }
}

#[test]
fn display_name_first_and_last() {
    assert_eq!(user(Some("Ada"), Some("Lovelace"), Some("ada")).display_name(), "Ada Lovelace");
}

#[test]
fn display_name_first_only() {
    assert_eq!(user(Some("Ada"), None, Some("ada")).display_name(), "Ada");
}

#[test]
fn display_name_username_only() {
    assert_eq!(user(None, None, Some("ada")).display_name(), "@ada");
}

#[test]
fn display_name_unknown_cases() {
    assert_eq!(user(None, None, None).display_name(), "Unknown");
    assert_eq!(user(None, Some("Lovelace"), None).display_name(), "Unknown");
    assert_eq!(user(None, Some("Lovelace"), Some("ada")).display_name(), "Unknown");
}

#[test]
fn collect_updates_not_ok_keeps_offset() {
    let resp = GetUpdatesResponse { ok: false, result: vec![text_update(7, "hi", None, None)] };
    let (msgs, next) = collect_updates(&resp, 5);
    assert!(msgs.is_empty());
    assert_eq!(next, 5);
}

#[test]
fn collect_updates_empty_reply() {
    let resp = GetUpdatesResponse { ok: true, result: vec![] };
    let (msgs, next) = collect_updates(&resp, 42);
    assert!(msgs.is_empty());
    assert_eq!(next, 42);
}

#[test]
fn collect_updates_messages_and_offset() {
    let resp = GetUpdatesResponse {
        ok: true,
        result: vec![
            text_update(10, "hello", Some(user(Some("Ann"), None, None)), Some(1700000000)),
            Update { update_id: 11, message: None },
            Update {
                update_id: 12,
                message: Some(TgMessage { text: None, from: None, date: Some(3) }),
            },
            text_update(13, "second", None, None),
        ],
    };
    let (msgs, next) = collect_updates(&resp, 0);
    assert_eq!(next, 14);
    assert_eq!(msgs.len(), 2);
    assert_eq!(msgs[0].from_name, "Ann");
    assert_eq!(msgs[0].text, "hello");
    assert_eq!(msgs[0].date, 1700000000);
    assert_eq!(msgs[1].from_name, "Unknown");
    assert_eq!(msgs[1].text, "second");
    assert_eq!(msgs[1].date, 0);
}

#[test]
fn collect_updates_offset_never_goes_back() {
    let resp = GetUpdatesResponse {
        ok: true,
        result: vec![text_update(3, "old", None, None), text_update(2, "older", None, None)],
    };
    let (msgs, next) = collect_updates(&resp, 100);
    assert_eq!(next, 100);
    assert_eq!(msgs.len(), 2);
}

#[test]
fn collect_updates_out_of_order_ids() {
    let resp = GetUpdatesResponse {
        ok: true,
        result: vec![text_update(20, "a", None, None), text_update(5, "b", None, None)],
    };
    let (_, next) = collect_updates(&resp, 0);
    assert_eq!(next, 21);
    // Reading the same reply again from the returned offset keeps it.
    let (_, again) = collect_updates(&resp, next);
    assert_eq!(again, next);
}

#[test]
fn collect_updates_negative_offset() {
    let resp = GetUpdatesResponse { ok: true, result: vec![text_update(-3, "x", None, None)] };
    let (_, next) = collect_updates(&resp, -10);
    assert_eq!(next, -2);
}

#[test]
fn send_message_request_shape() {
    let r = send_message_request("123:ABC", "-100", "hi there");
    assert_eq!(r.url, "https://api.telegram.org/bot123:ABC/sendMessage");
    assert_eq!(
        r.form,
        vec![
            ("chat_id".to_string(), "-100".to_string()),
            ("text".to_string(), "hi there".to_string())
        ]
    );
}

#[test]
fn get_updates_request_shape() {
    let r = get_updates_request("tok", -1, 10);
    assert_eq!(r.url, "https://api.telegram.org/bottok/getUpdates");
    assert_eq!(
        r.query,
        vec![
            ("offset".to_string(), "-1".to_string()),
            ("timeout".to_string(), "10".to_string()),
            ("allowed_updates".to_string(), "[\"message\"]".to_string()),
        ]
    );
    assert_eq!(r.timeout_secs, 15);
}

#[test]
fn get_updates_request_large_timeout() {
    let r = get_updates_request("tok", 0, u64::MAX - 5);
    assert_eq!(r.timeout_secs, u64::MAX);
    assert_eq!(r.query[1].1, (u64::MAX - 5).to_string());
}

#[test]
fn get_updates_web_url_shape() {
    assert_eq!(
        get_updates_web_request("tok", 57),
        "https://api.telegram.org/bottok/getUpdates?offset=57&timeout=0&allowed_updates=%5B%22message%22%5D"
    );
}

fn expected_json_body(chat_id: &str, text: &str) -> String {
    let mut map = serde_json::Map::new();
    map.insert("chat_id".to_string(), serde_json::Value::String(chat_id.to_string()));
    map.insert("text".to_string(), serde_json::Value::String(text.to_string()));
    serde_json::Value::Object(map).to_string()
}

#[test]
fn json_body_plain() {
    assert_eq!(send_message_json_body("42", "hello"), "{\"chat_id\":\"42\",\"text\":\"hello\"}");
}

#[test]
fn json_body_escapes() {
    let text = "quote \" backslash \\ newline \n tab \t bell \u{7} del \u{7f} é 😀";
    let body = send_message_json_body("-1", text);
    assert_eq!(body, expected_json_body("-1", text));
    assert!(body.contains("\\u0007"));
    assert!(body.contains("\\\""));
}

#[test]
fn json_body_matches_serde_value() {
    for text in ["", "a/b", "\r\u{8}\u{c}", "\u{1f}", "汉字"] {
        assert_eq!(send_message_json_body("chat", text), expected_json_body("chat", text));
    }
}

#[test]
fn web_send_request_shape() {
    let (url, body) = send_message_web_request("T", "9", "x");
    assert_eq!(url, "https://api.telegram.org/botT/sendMessage");
    assert_eq!(body, "{\"chat_id\":\"9\",\"text\":\"x\"}");
}

#[test]
fn incoming_message_fields() {
    let m = IncomingMessage { from_name: "a".to_string(), text: "b".to_string(), date: 1 };
    assert_eq!(m.date, 1);
}
