use cross_telegram::{
    is_sendable, keyboard_action, log_preview_exec, mask_token, ChatMessage, Console,
    IncomingMessage, KeyboardAction, LogEntry, Tab, ACTIVITY_LOG_LIMIT, CHAT_HISTORY_LIMIT,
};

fn incoming(name: &str, text: &str) -> IncomingMessage {
    IncomingMessage { from_name: name.to_string(), text: text.to_string(), date: 0 }
}

#[test]
fn new_console_defaults() {
    let c = Console::new("TOKEN_ID".to_string(), "CHAT_ID".to_string());
    assert_eq!(c.token, "TOKEN_ID");
    assert_eq!(c.chat_id, "CHAT_ID");
    assert!(c.message.is_empty());
    assert_eq!(c.messages_sent, 0);
    assert!(c.activity_log.is_empty());
    assert!(c.chat_messages.is_empty());
    assert_eq!(c.selected_tab, Tab::Dashboard);
    assert!(!c.polling_started);
    assert!(!c.text_field_focused);
    assert!(!c.text_changed_externally);
}

#[test]
fn new_console_takes_given_credentials() {
    let c = Console::new(String::new(), String::new());
    assert_eq!(c.token, "");
    assert_eq!(c.chat_id, "");
    let d = Console::new("123:abc".to_string(), "-42".to_string());
    assert_eq!(d.token, "123:abc");
    assert_eq!(d.chat_id, "-42");
}

#[test]
fn try_send_blank_wide_spaces_does_nothing() {
    let mut c = Console::new(String::new(), String::new());
    c.message = "\u{3000}".repeat(17);
    assert!(c.try_send().is_none());
    assert_eq!(c.messages_sent, 0);
    assert!(c.activity_log.is_empty());
}

#[test]
fn mask_long_token() {
    assert_eq!(mask_token("123456:ABCDEFGHIJ"), "123456...GHIJ");
    assert_eq!(mask_token("abcdefghijk"), "abcdef...hijk");
}

#[test]
fn mask_short_token() {
    assert_eq!(mask_token("TOKEN_ID"), "Not configured");
    assert_eq!(mask_token("abcdefghij"), "Not configured");
    assert_eq!(mask_token(""), "Not configured");
}

#[test]
fn mask_non_ascii_on_boundaries() {
    // "é" is two bytes: 6 bytes = "ééé", last 4 bytes = "éé".
    assert_eq!(mask_token("éééxxxéé"), "ééé...éé");
}

#[test]
fn preview_short_and_long() {
    assert_eq!(log_preview_exec("hello"), "hello");
    let fifty = "a".repeat(50);
    assert_eq!(log_preview_exec(&fifty), fifty);
    let long = "b".repeat(51);
    assert_eq!(log_preview_exec(&long), format!("{}...", "b".repeat(50)));
}

#[test]
fn sendable_rules() {
    assert!(!is_sendable(""));
    assert!(!is_sendable("   \t\n"));
    assert!(is_sendable(" hi "));
}

#[test]
fn record_send_updates_everything() {
    let mut c = Console::new("TOKEN_ID".to_string(), "CHAT_ID".to_string());
    c.message = "hello".to_string();
    let out = c.record_send();
    assert_eq!(out.text, "hello");
    assert_eq!(out.token, "TOKEN_ID");
    assert_eq!(out.chat_id, "CHAT_ID");
    assert!(c.message.is_empty());
    assert_eq!(c.messages_sent, 1);
    assert_eq!(c.chat_messages.len(), 1);
    assert_eq!(c.chat_messages[0].from_name, "You");
    assert_eq!(c.chat_messages[0].text, "hello");
    assert!(c.chat_messages[0].is_ours);
    assert_eq!(c.activity_log.len(), 1);
    assert_eq!(c.activity_log[0].text, "hello");
    assert!(c.activity_log[0].success);
}

#[test]
fn record_send_truncates_preview() {
    let mut c = Console::new("TOKEN_ID".to_string(), "CHAT_ID".to_string());
    c.message = "x".repeat(60);
    let out = c.record_send();
    assert_eq!(out.text.len(), 60);
    assert_eq!(c.activity_log[0].text, format!("{}...", "x".repeat(50)));
    assert_eq!(c.chat_messages[0].text, "x".repeat(60));
}

#[test]
fn activity_log_newest_first_and_capped() {
    let mut c = Console::new("TOKEN_ID".to_string(), "CHAT_ID".to_string());
    for i in 0..40 {
        c.message = format!("m{}", i);
        c.record_send();
        assert!(c.activity_log.len() <= ACTIVITY_LOG_LIMIT);
    }
    assert_eq!(c.activity_log.len(), 30);
    assert_eq!(c.activity_log[0].text, "m39");
    assert_eq!(c.activity_log[29].text, "m10");
    assert_eq!(c.messages_sent, 40);
    assert_eq!(c.chat_messages.len(), 40);
}

#[test]
fn try_send_blank_does_nothing() {
    let mut c = Console::new("TOKEN_ID".to_string(), "CHAT_ID".to_string());
    c.message = "  \t ".to_string();
    assert!(c.try_send().is_none());
    assert_eq!(c.message, "  \t ");
    assert_eq!(c.messages_sent, 0);
    assert!(c.chat_messages.is_empty());
}

#[test]
fn try_send_text_sends() {
    let mut c = Console::new("TOKEN_ID".to_string(), "CHAT_ID".to_string());
    c.message = " hi ".to_string();
    let out = c.try_send().expect("sent");
    assert_eq!(out.text, " hi ");
    assert_eq!(c.messages_sent, 1);
}

#[test]
fn receive_appends_as_not_ours() {
    let mut c = Console::new("TOKEN_ID".to_string(), "CHAT_ID".to_string());
    c.message = "mine".to_string();
    c.record_send();
    c.receive(vec![incoming("Ann", "a"), incoming("Bob", "b")]);
    assert_eq!(c.chat_messages.len(), 3);
    assert_eq!(c.chat_messages[1].from_name, "Ann");
    assert_eq!(c.chat_messages[2].text, "b");
    assert!(!c.chat_messages[2].is_ours);
    assert_eq!(c.received_count(), 2);
}

#[test]
fn receive_caps_history_keeping_newest() {
    let mut c = Console::new("TOKEN_ID".to_string(), "CHAT_ID".to_string());
    let batch: Vec<IncomingMessage> = (0..250).map(|i| incoming("n", &format!("t{}", i))).collect();
    c.receive(batch);
    assert_eq!(c.chat_messages.len(), CHAT_HISTORY_LIMIT);
    assert_eq!(c.chat_messages[0].text, "t50");
    assert_eq!(c.chat_messages[199].text, "t249");
}

#[test]
fn receive_nothing_changes_nothing() {
    let mut c = Console::new("TOKEN_ID".to_string(), "CHAT_ID".to_string());
    c.receive(vec![]);
    assert!(c.chat_messages.is_empty());
}

#[test]
fn sending_keeps_received_count() {
    let mut c = Console::new("TOKEN_ID".to_string(), "CHAT_ID".to_string());
    c.receive(vec![incoming("a", "1")]);
    assert_eq!(c.received_count(), 1);
    c.message = "reply".to_string();
    c.record_send();
    assert_eq!(c.received_count(), 1);
}

#[test]
fn tabs_select_and_captions() {
    let mut c = Console::new("TOKEN_ID".to_string(), "CHAT_ID".to_string());
    assert!(c.is_active(Tab::Dashboard));
    c.select_tab(Tab::Settings);
    assert!(c.is_active(Tab::Settings));
    assert!(!c.is_active(Tab::Dashboard));
    assert_eq!(Tab::Dashboard.icon(), "◆");
    assert_eq!(Tab::Settings.icon(), "●");
    assert_eq!(Tab::Dashboard.nav_caption("Dashboard"), "  ◆  Dashboard");
}

#[test]
fn polling_starts_once() {
    let mut c = Console::new("TOKEN_ID".to_string(), "CHAT_ID".to_string());
    assert!(c.begin_polling());
    assert!(!c.begin_polling());
    assert!(c.polling_started);
}

#[test]
fn external_text_sync() {
    let mut c = Console::new("TOKEN_ID".to_string(), "CHAT_ID".to_string());
    c.message = "abc".to_string();
    c.sync_external_text("abc".to_string());
    assert!(!c.text_changed_externally);
    c.sync_external_text("abcd".to_string());
    assert_eq!(c.message, "abcd");
    assert!(c.text_changed_externally);
}

#[test]
fn keyboard_follows_focus() {
    assert_eq!(keyboard_action(true, false), KeyboardAction::Show);
    assert_eq!(keyboard_action(false, true), KeyboardAction::Hide);
    assert_eq!(keyboard_action(true, true), KeyboardAction::Keep);
    assert_eq!(keyboard_action(false, false), KeyboardAction::Keep);
}

#[test]
fn labels_and_icons() {
    let ours = ChatMessage { from_name: "You".to_string(), text: "x".to_string(), is_ours: true };
    let theirs = ChatMessage { from_name: "Ann".to_string(), text: "y".to_string(), is_ours: false };
    assert_eq!(ours.author_label(), "You");
    assert_eq!(theirs.author_label(), "Ann");
    let ok = LogEntry { text: "a".to_string(), success: true };
    let bad = LogEntry { text: "b".to_string(), success: false };
    assert_eq!(ok.status_icon(), "✓");
    assert_eq!(bad.status_icon(), "✗");
}
