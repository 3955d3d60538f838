use cross_telegram::{FetchOutcome, IncomingMessage, Platform, Poller, RoundStart};

fn msg(t: &str) -> IncomingMessage {
    IncomingMessage { from_name: "a".to_string(), text: t.to_string(), date: 0 }
}

#[test]
fn waits_without_token() {
    let p = Poller::new(Platform::Native);
    assert_eq!(p.begin_round(""), RoundStart::Wait { seconds: 3 });
    let w = Poller::new(Platform::Web);
    assert_eq!(w.begin_round(""), RoundStart::Wait { seconds: 3 });
}

#[test]
fn fetch_timeouts_per_platform() {
    let p = Poller::new(Platform::Native);
    assert_eq!(p.begin_round("tok"), RoundStart::Fetch { offset: 0, timeout: 10 });
    let w = Poller::new(Platform::Web);
    assert_eq!(w.begin_round("tok"), RoundStart::Fetch { offset: 0, timeout: 0 });
}

#[test]
fn received_moves_offset_and_delivers() {
    let mut p = Poller::new(Platform::Native);
    let end = p.finish_round(FetchOutcome::Received { messages: vec![msg("x")], next_offset: 8 });
    assert_eq!(p.offset, 8);
    assert_eq!(end.deliver.map(|v| v.len()), Some(1));
    assert!(!end.report_error);
    assert_eq!(end.pause_seconds, 0);
    assert_eq!(p.begin_round("tok"), RoundStart::Fetch { offset: 8, timeout: 10 });
}

#[test]
fn received_nothing_delivers_nothing() {
    let mut p = Poller::new(Platform::Web);
    let end = p.finish_round(FetchOutcome::Received { messages: vec![], next_offset: 3 });
    assert_eq!(p.offset, 3);
    assert!(end.deliver.is_none());
    assert_eq!(end.pause_seconds, 3);
}

#[test]
fn native_failure_reports_and_waits() {
    let mut p = Poller::new(Platform::Native);
    p.offset = 5;
    let end = p.finish_round(FetchOutcome::Failed);
    assert_eq!(p.offset, 5);
    assert!(end.report_error);
    assert_eq!(end.pause_seconds, 5);
    assert!(end.deliver.is_none());
}

#[test]
fn web_failure_is_silent() {
    let mut p = Poller::new(Platform::Web);
    let end = p.finish_round(FetchOutcome::Failed);
    assert!(!end.report_error);
    assert_eq!(end.pause_seconds, 3);
}
