use jdwp_mcp::json;
use jdwp_mcp::json::Json;
use jdwp_mcp::protocol::{alert_line, alerts_enabled, Alerter, Era};

fn notifier_with_capacity(n: usize) -> (Alerter, tokio::sync::mpsc::Receiver<String>) {
    let (tx, rx) = tokio::sync::mpsc::channel(n);
    (Alerter::new(tx), rx)
}

fn data(text: &str) -> Json {
    json::read(text).unwrap()
}

#[test]
fn nothing_is_pushed_before_the_handshake_completes() {
    let (mut n, mut rx) = notifier_with_capacity(4);
    assert!(!n.alert(true, "warning", &data(r#"{"event": "breakpoint"}"#)), "must not push unarmed");
    assert!(rx.try_recv().is_err(), "nothing should have been queued");

    n.arm();
    assert!(n.alert(true, "warning", &data(r#"{"event": "breakpoint"}"#)));
    let line = rx.try_recv().expect("armed alerter should queue");
    assert!(line.contains("notifications/message"), "{line}");
    assert!(line.contains("\"logger\":\"jdwp-mcp\""), "{line}");
    assert!(line.contains("\"event\":\"breakpoint\""), "payload must survive: {line}");
    assert!(!line.contains("\"id\""), "a notification must have no id: {line}");
}

#[test]
fn a_stateless_client_gets_nothing_on_stdout() {
    let (mut n, mut rx) = notifier_with_capacity(4);
    n.note_era(Era::Modern);
    assert!(
        !n.alert(true, "warning", &data(r#"{ "event": "breakpoint" }"#)),
        "must not push to a stateless client"
    );
    assert!(rx.try_recv().is_err(), "a stateless client's alert may not be queued at all");

    n.arm();
    assert!(
        n.alert(true, "warning", &data(r#"{ "event": "breakpoint" }"#)),
        "a legacy client still gets pushed"
    );
    assert!(rx.try_recv().is_ok(), "the legacy path must be unchanged");
}

#[test]
fn a_full_queue_drops_and_reports_what_it_dropped() {
    let (mut n, mut rx) = notifier_with_capacity(2);
    n.arm();
    assert!(n.alert(true, "warning", &data(r#"{"i": 1}"#)));
    assert!(n.alert(true, "warning", &data(r#"{"i": 2}"#)));
    assert!(!n.alert(true, "warning", &data(r#"{"i": 3}"#)));
    assert!(!n.alert(true, "warning", &data(r#"{"i": 4}"#)));

    let _ = rx.try_recv().expect("first");
    let _ = rx.try_recv().expect("second");
    assert!(n.alert(true, "warning", &data(r#"{"i": 5}"#)));
    let recovered = rx.try_recv().expect("fifth");
    assert!(recovered.contains("\"droppedSinceLast\":2"), "must report the gap: {recovered}");

    assert!(n.alert(true, "warning", &data(r#"{"i": 6}"#)));
    let clean = rx.try_recv().expect("sixth");
    assert!(!clean.contains("droppedSinceLast"), "drop count must reset: {clean}");
}

#[test]
fn a_dead_writer_is_survivable() {
    let (mut n, rx) = notifier_with_capacity(2);
    n.arm();
    drop(rx);
    assert!(!n.alert(true, "warning", &data(r#"{"i": 1}"#)), "must report failure, not panic");
    assert_eq!(n.dropped, 1);
}

#[test]
fn alerts_that_are_turned_off_are_not_pushed_and_not_counted() {
    let (mut n, mut rx) = notifier_with_capacity(2);
    n.arm();
    assert!(!n.alert(false, "warning", &data("1")));
    assert!(rx.try_recv().is_err());
    assert_eq!(n.dropped, 0);
}

#[test]
fn an_alert_is_one_line_with_everything_in_it() {
    let line = alert_line("error", &data("{\"b\":\"two\\nlines\",\"a\":[1,-2,null]}"), 3);
    assert_eq!(
        line,
        "{\"jsonrpc\":\"2.0\",\"method\":\"notifications/message\",\"params\":{\"data\":{\"a\":[1,-2,null],\"b\":\"two\\nlines\"},\"droppedSinceLast\":3,\"level\":\"error\",\"logger\":\"jdwp-mcp\"}}"
    );
    assert!(!line.contains('\n'));
}

#[test]
fn only_three_words_turn_alerts_off() {
    assert!(alerts_enabled(None));
    for off in ["0", "false", "no", " FALSE ", "No\n"] {
        assert!(!alerts_enabled(Some(off)), "{off:?}");
    }
    for on in ["", "1", "true", "off", "00", "nope"] {
        assert!(alerts_enabled(Some(on)), "{on:?}");
    }
}

#[test]
fn an_era_is_news_once() {
    let (mut n, _rx) = notifier_with_capacity(1);
    assert_eq!(n.era(), Era::Unknown);
    assert!(n.note_era(Era::Modern));
    assert!(!n.note_era(Era::Modern));
    assert!(n.note_era(Era::Legacy));
    for era in [Era::Unknown, Era::Legacy, Era::Modern] {
        assert_eq!(Era::from_u8(era.to_u8()), era);
    }
    assert_eq!(Era::from_u8(200), Era::Unknown);
}

#[test]
fn what_went_out_is_what_the_reader_gets() {
    let (mut n, mut rx) = notifier_with_capacity(1);
    n.arm();
    n.note_era(Era::Legacy);
    assert!(n.alert(true, "warning", &data("1")));
    assert!(!n.alert(true, "warning", &data("2")));
    assert_eq!(rx.try_recv().unwrap(), alert_line("warning", &data("1"), 0));
    assert!(rx.try_recv().is_err(), "one that did not go out is not read");
    assert!(n.alert(true, "error", &data("3")));
    assert_eq!(rx.try_recv().unwrap(), alert_line("error", &data("3"), 1));
}
