use ffe_watch::detect::Status;
use ffe_watch::models::AddTargetPayload;
use ffe_watch::store::Store;
use ffe_watch::watcher::{
    apply_poll, assess_fetch, confirm_open, effective_interval, guarded_poll, should_notify_open,
    should_notify_slots, status_tag, AlertKind, FetchOutcome, Watcher, BACKOFF_SECS,
    DEBOUNCE_SECS, PACING_MS,
};

fn payload(label: &str, url: &str) -> AddTargetPayload {
    AddTargetPayload {
        label: label.to_string(),
        url: url.to_string(),
        cheval: None,
        cavalier: None,
        interval_normal_sec: Some(30),
        interval_hot_sec: None,
        hot_from: None,
        hot_to: None,
    }
}

fn ok(body: &str) -> FetchOutcome {
    FetchOutcome::Success { body: body.to_string() }
}

fn fail(msg: &str) -> FetchOutcome {
    FetchOutcome::Failure { message: msg.to_string() }
}

#[test]
fn watcher_lifecycle() {
    let mut w = Watcher::new();
    assert!(!w.is_running());
    w.start();
    assert!(w.is_running());
    w.start();
    assert!(w.is_running());
    w.stop();
    assert!(!w.is_running());
}

#[test]
fn assess_success_classifies_and_keeps_body() {
    let a = assess_fetch(ok("Engagement ouvert"));
    assert_eq!(a.status, Status::Open);
    assert_eq!(a.error, None);
    assert_eq!(a.html.as_deref(), Some("Engagement ouvert"));
}

#[test]
fn assess_failure_is_error_without_body() {
    let a = assess_fetch(fail("http: connect timed out"));
    assert_eq!(a.status, Status::Error);
    assert_eq!(a.error.as_deref(), Some("http: connect timed out"));
    assert_eq!(a.html, None);
}

#[test]
fn debounce_second_classification_wins() {
    // First fetch says Open, the confirming fetch reads a closed page: the
    // second classification is the one persisted.
    let first = assess_fetch(ok("engagement ouvert"));
    assert_eq!(first.status, Status::Open);
    let confirmed = confirm_open(first, Some(ok("Engagements fermés")));
    assert_eq!(confirmed.status, Status::Closed);
    assert_eq!(confirmed.html.as_deref(), Some("Engagements fermés"));
}

#[test]
fn debounce_keeps_open_when_confirmed() {
    let first = assess_fetch(ok("engagement ouvert 5 / 10"));
    let confirmed = confirm_open(first, Some(ok("toujours ouvert 6 / 10")));
    assert_eq!(confirmed.status, Status::Open);
    // The freshest body is the one retained for slot extraction.
    assert_eq!(confirmed.html.as_deref(), Some("toujours ouvert 6 / 10"));
}

#[test]
fn debounce_failed_recheck_changes_nothing() {
    let first = assess_fetch(ok("ouvert"));
    let confirmed = confirm_open(first, Some(fail("http: reset")));
    assert_eq!(confirmed.status, Status::Open);
    assert_eq!(confirmed.html.as_deref(), Some("ouvert"));
}

#[test]
fn status_tags() {
    assert_eq!(status_tag(Status::Unknown), "UNKNOWN");
    assert_eq!(status_tag(Status::Closed), "CLOSED");
    assert_eq!(status_tag(Status::Open), "OPEN");
    assert_eq!(status_tag(Status::Full), "FULL");
    assert_eq!(status_tag(Status::Error), "ERROR");
}

#[test]
fn alert_decisions() {
    assert!(should_notify_open(&"CLOSED".to_string(), &"OPEN".to_string()));
    assert!(!should_notify_open(&"OPEN".to_string(), &"OPEN".to_string()));
    assert!(!should_notify_open(&"CLOSED".to_string(), &"FULL".to_string()));
    assert!(should_notify_slots(Some(0), 5));
    assert!(!should_notify_slots(Some(2), 5));
    assert!(!should_notify_slots(None, 5));
    assert!(!should_notify_slots(Some(0), 0));
}

#[test]
fn closed_to_open_fires_exactly_one_opened_alert() {
    let mut s = Store::new();
    s.add_target(payload("Grand Prix", "http://page"));
    s.update_status(1, "CLOSED", 10, None);
    let snap = &s.list_targets()[0];
    let a = confirm_open(assess_fetch(ok("engagement ouvert")), Some(ok("engagement ouvert")));
    assert_eq!(a.status, Status::Open);
    let notes = apply_poll(&mut s, snap, &a, 20);
    assert_eq!(notes.len(), 1);
    assert_eq!(notes[0].kind, AlertKind::Opened);
    assert_eq!(notes[0].target_id, 1);
    assert_eq!(notes[0].label, "Grand Prix");
    assert_eq!(notes[0].url, "http://page");
    assert_eq!(s.targets[0].target.last_status, "OPEN");
    assert_eq!(s.targets[0].last_change_at, Some(20));
}

#[test]
fn open_to_open_fires_no_alert() {
    let mut s = Store::new();
    s.add_target(payload("a", "http://a"));
    s.update_status(1, "OPEN", 10, None);
    let snap = &s.list_targets()[0];
    let a = assess_fetch(ok("engagement ouvert"));
    let notes = apply_poll(&mut s, snap, &a, 20);
    assert_eq!(notes.len(), 0);
}

#[test]
fn zero_to_positive_slots_fires_exactly_one_alert() {
    let mut s = Store::new();
    s.add_target(payload("a", "http://a"));
    s.set_last_slots(1, 0);
    let snap = &s.list_targets()[0];
    let a = assess_fetch(ok("engagés 55 / 60"));
    let notes = apply_poll(&mut s, snap, &a, 20);
    assert_eq!(notes.len(), 1);
    assert_eq!(notes[0].kind, AlertKind::SlotsFreed);
    assert_eq!(notes[0].target_id, 1);
    // The new count is persisted whether or not an alert fired.
    assert_eq!(s.targets[0].target.last_slots, Some(5));
}

#[test]
fn positive_to_positive_slots_fires_no_alert() {
    let mut s = Store::new();
    s.add_target(payload("a", "http://a"));
    s.set_last_slots(1, 2);
    let snap = &s.list_targets()[0];
    let a = assess_fetch(ok("engagés 55 / 60"));
    let notes = apply_poll(&mut s, snap, &a, 20);
    assert_eq!(notes.len(), 0);
    assert_eq!(s.targets[0].target.last_slots, Some(5));
}

#[test]
fn slot_alert_and_open_alert_can_co_occur() {
    let mut s = Store::new();
    s.add_target(payload("a", "http://a"));
    s.update_status(1, "FULL", 10, None);
    s.set_last_slots(1, 0);
    let snap = &s.list_targets()[0];
    let a = confirm_open(
        assess_fetch(ok("engagement ouvert 55 / 60")),
        Some(ok("engagement ouvert 55 / 60")),
    );
    let notes = apply_poll(&mut s, snap, &a, 20);
    assert_eq!(notes.len(), 2);
    assert_eq!(notes[0].kind, AlertKind::SlotsFreed);
    assert_eq!(notes[1].kind, AlertKind::Opened);
}

#[test]
fn failed_fetch_persists_error_and_no_slots() {
    let mut s = Store::new();
    s.add_target(payload("a", "http://a"));
    s.set_last_slots(1, 0);
    let snap = &s.list_targets()[0];
    let a = assess_fetch(fail("HTTP 503"));
    let notes = apply_poll(&mut s, snap, &a, 20);
    assert_eq!(notes.len(), 0);
    assert_eq!(s.targets[0].target.last_status, "ERROR");
    assert_eq!(s.targets[0].target.last_error.as_deref(), Some("HTTP 503"));
    // No body was retained, so the stored count is untouched.
    assert_eq!(s.targets[0].target.last_slots, Some(0));
}

#[test]
fn stopped_watcher_writes_nothing() {
    let mut s = Store::new();
    s.add_target(payload("a", "http://a"));
    s.update_status(1, "CLOSED", 10, None);
    let snap = s.list_targets().remove(0);
    let events_before = s.events.len();
    let mut w = Watcher::new();
    w.start();
    w.stop();
    let a = assess_fetch(ok("engagement ouvert"));
    let notes = guarded_poll(&w, &mut s, &snap, &a, 20);
    assert_eq!(notes.len(), 0);
    assert_eq!(s.events.len(), events_before);
    assert_eq!(s.targets[0].target.last_status, "CLOSED");
    assert_eq!(s.targets[0].target.last_checked_at, Some(10));
}

#[test]
fn running_watcher_polls_through_guard() {
    let mut s = Store::new();
    s.add_target(payload("a", "http://a"));
    let snap = s.list_targets().remove(0);
    let mut w = Watcher::new();
    w.start();
    let a = assess_fetch(ok("complet"));
    let _ = guarded_poll(&w, &mut s, &snap, &a, 20);
    assert_eq!(s.targets[0].target.last_status, "FULL");
    assert_eq!(s.events.len(), 1);
}

#[test]
fn effective_interval_floors_at_fifteen() {
    let mut s = Store::new();
    let mut p = payload("a", "http://a");
    p.interval_normal_sec = Some(5);
    s.add_target(p);
    let t = &s.list_targets()[0];
    // The stored cadence is already clamped; the engine floors again.
    assert_eq!(effective_interval(t), 15);

    let loose = ffe_watch::models::Target {
        id: 9,
        label: "x".to_string(),
        url: "http://x".to_string(),
        cheval: None,
        cavalier: None,
        interval_normal_sec: 3,
        interval_hot_sec: 45,
        hot_from: None,
        hot_to: None,
        last_status: String::new(),
        last_checked_at: None,
        last_error: None,
        last_slots: None,
    };
    assert_eq!(effective_interval(&loose), 15);
}

#[test]
fn pacing_constants() {
    assert_eq!(DEBOUNCE_SECS, 1);
    assert_eq!(PACING_MS, 250);
    assert_eq!(BACKOFF_SECS, 2);
}
