use ffe_watch::models::AddTargetPayload;
use ffe_watch::store::{clamp_intervals, Store};

fn payload(label: &str, url: &str, normal: Option<i64>, hot: Option<i64>) -> AddTargetPayload {
    AddTargetPayload {
        label: label.to_string(),
        url: url.to_string(),
        cheval: None,
        cavalier: None,
        interval_normal_sec: normal,
        interval_hot_sec: hot,
        hot_from: None,
        hot_to: None,
    }
}

#[test]
fn clamping_floors_and_defaults() {
    assert_eq!(clamp_intervals(Some(5), Some(3)), (15, 10));
    assert_eq!(clamp_intervals(None, None), (300, 45));
    assert_eq!(clamp_intervals(Some(120), Some(20)), (120, 20));
    assert_eq!(clamp_intervals(Some(15), Some(10)), (15, 10));
}

#[test]
fn add_target_clamps_and_defaults() {
    let mut s = Store::new();
    s.add_target(payload("a", "http://a", Some(5), Some(3)));
    s.add_target(payload("b", "http://b", None, None));
    let listed = s.list_targets();
    // Most recent first.
    assert_eq!(listed.len(), 2);
    assert_eq!(listed[0].label, "b");
    assert_eq!(listed[0].interval_normal_sec, 300);
    assert_eq!(listed[0].interval_hot_sec, 45);
    assert_eq!(listed[1].label, "a");
    assert_eq!(listed[1].interval_normal_sec, 15);
    assert_eq!(listed[1].interval_hot_sec, 10);
    // Fresh ids, fresh state.
    assert_eq!(listed[1].id, 1);
    assert_eq!(listed[0].id, 2);
    assert_eq!(listed[0].last_status, "");
    assert_eq!(listed[0].last_checked_at, None);
    assert_eq!(listed[0].last_slots, None);
}

#[test]
fn update_status_writes_fields_and_appends_event() {
    let mut s = Store::new();
    s.add_target(payload("a", "http://a", None, None));
    s.update_status(1, "OPEN", 100, None);
    assert_eq!(s.targets[0].target.last_status, "OPEN");
    assert_eq!(s.targets[0].target.last_checked_at, Some(100));
    assert_eq!(s.targets[0].target.last_error, None);
    assert_eq!(s.targets[0].last_change_at, Some(100));
    assert_eq!(s.events.len(), 1);
    assert_eq!(s.events[0].target_id, 1);
    assert_eq!(s.events[0].ts, 100);
    assert_eq!(s.events[0].status, "OPEN");
    assert_eq!(s.events[0].note, "");
}

#[test]
fn unchanged_status_keeps_change_time() {
    // Consecutive polls with the same outcome: checked-at advances, the
    // change time stays where the transition put it.
    let mut s = Store::new();
    s.add_target(payload("a", "http://a", None, None));
    s.update_status(1, "CLOSED", 100, None);
    assert_eq!(s.targets[0].last_change_at, Some(100));
    s.update_status(1, "CLOSED", 200, None);
    assert_eq!(s.targets[0].target.last_checked_at, Some(200));
    assert_eq!(s.targets[0].last_change_at, Some(100));
    s.update_status(1, "OPEN", 300, None);
    assert_eq!(s.targets[0].last_change_at, Some(300));
    // Every poll appends an event, changed or not.
    assert_eq!(s.events.len(), 3);
}

#[test]
fn error_text_is_stored_and_noted() {
    let mut s = Store::new();
    s.add_target(payload("a", "http://a", None, None));
    s.update_status(1, "ERROR", 50, Some("HTTP 503"));
    assert_eq!(s.targets[0].target.last_error.as_deref(), Some("HTTP 503"));
    assert_eq!(s.events[0].note, "HTTP 503");
}

#[test]
fn set_last_slots_replaces_value() {
    let mut s = Store::new();
    s.add_target(payload("a", "http://a", None, None));
    s.set_last_slots(1, 0);
    assert_eq!(s.targets[0].target.last_slots, Some(0));
    s.set_last_slots(1, 7);
    assert_eq!(s.targets[0].target.last_slots, Some(7));
}

#[test]
fn delete_target_removes_children_first() {
    let mut s = Store::new();
    s.add_target(payload("a", "http://a", None, None));
    s.add_target(payload("b", "http://b", None, None));
    s.update_status(1, "OPEN", 10, None);
    s.update_status(2, "CLOSED", 11, None);
    s.update_status(1, "FULL", 12, None);
    s.delete_target(1);
    assert_eq!(s.targets.len(), 1);
    assert_eq!(s.targets[0].target.id, 2);
    assert_eq!(s.events.len(), 1);
    assert_eq!(s.events[0].target_id, 2);
    // Ids are not reused after a deletion.
    s.add_target(payload("c", "http://c", None, None));
    assert_eq!(s.list_targets()[0].id, 3);
}

#[test]
fn update_of_unknown_id_still_logs_event() {
    let mut s = Store::new();
    s.add_target(payload("a", "http://a", None, None));
    s.update_status(99, "OPEN", 10, None);
    assert_eq!(s.targets[0].target.last_status, "");
    assert_eq!(s.events.len(), 1);
    assert_eq!(s.events[0].target_id, 99);
}
