//! The monitoring engine: run/stop control and the per-poll decisions.
//!
//! The engine's loop itself is asynchronous plumbing that lives with the
//! caller; it hands each fetch outcome and the clock reading to the functions
//! here. These classify, apply the debounce rule, persist through the store
//! model and decide which alerts fire.

use vstd::prelude::*;
use crate::detect::{
    Status, detect_slots_from_html, detect_status_from_html, lower_of, spec_slots_of,
    spec_status_of,
};
use crate::models::{Target, TargetV, opt_string_view, string_eq};
use crate::store::{Store, StoreV, spec_set_last_slots, spec_update_status};

verus! {

/// Pause before the confirming fetch of an Open classification, in seconds.
pub const DEBOUNCE_SECS: u64 = 1;

/// Gentle pacing pause between targets, in milliseconds.
pub const PACING_MS: u64 = 250;

/// Pause after a store failure or an empty target list, in seconds.
pub const BACKOFF_SECS: u64 = 2;

/// The engine's run flag, observed cooperatively by the loop between targets.
#[derive(Debug)]
pub struct Watcher {
    running: bool,
}

impl Watcher {
    /// Whether the loop may proceed.
    pub closed spec fn spec_running(&self) -> bool {
        self.running
    }

    /// A new watcher is idle.
    pub fn new() -> (w: Watcher)
        ensures
            !w.spec_running(),
    {
        Watcher { running: false }
    }

    /// Set the run flag, as entering the loop does. Starting an already
    /// running watcher changes nothing.
    pub fn start(&mut self)
        ensures
            final(self).spec_running(),
    {
        self.running = true;
    }

    /// Clear the run flag; the loop observes it between targets and stops.
    pub fn stop(&mut self)
        ensures
            !final(self).spec_running(),
    {
        self.running = false;
    }

    /// Read the run flag.
    pub fn is_running(&self) -> (b: bool)
        ensures
            b == self.spec_running(),
    {
        self.running
    }
}

/// What one HTTP GET produced: the page body, or the error text the caller
/// formed from the transport failure, non-success status or body-read error.
#[derive(Debug)]
pub enum FetchOutcome {
    Success { body: String },
    Failure { message: String },
}

impl View for FetchOutcome {
    type V = Result<Seq<char>, Seq<char>>;

    open spec fn view(&self) -> Result<Seq<char>, Seq<char>> {
        match self {
            FetchOutcome::Success { body } => Ok(body@),
            FetchOutcome::Failure { message } => Err(message@),
        }
    }
}

/// Spec image of an optional fetch outcome.
pub open spec fn opt_fetch_view(o: Option<FetchOutcome>) -> Option<Result<Seq<char>, Seq<char>>> {
    match o {
        Some(f) => Some(f@),
        None => None,
    }
}

/// One poll's classification, with the error text and the body retained for
/// slot extraction.
#[derive(Debug)]
pub struct Assessment {
    pub status: Status,
    pub error: Option<String>,
    pub html: Option<String>,
}

/// Mathematical image of an `Assessment`.
pub ghost struct AssessmentV {
    pub status: Status,
    pub error: Option<Seq<char>>,
    pub html: Option<Seq<char>>,
}

impl View for Assessment {
    type V = AssessmentV;

    open spec fn view(&self) -> AssessmentV {
        AssessmentV {
            status: self.status,
            error: opt_string_view(self.error),
            html: opt_string_view(self.html),
        }
    }
}

/// Classification of one fetch outcome: a body is classified and retained; a
/// failure becomes Error with its message and no body.
pub open spec fn spec_assess(f: Result<Seq<char>, Seq<char>>) -> AssessmentV {
    match f {
        Ok(body) => AssessmentV {
            status: spec_status_of(lower_of(body)),
            error: None,
            html: Some(body),
        },
        Err(msg) => AssessmentV { status: Status::Error, error: Some(msg), html: None },
    }
}

/// Classify one fetch outcome.
pub fn assess_fetch(f: FetchOutcome) -> (a: Assessment)
    ensures
        a@ == spec_assess(f@),
{
    match f {
        FetchOutcome::Success { body } => {
            let status = detect_status_from_html(body.as_str());
            Assessment { status: status, error: None, html: Some(body) }
        },
        FetchOutcome::Failure { message } => Assessment {
            status: Status::Error,
            error: Some(message),
            html: None,
        },
    }
}

/// The debounce rule: only an Open classification is re-checked; a readable
/// second body always replaces the retained one and its classification
/// overrides the first; a failed confirming fetch changes nothing.
pub open spec fn spec_confirm(
    a: AssessmentV,
    second: Option<Result<Seq<char>, Seq<char>>>,
) -> AssessmentV {
    if a.status == Status::Open {
        match second {
            Some(Ok(body2)) => AssessmentV {
                status: spec_status_of(lower_of(body2)),
                error: a.error,
                html: Some(body2),
            },
            _ => a,
        }
    } else {
        a
    }
}

/// Apply the confirming fetch of an Open classification.
pub fn confirm_open(a: Assessment, second: Option<FetchOutcome>) -> (r: Assessment)
    ensures
        r@ == spec_confirm(a@, opt_fetch_view(second)),
{
    if a.status == Status::Open {
        match second {
            Some(FetchOutcome::Success { body }) => {
                let status = detect_status_from_html(body.as_str());
                Assessment { status: status, error: a.error, html: Some(body) }
            },
            Some(FetchOutcome::Failure { message: _ }) => a,
            None => a,
        }
    } else {
        a
    }
}

/// The tag under which a status is persisted.
pub open spec fn spec_tag(s: Status) -> Seq<char> {
    match s {
        Status::Unknown => "UNKNOWN"@,
        Status::Closed => "CLOSED"@,
        Status::Open => "OPEN"@,
        Status::Full => "FULL"@,
        Status::Error => "ERROR"@,
    }
}

/// Render a status as its persisted tag.
pub fn status_tag(s: Status) -> (r: String)
    ensures
        r@ == spec_tag(s),
{
    match s {
        Status::Unknown => "UNKNOWN".to_owned(),
        Status::Closed => "CLOSED".to_owned(),
        Status::Open => "OPEN".to_owned(),
        Status::Full => "FULL".to_owned(),
        Status::Error => "ERROR".to_owned(),
    }
}

/// Which alert condition fired.
#[derive(Debug, Clone, Copy, PartialEq, Eq, Structural)]
pub enum AlertKind {
    SlotsFreed,
    Opened,
}

/// An alert handed to the notifier: which condition fired, for which target.
#[derive(Debug)]
pub struct Notification {
    pub kind: AlertKind,
    pub target_id: i64,
    pub label: String,
    pub url: String,
}

/// Mathematical image of a `Notification`.
pub ghost struct NotificationV {
    pub kind: AlertKind,
    pub target_id: i64,
    pub label: Seq<char>,
    pub url: Seq<char>,
}

impl View for Notification {
    type V = NotificationV;

    open spec fn view(&self) -> NotificationV {
        NotificationV {
            kind: self.kind,
            target_id: self.target_id,
            label: self.label@,
            url: self.url@,
        }
    }
}

/// Spec image of a vector of notifications.
pub open spec fn notes_view(ns: Seq<Notification>) -> Seq<NotificationV> {
    ns.map_values(|n: Notification| n@)
}

/// The opened alert fires on a transition into OPEN from any other tag.
pub open spec fn spec_opened_alert(prev_status: Seq<char>, new_tag: Seq<char>) -> bool {
    prev_status != "OPEN"@ && new_tag == "OPEN"@
}

/// The slots-freed alert fires on the stored-zero to positive edge; a missing
/// stored value never fires.
pub open spec fn spec_slots_alert(prev: Option<int>, slots_now: int) -> bool {
    prev == Some(0int) && slots_now > 0
}

/// Decide the opened alert from the snapshot's tag and the new tag.
pub fn should_notify_open(prev_status: &String, new_tag: &String) -> (b: bool)
    ensures
        b == spec_opened_alert(prev_status@, new_tag@),
{
    let open_s: String = "OPEN".to_owned();
    !string_eq(prev_status, &open_s) && string_eq(new_tag, &open_s)
}

/// Decide the slots-freed alert from the snapshot's count and the new count.
pub fn should_notify_slots(prev: Option<i32>, slots_now: i32) -> (b: bool)
    ensures
        b == spec_slots_alert(
            (match prev {
                Some(p) => Some(p as int),
                None => None,
            }),
            slots_now as int,
        ),
{
    match prev {
        Some(p) => p == 0 && slots_now > 0,
        None => false,
    }
}

/// The slots-freed alert of a snapshot.
pub open spec fn spec_slots_note(t: TargetV) -> NotificationV {
    NotificationV { kind: AlertKind::SlotsFreed, target_id: t.id, label: t.label, url: t.url }
}

/// The opened alert of a snapshot.
pub open spec fn spec_open_note(t: TargetV) -> NotificationV {
    NotificationV { kind: AlertKind::Opened, target_id: t.id, label: t.label, url: t.url }
}

/// The alerts one poll raises, in the order they are raised: the slots-freed
/// alert (when a count was extracted, the stored count was zero and the new
/// one is positive), then the opened alert (on a transition into OPEN).
pub open spec fn spec_poll_notes(t: TargetV, new_tag: Seq<char>, slots: Option<int>) -> Seq<
    NotificationV,
> {
    let slots_part = match slots {
        Some(v) => if spec_slots_alert(t.last_slots, v) {
            seq![spec_slots_note(t)]
        } else {
            Seq::empty()
        },
        None => Seq::empty(),
    };
    let open_part = if spec_opened_alert(t.last_status, new_tag) {
        seq![spec_open_note(t)]
    } else {
        Seq::empty()
    };
    slots_part + open_part
}

/// The slot count the engine reads from the retained body, if any.
pub open spec fn spec_slots_opt(html: Option<Seq<char>>) -> Option<int> {
    match html {
        Some(b) => spec_slots_of(lower_of(b)),
        None => None,
    }
}

/// The store after one poll is persisted: the status write (with its event
/// row), then the slot write when a count was extracted.
pub open spec fn spec_apply_poll(
    s: StoreV,
    t: TargetV,
    tag: Seq<char>,
    err: Option<Seq<char>>,
    slots: Option<int>,
    now: i64,
) -> StoreV {
    let s1 = spec_update_status(s, t.id, tag, now, err);
    match slots {
        Some(v) => spec_set_last_slots(s1, t.id, v),
        None => s1,
    }
}

/// Persist one poll outcome against the snapshot `t` that the cycle read:
/// write status, timestamp and error (one event row appended), extract the
/// slot count from the retained body and persist it unconditionally, and
/// collect the alerts the comparison with the snapshot raises.
pub fn apply_poll(store: &mut Store, t: &Target, a: &Assessment, now: i64) -> (notes: Vec<
    Notification,
>)
    ensures
        final(store)@ == spec_apply_poll(
            old(store)@,
            t@,
            spec_tag(a.status),
            a@.error,
            spec_slots_opt(a@.html),
            now,
        ),
        notes_view(notes@) == spec_poll_notes(t@, spec_tag(a.status), spec_slots_opt(a@.html)),
{
    let tag = status_tag(a.status);
    let err_ref: Option<&str> = match &a.error {
        Some(e) => Some(e.as_str()),
        None => None,
    };
    store.update_status(t.id, tag.as_str(), now, err_ref);
    let mut notes: Vec<Notification> = Vec::new();
    let slots: Option<i32> = match &a.html {
        Some(h) => detect_slots_from_html(h.as_str()),
        None => None,
    };
    match slots {
        Some(v) => {
            if should_notify_slots(t.last_slots, v) {
                notes.push(
                    Notification {
                        kind: AlertKind::SlotsFreed,
                        target_id: t.id,
                        label: t.label.clone(),
                        url: t.url.clone(),
                    },
                );
            }
            store.set_last_slots(t.id, v);
        },
        None => {},
    }
    if should_notify_open(&t.last_status, &tag) {
        notes.push(
            Notification {
                kind: AlertKind::Opened,
                target_id: t.id,
                label: t.label.clone(),
                url: t.url.clone(),
            },
        );
    }
    proof {
        assert(notes_view(notes@) =~= spec_poll_notes(
            t@,
            spec_tag(a.status),
            spec_slots_opt(a@.html),
        ));
    }
    notes
}

/// One guarded engine step: what the loop does to the store for one target,
/// given the run flag it observed.
pub open spec fn spec_guarded_poll(
    running: bool,
    s: StoreV,
    t: TargetV,
    tag: Seq<char>,
    err: Option<Seq<char>>,
    slots: Option<int>,
    now: i64,
) -> (StoreV, Seq<NotificationV>) {
    if running {
        (spec_apply_poll(s, t, tag, err, slots, now), spec_poll_notes(t, tag, slots))
    } else {
        (s, Seq::empty())
    }
}

/// The per-target step as the loop runs it: the run flag is consulted first;
/// a cleared flag means no store write and no alert.
pub fn guarded_poll(w: &Watcher, store: &mut Store, t: &Target, a: &Assessment, now: i64) -> (notes:
    Vec<Notification>)
    ensures
        ({
            let r = spec_guarded_poll(
                w.spec_running(),
                old(store)@,
                t@,
                spec_tag(a.status),
                a@.error,
                spec_slots_opt(a@.html),
                now,
            );
            final(store)@ == r.0 && notes_view(notes@) == r.1
        }),
{
    if w.is_running() {
        apply_poll(store, t, a, now)
    } else {
        let notes: Vec<Notification> = Vec::new();
        proof {
            assert(notes_view(notes@) =~= Seq::<NotificationV>::empty());
        }
        notes
    }
}

/// The interval honored between polls of a target: the configured normal
/// cadence floored at 15 s. The hot-window fields are stored but not yet
/// consulted for cadence selection.
pub open spec fn spec_effective_interval(normal: i64) -> i64 {
    if normal < 15 {
        15
    } else {
        normal
    }
}

/// Effective pacing interval of a target, in seconds.
pub fn effective_interval(t: &Target) -> (r: i64)
    ensures
        r == spec_effective_interval(t@.interval_normal_sec),
        r >= 15,
{
    if t.interval_normal_sec < 15 {
        15
    } else {
        t.interval_normal_sec
    }
}

/// How many alerts of one kind a poll raised.
pub open spec fn count_kind(ns: Seq<NotificationV>, k: AlertKind) -> nat
    decreases ns.len(),
{
    if ns.len() == 0 {
        0
    } else {
        (if ns.last().kind == k {
            1nat
        } else {
            0nat
        }) + count_kind(ns.drop_last(), k)
    }
}

/// Law: the opened alert fires exactly on a transition into OPEN — then once,
/// as the last alert of the poll, with the snapshot's id, label and url.
pub proof fn lemma_open_alert_exact(t: TargetV, tag: Seq<char>, slots: Option<int>)
    ensures
        count_kind(spec_poll_notes(t, tag, slots), AlertKind::Opened) == (
        if spec_opened_alert(t.last_status, tag) {
            1nat
        } else {
            0nat
        }),
        spec_opened_alert(t.last_status, tag) ==> spec_poll_notes(t, tag, slots).last()
            == spec_open_note(t),
{
    let ns = spec_poll_notes(t, tag, slots);
    let slots_part = match slots {
        Some(v) => if spec_slots_alert(t.last_slots, v) {
            seq![spec_slots_note(t)]
        } else {
            Seq::<NotificationV>::empty()
        },
        None => Seq::<NotificationV>::empty(),
    };
    assert(count_kind(slots_part, AlertKind::Opened) == 0) by {
        assert(count_kind(Seq::<NotificationV>::empty(), AlertKind::Opened) == 0);
        if slots_part.len() > 0 {
            assert(slots_part.last() == spec_slots_note(t));
            assert(slots_part.drop_last() =~= Seq::<NotificationV>::empty());
        }
    }
    if spec_opened_alert(t.last_status, tag) {
        assert(ns.last() == spec_open_note(t));
        assert(ns.drop_last() =~= slots_part);
    } else {
        assert(ns =~= slots_part);
    }
}

/// Law: the slots-freed alert fires exactly when a count was extracted, the
/// stored count was zero and the new count is positive — then once, as the
/// first alert of the poll, with the snapshot's id, label and url.
pub proof fn lemma_slots_alert_exact(t: TargetV, tag: Seq<char>, slots: Option<int>)
    ensures
        count_kind(spec_poll_notes(t, tag, slots), AlertKind::SlotsFreed) == (match slots {
            Some(v) => if spec_slots_alert(t.last_slots, v) {
                1nat
            } else {
                0nat
            },
            None => 0nat,
        }),
        (match slots {
            Some(v) => spec_slots_alert(t.last_slots, v) ==> spec_poll_notes(t, tag, slots)[0]
                == spec_slots_note(t),
            None => true,
        }),
{
    let ns = spec_poll_notes(t, tag, slots);
    let slots_part = match slots {
        Some(v) => if spec_slots_alert(t.last_slots, v) {
            seq![spec_slots_note(t)]
        } else {
            Seq::<NotificationV>::empty()
        },
        None => Seq::<NotificationV>::empty(),
    };
    assert(count_kind(slots_part, AlertKind::SlotsFreed) == slots_part.len()) by {
        assert(count_kind(Seq::<NotificationV>::empty(), AlertKind::SlotsFreed) == 0);
        if slots_part.len() > 0 {
            assert(slots_part.last() == spec_slots_note(t));
            assert(slots_part.drop_last() =~= Seq::<NotificationV>::empty());
        }
    }
    if spec_opened_alert(t.last_status, tag) {
        assert(ns.last() == spec_open_note(t));
        assert(ns.drop_last() =~= slots_part);
    } else {
        assert(ns =~= slots_part);
    }
}

/// Law: when a first fetch classifies Open and the confirming fetch reads a
/// body, the second body's classification wins and its text is the one kept
/// for slot extraction.
pub proof fn lemma_debounce_second_wins(a: AssessmentV, body2: Seq<char>)
    requires
        a.status == Status::Open,
    ensures
        spec_confirm(a, Some(Ok(body2))).status == spec_status_of(lower_of(body2)),
        spec_confirm(a, Some(Ok(body2))).html == Some(body2),
{
}

/// Law: after `stop`, the guarded engine step writes nothing — the store is
/// unchanged and no alert is raised, for every target and fetch outcome.
pub proof fn lemma_stop_halts_writes(
    w: Watcher,
    s: StoreV,
    t: TargetV,
    tag: Seq<char>,
    err: Option<Seq<char>>,
    slots: Option<int>,
    now: i64,
)
    requires
        !w.spec_running(),
    ensures
        spec_guarded_poll(w.spec_running(), s, t, tag, err, slots, now) == (
        s,
        Seq::<NotificationV>::empty(),
        ),
{
}

/// Law (idempotent polls): two consecutive polls of one target that persist
/// the same status leave the change timestamp where the first poll put it,
/// while the checked timestamp advances to the second poll's time.
pub proof fn lemma_idempotent_poll(
    s: StoreV,
    t: TargetV,
    i: int,
    tag: Seq<char>,
    e1: Option<Seq<char>>,
    e2: Option<Seq<char>>,
    sl1: Option<int>,
    sl2: Option<int>,
    now1: i64,
    now2: i64,
)
    requires
        0 <= i < s.targets.len(),
        s.targets[i].target.id == t.id,
    ensures
        ({
            let s1 = spec_apply_poll(s, t, tag, e1, sl1, now1);
            let s2 = spec_apply_poll(s1, t, tag, e2, sl2, now2);
            &&& s2.targets[i].last_change_at == s1.targets[i].last_change_at
            &&& s2.targets[i].target.last_checked_at == Some(now2)
        }),
{
    let s1 = spec_apply_poll(s, t, tag, e1, sl1, now1);
    assert(s1.targets[i].target.id == t.id);
    assert(s1.targets[i].target.last_status == tag);
}

} // verus!
