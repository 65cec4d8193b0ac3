//! In-memory model of the target store.
//!
//! The store owns the rows the engine polls and the append-only event log.
//! Its contracts carry the store-side rules the engine relies on: interval
//! clamping on insertion, the change-time invariant of a status write, the
//! unconditional event append, and child-before-parent deletion.

use vstd::prelude::*;
use vstd::std_specs::vec::vec_index_mut;
use crate::models::{AddTargetPayload, AddTargetPayloadV, Target, TargetV, string_eq};

verus! {

/// One audit row: the outcome of one poll.
#[derive(Debug)]
pub struct Event {
    pub target_id: i64,
    pub ts: i64,
    pub status: String,
    pub note: String,
}

/// Mathematical image of an `Event`.
pub ghost struct EventV {
    pub target_id: i64,
    pub ts: i64,
    pub status: Seq<char>,
    pub note: Seq<char>,
}

impl View for Event {
    type V = EventV;

    open spec fn view(&self) -> EventV {
        EventV { target_id: self.target_id, ts: self.ts, status: self.status@, note: self.note@ }
    }
}

impl Event {
    /// Field-exact copy.
    pub fn duplicate(&self) -> (e: Event)
        ensures
            e == *self,
    {
        Event {
            target_id: self.target_id,
            ts: self.ts,
            status: self.status.clone(),
            note: self.note.clone(),
        }
    }
}

/// One stored row: a target plus the change timestamp the store maintains.
#[derive(Debug)]
pub struct StoredTarget {
    pub target: Target,
    pub last_change_at: Option<i64>,
}

/// Mathematical image of a `StoredTarget`.
pub ghost struct StoredTargetV {
    pub target: TargetV,
    pub last_change_at: Option<i64>,
}

impl View for StoredTarget {
    type V = StoredTargetV;

    open spec fn view(&self) -> StoredTargetV {
        StoredTargetV { target: self.target@, last_change_at: self.last_change_at }
    }
}

impl StoredTarget {
    /// Copy with the view of this row.
    pub fn duplicate(&self) -> (r: StoredTarget)
        ensures
            r@ == self@,
    {
        StoredTarget { target: self.target.duplicate(), last_change_at: self.last_change_at }
    }
}

/// Mathematical image of a `Store`.
pub ghost struct StoreV {
    pub targets: Seq<StoredTargetV>,
    pub events: Seq<EventV>,
    pub next_id: i64,
}

/// The store's rows, its event log, and the next fresh row id.
#[derive(Debug)]
pub struct Store {
    pub targets: Vec<StoredTarget>,
    pub events: Vec<Event>,
    pub next_id: i64,
}

impl View for Store {
    type V = StoreV;

    open spec fn view(&self) -> StoreV {
        StoreV {
            targets: self.targets@.map_values(|t: StoredTarget| t@),
            events: self.events@.map_values(|e: Event| e@),
            next_id: self.next_id,
        }
    }
}

/// Well-formedness: every stored id was taken from the fresh-id counter.
pub open spec fn store_wf(s: StoreV) -> bool {
    forall|i: int| 0 <= i < s.targets.len() ==> #[trigger] s.targets[i].target.id < s.next_id
}

/// The normal polling cadence: user value or 300 s, floored at 15 s.
pub open spec fn spec_clamped_normal(v: Option<i64>) -> i64 {
    let base = match v {
        Some(x) => x,
        None => 300,
    };
    if base < 15 {
        15
    } else {
        base
    }
}

/// The hot-window cadence: user value or 45 s, floored at 10 s. Stored, but
/// not yet consulted by the scheduler.
pub open spec fn spec_clamped_hot(v: Option<i64>) -> i64 {
    let base = match v {
        Some(x) => x,
        None => 45,
    };
    if base < 10 {
        10
    } else {
        base
    }
}

/// Clamp the two cadences of a new target as the store does on insertion.
pub fn clamp_intervals(normal: Option<i64>, hot: Option<i64>) -> (r: (i64, i64))
    ensures
        r.0 == spec_clamped_normal(normal),
        r.1 == spec_clamped_hot(hot),
{
    let n = match normal {
        Some(v) => v,
        None => 300,
    };
    let n = if n < 15 {
        15
    } else {
        n
    };
    let h = match hot {
        Some(v) => v,
        None => 45,
    };
    let h = if h < 10 {
        10
    } else {
        h
    };
    (n, h)
}

/// The row a payload inserts under a fresh id: cadences clamped, no state yet.
pub open spec fn spec_new_row(p: AddTargetPayloadV, id: i64) -> StoredTargetV {
    StoredTargetV {
        target: TargetV {
            id: id,
            label: p.label,
            url: p.url,
            cheval: p.cheval,
            cavalier: p.cavalier,
            interval_normal_sec: spec_clamped_normal(p.interval_normal_sec),
            interval_hot_sec: spec_clamped_hot(p.interval_hot_sec),
            hot_from: p.hot_from,
            hot_to: p.hot_to,
            last_status: Seq::empty(),
            last_checked_at: None,
            last_error: None,
            last_slots: None,
        },
        last_change_at: None,
    }
}

/// Insertion of a payload: one new row under the fresh id.
pub open spec fn spec_add_target(s: StoreV, p: AddTargetPayloadV) -> StoreV {
    StoreV {
        targets: s.targets.push(spec_new_row(p, s.next_id)),
        events: s.events,
        next_id: (s.next_id + 1) as i64,
    }
}

/// A status write on one row: status, checked-at and error are replaced; the
/// change time advances exactly when the status differs from the stored one.
pub open spec fn spec_status_update(
    r: StoredTargetV,
    status: Seq<char>,
    now: i64,
    err: Option<Seq<char>>,
) -> StoredTargetV {
    StoredTargetV {
        target: TargetV {
            id: r.target.id,
            label: r.target.label,
            url: r.target.url,
            cheval: r.target.cheval,
            cavalier: r.target.cavalier,
            interval_normal_sec: r.target.interval_normal_sec,
            interval_hot_sec: r.target.interval_hot_sec,
            hot_from: r.target.hot_from,
            hot_to: r.target.hot_to,
            last_status: status,
            last_checked_at: Some(now),
            last_error: err,
            last_slots: r.target.last_slots,
        },
        last_change_at: if r.target.last_status != status {
            Some(now)
        } else {
            r.last_change_at
        },
    }
}

/// One row of a status write: rows with the given id are updated, others kept.
pub open spec fn spec_row_step(
    r: StoredTargetV,
    id: i64,
    status: Seq<char>,
    now: i64,
    err: Option<Seq<char>>,
) -> StoredTargetV {
    if r.target.id == id {
        spec_status_update(r, status, now, err)
    } else {
        r
    }
}

/// Spec image of an optional borrowed string.
pub open spec fn opt_str_view(o: Option<&str>) -> Option<Seq<char>> {
    match o {
        Some(s) => Some(s@),
        None => None,
    }
}

/// A status write: matching rows updated, one event row appended whatever the
/// outcome, with the error text (empty if none) as its note.
pub open spec fn spec_update_status(
    s: StoreV,
    id: i64,
    status: Seq<char>,
    now: i64,
    err: Option<Seq<char>>,
) -> StoreV {
    StoreV {
        targets: Seq::new(s.targets.len(), |q: int| spec_row_step(s.targets[q], id, status, now, err)),
        events: s.events.push(
            EventV {
                target_id: id,
                ts: now,
                status: status,
                note: (match err {
                    Some(e) => e,
                    None => Seq::empty(),
                }),
            },
        ),
        next_id: s.next_id,
    }
}

/// One row of a slot write: the slot count of matching rows is replaced.
pub open spec fn spec_slots_row_step(r: StoredTargetV, id: i64, slots: int) -> StoredTargetV {
    if r.target.id == id {
        StoredTargetV {
            target: TargetV {
                id: r.target.id,
                label: r.target.label,
                url: r.target.url,
                cheval: r.target.cheval,
                cavalier: r.target.cavalier,
                interval_normal_sec: r.target.interval_normal_sec,
                interval_hot_sec: r.target.interval_hot_sec,
                hot_from: r.target.hot_from,
                hot_to: r.target.hot_to,
                last_status: r.target.last_status,
                last_checked_at: r.target.last_checked_at,
                last_error: r.target.last_error,
                last_slots: Some(slots),
            },
            last_change_at: r.last_change_at,
        }
    } else {
        r
    }
}

/// A slot write: the stored count is replaced, never accumulated; no event.
pub open spec fn spec_set_last_slots(s: StoreV, id: i64, slots: int) -> StoreV {
    StoreV {
        targets: Seq::new(s.targets.len(), |q: int| spec_slots_row_step(s.targets[q], id, slots)),
        events: s.events,
        next_id: s.next_id,
    }
}

/// The event log without the rows of one target, order kept.
pub open spec fn spec_events_without(s: Seq<EventV>, id: i64) -> Seq<EventV>
    decreases s.len(),
{
    if s.len() == 0 {
        Seq::empty()
    } else {
        let pre = spec_events_without(s.drop_last(), id);
        if s.last().target_id == id {
            pre
        } else {
            pre.push(s.last())
        }
    }
}

/// The rows without one target, order kept.
pub open spec fn spec_targets_without(s: Seq<StoredTargetV>, id: i64) -> Seq<StoredTargetV>
    decreases s.len(),
{
    if s.len() == 0 {
        Seq::empty()
    } else {
        let pre = spec_targets_without(s.drop_last(), id);
        if s.last().target.id == id {
            pre
        } else {
            pre.push(s.last())
        }
    }
}

/// Deletion of a target: its events leave first, then its rows; ids already
/// handed out are not reused.
pub open spec fn spec_delete_target(s: StoreV, id: i64) -> StoreV {
    StoreV {
        targets: spec_targets_without(s.targets, id),
        events: spec_events_without(s.events, id),
        next_id: s.next_id,
    }
}

/// Copy of an optional borrowed string into an owned one.
fn own_opt_str(o: Option<&str>) -> (r: Option<String>)
    ensures
        crate::models::opt_string_view(r) == opt_str_view(o),
{
    match o {
        Some(s) => Some(s.to_owned()),
        None => None,
    }
}

impl Store {
    /// Empty store; row ids start at 1, as in a fresh table.
    pub fn new() -> (s: Store)
        ensures
            s@ == (StoreV { targets: Seq::<StoredTargetV>::empty(), events: Seq::<EventV>::empty(), next_id: 1i64 }),
            store_wf(s@),
    {
        let s = Store { targets: Vec::new(), events: Vec::new(), next_id: 1 };
        proof {
            assert(s@.targets =~= Seq::<StoredTargetV>::empty());
            assert(s@.events =~= Seq::<EventV>::empty());
        }
        s
    }

    /// Insert a new target under a fresh id, cadences clamped (normal: given
    /// or 300 s, floor 15 s; hot: given or 45 s, floor 10 s), no state yet.
    pub fn add_target(&mut self, p: AddTargetPayload)
        requires
            old(self).next_id < i64::MAX,
        ensures
            final(self)@ == spec_add_target(old(self)@, p@),
            store_wf(old(self)@) ==> store_wf(final(self)@),
    {
        let id = self.next_id;
        self.next_id = id + 1;
        let (normal, hot) = clamp_intervals(p.interval_normal_sec, p.interval_hot_sec);
        let row = StoredTarget {
            target: Target {
                id: id,
                label: p.label,
                url: p.url,
                cheval: p.cheval,
                cavalier: p.cavalier,
                interval_normal_sec: normal,
                interval_hot_sec: hot,
                hot_from: p.hot_from,
                hot_to: p.hot_to,
                last_status: String::new(),
                last_checked_at: None,
                last_error: None,
                last_slots: None,
            },
            last_change_at: None,
        };
        self.targets.push(row);
        proof {
            assert(self@.targets =~= spec_add_target(old(self)@, p@).targets);
        }
    }

    /// All targets, most recently added first.
    pub fn list_targets(&self) -> (r: Vec<Target>)
        ensures
            r@.len() == self@.targets.len(),
            forall|q: int|
                0 <= q < r@.len() ==> #[trigger] r@[q]@ == self@.targets[self@.targets.len() - 1
                    - q].target,
    {
        let n = self.targets.len();
        let mut out: Vec<Target> = Vec::new();
        let mut i: usize = n;
        while i > 0
            invariant
                i <= n,
                n == self.targets.len(),
                out@.len() == n - i,
                forall|q: int|
                    0 <= q < out@.len() ==> #[trigger] out@[q]@ == self.targets@[n - 1 - q]@.target,
            decreases i,
        {
            i -= 1;
            out.push(self.targets[i].target.duplicate());
        }
        out
    }

    /// Persist a poll outcome: matching rows take the status, timestamp and
    /// error text; the change time advances only on a status transition; one
    /// event row is appended unconditionally.
    pub fn update_status(&mut self, id: i64, status: &str, now: i64, err: Option<&str>)
        ensures
            final(self)@ == spec_update_status(old(self)@, id, status@, now, opt_str_view(err)),
            store_wf(old(self)@) ==> store_wf(final(self)@),
    {
        let n = self.targets.len();
        let status_s: String = status.to_owned();
        let mut i: usize = 0;
        while i < n
            invariant
                i <= n,
                n == self.targets.len(),
                self.events@ == old(self).events@,
                self.next_id == old(self).next_id,
                status_s@ == status@,
                forall|q: int|
                    0 <= q < i ==> #[trigger] self.targets@[q]@ == spec_row_step(
                        old(self).targets@[q]@,
                        id,
                        status@,
                        now,
                        opt_str_view(err),
                    ),
                forall|q: int| i <= q < n ==> #[trigger] self.targets@[q] == old(self).targets@[q],
            decreases n - i,
        {
            if self.targets[i].target.id == id {
                let changed = !string_eq(&self.targets[i].target.last_status, &status_s);
                let row = vec_index_mut(&mut self.targets, i);
                row.target.last_status = status_s.clone();
                row.target.last_checked_at = Some(now);
                row.target.last_error = own_opt_str(err);
                if changed {
                    row.last_change_at = Some(now);
                }
                proof {
                    assert(self.targets@[i as int]@ == spec_row_step(
                        old(self).targets@[i as int]@,
                        id,
                        status@,
                        now,
                        opt_str_view(err),
                    ));
                }
            }
            i += 1;
        }
        let note = match err {
            Some(e) => e.to_owned(),
            None => String::new(),
        };
        self.events.push(Event { target_id: id, ts: now, status: status_s, note: note });
        proof {
            let spec_r = spec_update_status(old(self)@, id, status@, now, opt_str_view(err));
            assert(self@.targets =~= spec_r.targets);
            assert(self@.events =~= spec_r.events);
        }
    }

    /// Replace the stored slot count of matching rows; nothing else moves.
    pub fn set_last_slots(&mut self, id: i64, slots: i32)
        ensures
            final(self)@ == spec_set_last_slots(old(self)@, id, slots as int),
            store_wf(old(self)@) ==> store_wf(final(self)@),
    {
        let n = self.targets.len();
        let mut i: usize = 0;
        while i < n
            invariant
                i <= n,
                n == self.targets.len(),
                self.events@ == old(self).events@,
                self.next_id == old(self).next_id,
                forall|q: int|
                    0 <= q < i ==> #[trigger] self.targets@[q]@ == spec_slots_row_step(
                        old(self).targets@[q]@,
                        id,
                        slots as int,
                    ),
                forall|q: int| i <= q < n ==> #[trigger] self.targets@[q] == old(self).targets@[q],
            decreases n - i,
        {
            if self.targets[i].target.id == id {
                let row = vec_index_mut(&mut self.targets, i);
                row.target.last_slots = Some(slots);
                proof {
                    assert(self.targets@[i as int]@ == spec_slots_row_step(
                        old(self).targets@[i as int]@,
                        id,
                        slots as int,
                    ));
                }
            }
            i += 1;
        }
        proof {
            let spec_r = spec_set_last_slots(old(self)@, id, slots as int);
            assert(self@.targets =~= spec_r.targets);
            assert(self@.events =~= spec_r.events);
        }
    }

    /// Delete a target: its event rows leave first, then the target itself.
    pub fn delete_target(&mut self, id: i64)
        ensures
            final(self)@ == spec_delete_target(old(self)@, id),
            store_wf(old(self)@) ==> store_wf(final(self)@),
    {
        let ne = self.events.len();
        let mut kept_events: Vec<Event> = Vec::new();
        let mut i: usize = 0;
        proof {
            assert(kept_events@.map_values(|e: Event| e@) =~= spec_events_without(
                old(self)@.events.subrange(0, 0),
                id,
            ));
        }
        while i < ne
            invariant
                i <= ne,
                ne == self.events.len(),
                self == old(self),
                kept_events@.map_values(|e: Event| e@) == spec_events_without(
                    old(self)@.events.subrange(0, i as int),
                    id,
                ),
            decreases ne - i,
        {
            let ghost pre = old(self)@.events.subrange(0, i as int);
            let ghost cur = old(self)@.events.subrange(0, i + 1);
            proof {
                assert(cur.drop_last() =~= pre);
                assert(cur.last() == old(self)@.events[i as int]);
            }
            if self.events[i].target_id != id {
                kept_events.push(self.events[i].duplicate());
                proof {
                    assert(kept_events@.map_values(|e: Event| e@) =~= spec_events_without(cur, id));
                }
            } else {
                proof {
                    assert(kept_events@.map_values(|e: Event| e@) =~= spec_events_without(cur, id));
                }
            }
            i += 1;
        }
        proof {
            assert(old(self)@.events.subrange(0, ne as int) =~= old(self)@.events);
        }
        self.events = kept_events;

        let nt = self.targets.len();
        let mut kept_targets: Vec<StoredTarget> = Vec::new();
        let mut j: usize = 0;
        proof {
            assert(kept_targets@.map_values(|t: StoredTarget| t@) =~= spec_targets_without(
                old(self)@.targets.subrange(0, 0),
                id,
            ));
        }
        while j < nt
            invariant
                j <= nt,
                nt == self.targets.len(),
                self.targets@ == old(self).targets@,
                self.next_id == old(self).next_id,
                kept_targets@.map_values(|t: StoredTarget| t@) == spec_targets_without(
                    old(self)@.targets.subrange(0, j as int),
                    id,
                ),
            decreases nt - j,
        {
            let ghost pre = old(self)@.targets.subrange(0, j as int);
            let ghost cur = old(self)@.targets.subrange(0, j + 1);
            proof {
                assert(cur.drop_last() =~= pre);
                assert(cur.last() == old(self)@.targets[j as int]);
            }
            if self.targets[j].target.id != id {
                kept_targets.push(self.targets[j].duplicate());
                proof {
                    assert(kept_targets@.map_values(|t: StoredTarget| t@) =~= spec_targets_without(
                        cur,
                        id,
                    ));
                }
            } else {
                proof {
                    assert(kept_targets@.map_values(|t: StoredTarget| t@) =~= spec_targets_without(
                        cur,
                        id,
                    ));
                }
            }
            j += 1;
        }
        proof {
            assert(old(self)@.targets.subrange(0, nt as int) =~= old(self)@.targets);
        }
        self.targets = kept_targets;
        proof {
            if store_wf(old(self)@) {
                lemma_targets_without_wf(old(self)@.targets, id, old(self)@.next_id);
            }
        }
    }
}

/// Rows filtered by id keep the fresh-id bound.
proof fn lemma_targets_without_wf(s: Seq<StoredTargetV>, id: i64, bound: i64)
    requires
        forall|i: int| 0 <= i < s.len() ==> #[trigger] s[i].target.id < bound,
    ensures
        forall|i: int|
            0 <= i < spec_targets_without(s, id).len() ==> #[trigger] spec_targets_without(
                s,
                id,
            )[i].target.id < bound,
    decreases s.len(),
{
    if s.len() > 0 {
        lemma_targets_without_wf(s.drop_last(), id, bound);
    }
}

/// Law: a poll that persists the status already stored advances the
/// checked-at time and keeps the change time; the event row is appended all
/// the same.
pub proof fn lemma_unchanged_status_keeps_change_time(
    s: StoreV,
    i: int,
    tag: Seq<char>,
    now: i64,
    err: Option<Seq<char>>,
)
    requires
        0 <= i < s.targets.len(),
        s.targets[i].target.last_status == tag,
    ensures
        ({
            let s2 = spec_update_status(s, s.targets[i].target.id, tag, now, err);
            &&& s2.targets[i].last_change_at == s.targets[i].last_change_at
            &&& s2.targets[i].target.last_checked_at == Some(now)
            &&& s2.events.len() == s.events.len() + 1
        }),
{
}

} // verus!
