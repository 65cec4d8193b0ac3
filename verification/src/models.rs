//! Data shapes shared by the store and the engine.

use vstd::prelude::*;

verus! {

/// Spec image of an optional owned string.
pub open spec fn opt_string_view(o: Option<String>) -> Option<Seq<char>> {
    match o {
        Some(s) => Some(s@),
        None => None,
    }
}

/// One monitored page with its polling cadences and last persisted state.
#[derive(Debug, Clone)]
pub struct Target {
    pub id: i64,
    pub label: String,
    pub url: String,
    pub cheval: Option<String>,
    pub cavalier: Option<String>,
    pub interval_normal_sec: i64,
    pub interval_hot_sec: i64,
    pub hot_from: Option<String>,
    pub hot_to: Option<String>,
    pub last_status: String,
    pub last_checked_at: Option<i64>,
    pub last_error: Option<String>,
    pub last_slots: Option<i32>,
}

/// Mathematical image of a `Target`.
pub ghost struct TargetV {
    pub id: i64,
    pub label: Seq<char>,
    pub url: Seq<char>,
    pub cheval: Option<Seq<char>>,
    pub cavalier: Option<Seq<char>>,
    pub interval_normal_sec: i64,
    pub interval_hot_sec: i64,
    pub hot_from: Option<Seq<char>>,
    pub hot_to: Option<Seq<char>>,
    pub last_status: Seq<char>,
    pub last_checked_at: Option<i64>,
    pub last_error: Option<Seq<char>>,
    pub last_slots: Option<int>,
}

impl View for Target {
    type V = TargetV;

    open spec fn view(&self) -> TargetV {
        TargetV {
            id: self.id,
            label: self.label@,
            url: self.url@,
            cheval: opt_string_view(self.cheval),
            cavalier: opt_string_view(self.cavalier),
            interval_normal_sec: self.interval_normal_sec,
            interval_hot_sec: self.interval_hot_sec,
            hot_from: opt_string_view(self.hot_from),
            hot_to: opt_string_view(self.hot_to),
            last_status: self.last_status@,
            last_checked_at: self.last_checked_at,
            last_error: opt_string_view(self.last_error),
            last_slots: (match self.last_slots {
                Some(v) => Some(v as int),
                None => None,
            }),
        }
    }
}

/// User-supplied fields for a new target; intervals default and are clamped
/// by the store on insertion.
#[derive(Debug, Clone)]
pub struct AddTargetPayload {
    pub label: String,
    pub url: String,
    pub cheval: Option<String>,
    pub cavalier: Option<String>,
    pub interval_normal_sec: Option<i64>,
    pub interval_hot_sec: Option<i64>,
    pub hot_from: Option<String>,
    pub hot_to: Option<String>,
}

/// Mathematical image of an `AddTargetPayload`.
pub ghost struct AddTargetPayloadV {
    pub label: Seq<char>,
    pub url: Seq<char>,
    pub cheval: Option<Seq<char>>,
    pub cavalier: Option<Seq<char>>,
    pub interval_normal_sec: Option<i64>,
    pub interval_hot_sec: Option<i64>,
    pub hot_from: Option<Seq<char>>,
    pub hot_to: Option<Seq<char>>,
}

impl View for AddTargetPayload {
    type V = AddTargetPayloadV;

    open spec fn view(&self) -> AddTargetPayloadV {
        AddTargetPayloadV {
            label: self.label@,
            url: self.url@,
            cheval: opt_string_view(self.cheval),
            cavalier: opt_string_view(self.cavalier),
            interval_normal_sec: self.interval_normal_sec,
            interval_hot_sec: self.interval_hot_sec,
            hot_from: opt_string_view(self.hot_from),
            hot_to: opt_string_view(self.hot_to),
        }
    }
}

/// String equality over views.
pub fn string_eq(a: &String, b: &String) -> (r: bool)
    ensures
        r == (a@ == b@),
{
    *a == *b
}

/// Field-exact copy of an optional string.
pub fn copy_opt_string(o: &Option<String>) -> (r: Option<String>)
    ensures
        r == *o,
{
    match o {
        Some(s) => Some(s.clone()),
        None => None,
    }
}

impl Target {
    /// Field-exact copy: the copy equals this value.
    pub fn duplicate(&self) -> (t: Target)
        ensures
            t == *self,
    {
        Target {
            id: self.id,
            label: self.label.clone(),
            url: self.url.clone(),
            cheval: copy_opt_string(&self.cheval),
            cavalier: copy_opt_string(&self.cavalier),
            interval_normal_sec: self.interval_normal_sec,
            interval_hot_sec: self.interval_hot_sec,
            hot_from: copy_opt_string(&self.hot_from),
            hot_to: copy_opt_string(&self.hot_to),
            last_status: self.last_status.clone(),
            last_checked_at: self.last_checked_at,
            last_error: copy_opt_string(&self.last_error),
            last_slots: self.last_slots,
        }
    }
}

} // verus!
