//! Monitoring engine for competition registration pages.
//!
//! The library holds the verified core of a page watcher: a keyword-based
//! status classifier, an `X / Y` ratio extractor for remaining slots, an
//! in-memory model of the target store with its change-time invariant, and
//! the per-poll decisions of the scheduler (debounce, notifications, pacing).
//! Fetching, persistence and the asynchronous loop itself live outside the
//! library and hand it plain values.

pub mod detect;
pub mod epreuves;
pub mod models;
pub mod store;
pub mod watcher;
