//! Keyboard activity statistics: key classification, shortcut labels,
//! per-day counters and the summaries shown on the dashboard.
use vstd::prelude::*;

pub mod clock;
pub mod counts;
pub mod dashboard;
pub mod key_laws;
pub mod keys;
pub mod laws;
pub mod listener;
pub mod map;
pub mod runtime;
pub mod stats;
pub mod storage;
pub mod text;

verus! {
} // verus!
