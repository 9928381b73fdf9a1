//! Core logic of a PvP killboard chat bot: weekly leaderboard periods
//! anchored at Thursday 08:00 UTC, tolerant parsing and filtering of a
//! remote kill-event feed, rank aggregation with a stable descending
//! sort, and the selection policy that picks which rows to present.
//!
//! All I/O (the HTTP feed, the chat framework, the scheduler, the
//! process environment) lives outside this crate; the functions here
//! are pure transformations over plain values.
use vstd::prelude::*;

pub mod ascii;
pub mod calendar;
pub mod config;
pub mod daystring;
pub mod digest;
pub mod events;
pub mod ranking;
pub mod register;
pub mod select;
pub mod time;
pub mod username;
pub mod whois;
pub mod window;

verus! {

/// Per-invocation shared state handed to the command framework.
/// The commands need none, so the struct is empty.
pub struct Data {}

} // verus!
