//! Leaderboard periods. A period runs from one weekly anchor (Thursday
//! 08:00:00 UTC) to the next, seven days later. Two variants are
//! needed, and their offset tables differ only on Thursdays:
//!
//! * the *current* period, used by the on-demand leaderboard query:
//!   on a Thursday at or after 08:00 the period starting that morning
//!   is already the current one (offset 0);
//! * the *just-closed* period, used by the scheduled digest, which
//!   fires exactly when a period ends: there "today is Thursday"
//!   means the period that started seven days ago just finished
//!   (offset 7, never 0).
//!
//! The asymmetry is deliberate and load-bearing; do not unify the two
//! tables.
use vstd::arithmetic::div_mod::lemma_fundamental_div_mod;
use vstd::arithmetic::div_mod::lemma_fundamental_div_mod_converse;
use vstd::arithmetic::div_mod::lemma_mod_multiples_basic;
use vstd::prelude::*;

use crate::time::ANCHOR_SECS_OF_DAY;
use crate::time::SECS_PER_DAY;
use crate::time::SECS_PER_HOUR;
use crate::time::SECS_PER_MINUTE;
use crate::time::SECS_PER_WEEK;
use crate::time::UtcInstant;
use crate::time::Weekday;
use crate::time::epoch_day_of;
use crate::time::hour_of;
use crate::time::sec_of_day_of;

verus! {

/// A leaderboard period: `end` is always exactly seven days after
/// `start`, and `start` falls on the weekly anchor.
#[derive(Clone, Copy, PartialEq, Eq, Structural, Debug)]
pub struct LeaderboardWindow {
    pub start: UtcInstant,
    pub end: UtcInstant,
}

/// Lowest `now` the period computations accept: one week past the
/// epoch, so that subtracting up to seven days cannot underflow.
pub const EARLIEST_SUPPORTED_SECS: u64 = 604800;

/// Highest `now` the period computations accept, leaving room to add
/// a week without overflowing a `u64`. Far beyond any real clock.
pub const LATEST_SUPPORTED_SECS: u64 = 0xFFFF_FFFF_0000_0000;

/// Days back from `t` to the anchor that starts the period `t` lives
/// in. This is the count of days since the last Thursday, except that
/// a Thursday before 08:00 still belongs to the previous period.
pub open spec fn current_offset_days(t: int) -> int {
    if epoch_day_of(t) % 7 == 0 && hour_of(t) < 8 {
        7
    } else {
        epoch_day_of(t) % 7
    }
}

/// Days back from `t` to the anchor that starts the period *ending*
/// at `t`. On a Thursday the offset is seven, never zero: the digest
/// runs at the instant a period closes, and must report the period
/// that just finished.
pub open spec fn closed_offset_days(t: int) -> int {
    if epoch_day_of(t) % 7 == 0 {
        7
    } else {
        epoch_day_of(t) % 7
    }
}

/// Start instant of the current period: go back the offset in days,
/// then pin the time of day to exactly 08:00:00 UTC.
pub open spec fn current_window_start(t: int) -> int {
    (epoch_day_of(t) - current_offset_days(t)) * (SECS_PER_DAY as int) + ANCHOR_SECS_OF_DAY
}

/// Start instant of the just-closed period.
pub open spec fn closed_window_start(t: int) -> int {
    (epoch_day_of(t) - closed_offset_days(t)) * (SECS_PER_DAY as int) + ANCHOR_SECS_OF_DAY
}

impl LeaderboardWindow {
    pub open spec fn is_current_for(self, now: UtcInstant) -> bool {
        &&& self.start.secs == current_window_start(now.secs as int)
        &&& self.end.secs == self.start.secs + SECS_PER_WEEK
    }

    pub open spec fn is_closed_for(self, now: UtcInstant) -> bool {
        &&& self.start.secs == closed_window_start(now.secs as int)
        &&& self.end.secs == self.start.secs + SECS_PER_WEEK
    }
}

/// Days back to the start of the current period, by weekday, with the
/// Thursday-morning special case. Mirrors `current_offset_days`.
fn current_offset(now: UtcInstant) -> (off: u64)
    requires
        now.secs >= EARLIEST_SUPPORTED_SECS,
    ensures
        off == current_offset_days(now.secs as int),
        off <= 7,
{
    let offset_to_end: u64 = match now.weekday() {
        Weekday::Monday => 4,
        Weekday::Tuesday => 5,
        Weekday::Wednesday => 6,
        Weekday::Thursday => 0,
        Weekday::Friday => 1,
        Weekday::Saturday => 2,
        Weekday::Sunday => 3,
    };
    if offset_to_end == 0 && now.hour() < 8 {
        7
    } else {
        offset_to_end
    }
}

/// The period the instant `now` falls in: from the most recent
/// past-or-current Thursday 08:00 UTC to the Thursday 08:00 a week
/// later. Used by the on-demand leaderboard query.
pub fn get_relevant_time_range(now: UtcInstant) -> (w: LeaderboardWindow)
    requires
        EARLIEST_SUPPORTED_SECS <= now.secs <= LATEST_SUPPORTED_SECS,
    ensures
        w.is_current_for(now),
{
    let offset: u64 = current_offset(now);
    window_from_offset(now, offset)
}

/// The period that ends at (or just before) `now`: on a Thursday the
/// anchor is a full week back. Used by the scheduled weekly digest.
pub fn get_relevant_time_range_summary(now: UtcInstant) -> (w: LeaderboardWindow)
    requires
        EARLIEST_SUPPORTED_SECS <= now.secs <= LATEST_SUPPORTED_SECS,
    ensures
        w.is_closed_for(now),
{
    let offset_to_end: u64 = match now.weekday() {
        Weekday::Monday => 4,
        Weekday::Tuesday => 5,
        Weekday::Wednesday => 6,
        Weekday::Thursday => 7,
        Weekday::Friday => 1,
        Weekday::Saturday => 2,
        Weekday::Sunday => 3,
    };
    window_from_offset(now, offset_to_end)
}

/// Shared tail of both period computations: step back `offset` days
/// from `now`, force the time of day to 08:00:00 UTC, and close the
/// period seven days later.
fn window_from_offset(now: UtcInstant, offset: u64) -> (w: LeaderboardWindow)
    requires
        EARLIEST_SUPPORTED_SECS <= now.secs <= LATEST_SUPPORTED_SECS,
        offset <= 7,
    ensures
        w.start.secs == (epoch_day_of(now.secs as int) - offset) * (SECS_PER_DAY as int)
            + ANCHOR_SECS_OF_DAY,
        w.end.secs == w.start.secs + SECS_PER_WEEK,
{
    let day: u64 = now.secs / SECS_PER_DAY;
    proof {
        lemma_fundamental_div_mod(now.secs as int, SECS_PER_DAY as int);
    }
    let start_secs: u64 = (day - offset) * SECS_PER_DAY + ANCHOR_SECS_OF_DAY;
    let end_secs: u64 = start_secs + SECS_PER_WEEK;
    LeaderboardWindow { start: UtcInstant { secs: start_secs }, end: UtcInstant { secs: end_secs } }
}

/// The current period is always exactly seven days long, its start
/// has time of day exactly 08:00:00 UTC, and the start falls on the
/// anchor weekday (a Thursday). Moreover `now` itself lies inside the
/// period.
pub proof fn lemma_current_window_shape(now: UtcInstant)
    requires
        EARLIEST_SUPPORTED_SECS <= now.secs <= LATEST_SUPPORTED_SECS,
    ensures
        current_window_start(now.secs as int) % (SECS_PER_DAY as int) == ANCHOR_SECS_OF_DAY,
        epoch_day_of(current_window_start(now.secs as int)) % 7 == 0,
        current_window_start(now.secs as int) <= now.secs < current_window_start(now.secs as int)
            + SECS_PER_WEEK,
{
    let t = now.secs as int;
    let day = epoch_day_of(t);
    let off = current_offset_days(t);
    let start = current_window_start(t);
    lemma_fundamental_div_mod(t, SECS_PER_DAY as int);
    lemma_fundamental_div_mod(t % (SECS_PER_DAY as int), SECS_PER_HOUR as int);
    lemma_fundamental_div_mod_converse(start, SECS_PER_DAY as int, day - off, ANCHOR_SECS_OF_DAY as int);
    lemma_fundamental_div_mod(day, 7);
    if off == 7 {
        lemma_fundamental_div_mod_converse(day - off, 7, day / 7 - 1, 0);
    } else {
        lemma_fundamental_div_mod_converse(day - off, 7, day / 7, 0);
    }
}

/// The just-closed period has the same anchor shape. At the instant
/// the scheduled digest fires — a Thursday at exactly 08:00 UTC —
/// `now` is exactly the period's end, seven days after its start.
pub proof fn lemma_closed_window_shape(now: UtcInstant)
    requires
        EARLIEST_SUPPORTED_SECS <= now.secs <= LATEST_SUPPORTED_SECS,
    ensures
        closed_window_start(now.secs as int) % (SECS_PER_DAY as int) == ANCHOR_SECS_OF_DAY,
        epoch_day_of(closed_window_start(now.secs as int)) % 7 == 0,
        closed_window_start(now.secs as int) < now.secs < closed_window_start(now.secs as int)
            + SECS_PER_WEEK + SECS_PER_DAY,
        epoch_day_of(now.secs as int) % 7 == 0 && sec_of_day_of(now.secs as int)
            == ANCHOR_SECS_OF_DAY ==> now.secs == closed_window_start(now.secs as int)
            + SECS_PER_WEEK,
{
    let t = now.secs as int;
    let day = epoch_day_of(t);
    let off = closed_offset_days(t);
    let start = closed_window_start(t);
    lemma_fundamental_div_mod(t, SECS_PER_DAY as int);
    lemma_fundamental_div_mod_converse(start, SECS_PER_DAY as int, day - off, ANCHOR_SECS_OF_DAY as int);
    lemma_fundamental_div_mod(day, 7);
    if off == 7 {
        lemma_fundamental_div_mod_converse(day - off, 7, day / 7 - 1, 0);
    } else {
        lemma_fundamental_div_mod_converse(day - off, 7, day / 7, 0);
    }
}

/// On any Thursday, asking for the current period at 07:59 UTC gives
/// a start exactly seven days before the start given at 08:00 UTC on
/// the same calendar day: the period rolls over at 08:00 sharp.
pub proof fn lemma_thursday_rollover(day: int)
    requires
        day % 7 == 0,
        7 <= day <= 0xFFFF_FFFF,
    ensures
        current_window_start(
            day * (SECS_PER_DAY as int) + 7 * (SECS_PER_HOUR as int) + 59 * (SECS_PER_MINUTE as int),
        ) + SECS_PER_WEEK == current_window_start(
            day * (SECS_PER_DAY as int) + 8 * (SECS_PER_HOUR as int),
        ),
{
    let before = day * (SECS_PER_DAY as int) + 7 * (SECS_PER_HOUR as int) + 59 * (
    SECS_PER_MINUTE as int);
    let at = day * (SECS_PER_DAY as int) + 8 * (SECS_PER_HOUR as int);
    lemma_fundamental_div_mod_converse(before, SECS_PER_DAY as int, day, 28740);
    lemma_fundamental_div_mod_converse(at, SECS_PER_DAY as int, day, 28800);
    lemma_fundamental_div_mod_converse(28740, SECS_PER_HOUR as int, 7, 3540);
    lemma_fundamental_div_mod_converse(28800, SECS_PER_HOUR as int, 8, 0);
}

} // verus!
