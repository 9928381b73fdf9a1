//! The two entry points the chat boundary calls, as pure
//! transformations: the on-demand leaderboard query and the
//! scheduled weekly digest. Both take the clock reading and the
//! outcome of the feed fetch as arguments; the fetch itself, and the
//! rendering of the results, live outside this crate. A failed fetch
//! is surfaced as a result value, never retried here.
use vstd::prelude::*;

use crate::events::RangeResponseEntry;
use crate::events::RawRangeResponseEntry;
use crate::events::convert_spec;
use crate::events::filter_events;
use crate::events::window_filtered;
use crate::ranking::entries_view;
use crate::ranking::get_sorted_weekly_summary;
use crate::ranking::isort;
use crate::ranking::killer_names;
use crate::ranking::lemma_isort_len;
use crate::ranking::lemma_tally_len;
use crate::ranking::tally;
use crate::select::DataRow;
use crate::select::find_ci;
use crate::select::rows_match_top;
use crate::select::rows_match_window;
use crate::select::select_rows;
use crate::time::SECS_PER_WEEK;
use crate::time::UtcInstant;
use crate::window::EARLIEST_SUPPORTED_SECS;
use crate::window::LATEST_SUPPORTED_SECS;
use crate::window::LeaderboardWindow;
use crate::window::closed_window_start;
use crate::window::current_window_start;
use crate::window::get_relevant_time_range;
use crate::window::get_relevant_time_range_summary;

verus! {

/// What the on-demand leaderboard query hands the presentation
/// boundary.
pub enum LeaderboardResult {
    /// The feed could not be fetched; the message to show.
    Error(String),
    /// The requested commander has no entry this period.
    NotFound(String),
    /// The rows to present, and the period they cover.
    Rows(Vec<DataRow>, LeaderboardWindow),
}

/// What the scheduled weekly digest hands the presentation boundary.
pub enum DigestResult {
    /// The feed could not be fetched; the message to show.
    Error(String),
    /// No kills at all in the period.
    Empty(LeaderboardWindow),
    /// Total kill count in the period, the top rows, and the period.
    Summary(usize, Vec<DataRow>, LeaderboardWindow),
}

/// Every raw record of a batch, normalized against the same
/// fallback instant.
pub open spec fn converted(raw: Seq<RawRangeResponseEntry>, fallback: UtcInstant) -> Seq<
    RangeResponseEntry,
> {
    raw.map_values(|r: RawRangeResponseEntry| convert_spec(r, fallback))
}

/// The current period as a window value.
pub open spec fn spec_current_window(now: UtcInstant) -> LeaderboardWindow {
    LeaderboardWindow {
        start: UtcInstant { secs: current_window_start(now.secs as int) as u64 },
        end: UtcInstant { secs: (current_window_start(now.secs as int) + SECS_PER_WEEK) as u64 },
    }
}

/// The just-closed period as a window value.
pub open spec fn spec_closed_window(now: UtcInstant) -> LeaderboardWindow {
    LeaderboardWindow {
        start: UtcInstant { secs: closed_window_start(now.secs as int) as u64 },
        end: UtcInstant { secs: (closed_window_start(now.secs as int) + SECS_PER_WEEK) as u64 },
    }
}

/// The normalized events of the current period: the fetched batch
/// converted, then filtered to the period's true bounds.
pub open spec fn current_cycle_events(raw: Seq<RawRangeResponseEntry>, now: UtcInstant) -> Seq<
    RangeResponseEntry,
> {
    window_filtered(converted(raw, now), spec_current_window(now).start, spec_current_window(now).end)
}

/// The normalized events of the just-closed period.
pub open spec fn closed_cycle_events(raw: Seq<RawRangeResponseEntry>, now: UtcInstant) -> Seq<
    RangeResponseEntry,
> {
    window_filtered(converted(raw, now), spec_closed_window(now).start, spec_closed_window(now).end)
}

/// The ranking a batch of period events aggregates to.
pub open spec fn cycle_ranking(events: Seq<RangeResponseEntry>) -> Seq<(Seq<char>, int)> {
    isort(tally(killer_names(events)))
}

/// Normalize a whole fetched batch, each record against the same
/// fallback instant.
pub fn convert_all(raw: Vec<RawRangeResponseEntry>, now: UtcInstant) -> (r: Vec<RangeResponseEntry>)
    ensures
        r@ == converted(raw@, now),
{
    let ghost all = raw@;
    let mut rest = raw;
    let mut out: Vec<RangeResponseEntry> = Vec::new();
    let ghost mut k: int = 0;
    while rest.len() > 0
        invariant
            0 <= k <= all.len(),
            rest@ == all.skip(k),
            out@ == converted(all.take(k), now),
        decreases rest.len(),
    {
        let raw_entry = rest.remove(0);
        proof {
            assert(raw_entry == all[k]);
            assert(all.skip(k).remove(0) =~= all.skip(k + 1));
        }
        let e = raw_entry.convert(now);
        out.push(e);
        proof {
            assert(out@ =~= converted(all.take(k + 1), now));
            k = k + 1;
        }
    }
    proof {
        assert(all.take(all.len() as int) =~= all);
    }
    out
}

/// The events of the current leaderboard cycle, given the outcome of
/// the feed fetch for the cycle's date range: a failed fetch is
/// passed through, a successful batch is normalized and filtered to
/// the cycle's exact window, which discards the slack the day-only
/// feed query lets in.
pub fn get_kills_for_current_cycle(
    fetched: Result<Vec<RawRangeResponseEntry>, String>,
    now: UtcInstant,
) -> (r: Result<Vec<RangeResponseEntry>, String>)
    requires
        EARLIEST_SUPPORTED_SECS <= now.secs <= LATEST_SUPPORTED_SECS,
    ensures
        fetched matches Err(e) ==> (r matches Err(e2) && e2 == e),
        fetched matches Ok(raw) ==> (r matches Ok(evs) && evs@ == current_cycle_events(raw@, now)),
{
    match fetched {
        Err(e) => Err(e),
        Ok(raw) => {
            let window = get_relevant_time_range(now);
            let events = convert_all(raw, now);
            Ok(filter_events(events, window.start, window.end))
        },
    }
}

/// Answer the on-demand leaderboard query: compute the current
/// period, normalize and filter the fetched batch, aggregate, and
/// select the rows — the global top ten, or the window around the
/// requested commander, or `NotFound` when that commander has no
/// kills this period. A failed fetch becomes `Error` with the
/// fetch's own message.
pub fn get_leaderboard(
    now: UtcInstant,
    fetched: Result<Vec<RawRangeResponseEntry>, String>,
    cmdr_name: Option<String>,
) -> (r: LeaderboardResult)
    requires
        EARLIEST_SUPPORTED_SECS <= now.secs <= LATEST_SUPPORTED_SECS,
        fetched matches Ok(raw) ==> raw@.len() <= u32::MAX,
    ensures
        fetched matches Err(e) ==> (r matches LeaderboardResult::Error(m) && m == e),
        fetched matches Ok(raw) ==> ({
            let g = cycle_ranking(current_cycle_events(raw@, now));
            &&& cmdr_name is None ==> (r matches LeaderboardResult::Rows(rows, w)
                && rows_match_top(rows@, g) && w == spec_current_window(now))
            &&& cmdr_name matches Some(n) ==> ({
                let fi = find_ci(g, n@);
                &&& fi == -1 ==> (r matches LeaderboardResult::NotFound(missing) && missing == n)
                &&& fi >= 0 ==> (r matches LeaderboardResult::Rows(rows, w) && rows_match_window(
                    rows@,
                    g,
                    fi,
                ) && w == spec_current_window(now))
            })
        }),
{
    let ghost fetched0 = fetched;
    let window = get_relevant_time_range(now);
    match get_kills_for_current_cycle(fetched, now) {
        Err(e) => LeaderboardResult::Error(e),
        Ok(events) => {
            proof {
                let raw0 = fetched0->Ok_0;
                lemma_cycle_len(raw0@, now, events@);
            }
            let ranked = get_sorted_weekly_summary(events);
            proof {
                lemma_ranking_len(events@, ranked@);
            }
            let selected = select_rows(&ranked, &cmdr_name);
            match selected {
                Some(rows) => LeaderboardResult::Rows(rows, window),
                None => {
                    match cmdr_name {
                        Some(n) => LeaderboardResult::NotFound(n),
                        None => vstd::pervasive::unreached(),
                    }
                },
            }
        },
    }
}

/// Produce the scheduled weekly digest for the period that just
/// closed: the total kill count of the period and the top rows, or
/// `Empty` when the period saw no kills at all, or `Error` carrying
/// a failed fetch's message.
pub fn run_weekly_digest(now: UtcInstant, fetched: Result<Vec<RawRangeResponseEntry>, String>) -> (r:
    DigestResult)
    requires
        EARLIEST_SUPPORTED_SECS <= now.secs <= LATEST_SUPPORTED_SECS,
        fetched matches Ok(raw) ==> raw@.len() <= u32::MAX,
    ensures
        fetched matches Err(e) ==> (r matches DigestResult::Error(m) && m == e),
        fetched matches Ok(raw) ==> ({
            let evs = closed_cycle_events(raw@, now);
            &&& evs.len() == 0 ==> (r matches DigestResult::Empty(w) && w == spec_closed_window(
                now,
            ))
            &&& evs.len() > 0 ==> (r matches DigestResult::Summary(total, rows, w) && total
                == evs.len() && rows_match_top(rows@, cycle_ranking(evs)) && w
                == spec_closed_window(now))
        }),
{
    match fetched {
        Err(e) => DigestResult::Error(e),
        Ok(raw) => {
            let ghost rawv = raw@;
            let window = get_relevant_time_range_summary(now);
            let events = filter_events(convert_all(raw, now), window.start, window.end);
            if events.len() == 0 {
                return DigestResult::Empty(window);
            }
            let total = events.len();
            proof {
                lemma_cycle_len(rawv, now, events@);
            }
            let ranked = get_sorted_weekly_summary(events);
            proof {
                lemma_ranking_len(events@, ranked@);
            }
            match select_rows(&ranked, &None) {
                Some(rows) => DigestResult::Summary(total, rows, window),
                None => vstd::pervasive::unreached(),
            }
        },
    }
}

/// Filtering a batch cannot lengthen it, so the period's events are
/// no more numerous than what the fetch returned.
proof fn lemma_cycle_len(raw: Seq<RawRangeResponseEntry>, now: UtcInstant, events: Seq<
    RangeResponseEntry,
>)
    requires
        events == current_cycle_events(raw, now) || events == closed_cycle_events(raw, now),
    ensures
        events.len() <= raw.len(),
{
    broadcast use vstd::seq_lib::group_filter_ensures;

    assert(converted(raw, now).len() == raw.len());
}

/// The ranking has at most one entry per period event.
proof fn lemma_ranking_len(events: Seq<RangeResponseEntry>, ranked: Seq<(String, u32)>)
    requires
        entries_view(ranked) == cycle_ranking(events),
    ensures
        ranked.len() <= events.len(),
{
    lemma_isort_len(tally(killer_names(events)));
    lemma_tally_len(killer_names(events));
    assert(entries_view(ranked).len() == ranked.len());
    assert(killer_names(events).len() == events.len());
}

} // verus!
