//! Kill events from the remote feed. A raw record carries its
//! timestamp as text and its location as a bare string with an
//! "UNKNOWN" sentinel; conversion normalizes both. A malformed
//! timestamp does not discard the event or fail the batch: the
//! caller's current instant stands in for it.
use vstd::prelude::*;

use crate::ascii::ci_equal;
use crate::ascii::str_eq_ignore_case;
use crate::daystring::parse_timestamp;
use crate::daystring::parse_timestamp_chars;
use crate::time::UtcInstant;

verus! {

/// One feed record as received: the timestamp still text, the
/// location still carrying the sentinel.
pub struct RawRangeResponseEntry {
    pub id: u64,
    pub timestamp: String,
    pub killer_name: String,
    pub victim_name: String,
    pub location: String,
}

/// One kill event, normalized: timestamp resolved to a UTC instant,
/// unknown locations made absent.
pub struct RangeResponseEntry {
    pub id: u64,
    pub timestamp: UtcInstant,
    pub killer_name: String,
    pub victim_name: String,
    pub location: Option<String>,
}

/// The instant a raw record's timestamp names, or the fallback when
/// the text is not a well-formed `YYYY-MM-DD HH:MM:SS` timestamp.
pub open spec fn timestamp_or_fallback(raw_timestamp: Seq<char>, fallback: UtcInstant) -> UtcInstant {
    match parse_timestamp_chars(raw_timestamp) {
        Some(t) => UtcInstant { secs: t as u64 },
        None => fallback,
    }
}

/// The normalized event a raw record converts to.
pub open spec fn convert_spec(raw: RawRangeResponseEntry, fallback: UtcInstant) -> RangeResponseEntry {
    RangeResponseEntry {
        id: raw.id,
        timestamp: timestamp_or_fallback(raw.timestamp@, fallback),
        killer_name: raw.killer_name,
        victim_name: raw.victim_name,
        location: if ci_equal(raw.location@, "UNKNOWN"@) {
            None
        } else {
            Some(raw.location)
        },
    }
}

impl RawRangeResponseEntry {
    /// Normalize one feed record. The timestamp is read as UTC; when
    /// it cannot be read at all, `fallback_now` (the caller's current
    /// instant) stands in, so a single bad record never sinks the
    /// batch.
    pub fn convert(self, fallback_now: UtcInstant) -> (e: RangeResponseEntry)
        ensures
            e == convert_spec(self, fallback_now),
    {
        let timestamp: UtcInstant = match parse_timestamp(self.timestamp.as_str()) {
            Some(t) => t,
            None => fallback_now,
        };
        let location: Option<String> = if str_eq_ignore_case(self.location.as_str(), "UNKNOWN") {
            None
        } else {
            Some(self.location)
        };
        RangeResponseEntry {
            id: self.id,
            timestamp,
            killer_name: self.killer_name,
            victim_name: self.victim_name,
            location,
        }
    }
}

/// Is the event's timestamp inside the window, both bounds included?
/// The bounds are deliberately inclusive on both sides: the feed is
/// queried at day granularity, and the filter is the authority on
/// the true boundary.
pub open spec fn in_window(e: RangeResponseEntry, start: UtcInstant, end: UtcInstant) -> bool {
    start.secs <= e.timestamp.secs <= end.secs
}

/// The events of the batch that fall inside the window, in their
/// original order.
pub open spec fn window_filtered(
    events: Seq<RangeResponseEntry>,
    start: UtcInstant,
    end: UtcInstant,
) -> Seq<RangeResponseEntry> {
    events.filter(|e: RangeResponseEntry| in_window(e, start, end))
}

/// Keep exactly the events whose timestamps fall inside the window,
/// in their original order. Empty input gives empty output; there is
/// no failure case.
pub fn filter_events(events: Vec<RangeResponseEntry>, start: UtcInstant, end: UtcInstant) -> (r:
    Vec<RangeResponseEntry>)
    ensures
        r@ == window_filtered(events@, start, end),
{
    let ghost all = events@;
    let mut rest = events;
    let mut r: Vec<RangeResponseEntry> = Vec::new();
    let ghost mut k: int = 0;
    while rest.len() > 0
        invariant
            0 <= k <= all.len(),
            rest@ == all.skip(k),
            r@ == window_filtered(all.take(k), start, end),
        decreases rest.len(),
    {
        let e = rest.remove(0);
        proof {
            assert(e == all[k]);
            assert(all.skip(k).remove(0) =~= all.skip(k + 1));
            assert(all.take(k + 1) =~= all.take(k).push(e));
            lemma_window_filtered_push(all.take(k), e, start, end);
        }
        if start.secs <= e.timestamp.secs && e.timestamp.secs <= end.secs {
            r.push(e);
        }
        proof {
            k = k + 1;
        }
    }
    proof {
        assert(all.take(all.len() as int) =~= all);
    }
    r
}

/// One more event at the end of a batch passes the filter exactly
/// when it lies in the window.
proof fn lemma_window_filtered_push(
    s: Seq<RangeResponseEntry>,
    e: RangeResponseEntry,
    start: UtcInstant,
    end: UtcInstant,
)
    ensures
        window_filtered(s.push(e), start, end) == if in_window(e, start, end) {
            window_filtered(s, start, end).push(e)
        } else {
            window_filtered(s, start, end)
        },
{
    broadcast use Seq::lemma_filter_push;

}

/// Nothing the filter lets through lies outside the window: every
/// event of the filtered batch has its timestamp between the
/// window's bounds, both included.
pub proof fn lemma_filtered_events_in_window(
    events: Seq<RangeResponseEntry>,
    start: UtcInstant,
    end: UtcInstant,
)
    ensures
        forall|i: int|
            0 <= i < window_filtered(events, start, end).len() ==> in_window(
                #[trigger] window_filtered(events, start, end)[i],
                start,
                end,
            ),
{
    broadcast use vstd::seq_lib::group_filter_ensures;

}

} // verus!
