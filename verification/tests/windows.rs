use killboard::daystring::get_query_string_for_api_call;
use killboard::daystring::parse_day;
use killboard::daystring::parse_timestamp;
use killboard::time::UtcInstant;
use killboard::window::get_relevant_time_range;
use killboard::window::get_relevant_time_range_summary;

fn ts(s: &str) -> UtcInstant {
    parse_timestamp(s).unwrap()
}

// 2023-06-15 was a Thursday.
#[test]
fn current_window_mid_week() {
    let w = get_relevant_time_range(ts("2023-06-17 12:34:56"));
    assert_eq!(w.start.secs, ts("2023-06-15 08:00:00").secs);
    assert_eq!(w.end.secs, ts("2023-06-22 08:00:00").secs);
}

#[test]
fn current_window_is_seven_days() {
    let w = get_relevant_time_range(ts("2024-01-01 00:00:00"));
    assert_eq!(w.end.secs - w.start.secs, 7 * 86400);
    assert_eq!(w.start.secs % 86400, 8 * 3600);
}

#[test]
fn current_window_thursday_before_eight() {
    let before = get_relevant_time_range(ts("2023-06-15 07:59:00"));
    let after = get_relevant_time_range(ts("2023-06-15 08:00:00"));
    assert_eq!(before.start.secs, ts("2023-06-08 08:00:00").secs);
    assert_eq!(after.start.secs, ts("2023-06-15 08:00:00").secs);
    assert_eq!(before.start.secs + 7 * 86400, after.start.secs);
}

#[test]
fn current_window_thursday_after_eight() {
    let w = get_relevant_time_range(ts("2023-06-15 08:00:01"));
    assert_eq!(w.start.secs, ts("2023-06-15 08:00:00").secs);
}

#[test]
fn closed_window_at_trigger_instant() {
    let w = get_relevant_time_range_summary(ts("2023-06-15 08:00:00"));
    assert_eq!(w.start.secs, ts("2023-06-08 08:00:00").secs);
    assert_eq!(w.end.secs, ts("2023-06-15 08:00:00").secs);
}

#[test]
fn closed_window_mid_week_matches_current() {
    let now = ts("2023-06-17 12:00:00");
    let closed = get_relevant_time_range_summary(now);
    let current = get_relevant_time_range(now);
    assert_eq!(closed.start.secs, current.start.secs);
    assert_eq!(closed.end.secs, current.end.secs);
}

#[test]
fn query_string_adds_a_day_to_the_upper_bound() {
    let start = ts("2023-06-15 08:00:00");
    let end = ts("2023-06-22 08:00:00");
    let q = get_query_string_for_api_call(start, end);
    assert_eq!(q.as_str(), "?from=2023-06-15&to=2023-06-23");
}

#[test]
fn query_string_crosses_month_and_year() {
    let start = ts("2023-12-28 08:00:00");
    let end = ts("2024-01-04 08:00:00");
    let q = get_query_string_for_api_call(start, end);
    assert_eq!(q.as_str(), "?from=2023-12-28&to=2024-01-05");
}

#[test]
fn day_round_trip_through_query_bounds() {
    let d = parse_day("2024-02-29");
    assert_eq!(d, Some((2024, 2, 29)));
}

#[test]
fn parse_day_rejects_bad_shapes() {
    assert_eq!(parse_day("2023-02-29"), None);
    assert_eq!(parse_day("1969-12-31"), None);
    assert_eq!(parse_day("2023-13-01"), None);
    assert_eq!(parse_day("2023-00-10"), None);
    assert_eq!(parse_day("2023-06-00"), None);
    assert_eq!(parse_day("2023/06/15"), None);
    assert_eq!(parse_day("23-06-15"), None);
    assert_eq!(parse_day(""), None);
}

#[test]
fn parse_timestamp_exact_values() {
    assert_eq!(parse_timestamp("1970-01-01 00:00:01").unwrap().secs, 1);
    assert_eq!(parse_timestamp("1970-01-02 00:00:00").unwrap().secs, 86400);
    assert_eq!(parse_timestamp("2024-02-29 12:00:00").unwrap().secs, 1709208000);
    assert_eq!(parse_timestamp("9999-12-31 23:59:59").unwrap().secs, 253402300799);
}

#[test]
fn parse_timestamp_rejects_bad_shapes() {
    assert!(parse_timestamp("2023-06-15 24:00:00").is_none());
    assert!(parse_timestamp("2023-06-15 12:60:00").is_none());
    assert!(parse_timestamp("2023-06-15 12:00:60").is_none());
    assert!(parse_timestamp("2023-06-15T12:00:00").is_none());
    assert!(parse_timestamp("2023-06-15 12:00").is_none());
    assert!(parse_timestamp("not a timestamp at all").is_none());
}
