use killboard::daystring::parse_timestamp;
use killboard::digest::DigestResult;
use killboard::digest::LeaderboardResult;
use killboard::digest::get_kills_for_current_cycle;
use killboard::digest::get_leaderboard;
use killboard::digest::run_weekly_digest;
use killboard::events::RawRangeResponseEntry;
use killboard::ranking::get_sorted_weekly_summary;
use killboard::ranking::is_cmdr_in_result_set;
use killboard::select::select_rows;
use killboard::time::UtcInstant;

fn ts(s: &str) -> UtcInstant {
    parse_timestamp(s).unwrap()
}

fn raw(id: u64, timestamp: &str, killer: &str, victim: &str, location: &str) -> RawRangeResponseEntry {
    RawRangeResponseEntry {
        id,
        timestamp: timestamp.to_string(),
        killer_name: killer.to_string(),
        victim_name: victim.to_string(),
        location: location.to_string(),
    }
}

fn ranked(pairs: &[(&str, u32)]) -> Vec<(String, u32)> {
    pairs.iter().map(|p| (p.0.to_string(), p.1)).collect()
}

#[test]
fn convert_reads_timestamp_and_location() {
    let now = ts("2023-06-17 12:00:00");
    let e = raw(1, "2023-06-16 10:00:00", "Alice", "Bob", "UNKNOWN").convert(now);
    assert_eq!(e.timestamp.secs, ts("2023-06-16 10:00:00").secs);
    assert!(e.location.is_none());
    let e2 = raw(2, "2023-06-16 10:00:00", "Alice", "Bob", "unknown").convert(now);
    assert!(e2.location.is_none());
    let e3 = raw(3, "2023-06-16 10:00:00", "Alice", "Bob", "Deciat").convert(now);
    assert_eq!(e3.location.as_deref(), Some("Deciat"));
}

#[test]
fn convert_falls_back_to_now_on_a_bad_timestamp() {
    let now = ts("2023-06-17 12:00:00");
    let e = raw(1, "yesterday-ish", "Alice", "Bob", "Deciat").convert(now);
    assert_eq!(e.timestamp.secs, now.secs);
}

#[test]
fn cycle_filter_drops_out_of_window_events() {
    // Current window for this Saturday: 2023-06-15 08:00 .. 2023-06-22 08:00.
    let now = ts("2023-06-17 12:00:00");
    let batch = vec![
        raw(1, "2023-06-15 07:59:59", "Early", "X", "UNKNOWN"),
        raw(2, "2023-06-15 08:00:00", "OnStart", "X", "UNKNOWN"),
        raw(3, "2023-06-18 00:00:00", "Middle", "X", "UNKNOWN"),
        raw(4, "2023-06-22 08:00:00", "OnEnd", "X", "UNKNOWN"),
        raw(5, "2023-06-22 08:00:01", "Late", "X", "UNKNOWN"),
    ];
    let kept = get_kills_for_current_cycle(Ok(batch), now).unwrap();
    let names: Vec<&str> = kept.iter().map(|e| e.killer_name.as_str()).collect();
    assert_eq!(names, vec!["OnStart", "Middle", "OnEnd"]);
}

#[test]
fn cycle_passes_a_fetch_failure_through() {
    let now = ts("2023-06-17 12:00:00");
    let r = get_kills_for_current_cycle(Err("boom".to_string()), now);
    match r {
        Err(msg) => assert_eq!(msg.as_str(), "boom"),
        Ok(_) => panic!("expected the failure to pass through"),
    }
}

#[test]
fn aggregate_counts_and_sorts_descending() {
    let now = ts("2023-06-17 12:00:00");
    let batch = vec![
        raw(1, "2023-06-16 10:00:00", "Alice", "X", "UNKNOWN"),
        raw(2, "2023-06-16 11:00:00", "Bob", "X", "UNKNOWN"),
        raw(3, "2023-06-16 12:00:00", "Bob", "X", "UNKNOWN"),
        raw(4, "2023-06-16 13:00:00", "Carol", "X", "UNKNOWN"),
        raw(5, "2023-06-16 14:00:00", "Bob", "X", "UNKNOWN"),
        raw(6, "2023-06-16 15:00:00", "Carol", "X", "UNKNOWN"),
    ];
    let events = get_kills_for_current_cycle(Ok(batch), now).unwrap();
    let summary = get_sorted_weekly_summary(events);
    let view: Vec<(&str, u32)> = summary.iter().map(|p| (p.0.as_str(), p.1)).collect();
    assert_eq!(view, vec![("Bob", 3), ("Carol", 2), ("Alice", 1)]);
}

#[test]
fn aggregate_keeps_first_seen_order_on_ties() {
    let now = ts("2023-06-17 12:00:00");
    let batch = vec![
        raw(1, "2023-06-16 10:00:00", "Carol", "X", "UNKNOWN"),
        raw(2, "2023-06-16 10:10:00", "Alice", "X", "UNKNOWN"),
        raw(3, "2023-06-16 10:20:00", "Bob", "X", "UNKNOWN"),
        raw(4, "2023-06-16 10:30:00", "Bob", "X", "UNKNOWN"),
        raw(5, "2023-06-16 10:40:00", "Carol", "X", "UNKNOWN"),
        raw(6, "2023-06-16 10:50:00", "Alice", "X", "UNKNOWN"),
    ];
    let events = get_kills_for_current_cycle(Ok(batch), now).unwrap();
    let summary = get_sorted_weekly_summary(events);
    let view: Vec<(&str, u32)> = summary.iter().map(|p| (p.0.as_str(), p.1)).collect();
    assert_eq!(view, vec![("Carol", 2), ("Alice", 2), ("Bob", 2)]);
}

#[test]
fn aggregate_is_case_sensitive_in_storage() {
    let now = ts("2023-06-17 12:00:00");
    let batch = vec![
        raw(1, "2023-06-16 10:00:00", "alice", "X", "UNKNOWN"),
        raw(2, "2023-06-16 11:00:00", "Alice", "X", "UNKNOWN"),
    ];
    let events = get_kills_for_current_cycle(Ok(batch), now).unwrap();
    let summary = get_sorted_weekly_summary(events);
    assert_eq!(summary.len(), 2);
}

#[test]
fn empty_aggregate_selects_some_empty_rows() {
    let summary = get_sorted_weekly_summary(Vec::new());
    assert!(summary.is_empty());
    let rows = select_rows(&summary, &None).unwrap();
    assert!(rows.is_empty());
}

#[test]
fn select_absent_target_is_none() {
    let r = ranked(&[("Alice", 10), ("Bob", 3)]);
    assert!(select_rows(&r, &Some("nobody".to_string())).is_none());
    let empty: Vec<(String, u32)> = Vec::new();
    assert!(select_rows(&empty, &Some("Alice".to_string())).is_none());
}

#[test]
fn select_window_around_early_target() {
    let r = ranked(&[("A", 10), ("B", 9), ("C", 8), ("D", 7), ("E", 6), ("F", 5)]);
    let rows = select_rows(&r, &Some("D".to_string())).unwrap();
    let view: Vec<(u32, &str, u32, bool)> =
        rows.iter().map(|x| (x.position, x.cmdr.as_str(), x.kill_count, x.highlight)).collect();
    assert_eq!(
        view,
        vec![(1, "A", 10, false), (2, "B", 9, false), (3, "C", 8, false), (4, "D", 7, true)]
    );
}

#[test]
fn select_window_around_deep_target() {
    let r = ranked(&[
        ("A", 10),
        ("B", 9),
        ("C", 8),
        ("D", 7),
        ("E", 6),
        ("F", 5),
        ("G", 4),
        ("H", 3),
    ]);
    let rows = select_rows(&r, &Some("g".to_string())).unwrap();
    let view: Vec<(u32, &str, bool)> =
        rows.iter().map(|x| (x.position, x.cmdr.as_str(), x.highlight)).collect();
    assert_eq!(
        view,
        vec![(3, "C", false), (4, "D", false), (5, "E", false), (6, "F", false), (7, "G", true)]
    );
}

#[test]
fn select_top_caps_at_ten() {
    let r = ranked(&[
        ("A", 12),
        ("B", 11),
        ("C", 10),
        ("D", 9),
        ("E", 8),
        ("F", 7),
        ("G", 6),
        ("H", 5),
        ("I", 4),
        ("J", 3),
        ("K", 2),
        ("L", 1),
    ]);
    let rows = select_rows(&r, &None).unwrap();
    assert_eq!(rows.len(), 10);
    assert_eq!(rows[0].position, 1);
    assert_eq!(rows[9].position, 10);
    assert_eq!(rows[9].cmdr.as_str(), "J");
    assert!(rows.iter().all(|x| !x.highlight));
}

#[test]
fn cmdr_lookup_ignores_case() {
    let r = ranked(&[("Alice", 10)]);
    assert!(is_cmdr_in_result_set(&r, &"ALICE".to_string()));
    assert!(!is_cmdr_in_result_set(&r, &"Bob".to_string()));
}

#[test]
fn leaderboard_not_found_and_error() {
    let now = ts("2023-06-17 12:00:00");
    let r = get_leaderboard(now, Ok(Vec::new()), Some("Ghost".to_string()));
    match r {
        LeaderboardResult::NotFound(name) => assert_eq!(name.as_str(), "Ghost"),
        _ => panic!("expected NotFound"),
    }
    let r2 = get_leaderboard(now, Err("offline".to_string()), None);
    match r2 {
        LeaderboardResult::Error(msg) => assert_eq!(msg.as_str(), "offline"),
        _ => panic!("expected Error"),
    }
}

#[test]
fn leaderboard_highlights_the_target() {
    let now = ts("2023-06-17 12:00:00");
    let batch = vec![
        raw(1, "2023-06-16 10:00:00", "Alice", "X", "UNKNOWN"),
        raw(2, "2023-06-16 11:00:00", "Alice", "X", "UNKNOWN"),
        raw(3, "2023-06-16 12:00:00", "Bob", "X", "UNKNOWN"),
    ];
    let r = get_leaderboard(now, Ok(batch), Some("bob".to_string()));
    match r {
        LeaderboardResult::Rows(rows, window) => {
            assert_eq!(window.start.secs, ts("2023-06-15 08:00:00").secs);
            let view: Vec<(u32, &str, u32, bool)> = rows
                .iter()
                .map(|x| (x.position, x.cmdr.as_str(), x.kill_count, x.highlight))
                .collect();
            assert_eq!(view, vec![(1, "Alice", 2, false), (2, "Bob", 1, true)]);
        },
        _ => panic!("expected Rows"),
    }
}

// The digest scenario: twelve kills by Alice and three by Bob inside
// the window, one more by Alice outside it.
#[test]
fn digest_counts_only_the_window() {
    let now = ts("2023-06-15 08:00:00");
    let mut batch = Vec::new();
    for i in 0..12 {
        let t = format!("2023-06-10 10:{:02}:00", i);
        batch.push(raw(i, t.as_str(), "Alice", "X", "UNKNOWN"));
    }
    for i in 0..3 {
        let t = format!("2023-06-11 09:{:02}:00", i);
        batch.push(raw(100 + i, t.as_str(), "Bob", "X", "UNKNOWN"));
    }
    batch.push(raw(999, "2023-06-01 10:00:00", "Alice", "X", "UNKNOWN"));
    let r = run_weekly_digest(now, Ok(batch));
    match r {
        DigestResult::Summary(total, rows, window) => {
            assert_eq!(total, 15);
            assert_eq!(window.start.secs, ts("2023-06-08 08:00:00").secs);
            assert_eq!(window.end.secs, ts("2023-06-15 08:00:00").secs);
            let view: Vec<(u32, &str, u32)> =
                rows.iter().map(|x| (x.position, x.cmdr.as_str(), x.kill_count)).collect();
            assert_eq!(view, vec![(1, "Alice", 12), (2, "Bob", 3)]);
        },
        _ => panic!("expected Summary"),
    }
}

#[test]
fn digest_empty_and_error() {
    let now = ts("2023-06-15 08:00:00");
    match run_weekly_digest(now, Ok(Vec::new())) {
        DigestResult::Empty(window) => {
            assert_eq!(window.start.secs, ts("2023-06-08 08:00:00").secs);
        },
        _ => panic!("expected Empty"),
    }
    match run_weekly_digest(now, Err("offline".to_string())) {
        DigestResult::Error(msg) => assert_eq!(msg.as_str(), "offline"),
        _ => panic!("expected Error"),
    }
}
