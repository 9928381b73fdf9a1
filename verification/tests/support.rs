use killboard::config::ConfigError;
use killboard::config::parse_u64;
use killboard::config::startup_check;
use killboard::register::TokenDecision;
use killboard::register::evaluate_token_response;
use killboard::username::convert_tag_to_username;
use killboard::whois::HistoryEntry;
use killboard::whois::HistoryEntryJson;
use killboard::whois::HistoryEventType;
use killboard::whois::whois_request_path;

fn history_record(killer: &str, victim: &str, location: Option<&str>) -> HistoryEntryJson {
    HistoryEntryJson {
        timestamp: "2023-06-16 10:00:00".to_string(),
        killer_name: killer.to_string(),
        killer_ship: "Vulture".to_string(),
        killer_rank: "Elite".to_string(),
        victim_name: victim.to_string(),
        victim_ship: "Sidewinder".to_string(),
        victim_rank: "Harmless".to_string(),
        location: location.map(|s| s.to_string()),
    }
}

#[test]
fn parse_u64_exact_values() {
    assert_eq!(parse_u64("0"), Some(0));
    assert_eq!(parse_u64("123"), Some(123));
    assert_eq!(parse_u64("+5"), Some(5));
    assert_eq!(parse_u64("007"), Some(7));
    assert_eq!(parse_u64("18446744073709551615"), Some(u64::MAX));
}

#[test]
fn parse_u64_rejects_bad_shapes() {
    assert_eq!(parse_u64(""), None);
    assert_eq!(parse_u64("+"), None);
    assert_eq!(parse_u64("-1"), None);
    assert_eq!(parse_u64("12a"), None);
    assert_eq!(parse_u64(" 12"), None);
    assert_eq!(parse_u64("18446744073709551616"), None);
}

#[test]
fn startup_check_accepts_a_full_environment() {
    let env = startup_check(
        Some("tok".to_string()),
        Some("123".to_string()),
        Some("https://killboard.example".to_string()),
        Some("tok".to_string()),
        Some("44".to_string()),
        Some("55".to_string()),
        Some("66".to_string()),
        None,
    )
    .unwrap();
    assert_eq!(env.guild_id(), 123);
    assert_eq!(env.role_auth(), 44);
    assert_eq!(env.role_admin(), 55);
    assert_eq!(env.discord_weekly_update_channel_id(), 66);
    assert_eq!(env.server_address().as_str(), "https://killboard.example");
    assert_eq!(env.weekly_summary_cron().as_str(), "0 0 8 * * Thu");
}

#[test]
fn startup_check_keeps_a_cron_override() {
    let env = startup_check(
        Some("tok".to_string()),
        Some("1".to_string()),
        Some("addr".to_string()),
        Some("tok".to_string()),
        Some("2".to_string()),
        Some("3".to_string()),
        Some("4".to_string()),
        Some("0 30 9 * * Fri".to_string()),
    )
    .unwrap();
    assert_eq!(env.weekly_summary_cron().as_str(), "0 30 9 * * Fri");
}

#[test]
fn startup_check_reports_every_missing_variable() {
    let r = startup_check(
        None,
        Some("1".to_string()),
        None,
        Some("tok".to_string()),
        Some("2".to_string()),
        None,
        Some("4".to_string()),
        None,
    );
    match r {
        Err(ConfigError::MissingVariables(v)) => {
            let names: Vec<&str> = v.iter().map(|s| s.as_str()).collect();
            assert_eq!(names, vec!["DISCORD_TOKEN", "DATA_SERVER_ADDRESS", "ROLE_ADMINISTRATOR"]);
        },
        _ => panic!("expected MissingVariables"),
    }
}

#[test]
fn startup_check_reports_every_non_integer_variable() {
    let r = startup_check(
        Some("tok".to_string()),
        Some("abc".to_string()),
        Some("addr".to_string()),
        Some("tok".to_string()),
        Some("2".to_string()),
        Some("x3".to_string()),
        Some("4".to_string()),
        None,
    );
    match r {
        Err(ConfigError::NonIntegerVariables(v)) => {
            let names: Vec<&str> = v.iter().map(|s| s.as_str()).collect();
            assert_eq!(names, vec!["GGI_GUILD_ID", "ROLE_ADMINISTRATOR"]);
        },
        _ => panic!("expected NonIntegerVariables"),
    }
}

#[test]
fn token_response_banned_wins() {
    let r = evaluate_token_response(Some(true), Some("key".to_string()));
    assert!(matches!(r, TokenDecision::Banned));
}

#[test]
fn token_response_grants_the_token() {
    let r = evaluate_token_response(Some(false), Some("key".to_string()));
    match r {
        TokenDecision::Granted(t) => assert_eq!(t.as_str(), "key"),
        _ => panic!("expected Granted"),
    }
    let r2 = evaluate_token_response(None, Some("key2".to_string()));
    assert!(matches!(r2, TokenDecision::Granted(_)));
}

#[test]
fn token_response_missing_token() {
    let r = evaluate_token_response(None, None);
    assert!(matches!(r, TokenDecision::MissingToken));
}

#[test]
fn tag_to_username_cuts_at_the_first_hash() {
    assert_eq!(convert_tag_to_username("Foo#1234".to_string()).as_str(), "Foo");
    assert_eq!(convert_tag_to_username("NoHashHere".to_string()).as_str(), "NoHashHere");
    assert_eq!(convert_tag_to_username("#123".to_string()).as_str(), "");
    assert_eq!(convert_tag_to_username("a#b#c".to_string()).as_str(), "a");
    assert_eq!(convert_tag_to_username(String::new()).as_str(), "");
}

#[test]
fn whois_path_encodes_the_name() {
    let p = whois_request_path("https://killboard.example", "a b/c");
    assert_eq!(p.as_str(), "https://killboard.example/api/bot/user/a%20b%2Fc");
    let p2 = whois_request_path("https://killboard.example", "Plain-Name_1.2~");
    assert_eq!(p2.as_str(), "https://killboard.example/api/bot/user/Plain-Name_1.2~");
}

#[test]
fn history_classifies_kills_and_deaths() {
    let kill = HistoryEntry::from_json(&history_record("Alice", "Bob", Some("Deciat")), "alice".to_string())
        .unwrap();
    assert_eq!(kill.event_type, HistoryEventType::Killed);
    assert_eq!(kill.other_cmdr.as_str(), "Bob");
    assert_eq!(kill.location.as_deref(), Some("Deciat"));

    let death = HistoryEntry::from_json(&history_record("Alice", "Bob", None), "BOB".to_string())
        .unwrap();
    assert_eq!(death.event_type, HistoryEventType::Died);
    assert_eq!(death.other_cmdr.as_str(), "Alice");
    assert!(death.location.is_none());

    let other = HistoryEntry::from_json(&history_record("Alice", "Bob", None), "Carol".to_string());
    assert!(other.is_none());
}

#[test]
fn history_hides_unknown_locations() {
    let e = HistoryEntry::from_json(
        &history_record("Alice", "Bob", Some("Unknown Region")),
        "Alice".to_string(),
    )
    .unwrap();
    assert!(e.location.is_none());
}
