use judge::score::{check_for_plagiarism, Score, TestResult};
use judge::teams::AdaptiveCard;
use judge::settings::{ChallengeConfig, Instant, Settings, SettingsError, Status};
use judge::text::{decimal_string, parse_unsigned, NumError};

fn score(name: &str, hash: &str, language: &str) -> Score {
    Score::new(name, "./run", 0, hash.to_string(), language)
}

#[test]
fn plagiarism_marks_copied_binary() {
    let previous = vec![score("bob", "h1", "c"), score("carol", "h2", "rust"), score("dave", "h2", "go")];
    let r = check_for_plagiarism(TestResult::Success(score("alice", "h2", "c")), &previous);
    match r {
        TestResult::Stolen(thief, victim) => {
            assert_eq!(thief.name, "alice");
            assert_eq!(victim.name, "carol");
        }
        _ => panic!("expected a stolen result"),
    }
}

#[test]
fn plagiarism_ignores_own_resubmission() {
    let previous = vec![score("alice", "h2", "c")];
    let r = check_for_plagiarism(TestResult::Success(score("alice", "h2", "c")), &previous);
    assert!(matches!(r, TestResult::Success(s) if s.name == "alice"));
}

#[test]
fn plagiarism_keeps_failures() {
    let previous = vec![score("bob", "h1", "c")];
    let r = check_for_plagiarism(TestResult::Fail("boom".to_string()), &previous);
    assert!(matches!(r, TestResult::Fail(m) if m == "boom"));
}

#[test]
fn unique_players_keeps_first_of_each() {
    let input = vec![score("a", "1", "c"), score("b", "2", "c"), score("a", "3", "c"), score("c", "4", "c"), score("d", "5", "c")];
    let all: Vec<String> = AdaptiveCard::filter_unique_players(&input, None).iter().map(|s| s.name.clone()).collect();
    assert_eq!(all, vec!["a", "b", "c", "d"]);
    let kept = AdaptiveCard::filter_unique_players(&input, Some(2));
    assert_eq!(kept.len(), 2);
    assert_eq!(kept[0].hash, "1");
    assert_eq!(kept[1].name, "b");
    let first = AdaptiveCard::filter_unique_players(&input, Some(0));
    assert_eq!(first.len(), 1);
    assert_eq!(first[0].hash, "1");
    assert!(AdaptiveCard::filter_unique_players(&Vec::new(), Some(0)).is_empty());
}

fn config(id: &str, prize: &str, status: Status) -> ChallengeConfig {
    let mut c = ChallengeConfig::new(id.to_string(), String::new(), String::new(), prize.to_string());
    c.status = status;
    c
}

#[test]
fn prize_goes_to_first_in_language() {
    let c = config("2331", "rust", Status::Active);
    assert_eq!(c.gets_a_prize("rust", &vec![score("a", "1", "c")]), Ok(true));
    assert_eq!(c.gets_a_prize("c", &vec![]), Ok(false));
    let previous = vec![score("a", "1", "rust")];
    assert_eq!(c.gets_a_prize("rust", &previous), Ok(false));
    let settings = Settings { challenges: vec![c] };
    assert_eq!(settings.gets_a_prize("2331", "rust", &vec![]), Ok(true));
    assert_eq!(settings.gets_a_prize("9999", "rust", &vec![]), Err(SettingsError::ChallengeNotFound));
    assert_eq!(SettingsError::ChallengeNotFound.message(), "Challenge not found");
    assert_eq!(SettingsError::InvalidTime("bad date".to_string()).message(), "bad date");
}

#[test]
fn status_follows_the_schedule() {
    let mut c = config("2331", "rust", Status::Closed);
    c.start_dt = Instant { secs: 100, nanos: 0 };
    c.end_dt = Instant { secs: 200, nanos: 0 };
    assert_eq!(c.status_at(Instant { secs: 99, nanos: 999 }), Status::Closed);
    assert_eq!(c.status_at(Instant { secs: 100, nanos: 0 }), Status::Active);
    assert_eq!(c.status_at(Instant { secs: 200, nanos: 0 }), Status::Active);
    assert_eq!(c.status_at(Instant { secs: 200, nanos: 1 }), Status::Past);
}

#[test]
fn update_parses_dates() {
    let mut c = ChallengeConfig::new(
        "2331".to_string(),
        "2024-01-01T00:00:00+02:00".to_string(),
        "2024-01-02T00:00:00Z".to_string(),
        "rust".to_string(),
    );
    assert_eq!(c.update_at(Instant { secs: 1704100000, nanos: 0 }), Ok(()));
    assert_eq!(c.start_dt, Instant { secs: 1704060000, nanos: 0 });
    assert_eq!(c.end_dt, Instant { secs: 1704153600, nanos: 0 });
    assert_eq!(c.status, Status::Active);

    let mut bad = ChallengeConfig::new("x".to_string(), "nope".to_string(), "nope".to_string(), String::new());
    assert!(matches!(bad.update(), Err(SettingsError::InvalidTime(_))));
    assert_eq!(bad.start_dt, Instant { secs: 0, nanos: 0 });
    assert_eq!(bad.status, Status::Closed);
}

#[test]
fn settings_allow_only_active_challenges() {
    let settings = Settings { challenges: vec![config("2331", "c", Status::Active), config("2332", "c", Status::Past)] };
    assert_eq!(settings.allowed_to_run("2331"), Ok(true));
    assert_eq!(settings.allowed_to_run("2332"), Ok(false));
    assert_eq!(settings.allowed_to_run("2333"), Err(SettingsError::ChallengeNotFound));
    assert_eq!(settings.get_challenge("2332").unwrap().id, "2332");
}

#[test]
fn update_challenges_stops_at_bad_date() {
    let good = ChallengeConfig::new("a".to_string(), "2024-01-01T00:00:00Z".to_string(), "2024-01-02T00:00:00Z".to_string(), String::new());
    let bad = ChallengeConfig::new("b".to_string(), "never".to_string(), "2024-01-02T00:00:00Z".to_string(), String::new());
    let mut settings = Settings { challenges: vec![good.clone(), bad, good.clone()] };
    assert!(matches!(settings.update_challenges(), Err(SettingsError::InvalidTime(_))));
    assert_eq!(settings.challenges[0].start_dt, Instant { secs: 1704067200, nanos: 0 });
    assert_eq!(settings.challenges[2].start_dt, Instant { secs: 0, nanos: 0 });
    let mut settings = Settings { challenges: vec![good] };
    assert!(settings.update_challenges().is_ok());
    assert_eq!(settings.challenges[0].end_dt, Instant { secs: 1704153600, nanos: 0 });
}

#[test]
fn decimal_rendering() {
    assert_eq!(decimal_string(0), "0");
    assert_eq!(decimal_string(12345), "12345");
    assert_eq!(decimal_string(u64::MAX), u64::MAX.to_string());
}

#[test]
fn unsigned_parsing_matches_std() {
    assert_eq!(parse_unsigned("+7", 255), Ok(7));
    assert_eq!(parse_unsigned("255", 255), Ok(255));
    assert_eq!(parse_unsigned("256", 255), Err(NumError::PosOverflow));
    assert_eq!(parse_unsigned("+", 255), Err(NumError::InvalidDigit));
    assert_eq!(parse_unsigned("", 255), Err(NumError::Empty));
    assert_eq!(parse_unsigned(" 1", 255), Err(NumError::InvalidDigit));
    assert_eq!(parse_unsigned("3000x", 255), Err(NumError::PosOverflow));
    assert_eq!(parse_unsigned("30x", 255), Err(NumError::InvalidDigit));
    for s in ["", "+", "-1", "12", "300", "1a", "+0"] {
        let ours = parse_unsigned(s, 255).ok();
        assert_eq!(ours, s.parse::<u8>().ok().map(|n| n as u64));
    }
    assert_eq!(NumError::InvalidDigit.message(), "x".parse::<u8>().unwrap_err().to_string());
    assert_eq!(NumError::Empty.message(), "".parse::<u8>().unwrap_err().to_string());
    assert_eq!(NumError::PosOverflow.message(), "999".parse::<u8>().unwrap_err().to_string());
}
