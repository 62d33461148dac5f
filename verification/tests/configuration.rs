use judge::challenges::{ChallengeKind, Challenges, GeneratorChoice};
use judge::config::{AnnouncementKind, ArgsError, ArgsOutcome, Filter, ReadConfig, RunMode, SortColumn, WriteConfig};
use judge::settings::{ChallengeConfig, Settings, Status};

fn settings(open: &[&str]) -> Settings {
    let mut challenges = Vec::new();
    for id in ["2331", "2332", "2333", "2334", "2411", "2412", "2413", "2414"] {
        let mut c = ChallengeConfig::new(id.to_string(), String::new(), String::new(), String::new());
        if open.contains(&id) {
            c.status = Status::Active;
        }
        challenges.push(c);
    }
    Settings { challenges }
}

fn args(a: &[&str]) -> Vec<String> {
    a.iter().map(|s| s.to_string()).collect()
}

fn message(r: Result<ArgsOutcome, ArgsError>) -> String {
    match r {
        Err(ArgsError::Message(m)) => m,
        other => panic!("expected a message, got {:?}", other),
    }
}

#[test]
fn help_and_version() {
    let s = settings(&["2331"]);
    assert!(matches!(RunMode::from_args(&args(&[]), "alice", &s), Ok(ArgsOutcome::Help)));
    assert!(matches!(RunMode::from_args(&args(&["-c", "x", "-?"]), "alice", &s), Ok(ArgsOutcome::Help)));
    assert!(matches!(RunMode::from_args(&args(&["--version", "-c"]), "alice", &s), Ok(ArgsOutcome::Version)));
}

#[test]
fn submission_arguments() {
    let s = settings(&["2331", "2414"]);
    match RunMode::from_args(&args(&["-c", "./a.out", "-L", "Rust"]), "alice", &s) {
        Ok(ArgsOutcome::Mode(RunMode::Update(c))) => {
            assert_eq!(c.name, "alice");
            assert_eq!(c.command, "./a.out");
            assert_eq!(c.language, "rust");
            assert!(c.publish);
            assert!(!c.test_mode);
            assert_eq!(c.challenge.command, "2331");
            assert_eq!(c.challenge.name, "Find the odd one out");
        }
        other => panic!("unexpected {:?}", other),
    }
    let c = WriteConfig::from_args(&args(&["-t", "-c", "x", "-L", "C", "-C", "2414"]), "alice", &s).unwrap();
    assert!(c.test_mode);
    assert!(!c.publish);
    assert_eq!(c.challenge.table, "24_1_4");
    let c = WriteConfig::from_args(&args(&["-q", "-c", "x", "-L", "c"]), "alice", &s).unwrap();
    assert!(!c.publish);
}

#[test]
fn submission_errors() {
    let s = settings(&["2331"]);
    assert_eq!(message(RunMode::from_args(&args(&["-c", "x"]), "alice", &s)), "-L must be provided");
    assert_eq!(message(RunMode::from_args(&args(&["-L", "go", "-c"]), "alice", &s)), "-c must provide a string");
    assert_eq!(
        message(RunMode::from_args(&args(&["-c", "x", "-L", "go", "-n", "bob"]), "alice", &s)),
        "-n has been deprecated. Do not use anymore."
    );
    let c = WriteConfig::from_args(&args(&["-c", "x", "-L", "go", "-n", "bob"]), "root", &s).unwrap();
    assert_eq!(c.name, "bob");
    assert!(matches!(
        WriteConfig::from_args(&args(&["-c", "x", "-L", "go", "-C", "2414"]), "alice", &s),
        Err(ArgsError::UnknownChallenge(c)) if c == "2414"
    ));
}

#[test]
fn default_submission() {
    let s = settings(&["2331"]);
    let c = WriteConfig::default("alice", &s);
    assert_eq!(c.name, "alice");
    assert_eq!(c.command, "");
    assert!(!c.publish && !c.test_mode);
    assert_eq!(c.challenge.command, "2331");
}

#[test]
fn scoreboard_filters_in_order() {
    let s = settings(&["2331"]);
    let c = ReadConfig::from_args(
        &args(&["-p", "-l", "5", "--unique", "players", "--sort", "TIME", "--player", "ann", "--unique", "zzz", "--unique", "bin"]),
        &s,
    )
    .unwrap();
    assert_eq!(c.challenge.command, "2331");
    assert_eq!(c.filters.len(), 5);
    assert!(matches!(c.filters[0], Filter::Top(5)));
    assert!(matches!(c.filters[1], Filter::UniquePlayers));
    assert!(matches!(c.filters[2], Filter::Sort(SortColumn::Time)));
    assert!(matches!(&c.filters[3], Filter::Player(p) if p == &vec!["ann".to_string()]));
    assert!(matches!(c.filters[4], Filter::UniqueBinaries));
}

#[test]
fn scoreboard_errors() {
    let s = settings(&["2331"]);
    assert_eq!(
        message(RunMode::from_args(&args(&["-p", "-l", "abc"]), "alice", &s)),
        "-l must provide a number: invalid digit found in string"
    );
    assert_eq!(message(RunMode::from_args(&args(&["-p", "--sort", "bogus"]), "alice", &s)), "invalid sort column: bogus");
    assert_eq!(message(RunMode::from_args(&args(&["-p", "--binary"]), "alice", &s)), "--binary must provide a string");
}

#[test]
fn challenge_and_wipe_modes() {
    let s = settings(&["2331"]);
    assert!(matches!(RunMode::from_args(&args(&["-C", "?"]), "alice", &s), Ok(ArgsOutcome::ListChallenges)));
    assert!(matches!(
        RunMode::from_args(&args(&["-C", "2331"]), "alice", &s),
        Ok(ArgsOutcome::ShowChallenge(c)) if c.command == "2331"
    ));
    assert!(matches!(RunMode::from_args(&args(&["-C", "2332"]), "alice", &s), Err(ArgsError::UnknownChallenge(c)) if c == "2332"));
    assert_eq!(message(RunMode::from_args(&args(&["-C"]), "alice", &s)), "-C must provide a string");
    assert_eq!(message(RunMode::from_args(&args(&["-w", "t"]), "alice", &s)), "Not root");
    assert!(matches!(RunMode::from_args(&args(&["-w", "t"]), "root", &s), Ok(ArgsOutcome::Mode(RunMode::Wipe(t))) if t == "t"));
    assert_eq!(message(RunMode::from_args(&args(&["-w"]), "root", &s)), "-w must provide a table name");
    assert!(matches!(RunMode::from_args(&args(&["-x"]), "alice", &s), Err(ArgsError::NoMode)));
}

#[test]
fn catalogue_and_selection() {
    let challenges = Challenges::new();
    assert_eq!(challenges.challenges.len(), 8);
    let listing = challenges.to_display_string();
    assert!(listing.starts_with("2331 - Find the odd one out\n2332 - Find the odd one out two\n"));
    assert_eq!(listing.lines().count(), 8);
    let s = settings(&["2331", "2414"]);
    assert_eq!(challenges.get_challenge("2414", &s).unwrap().table, "24_1_4");
    assert!(challenges.get_challenge("2332", &s).is_none());
    assert!(challenges.get_challenge("1234", &s).is_none());
    let open: Vec<&str> = challenges.get_open_challenges(&s).iter().map(|c| c.command.as_str()).collect();
    assert_eq!(open, vec!["2331", "2414"]);
    assert_eq!(challenges.make_generator("2414", true), Some(GeneratorChoice { kind: ChallengeKind::C2414, test: true }));
    assert_eq!(challenges.make_generator("9999", false), None);
}

#[test]
fn announcement_modes() {
    let s = settings(&["2331"]);
    assert!(matches!(
        RunMode::from_args(&args(&["--announcement", "release"]), "alice", &s),
        Ok(ArgsOutcome::Mode(RunMode::Announce(AnnouncementKind::Release)))
    ));
    assert!(matches!(
        RunMode::from_args(&args(&["--announcement", "launch"]), "alice", &s),
        Ok(ArgsOutcome::Mode(RunMode::Announce(AnnouncementKind::Launch)))
    ));
    assert!(matches!(
        RunMode::from_args(&args(&["--announcement", "launch", "-c", "x"]), "alice", &settings(&[])),
        Ok(ArgsOutcome::Mode(RunMode::Announce(AnnouncementKind::Launch)))
    ));
    assert_eq!(message(RunMode::from_args(&args(&["--announcement"]), "alice", &s)), "--announcement must provide a string");
    assert_eq!(
        message(RunMode::from_args(&args(&["--announcement", "party"]), "alice", &s)),
        "--announcement must be release or launch"
    );
    assert!(matches!(RunMode::from_args(&args(&["--version", "--announcement", "x"]), "alice", &s), Ok(ArgsOutcome::Version)));
}

#[test]
fn catalogue_codes_and_tables() {
    let challenges = Challenges::new();
    let codes: Vec<&str> = challenges.challenges.iter().map(|c| c.command.as_str()).collect();
    for (i, c) in challenges.challenges.iter().enumerate() {
        assert_eq!(c.command.len(), 4);
        assert!(c.command.chars().all(|d| d.is_ascii_digit()));
        assert_eq!(c.table, format!("{}_{}_{}", &c.command[0..2], &c.command[2..3], &c.command[3..4]));
        assert!(!codes[..i].contains(&c.command.as_str()));
    }
}

#[test]
fn open_list_matches_lookup() {
    let challenges = Challenges::new();
    let s = settings(&["2332", "2412", "2414"]);
    let open = challenges.get_open_challenges(&s);
    for c in &challenges.challenges {
        let found = challenges.get_challenge(&c.command, &s);
        let listed = open.iter().any(|o| o.command == c.command);
        assert_eq!(listed, found.map(|f| f.command == c.command).unwrap_or(false));
    }
}
