use judge::judging::{after_test, collect_char, collect_number, conclude, get_program_path, make_answers_json, read_char_reply, read_number_reply, start_score, Reply, RunError, Verdict};
use judge::challenges::{Challenge, Challenges};
use judge::config::AnnouncementKind;
use judge::score::{Score, TestResult};
use judge::teams::{AdaptiveCard, CardElement, FontSize, Message, PublishError, PublishType, Publisher, ScoreLines};

fn texts(card: &AdaptiveCard) -> Vec<String> {
    card.body
        .iter()
        .map(|e| match e {
            CardElement::TextBlock { text, .. } => text.clone(),
            CardElement::Image { url, .. } => url.clone(),
        })
        .collect()
}

#[test]
fn number_replies() {
    assert!(matches!(read_number_reply(b"42\n\0\0".to_vec(), 3, 255), Ok(Reply::Number(42))));
    assert!(matches!(read_number_reply(b"\0 7 \0".to_vec(), 5, 255), Ok(Reply::Number(7))));
    assert!(matches!(read_number_reply(b"1\0\0\0\0".to_vec(), 1, 255), Ok(Reply::Failed(m))
        if m == "Your program sent back too few characters. Did you forget the newline?"));
    assert!(matches!(read_number_reply(b"300\n\0".to_vec(), 4, 255), Ok(Reply::Failed(m))
        if m == "Your program did not produce the correct result: number too large to fit in target type"));
    assert!(matches!(read_number_reply(b"300\n\0".to_vec(), 4, u32::MAX as u64), Ok(Reply::Number(300))));
    assert!(matches!(read_number_reply(vec![0xff, 0xfe, 0, 0, 0], 5, 255), Err(RunError::InvalidUtf8)));
}

#[test]
fn char_replies() {
    assert!(matches!(read_char_reply(&b"?\n\0\0\0".to_vec(), 2), Reply::Character('?')));
    assert!(matches!(read_char_reply(&b"?\0\0\0\0".to_vec(), 1), Reply::Failed(_)));
}

#[test]
fn answers_as_json() {
    assert_eq!(make_answers_json(&vec![1, 22, 3]), "[1, 22, 3]");
    assert_eq!(make_answers_json(&vec![]), "[]");
}

fn score() -> Score {
    Score::new("alice", "./a.out", 0, "h".to_string(), "rust")
}

#[test]
fn concluding_a_run() {
    assert!(matches!(conclude(score(), 1500, Verdict::Answered(true)), TestResult::Success(s) if s.time_ns == 1500));
    assert!(matches!(conclude(score(), 1500, Verdict::Answered(false)), TestResult::Fail(m)
        if m == "Your program did not produce the correct result"));
    assert!(matches!(conclude(score(), 1, Verdict::Crashed("oops".to_string())), TestResult::Fail(m)
        if m == "Your program exited with a non-zero status code: oops"));
    assert!(matches!(conclude(score(), u64::MAX as u128 + 1, Verdict::Answered(true)), TestResult::Fail(m)
        if m == "Your program is way too slow"));
}

#[test]
fn steps_after_a_test() {
    let s = after_test(&TestResult::Success(score()), false, true);
    assert!(s.record && s.announce_score && s.announce_prize && !s.announce_copy);
    let s = after_test(&TestResult::Success(score()), true, false);
    assert!(!s.record && !s.announce_score);
    let s = after_test(&TestResult::Stolen(score(), score()), false, true);
    assert!(!s.record && !s.announce_score && s.announce_copy);
    let s = after_test(&TestResult::Fail("x".to_string()), false, true);
    assert!(!s.record && !s.announce_score && !s.announce_copy);
    let s = after_test(&TestResult::Success(score()), true, true);
    assert!(!s.record && s.announce_score && !s.announce_prize);
}

#[test]
fn quiet_mode_announces_nothing() {
    let s = after_test(&TestResult::Success(score()), false, false);
    assert!(s.record && !s.announce_score && !s.announce_prize && !s.announce_copy);
    let s = after_test(&TestResult::Stolen(score(), score()), false, false);
    assert!(!s.record && !s.announce_score && !s.announce_prize && !s.announce_copy);
}

#[test]
fn program_of_a_command() {
    assert_eq!(get_program_path("python3 ./solve.py"), "./solve.py");
    assert_eq!(get_program_path("./a.out"), "./a.out");
    assert_eq!(get_program_path("run "), "");
}

#[test]
fn cards_of_announcements() {
    let lines = ScoreLines { score: "alice ran x (rust) in 1.000ns".to_string(), board: vec!["a".to_string(), "b".to_string()] };
    let card = AdaptiveCard::from_publish(&PublishType::NewScore(("2331".to_string(), score(), vec![score(), score()])), &lines);
    assert_eq!(card.card_type, "AdaptiveCard");
    assert_eq!(card.version, "1.6");
    assert_eq!(texts(&card), vec!["New attempt at 2331!", "alice ran x (rust) in 1.000ns", "Leaderboard", "1. a\n2. b\n"]);
    assert!(matches!(card.body[0], CardElement::TextBlock { size: Some(FontSize::Large), .. }));

    let card = AdaptiveCard::from_publish(&PublishType::Prize(("Odd".to_string(), score())), &lines);
    assert_eq!(texts(&card), vec![
        "alice claims the spot prize for Odd!",
        "For the first submission using rust. To claim your prize, reply here with your code",
    ]);

    let copy = PublishType::CopyCard { challenge: "Odd".to_string(), thief: "t".to_string(), victim: "v".to_string(), scores: vec![] };
    let card = AdaptiveCard::from_publish(&copy, &ScoreLines { score: String::new(), board: vec![] });
    assert_eq!(texts(&card), vec![
        "Old attempt at Odd!",
        "t, tried to submit code already submitted by v. The leaderboard remains the same...",
        "Leaderboard",
        "",
    ]);

    let card = AdaptiveCard::from_publish(&PublishType::Announcement(("H".to_string(), "M".to_string())), &lines);
    assert_eq!(texts(&card), vec!["H", "M"]);
    let card = AdaptiveCard::from_publish(&PublishType::Message("hi".to_string()), &lines);
    assert_eq!(texts(&card), vec!["hi"]);
}

#[test]
fn messages_and_publisher() {
    let m = Message::from_card(AdaptiveCard::test_card());
    assert_eq!(m.message_type, "message");
    assert_eq!(m.attachments.len(), 1);
    assert_eq!(m.attachments[0].content_type, "application/vnd.microsoft.card.adaptive");
    assert_eq!(texts(&m.attachments[0].content), vec!["This is some text"]);
    assert_eq!(PublishType::Message("hey".to_string()).to_display_string(), "{\"text\": \"hey\"}");
    assert!(matches!(Publisher::new(None), Err(PublishError::NoWebhook)));
    assert_eq!(PublishError::NoWebhook.message(), "This program needs to be compiled with the $WEBHOOK env variable set");
    let p = Publisher::new(Some("http://hook")).unwrap();
    assert_eq!(p.webhook, "http://hook");
    let t = p.test_message();
    assert_eq!(t.message_type, "message");
    assert_eq!(t.attachments.len(), 1);
    assert_eq!(t.attachments[0].content_type, "application/vnd.microsoft.card.adaptive");
    assert_eq!(texts(&t.attachments[0].content), vec!["This is some text"]);
}

#[test]
fn announcements_of_releases_and_launches() {
    let challenges = Challenges::new();
    let open: Vec<&Challenge> = vec![&challenges.challenges[0], &challenges.challenges[7]];
    match PublishType::announcement(AnnouncementKind::Release, "1.2.3", &open) {
        PublishType::Announcement((h, m)) => {
            assert_eq!(h, "New release!");
            assert_eq!(m, "Version 1.2.3 of the judge is out.");
        }
        other => panic!("unexpected {:?}", other),
    }
    match PublishType::announcement(AnnouncementKind::Launch, "1.2.3", &open) {
        PublishType::Announcement((h, m)) => {
            assert_eq!(h, "A new challenge is open!");
            assert_eq!(m, "Open challenges:\n2331 - Find the odd one out\n2414 - Input validation\n");
        }
        other => panic!("unexpected {:?}", other),
    }
    match PublishType::announcement(AnnouncementKind::Launch, "1", &vec![]) {
        PublishType::Announcement((_, m)) => assert_eq!(m, "Open challenges:\n"),
        other => panic!("unexpected {:?}", other),
    }
}

#[test]
fn runs_start_from_a_success() {
    assert!(matches!(start_score(TestResult::Success(score())), Ok(s) if s.name == "alice"));
    assert!(matches!(start_score(TestResult::Fail("x".to_string())), Err(m) if m == "Please start with a success variant"));
    assert!(matches!(start_score(TestResult::Stolen(score(), score())), Err(m) if m == "Please start with a success variant"));
}

#[test]
fn replies_are_collected_until_one_fails() {
    let mut numbers = vec![1u64];
    assert_eq!(collect_number(&mut numbers, Reply::Number(7)), None);
    assert_eq!(collect_number(&mut numbers, Reply::Character('x')), None);
    assert_eq!(collect_number(&mut numbers, Reply::Failed("late".to_string())), Some("late".to_string()));
    assert_eq!(numbers, vec![1, 7]);
    let mut chars = String::from("a");
    assert_eq!(collect_char(&mut chars, Reply::Character('b')), None);
    assert_eq!(collect_char(&mut chars, Reply::Number(3)), None);
    assert_eq!(collect_char(&mut chars, Reply::Failed("no".to_string())), Some("no".to_string()));
    assert_eq!(chars, "ab");
}
