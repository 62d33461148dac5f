use judge::generator::g2331::G2331;
use judge::generator::g2332::G2332;
use judge::generator::g2334;
use judge::generator::g2334::G2334;
use judge::generator::g2414;
use judge::generator::g2414::G2414;
use judge::generator::json::{decode_i32_list, decode_string_list, decode_u8_list, encode_i32_lists, encode_strings, encode_text_number_pairs, encode_u8_lists};
use std::collections::HashMap;

#[test]
fn test_g2334() {
    let mut g = G2334::new(true);
    let possible_answers = [
        '"', '+', '?', '|', '*', ' ', '(', ')', '[', ']', '{', '}', '\\', '/',
    ];

    assert_eq!(g.test_cases.len(), g2334::TEST_SAMPLES);
    assert_eq!(g.answer.len(), g2334::TEST_SAMPLES);

    g.regenerate();

    let mut answers = String::new();
    for test in g.test_cases.clone() {
        assert_eq!(test.len(), g2334::TEST_SIZE + 1);

        let answer = test.chars().find(|c| possible_answers.contains(c));
        assert!(answer.is_some());
        answers.push(answer.unwrap());
    }
    assert_eq!(answers, g.answer);
}

#[test]
fn test_g2414() {
    let c1 = ("Super secret message", 10);
    let a1 = "Cezob combod wocckqo";
    let s2 = ("Can you read this", 1);
    let a2 = "Dbo zpv sfbe uijt";
    let s3 = ("NO", 5);
    let a3 = "ST";
    let s4 = ("Edge case", 40);
    let a4 = "Srus qogs";

    let cipher_text = G2414::answer_for(c1.0, c1.1);
    assert_eq!(cipher_text, a1);

    let cipher_text = G2414::answer_for(s2.0, s2.1);
    assert_eq!(cipher_text, a2);

    let cipher_text = G2414::answer_for(s3.0, s3.1);
    assert_eq!(cipher_text, a3);

    let cipher_text = G2414::answer_for(s4.0, s4.1 % 26);
    assert_eq!(cipher_text, a4);
}

fn counts<T: std::hash::Hash + Eq + Copy>(v: &[T]) -> HashMap<T, usize> {
    let mut m = HashMap::new();
    for x in v {
        *m.entry(*x).or_insert(0) += 1;
    }
    m
}

#[test]
fn g2331_answer_is_the_only_odd_count() {
    let g = G2331::new(5);
    assert_eq!(g.count, 5);
    assert_eq!(g.test_cases.len(), 5);
    assert_eq!(g.answer.len(), 5);
    for (case, answer) in g.test_cases.iter().zip(g.answer.iter()) {
        assert!(case.len() % 2 == 1 && case.len() >= 3 && case.len() <= 199);
        assert!(case.iter().all(|x| (1..=99).contains(x)));
        for (value, n) in counts(case) {
            assert_eq!(n % 2 == 1, value == *answer);
        }
    }
}

#[test]
fn g2331_regenerate_appends_answers() {
    let mut g = G2331::new(2);
    let first = g.answer.clone();
    g.regenerate();
    assert_eq!(g.test_cases.len(), 2);
    assert_eq!(g.answer.len(), 4);
    assert_eq!(&g.answer[..2], &first[..]);
}

#[test]
fn g2331_check_answer_reads_json() {
    let g = G2331::new(3);
    let good = serde_json::to_string(&g.answer).unwrap();
    assert!(g.check_answer(&good));
    assert_eq!(g.try_check_answer(&good), Some(true));
    let mut wrong = g.answer.clone();
    wrong[0] += 1000;
    assert_eq!(g.try_check_answer(&serde_json::to_string(&wrong).unwrap()), Some(false));
    assert_eq!(g.try_check_answer("not json"), None);
}

#[test]
fn g2331_test_cases_are_json() {
    let g = G2331::new(2);
    let text = g.get_test_cases();
    let back: Vec<Vec<i32>> = serde_json::from_str(&text).unwrap();
    assert_eq!(back, g.test_cases);
}

#[test]
fn g2332_cases_and_counts() {
    let g = G2332::new(true);
    assert_eq!(g.count, 100);
    assert_eq!(g.test_cases.len(), 100);
    for (case, answer) in g.test_cases.iter().zip(g.answer.iter()) {
        assert_eq!(case.len(), 2001);
        assert!(case.iter().all(|x| *x < 255));
        for (value, n) in counts(case) {
            assert_eq!(n % 2 == 1, value == *answer);
        }
    }
    let json = serde_json::to_string(&g.answer).unwrap();
    assert_eq!(g.try_check_answer(&json), Some(true));
    assert_eq!(g.try_check_answer("[1, 2"), None);
}

#[test]
fn g2332_print_test_case() {
    assert_eq!(G2332::print_test_case(&vec![1, 22, 254]), "1,22,254\n");
    assert_eq!(G2332::print_test_case(&vec![7]), "7\n");
    assert_eq!(G2332::print_test_case(&vec![]), "");
}

#[test]
fn g2334_attempt_puts_answer_last() {
    let g = G2334 { count: 3, test_cases: Vec::new(), answer: String::new() };
    let mut g = g;
    g.regenerate();
    assert_eq!(g.test_cases.len(), 3);
    for (case, answer) in g.test_cases.iter().zip(g.answer.chars()) {
        assert_eq!(case.chars().last(), Some(answer));
        assert!(case.chars().take(1000).all(|c| c.is_ascii_alphanumeric()));
    }
    assert!(g.check_answer(&g.answer.clone()));
    assert!(!g.check_answer("x"));
}

#[test]
fn g2414_cases_and_answers() {
    let g = G2414::new(true);
    assert_eq!(g.test_cases.len(), g2414::TEST_SAMPLES);
    for ((text, shift), answer) in g.test_cases.iter().zip(g.answer.iter()) {
        assert_eq!(text.len(), 1000);
        assert!(*shift < 255);
        assert_ne!(*shift % 26, 0);
        assert_eq!(*answer, G2414::answer_for(text, *shift));
    }
    let json = serde_json::to_string(&g.answer).unwrap();
    assert_eq!(g.try_check_answer(&json), Some(true));
    assert_eq!(g.try_check_answer("[12, 34]"), None);
    let mut shifts: Vec<usize> = Vec::new();
    for _ in 0..20 {
        shifts.extend(G2414::new(true).test_cases.iter().map(|c| c.1));
    }
    assert!(shifts.iter().all(|s| *s % 26 != 0 && *s < 255));
}

#[test]
fn g2414_shift_wraps_round() {
    assert_eq!(G2414::answer_for("Abc xyz 09", 27), "Bcd yza 09");
    assert_eq!(G2414::answer_for("xyz", 3), "abc");
    assert_eq!(G2414::answer_for("XYZ", 29), "ABC");
}

#[test]
fn g2414_print_test_case() {
    assert_eq!(G2414::print_test_case(&("abc".to_string(), 17)), "abc\n17\n");
}

#[test]
fn g2414_test_cases_are_json() {
    let g = G2414::new(true);
    let back: Vec<(String, usize)> = serde_json::from_str(&g.get_test_cases()).unwrap();
    assert_eq!(back, g.test_cases);
}

#[test]
fn integer_lists_encode_as_compact_json() {
    assert_eq!(encode_i32_lists(&vec![vec![1, -22, 333], vec![], vec![i32::MIN]]), "[[1,-22,333],[],[-2147483648]]");
    assert_eq!(encode_i32_lists(&vec![]), "[]");
    assert_eq!(encode_u8_lists(&vec![vec![0, 255], vec![7]]), "[[0,255],[7]]");
}

#[test]
fn strings_encode_as_compact_json() {
    let v = vec!["ab".to_string(), "q\"b\\".to_string(), "\n\t\u{1}\u{1f}\u{7f}é".to_string(), String::new()];
    assert_eq!(encode_strings(&v), "[\"ab\",\"q\\\"b\\\\\",\"\\n\\t\\u0001\\u001f\u{7f}é\",\"\"]");
    assert_eq!(encode_strings(&vec![]), "[]");
    let pairs = vec![("ab".to_string(), 3usize), ("\r".to_string(), 254)];
    assert_eq!(encode_text_number_pairs(&pairs), "[[\"ab\",3],[\"\\r\",254]]");
}

#[test]
fn lists_read_back_what_was_written() {
    assert_eq!(decode_i32_list("[1,-22,333]"), Some(vec![1, -22, 333]));
    assert_eq!(decode_i32_list("[1, -22, 333]"), Some(vec![1, -22, 333]));
    assert_eq!(decode_u8_list("[0, 255]"), Some(vec![0, 255]));
    assert_eq!(decode_u8_list("[256]"), None);
    let v = vec!["q\"b\\".to_string(), "\n\u{1}é".to_string()];
    assert_eq!(decode_string_list(&encode_strings(&v)), Some(v));
}

#[test]
fn expected_answers_are_accepted() {
    let g = G2331::new(4);
    let compact = encode_i32_lists(&vec![g.answer.clone()]);
    let compact = &compact[1..compact.len() - 1];
    assert_eq!(g.try_check_answer(compact), Some(true));
    let spaced = format!("[{}]", g.answer.iter().map(|x| x.to_string()).collect::<Vec<_>>().join(", "));
    assert_eq!(g.try_check_answer(&spaced), Some(true));

    let g = G2332::new(true);
    let numbers: Vec<u64> = g.answer.iter().map(|x| *x as u64).collect();
    assert_eq!(g.check_numbers(&numbers), Some(true));
    let mut wrong = numbers.clone();
    wrong[0] = (wrong[0] + 1) % 256;
    assert_eq!(g.check_numbers(&wrong), Some(false));
    assert_eq!(g.check_numbers(&vec![300]), None);

    let g = G2414::new(true);
    assert_eq!(g.try_check_answer(&encode_strings(&g.answer)), Some(true));
}
