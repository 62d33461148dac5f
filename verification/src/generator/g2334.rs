//! "Input validation": each test case is a line of letters and digits with
//! one special character hidden in it, which the player must report.
use vstd::prelude::*;
use crate::generator::json::{encode_strings, json_of_strings};
use crate::generator::random::{random_range, random_alphanumeric, is_ascii_alphanumeric};
use crate::text::{push_char, str_equal};

verus! {

/// Number of letters and digits in each test case.
pub const TEST_SIZE: usize = 1000;
/// Number of test cases of a test run.
pub const TEST_SAMPLES: usize = 10;
/// Number of test cases of a real attempt.
pub const ATTEMPT_SAMPLES: usize = 100000;

/// Generator of "input validation" test cases.
pub struct G2334 {
    pub count: usize,
    pub test_cases: Vec<String>,
    pub answer: String,
}

/// The special characters that may be hidden in a test case.
pub open spec fn bad_chars() -> Seq<char> {
    seq!['"', '+', '?', '|', '*', ' ', '(', ')', '[', ']', '{', '}', '\\', '/']
}

/// A test case hiding `answer` at position `pos` among 1000 letters and
/// digits.
pub open spec fn hidden_char_case(case: Seq<char>, answer: char, pos: int) -> bool {
    &&& case.len() == TEST_SIZE + 1
    &&& 0 <= pos < case.len()
    &&& case[pos] == answer
    &&& bad_chars().contains(answer)
    &&& forall|k: int| 0 <= k < case.len() && k != pos ==> is_ascii_alphanumeric(#[trigger] case[k])
}

/// What a regeneration makes of the generator: `count` fresh test cases and
/// their answers, one character per case; in a test run the special
/// character is anywhere in the first 1000 places, otherwise it is last.
pub open spec fn regenerated(count: usize, cases: Seq<Seq<char>>, answer: Seq<char>) -> bool {
    &&& cases.len() == count
    &&& answer.len() == count
    &&& forall|i: int| 0 <= i < count ==> hides(#[trigger] cases[i], answer[i], count == TEST_SAMPLES)
}

/// The case hides `answer` among letters and digits: anywhere in the first
/// 1000 places, or else in the last place.
pub open spec fn hides(case: Seq<char>, answer: char, anywhere: bool) -> bool {
    exists|pos: int| #[trigger] hidden_char_case(case, answer, pos)
        && (if anywhere { pos < TEST_SIZE } else { pos == TEST_SIZE })
}

/// The contents of the test cases.
pub open spec fn text_views(cases: Seq<String>) -> Seq<Seq<char>> {
    cases.map_values(|c: String| c@)
}

fn pick_bad_char() -> (c: char)
    ensures
        bad_chars().contains(c),
{
    let k = random_range(0, 14);
    let chars = ['"', '+', '?', '|', '*', ' ', '(', ')', '[', ']', '{', '}', '\\', '/'];
    let c = chars[k as usize];
    assert(bad_chars()[k as int] == c);
    c
}

fn string_of_chars(v: &Vec<char>) -> (s: String)
    ensures
        s@ == v@,
{
    let mut s = String::new();
    let mut i: usize = 0;
    while i < v.len()
        invariant
            0 <= i <= v@.len(),
            s@ == v@.subrange(0, i as int),
        decreases v@.len() - i,
    {
        push_char(&mut s, v[i]);
        assert(s@ =~= v@.subrange(0, i as int + 1));
        i = i + 1;
    }
    assert(v@.subrange(0, v@.len() as int) =~= v@);
    s
}

fn make_case(anywhere: bool) -> (r: (String, char))
    ensures
        hides(r.0@, r.1, anywhere),
{
    let mut chars: Vec<char> = Vec::new();
    while chars.len() < TEST_SIZE
        invariant
            chars@.len() <= TEST_SIZE,
            forall|k: int| 0 <= k < chars@.len() ==> is_ascii_alphanumeric(#[trigger] chars@[k]),
        decreases TEST_SIZE - chars@.len(),
    {
        let c = random_alphanumeric();
        chars.push(c);
    }
    let answer = pick_bad_char();
    let ghost plain = chars@;
    let pos: usize = if anywhere { random_range(0, TEST_SIZE as u64) as usize } else { TEST_SIZE };
    chars.insert(pos, answer);
    assert(chars@ == plain.insert(pos as int, answer));
    assert(chars@[pos as int] == answer);
    assert forall|k: int| 0 <= k < chars@.len() && k != pos implies is_ascii_alphanumeric(#[trigger] chars@[k]) by {
        if k < pos {
            assert(chars@[k] == plain[k]);
        } else {
            assert(chars@[k] == plain[k - 1]);
        }
    }
    let s = string_of_chars(&chars);
    assert(hidden_char_case(s@, answer, pos as int));
    (s, answer)
}

impl G2334 {
    /// A filled generator: 10 test cases for a test run, 100000 otherwise.
    pub fn new(test: bool) -> (r: G2334)
        ensures
            r.count == (if test { TEST_SAMPLES } else { ATTEMPT_SAMPLES }),
            regenerated(r.count, text_views(r.test_cases@), r.answer@),
    {
        let count = if test { TEST_SAMPLES } else { ATTEMPT_SAMPLES };
        let mut s = G2334 { count, test_cases: Vec::new(), answer: String::new() };
        s.regenerate();
        s
    }

    /// Replaces the test cases and the answers by `count` fresh ones.
    pub fn regenerate(&mut self)
        ensures
            final(self).count == old(self).count,
            regenerated(old(self).count, text_views(final(self).test_cases@), final(self).answer@),
    {
        self.test_cases = Vec::new();
        self.answer = String::new();
        let anywhere = self.count == TEST_SAMPLES;
        while self.test_cases.len() < self.count
            invariant
                self.count == old(self).count,
                anywhere == (self.count == TEST_SAMPLES),
                self.test_cases.len() <= self.count,
                self.answer@.len() == self.test_cases.len(),
                forall|i: int| 0 <= i < self.test_cases.len() ==>
                    hides(#[trigger] text_views(self.test_cases@)[i], self.answer@[i], anywhere),
            decreases self.count - self.test_cases.len(),
        {
            let (case, answer) = make_case(anywhere);
            let ghost cases_before = text_views(self.test_cases@);
            let ghost answers_before = self.answer@;
            push_char(&mut self.answer, answer);
            self.test_cases.push(case);
            assert(text_views(self.test_cases@) =~= cases_before.push(case@));
            assert forall|i: int| 0 <= i < self.test_cases.len() implies
                hides(#[trigger] text_views(self.test_cases@)[i], self.answer@[i], anywhere) by {
                if i < cases_before.len() {
                    assert(self.answer@[i] == answers_before[i]);
                    assert(text_views(self.test_cases@)[i] == cases_before[i]);
                } else {
                    assert(text_views(self.test_cases@)[i] == case@);
                    assert(self.answer@[i] == answer);
                }
            }
        }
    }

    /// The test cases as JSON.
    pub fn get_test_cases(&self) -> (r: String)
        ensures
            r@ == json_of_strings(text_views(self.test_cases@)),
    {
        encode_strings(&self.test_cases)
    }

    /// Whether the reported characters are exactly the expected ones.
    pub fn check_answer(&self, data: &str) -> (r: bool)
        ensures
            r == (self.answer@ == data@),
    {
        str_equal(self.answer.as_str(), data)
    }
}

/// Law: the first special character of a generated test case is its answer,
/// and no other special character occurs in it.
pub proof fn law_first_special_is_answer(case: Seq<char>, answer: char, pos: int)
    requires
        hidden_char_case(case, answer, pos),
    ensures
        forall|k: int| 0 <= k < case.len() && bad_chars().contains(#[trigger] case[k]) ==> k == pos,
{
    assert forall|k: int| 0 <= k < case.len() && bad_chars().contains(#[trigger] case[k]) implies k == pos by {
        if k != pos {
            assert(is_ascii_alphanumeric(case[k]));
            let j = choose|j: int| 0 <= j < bad_chars().len() && bad_chars()[j] == case[k];
            assert(bad_chars()[j] == case[k]);
        }
    }
}

} // verus!
