//! "Find the odd one out two": long test cases of bytes, sent one per line
//! to the player's program, which answers each with the odd value out.
use vstd::prelude::*;
use crate::generator::json::{encode_u8_lists, json_of_u8_lists, decode_u8_list, json_u8_list, json_int_list_sep, ints_of_u8};
use crate::judging::{make_answers_json, answers_json, numbers_of};
use crate::generator::random::{random_range, shuffle};
use crate::text::{decimal, push_decimal};

verus! {

broadcast use vstd::seq_lib::group_to_multiset_ensures, vstd::multiset::group_multiset_axioms;

/// Number of value pairs in each test case.
pub const TEST_SIZE: usize = 1000;
/// Number of test cases of a test run.
pub const TEST_SAMPLES: usize = 100;
/// Number of test cases of a real attempt.
pub const ATTEMPT_SAMPLES: usize = 10000;

/// Generator of long "find the odd one out" test cases of bytes.
pub struct G2332 {
    pub count: usize,
    pub test_cases: Vec<Vec<u8>>,
    pub answer: Vec<u8>,
}

/// A test case with its answer: 2001 values below 255, where `answer` occurs
/// an odd number of times and every other value an even number of times.
pub open spec fn odd_byte_case(case: Seq<u8>, answer: u8) -> bool {
    &&& case.len() == 2 * TEST_SIZE + 1
    &&& forall|k: int| 0 <= k < case.len() ==> #[trigger] case[k] < 255
    &&& case.to_multiset().count(answer) % 2 == 1
    &&& forall|x: u8| x != answer ==> #[trigger] case.to_multiset().count(x) % 2 == 0
}

/// The contents of the test cases.
pub open spec fn byte_case_views(cases: Seq<Vec<u8>>) -> Seq<Seq<u8>> {
    cases.map_values(|c: Vec<u8>| c@)
}

/// What a regeneration makes of the generator: `count` fresh test cases,
/// each with its answer appended to the answers already held.
pub open spec fn regenerated(old_answer: Seq<u8>, count: usize, cases: Seq<Seq<u8>>, answer: Seq<u8>) -> bool {
    &&& cases.len() == count
    &&& answer.len() == old_answer.len() + count
    &&& answer.subrange(0, old_answer.len() as int) == old_answer
    &&& forall|i: int| 0 <= i < count ==> odd_byte_case(#[trigger] cases[i], answer[old_answer.len() + i])
}

/// The line that carries a test case to the player's program: the values in
/// decimal, separated by commas, ending with a newline.
pub open spec fn case_line(case: Seq<u8>) -> Seq<char> {
    case_line_prefix(case, case.len() as int)
}

/// The first `n` pieces of a case line.
pub open spec fn case_line_prefix(case: Seq<u8>, n: int) -> Seq<char>
    decreases n,
{
    if n <= 0 {
        seq![]
    } else {
        case_line_prefix(case, n - 1) + decimal(case[n - 1] as nat)
            + if n == case.len() { "\n"@ } else { ","@ }
    }
}

fn make_case() -> (r: (Vec<u8>, u8))
    ensures
        odd_byte_case(r.0@, r.1),
{
    let mut case: Vec<u8> = Vec::new();
    let mut random: u8 = 0;
    let mut j: usize = 0;
    while j < TEST_SIZE
        invariant
            j <= TEST_SIZE,
            case@.len() == 2 * j,
            j > 0 ==> case@.contains(random),
            forall|k: int| 0 <= k < case@.len() ==> #[trigger] case@[k] < 255,
            forall|x: u8| #[trigger] case@.to_multiset().count(x) % 2 == 0,
        decreases TEST_SIZE - j,
    {
        let ghost before = case@;
        random = random_range(0, 255) as u8;
        case.push(random);
        case.push(random);
        assert forall|x: u8| #[trigger] case@.to_multiset().count(x) % 2 == 0 by {
            assert(case@.to_multiset() =~= before.to_multiset().insert(random).insert(random));
        }
        assert(case@[case@.len() - 1] == random);
        j = j + 1;
    }
    let ghost pairs = case@;
    case.push(random);
    assert(case@.to_multiset() =~= pairs.to_multiset().insert(random));
    assert forall|x: u8| x != random implies #[trigger] case@.to_multiset().count(x) % 2 == 0 by {
        assert(pairs.to_multiset().count(x) % 2 == 0);
    }
    let ghost unshuffled = case@;
    assert(unshuffled.len() == 2 * TEST_SIZE + 1);
    shuffle(&mut case);
    assert(case@.len() == case@.to_multiset().len());
    assert(unshuffled.len() == unshuffled.to_multiset().len());
    assert forall|k: int| 0 <= k < case@.len() implies #[trigger] case@[k] < 255 by {
        assert(case@.to_multiset().count(case@[k]) > 0);
        assert(unshuffled.contains(case@[k]));
    }
    assert forall|x: u8| x != random implies #[trigger] case@.to_multiset().count(x) % 2 == 0 by {
        assert(unshuffled.to_multiset().count(x) % 2 == 0);
    }
    (case, random)
}

impl G2332 {
    /// A filled generator: 100 test cases for a test run, 10000 otherwise.
    pub fn new(test: bool) -> (r: G2332)
        ensures
            r.count == (if test { TEST_SAMPLES } else { ATTEMPT_SAMPLES }),
            regenerated(Seq::empty(), r.count, byte_case_views(r.test_cases@), r.answer@),
    {
        let count = if test { TEST_SAMPLES } else { ATTEMPT_SAMPLES };
        let mut s = G2332 { count, test_cases: Vec::new(), answer: Vec::new() };
        s.regenerate();
        s
    }

    /// Replaces the test cases by `count` fresh ones and appends their
    /// answers to the answers already held.
    pub fn regenerate(&mut self)
        ensures
            final(self).count == old(self).count,
            regenerated(old(self).answer@, old(self).count, byte_case_views(final(self).test_cases@), final(self).answer@),
    {
        let ghost old_answer = self.answer@;
        self.test_cases = Vec::new();
        while self.test_cases.len() < self.count
            invariant
                self.count == old(self).count,
                old_answer == old(self).answer@,
                self.test_cases.len() <= self.count,
                self.answer@.len() == old_answer.len() + self.test_cases.len(),
                self.answer@.subrange(0, old_answer.len() as int) == old_answer,
                forall|i: int| 0 <= i < self.test_cases.len() ==> odd_byte_case(
                    #[trigger] byte_case_views(self.test_cases@)[i], self.answer@[old_answer.len() + i]),
            decreases self.count - self.test_cases.len(),
        {
            let (case, random) = make_case();
            let ghost cases_before = byte_case_views(self.test_cases@);
            let ghost answers_before = self.answer@;
            self.answer.push(random);
            self.test_cases.push(case);
            assert(byte_case_views(self.test_cases@) =~= cases_before.push(case@));
            assert(self.answer@.subrange(0, old_answer.len() as int) =~= answers_before.subrange(0, old_answer.len() as int));
            assert forall|i: int| 0 <= i < self.test_cases.len() implies odd_byte_case(
                #[trigger] byte_case_views(self.test_cases@)[i], self.answer@[old_answer.len() + i]) by {
                if i < cases_before.len() {
                    assert(self.answer@[old_answer.len() + i] == answers_before[old_answer.len() + i]);
                }
            }
        }
    }

    /// The line that carries a test case to the player's program.
    pub fn print_test_case(test_case: &Vec<u8>) -> (r: String)
        ensures
            r@ == case_line(test_case@),
    {
        let mut s = String::new();
        let mut i: usize = 0;
        while i < test_case.len()
            invariant
                0 <= i <= test_case@.len(),
                s@ == case_line_prefix(test_case@, i as int),
            decreases test_case@.len() - i,
        {
            push_decimal(&mut s, test_case[i] as u64);
            if i == test_case.len() - 1 {
                s.append("\n");
            } else {
                s.append(",");
            }
            i = i + 1;
        }
        s
    }

    /// The test cases as JSON.
    pub fn get_test_cases(&self) -> (r: String)
        ensures
            r@ == json_of_u8_lists(byte_case_views(self.test_cases@)),
    {
        encode_u8_lists(&self.test_cases)
    }

    /// Whether the answers given as a JSON list are exactly the expected ones;
    /// the text must be a JSON list of bytes.
    pub fn check_answer(&self, data: &str) -> (r: bool)
        requires
            json_u8_list(data@) is Some,
        ensures
            r == (json_u8_list(data@) == Some(self.answer@)),
    {
        match decode_u8_list(data) {
            Some(result) => vec_u8_equal(&self.answer, &result),
            None => false,
        }
    }

    /// Like `check_answer`, but reports a text that is not a JSON list of
    /// bytes as `None` instead of requiring it.  The expected answers written
    /// as a JSON list are accepted.
    pub fn try_check_answer(&self, data: &str) -> (r: Option<bool>)
        ensures
            match json_u8_list(data@) {
                Some(v) => r == Some(v == self.answer@),
                None => r is None,
            },
            json_int_list_sep(ints_of_u8(self.answer@), ","@) == data@
                || json_int_list_sep(ints_of_u8(self.answer@), ", "@) == data@ ==> r == Some(true),
    {
        match decode_u8_list(data) {
            Some(_) => Some(self.check_answer(data)),
            None => None,
        }
    }

    /// Judges the numbers that the player's program answered, as the judge
    /// does: they are written as a JSON list and read back as bytes; `None`
    /// when they do not read as bytes.  Exactly the expected answers are
    /// accepted.
    pub fn check_numbers(&self, answers: &Vec<u64>) -> (r: Option<bool>)
        ensures
            match json_u8_list(answers_json(answers@)) {
                Some(v) => r == Some(v == self.answer@),
                None => r is None,
            },
            numbers_of(answers@) == ints_of_u8(self.answer@) ==> r == Some(true),
    {
        let json = make_answers_json(answers);
        self.try_check_answer(json.as_str())
    }
}

/// Element-wise equality of two byte vectors.
pub fn vec_u8_equal(a: &Vec<u8>, b: &Vec<u8>) -> (r: bool)
    ensures
        r == (a@ == b@),
{
    if a.len() != b.len() {
        return false;
    }
    let mut i: usize = 0;
    while i < a.len()
        invariant
            a.len() == b.len(),
            0 <= i <= a.len(),
            forall|k: int| 0 <= k < i ==> a@[k] == b@[k],
        decreases a.len() - i,
    {
        if a[i] != b[i] {
            return false;
        }
        i = i + 1;
    }
    assert(a@ =~= b@);
    true
}

/// Law: in a generated test case the answer is the only value that occurs an
/// odd number of times.
pub proof fn law_odd_byte_unique(case: Seq<u8>, answer: u8, x: u8)
    requires
        odd_byte_case(case, answer),
    ensures
        (case.to_multiset().count(x) % 2 == 1) == (x == answer),
{
}

} // verus!
