//! Caesar-cipher challenge: each test case is a text and a shift, and the
//! player must encrypt the text with the shift taken modulo 26.
use vstd::prelude::*;
use cipher_crypt::Cipher;
use crate::generator::json::{encode_text_number_pairs, json_of_text_number_pairs, decode_string_list, json_string_list, json_of_strings};
use crate::generator::random::{random_range, random_alphanumeric, is_ascii_alphanumeric};
use crate::text::{push_char, push_decimal, decimal};

verus! {

/// Number of letters and digits in each test case.
pub const TEST_SIZE: usize = 1000;
/// Number of test cases of a test run.
pub const TEST_SAMPLES: usize = 10;
/// Number of test cases of a real attempt.
pub const ATTEMPT_SAMPLES: usize = 100000;

/// A character rotated `k` places through the alphabet; ASCII letters keep
/// their case, every other character is kept.
pub open spec fn rotate(c: char, k: nat) -> char {
    if 'a' <= c && c <= 'z' {
        ((((c as int) - ('a' as int) + k) % 26) + ('a' as int)) as char
    } else if 'A' <= c && c <= 'Z' {
        ((((c as int) - ('A' as int) + k) % 26) + ('A' as int)) as char
    } else {
        c
    }
}

/// The Caesar encryption of a text with shift `k`.
pub open spec fn caesar(text: Seq<char>, k: nat) -> Seq<char> {
    text.map_values(|c: char| rotate(c, k))
}

/// Encrypts a message with a Caesar cipher of the given shift.
///
/// Trusted: `cipher_crypt::Caesar::new(shift)` followed by `encrypt`; the
/// crate rotates each ASCII letter `shift` places, keeping its case, and
/// keeps every other character.  `new` panics unless `1 <= shift <= 26`,
/// which `requires` demands, and `encrypt` always returns `Ok`.
#[verifier::external_body]
fn caesar_encrypt(shift: usize, message: &str) -> (r: String)
    requires
        1 <= shift <= 26,
    ensures
        r@ == caesar(message@, shift as nat),
{
    match cipher_crypt::Caesar::new(shift).encrypt(message) {
        Ok(s) => s,
        Err(_) => String::new(),
    }
}

/// Generator of Caesar-cipher test cases.
pub struct G2414 {
    pub count: usize,
    pub test_cases: Vec<(String, usize)>,
    pub answer: Vec<String>,
}

/// The contents of the test cases.
pub open spec fn pair_views(cases: Seq<(String, usize)>) -> Seq<(Seq<char>, usize)> {
    cases.map_values(|c: (String, usize)| (c.0@, c.1))
}

/// The contents of the answers.
pub open spec fn answer_views(answers: Seq<String>) -> Seq<Seq<char>> {
    answers.map_values(|c: String| c@)
}

/// A test case with its answer: 1000 letters and digits, a shift below 255
/// that is not a multiple of 26, and the text encrypted with the shift modulo
/// 26.
pub open spec fn cipher_case(case: (Seq<char>, usize), answer: Seq<char>) -> bool {
    &&& case.0.len() == TEST_SIZE
    &&& forall|k: int| 0 <= k < case.0.len() ==> is_ascii_alphanumeric(#[trigger] case.0[k])
    &&& case.1 < 255
    &&& case.1 % 26 != 0
    &&& answer == caesar(case.0, (case.1 % 26) as nat)
}

/// What a regeneration makes of the generator: `count` fresh test cases and
/// their answers.
pub open spec fn regenerated(count: usize, cases: Seq<(Seq<char>, usize)>, answer: Seq<Seq<char>>) -> bool {
    &&& cases.len() == count
    &&& answer.len() == count
    &&& forall|i: int| 0 <= i < count ==> cipher_case(#[trigger] cases[i], answer[i])
}

/// The two lines that carry a test case to the player's program: the text,
/// then the shift in decimal.
pub open spec fn case_lines(case: (Seq<char>, usize)) -> Seq<char> {
    case.0 + "\n"@ + decimal(case.1 as nat) + "\n"@
}

impl G2414 {
    /// A filled generator: 10 test cases for a test run, 100000 otherwise.
    pub fn new(test: bool) -> (r: G2414)
        ensures
            r.count == (if test { TEST_SAMPLES } else { ATTEMPT_SAMPLES }),
            regenerated(r.count, pair_views(r.test_cases@), answer_views(r.answer@)),
    {
        let count = if test { TEST_SAMPLES } else { ATTEMPT_SAMPLES };
        let mut s = G2414 { count, test_cases: Vec::new(), answer: Vec::new() };
        s.regenerate();
        s
    }

    /// The expected answer for a text and shift: the text encrypted with the
    /// shift modulo 26.  A multiple of 26 is no shift the cipher takes.
    pub fn answer_for(text: &str, shift: usize) -> (r: String)
        requires
            shift % 26 != 0,
        ensures
            r@ == caesar(text@, (shift % 26) as nat),
    {
        caesar_encrypt(shift % 26, text)
    }

    /// A random shift below 255 that is not a multiple of 26, each such shift
    /// equally likely: the shifts of `0..255` that the cipher takes.
    fn random_shift() -> (r: usize)
        ensures
            r < 255,
            r % 26 != 0,
    {
        let j = random_range(0, 245);
        let q = j / 25;
        assert(j + q + 1 < 255 && (j + q + 1) % 26 != 0) by (nonlinear_arith)
            requires
                j < 245,
                q == j / 25,
        {
            assert(j == 25 * q + j % 25);
            assert(j + q + 1 == 26 * q + (j % 25 + 1));
        }
        (j + q + 1) as usize
    }

    /// Replaces the test cases and the answers by `count` fresh ones.
    pub fn regenerate(&mut self)
        ensures
            final(self).count == old(self).count,
            regenerated(old(self).count, pair_views(final(self).test_cases@), answer_views(final(self).answer@)),
    {
        self.test_cases = Vec::new();
        self.answer = Vec::new();
        while self.test_cases.len() < self.count
            invariant
                self.count == old(self).count,
                self.test_cases.len() <= self.count,
                self.answer@.len() == self.test_cases.len(),
                forall|i: int| 0 <= i < self.test_cases.len() ==>
                    cipher_case(#[trigger] pair_views(self.test_cases@)[i], answer_views(self.answer@)[i]),
            decreases self.count - self.test_cases.len(),
        {
            let mut text = String::new();
            let mut n: usize = 0;
            while n < TEST_SIZE
                invariant
                    n <= TEST_SIZE,
                    text@.len() == n,
                    forall|k: int| 0 <= k < text@.len() ==> is_ascii_alphanumeric(#[trigger] text@[k]),
                decreases TEST_SIZE - n,
            {
                let c = random_alphanumeric();
                push_char(&mut text, c);
                n = n + 1;
            }
            let shift = G2414::random_shift();
            let cipher_text = G2414::answer_for(text.as_str(), shift);
            let ghost cases_before = pair_views(self.test_cases@);
            let ghost answers_before = answer_views(self.answer@);
            let ghost case_view = (text@, shift);
            let ghost answer_view = cipher_text@;
            self.answer.push(cipher_text);
            self.test_cases.push((text, shift));
            assert(pair_views(self.test_cases@) =~= cases_before.push(case_view));
            assert(answer_views(self.answer@) =~= answers_before.push(answer_view));
        }
    }

    /// The two lines that carry a test case to the player's program.
    pub fn print_test_case(test_case: &(String, usize)) -> (r: String)
        ensures
            r@ == case_lines((test_case.0@, test_case.1)),
    {
        let mut s = String::new();
        s.append(test_case.0.as_str());
        s.append("\n");
        push_decimal(&mut s, test_case.1 as u64);
        s.append("\n");
        s
    }

    /// The test cases as JSON.
    pub fn get_test_cases(&self) -> (r: String)
        ensures
            r@ == json_of_text_number_pairs(pair_views(self.test_cases@)),
    {
        encode_text_number_pairs(&self.test_cases)
    }

    /// Whether the answers given as a JSON list of strings are exactly the
    /// expected ones; the text must be a JSON list of strings.
    pub fn check_answer(&self, data: &str) -> (r: bool)
        requires
            json_string_list(data@) is Some,
        ensures
            r == (json_string_list(data@) == Some(answer_views(self.answer@))),
    {
        match decode_string_list(data) {
            Some(result) => strings_equal(&self.answer, &result),
            None => false,
        }
    }

    /// Like `check_answer`, but reports a text that is not a JSON list of
    /// strings as `None` instead of requiring it.  The expected answers
    /// written as a JSON list are accepted.
    pub fn try_check_answer(&self, data: &str) -> (r: Option<bool>)
        ensures
            match json_string_list(data@) {
                Some(v) => r == Some(v == answer_views(self.answer@)),
                None => r is None,
            },
            json_of_strings(answer_views(self.answer@)) == data@ ==> r == Some(true),
    {
        match decode_string_list(data) {
            Some(_) => Some(self.check_answer(data)),
            None => None,
        }
    }
}

/// Element-wise equality of two string vectors.
pub fn strings_equal(a: &Vec<String>, b: &Vec<String>) -> (r: bool)
    ensures
        r == (answer_views(a@) == answer_views(b@)),
{
    if a.len() != b.len() {
        return false;
    }
    let mut i: usize = 0;
    while i < a.len()
        invariant
            a.len() == b.len(),
            0 <= i <= a.len(),
            forall|k: int| 0 <= k < i ==> a@[k]@ == b@[k]@,
        decreases a.len() - i,
    {
        if !(a[i] == b[i]) {
            assert(answer_views(a@)[i as int] != answer_views(b@)[i as int]);
            return false;
        }
        i = i + 1;
    }
    assert(answer_views(a@) =~= answer_views(b@));
    true
}

} // verus!
