//! "Find the odd one out": every number of a test case comes in pairs except
//! one, which the player must find.
use vstd::prelude::*;
use crate::generator::json::{encode_i32_lists, json_of_i32_lists, decode_i32_list, json_i32_list, json_int_list_sep, ints_of_i32};
use crate::generator::random::{random_range, shuffle};

verus! {

broadcast use vstd::seq_lib::group_to_multiset_ensures, vstd::multiset::group_multiset_axioms;

/// Generator of "find the odd one out" test cases.
pub struct G2331 {
    pub count: usize,
    pub test_cases: Vec<Vec<i32>>,
    pub answer: Vec<i32>,
}

/// A test case with its answer: an odd number (3 to 199) of values between
/// 1 and 99, where `answer` occurs an odd number of times and every other
/// value an even number of times.
pub open spec fn odd_one_out_case(case: Seq<i32>, answer: i32) -> bool {
    &&& 3 <= case.len() <= 199
    &&& case.len() % 2 == 1
    &&& forall|k: int| 0 <= k < case.len() ==> 1 <= #[trigger] case[k] <= 99
    &&& case.to_multiset().count(answer) % 2 == 1
    &&& forall|x: i32| x != answer ==> #[trigger] case.to_multiset().count(x) % 2 == 0
}

/// The contents of the test cases.
pub open spec fn case_views(cases: Seq<Vec<i32>>) -> Seq<Seq<i32>> {
    cases.map_values(|c: Vec<i32>| c@)
}

/// What a regeneration makes of the generator: `count` fresh test cases,
/// each with its answer appended to the answers already held.
pub open spec fn regenerated(old_answer: Seq<i32>, count: usize, cases: Seq<Seq<i32>>, answer: Seq<i32>) -> bool {
    &&& cases.len() == count
    &&& answer.len() == old_answer.len() + count
    &&& answer.subrange(0, old_answer.len() as int) == old_answer
    &&& forall|i: int| 0 <= i < count ==> odd_one_out_case(#[trigger] cases[i], answer[old_answer.len() + i])
}

/// Builds one test case: a random number (1 to 99) of pairs of random values,
/// then one more copy of the last value, shuffled.
fn make_case() -> (r: (Vec<i32>, i32))
    ensures
        odd_one_out_case(r.0@, r.1),
{
    let size = random_range(1, 100);
    let mut case: Vec<i32> = Vec::new();
    let mut random: i32 = 0;
    let mut j: u64 = 0;
    while j < size
        invariant
            1 <= size < 100,
            j <= size,
            case@.len() == 2 * j,
            j > 0 ==> case@.contains(random),
            forall|k: int| 0 <= k < case@.len() ==> 1 <= #[trigger] case@[k] <= 99,
            forall|x: i32| #[trigger] case@.to_multiset().count(x) % 2 == 0,
        decreases size - j,
    {
        let ghost before = case@;
        random = random_range(1, 100) as i32;
        case.push(random);
        case.push(random);
        assert(case@ == before.push(random).push(random));
        assert forall|x: i32| #[trigger] case@.to_multiset().count(x) % 2 == 0 by {
            assert(case@.to_multiset() =~= before.to_multiset().insert(random).insert(random));
        }
        assert(case@[case@.len() - 1] == random);
        j = j + 1;
    }
    let ghost pairs = case@;
    case.push(random);
    assert(case@.to_multiset() =~= pairs.to_multiset().insert(random));
    assert(case@.to_multiset().count(random) % 2 == 1);
    assert forall|x: i32| x != random implies #[trigger] case@.to_multiset().count(x) % 2 == 0 by {
        assert(pairs.to_multiset().count(x) % 2 == 0);
    }
    assert(1 <= random <= 99) by {
        let k = choose|k: int| 0 <= k < pairs.len() && pairs[k] == random;
        assert(1 <= pairs[k] <= 99);
    }
    let ghost unshuffled = case@;
    assert(unshuffled.len() == 2 * size + 1);
    shuffle(&mut case);
    assert(case@.len() == case@.to_multiset().len());
    assert(unshuffled.len() == unshuffled.to_multiset().len());
    assert forall|k: int| 0 <= k < case@.len() implies 1 <= #[trigger] case@[k] <= 99 by {
        assert(case@.to_multiset().count(case@[k]) > 0);
        assert(unshuffled.to_multiset().count(case@[k]) > 0);
        assert(unshuffled.contains(case@[k]));
    }
    assert forall|x: i32| x != random implies #[trigger] case@.to_multiset().count(x) % 2 == 0 by {
        assert(unshuffled.to_multiset().count(x) % 2 == 0);
    }
    (case, random)
}

impl G2331 {
    /// A generator of `count` test cases, already filled.
    pub fn new(count: usize) -> (r: G2331)
        ensures
            r.count == count,
            regenerated(Seq::empty(), count, case_views(r.test_cases@), r.answer@),
    {
        let mut s = G2331 { count, test_cases: Vec::new(), answer: Vec::new() };
        s.regenerate();
        s
    }

    /// Replaces the test cases by `count` fresh ones and appends their
    /// answers to the answers already held.
    pub fn regenerate(&mut self)
        ensures
            final(self).count == old(self).count,
            regenerated(old(self).answer@, old(self).count, case_views(final(self).test_cases@), final(self).answer@),
    {
        let ghost old_answer = self.answer@;
        self.test_cases = Vec::new();
        while self.test_cases.len() < self.count
            invariant
                self.count == old(self).count,
                old_answer == old(self).answer@,
                self.test_cases.len() <= self.count,
                self.answer@.len() == old_answer.len() + self.test_cases.len(),
                self.answer@.subrange(0, old_answer.len() as int) == old_answer,
                forall|i: int| 0 <= i < self.test_cases.len() ==> odd_one_out_case(
                    #[trigger] case_views(self.test_cases@)[i], self.answer@[old_answer.len() + i]),
            decreases self.count - self.test_cases.len(),
        {
            let (case, random) = make_case();
            let ghost cases_before = case_views(self.test_cases@);
            let ghost tc_before = self.test_cases@;
            let ghost answers_before = self.answer@;
            self.answer.push(random);
            self.test_cases.push(case);
            assert(self.test_cases@ == tc_before.push(case));
            assert(case_views(self.test_cases@) =~= cases_before.push(case@));
            assert(self.answer@.subrange(0, old_answer.len() as int) =~= answers_before.subrange(0, old_answer.len() as int));
            assert forall|i: int| 0 <= i < self.test_cases.len() implies odd_one_out_case(
                #[trigger] case_views(self.test_cases@)[i], self.answer@[old_answer.len() + i]) by {
                if i < cases_before.len() {
                    assert(self.answer@[old_answer.len() + i] == answers_before[old_answer.len() + i]);
                }
            }
        }
    }

    /// The test cases as JSON.
    pub fn get_test_cases(&self) -> (r: String)
        ensures
            r@ == json_of_i32_lists(case_views(self.test_cases@)),
    {
        encode_i32_lists(&self.test_cases)
    }

    /// Whether the answers given as a JSON list are exactly the expected ones;
    /// the text must be a JSON list of `i32`.
    pub fn check_answer(&self, data: &str) -> (r: bool)
        requires
            json_i32_list(data@) is Some,
        ensures
            r == (json_i32_list(data@) == Some(self.answer@)),
    {
        match decode_i32_list(data) {
            Some(result) => vec_i32_equal(&self.answer, &result),
            None => false,
        }
    }

    /// Like `check_answer`, but reports a text that is not a JSON list of
    /// `i32` as `None` instead of requiring it.  The expected answers written
    /// as a JSON list are accepted.
    pub fn try_check_answer(&self, data: &str) -> (r: Option<bool>)
        ensures
            match json_i32_list(data@) {
                Some(v) => r == Some(v == self.answer@),
                None => r is None,
            },
            json_int_list_sep(ints_of_i32(self.answer@), ","@) == data@
                || json_int_list_sep(ints_of_i32(self.answer@), ", "@) == data@ ==> r == Some(true),
    {
        match decode_i32_list(data) {
            Some(_) => Some(self.check_answer(data)),
            None => None,
        }
    }
}

/// Element-wise equality of two integer vectors.
pub fn vec_i32_equal(a: &Vec<i32>, b: &Vec<i32>) -> (r: bool)
    ensures
        r == (a@ == b@),
{
    if a.len() != b.len() {
        return false;
    }
    let mut i: usize = 0;
    while i < a.len()
        invariant
            a.len() == b.len(),
            0 <= i <= a.len(),
            forall|k: int| 0 <= k < i ==> a@[k] == b@[k],
        decreases a.len() - i,
    {
        if a[i] != b[i] {
            return false;
        }
        i = i + 1;
    }
    assert(a@ =~= b@);
    true
}

/// Law: in a generated test case the answer is the only value that occurs an
/// odd number of times.
pub proof fn law_odd_one_out_unique(case: Seq<i32>, answer: i32, x: i32)
    requires
        odd_one_out_case(case, answer),
    ensures
        (case.to_multiset().count(x) % 2 == 1) == (x == answer),
{
}

} // verus!
