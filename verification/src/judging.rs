//! Judging a run of a player's program: reading its replies, turning the
//! measured time and the answer check into a test result, and deciding what
//! happens after the test.
use vstd::prelude::*;
use vstd::utf8::{valid_utf8, decode_utf8};
use crate::score::{Score, ScoreView, TestResult, TestResultView};
use crate::text::{push_char, parse_unsigned, parse_unsigned_spec, num_error_message, push_decimal, decimal, law_parse_decimal, lemma_decimal_digits};
use crate::generator::json::{json_int_list_sep, json_int_items_sep};

verus! {

/// Decodes bytes as UTF-8.
///
/// Trusted: `String::from_utf8` succeeds exactly on valid UTF-8 and then
/// holds the decoded characters.
#[verifier::external_body]
fn utf8_string(bytes: Vec<u8>) -> (r: Option<String>)
    ensures
        match r {
            Some(s) => valid_utf8(bytes@) && s@ == decode_utf8(bytes@),
            None => !valid_utf8(bytes@),
        },
{
    match String::from_utf8(bytes) {
        Ok(s) => Some(s),
        Err(_) => None,
    }
}

/// The characters that `str::trim` removes: Unicode white space.
pub open spec fn is_white_space(c: char) -> bool {
    ('\u{9}' <= c && c <= '\u{d}') || c == ' ' || c == '\u{85}' || c == '\u{a0}' || c == '\u{1680}'
        || ('\u{2000}' <= c && c <= '\u{200a}') || c == '\u{2028}' || c == '\u{2029}' || c == '\u{202f}'
        || c == '\u{205f}' || c == '\u{3000}'
}

fn white_space(c: char) -> (r: bool)
    ensures
        r == is_white_space(c),
{
    ('\u{9}' <= c && c <= '\u{d}') || c == ' ' || c == '\u{85}' || c == '\u{a0}' || c == '\u{1680}'
        || ('\u{2000}' <= c && c <= '\u{200a}') || c == '\u{2028}' || c == '\u{2029}' || c == '\u{202f}'
        || c == '\u{205f}' || c == '\u{3000}'
}

/// Number of leading characters of `s` that satisfy `p`.
pub open spec fn leading(s: Seq<char>, p: spec_fn(char) -> bool) -> nat
    decreases s.len(),
{
    if s.len() > 0 && p(s[0]) { 1 + leading(s.drop_first(), p) } else { 0 }
}

/// Number of trailing characters of `s` that satisfy `p`.
pub open spec fn trailing(s: Seq<char>, p: spec_fn(char) -> bool) -> nat
    decreases s.len(),
{
    if s.len() > 0 && p(s.last()) { 1 + trailing(s.drop_last(), p) } else { 0 }
}

/// `s` without the leading and trailing characters that satisfy `p`.
pub open spec fn trim_by(s: Seq<char>, p: spec_fn(char) -> bool) -> Seq<char> {
    let front = s.skip(leading(s, p) as int);
    front.take(front.len() - trailing(front, p))
}

/// A reply text with NUL characters trimmed from both ends, then white
/// space trimmed from both ends.
pub open spec fn cleaned_reply(s: Seq<char>) -> Seq<char> {
    trim_by(trim_by(s, is_nul()), is_blank())
}

/// The NUL character test.
pub open spec fn is_nul() -> spec_fn(char) -> bool {
    |c: char| c == '\0'
}

/// The white-space test.
pub open spec fn is_blank() -> spec_fn(char) -> bool {
    |c: char| is_white_space(c)
}

proof fn lemma_leading_bound(s: Seq<char>, p: spec_fn(char) -> bool)
    ensures
        leading(s, p) <= s.len(),
        forall|k: int| 0 <= k < leading(s, p) ==> p(#[trigger] s[k]),
        leading(s, p) < s.len() ==> !p(s[leading(s, p) as int]),
    decreases s.len(),
{
    if s.len() > 0 && p(s[0]) {
        lemma_leading_bound(s.drop_first(), p);
        assert forall|k: int| 0 <= k < leading(s, p) implies p(#[trigger] s[k]) by {
            if k > 0 {
                assert(s[k] == s.drop_first()[k - 1]);
            }
        }
    }
}

proof fn lemma_trailing_bound(s: Seq<char>, p: spec_fn(char) -> bool)
    ensures
        trailing(s, p) <= s.len(),
        forall|k: int| s.len() - trailing(s, p) <= k < s.len() ==> p(#[trigger] s[k]),
        trailing(s, p) < s.len() ==> !p(s[s.len() - trailing(s, p) - 1]),
    decreases s.len(),
{
    if s.len() > 0 && p(s.last()) {
        lemma_trailing_bound(s.drop_last(), p);
        assert forall|k: int| s.len() - trailing(s, p) <= k < s.len() implies p(#[trigger] s[k]) by {
            if k < s.len() - 1 {
                assert(s[k] == s.drop_last()[k]);
            }
        }
    }
}

proof fn lemma_leading_exact(s: Seq<char>, p: spec_fn(char) -> bool, n: int)
    requires
        0 <= n <= s.len(),
        forall|k: int| 0 <= k < n ==> p(#[trigger] s[k]),
        n < s.len() ==> !p(s[n]),
    ensures
        leading(s, p) == n,
    decreases s.len(),
{
    if n > 0 {
        assert(p(s[0]));
        assert forall|k: int| 0 <= k < n - 1 implies p(#[trigger] s.drop_first()[k]) by {
            assert(s.drop_first()[k] == s[k + 1]);
        }
        if n - 1 < s.drop_first().len() {
            assert(s.drop_first()[n - 1] == s[n]);
        }
        lemma_leading_exact(s.drop_first(), p, n - 1);
    } else if s.len() > 0 {
        assert(!p(s[0]));
    }
}

proof fn lemma_trailing_exact(s: Seq<char>, p: spec_fn(char) -> bool, n: int)
    requires
        0 <= n <= s.len(),
        forall|k: int| s.len() - n <= k < s.len() ==> p(#[trigger] s[k]),
        n < s.len() ==> !p(s[s.len() - n - 1]),
    ensures
        trailing(s, p) == n,
    decreases s.len(),
{
    if n > 0 {
        assert(p(s.last()));
        assert forall|k: int| s.drop_last().len() - (n - 1) <= k < s.drop_last().len() implies p(#[trigger] s.drop_last()[k]) by {
            assert(s.drop_last()[k] == s[k]);
        }
        if n - 1 < s.drop_last().len() {
            assert(s.drop_last()[s.drop_last().len() - (n - 1) - 1] == s[s.len() - n - 1]);
        }
        lemma_trailing_exact(s.drop_last(), p, n - 1);
    } else if s.len() > 0 {
        assert(!p(s.last()));
    }
}

/// The predicate used for trimming: NUL or white space.
pub open spec fn trim_pred(nul: bool) -> spec_fn(char) -> bool {
    if nul { is_nul() } else { is_blank() }
}

fn trimmed(c: char, nul: bool) -> (r: bool)
    ensures
        r == trim_pred(nul)(c),
{
    if nul { c == '\0' } else { white_space(c) }
}

/// First position in `lo..hi` whose character is not trimmed.
fn front_end(v: &Vec<char>, lo: usize, hi: usize, nul: bool) -> (k: usize)
    requires
        lo <= hi <= v@.len(),
    ensures
        lo <= k <= hi,
        forall|j: int| lo <= j < k ==> trim_pred(nul)(#[trigger] v@[j]),
        k < hi ==> !trim_pred(nul)(v@[k as int]),
{
    let mut k = lo;
    while k < hi && trimmed(v[k], nul)
        invariant
            lo <= k <= hi <= v@.len(),
            forall|j: int| lo <= j < k ==> trim_pred(nul)(#[trigger] v@[j]),
        decreases hi - k,
    {
        k = k + 1;
    }
    k
}

/// Last position (exclusive) in `lo..hi` after which every character is
/// trimmed.
fn back_end(v: &Vec<char>, lo: usize, hi: usize, nul: bool) -> (k: usize)
    requires
        lo <= hi <= v@.len(),
    ensures
        lo <= k <= hi,
        forall|j: int| k <= j < hi ==> trim_pred(nul)(#[trigger] v@[j]),
        k > lo ==> !trim_pred(nul)(v@[k - 1]),
{
    let mut k = hi;
    while k > lo && trimmed(v[k - 1], nul)
        invariant
            lo <= k <= hi <= v@.len(),
            forall|j: int| k <= j < hi ==> trim_pred(nul)(#[trigger] v@[j]),
        decreases k - lo,
    {
        k = k - 1;
    }
    k
}

proof fn lemma_trim_by_range(s: Seq<char>, lo: int, hi: int, a: int, b: int, p: spec_fn(char) -> bool)
    requires
        0 <= lo <= a <= b <= hi <= s.len(),
        forall|k: int| lo <= k < a ==> p(#[trigger] s[k]),
        a < hi ==> !p(s[a]),
        forall|k: int| b <= k < hi ==> p(#[trigger] s[k]),
        b > a ==> !p(s[b - 1]),
        a == hi ==> b == hi,
    ensures
        trim_by(s.subrange(lo, hi), p) == s.subrange(a, b),
{
    let t = s.subrange(lo, hi);
    assert forall|k: int| 0 <= k < a - lo implies p(#[trigger] t[k]) by {
        assert(t[k] == s[k + lo]);
    }
    if a - lo < t.len() {
        assert(t[a - lo] == s[a]);
    }
    lemma_leading_exact(t, p, a - lo);
    let front = t.skip(a - lo);
    assert(front =~= s.subrange(a, hi));
    assert forall|k: int| front.len() - (hi - b) <= k < front.len() implies p(#[trigger] front[k]) by {
        assert(front[k] == s[k + a]);
    }
    if hi - b < front.len() {
        assert(front[front.len() - (hi - b) - 1] == s[b - 1]);
    }
    lemma_trailing_exact(front, p, hi - b);
    assert(front.take(front.len() - (hi - b)) =~= s.subrange(a, b));
}

/// Removes NULs from both ends of a character vector, then white space.
fn clean_reply(v: &Vec<char>) -> (r: Vec<char>)
    ensures
        r@ == cleaned_reply(v@),
{
    let n = v.len();
    let a = front_end(v, 0, n, true);
    let b = if a == n { n } else { back_end(v, a, n, true) };
    proof {
        lemma_trim_by_range(v@, 0, n as int, a as int, b as int, is_nul());
        assert(v@.subrange(0, n as int) =~= v@);
    }
    let c = front_end(v, a, b, false);
    let d = if c == b { b } else { back_end(v, c, b, false) };
    proof {
        lemma_trim_by_range(v@, a as int, b as int, c as int, d as int, is_blank());
    }
    let mut out: Vec<char> = Vec::new();
    let mut i: usize = c;
    while i < d
        invariant
            c <= i <= d <= n == v@.len(),
            out@ == v@.subrange(c as int, i as int),
        decreases d - i,
    {
        out.push(v[i]);
        assert(out@ =~= v@.subrange(c as int, i as int + 1));
        i = i + 1;
    }
    out
}

/// Why judging a run could not go on.
#[derive(Debug, Clone, Copy, PartialEq, Eq, Structural)]
pub enum RunError {
    /// The program's output was not valid UTF-8.
    InvalidUtf8,
    /// The run was not started from a successful result.
    NotStartedFromSuccess,
}

/// What one reply of the player's program amounts to.
#[derive(Debug, Clone)]
pub enum Reply {
    /// The program answered this number.
    Number(u64),
    /// The program answered this character.
    Character(char),
    /// The run has failed, with this message.
    Failed(String),
}

/// Message for a reply shorter than two bytes.
pub open spec fn too_few_message() -> Seq<char> {
    "Your program sent back too few characters. Did you forget the newline?"@
}

/// Message for a wrong answer.
pub open spec fn wrong_message() -> Seq<char> {
    "Your program did not produce the correct result"@
}

/// Message for a run that took more nanoseconds than a `u64` holds.
pub open spec fn too_slow_message() -> Seq<char> {
    "Your program is way too slow"@
}

/// Message for a program that failed, with what it printed on stderr.
pub open spec fn crash_message(stderr: Seq<char>) -> Seq<char> {
    "Your program exited with a non-zero status code: "@ + stderr
}

/// What a reply of `received` bytes in `buf` means for a challenge that
/// expects a number no larger than `max`: fewer than two bytes fail the run;
/// otherwise the bytes must be UTF-8; the text, cleaned of NULs and white
/// space at both ends, is either the number or fails the run with the
/// parser's message.
pub open spec fn number_reply(buf: Seq<u8>, received: usize, max: u64) -> Result<ReplyView, RunError> {
    if received < 2 {
        Ok(ReplyView::Failed(too_few_message()))
    } else if !valid_utf8(buf) {
        Err(RunError::InvalidUtf8)
    } else {
        match parse_unsigned_spec(cleaned_reply(decode_utf8(buf)), max as int) {
            Ok(n) => Ok(ReplyView::Number(n)),
            Err(e) => Ok(ReplyView::Failed(wrong_message() + ": "@ + num_error_message(e))),
        }
    }
}

/// The mathematical content of a reply.
pub enum ReplyView {
    Number(int),
    Character(char),
    Failed(Seq<char>),
}

impl View for Reply {
    type V = ReplyView;

    open spec fn view(&self) -> ReplyView {
        match self {
            Reply::Number(n) => ReplyView::Number(*n as int),
            Reply::Character(c) => ReplyView::Character(*c),
            Reply::Failed(m) => ReplyView::Failed(m@),
        }
    }
}

/// Reads a numeric reply of the player's program (`received` bytes were read
/// into `buf`).
pub fn read_number_reply(buf: Vec<u8>, received: usize, max: u64) -> (r: Result<Reply, RunError>)
    ensures
        match (r, number_reply(buf@, received, max)) {
            (Ok(a), Ok(b)) => a@ == b,
            (Err(a), Err(b)) => a == b,
            _ => false,
        },
{
    if received < 2 {
        return Ok(Reply::Failed(String::from_str("Your program sent back too few characters. Did you forget the newline?")));
    }
    let ghost bytes = buf@;
    let text = match utf8_string(buf) {
        Some(t) => t,
        None => {
            return Err(RunError::InvalidUtf8);
        },
    };
    let chars = chars_of(text.as_str());
    let cleaned = clean_reply(&chars);
    let cleaned_text = string_from_chars(&cleaned);
    match parse_unsigned(cleaned_text.as_str(), max) {
        Ok(n) => Ok(Reply::Number(n)),
        Err(e) => {
            let mut m = String::from_str("Your program did not produce the correct result: ");
            let em = e.message();
            m.append(em.as_str());
            proof {
                reveal_strlit("Your program did not produce the correct result: ");
                reveal_strlit("Your program did not produce the correct result");
                reveal_strlit(": ");
            }
            assert(m@ =~= wrong_message() + ": "@ + num_error_message(e));
            Ok(Reply::Failed(m))
        },
    }
}

/// A reply line as a program writes it into the reply buffer: the answer, a
/// newline, then `pad` NUL bytes of the buffer left unwritten.
pub open spec fn padded_line(answer: Seq<char>, pad: nat) -> Seq<char> {
    answer + seq!['\n'] + Seq::new(pad, |_i: int| '\0')
}

/// Law: cleaning a reply line of a number gives back the number's digits: the
/// newline and the NUL padding after it are removed, nothing else.
pub proof fn law_clean_padded_number(n: nat, pad: nat)
    ensures
        cleaned_reply(padded_line(decimal(n), pad)) == decimal(n),
{
    let d = decimal(n);
    let t = padded_line(d, pad);
    lemma_decimal_digits(n);
    assert(t[0] == d[0]);
    lemma_leading_exact(t, is_nul(), 0);
    assert forall|k: int| t.len() - pad <= k < t.len() implies is_nul()(#[trigger] t[k]) by {
        assert(t[k] == '\0');
    }
    assert(t[t.len() - pad - 1] == '\n');
    lemma_trailing_exact(t, is_nul(), pad as int);
    let u = d + seq!['\n'];
    assert(t.skip(0) =~= t);
    assert(trim_by(t, is_nul()) =~= u);
    assert(u[0] == d[0]);
    lemma_leading_exact(u, is_blank(), 0);
    assert(u[u.len() - 1] == '\n');
    assert(u[u.len() - 2] == d[d.len() - 1]);
    lemma_trailing_exact(u, is_blank(), 1);
    assert(u.skip(0) =~= u);
    assert(trim_by(u, is_blank()) =~= d);
}

/// Law: a reply of at least two received bytes whose text, cleaned of NULs
/// and white space, is the decimal rendering of a number no larger than `max`
/// is read as that number, so is in particular a reply line of its digits, a
/// newline and NUL padding; only a reply of fewer than two bytes is refused as
/// too few characters.
pub proof fn law_number_reply_reads_numbers(buf: Seq<u8>, received: usize, max: u64, n: nat, pad: nat)
    ensures
        received < 2 ==> number_reply(buf, received, max) == Ok::<ReplyView, RunError>(ReplyView::Failed(too_few_message())),
        received >= 2 && valid_utf8(buf) && cleaned_reply(decode_utf8(buf)) == decimal(n) && n <= max
            ==> number_reply(buf, received, max) == Ok::<ReplyView, RunError>(ReplyView::Number(n as int)),
        received >= 2 && valid_utf8(buf) && decode_utf8(buf) == padded_line(decimal(n), pad) && n <= max
            ==> number_reply(buf, received, max) == Ok::<ReplyView, RunError>(ReplyView::Number(n as int)),
        received >= 2 && valid_utf8(buf) ==> !(number_reply(buf, received, max) matches Ok(ReplyView::Failed(m)) && m == too_few_message()),
{
    if n <= max {
        law_parse_decimal(n, max as int);
        law_clean_padded_number(n, pad);
    }
    if received >= 2 && valid_utf8(buf) {
        reveal_strlit("Your program sent back too few characters. Did you forget the newline?");
        reveal_strlit("Your program did not produce the correct result");
        if let Err(e) = parse_unsigned_spec(cleaned_reply(decode_utf8(buf)), max as int) {
            let w = wrong_message() + ": "@ + num_error_message(e);
            assert(w[13] == 'd');
            assert(too_few_message()[13] == 's');
        }
    }
}

/// What a reply of `received` bytes in `buf` means for a challenge that
/// expects a single character: fewer than two bytes fail the run, otherwise
/// the first byte is the answer, read as a character.
pub open spec fn char_reply(buf: Seq<u8>, received: usize) -> ReplyView {
    if received < 2 || buf.len() == 0 {
        ReplyView::Failed(too_few_message())
    } else {
        ReplyView::Character(buf[0] as char)
    }
}

/// Reads a one-character reply of the player's program.
pub fn read_char_reply(buf: &Vec<u8>, received: usize) -> (r: Reply)
    requires
        received >= 2 ==> buf@.len() > 0,
    ensures
        r@ == char_reply(buf@, received),
{
    if received < 2 {
        return Reply::Failed(String::from_str("Your program sent back too few characters. Did you forget the newline?"));
    }
    Reply::Character(buf[0] as char)
}

fn chars_of(s: &str) -> (r: Vec<char>)
    ensures
        r@ == s@,
{
    let n = s.unicode_len();
    let mut v: Vec<char> = Vec::new();
    let mut i: usize = 0;
    while i < n
        invariant
            n == s@.len(),
            i <= n,
            v@ == s@.subrange(0, i as int),
        decreases n - i,
    {
        v.push(s.get_char(i));
        assert(v@ =~= s@.subrange(0, i as int + 1));
        i = i + 1;
    }
    assert(s@.subrange(0, n as int) =~= s@);
    v
}

fn string_from_chars(v: &Vec<char>) -> (s: String)
    ensures
        s@ == v@,
{
    let mut s = String::new();
    let mut i: usize = 0;
    while i < v.len()
        invariant
            0 <= i <= v@.len(),
            s@ == v@.subrange(0, i as int),
        decreases v@.len() - i,
    {
        crate::text::push_char(&mut s, v[i]);
        assert(s@ =~= v@.subrange(0, i as int + 1));
        i = i + 1;
    }
    assert(v@.subrange(0, v@.len() as int) =~= v@);
    s
}

/// The score that a run starts from: a run is started from a success.
pub fn start_score(test: TestResult) -> (r: Result<Score, String>)
    ensures
        match test {
            TestResult::Success(s) => r == Ok::<Score, String>(s),
            _ => r matches Err(m) && m@ == "Please start with a success variant"@,
        },
{
    match test {
        TestResult::Success(score) => Ok(score),
        _ => Err(String::from_str("Please start with a success variant")),
    }
}

/// One step of a run that expects numbers: a number is added to the answers;
/// a failed reply ends the run, whose message is returned; a character is
/// passed over.
pub fn collect_number(answers: &mut Vec<u64>, reply: Reply) -> (r: Option<String>)
    ensures
        match reply {
            Reply::Number(n) => r is None && final(answers)@ == old(answers)@.push(n),
            Reply::Failed(m) => r == Some(m) && final(answers)@ == old(answers)@,
            Reply::Character(_) => r is None && final(answers)@ == old(answers)@,
        },
{
    match reply {
        Reply::Number(n) => {
            answers.push(n);
            None
        },
        Reply::Failed(m) => Some(m),
        Reply::Character(_) => None,
    }
}

/// One step of a run that expects characters: a character is added to the
/// answers; a failed reply ends the run, whose message is returned; a number
/// is passed over.
pub fn collect_char(answers: &mut String, reply: Reply) -> (r: Option<String>)
    ensures
        match reply {
            Reply::Character(c) => r is None && final(answers)@ == old(answers)@.push(c),
            Reply::Failed(m) => r == Some(m) && final(answers)@ == old(answers)@,
            Reply::Number(_) => r is None && final(answers)@ == old(answers)@,
        },
{
    match reply {
        Reply::Character(c) => {
            push_char(answers, c);
            None
        },
        Reply::Failed(m) => Some(m),
        Reply::Number(_) => None,
    }
}

/// Answered numbers as integers.
pub open spec fn numbers_of(answers: Seq<u64>) -> Seq<int> {
    answers.map_values(|x: u64| x as int)
}

/// The numbers answered so far as a JSON list: `[a, b, c]`.
pub open spec fn answers_json(answers: Seq<u64>) -> Seq<char> {
    json_int_list_sep(numbers_of(answers), ", "@)
}

/// Writes the numbers answered so far as a JSON list.
pub fn make_answers_json(answers: &Vec<u64>) -> (r: String)
    ensures
        r@ == answers_json(answers@),
{
    let mut s = String::from_str("[");
    let mut i: usize = 0;
    proof {
        reveal_strlit("[");
        reveal_strlit("]");
        reveal_strlit(", ");
    }
    while i < answers.len()
        invariant
            0 <= i <= answers@.len(),
            s@ == "["@ + json_int_items_sep(numbers_of(answers@.subrange(0, i as int)), ", "@),
        decreases answers@.len() - i,
    {
        let ghost prefix = numbers_of(answers@.subrange(0, i as int + 1));
        assert(prefix.drop_last() =~= numbers_of(answers@.subrange(0, i as int)));
        assert(prefix.last() == answers@[i as int] as int);
        if i != 0 {
            s.append(", ");
        }
        push_decimal(&mut s, answers[i]);
        assert(s@ =~= "["@ + json_int_items_sep(prefix, ", "@));
        i = i + 1;
    }
    assert(answers@.subrange(0, answers@.len() as int) =~= answers@);
    s.append("]");
    s
}

/// How the player's program ended.
#[derive(Debug, Clone)]
pub enum Verdict {
    /// It exited with a failure status and printed this on stderr.
    Crashed(String),
    /// It finished; whether its answers were correct.
    Answered(bool),
}

/// The test result of a run that took `elapsed_ns` nanoseconds: too slow if
/// that does not fit in a `u64`; otherwise the score carries the time and the
/// verdict decides.
pub open spec fn concluded(score: ScoreView, elapsed_ns: u128, crashed: Option<Seq<char>>, correct: bool) -> TestResultView {
    if elapsed_ns > u64::MAX {
        TestResultView::Fail(too_slow_message())
    } else {
        match crashed {
            Some(stderr) => TestResultView::Fail(crash_message(stderr)),
            None => if correct {
                TestResultView::Success(ScoreView { time_ns: elapsed_ns as u64, ..score })
            } else {
                TestResultView::Fail(wrong_message())
            },
        }
    }
}

/// Law: a run that finished with correct answers in a time that fits in a
/// `u64` succeeds with its score carrying exactly that time and nothing else
/// changed; wrong answers, a crash or a time too large to record fail the run,
/// a crash with what the program printed on stderr at the end of the message.
pub proof fn law_conclusion_of_a_run(score: ScoreView, elapsed_ns: u128, stderr: Seq<char>, correct: bool)
    ensures
        elapsed_ns <= u64::MAX ==> concluded(score, elapsed_ns, None, true) == TestResultView::Success(ScoreView {
            name: score.name,
            command: score.command,
            time_ns: elapsed_ns as u64,
            hash: score.hash,
            language: score.language,
        }),
        elapsed_ns <= u64::MAX ==> concluded(score, elapsed_ns, None, false) == TestResultView::Fail(wrong_message()),
        elapsed_ns <= u64::MAX ==> (concluded(score, elapsed_ns, Some(stderr), correct) matches TestResultView::Fail(m)
            && m.len() >= stderr.len() && m.subrange(m.len() - stderr.len(), m.len() as int) == stderr),
        elapsed_ns > u64::MAX ==> concluded(score, elapsed_ns, Some(stderr), correct) == TestResultView::Fail(too_slow_message()),
        elapsed_ns > u64::MAX ==> concluded(score, elapsed_ns, None, correct) == TestResultView::Fail(too_slow_message()),
{
    let m = crash_message(stderr);
    assert(m.subrange(m.len() - stderr.len(), m.len() as int) =~= stderr);
}

/// Turns the measured time and the verdict into the test result.
pub fn conclude(score: Score, elapsed_ns: u128, verdict: Verdict) -> (r: TestResult)
    ensures
        r@ == concluded(
            score@,
            elapsed_ns,
            match verdict { Verdict::Crashed(e) => Some(e@), Verdict::Answered(_) => None },
            match verdict { Verdict::Answered(c) => c, Verdict::Crashed(_) => false },
        ),
{
    if elapsed_ns > 0xffff_ffff_ffff_ffffu128 {
        return TestResult::Fail(String::from_str("Your program is way too slow"));
    }
    let mut score = score;
    score.time_ns = elapsed_ns as u64;
    match verdict {
        Verdict::Crashed(stderr) => {
            let mut m = String::from_str("Your program exited with a non-zero status code: ");
            m.append(stderr.as_str());
            TestResult::Fail(m)
        },
        Verdict::Answered(true) => TestResult::Success(score),
        Verdict::Answered(false) => TestResult::Fail(String::from_str("Your program did not produce the correct result")),
    }
}

/// What to do once a test result is known.
#[derive(Debug, Clone, Copy, PartialEq, Eq, Structural)]
pub struct AfterTest {
    /// Check for the spot prize and record the score.
    pub record: bool,
    /// Announce a won spot prize.
    pub announce_prize: bool,
    /// Announce the new score with the leaderboard.
    pub announce_score: bool,
    /// Announce the copied submission with the leaderboard.
    pub announce_copy: bool,
}

/// The steps after a test: a successful run is recorded unless in test mode.
/// Nothing is announced unless publishing. When publishing, a success
/// announces its score, and a won prize when it was recorded; a copied run
/// announces the copy outside test mode; a failed run leads to nothing more.
pub open spec fn after_test_spec(result: TestResultView, test_mode: bool, publish: bool) -> AfterTest {
    match result {
        TestResultView::Success(_) => AfterTest {
            record: !test_mode,
            announce_prize: publish && !test_mode,
            announce_score: publish,
            announce_copy: false,
        },
        TestResultView::Stolen(_, _) => AfterTest {
            record: false,
            announce_prize: false,
            announce_score: false,
            announce_copy: publish && !test_mode,
        },
        TestResultView::Fail(_) => AfterTest {
            record: false,
            announce_prize: false,
            announce_score: false,
            announce_copy: false,
        },
    }
}

/// Decides the steps after a test.
pub fn after_test(result: &TestResult, test_mode: bool, publish: bool) -> (r: AfterTest)
    ensures
        r == after_test_spec(result@, test_mode, publish),
        !publish ==> !r.announce_prize && !r.announce_score && !r.announce_copy,
{
    match result {
        TestResult::Success(_) => AfterTest {
            record: !test_mode,
            announce_prize: publish && !test_mode,
            announce_score: publish,
            announce_copy: false,
        },
        TestResult::Stolen(_, _) => AfterTest {
            record: false,
            announce_prize: false,
            announce_score: false,
            announce_copy: publish && !test_mode,
        },
        TestResult::Fail(_) => AfterTest {
            record: false,
            announce_prize: false,
            announce_score: false,
            announce_copy: false,
        },
    }
}

/// Law: in quiet mode nothing is announced, whatever the test result.
pub proof fn law_quiet_mode_announces_nothing(result: TestResultView, test_mode: bool)
    ensures
        !after_test_spec(result, test_mode, false).announce_prize,
        !after_test_spec(result, test_mode, false).announce_score,
        !after_test_spec(result, test_mode, false).announce_copy,
{
}

/// The part of a command that names the program: what follows its last
/// space (the whole command if it has none).
pub open spec fn program_path(command: Seq<char>) -> Seq<char> {
    command.skip(last_space_end(command, command.len() as int))
}

/// One past the position of the last space among the first `n` characters,
/// or 0 if there is none.
pub open spec fn last_space_end(s: Seq<char>, n: int) -> int
    decreases n,
{
    if n <= 0 {
        0
    } else if s[n - 1] == ' ' {
        n
    } else {
        last_space_end(s, n - 1)
    }
}

proof fn lemma_last_space_end_bound(s: Seq<char>, n: int)
    requires
        0 <= n <= s.len(),
    ensures
        0 <= last_space_end(s, n) <= n,
    decreases n,
{
    if n > 0 && s[n - 1] != ' ' {
        lemma_last_space_end_bound(s, n - 1);
    }
}

/// The program named by a command, the file whose hash identifies a
/// submission.
pub fn get_program_path(command: &str) -> (r: String)
    ensures
        r@ == program_path(command@),
{
    let n = command.unicode_len();
    let mut i: usize = n;
    while i > 0 && command.get_char(i - 1) != ' '
        invariant
            n == command@.len(),
            i <= n,
            last_space_end(command@, n as int) == last_space_end(command@, i as int),
        decreases i,
    {
        i = i - 1;
    }
    proof { lemma_last_space_end_bound(command@, n as int); }
    let part = command.substring_char(i, n);
    assert(part@ =~= command@.skip(i as int));
    String::from_str(part)
}

} // verus!
