//! Small text utilities: character pushes, string comparison, lower-casing,
//! decimal rendering and decimal parsing of unsigned integers.
use vstd::prelude::*;

verus! {

/// Appends one character to a `String`.
///
/// Trusted: `String::push` appends `c` at the end of the string.
#[verifier::external_body]
pub fn push_char(s: &mut String, c: char)
    ensures
        final(s)@ == old(s)@.push(c),
{
    s.push(c);
}

/// Compares two string slices for equality.
///
/// Trusted: `<str as PartialEq>::eq` is true exactly when both slices hold the
/// same characters.
#[verifier::external_body]
pub fn str_equal(a: &str, b: &str) -> (r: bool)
    ensures
        r == (a@ == b@),
{
    a == b
}

/// What `str::to_lowercase` returns for a text (Unicode lower-casing).
pub uninterp spec fn lowercase_of(text: Seq<char>) -> Seq<char>;

/// Lower-cases a string slice.
///
/// Trusted: `str::to_lowercase` returns a new string whose contents are a
/// function of the input alone, named `lowercase_of`.  The Unicode case
/// mapping itself is left unstated.
#[verifier::external_body]
pub fn to_lowercase(s: &str) -> (r: String)
    ensures
        r@ == lowercase_of(s@),
{
    s.to_lowercase()
}

/// The ASCII character of a decimal digit.
pub open spec fn digit_char(d: nat) -> char {
    if d == 0 { '0' }
    else if d == 1 { '1' }
    else if d == 2 { '2' }
    else if d == 3 { '3' }
    else if d == 4 { '4' }
    else if d == 5 { '5' }
    else if d == 6 { '6' }
    else if d == 7 { '7' }
    else if d == 8 { '8' }
    else { '9' }
}

/// Whether a character is an ASCII decimal digit.
pub open spec fn is_digit(c: char) -> bool {
    '0' <= c && c <= '9'
}

/// The value of an ASCII decimal digit.
pub open spec fn digit_value(c: char) -> int {
    (c as int) - ('0' as int)
}

/// The decimal rendering of a natural number, without sign or leading zeros.
pub open spec fn decimal(n: nat) -> Seq<char>
    decreases n,
{
    if n < 10 {
        seq![digit_char(n)]
    } else {
        decimal(n / 10).push(digit_char(n % 10))
    }
}

fn digit_to_char(d: u64) -> (c: char)
    requires
        d < 10,
    ensures
        c == digit_char(d as nat),
        is_digit(c),
        digit_value(c) == d,
{
    if d == 0 { '0' }
    else if d == 1 { '1' }
    else if d == 2 { '2' }
    else if d == 3 { '3' }
    else if d == 4 { '4' }
    else if d == 5 { '5' }
    else if d == 6 { '6' }
    else if d == 7 { '7' }
    else if d == 8 { '8' }
    else { '9' }
}

/// Appends the decimal rendering of `n` to `out`.
pub fn push_decimal(out: &mut String, n: u64)
    ensures
        final(out)@ == old(out)@ + decimal(n as nat),
    decreases n,
{
    if n < 10 {
        let c = digit_to_char(n);
        push_char(out, c);
        assert(decimal(n as nat) == seq![digit_char(n as nat)]);
        assert(old(out)@.push(c) =~= old(out)@ + decimal(n as nat));
    } else {
        push_decimal(out, n / 10);
        let c = digit_to_char(n % 10);
        let ghost before = out@;
        push_char(out, c);
        assert(out@ =~= old(out)@ + decimal(n as nat));
    }
}

/// The decimal rendering of `n` as a new string (what `u64::to_string` gives).
pub fn decimal_string(n: u64) -> (r: String)
    ensures
        r@ == decimal(n as nat),
{
    let mut s = String::new();
    push_decimal(&mut s, n);
    assert(s@ =~= decimal(n as nat));
    s
}

/// Why a text is not an unsigned decimal integer, as std's integer parser
/// classifies it.
#[derive(Debug, Clone, Copy, PartialEq, Eq, Structural)]
pub enum NumError {
    Empty,
    InvalidDigit,
    PosOverflow,
}

impl NumError {
    /// The message that std prints for this kind of parse failure.
    pub fn message(&self) -> (r: String)
        ensures
            r@ == num_error_message(*self),
    {
        match self {
            NumError::Empty => String::from_str("cannot parse integer from empty string"),
            NumError::InvalidDigit => String::from_str("invalid digit found in string"),
            NumError::PosOverflow => String::from_str("number too large to fit in target type"),
        }
    }
}

/// The message of each parse failure.
pub open spec fn num_error_message(e: NumError) -> Seq<char> {
    match e {
        NumError::Empty => "cannot parse integer from empty string"@,
        NumError::InvalidDigit => "invalid digit found in string"@,
        NumError::PosOverflow => "number too large to fit in target type"@,
    }
}

/// Left-to-right digit scan from position `i` with accumulated value `acc`:
/// the first non-digit gives `InvalidDigit`, the first step whose value
/// exceeds `max` gives `PosOverflow`.
pub open spec fn scan_digits(s: Seq<char>, i: int, acc: int, max: int) -> Result<int, NumError>
    decreases s.len() - i,
{
    if i >= s.len() || i < 0 {
        Ok(acc)
    } else if !is_digit(s[i]) {
        Err(NumError::InvalidDigit)
    } else if acc * 10 + digit_value(s[i]) > max {
        Err(NumError::PosOverflow)
    } else {
        scan_digits(s, i + 1, acc * 10 + digit_value(s[i]), max)
    }
}

/// Unsigned decimal parsing with an upper bound `max`: an optional leading
/// `+`, then one or more ASCII digits, with no other characters.
pub open spec fn parse_unsigned_spec(s: Seq<char>, max: int) -> Result<int, NumError> {
    if s.len() == 0 {
        Err(NumError::Empty)
    } else if s[0] == '+' {
        if s.len() == 1 {
            Err(NumError::InvalidDigit)
        } else {
            scan_digits(s, 1, 0, max)
        }
    } else {
        scan_digits(s, 0, 0, max)
    }
}

proof fn lemma_scan_bounded(s: Seq<char>, i: int, acc: int, max: int)
    requires
        0 <= acc <= max,
    ensures
        scan_digits(s, i, acc, max) matches Ok(v) ==> 0 <= v <= max,
    decreases s.len() - i,
{
    if i >= s.len() || i < 0 {
    } else if !is_digit(s[i]) {
    } else if acc * 10 + digit_value(s[i]) > max {
    } else {
        lemma_scan_bounded(s, i + 1, acc * 10 + digit_value(s[i]), max);
    }
}

proof fn lemma_digit_char(d: nat)
    requires
        d < 10,
    ensures
        is_digit(digit_char(d)),
        digit_value(digit_char(d)) == d,
{
}

/// The decimal rendering of a number is one or more ASCII digits.
pub proof fn lemma_decimal_digits(n: nat)
    ensures
        decimal(n).len() >= 1,
        forall|k: int| 0 <= k < decimal(n).len() ==> is_digit(#[trigger] decimal(n)[k]),
    decreases n,
{
    if n < 10 {
        lemma_digit_char(n);
    } else {
        lemma_decimal_digits(n / 10);
        lemma_digit_char(n % 10);
        assert forall|k: int| 0 <= k < decimal(n).len() implies is_digit(#[trigger] decimal(n)[k]) by {
            if k < decimal(n / 10).len() {
                assert(decimal(n)[k] == decimal(n / 10)[k]);
            }
        }
    }
}

/// Scanning a text with one more character at the end: the scan of the text,
/// then one more step on that character.
proof fn lemma_scan_push(s: Seq<char>, c: char, i: int, acc: int, max: int)
    requires
        0 <= i <= s.len(),
    ensures
        scan_digits(s.push(c), i, acc, max) == match scan_digits(s, i, acc, max) {
            Ok(v) => if !is_digit(c) {
                Err(NumError::InvalidDigit)
            } else if v * 10 + digit_value(c) > max {
                Err(NumError::PosOverflow)
            } else {
                Ok(v * 10 + digit_value(c))
            },
            Err(e) => Err(e),
        },
    decreases s.len() - i,
{
    let t = s.push(c);
    if i == s.len() {
        assert(t[i] == c);
        assert(scan_digits(t, i + 1, acc * 10 + digit_value(c), max) == Ok::<int, NumError>(acc * 10 + digit_value(c)));
    } else {
        assert(t[i] == s[i]);
        if is_digit(s[i]) && acc * 10 + digit_value(s[i]) <= max {
            lemma_scan_push(s, c, i + 1, acc * 10 + digit_value(s[i]), max);
        }
    }
}

proof fn lemma_scan_decimal(n: nat, max: int)
    requires
        n <= max,
    ensures
        scan_digits(decimal(n), 0, 0, max) == Ok::<int, NumError>(n as int),
    decreases n,
{
    if n < 10 {
        lemma_digit_char(n);
        let s = decimal(n);
        assert(scan_digits(s, 1, n as int, max) == Ok::<int, NumError>(n as int));
    } else {
        lemma_scan_decimal(n / 10, max);
        lemma_digit_char(n % 10);
        lemma_scan_push(decimal(n / 10), digit_char(n % 10), 0, 0, max);
        assert((n / 10) * 10 + n % 10 == n);
    }
}

/// Law: parsing the decimal rendering of a number no larger than `max` gives
/// that number back.
pub proof fn law_parse_decimal(n: nat, max: int)
    requires
        n <= max,
    ensures
        parse_unsigned_spec(decimal(n), max) == Ok::<int, NumError>(n as int),
{
    lemma_decimal_digits(n);
    lemma_scan_decimal(n, max);
    assert(is_digit(decimal(n)[0]));
}

/// Parses an unsigned decimal integer no larger than `max`, the way
/// `str::parse` does for an unsigned integer type whose largest value is `max`.
pub fn parse_unsigned(s: &str, max: u64) -> (r: Result<u64, NumError>)
    ensures
        match (r, parse_unsigned_spec(s@, max as int)) {
            (Ok(a), Ok(b)) => a == b,
            (Err(a), Err(b)) => a == b,
            _ => false,
        },
{
    let n = s.unicode_len();
    if n == 0 {
        return Err(NumError::Empty);
    }
    let mut i: usize = 0;
    if s.get_char(0) == '+' {
        if n == 1 {
            return Err(NumError::InvalidDigit);
        }
        i = 1;
    }
    let start: usize = i;
    let mut acc: u64 = 0;
    proof {
        lemma_scan_bounded(s@, start as int, 0, max as int);
    }
    while i < n
        invariant
            n == s@.len(),
            start <= i <= n,
            start == (if s@[0] == '+' { 1int } else { 0int }),
            acc <= max,
            scan_digits(s@, start as int, 0, max as int) == scan_digits(s@, i as int, acc as int, max as int),
        decreases n - i,
    {
        let c = s.get_char(i);
        if !('0' <= c && c <= '9') {
            return Err(NumError::InvalidDigit);
        }
        let d: u64 = (c as u64) - ('0' as u64);
        assert(d == digit_value(c));
        if d > max || acc > (max - d) / 10 {
            assert(acc * 10 + d > max) by (nonlinear_arith)
                requires d > max || acc > (max - d) / 10, d <= 9, acc >= 0;
            return Err(NumError::PosOverflow);
        }
        assert(acc * 10 + d <= max) by (nonlinear_arith)
            requires acc <= (max - d) / 10, d <= max;
        acc = acc * 10 + d;
        i = i + 1;
    }
    Ok(acc)
}

} // verus!
