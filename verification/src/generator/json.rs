//! JSON encoding of test cases and decoding of answers.
use vstd::prelude::*;
use crate::text::decimal;

verus! {

/// The JSON text of an integer: its decimal digits, after a minus sign when
/// it is negative.
pub open spec fn json_int(x: int) -> Seq<char> {
    if x < 0 { "-"@ + decimal((-x) as nat) } else { decimal(x as nat) }
}

/// The JSON texts of a list of integers, separated by `sep`.
pub open spec fn json_int_items_sep(v: Seq<int>, sep: Seq<char>) -> Seq<char>
    decreases v.len(),
{
    if v.len() == 0 {
        seq![]
    } else if v.len() == 1 {
        json_int(v[0])
    } else {
        json_int_items_sep(v.drop_last(), sep) + sep + json_int(v.last())
    }
}

/// A JSON list of integers with the items separated by `sep`.
pub open spec fn json_int_list_sep(v: Seq<int>, sep: Seq<char>) -> Seq<char> {
    "["@ + json_int_items_sep(v, sep) + "]"@
}

/// The compact JSON text of a list of integers: `[1,-2,3]`.
pub open spec fn json_int_list(v: Seq<int>) -> Seq<char> {
    json_int_list_sep(v, ","@)
}

/// `i32` values as integers.
pub open spec fn ints_of_i32(v: Seq<i32>) -> Seq<int> {
    v.map_values(|x: i32| x as int)
}

/// Bytes as integers.
pub open spec fn ints_of_u8(v: Seq<u8>) -> Seq<int> {
    v.map_values(|x: u8| x as int)
}

/// The JSON texts of a list of integer lists, separated by commas.
pub open spec fn json_list_items(v: Seq<Seq<int>>) -> Seq<char>
    decreases v.len(),
{
    if v.len() == 0 {
        seq![]
    } else if v.len() == 1 {
        json_int_list(v[0])
    } else {
        json_list_items(v.drop_last()) + ","@ + json_int_list(v.last())
    }
}

/// The compact JSON text of a list of integer lists: `[[1,2],[],[-3]]`.
pub open spec fn json_int_lists(v: Seq<Seq<int>>) -> Seq<char> {
    "["@ + json_list_items(v) + "]"@
}

/// The compact JSON text of a list of `i32` lists.
pub open spec fn json_of_i32_lists(v: Seq<Seq<i32>>) -> Seq<char> {
    json_int_lists(v.map_values(|c: Seq<i32>| ints_of_i32(c)))
}

/// Encodes a list of integer lists as JSON.
///
/// Trusted: `serde_json::to_string` on a `Vec<Vec<i32>>` writes compact JSON:
/// each list in square brackets, items separated by commas with no spaces,
/// each integer in decimal with a leading minus sign when negative.  It cannot
/// fail on such a value (serde_json only fails on maps with non-string keys or
/// on failing `Serialize` impls), so the error arm is never taken.
#[verifier::external_body]
pub fn encode_i32_lists(v: &Vec<Vec<i32>>) -> (r: String)
    ensures
        r@ == json_of_i32_lists(v@.map_values(|c: Vec<i32>| c@)),
{
    match serde_json::to_string(v) {
        Ok(s) => s,
        Err(_) => String::new(),
    }
}

/// The compact JSON text of a list of byte lists (bytes as numbers).
pub open spec fn json_of_u8_lists(v: Seq<Seq<u8>>) -> Seq<char> {
    json_int_lists(v.map_values(|c: Seq<u8>| ints_of_u8(c)))
}

/// Encodes a list of byte lists as JSON (numbers, not strings).
///
/// Trusted: `serde_json::to_string` on a `Vec<Vec<u8>>` writes compact JSON as
/// for `i32` lists above, each byte as a decimal number.  It cannot fail on
/// such a value.
#[verifier::external_body]
pub fn encode_u8_lists(v: &Vec<Vec<u8>>) -> (r: String)
    ensures
        r@ == json_of_u8_lists(v@.map_values(|c: Vec<u8>| c@)),
{
    match serde_json::to_string(v) {
        Ok(s) => s,
        Err(_) => String::new(),
    }
}

/// A lower-case hexadecimal digit.
pub open spec fn hex_digit(d: int) -> char {
    if d < 10 { ('0' as int + d) as char } else { ('a' as int + d - 10) as char }
}

/// The JSON text of one character inside a string: a quote or a backslash
/// after a backslash; backspace, tab, line feed, form feed and carriage
/// return as `\b`, `\t`, `\n`, `\f`, `\r`; any other character below
/// U+0020 as `\u00` and two hexadecimal digits; anything else as itself.
pub open spec fn json_char(c: char) -> Seq<char> {
    let n = c as int;
    if c == '"' || c == '\\' {
        seq!['\\', c]
    } else if n == 8 {
        seq!['\\', 'b']
    } else if n == 9 {
        seq!['\\', 't']
    } else if n == 10 {
        seq!['\\', 'n']
    } else if n == 12 {
        seq!['\\', 'f']
    } else if n == 13 {
        seq!['\\', 'r']
    } else if n < 32 {
        seq!['\\', 'u', '0', '0', hex_digit(n / 16), hex_digit(n % 16)]
    } else {
        seq![c]
    }
}

/// The escaped characters of a string.
pub open spec fn json_chars(s: Seq<char>) -> Seq<char>
    decreases s.len(),
{
    if s.len() == 0 { seq![] } else { json_chars(s.drop_last()) + json_char(s.last()) }
}

/// The JSON text of a string: its escaped characters between quotes.
pub open spec fn json_string(s: Seq<char>) -> Seq<char> {
    "\""@ + json_chars(s) + "\""@
}

/// The JSON texts of a list of strings, separated by commas.
pub open spec fn json_string_items(v: Seq<Seq<char>>) -> Seq<char>
    decreases v.len(),
{
    if v.len() == 0 {
        seq![]
    } else if v.len() == 1 {
        json_string(v[0])
    } else {
        json_string_items(v.drop_last()) + ","@ + json_string(v.last())
    }
}

/// The compact JSON text of a list of strings: `["a","b\"c"]`.
pub open spec fn json_of_strings(v: Seq<Seq<char>>) -> Seq<char> {
    "["@ + json_string_items(v) + "]"@
}

/// Encodes a list of strings as JSON.
///
/// Trusted: `serde_json::to_string` on a `Vec<String>` writes compact JSON:
/// the strings in square brackets, separated by commas with no spaces, each
/// between quotes with the escapes of `json_char` (the escape table of
/// serde_json's compact formatter).  It cannot fail on such a value.
#[verifier::external_body]
pub fn encode_strings(v: &Vec<String>) -> (r: String)
    ensures
        r@ == json_of_strings(v@.map_values(|c: String| c@)),
{
    match serde_json::to_string(v) {
        Ok(s) => s,
        Err(_) => String::new(),
    }
}

/// The JSON text of a (text, number) pair: a two-element array.
pub open spec fn json_pair(p: (Seq<char>, usize)) -> Seq<char> {
    "["@ + json_string(p.0) + ","@ + json_int(p.1 as int) + "]"@
}

/// The JSON texts of a list of (text, number) pairs, separated by commas.
pub open spec fn json_pair_items(v: Seq<(Seq<char>, usize)>) -> Seq<char>
    decreases v.len(),
{
    if v.len() == 0 {
        seq![]
    } else if v.len() == 1 {
        json_pair(v[0])
    } else {
        json_pair_items(v.drop_last()) + ","@ + json_pair(v.last())
    }
}

/// The compact JSON text of a list of (text, number) pairs: `[["ab",3]]`.
pub open spec fn json_of_text_number_pairs(v: Seq<(Seq<char>, usize)>) -> Seq<char> {
    "["@ + json_pair_items(v) + "]"@
}

/// Encodes a list of (text, number) pairs as JSON.
///
/// Trusted: `serde_json::to_string` on a `Vec<(String, usize)>` writes
/// compact JSON: each pair as a two-element array of the escaped string and
/// the number in decimal, the arrays in square brackets separated by commas.
/// It cannot fail on such a value.
#[verifier::external_body]
pub fn encode_text_number_pairs(v: &Vec<(String, usize)>) -> (r: String)
    ensures
        r@ == json_of_text_number_pairs(v@.map_values(|c: (String, usize)| (c.0@, c.1))),
{
    match serde_json::to_string(v) {
        Ok(s) => s,
        Err(_) => String::new(),
    }
}

/// A reading of `text` as a list of `i32` values gives back every list whose
/// JSON text, with the items separated by a comma or by a comma and one
/// space, is `text`.
pub open spec fn reads_back_i32_list(text: Seq<char>, r: Option<Vec<i32>>) -> bool {
    forall|v: Seq<i32>|
        #![trigger json_int_list_sep(ints_of_i32(v), ","@)]
        #![trigger json_int_list_sep(ints_of_i32(v), ", "@)]
        json_int_list_sep(ints_of_i32(v), ","@) == text || json_int_list_sep(ints_of_i32(v), ", "@) == text
            ==> (r matches Some(w) && w@ == v)
}

/// What `serde_json` reads from a text as a list of `i32`: the list, or
/// nothing when the text is not such a list.
pub uninterp spec fn json_i32_list(text: Seq<char>) -> Option<Seq<i32>>;

/// Decodes a JSON list of `i32`.
///
/// Trusted: `serde_json::from_str::<Vec<i32>>`; whether it succeeds and what
/// it yields depend on the text alone, named `json_i32_list`.  A list written
/// in square brackets, its items in decimal (a minus sign before a negative
/// one) separated by a comma with or without one space, is read back as those
/// values: the deserializer skips whitespace around items and takes any
/// decimal in the range of `i32`.
#[verifier::external_body]
pub fn decode_i32_list(text: &str) -> (r: Option<Vec<i32>>)
    ensures
        match r {
            Some(v) => json_i32_list(text@) == Some(v@),
            None => json_i32_list(text@) is None,
        },
        reads_back_i32_list(text@, r),
{
    match serde_json::from_str::<Vec<i32>>(text) {
        Ok(v) => Some(v),
        Err(_) => None,
    }
}

/// A reading of `text` as a list of bytes gives back every list whose
/// JSON text, with the items separated by a comma or by a comma and one
/// space, is `text`.
pub open spec fn reads_back_u8_list(text: Seq<char>, r: Option<Vec<u8>>) -> bool {
    forall|v: Seq<u8>|
        #![trigger json_int_list_sep(ints_of_u8(v), ","@)]
        #![trigger json_int_list_sep(ints_of_u8(v), ", "@)]
        json_int_list_sep(ints_of_u8(v), ","@) == text || json_int_list_sep(ints_of_u8(v), ", "@) == text
            ==> (r matches Some(w) && w@ == v)
}

/// What `serde_json` reads from a text as a list of `u8`.
pub uninterp spec fn json_u8_list(text: Seq<char>) -> Option<Seq<u8>>;

/// Decodes a JSON list of `u8`.
///
/// Trusted: `serde_json::from_str::<Vec<u8>>`; whether it succeeds and what it
/// yields depend on the text alone, named `json_u8_list`.  A list written in
/// square brackets, its bytes in decimal separated by a comma with or without
/// one space, is read back as those bytes.
#[verifier::external_body]
pub fn decode_u8_list(text: &str) -> (r: Option<Vec<u8>>)
    ensures
        match r {
            Some(v) => json_u8_list(text@) == Some(v@),
            None => json_u8_list(text@) is None,
        },
        reads_back_u8_list(text@, r),
{
    match serde_json::from_str::<Vec<u8>>(text) {
        Ok(v) => Some(v),
        Err(_) => None,
    }
}

/// The contents of a list of strings.
pub open spec fn string_views(v: Seq<String>) -> Seq<Seq<char>> {
    v.map_values(|c: String| c@)
}

/// A reading of `text` as a list of strings gives back every list whose
/// JSON text is `text`.
pub open spec fn reads_back_strings(text: Seq<char>, r: Option<Vec<String>>) -> bool {
    forall|v: Seq<Seq<char>>| #[trigger] json_of_strings(v) == text
        ==> (r matches Some(w) && string_views(w@) == v)
}

/// What `serde_json` reads from a text as a list of strings.
pub uninterp spec fn json_string_list(text: Seq<char>) -> Option<Seq<Seq<char>>>;

/// Decodes a JSON list of strings.
///
/// Trusted: `serde_json::from_str::<Vec<String>>`; whether it succeeds and what
/// it yields depend on the text alone, named `json_string_list`.  The text that
/// `encode_strings` writes for a list of strings is read back as that list:
/// the deserializer undoes each escape of `json_char`.
#[verifier::external_body]
pub fn decode_string_list(text: &str) -> (r: Option<Vec<String>>)
    ensures
        match r {
            Some(v) => json_string_list(text@) == Some(v@.map_values(|c: String| c@)),
            None => json_string_list(text@) is None,
        },
        reads_back_strings(text@, r),
{
    match serde_json::from_str::<Vec<String>>(text) {
        Ok(v) => Some(v),
        Err(_) => None,
    }
}

} // verus!
