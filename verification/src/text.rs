//! Text operations that the search and the messages need.

use vstd::prelude::*;
use vstd::string::StringExecFns;

verus! {

/// The lower-case form of a text, as `str::to_lowercase` gives it.
pub uninterp spec fn lowercase_text(text: Seq<char>) -> Seq<char>;

/// Whether `needle` occurs in `hay` as a run of consecutive characters.
pub open spec fn occurs_in(needle: Seq<char>, hay: Seq<char>) -> bool {
    exists|at: int|
        0 <= at && at + needle.len() <= hay.len() && #[trigger] hay.subrange(
            at,
            at + needle.len(),
        ) == needle
}

/// The character for a digit.
pub open spec fn digit_char(digit: nat) -> char {
    if digit == 0 {
        '0'
    } else if digit == 1 {
        '1'
    } else if digit == 2 {
        '2'
    } else if digit == 3 {
        '3'
    } else if digit == 4 {
        '4'
    } else if digit == 5 {
        '5'
    } else if digit == 6 {
        '6'
    } else if digit == 7 {
        '7'
    } else if digit == 8 {
        '8'
    } else {
        '9'
    }
}

/// A number in decimal digits, without leading zeros.
pub open spec fn decimal_text(number: nat) -> Seq<char>
    decreases number,
{
    if number < 10 {
        seq![digit_char(number)]
    } else {
        decimal_text(number / 10).push(digit_char(number % 10))
    }
}

/// Calls `str::to_lowercase`. The result depends on the text alone; the
/// standard library defines it by the Unicode lower-case mapping, which is
/// not restated here.
#[verifier::external_body]
pub(crate) fn to_lowercase(text: &str) -> (lower: String)
    ensures
        lower@ == lowercase_text(text@),
{
    text.to_lowercase()
}

/// Calls `str::contains` with a text as the pattern: whether the pattern
/// occurs in the text.
#[verifier::external_body]
pub(crate) fn contains_text(hay: &str, needle: &str) -> (found: bool)
    ensures
        found == occurs_in(needle@, hay@),
{
    hay.contains(needle)
}

/// Calls `u64::to_string`: the number in decimal digits.
#[verifier::external_body]
pub(crate) fn number_text(number: u64) -> (text: String)
    ensures
        text@ == decimal_text(number as nat),
{
    number.to_string()
}

/// A number has at least one digit.
pub proof fn lemma_decimal_text_len(number: nat)
    ensures
        decimal_text(number).len() >= 1,
    decreases number,
{
    if number >= 10 {
        lemma_decimal_text_len(number / 10);
    }
}

/// `before`, then `id` in decimal digits, then `after`.
pub fn about_id(before: &str, id: u64, after: &str) -> (text: String)
    ensures
        text@ == before@ + decimal_text(id as nat) + after@,
        text@.len() > 0,
{
    proof {
        lemma_decimal_text_len(id as nat);
    }
    let digits = number_text(id);
    String::from_str(before).concat(digits.as_str()).concat(after)
}

/// `before`, then `inner`, then `after`.
pub fn about_text(before: &str, inner: &str, after: &str) -> (text: String)
    ensures
        text@ == before@ + inner@ + after@,
        text@.len() >= before@.len(),
{
    String::from_str(before).concat(inner).concat(after)
}

} // verus!
