//! Texts that the standard library produces: decimal numerals and
//! upper-cased keys.

use vstd::prelude::*;

verus! {

/// The numeral of one decimal digit.
pub open spec fn digit(d: int) -> char {
    if d == 0 {
        '0'
    } else if d == 1 {
        '1'
    } else if d == 2 {
        '2'
    } else if d == 3 {
        '3'
    } else if d == 4 {
        '4'
    } else if d == 5 {
        '5'
    } else if d == 6 {
        '6'
    } else if d == 7 {
        '7'
    } else if d == 8 {
        '8'
    } else {
        '9'
    }
}

/// The decimal numeral of a natural number, without leading zeros.
pub open spec fn digits(n: nat) -> Seq<char>
    decreases n,
{
    if n < 10 {
        seq![digit(n as int)]
    } else {
        digits(n / 10).push(digit((n % 10) as int))
    }
}

/// The decimal numeral of an integer, with a minus sign where it is
/// negative.
pub open spec fn decimal_text(n: int) -> Seq<char> {
    if n < 0 {
        seq!['-'] + digits((-n) as nat)
    } else {
        digits(n as nat)
    }
}

/// The text in upper case, as `str::to_uppercase` maps it.
pub uninterp spec fn uppercase(text: Seq<char>) -> Seq<char>;

/// Calls `i64::to_string`. Not proved: that the standard library writes the
/// decimal numeral, with a minus sign before a negative number.
#[verifier::external_body]
pub(crate) fn decimal(n: i64) -> (text: String)
    ensures
        text@ == decimal_text(n as int),
{
    n.to_string()
}

/// Calls `str::to_uppercase`. Not proved: that the text handed out is the
/// one that `uppercase` names.
#[verifier::external_body]
pub(crate) fn upper(text: &str) -> (raised: String)
    ensures
        raised@ == uppercase(text@),
{
    text.to_uppercase()
}

/// `part` occurs in `text` as one run of characters.
pub open spec fn occurs_in(text: Seq<char>, part: Seq<char>) -> bool {
    exists|at: int|
        0 <= at && at + part.len() <= text.len() && #[trigger] text.subrange(
            at,
            at + part.len(),
        ) == part
}

/// The value of a decimal digit of the ASCII range.
pub open spec fn digit_value(c: char) -> Option<int> {
    if '0' <= c <= '9' {
        Some(c as int - '0' as int)
    } else {
        None
    }
}

/// All the characters of `text` from `from` up to `to` are ASCII digits.
pub open spec fn all_digits(text: Seq<char>, from: int, to: int) -> bool {
    forall|i: int| from <= i < to ==> digit_value(#[trigger] text[i]).is_some()
}

/// The number that the digits of `text` from `from` up to `to` write.
pub open spec fn number_at(text: Seq<char>, from: int, to: int) -> int
    decreases to - from,
{
    if to <= from {
        0
    } else {
        number_at(text, from, to - 1) * 10 + digit_value(text[to - 1]).unwrap_or(0)
    }
}

/// The 64-bit integer that a text writes: an optional sign, `+` or `-`,
/// then one decimal digit of the ASCII range or more, and nothing else;
/// `None` where the text is of another form or the number does not fit 64
/// bits.
pub open spec fn integer_text(text: Seq<char>) -> Option<int> {
    let from: int = if text.len() > 0 && (text[0] == '+' || text[0] == '-') {
        1
    } else {
        0
    };
    if from < text.len() && all_digits(text, from, text.len() as int) {
        let size = number_at(text, from, text.len() as int);
        let value = if text[0] == '-' {
            -size
        } else {
            size
        };
        if i64::MIN <= value <= i64::MAX {
            Some(value)
        } else {
            None
        }
    } else {
        None
    }
}

/// Calls `str::contains` with a string as the pattern. Not proved: that the
/// standard library finds the part exactly where it occurs.
#[verifier::external_body]
pub(crate) fn has_part(text: &str, part: &str) -> (found: bool)
    ensures
        found == occurs_in(text@, part@),
{
    text.contains(part)
}

/// Calls `str::parse` for an `i64`. Not proved: that the standard library
/// reads an optional sign and decimal digits, and refuses every other text
/// and every number that does not fit 64 bits.
#[verifier::external_body]
pub(crate) fn parse_i64(text: &str) -> (number: Option<i64>)
    ensures
        match number {
            Some(n) => integer_text(text@) == Some(n as int),
            None => integer_text(text@).is_none(),
        },
{
    text.parse::<i64>().ok()
}

/// The text with every occurrence of `from` replaced by `to`, as
/// `str::replace` does it.
pub uninterp spec fn replaced(text: Seq<char>, from: Seq<char>, to: Seq<char>) -> Seq<char>;

/// Calls `str::replace`. Not proved: that the text handed out is the one
/// that `replaced` names.
#[verifier::external_body]
pub(crate) fn replace_all(text: &str, from: &str, to: &str) -> (changed: String)
    ensures
        changed@ == replaced(text@, from@, to@),
{
    text.replace(from, to)
}

/// The text without the white space at its two ends, as `str::trim` cuts
/// it.
pub uninterp spec fn trimmed(text: Seq<char>) -> Seq<char>;

/// Calls `str::trim`. Not proved: that the text handed out is the one that
/// `trimmed` names.
#[verifier::external_body]
pub(crate) fn trim(text: &str) -> (cut: String)
    ensures
        cut@ == trimmed(text@),
{
    text.trim().to_string()
}

/// A text or its absence, twice over, as sequences of characters.
pub open spec fn found_text(found: Option<Option<String>>) -> Option<Option<Seq<char>>> {
    match found {
        None => None,
        Some(None) => Some(None),
        Some(Some(text)) => Some(Some(text@)),
    }
}

} // verus!
