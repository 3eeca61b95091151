//! Regular expressions, as the `regex` crate evaluates them, and the reading
//! of decimal numbers.

use vstd::prelude::*;
use vstd::string::*;
use regex::Regex;
use crate::text::chars_of;

verus! {

/// What `regex` answers when `text` is searched for `pattern`: whether there
/// is a match, or nothing where `pattern` is not a regular expression that
/// `regex` accepts.
pub uninterp spec fn regex_match(pattern: Seq<char>, text: Seq<char>) -> Option<bool>;

/// What `regex` captures in group `group` at the first match of `pattern` in
/// `text`: the text of the group, nothing where there is no match or the
/// group took no part in it; and nothing at all where `pattern` is not a
/// regular expression that `regex` accepts.
pub uninterp spec fn regex_group(pattern: Seq<char>, text: Seq<char>, group: nat) -> Option<
    Option<Seq<char>>,
>;

/// A captured group as the contracts see it.
pub open spec fn capture_view(captured: Option<Option<String>>) -> Option<Option<Seq<char>>> {
    match captured {
        Some(Some(text)) => Some(Some(text@)),
        Some(None) => Some(None),
        None => None,
    }
}

/// `Regex::new` followed by `Regex::is_match`. Both depend on their
/// arguments alone, so the contract names the answer `regex_match` of the
/// pattern and the text; it claims nothing of what the answer is.
#[verifier::external_body]
pub(crate) fn search(pattern: &str, text: &str) -> (found: Option<bool>)
    ensures
        found == regex_match(pattern@, text@),
{
    match Regex::new(pattern) {
        Ok(expression) => Some(expression.is_match(text)),
        Err(_) => None,
    }
}

/// `Regex::new` followed by `Regex::captures`, `Captures::get` and
/// `Match::as_str`. All depend on their arguments alone, so the contract
/// names the answer `regex_group` of the pattern, the text and the group; it
/// claims nothing of what the answer is.
#[verifier::external_body]
pub(crate) fn capture(pattern: &str, text: &str, group: usize) -> (captured: Option<
    Option<String>,
>)
    ensures
        capture_view(captured) == regex_group(pattern@, text@, group as nat),
{
    match Regex::new(pattern) {
        Ok(expression) => Some(
            expression.captures(text).and_then(|found| found.get(group)).map(
                |part| part.as_str().to_string(),
            ),
        ),
        Err(_) => None,
    }
}

/// The value of a decimal digit.
pub open spec fn digit_value(c: char) -> Option<nat> {
    if '0' <= c && c <= '9' {
        Some((c as nat - '0' as nat) as nat)
    } else {
        None
    }
}

/// The number that a sequence of decimal digits writes; nothing where a
/// character is no decimal digit.
pub open spec fn decimal_value(digits: Seq<char>) -> Option<nat>
    decreases digits.len(),
{
    if digits.len() == 0 {
        Some(0)
    } else {
        match (decimal_value(digits.drop_last()), digit_value(digits.last())) {
            (Some(value), Some(digit)) => Some(10 * value + digit),
            _ => None,
        }
    }
}

/// The number below 256 that `digits` writes: there is at least one
/// character, each is a decimal digit, and the value fits.
pub open spec fn decimal_byte(digits: Seq<char>) -> Option<u8> {
    match decimal_value(digits) {
        Some(value) => if digits.len() > 0 && value <= u8::MAX {
            Some(value as u8)
        } else {
            None
        },
        None => None,
    }
}

/// A number written with more digits is not smaller.
proof fn lemma_decimal_value_grows(digits: Seq<char>, shorter: int)
    requires
        0 <= shorter <= digits.len(),
        decimal_value(digits) is Some,
    ensures
        decimal_value(digits.take(shorter)) is Some,
        decimal_value(digits.take(shorter))->Some_0 <= decimal_value(digits)->Some_0,
    decreases digits.len() - shorter,
{
    if shorter == digits.len() {
        assert(digits.take(shorter) =~= digits);
    } else {
        lemma_decimal_value_grows(digits.drop_last(), shorter);
        assert(digits.drop_last().take(shorter) =~= digits.take(shorter));
    }
}

/// Reads a number below 256 written in decimal digits.
pub fn parse_decimal_byte(digits: &str) -> (number: Option<u8>)
    ensures
        number == decimal_byte(digits@),
{
    let chars = chars_of(digits);
    if chars.len() == 0 {
        return None;
    }
    let mut value: u32 = 0;
    let mut i: usize = 0;
    while i < chars.len()
        invariant
            i <= chars.len(),
            chars@ == digits@,
            value <= u8::MAX,
            decimal_value(chars@.take(i as int)) == Some(value as nat),
        decreases chars.len() - i,
    {
        let c = chars[i];
        proof {
            assert(chars@.take(i + 1).drop_last() =~= chars@.take(i as int));
        }
        if c < '0' || c > '9' {
            proof {
                if decimal_value(chars@) is Some {
                    lemma_decimal_value_grows(chars@, i + 1);
                }
            }
            return None;
        }
        let digit: u32 = c as u32 - '0' as u32;
        let next: u32 = 10 * value + digit;
        if next > 255 {
            proof {
                if decimal_value(chars@) is Some {
                    lemma_decimal_value_grows(chars@, i + 1);
                }
            }
            return None;
        }
        value = next;
        i += 1;
    }
    proof {
        assert(chars@.take(i as int) =~= chars@);
    }
    Some(value as u8)
}

} // verus!
