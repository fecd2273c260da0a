//! Vendor and product IDs as they are written on the command line: base-16
//! numbers of 16 bits.

use vstd::prelude::*;
use vstd::std_specs::iter::IteratorSpec;
use crate::error::InhibitError;

verus! {

/// The value of a hexadecimal digit, in either case.
pub open spec fn hex_digit(c: char) -> Option<nat> {
    if '0' <= c <= '9' {
        Some((c as u32 - '0' as u32) as nat)
    } else if 'a' <= c <= 'f' {
        Some((c as u32 - 'a' as u32 + 10) as nat)
    } else if 'A' <= c <= 'F' {
        Some((c as u32 - 'A' as u32 + 10) as nat)
    } else {
        None
    }
}

/// Whether every character is a hexadecimal digit.
pub open spec fn is_hex(digits: Seq<char>) -> bool {
    forall|i: int| 0 <= i < digits.len() ==> hex_digit(#[trigger] digits[i]) is Some
}

/// The number that a string of hexadecimal digits denotes, most significant
/// digit first.
pub open spec fn hex_value(digits: Seq<char>) -> nat
    decreases digits.len(),
{
    if digits.len() == 0 {
        0
    } else {
        16 * hex_value(digits.drop_last()) + match hex_digit(digits.last()) {
            Some(digit) => digit,
            None => 0,
        }
    }
}

/// The text without the one plus sign that may lead it.
pub open spec fn without_sign(text: Seq<char>) -> Seq<char> {
    if text.len() > 0 && text[0] == '+' {
        text.drop_first()
    } else {
        text
    }
}

/// The 16-bit number that `text` denotes in base 16, if it denotes one: an
/// optional plus sign, then one or more hexadecimal digits whose value fits in
/// 16 bits. Leading zeros are digits like any other. Anything else (the empty
/// text, a lone sign, a minus sign, white space, an underscore, a prefix such
/// as `0x`) denotes no number.
pub open spec fn hex_u16(text: Seq<char>) -> Option<u16> {
    let digits = without_sign(text);
    if digits.len() > 0 && is_hex(digits) && hex_value(digits) <= u16::MAX {
        Some(hex_value(digits) as u16)
    } else {
        None
    }
}

/// The value of a string of hexadecimal digits is at least the value of each
/// of its prefixes.
proof fn lemma_hex_value_grows(digits: Seq<char>, n: int)
    requires
        0 <= n <= digits.len(),
    ensures
        hex_value(digits.take(n)) <= hex_value(digits),
    decreases digits.len() - n,
{
    if n == digits.len() {
        assert(digits.take(n) =~= digits);
    } else {
        lemma_hex_value_grows(digits.drop_last(), n);
        assert(digits.drop_last().take(n) =~= digits.take(n));
    }
}

/// A prefix of a text, without its sign, is a prefix of the text without its
/// sign.
proof fn lemma_without_sign_of_prefix(text: Seq<char>, n: int)
    requires
        0 <= n <= text.len(),
    ensures
        without_sign(text.take(n)).len() <= without_sign(text).len(),
        without_sign(text.take(n)) == without_sign(text).take(
            without_sign(text.take(n)).len() as int,
        ),
{
    let prefix = without_sign(text.take(n));
    assert(prefix =~= without_sign(text).take(prefix.len() as int));
}

/// The value of `c` as a hexadecimal digit, if it is one.
fn digit_of(c: char) -> (digit: Option<u32>)
    ensures
        match digit {
            Some(d) => hex_digit(c) == Some(d as nat) && d < 16,
            None => hex_digit(c) is None,
        },
{
    let code: u32 = c as u32;
    if 0x30 <= code && code <= 0x39 {
        Some(code - 0x30)
    } else if 0x61 <= code && code <= 0x66 {
        Some(code - 0x61 + 10)
    } else if 0x41 <= code && code <= 0x46 {
        Some(code - 0x41 + 10)
    } else {
        None
    }
}

/// Parses a vendor or product ID: a base-16 number of 16 bits.
///
/// The result is the number that the text denotes, and `InvalidCriteria`
/// where it denotes none.
pub fn parse_hex_u16(s: &str) -> (parsed: Result<u16, InhibitError>)
    ensures
        parsed == match hex_u16(s@) {
            Some(value) => Ok::<u16, InhibitError>(value),
            None => Err::<u16, InhibitError>(InhibitError::InvalidCriteria),
        },
{
    let mut chars = s.chars();
    let mut value: u32 = 0;
    let mut any_digit = false;
    let mut at_start = true;
    let ghost mut seen: int = 0;
    loop
        invariant
            0 <= seen <= s@.len(),
            chars.remaining() == s@.skip(seen),
            at_start == (seen == 0),
            is_hex(without_sign(s@.take(seen))),
            value == hex_value(without_sign(s@.take(seen))),
            value <= u16::MAX,
            any_digit == (without_sign(s@.take(seen)).len() > 0),
        ensures
            seen == s@.len(),
            is_hex(without_sign(s@.take(seen))),
            value == hex_value(without_sign(s@.take(seen))),
            value <= u16::MAX,
            any_digit == (without_sign(s@.take(seen)).len() > 0),
        decreases s@.len() - seen,
    {
        let ghost before = without_sign(s@.take(seen));
        match chars.next() {
            None => {
                break ;
            },
            Some(c) => {
                proof {
                    assert(c == s@[seen]);
                    lemma_without_sign_of_prefix(s@, seen + 1);
                }
                if at_start && c == '+' {
                    // The sign: no digit yet.
                } else {
                    let ghost digits = without_sign(s@.take(seen + 1));
                    proof {
                        assert(digits =~= before.push(c));
                        assert(digits.drop_last() =~= before);
                    }
                    match digit_of(c) {
                        None => {
                            proof {
                                assert(without_sign(s@)[digits.len() - 1] == c);
                            }
                            return Err(InhibitError::InvalidCriteria);
                        },
                        Some(digit) => {
                            value = 16 * value + digit;
                            if value > 0xFFFF {
                                // More digits can only make the number larger.
                                proof {
                                    if is_hex(without_sign(s@)) {
                                        lemma_hex_value_grows(
                                            without_sign(s@),
                                            digits.len() as int,
                                        );
                                    }
                                }
                                return Err(InhibitError::InvalidCriteria);
                            }
                            any_digit = true;
                        },
                    }
                }
                at_start = false;
                proof {
                    seen = seen + 1;
                }
            },
        }
    }
    if any_digit {
        Ok(value as u16)
    } else {
        Err(InhibitError::InvalidCriteria)
    }
}

} // verus!
