//! Reading literals: from the text of a node to the value that it denotes.

use vstd::prelude::*;
use vstd::string::StrSliceExecFns;

verus! {

/// The value of a decimal digit.
pub open spec fn digit_value(c: char) -> int {
    c as int - '0' as int
}

pub open spec fn is_digit(c: char) -> bool {
    '0' <= c <= '9'
}

pub open spec fn all_digits(text: Seq<char>) -> bool {
    forall|i: int| 0 <= i < text.len() ==> is_digit(#[trigger] text[i])
}

/// The number that a run of decimal digits denotes.
pub open spec fn decimal_value(digits: Seq<char>) -> int
    decreases digits.len(),
{
    if digits.len() == 0 {
        0
    } else {
        10 * decimal_value(digits.drop_last()) + digit_value(digits.last())
    }
}

/// The digits of an integer literal: its text without the sign.
pub open spec fn unsigned_part(text: Seq<char>) -> Seq<char> {
    if text.len() > 0 && (text[0] == '-' || text[0] == '+') {
        text.skip(1)
    } else {
        text
    }
}

/// The integer that a literal denotes: an optional sign and at least one decimal digit,
/// with a value that 32 bits can hold.
pub open spec fn spec_parse_int(text: Seq<char>) -> Option<i32> {
    let digits = unsigned_part(text);
    let value = if text.len() > 0 && text[0] == '-' {
        -decimal_value(digits)
    } else {
        decimal_value(digits)
    };
    if digits.len() > 0 && all_digits(digits) && i32::MIN <= value <= i32::MAX {
        Some(value as i32)
    } else {
        None
    }
}

/// The boolean that a literal denotes.
pub open spec fn spec_parse_bool(text: Seq<char>) -> Option<bool> {
    if text == seq!['t', 'r', 'u', 'e'] {
        Some(true)
    } else if text == seq!['f', 'a', 'l', 's', 'e'] {
        Some(false)
    } else {
        None
    }
}

/// The character that a literal denotes: the text itself where it is one character, or
/// the character between two single quotes.
pub open spec fn spec_parse_char(text: Seq<char>) -> Option<char> {
    if text.len() == 1 {
        Some(text[0])
    } else if text.len() == 3 && text[0] == '\'' && text[2] == '\'' {
        Some(text[1])
    } else {
        None
    }
}

/// A longer run of digits denotes no smaller number.
proof fn lemma_decimal_grows(digits: Seq<char>, i: int)
    requires
        all_digits(digits),
        0 <= i <= digits.len(),
    ensures
        0 <= decimal_value(digits.take(i)) <= decimal_value(digits),
    decreases digits.len() - i,
{
    if i == digits.len() {
        assert(digits.take(i) =~= digits);
        lemma_decimal_nonnegative(digits);
    } else {
        lemma_decimal_grows(digits, i + 1);
        let longer = digits.take(i + 1);
        assert(longer.drop_last() =~= digits.take(i));
        assert(is_digit(digits[i]));
        assert(longer.last() == digits[i]);
        lemma_decimal_nonnegative(digits.take(i));
    }
}

proof fn lemma_decimal_nonnegative(digits: Seq<char>)
    requires
        all_digits(digits),
    ensures
        decimal_value(digits) >= 0,
    decreases digits.len(),
{
    if digits.len() > 0 {
        assert(is_digit(digits.last()));
        assert(all_digits(digits.drop_last())) by {
            assert forall|i: int| 0 <= i < digits.drop_last().len() implies is_digit(
                #[trigger] digits.drop_last()[i],
            ) by {
                assert(digits.drop_last()[i] == digits[i]);
            }
        }
        lemma_decimal_nonnegative(digits.drop_last());
    }
}

pub fn parse_int(text: &str) -> (value: Option<i32>)
    ensures
        value == spec_parse_int(text@),
{
    let length = text.unicode_len();
    if length == 0 {
        return None;
    }
    let first = text.get_char(0);
    let negative = first == '-';
    let start: usize = if first == '-' || first == '+' { 1 } else { 0 };
    if start == length {
        return None;
    }
    let ghost digits = unsigned_part(text@);
    let mut total: i64 = 0;
    let mut i: usize = start;
    proof {
        assert(digits.take(0) =~= Seq::<char>::empty());
    }
    while i < length
        invariant
            start <= i <= length,
            length == text@.len(),
            length > 0,
            digits == unsigned_part(text@),
            negative == (text@[0] == '-'),
            digits == text@.skip(start as int),
            digits.len() == length - start,
            forall|k: int| 0 <= k < i - start ==> is_digit(#[trigger] digits[k]),
            total == decimal_value(digits.take(i - start)),
            0 <= total <= 0x8000_0000,
        decreases length - i,
    {
        let c = text.get_char(i);
        proof {
            assert(digits[i - start] == c);
            let longer = digits.take(i - start + 1);
            assert(longer.drop_last() =~= digits.take(i - start));
            assert(longer.last() == c);
        }
        if c < '0' || c > '9' {
            proof {
                assert(!is_digit(digits[i - start]));
            }
            return None;
        }
        let digit: i64 = (c as u32 - '0' as u32) as i64;
        total = total * 10 + digit;
        if total > 0x8000_0000 {
            proof {
                if all_digits(digits) {
                    lemma_decimal_grows(digits, i - start + 1);
                }
            }
            return None;
        }
        i += 1;
    }
    proof {
        assert(digits.take(i - start) =~= digits);
        assert(all_digits(digits));
    }
    if negative {
        Some((-total) as i32)
    } else if total > 0x7FFF_FFFF {
        None
    } else {
        Some(total as i32)
    }
}

pub fn parse_bool(text: &str) -> (value: Option<bool>)
    ensures
        value == spec_parse_bool(text@),
{
    let length = text.unicode_len();
    if length == 4 {
        if text.get_char(0) == 't' && text.get_char(1) == 'r' && text.get_char(2) == 'u'
            && text.get_char(3) == 'e' {
            proof {
                assert(text@ =~= seq!['t', 'r', 'u', 'e']);
            }
            return Some(true);
        }
        proof {
            assert(seq!['t', 'r', 'u', 'e'][0] == 't' && seq!['t', 'r', 'u', 'e'][1] == 'r'
                && seq!['t', 'r', 'u', 'e'][2] == 'u' && seq!['t', 'r', 'u', 'e'][3] == 'e');
        }
        None
    } else if length == 5 {
        if text.get_char(0) == 'f' && text.get_char(1) == 'a' && text.get_char(2) == 'l'
            && text.get_char(3) == 's' && text.get_char(4) == 'e' {
            proof {
                assert(text@ =~= seq!['f', 'a', 'l', 's', 'e']);
            }
            return Some(false);
        }
        proof {
            let f = seq!['f', 'a', 'l', 's', 'e'];
            assert(f[0] == 'f' && f[1] == 'a' && f[2] == 'l' && f[3] == 's' && f[4] == 'e');
        }
        None
    } else {
        None
    }
}

pub fn parse_char(text: &str) -> (value: Option<char>)
    ensures
        value == spec_parse_char(text@),
{
    let length = text.unicode_len();
    if length == 1 {
        Some(text.get_char(0))
    } else if length == 3 && text.get_char(0) == '\'' && text.get_char(2) == '\'' {
        Some(text.get_char(1))
    } else {
        None
    }
}

} // verus!
