//! Numeric literals: a minus sign and a digit, then any run of digits and decimal points.

use crate::classes::{is_digit, CharClass};
use crate::token::{TokenKind, TokenType};
use vstd::prelude::*;
use vstd::string::StrSliceExecFns;

verus! {

/// The value of one decimal digit.
pub open spec fn digit_value(c: char) -> int {
    c as int - '0' as int
}

/// The number that a sequence of decimal digits writes, most significant digit first.
pub open spec fn decimal_value(digits: Seq<char>) -> int
    decreases digits.len(),
{
    if digits.len() == 0 {
        0
    } else {
        10 * decimal_value(digits.drop_last()) + digit_value(digits.last())
    }
}

/// How often `c` occurs in `text`.
pub open spec fn occurrences(text: Seq<char>, c: char) -> nat
    decreases text.len(),
{
    if text.len() == 0 {
        0
    } else {
        occurrences(text.drop_last(), c) + if text.last() == c {
            1nat
        } else {
            0nat
        }
    }
}

/// The shape of a numeric lexeme: `-`, a digit, then digits and decimal points only.
pub open spec fn is_number_lexeme(text: Seq<char>) -> bool {
    &&& text.len() >= 2
    &&& text[0] == '-'
    &&& is_digit(text[1])
    &&& forall|i: int| 1 <= i < text.len() ==> CharClass::Numeric.contains(#[trigger] text[i])
}

/// What a numeric lexeme denotes.
///
/// Without a decimal point it is an integer, provided its value is at least `i32::MIN`.
/// With exactly one decimal point it is a decimal number, kept as written. Anything else
/// (several decimal points, an integer too small, a text of another shape) denotes nothing.
pub open spec fn number_kind(text: Seq<char>) -> Option<TokenKind> {
    let points = occurrences(text, '.');
    let value = -decimal_value(text.skip(1));
    if !is_number_lexeme(text) {
        None
    } else if points == 0 && value >= i32::MIN {
        Some(TokenKind::IntNumber(value))
    } else if points == 1 {
        Some(TokenKind::DecimalNumber(text))
    } else {
        None
    }
}

/// Reads a numeric lexeme: `Some` token where `text` denotes a number, `None` where it
/// denotes none.
pub fn number_token(text: &str) -> (token: Option<TokenType>)
    ensures
        match token {
            Some(t) => number_kind(text@) == Some(t@),
            None => number_kind(text@) is None,
        },
{
    let n = text.unicode_len();
    if n < 2 || text.get_char(0) != '-' || !is_digit(text.get_char(1)) {
        return None;
    }
    let ghost digits = text@.skip(1);
    // The value of the digits read so far, negated at the end; kept up only as long as the
    // text can still be an integer whose negation fits.
    let mut magnitude: i64 = 0;
    let mut fits = true;
    let mut points: usize = 0;
    let mut i: usize = 1;
    proof {
        assert(text@.take(1).drop_last() =~= Seq::<char>::empty());
        assert(occurrences(text@.take(1).drop_last(), '.') == 0);
        assert(text@.take(1).last() == '-');
        assert(digits.take(0) =~= Seq::<char>::empty());
    }
    while i < n
        invariant
            1 <= i <= n,
            n == text@.len(),
            digits == text@.skip(1),
            text@[0] == '-',
            is_digit(text@[1]),
            forall|j: int| 1 <= j < i ==> CharClass::Numeric.contains(#[trigger] text@[j]),
            points == occurrences(text@.take(i as int), '.'),
            points <= i,
            points == 0 ==> forall|j: int| 0 <= j < i - 1 ==> is_digit(#[trigger] digits[j]),
            points == 0 && fits ==> 0 <= magnitude <= 0x8000_0000 && magnitude == decimal_value(
                digits.take(i - 1),
            ),
            points == 0 && !fits ==> decimal_value(digits.take(i - 1)) > 0x8000_0000,
        decreases n - i,
    {
        let c = text.get_char(i);
        proof {
            assert(text@.take(i + 1).drop_last() =~= text@.take(i as int));
            assert(digits.take(i as int).drop_last() =~= digits.take(i - 1));
            assert(digits[i - 1] == c);
        }
        if c == '.' {
            points = points + 1;
        } else if !is_digit(c) {
            return None;
        } else if points == 0 && fits {
            magnitude = magnitude * 10 + (c as u32 - '0' as u32) as i64;
            fits = magnitude <= 0x8000_0000;
        }
        i = i + 1;
    }
    proof {
        assert(text@.take(n as int) =~= text@);
        assert(digits.take(n - 1) =~= digits);
    }
    if points == 0 && fits {
        Some(TokenType::IntNumber((-magnitude) as i32))
    } else if points == 1 {
        Some(TokenType::DecimalNumber(text.to_owned()))
    } else {
        None
    }
}

} // verus!
