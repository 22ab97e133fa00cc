//! Whole numbers as expressions.

use vstd::prelude::*;
use crate::ast::node_ids::expr_ids;
use vstd::string::StrSliceExecFns;
use crate::ast::expr::{ExpressionError, ExpressionKind, SpecExpressionError, SpecExpressionKind};
use crate::lexer::token::Token;
use crate::parser::error::{ParseError, SpecParseError};
use crate::parser::grammar::{all_digits, digit_value, digits_value, parse_i32};
use crate::text::chars_of;

verus! {

/// The largest value the digits of an `i32` literal are tracked to: anything larger
/// is out of range whatever its sign.
spec fn capped(v: nat) -> nat {
    if v < 2147483649 {
        v
    } else {
        2147483649
    }
}

/// The 32-bit integer a text denotes, as `i32::from_str` reads it: an optional sign,
/// then at least one decimal digit, within the range of `i32`.
pub fn parse_i32_text(s: &str) -> (r: Option<i32>)
    ensures
        r == parse_i32(s@),
{
    let chars = chars_of(s);
    let n = chars.len();
    if n == 0 {
        return None;
    }
    let negative = chars[0] == '-';
    let start: usize = if chars[0] == '-' || chars[0] == '+' {
        1
    } else {
        0
    };
    let ghost d = chars@.subrange(start as int, n as int);
    proof {
        if start == 1 {
            assert(d =~= s@.drop_first());
        } else {
            assert(d =~= s@);
        }
    }
    if start == n {
        proof {
            assert(d.len() == 0);
        }
        return None;
    }
    let mut acc: u64 = 0;
    let mut i: usize = start;
    while i < n
        invariant
            start <= i <= n,
            n == chars@.len(),
            chars@ == s@,
            d == chars@.subrange(start as int, n as int),
            n > 0,
            start == 1 ==> d == s@.drop_first(),
            start == 0 ==> d == s@,
            (start == 1) == (s@[0] == '-' || s@[0] == '+'),
            start <= 1,
            negative == (s@[0] == '-'),
            all_digits(chars@.subrange(start as int, i as int)),
            acc == capped(digits_value(chars@.subrange(start as int, i as int))),
        decreases n - i,
    {
        let c = chars[i];
        if !('0' <= c && c <= '9') {
            proof {
                assert(d[i - start] == c);
            }
            return None;
        }
        let digit = ((c as u32) - ('0' as u32)) as u64;
        let ghost prev = chars@.subrange(start as int, i as int);
        let ghost next = chars@.subrange(start as int, i + 1);
        proof {
            assert(next.drop_last() =~= prev);
            assert(next.last() == c);
            assert(digit == digit_value(c));
            assert(digits_value(next) == digits_value(prev) * 10 + digit_value(c));
            assert forall|k: int| 0 <= k < next.len() implies crate::lexer::scan::is_digit(
                #[trigger] next[k],
            ) by {
                if k < prev.len() {
                    assert(next[k] == prev[k]);
                }
            }
        }
        acc = acc * 10 + digit;
        if acc > 2147483649 {
            acc = 2147483649;
        }
        i = i + 1;
    }
    proof {
        assert(chars@.subrange(start as int, n as int) == d);
    }
    if negative {
        if acc <= 2147483648 {
            Some((0i64 - (acc as i64)) as i32)
        } else {
            None
        }
    } else {
        if acc <= 2147483647 {
            Some(acc as i32)
        } else {
            None
        }
    }
}

/// A prefix parser that turns a `WholeNumber` token into an [`ExpressionKind::I32`].
pub struct WholeNumberParser;

impl WholeNumberParser {
    /// The integer expression of `token`, or `ParseIntError` when its text is not an `i32`.
    pub fn parse(token: &Token) -> (r: Result<ExpressionKind, ParseError>)
        requires
            token.well_formed(),
        ensures
            r is Ok ==> expr_ids(r->Ok_0) == Seq::<usize>::empty(),
            match parse_i32(token.text()) {
                Some(v) => r matches Ok(k) && k@ == SpecExpressionKind::I32(v),
                None => r matches Err(e) && e@ == SpecParseError::ExpressionError(
                    SpecExpressionError::ParseIntError(token.text(), token.line),
                ),
            },
    {
        let text = token.value();
        match parse_i32_text(text) {
            Some(value) => Ok(ExpressionKind::I32(value)),
            None => Err(
                ParseError::ExpressionError(ExpressionError::ParseIntError(text.to_owned(), token.line)),
            ),
        }
    }
}

} // verus!
