//! The tokenizer: text to a flat sequence of numbers and marker characters.

use crate::error::{lemma_prepend_twice, prepend, seq_result, ParseError};
use vstd::prelude::*;

verus! {

/// One primitive piece of an expression.
#[derive(Clone, Copy, Debug, PartialEq, Eq, Structural)]
pub enum Token {
    /// A maximal run of decimal digits, by its value.
    Number(i32),
    /// One of `d`, `+`, `-`, `*`.
    Marker(char),
}

/// Unicode's `White_Space` characters.
pub open spec fn is_space(c: char) -> bool {
    ||| c == ' '
    ||| '\u{9}' <= c <= '\u{d}'
    ||| c == '\u{85}'
    ||| c == '\u{a0}'
    ||| c == '\u{1680}'
    ||| '\u{2000}' <= c <= '\u{200a}'
    ||| c == '\u{2028}'
    ||| c == '\u{2029}'
    ||| c == '\u{202f}'
    ||| c == '\u{205f}'
    ||| c == '\u{3000}'
}

pub open spec fn is_digit(c: char) -> bool {
    '0' <= c <= '9'
}

pub open spec fn is_marker(c: char) -> bool {
    c == 'd' || c == '+' || c == '-' || c == '*'
}

/// The value of a decimal digit.
pub open spec fn digit_value(c: char) -> int {
    c as int - '0' as int
}

/// The token for a digit run that has just ended, if one was being read.
pub open spec fn flushed(pending: Option<int>) -> Seq<Token> {
    match pending {
        Some(v) => seq![Token::Number(v as i32)],
        None => seq![],
    }
}

/// The tokens of `s` from position `i` on, where `pending` is the value of the
/// digit run that ends just before `i`, if there is one.
pub open spec fn scan(s: Seq<char>, i: int, pending: Option<int>) -> Result<Seq<Token>, ParseError>
    decreases s.len() - i,
{
    if i < 0 || i >= s.len() {
        Ok(flushed(pending))
    } else if is_digit(s[i]) {
        let v = match pending {
            Some(p) => p * 10 + digit_value(s[i]),
            None => digit_value(s[i]),
        };
        if v > i32::MAX {
            Err(ParseError::NumberTooLarge)
        } else {
            scan(s, i + 1, Some(v))
        }
    } else if is_space(s[i]) {
        prepend(flushed(pending), scan(s, i + 1, None))
    } else if is_marker(s[i]) {
        prepend(flushed(pending).push(Token::Marker(s[i])), scan(s, i + 1, None))
    } else {
        Err(ParseError::UnexpectedCharacter(s[i]))
    }
}

/// The tokens of a whole text: whitespace dropped, each maximal digit run as
/// one number, each marker by itself; the first offending character or
/// oversized number as the error.
pub open spec fn tokens_of(s: Seq<char>) -> Result<Seq<Token>, ParseError> {
    scan(s, 0, None)
}

pub open spec fn pending_value(pending: Option<i32>) -> Option<int> {
    match pending {
        Some(p) => Some(p as int),
        None => None,
    }
}

/// Tells whether `c` is whitespace.
pub fn is_whitespace(c: char) -> (b: bool)
    ensures
        b == is_space(c),
{
    c == ' ' || ('\u{9}' <= c && c <= '\u{d}') || c == '\u{85}' || c == '\u{a0}' || c == '\u{1680}'
        || ('\u{2000}' <= c && c <= '\u{200a}') || c == '\u{2028}' || c == '\u{2029}' || c
        == '\u{202f}' || c == '\u{205f}' || c == '\u{3000}'
}

/// Splits `text` into tokens.
pub fn tokenize(text: &str) -> (r: Result<Vec<Token>, ParseError>)
    ensures
        seq_result(r) == tokens_of(text@),
{
    let mut tokens: Vec<Token> = Vec::new();
    let mut pending: Option<i32> = None;
    for c in it: text.chars()
        invariant
            it.seq() == text@,
            pending matches Some(p) ==> p >= 0,
            tokens_of(text@) == prepend(
                tokens@,
                scan(text@, it.index() as int, pending_value(pending)),
            ),
    {
        let ghost before = tokens@;
        let ghost was = pending_value(pending);
        let ghost rest = scan(text@, it.index() + 1, None);
        if '0' <= c && c <= '9' {
            let d: i64 = (c as u32 - '0' as u32) as i64;
            let v: i64 = match pending {
                Some(p) => p as i64 * 10 + d,
                None => d,
            };
            if v > i32::MAX as i64 {
                return Err(ParseError::NumberTooLarge);
            }
            pending = Some(v as i32);
        } else {
            if let Some(p) = pending {
                tokens.push(Token::Number(p));
                pending = None;
            }
            if is_whitespace(c) {
            } else if c == 'd' || c == '+' || c == '-' || c == '*' {
                tokens.push(Token::Marker(c));
            } else {
                return Err(ParseError::UnexpectedCharacter(c));
            }
            proof {
                let head = if is_space(c) {
                    flushed(was)
                } else {
                    flushed(was).push(Token::Marker(c))
                };
                lemma_prepend_twice(before, head, rest);
                assert(tokens@ =~= before + head);
            }
        }
    }
    let ghost before = tokens@;
    if let Some(p) = pending {
        tokens.push(Token::Number(p));
    }
    proof {
        assert(tokens@ =~= before + flushed(pending_value(pending)));
    }
    Ok(tokens)
}

} // verus!
