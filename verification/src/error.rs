//! Why an expression was turned down.

use vstd::prelude::*;
use vstd::string::StringExecFns;

verus! {

/// `String::push` appends exactly one character and keeps what was there.
pub assume_specification[ String::push ](s: &mut String, ch: char)
    ensures
        final(s)@ == old(s)@.push(ch),
;

/// The ways in which a dice expression can be rejected.
#[derive(Clone, Copy, Debug, PartialEq, Eq, Structural)]
pub enum ParseError {
    /// The text holds a character that is neither a digit, whitespace nor one of `d + - *`.
    UnexpectedCharacter(char),
    /// The text holds no term at all.
    EmptyExpression,
    /// The tokens do not follow the grammar, or a die has no face.
    MalformedExpression,
    /// A dice term asks for more dice, or for dice with more faces, than the ceiling allows.
    DiceTooLarge,
    /// A number, or the largest total the expression can reach, does not fit in 32 bits.
    NumberTooLarge,
}

impl ParseError {
    /// The message shown to a user for this error.
    pub open spec fn description(self) -> Seq<char> {
        match self {
            ParseError::UnexpectedCharacter(c) => "Unexpected character. ("@.push(c).push(')'),
            ParseError::EmptyExpression => "Empty expression."@,
            ParseError::MalformedExpression => "Malformed expression."@,
            ParseError::DiceTooLarge => "Dice too large."@,
            ParseError::NumberTooLarge => "Number too large."@,
        }
    }

    pub fn describe(&self) -> (s: String)
        ensures
            s@ == self.description(),
    {
        match self {
            ParseError::UnexpectedCharacter(c) => {
                let mut s = String::from_str("Unexpected character. (");
                s.push(*c);
                s.push(')');
                s
            },
            ParseError::EmptyExpression => String::from_str("Empty expression."),
            ParseError::MalformedExpression => String::from_str("Malformed expression."),
            ParseError::DiceTooLarge => String::from_str("Dice too large."),
            ParseError::NumberTooLarge => String::from_str("Number too large."),
        }
    }
}

/// A fallible result with its list seen as a sequence.
pub open spec fn seq_result<T>(r: Result<Vec<T>, ParseError>) -> Result<Seq<T>, ParseError> {
    match r {
        Ok(v) => Ok(v@),
        Err(e) => Err(e),
    }
}

/// `r` with `head` put in front of what it holds; an error stays as it is.
pub open spec fn prepend<T>(head: Seq<T>, r: Result<Seq<T>, ParseError>) -> Result<
    Seq<T>,
    ParseError,
> {
    match r {
        Ok(tail) => Ok(head + tail),
        Err(e) => Err(e),
    }
}

/// Putting two heads in front, one after the other, is putting their
/// concatenation in front.
pub proof fn lemma_prepend_twice<T>(a: Seq<T>, b: Seq<T>, r: Result<Seq<T>, ParseError>)
    ensures
        prepend(a, prepend(b, r)) == prepend(a + b, r),
{
    match r {
        Ok(t) => {
            assert(a + (b + t) =~= (a + b) + t);
        },
        Err(_) => {},
    }
}

} // verus!
