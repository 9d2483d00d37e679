//! The parser: a finite-state machine from tokens to the terms of an
//! expression.

use crate::error::{lemma_prepend_twice, prepend, seq_result, ParseError};
use crate::roll::{evaluable, is_evaluable, Operation, RollExp, MAX_DICE, MAX_FACES};
use crate::token::Token;
use vstd::prelude::*;

verus! {

/// Where the parser stands between two tokens.
#[derive(Clone, Copy, Debug, PartialEq, Eq, Structural)]
pub enum ParserState {
    /// Nothing has been read.
    Start,
    /// An operator has been read; its operand must follow.
    HavePendingOperator(Operation),
    /// A number has been read under the operator: a constant, or a dice count
    /// if `d` follows.
    HaveNumber(Operation, i32),
    /// `d` has been read under the operator, with the count of dice; the
    /// number of faces must follow.
    HaveDiceMarker(Operation, i32),
    /// A dice term has just been completed; only an operator may follow.
    HaveDice,
}

/// A state to go on from and the term that the token completed, if any.
pub type Step = Result<(ParserState, Option<RollExp>), ParseError>;

/// What one token does to the parser.
pub open spec fn step_spec(state: ParserState, token: Token) -> Step {
    match token {
        Token::Number(n) => {
            if n < 0 {
                Err(ParseError::MalformedExpression)
            } else {
                match state {
                    ParserState::Start => Ok((ParserState::HaveNumber(Operation::Add, n), None)),
                    ParserState::HavePendingOperator(op) => Ok(
                        (ParserState::HaveNumber(op, n), None),
                    ),
                    ParserState::HaveDiceMarker(op, count) => {
                        if n == 0 {
                            Err(ParseError::MalformedExpression)
                        } else if count > MAX_DICE || n > MAX_FACES {
                            Err(ParseError::DiceTooLarge)
                        } else {
                            Ok((ParserState::HaveDice, Some(RollExp::Dice(op, count, n))))
                        }
                    },
                    ParserState::HaveNumber(_, _) | ParserState::HaveDice => Err(
                        ParseError::MalformedExpression,
                    ),
                }
            }
        },
        Token::Marker(c) => {
            if c == 'd' {
                match state {
                    ParserState::Start => Ok(
                        (ParserState::HaveDiceMarker(Operation::Add, 1), None),
                    ),
                    ParserState::HavePendingOperator(op) => Ok(
                        (ParserState::HaveDiceMarker(op, 1), None),
                    ),
                    ParserState::HaveNumber(op, n) => Ok(
                        (ParserState::HaveDiceMarker(op, n), None),
                    ),
                    ParserState::HaveDiceMarker(_, _) | ParserState::HaveDice => Err(
                        ParseError::MalformedExpression,
                    ),
                }
            } else {
                match Operation::of_char(c) {
                    None => Err(ParseError::MalformedExpression),
                    Some(next) => match state {
                        ParserState::Start | ParserState::HaveDice => Ok(
                            (ParserState::HavePendingOperator(next), None),
                        ),
                        ParserState::HaveNumber(op, n) => Ok(
                            (ParserState::HavePendingOperator(next), Some(RollExp::Number(op, n))),
                        ),
                        ParserState::HavePendingOperator(_) | ParserState::HaveDiceMarker(_, _) => Err(
                            ParseError::MalformedExpression,
                        ),
                    },
                }
            }
        },
    }
}

/// What the end of the tokens does: a number still held becomes a constant,
/// an operator or a `d` left without its operand is an error, and so is an
/// input without any token.
pub open spec fn finish_spec(state: ParserState) -> Result<Option<RollExp>, ParseError> {
    match state {
        ParserState::Start => Err(ParseError::EmptyExpression),
        ParserState::HaveNumber(op, n) => Ok(Some(RollExp::Number(op, n))),
        ParserState::HaveDice => Ok(None),
        ParserState::HavePendingOperator(_) | ParserState::HaveDiceMarker(_, _) => Err(
            ParseError::MalformedExpression,
        ),
    }
}

pub open spec fn emitted(term: Option<RollExp>) -> Seq<RollExp> {
    match term {
        Some(t) => seq![t],
        None => seq![],
    }
}

/// The terms that the machine gives out from `state` on the tokens from
/// position `i` on, or the first error it meets.
pub open spec fn run(state: ParserState, tokens: Seq<Token>, i: int) -> Result<
    Seq<RollExp>,
    ParseError,
>
    decreases tokens.len() - i,
{
    if i < 0 || i >= tokens.len() {
        match finish_spec(state) {
            Ok(term) => Ok(emitted(term)),
            Err(e) => Err(e),
        }
    } else {
        match step_spec(state, tokens[i]) {
            Ok((next, term)) => prepend(emitted(term), run(next, tokens, i + 1)),
            Err(e) => Err(e),
        }
    }
}

/// The expression that a token sequence stands for: what the machine gives
/// out from its start, provided that it can be evaluated in 32 bits.
pub open spec fn terms_of(tokens: Seq<Token>) -> Result<Seq<RollExp>, ParseError> {
    match run(ParserState::Start, tokens, 0) {
        Ok(terms) => if evaluable(terms) {
            Ok(terms)
        } else {
            Err(ParseError::NumberTooLarge)
        },
        Err(e) => Err(e),
    }
}

/// Feeds one token to the machine.
pub fn step(state: ParserState, token: Token) -> (r: Step)
    ensures
        r == step_spec(state, token),
{
    match token {
        Token::Number(n) => {
            if n < 0 {
                return Err(ParseError::MalformedExpression);
            }
            match state {
                ParserState::Start => Ok((ParserState::HaveNumber(Operation::Add, n), None)),
                ParserState::HavePendingOperator(op) => Ok((ParserState::HaveNumber(op, n), None)),
                ParserState::HaveDiceMarker(op, count) => {
                    if n == 0 {
                        Err(ParseError::MalformedExpression)
                    } else if count > MAX_DICE || n > MAX_FACES {
                        Err(ParseError::DiceTooLarge)
                    } else {
                        Ok((ParserState::HaveDice, Some(RollExp::Dice(op, count, n))))
                    }
                },
                ParserState::HaveNumber(_, _) | ParserState::HaveDice => Err(
                    ParseError::MalformedExpression,
                ),
            }
        },
        Token::Marker(c) => {
            if c == 'd' {
                match state {
                    ParserState::Start => Ok(
                        (ParserState::HaveDiceMarker(Operation::Add, 1), None),
                    ),
                    ParserState::HavePendingOperator(op) => Ok(
                        (ParserState::HaveDiceMarker(op, 1), None),
                    ),
                    ParserState::HaveNumber(op, n) => Ok(
                        (ParserState::HaveDiceMarker(op, n), None),
                    ),
                    ParserState::HaveDiceMarker(_, _) | ParserState::HaveDice => Err(
                        ParseError::MalformedExpression,
                    ),
                }
            } else {
                match Operation::from_char(c) {
                    None => Err(ParseError::MalformedExpression),
                    Some(next) => match state {
                        ParserState::Start | ParserState::HaveDice => Ok(
                            (ParserState::HavePendingOperator(next), None),
                        ),
                        ParserState::HaveNumber(op, n) => Ok(
                            (ParserState::HavePendingOperator(next), Some(RollExp::Number(op, n))),
                        ),
                        ParserState::HavePendingOperator(_) | ParserState::HaveDiceMarker(_, _) => Err(
                            ParseError::MalformedExpression,
                        ),
                    },
                }
            }
        },
    }
}

/// Closes the machine at the end of the tokens.
pub fn finish(state: ParserState) -> (r: Result<Option<RollExp>, ParseError>)
    ensures
        r == finish_spec(state),
{
    match state {
        ParserState::Start => Err(ParseError::EmptyExpression),
        ParserState::HaveNumber(op, n) => Ok(Some(RollExp::Number(op, n))),
        ParserState::HaveDice => Ok(None),
        ParserState::HavePendingOperator(_) | ParserState::HaveDiceMarker(_, _) => Err(
            ParseError::MalformedExpression,
        ),
    }
}

/// Parses a token sequence into the terms of an expression.
pub fn parse_tokens(tokens: &Vec<Token>) -> (r: Result<Vec<RollExp>, ParseError>)
    ensures
        seq_result(r) == terms_of(tokens@),
{
    let mut terms: Vec<RollExp> = Vec::new();
    let mut state = ParserState::Start;
    let mut i: usize = 0;
    while i < tokens.len()
        invariant
            i <= tokens.len(),
            run(ParserState::Start, tokens@, 0) == prepend(terms@, run(state, tokens@, i as int)),
        decreases tokens.len() - i,
    {
        let ghost before = terms@;
        match step(state, tokens[i]) {
            Ok((next, term)) => {
                if let Some(t) = term {
                    terms.push(t);
                }
                proof {
                    lemma_prepend_twice(before, emitted(term), run(next, tokens@, i + 1));
                    assert(terms@ =~= before + emitted(term));
                }
                state = next;
            },
            Err(e) => {
                return Err(e);
            },
        }
        i += 1;
    }
    let ghost before = terms@;
    match finish(state) {
        Ok(term) => {
            if let Some(t) = term {
                terms.push(t);
            }
            proof {
                assert(terms@ =~= before + emitted(term));
            }
        },
        Err(e) => {
            return Err(e);
        },
    }
    if is_evaluable(&terms) {
        Ok(terms)
    } else {
        Err(ParseError::NumberTooLarge)
    }
}

/// In every state but the one that follows a dice term, the machine has yet
/// to give out the term it is reading.
pub open spec fn owes_term(state: ParserState) -> bool {
    !(state is HaveDice)
}

/// From a state that owes a term, the machine gives out at least one term
/// before it ends well.
pub proof fn lemma_run_gives_a_term(state: ParserState, tokens: Seq<Token>, i: int)
    requires
        owes_term(state),
        0 <= i,
    ensures
        run(state, tokens, i) matches Ok(terms) ==> terms.len() >= 1,
    decreases tokens.len() - i,
{
    if i < tokens.len() {
        match step_spec(state, tokens[i]) {
            Ok((next, term)) => {
                if owes_term(next) {
                    lemma_run_gives_a_term(next, tokens, i + 1);
                }
            },
            Err(_) => {},
        }
    }
}

/// An expression that parses has at least one term and can be evaluated in
/// 32 bits; `EmptyExpression` is the answer to no token at all, and to
/// nothing else.
pub proof fn lemma_parsed_expression(tokens: Seq<Token>)
    ensures
        terms_of(tokens) matches Ok(terms) ==> terms.len() >= 1 && evaluable(terms),
        terms_of(tokens) == Err::<Seq<RollExp>, ParseError>(ParseError::EmptyExpression)
            <==> tokens.len() == 0,
{
    lemma_run_gives_a_term(ParserState::Start, tokens, 0);
    lemma_run_is_never_empty_handed(ParserState::Start, tokens, 0);
}

/// Past its start the machine never answers `EmptyExpression`, and from its
/// start only at the end of the tokens.
pub proof fn lemma_run_is_never_empty_handed(state: ParserState, tokens: Seq<Token>, i: int)
    requires
        0 <= i,
    ensures
        run(state, tokens, i) == Err::<Seq<RollExp>, ParseError>(ParseError::EmptyExpression)
            <==> state is Start && i >= tokens.len(),
    decreases tokens.len() - i,
{
    if i < tokens.len() {
        match step_spec(state, tokens[i]) {
            Ok((next, term)) => {
                lemma_run_is_never_empty_handed(next, tokens, i + 1);
            },
            Err(_) => {},
        }
    }
}

} // verus!
