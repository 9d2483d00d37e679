//! Dice expressions: their terms, and the way from a line of text to the
//! line that answers it.

use crate::decimal::{decimal, decimal_text};
use crate::dice::{lemma_outcomes_fit, outcomes_of, roll_terms};
use crate::error::{seq_result, ParseError};
use crate::outcome::{summarize, total, trace, Outcome};
use crate::parser::{parse_tokens, terms_of};
use crate::token::{tokenize, tokens_of};
use vstd::prelude::*;
use vstd::string::StringExecFns;

verus! {

/// How a term combines with the running total.
#[derive(Clone, Copy, Debug, PartialEq, Eq, Structural)]
pub enum Operation {
    Add,
    Substract,
    Multiply,
}

impl Operation {
    /// The operator as it is written between two terms of a trace.
    pub open spec fn symbol_text(self) -> Seq<char> {
        match self {
            Operation::Add => seq![' ', '+', ' '],
            Operation::Substract => seq![' ', '-', ' '],
            Operation::Multiply => seq![' ', '*', ' '],
        }
    }

    /// The operator a marker character stands for, if any.
    pub open spec fn of_char(c: char) -> Option<Operation> {
        if c == '+' {
            Some(Operation::Add)
        } else if c == '-' {
            Some(Operation::Substract)
        } else if c == '*' {
            Some(Operation::Multiply)
        } else {
            None
        }
    }

    /// The running total after this operator joins `value` to `total`.
    pub open spec fn apply(self, total: int, value: int) -> int {
        match self {
            Operation::Add => total + value,
            Operation::Substract => total - value,
            Operation::Multiply => total * value,
        }
    }

    /// The operator with a space on either side, as a trace shows it.
    pub fn symbol(&self) -> (s: &'static str)
        ensures
            s@ == self.symbol_text(),
    {
        proof {
            reveal_strlit(" + ");
            reveal_strlit(" - ");
            reveal_strlit(" * ");
        }
        match self {
            Operation::Add => " + ",
            Operation::Substract => " - ",
            Operation::Multiply => " * ",
        }
    }

    /// Reads an operator from its character.
    pub fn from_char(c: char) -> (r: Option<Operation>)
        ensures
            r == Operation::of_char(c),
    {
        if c == '+' {
            Some(Operation::Add)
        } else if c == '-' {
            Some(Operation::Substract)
        } else if c == '*' {
            Some(Operation::Multiply)
        } else {
            None
        }
    }
}

/// The most dice one term may roll.
pub const MAX_DICE: i32 = 500;

/// The most faces a die may have.
pub const MAX_FACES: i32 = 500;

/// One term of an expression, with the operator that joins it to what stands
/// before it.
#[derive(Clone, Copy, Debug, PartialEq, Eq, Structural)]
pub enum RollExp {
    /// A constant.
    Number(Operation, i32),
    /// So many dice, each with so many faces.
    Dice(Operation, i32, i32),
}

impl RollExp {
    pub open spec fn op(self) -> Operation {
        match self {
            RollExp::Number(op, _) => op,
            RollExp::Dice(op, _, _) => op,
        }
    }

    /// A constant is always in order; a dice term needs a count and a face
    /// number within the ceilings, and at least one face.
    pub open spec fn valid(self) -> bool {
        match self {
            RollExp::Number(_, _) => true,
            RollExp::Dice(_, count, faces) => 0 <= count <= MAX_DICE && 1 <= faces <= MAX_FACES,
        }
    }

    /// The largest magnitude the term's value can have.
    pub open spec fn bound(self) -> int {
        match self {
            RollExp::Number(_, value) => if value < 0 {
                -value
            } else {
                value as int
            },
            RollExp::Dice(_, count, faces) => count * faces,
        }
    }
}

/// A ceiling on the magnitude of the running total after the first `k` terms,
/// whatever the dice show: magnitudes add up under `+` and `-` and multiply
/// under `*`.
pub open spec fn magnitude(expression: Seq<RollExp>, k: int) -> int
    decreases k,
{
    if k <= 0 {
        0
    } else {
        let before = magnitude(expression, k - 1);
        let term = expression[k - 1];
        if term.op() is Multiply {
            before * term.bound()
        } else {
            before + term.bound()
        }
    }
}

/// An expression can be evaluated in 32 bits when each of its terms is valid
/// and the ceiling on its running total never leaves the positive range of
/// `i32`.
pub open spec fn evaluable(expression: Seq<RollExp>) -> bool {
    &&& forall|i: int| 0 <= i < expression.len() ==> (#[trigger] expression[i]).valid()
    &&& forall|k: int| 0 <= k <= expression.len() ==> #[trigger] magnitude(expression, k) <= i32::MAX
}

/// Tells whether `expression` can be evaluated in 32 bits.
pub fn is_evaluable(expression: &Vec<RollExp>) -> (b: bool)
    ensures
        b == evaluable(expression@),
{
    let mut ceiling: i64 = 0;
    let mut i: usize = 0;
    while i < expression.len()
        invariant
            i <= expression.len(),
            0 <= ceiling <= i32::MAX,
            ceiling == magnitude(expression@, i as int),
            forall|j: int| 0 <= j < i ==> (#[trigger] expression@[j]).valid(),
            forall|k: int| 0 <= k <= i ==> #[trigger] magnitude(expression@, k) <= i32::MAX,
        decreases expression.len() - i,
    {
        let (op, bound): (Operation, i64) = match expression[i] {
            RollExp::Number(op, value) => (
                op,
                if value < 0 {
                    -(value as i64)
                } else {
                    value as i64
                },
            ),
            RollExp::Dice(op, count, faces) => {
                if count < 0 || count > MAX_DICE || faces < 1 || faces > MAX_FACES {
                    return false;
                }
                assert(0 <= count * faces <= 250000) by (nonlinear_arith)
                    requires
                        0 <= count <= 500,
                        1 <= faces <= 500,
                ;
                (op, count as i64 * faces as i64)
            },
        };
        assert(0 <= ceiling * bound <= 0x4000_0000_0000_0000) by (nonlinear_arith)
            requires
                0 <= ceiling <= 0x8000_0000,
                0 <= bound <= 0x8000_0000,
        ;
        let next: i64 = match op {
            Operation::Multiply => ceiling * bound,
            _ => ceiling + bound,
        };
        assert(next == magnitude(expression@, i + 1));
        if next > i32::MAX as i64 {
            return false;
        }
        ceiling = next;
        i += 1;
    }
    true
}

/// The expression that a text stands for: its tokens, parsed.
pub open spec fn expression_of(text: Seq<char>) -> Result<Seq<RollExp>, ParseError> {
    match tokens_of(text) {
        Ok(tokens) => terms_of(tokens),
        Err(e) => Err(e),
    }
}

/// The answer to a roll: the total between double asterisks, then the trace
/// in square brackets.
pub open spec fn result_text(total: int, trace: Seq<char>) -> Seq<char> {
    seq!['*', '*'] + decimal_text(total) + seq!['*', '*', ' ', '['] + trace + seq![']']
}

/// Rolls the dice of `expression` and evaluates it from left to right.
///
/// The result is the total and the trace of some outcome of the expression:
/// which one is up to the dice.
pub fn compute(expression: Vec<RollExp>) -> (r: (i32, String))
    requires
        evaluable(expression@),
    ensures
        exists|outcomes: Seq<Outcome>| #[trigger]
            outcomes_of(outcomes, expression@) && r.0 == total(outcomes) && r.1@ == trace(
                outcomes,
            ),
{
    let mut rng = rand::thread_rng();
    let outcomes = roll_terms(&mut rng, &expression);
    proof {
        lemma_outcomes_fit(outcomes@, expression@);
    }
    summarize(&outcomes)
}

/// Reads an expression: tokenizes the text and parses the tokens.
pub fn parse(text: &String) -> (r: Result<Vec<RollExp>, ParseError>)
    ensures
        seq_result(r) == expression_of(text@),
{
    match tokenize(text.as_str()) {
        Ok(tokens) => parse_tokens(&tokens),
        Err(e) => Err(e),
    }
}

/// Answers a line of dice notation: `**total** [trace]` for some outcome of
/// the expression that the text stands for, or the description of the error
/// that the text gives rise to.
pub fn roll(text: &String) -> (r: Result<String, String>)
    ensures
        match expression_of(text@) {
            Ok(expression) => r matches Ok(answer) && exists|outcomes: Seq<Outcome>| #[trigger]
                outcomes_of(outcomes, expression) && answer@ == result_text(
                    total(outcomes),
                    trace(outcomes),
                ),
            Err(e) => r matches Err(message) && message@ == e.description(),
        },
{
    match parse(text) {
        Ok(expression) => {
            let ghost terms = expression@;
            let result = compute(expression);
            proof {
                reveal_strlit("**");
                reveal_strlit("** [");
                reveal_strlit("]");
            }
            let mut answer = String::from_str("**");
            answer.append(decimal(result.0).as_str());
            answer.append("** [");
            answer.append(result.1.as_str());
            answer.append("]");
            proof {
                let outcomes = choose|outcomes: Seq<Outcome>| #[trigger]
                    outcomes_of(outcomes, terms) && result.0 == total(outcomes) && result.1@
                        == trace(outcomes);
                assert(answer@ =~= result_text(total(outcomes), trace(outcomes)));
            }
            Ok(answer)
        },
        Err(e) => Err(e.describe()),
    }
}

} // verus!
