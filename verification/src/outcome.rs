//! What an expression came to once its dice were rolled: the total and the
//! trace that shows how it was reached.

use crate::decimal::{decimal, decimal_text};
use crate::roll::Operation;
use vstd::prelude::*;
use vstd::string::StringExecFns;

verus! {

/// One term after the roll, with the operator that joins it to what stands
/// before it.
#[derive(Debug, PartialEq, Eq)]
pub enum Outcome {
    /// A constant.
    Number(Operation, i32),
    /// The draws of a dice term, in the order in which they were made.
    Dice(Operation, Vec<i32>),
}

/// The sum of the first `k` draws.
pub open spec fn sum(draws: Seq<i32>, k: int) -> int
    decreases k,
{
    if k <= 0 {
        0
    } else {
        sum(draws, k - 1) + draws[k - 1]
    }
}

/// The first `k` draws in decimal, joined by ` + `.
pub open spec fn joined(draws: Seq<i32>, k: int) -> Seq<char>
    decreases k,
{
    if k <= 0 {
        Seq::empty()
    } else if k == 1 {
        decimal_text(draws[0] as int)
    } else {
        joined(draws, k - 1) + Operation::Add.symbol_text() + decimal_text(draws[k - 1] as int)
    }
}

impl Outcome {
    pub open spec fn op(self) -> Operation {
        match self {
            Outcome::Number(op, _) => op,
            Outcome::Dice(op, _) => op,
        }
    }

    /// What the term contributes: the constant, or the sum of the draws.
    pub open spec fn value(self) -> int {
        match self {
            Outcome::Number(_, value) => value as int,
            Outcome::Dice(_, draws) => sum(draws@, draws@.len() as int),
        }
    }

    /// How the term is written in a trace: its value and, for more than one
    /// die, the draws in parentheses.
    pub open spec fn text(self) -> Seq<char> {
        match self {
            Outcome::Number(_, value) => decimal_text(value as int),
            Outcome::Dice(_, draws) => if draws@.len() > 1 {
                decimal_text(sum(draws@, draws@.len() as int)) + seq![' ', '('] + joined(
                    draws@,
                    draws@.len() as int,
                ) + seq![')']
            } else {
                decimal_text(sum(draws@, draws@.len() as int))
            },
        }
    }
}

/// The total after the first `k` terms, taken from left to right from zero.
pub open spec fn running_total(outcomes: Seq<Outcome>, k: int) -> int
    decreases k,
{
    if k <= 0 {
        0
    } else {
        outcomes[k - 1].op().apply(running_total(outcomes, k - 1), outcomes[k - 1].value())
    }
}

/// The trace of the first `k` terms: each term's text, with its operator
/// before it for every term but the first.
pub open spec fn running_trace(outcomes: Seq<Outcome>, k: int) -> Seq<char>
    decreases k,
{
    if k <= 0 {
        Seq::empty()
    } else if k == 1 {
        outcomes[0].text()
    } else {
        running_trace(outcomes, k - 1) + outcomes[k - 1].op().symbol_text() + outcomes[k
            - 1].text()
    }
}

pub open spec fn total(outcomes: Seq<Outcome>) -> int {
    running_total(outcomes, outcomes.len() as int)
}

pub open spec fn trace(outcomes: Seq<Outcome>) -> Seq<char> {
    running_trace(outcomes, outcomes.len() as int)
}

pub open spec fn fits(x: int) -> bool {
    i32::MIN <= x <= i32::MAX
}

/// Every term's value and every running total can be held in 32 bits.
pub open spec fn outcomes_fit(outcomes: Seq<Outcome>) -> bool {
    &&& forall|i: int| 0 <= i < outcomes.len() ==> fits((#[trigger] outcomes[i]).value())
    &&& forall|k: int| 0 <= k <= outcomes.len() ==> fits(#[trigger] running_total(outcomes, k))
}

fn sum_of(draws: &Vec<i32>) -> (s: i128)
    ensures
        s == sum(draws@, draws@.len() as int),
{
    let mut s: i128 = 0;
    let mut i: usize = 0;
    while i < draws.len()
        invariant
            i <= draws.len(),
            s == sum(draws@, i as int),
            -(i * 0x8000_0000) <= s <= i * 0x8000_0000,
        decreases draws.len() - i,
    {
        s = s + draws[i] as i128;
        i += 1;
    }
    s
}

fn join(draws: &Vec<i32>) -> (s: String)
    ensures
        s@ == joined(draws@, draws@.len() as int),
{
    let mut s = String::new();
    let mut i: usize = 0;
    while i < draws.len()
        invariant
            i <= draws.len(),
            s@ == joined(draws@, i as int),
        decreases draws.len() - i,
    {
        let ghost before = s@;
        if i > 0 {
            s.append(Operation::Add.symbol());
        }
        s.append(decimal(draws[i]).as_str());
        proof {
            assert(Seq::<char>::empty() + decimal_text(draws@[0] as int) =~= decimal_text(
                draws@[0] as int,
            ));
        }
        i += 1;
    }
    s
}

/// Evaluates rolled terms from left to right: the total, and the trace of
/// how it was reached.
pub fn summarize(outcomes: &Vec<Outcome>) -> (r: (i32, String))
    requires
        outcomes_fit(outcomes@),
    ensures
        r.0 == total(outcomes@),
        r.1@ == trace(outcomes@),
{
    let mut total: i32 = 0;
    let mut text = String::new();
    let mut i: usize = 0;
    while i < outcomes.len()
        invariant
            i <= outcomes.len(),
            outcomes_fit(outcomes@),
            total == running_total(outcomes@, i as int),
            text@ == running_trace(outcomes@, i as int),
        decreases outcomes.len() - i,
    {
        let ghost term = outcomes@[i as int];
        assert(fits(term.value()));
        assert(fits(running_total(outcomes@, i + 1)));
        let (op, value, shown): (Operation, i32, String) = match &outcomes[i] {
            Outcome::Number(op, value) => (*op, *value, decimal(*value)),
            Outcome::Dice(op, draws) => {
                let rolled: i32 = sum_of(draws) as i32;
                let mut shown = decimal(rolled);
                if draws.len() > 1 {
                    proof {
                        reveal_strlit(" (");
                        reveal_strlit(")");
                    }
                    shown.append(" (");
                    shown.append(join(draws).as_str());
                    shown.append(")");
                    proof {
                        assert(shown@ =~= term.text());
                    }
                }
                (*op, rolled, shown)
            },
        };
        assert(shown@ == term.text());
        if i > 0 {
            text.append(op.symbol());
        }
        text.append(shown.as_str());
        proof {
            assert(Seq::<char>::empty() + term.text() =~= term.text());
        }
        assert(-0x4000_0000_0000_0000 <= total * value <= 0x4000_0000_0000_0000)
            by (nonlinear_arith)
            requires
                -0x8000_0000 <= total <= 0x8000_0000,
                -0x8000_0000 <= value <= 0x8000_0000,
        ;
        let next: i64 = match op {
            Operation::Add => total as i64 + value as i64,
            Operation::Substract => total as i64 - value as i64,
            Operation::Multiply => total as i64 * value as i64,
        };
        total = next as i32;
        i += 1;
    }
    (total, text)
}

} // verus!
