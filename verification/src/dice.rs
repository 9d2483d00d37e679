//! Rolling: from the terms of an expression to their outcomes, with the
//! thread's random number generator as the dice.

use crate::outcome::{fits, outcomes_fit, running_total, sum, Outcome};
use crate::roll::{evaluable, magnitude, RollExp};
use rand::rngs::ThreadRng;
use rand::Rng;
use vstd::prelude::*;

verus! {

/// `rand::rngs::ThreadRng`, the handle to a thread's random number
/// generator. It is carried through and never looked into.
#[verifier::external_type_specification]
#[verifier::external_body]
pub struct ExThreadRng(ThreadRng);

/// `rand::thread_rng` hands out the calling thread's generator, which the
/// system seeds; it panics only where the system cannot seed it. Nothing is
/// claimed of the generator.
pub assume_specification[ rand::thread_rng ]() -> (rng: ThreadRng)
;

/// `Rng::gen_range` on the inclusive range from `low` to `high`: some value
/// of that range. It panics on an empty range, which `requires` leaves out.
/// Which value comes is not stated.
#[verifier::external_body]
fn gen_range(rng: &mut ThreadRng, low: i32, high: i32) -> (r: i32)
    requires
        low <= high,
    ensures
        low <= r <= high,
{
    rng.gen_range(low..=high)
}

/// `draws` may be what `count` dice with `faces` faces show.
pub open spec fn drawn(draws: Seq<i32>, count: int, faces: int) -> bool {
    &&& draws.len() == count
    &&& forall|j: int| 0 <= j < draws.len() ==> 1 <= #[trigger] draws[j] <= faces
}

/// `outcome` may be what `term` comes to: a constant as it stands, a dice
/// term with one draw per die, each from 1 to the number of faces.
pub open spec fn rolled_from(outcome: Outcome, term: RollExp) -> bool {
    match term {
        RollExp::Number(op, value) => outcome == Outcome::Number(op, value),
        RollExp::Dice(op, count, faces) => {
            &&& outcome matches Outcome::Dice(o, draws)
            &&& o == op
            &&& drawn(draws@, count as int, faces as int)
        },
    }
}

/// `outcomes` may be what `expression` comes to, term by term.
pub open spec fn outcomes_of(outcomes: Seq<Outcome>, expression: Seq<RollExp>) -> bool {
    &&& outcomes.len() == expression.len()
    &&& forall|i: int|
        0 <= i < outcomes.len() ==> rolled_from(#[trigger] outcomes[i], expression[i])
}

/// Rolls `count` dice with `faces` faces each.
pub fn roll_dice(rng: &mut ThreadRng, count: i32, faces: i32) -> (draws: Vec<i32>)
    requires
        0 <= count,
        1 <= faces,
    ensures
        drawn(draws@, count as int, faces as int),
{
    let mut draws: Vec<i32> = Vec::new();
    let mut i: i32 = 0;
    while i < count
        invariant
            0 <= i <= count,
            1 <= faces,
            drawn(draws@, i as int, faces as int),
        decreases count - i,
    {
        let draw = gen_range(rng, 1, faces);
        draws.push(draw);
        i += 1;
    }
    draws
}

/// Rolls the dice of every term of `expression`, from left to right.
pub fn roll_terms(rng: &mut ThreadRng, expression: &Vec<RollExp>) -> (outcomes: Vec<Outcome>)
    requires
        forall|i: int| 0 <= i < expression@.len() ==> (#[trigger] expression@[i]).valid(),
    ensures
        outcomes_of(outcomes@, expression@),
{
    let mut outcomes: Vec<Outcome> = Vec::new();
    let mut i: usize = 0;
    while i < expression.len()
        invariant
            i <= expression.len(),
            forall|j: int| 0 <= j < expression@.len() ==> (#[trigger] expression@[j]).valid(),
            outcomes_of(outcomes@, expression@.take(i as int)),
        decreases expression.len() - i,
    {
        assert(expression@[i as int].valid());
        let outcome = match expression[i] {
            RollExp::Number(op, value) => Outcome::Number(op, value),
            RollExp::Dice(op, count, faces) => Outcome::Dice(op, roll_dice(rng, count, faces)),
        };
        outcomes.push(outcome);
        i += 1;
    }
    assert(expression@.take(i as int) =~= expression@);
    outcomes
}

/// The one outcome of an expression without dice: its constants as they
/// stand.
pub open spec fn constants(expression: Seq<RollExp>) -> Seq<Outcome> {
    Seq::new(
        expression.len(),
        |i: int|
            match expression[i] {
                RollExp::Number(op, value) => Outcome::Number(op, value),
                RollExp::Dice(op, _, _) => Outcome::Number(op, 0),
            },
    )
}

/// An expression made of constants alone has one outcome, so its total and
/// its trace do not depend on chance.
pub proof fn lemma_constants_have_one_outcome(outcomes: Seq<Outcome>, expression: Seq<RollExp>)
    requires
        forall|i: int| 0 <= i < expression.len() ==> #[trigger] expression[i] is Number,
        outcomes_of(outcomes, expression),
    ensures
        outcomes == constants(expression),
{
    assert forall|i: int| 0 <= i < outcomes.len() implies outcomes[i] == constants(
        expression,
    )[i] by {
        assert(expression[i] is Number);
        assert(rolled_from(outcomes[i], expression[i]));
    }
    assert(outcomes =~= constants(expression));
}

/// What `k` dice with `faces` faces add up to lies between `k` and
/// `k * faces`.
pub proof fn lemma_sum_bounds(draws: Seq<i32>, k: int, faces: int)
    requires
        0 <= k <= draws.len(),
        forall|j: int| 0 <= j < draws.len() ==> 1 <= #[trigger] draws[j] <= faces,
    ensures
        k <= sum(draws, k) <= k * faces,
    decreases k,
{
    if k > 0 {
        lemma_sum_bounds(draws, k - 1, faces);
        assert(1 <= draws[k - 1] <= faces);
        assert(k * faces == (k - 1) * faces + faces) by (nonlinear_arith);
    } else {
        assert(k * faces == 0) by (nonlinear_arith)
            requires
                k == 0,
        ;
    }
}

/// A dice term contributes the sum of its draws, each of them from 1 to the
/// number of faces; so it contributes at least its count and at most its
/// count times its faces.
pub proof fn lemma_dice_contribution(outcome: Outcome, term: RollExp)
    requires
        rolled_from(outcome, term),
        term is Dice,
    ensures
        outcome matches Outcome::Dice(_, draws) && term matches RollExp::Dice(_, count, faces)
            && {
            &&& draws@.len() == count
            &&& forall|j: int| 0 <= j < draws@.len() ==> 1 <= #[trigger] draws@[j] <= faces
            &&& outcome.value() == sum(draws@, count as int)
            &&& count <= outcome.value() <= count * faces
        },
{
    match (outcome, term) {
        (Outcome::Dice(_, draws), RollExp::Dice(_, count, faces)) => {
            lemma_sum_bounds(draws@, count as int, faces as int);
        },
        _ => {},
    }
}

/// Whatever the dice of an expression show, the running total stays within
/// the expression's ceiling.
pub proof fn lemma_total_within_magnitude(
    outcomes: Seq<Outcome>,
    expression: Seq<RollExp>,
    k: int,
)
    requires
        outcomes_of(outcomes, expression),
        forall|i: int| 0 <= i < expression.len() ==> (#[trigger] expression[i]).valid(),
        0 <= k <= expression.len(),
    ensures
        -magnitude(expression, k) <= running_total(outcomes, k) <= magnitude(expression, k),
        k > 0 ==> -expression[k - 1].bound() <= outcomes[k - 1].value() <= expression[k
            - 1].bound(),
    decreases k,
{
    if k > 0 {
        lemma_total_within_magnitude(outcomes, expression, k - 1);
        let term = expression[k - 1];
        let outcome = outcomes[k - 1];
        assert(term.valid());
        assert(rolled_from(outcome, term));
        if term is Dice {
            lemma_dice_contribution(outcome, term);
        }
        let before = running_total(outcomes, k - 1);
        let ceiling = magnitude(expression, k - 1);
        let value = outcome.value();
        let bound = term.bound();
        assert(outcome.op() == term.op());
        if term.op() is Multiply {
            assert(-(ceiling * bound) <= before * value <= ceiling * bound) by (nonlinear_arith)
                requires
                    -ceiling <= before <= ceiling,
                    -bound <= value <= bound,
            ;
        }
    }
}

/// The outcomes of an expression that can be evaluated in 32 bits fit in 32
/// bits, whatever the dice show.
pub proof fn lemma_outcomes_fit(outcomes: Seq<Outcome>, expression: Seq<RollExp>)
    requires
        outcomes_of(outcomes, expression),
        evaluable(expression),
    ensures
        outcomes_fit(outcomes),
{
    assert forall|k: int| 0 <= k <= outcomes.len() implies fits(
        #[trigger] running_total(outcomes, k),
    ) by {
        lemma_total_within_magnitude(outcomes, expression, k);
        assert(magnitude(expression, k) <= i32::MAX);
    }
    assert forall|i: int| 0 <= i < outcomes.len() implies fits((#[trigger] outcomes[i]).value()) by {
        let term = expression[i];
        assert(term.valid());
        assert(rolled_from(outcomes[i], term));
        if term is Dice {
            lemma_dice_contribution(outcomes[i], term);
            assert(term.bound() <= 250000) by (nonlinear_arith)
                requires
                    term.valid(),
                    term is Dice,
            ;
        }
    }
}

} // verus!
