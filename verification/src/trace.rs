//! Reading a trace back: what a trace shows of the terms it was made from,
//! and the proof that the numbers it shows add up to the total.

use crate::decimal::{decimal_text, digit_char, digits};
use crate::dice::outcomes_of;
use crate::outcome::{joined, running_total, running_trace, total, trace, Outcome};
use crate::roll::{Operation, RollExp};
use crate::token::{digit_value, is_digit};
use vstd::prelude::*;

verus! {

/// Reads the digits at the front of `s` on top of `value`: the number read
/// and what is left of `s`.
pub open spec fn read_digits(s: Seq<char>, value: int) -> (int, Seq<char>)
    decreases s.len(),
{
    if s.len() > 0 && is_digit(s[0]) {
        read_digits(s.skip(1), value * 10 + digit_value(s[0]))
    } else {
        (value, s)
    }
}

/// Reads a number, with its sign if it is negative, at the front of `s`.
pub open spec fn read_number(s: Seq<char>) -> Option<(int, Seq<char>)> {
    if s.len() > 0 && is_digit(s[0]) {
        Some(read_digits(s, 0))
    } else if s.len() > 1 && s[0] == '-' && is_digit(s[1]) {
        let (value, rest) = read_digits(s.skip(1), 0);
        Some((-value, rest))
    } else {
        None
    }
}

/// What follows the first closing parenthesis of `s`.
pub open spec fn after_close(s: Seq<char>) -> Seq<char>
    decreases s.len(),
{
    if s.len() == 0 {
        s
    } else if s[0] == ')' {
        s.skip(1)
    } else {
        after_close(s.skip(1))
    }
}

/// `s` without the breakdown in parentheses at its front, if it has one.
pub open spec fn skip_breakdown(s: Seq<char>) -> Seq<char> {
    if s.len() >= 2 && s[0] == ' ' && s[1] == '(' {
        after_close(s.skip(2))
    } else {
        s
    }
}

/// Reads one term at the front of `s`: its value, and what is left of `s`
/// after the term and its breakdown.
pub open spec fn read_term(s: Seq<char>) -> Option<(int, Seq<char>)> {
    match read_number(s) {
        Some((value, rest)) => Some((value, skip_breakdown(rest))),
        None => None,
    }
}

/// Reads an operator between two spaces at the front of `s`.
pub open spec fn read_operator(s: Seq<char>) -> Option<Operation> {
    if s.len() >= 3 && s[0] == ' ' && s[2] == ' ' {
        Operation::of_char(s[1])
    } else {
        None
    }
}

/// Reads operators and terms to the end of `s` and applies each to `total`
/// in turn.
pub open spec fn read_terms(s: Seq<char>, total: int) -> Option<int>
    decreases s.len(),
{
    if s.len() == 0 {
        Some(total)
    } else {
        match read_operator(s) {
            None => None,
            Some(op) => match read_term(s.skip(3)) {
                None => None,
                Some((value, rest)) => if rest.len() < s.len() {
                    read_terms(rest, op.apply(total, value))
                } else {
                    None
                },
            },
        }
    }
}

/// The total that a trace adds up to: its first number, then every operator
/// applied to the number that follows it, from left to right; breakdowns in
/// parentheses are passed over. `None` if the text is no trace.
pub open spec fn reconstruct(trace: Seq<char>) -> Option<int> {
    match read_term(trace) {
        Some((value, rest)) => read_terms(rest, value),
        None => None,
    }
}

/// A term shows its draws when it rolled more than one die.
pub open spec fn shows_breakdown(outcome: Outcome) -> bool {
    outcome matches Outcome::Dice(_, draws) && draws@.len() > 1
}

/// Neither parenthesis occurs in `s`.
pub open spec fn plain(s: Seq<char>) -> bool {
    forall|i: int| 0 <= i < s.len() ==> #[trigger] s[i] != '(' && s[i] != ')'
}

/// The trace from term `k` on: each term with its operator before it.
pub open spec fn trace_from(outcomes: Seq<Outcome>, k: int) -> Seq<char>
    decreases outcomes.len() - k,
{
    if k < 0 || k >= outcomes.len() {
        Seq::empty()
    } else {
        outcomes[k].op().symbol_text() + outcomes[k].text() + trace_from(outcomes, k + 1)
    }
}

/// The total once the terms from `k` on have been applied to `total`.
pub open spec fn total_from(outcomes: Seq<Outcome>, k: int, total: int) -> int
    decreases outcomes.len() - k,
{
    if k < 0 || k >= outcomes.len() {
        total
    } else {
        total_from(outcomes, k + 1, outcomes[k].op().apply(total, outcomes[k].value()))
    }
}

/// What may follow a term in a trace: nothing, or a space and then anything
/// but an opening parenthesis.
pub open spec fn starts_clean(s: Seq<char>) -> bool {
    s.len() == 0 || (s.len() >= 2 && s[0] == ' ' && s[1] != '(')
}

proof fn lemma_digits_plain(n: nat)
    ensures
        digits(n).len() >= 1,
        forall|i: int| 0 <= i < digits(n).len() ==> is_digit(#[trigger] digits(n)[i]),
    decreases n,
{
    if n >= 10 {
        lemma_digits_plain(n / 10);
    }
}

proof fn lemma_decimal_plain(v: int)
    ensures
        decimal_text(v).len() >= 1,
        forall|i: int|
            0 <= i < decimal_text(v).len() ==> {
                let c = #[trigger] decimal_text(v)[i];
                is_digit(c) || c == '-'
            },
        plain(decimal_text(v)),
{
    if v < 0 {
        lemma_digits_plain((-v) as nat);
    } else {
        lemma_digits_plain(v as nat);
    }
}

proof fn lemma_joined_plain(draws: Seq<i32>, k: int)
    ensures
        plain(joined(draws, k)),
    decreases k,
{
    if k == 1 {
        lemma_decimal_plain(draws[0] as int);
    } else if k > 1 {
        lemma_joined_plain(draws, k - 1);
        lemma_decimal_plain(draws[k - 1] as int);
    }
}

proof fn lemma_read_digits(n: nat, rest: Seq<char>)
    ensures
        read_digits(digits(n) + rest, 0) == read_digits(rest, n as int),
    decreases n,
{
    if n < 10 {
        let s = digits(n) + rest;
        assert(s[0] == digit_char(n as int));
        assert(s.skip(1) =~= rest);
    } else {
        let last = seq![digit_char((n % 10) as int)];
        let tail = last + rest;
        assert(digits(n) + rest =~= digits(n / 10) + tail);
        lemma_read_digits(n / 10, tail);
        assert(tail[0] == digit_char((n % 10) as int));
        assert(tail.skip(1) =~= rest);
    }
}

proof fn lemma_read_number(v: int, rest: Seq<char>)
    requires
        rest.len() == 0 || !is_digit(rest[0]),
    ensures
        read_number(decimal_text(v) + rest) == Some((v, rest)),
{
    let s = decimal_text(v) + rest;
    if v < 0 {
        let n = (-v) as nat;
        lemma_digits_plain(n);
        lemma_read_digits(n, rest);
        assert(s[0] == '-');
        assert(s[1] == digits(n)[0]);
        assert(s.skip(1) =~= digits(n) + rest);
    } else {
        let n = v as nat;
        lemma_digits_plain(n);
        lemma_read_digits(n, rest);
        assert(s[0] == digits(n)[0]);
    }
}

proof fn lemma_after_close(inside: Seq<char>, rest: Seq<char>)
    requires
        plain(inside),
    ensures
        after_close(inside + seq![')'] + rest) == rest,
    decreases inside.len(),
{
    let s = inside + seq![')'] + rest;
    if inside.len() == 0 {
        assert(s[0] == ')');
        assert(s.skip(1) =~= rest);
    } else {
        assert(s[0] == inside[0]);
        assert(s.skip(1) =~= inside.skip(1) + seq![')'] + rest);
        lemma_after_close(inside.skip(1), rest);
    }
}

proof fn lemma_read_term(outcome: Outcome, rest: Seq<char>)
    requires
        starts_clean(rest),
    ensures
        read_term(outcome.text() + rest) == Some((outcome.value(), rest)),
{
    let value = outcome.value();
    if shows_breakdown(outcome) {
        let draws = outcome->Dice_1@;
        let inside = joined(draws, draws.len() as int);
        let breakdown = seq![' ', '('] + inside + seq![')'] + rest;
        assert(outcome.text() + rest =~= decimal_text(value) + breakdown);
        lemma_read_number(value, breakdown);
        lemma_joined_plain(draws, draws.len() as int);
        lemma_after_close(inside, rest);
        assert(breakdown.skip(2) =~= inside + seq![')'] + rest);
    } else {
        assert(outcome.text() == decimal_text(value));
        lemma_read_number(value, rest);
    }
}

proof fn lemma_trace_from_clean(outcomes: Seq<Outcome>, k: int)
    ensures
        starts_clean(trace_from(outcomes, k)),
        0 <= k < outcomes.len() ==> trace_from(outcomes, k).len() >= 3,
{
    if 0 <= k < outcomes.len() {
        let symbol = outcomes[k].op().symbol_text();
        let s = trace_from(outcomes, k);
        assert(s[0] == symbol[0]);
        assert(s[1] == symbol[1]);
        assert(s[2] == symbol[2]);
    }
}

proof fn lemma_read_terms(outcomes: Seq<Outcome>, k: int, total: int)
    requires
        0 <= k <= outcomes.len(),
    ensures
        read_terms(trace_from(outcomes, k), total) == Some(total_from(outcomes, k, total)),
    decreases outcomes.len() - k,
{
    if k < outcomes.len() {
        let op = outcomes[k].op();
        let symbol = op.symbol_text();
        let s = trace_from(outcomes, k);
        let rest = trace_from(outcomes, k + 1);
        assert(s[0] == symbol[0]);
        assert(s[1] == symbol[1]);
        assert(s[2] == symbol[2]);
        assert(read_operator(s) == Some(op));
        assert(s.skip(3) =~= outcomes[k].text() + rest);
        lemma_trace_from_clean(outcomes, k + 1);
        lemma_read_term(outcomes[k], rest);
        lemma_read_terms(outcomes, k + 1, op.apply(total, outcomes[k].value()));
    }
}

proof fn lemma_trace_split(outcomes: Seq<Outcome>, k: int)
    requires
        1 <= k <= outcomes.len(),
    ensures
        running_trace(outcomes, k) + trace_from(outcomes, k) == trace(outcomes),
    decreases outcomes.len() - k,
{
    if k < outcomes.len() {
        lemma_trace_split(outcomes, k + 1);
        assert(running_trace(outcomes, k) + trace_from(outcomes, k) =~= running_trace(
            outcomes,
            k + 1,
        ) + trace_from(outcomes, k + 1));
    } else {
        assert(running_trace(outcomes, k) + trace_from(outcomes, k) =~= trace(outcomes));
    }
}

proof fn lemma_total_split(outcomes: Seq<Outcome>, k: int)
    requires
        0 <= k <= outcomes.len(),
    ensures
        total_from(outcomes, k, running_total(outcomes, k)) == total(outcomes),
    decreases outcomes.len() - k,
{
    if k < outcomes.len() {
        lemma_total_split(outcomes, k + 1);
    }
}

/// A trace reads back as the first term's value with every later term
/// applied to it in turn. The first term's operator is not shown in a trace,
/// so it has no part in what is read.
pub proof fn lemma_trace_reads_back(outcomes: Seq<Outcome>)
    requires
        outcomes.len() > 0,
    ensures
        reconstruct(trace(outcomes)) == Some(total_from(outcomes, 1, outcomes[0].value())),
{
    lemma_trace_split(outcomes, 1);
    lemma_trace_from_clean(outcomes, 1);
    lemma_read_term(outcomes[0], trace_from(outcomes, 1));
    lemma_read_terms(outcomes, 1, outcomes[0].value());
}

/// The numbers of a trace, combined from left to right by the operators it
/// shows, give the total, for every expression that starts with a term that
/// is added.
pub proof fn lemma_trace_adds_up(outcomes: Seq<Outcome>)
    requires
        outcomes.len() > 0,
        outcomes[0].op() is Add,
    ensures
        reconstruct(trace(outcomes)) == Some(total(outcomes)),
{
    lemma_trace_reads_back(outcomes);
    lemma_total_split(outcomes, 1);
    assert(running_total(outcomes, 0) == 0);
    assert(running_total(outcomes, 1) == outcomes[0].value());
}

/// A term of an expression asks for a breakdown when it rolls more than one
/// die.
pub open spec fn rolls_several(term: RollExp) -> bool {
    term matches RollExp::Dice(_, count, _) && count > 1
}

proof fn lemma_contains_concat(a: Seq<char>, b: Seq<char>, c: char)
    ensures
        (a + b).contains(c) <==> a.contains(c) || b.contains(c),
{
    let s = a + b;
    if s.contains(c) {
        let i = choose|i: int| 0 <= i < s.len() && s[i] == c;
        if i < a.len() {
            assert(a[i] == c);
        } else {
            assert(b[i - a.len()] == c);
        }
    }
    if a.contains(c) {
        let i = choose|i: int| 0 <= i < a.len() && a[i] == c;
        assert(s[i] == c);
    }
    if b.contains(c) {
        let j = choose|j: int| 0 <= j < b.len() && b[j] == c;
        assert(s[a.len() + j] == c);
    }
}

proof fn lemma_plain_contains(s: Seq<char>)
    requires
        plain(s),
    ensures
        !s.contains('('),
        !s.contains(')'),
{
    if s.contains('(') {
        let i = choose|i: int| 0 <= i < s.len() && s[i] == '(';
        assert(s[i] != '(');
    }
    if s.contains(')') {
        let i = choose|i: int| 0 <= i < s.len() && s[i] == ')';
        assert(s[i] != ')');
    }
}

proof fn lemma_text_parentheses(outcome: Outcome)
    ensures
        outcome.text().contains('(') <==> shows_breakdown(outcome),
        outcome.text().contains(')') <==> shows_breakdown(outcome),
{
    let text = outcome.text();
    let shown = decimal_text(outcome.value());
    lemma_decimal_plain(outcome.value());
    if shows_breakdown(outcome) {
        assert(text[shown.len() as int + 1] == '(');
        assert(text[text.len() - 1] == ')');
    } else {
        lemma_plain_contains(text);
    }
}

proof fn lemma_running_trace_parentheses(outcomes: Seq<Outcome>, k: int, c: char)
    requires
        0 <= k <= outcomes.len(),
        c == '(' || c == ')',
    ensures
        running_trace(outcomes, k).contains(c) <==> exists|i: int|
            0 <= i < k && shows_breakdown(#[trigger] outcomes[i]),
    decreases k,
{
    if k == 0 {
        assert(!running_trace(outcomes, k).contains(c));
    } else {
        lemma_text_parentheses(outcomes[k - 1]);
        if k == 1 {
            if shows_breakdown(outcomes[0]) {
                assert(0 <= 0 < k && shows_breakdown(outcomes[0]));
            }
        } else {
            lemma_running_trace_parentheses(outcomes, k - 1, c);
            let before = running_trace(outcomes, k - 1);
            let symbol = outcomes[k - 1].op().symbol_text();
            let text = outcomes[k - 1].text();
            lemma_contains_concat(before + symbol, text, c);
            lemma_contains_concat(before, symbol, c);
            assert(!symbol.contains(c));
            if shows_breakdown(outcomes[k - 1]) {
                assert(0 <= k - 1 < k && shows_breakdown(outcomes[k - 1]));
            }
        }
    }
}

/// A trace holds parentheses exactly when one of its terms rolled more than
/// one die: a single die, or a constant, is never broken down.
pub proof fn lemma_breakdown_shown(outcomes: Seq<Outcome>)
    ensures
        trace(outcomes).contains('(') <==> exists|i: int|
            0 <= i < outcomes.len() && shows_breakdown(#[trigger] outcomes[i]),
        trace(outcomes).contains(')') <==> exists|i: int|
            0 <= i < outcomes.len() && shows_breakdown(#[trigger] outcomes[i]),
{
    lemma_running_trace_parentheses(outcomes, outcomes.len() as int, '(');
    lemma_running_trace_parentheses(outcomes, outcomes.len() as int, ')');
}

/// Whatever the dice show, the trace of an expression holds parentheses
/// exactly when one of its dice terms rolls more than one die.
pub proof fn lemma_breakdown_of_expression(outcomes: Seq<Outcome>, expression: Seq<RollExp>)
    requires
        outcomes_of(outcomes, expression),
    ensures
        trace(outcomes).contains('(') <==> exists|i: int|
            0 <= i < expression.len() && rolls_several(#[trigger] expression[i]),
        trace(outcomes).contains(')') <==> exists|i: int|
            0 <= i < expression.len() && rolls_several(#[trigger] expression[i]),
{
    lemma_breakdown_shown(outcomes);
    assert forall|i: int| 0 <= i < outcomes.len() implies (shows_breakdown(outcomes[i])
        <==> rolls_several(expression[i])) by {
        assert(crate::dice::rolled_from(outcomes[i], expression[i]));
    }
    if exists|i: int| 0 <= i < outcomes.len() && shows_breakdown(#[trigger] outcomes[i]) {
        let i = choose|i: int| 0 <= i < outcomes.len() && shows_breakdown(#[trigger] outcomes[i]);
        assert(rolls_several(expression[i]));
    }
    if exists|i: int| 0 <= i < expression.len() && rolls_several(#[trigger] expression[i]) {
        let i = choose|i: int| 0 <= i < expression.len() && rolls_several(#[trigger] expression[i]);
        assert(shows_breakdown(outcomes[i]));
    }
}

} // verus!
