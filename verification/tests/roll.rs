use dicebot::decimal::decimal;
use dicebot::dice::{roll_dice, roll_terms};
use dicebot::error::ParseError;
use dicebot::outcome::{summarize, Outcome};
use dicebot::parser::{finish, parse_tokens, step, ParserState};
use dicebot::roll::{compute, is_evaluable, parse, roll, Operation, RollExp};
use dicebot::token::{is_whitespace, tokenize, Token};

fn text(s: &str) -> String {
    s.to_string()
}

/// Splits `**total** [trace]` into its two parts.
fn parts(answer: &str) -> (i32, String) {
    let rest = answer.strip_prefix("**").unwrap();
    let (total, rest) = rest.split_once("** [").unwrap();
    let trace = rest.strip_suffix("]").unwrap();
    (total.parse().unwrap(), trace.to_string())
}

#[test]
fn operation_symbols() {
    assert_eq!(" + ", Operation::Add.symbol());
    assert_eq!(" - ", Operation::Substract.symbol());
    assert_eq!(" * ", Operation::Multiply.symbol());
}

#[test]
fn operation_from_char() {
    assert_eq!(Some(Operation::Add), Operation::from_char('+'));
    assert_eq!(Some(Operation::Substract), Operation::from_char('-'));
    assert_eq!(Some(Operation::Multiply), Operation::from_char('*'));
    assert_eq!(None, Operation::from_char('d'));
    assert_eq!(None, Operation::from_char('/'));
}

#[test]
fn decimal_writes_numbers() {
    assert_eq!("0", decimal(0));
    assert_eq!("7", decimal(7));
    assert_eq!("10", decimal(10));
    assert_eq!("-1", decimal(-1));
    assert_eq!("250000", decimal(250000));
    assert_eq!("2147483647", decimal(i32::MAX));
    assert_eq!("-2147483648", decimal(i32::MIN));
}

#[test]
fn tokenize_splits_numbers_and_markers() {
    assert_eq!(
        Ok(vec![
            Token::Number(2),
            Token::Marker('d'),
            Token::Number(6),
            Token::Marker('+'),
            Token::Number(3),
        ]),
        tokenize("2d6 + 3")
    );
    assert_eq!(
        Ok(vec![Token::Marker('-'), Token::Marker('*'), Token::Marker('d')]),
        tokenize("-*d")
    );
    assert_eq!(Ok(vec![]), tokenize(""));
    assert_eq!(Ok(vec![]), tokenize("   "));
}

#[test]
fn tokenize_collects_maximal_digit_runs() {
    assert_eq!(Ok(vec![Token::Number(1234)]), tokenize("1234"));
    assert_eq!(Ok(vec![Token::Number(12), Token::Number(34)]), tokenize("12 34"));
    assert_eq!(Ok(vec![Token::Number(7)]), tokenize("007"));
    assert_eq!(Ok(vec![Token::Number(0)]), tokenize("0"));
}

#[test]
fn tokenize_skips_whitespace() {
    assert_eq!(
        Ok(vec![Token::Number(1), Token::Marker('+'), Token::Number(2)]),
        tokenize("\t1\n+\r\u{a0}2\u{3000}")
    );
    assert!(is_whitespace(' '));
    assert!(is_whitespace('\u{2003}'));
    assert!(!is_whitespace('_'));
    assert!(!is_whitespace('\u{200b}'));
    for c in ['\u{8}', '\u{e}', '\u{1f}', '!', '\u{84}', '\u{86}', '\u{1fff}', '\u{200b}'] {
        assert_eq!(c.is_whitespace(), is_whitespace(c));
    }
    for code in 0..0x3100u32 {
        if let Some(c) = char::from_u32(code) {
            assert_eq!(c.is_whitespace(), is_whitespace(c));
        }
    }
}

#[test]
fn tokenize_rejects_other_characters() {
    assert_eq!(Err(ParseError::UnexpectedCharacter('a')), tokenize("abc"));
    assert_eq!(Err(ParseError::UnexpectedCharacter('/')), tokenize("4 / 2"));
    assert_eq!(Err(ParseError::UnexpectedCharacter('D')), tokenize("2D6"));
    assert_eq!(Err(ParseError::UnexpectedCharacter('(')), tokenize("(1)"));
    assert_eq!(Err(ParseError::UnexpectedCharacter('٣')), tokenize("1٣"));
}

#[test]
fn tokenize_bounds_numbers() {
    assert_eq!(Ok(vec![Token::Number(2147483647)]), tokenize("2147483647"));
    assert_eq!(Err(ParseError::NumberTooLarge), tokenize("2147483648"));
    assert_eq!(Err(ParseError::NumberTooLarge), tokenize("99999999999999999999999"));
    // the first offence in the text is the one reported
    assert_eq!(Err(ParseError::NumberTooLarge), tokenize("99999999999x"));
    assert_eq!(Err(ParseError::UnexpectedCharacter('x')), tokenize("x99999999999"));
}

#[test]
fn step_follows_the_grammar() {
    assert_eq!(
        Ok((ParserState::HaveNumber(Operation::Add, 3), None)),
        step(ParserState::Start, Token::Number(3))
    );
    assert_eq!(
        Ok((ParserState::HaveDiceMarker(Operation::Add, 1), None)),
        step(ParserState::Start, Token::Marker('d'))
    );
    assert_eq!(
        Ok((ParserState::HavePendingOperator(Operation::Substract), None)),
        step(ParserState::Start, Token::Marker('-'))
    );
    assert_eq!(
        Ok((ParserState::HaveDiceMarker(Operation::Multiply, 4), None)),
        step(ParserState::HaveNumber(Operation::Multiply, 4), Token::Marker('d'))
    );
    assert_eq!(
        Ok((
            ParserState::HavePendingOperator(Operation::Add),
            Some(RollExp::Number(Operation::Multiply, 4)),
        )),
        step(ParserState::HaveNumber(Operation::Multiply, 4), Token::Marker('+'))
    );
    assert_eq!(
        Ok((ParserState::HaveDice, Some(RollExp::Dice(Operation::Substract, 2, 6)))),
        step(ParserState::HaveDiceMarker(Operation::Substract, 2), Token::Number(6))
    );
    assert_eq!(
        Ok((ParserState::HavePendingOperator(Operation::Multiply), None)),
        step(ParserState::HaveDice, Token::Marker('*'))
    );
}

#[test]
fn step_rejects_what_does_not_fit() {
    let malformed = Err(ParseError::MalformedExpression);
    assert_eq!(malformed, step(ParserState::HaveNumber(Operation::Add, 3), Token::Number(4)));
    assert_eq!(malformed, step(ParserState::HaveDice, Token::Number(4)));
    assert_eq!(malformed, step(ParserState::HaveDice, Token::Marker('d')));
    assert_eq!(
        malformed,
        step(ParserState::HavePendingOperator(Operation::Add), Token::Marker('+'))
    );
    assert_eq!(
        malformed,
        step(ParserState::HaveDiceMarker(Operation::Add, 1), Token::Marker('d'))
    );
    assert_eq!(
        malformed,
        step(ParserState::HaveDiceMarker(Operation::Add, 1), Token::Marker('-'))
    );
    assert_eq!(malformed, step(ParserState::Start, Token::Marker('x')));
    assert_eq!(malformed, step(ParserState::Start, Token::Number(-1)));
    assert_eq!(
        malformed,
        step(ParserState::HaveDiceMarker(Operation::Add, 1), Token::Number(0))
    );
}

#[test]
fn finish_closes_the_machine() {
    assert_eq!(Err(ParseError::EmptyExpression), finish(ParserState::Start));
    assert_eq!(
        Ok(Some(RollExp::Number(Operation::Substract, 3))),
        finish(ParserState::HaveNumber(Operation::Substract, 3))
    );
    assert_eq!(Ok(None), finish(ParserState::HaveDice));
    assert_eq!(
        Err(ParseError::MalformedExpression),
        finish(ParserState::HavePendingOperator(Operation::Add))
    );
    assert_eq!(
        Err(ParseError::MalformedExpression),
        finish(ParserState::HaveDiceMarker(Operation::Add, 3))
    );
}

#[test]
fn parse_gives_the_terms_in_order() {
    assert_eq!(
        Ok(vec![
            RollExp::Dice(Operation::Add, 2, 6),
            RollExp::Number(Operation::Add, 3),
            RollExp::Dice(Operation::Substract, 1, 4),
            RollExp::Number(Operation::Multiply, 2),
        ]),
        parse(&text("2d6 + 3 - d4 * 2"))
    );
    assert_eq!(Ok(vec![RollExp::Dice(Operation::Add, 1, 6)]), parse(&text("d6")));
    assert_eq!(Ok(vec![RollExp::Number(Operation::Add, 42)]), parse(&text(" 42 ")));
    assert_eq!(Ok(vec![RollExp::Number(Operation::Substract, 3)]), parse(&text("-3")));
    assert_eq!(Ok(vec![RollExp::Dice(Operation::Multiply, 1, 8)]), parse(&text("*d8")));
    assert_eq!(Ok(vec![RollExp::Dice(Operation::Add, 0, 6)]), parse(&text("0d6")));
}

#[test]
fn parse_is_repeatable() {
    let input = text("3d6 + 2 * d4 - 1");
    let first = parse(&input);
    for _ in 0..10 {
        assert_eq!(first, parse(&input));
    }
    assert_eq!(
        Ok(vec![
            RollExp::Dice(Operation::Add, 3, 6),
            RollExp::Number(Operation::Add, 2),
            RollExp::Dice(Operation::Multiply, 1, 4),
            RollExp::Number(Operation::Substract, 1),
        ]),
        first
    );
}

#[test]
fn malformed_inputs_are_rejected() {
    assert_eq!(Err(ParseError::EmptyExpression), parse(&text("")));
    assert_eq!(Err(ParseError::MalformedExpression), parse(&text("+")));
    assert_eq!(Err(ParseError::MalformedExpression), parse(&text("d")));
    assert_eq!(Err(ParseError::MalformedExpression), parse(&text("3d")));
    assert_eq!(Err(ParseError::UnexpectedCharacter('a')), parse(&text("abc")));
    assert_eq!(Err(ParseError::MalformedExpression), parse(&text("3 + ")));
    assert_eq!(Err(ParseError::EmptyExpression), parse(&text("   ")));
    assert_eq!(Err(ParseError::MalformedExpression), parse(&text("3 4")));
    assert_eq!(Err(ParseError::MalformedExpression), parse(&text("3 + * 4")));
    assert_eq!(Err(ParseError::MalformedExpression), parse(&text("2d6d4")));
    assert_eq!(Err(ParseError::MalformedExpression), parse(&text("2d6 4")));
    assert_eq!(Err(ParseError::MalformedExpression), parse(&text("dd6")));
    assert_eq!(Err(ParseError::MalformedExpression), parse(&text("2d + 3")));
    assert_eq!(Err(ParseError::MalformedExpression), parse(&text("1d0")));
}

#[test]
fn malformed_inputs_are_described() {
    assert_eq!(Err(text("Empty expression.")), roll(&text("")));
    assert_eq!(Err(text("Malformed expression.")), roll(&text("+")));
    assert_eq!(Err(text("Malformed expression.")), roll(&text("d")));
    assert_eq!(Err(text("Malformed expression.")), roll(&text("3d")));
    assert_eq!(Err(text("Unexpected character. (a)")), roll(&text("abc")));
    assert_eq!(Err(text("Malformed expression.")), roll(&text("3 + ")));
    assert_eq!(Err(text("Dice too large.")), roll(&text("1d501")));
    assert_eq!(Err(text("Number too large.")), roll(&text("2147483648")));
}

#[test]
fn error_descriptions() {
    assert_eq!("Unexpected character. (é)", ParseError::UnexpectedCharacter('é').describe());
    assert_eq!("Empty expression.", ParseError::EmptyExpression.describe());
    assert_eq!("Malformed expression.", ParseError::MalformedExpression.describe());
    assert_eq!("Dice too large.", ParseError::DiceTooLarge.describe());
    assert_eq!("Number too large.", ParseError::NumberTooLarge.describe());
}

#[test]
fn dice_ceilings() {
    assert_eq!(Err(ParseError::DiceTooLarge), parse(&text("501d1")));
    assert_eq!(Err(ParseError::DiceTooLarge), parse(&text("1d501")));
    assert_eq!(Err(ParseError::DiceTooLarge), parse(&text("3 + 2d1000")));
    assert_eq!(Ok(vec![RollExp::Dice(Operation::Add, 500, 1)]), parse(&text("500d1")));
    assert_eq!(Ok(vec![RollExp::Dice(Operation::Add, 500, 500)]), parse(&text("500d500")));

    let (total, trace) = parts(&roll(&text("500d1")).unwrap());
    assert_eq!(500, total);
    assert_eq!(format!("500 ({})", vec!["1"; 500].join(" + ")), trace);
}

#[test]
fn totals_are_kept_within_32_bits() {
    assert_eq!(Err(ParseError::NumberTooLarge), parse(&text("2000000000 + 2000000000")));
    assert_eq!(Err(ParseError::NumberTooLarge), parse(&text("2147483647 + 1d1")));
    assert_eq!(Err(ParseError::NumberTooLarge), parse(&text("65536 * 65536")));
    assert_eq!(Err(ParseError::NumberTooLarge), parse(&text("2147483647 - 1")));
    assert_eq!(Err(ParseError::NumberTooLarge), parse(&text("2147483647 + 1 * 0")));
    assert_eq!(Err(ParseError::NumberTooLarge), parse(&text("500d500 * 500d500")));
    assert_eq!(
        Ok(vec![
            RollExp::Number(Operation::Add, 2147483646),
            RollExp::Number(Operation::Add, 1),
        ]),
        parse(&text("2147483646 + 1"))
    );
    assert_eq!(Ok(text("**2147483647** [2147483646 + 1]")), roll(&text("2147483646 + 1")));
    assert_eq!(Ok(text("**2147483647** [65535 * 32768 + 32767]")), roll(&text("65535 * 32768 + 32767")));
    assert_eq!(Ok(text("**-2147483647** [2147483647]")), roll(&text("-2147483647")));
}

#[test]
fn is_evaluable_tells_what_compute_takes() {
    assert!(is_evaluable(&vec![]));
    assert!(is_evaluable(&vec![RollExp::Dice(Operation::Add, 500, 500)]));
    assert!(is_evaluable(&vec![RollExp::Number(Operation::Add, -2147483647)]));
    assert!(is_evaluable(&vec![RollExp::Number(Operation::Multiply, i32::MIN)]));
    assert!(!is_evaluable(&vec![RollExp::Number(Operation::Add, i32::MIN)]));
    assert!(!is_evaluable(&vec![RollExp::Dice(Operation::Add, 501, 6)]));
    assert!(!is_evaluable(&vec![RollExp::Dice(Operation::Add, 2, 501)]));
    assert!(!is_evaluable(&vec![RollExp::Dice(Operation::Add, 2, 0)]));
    assert!(!is_evaluable(&vec![RollExp::Dice(Operation::Add, -1, 6)]));
    assert!(!is_evaluable(&vec![
        RollExp::Number(Operation::Add, 2147483647),
        RollExp::Number(Operation::Substract, 1),
    ]));
}

#[test]
fn constants_are_evaluated_exactly() {
    assert_eq!(Ok(text("**7** [3 + 4]")), roll(&text("3 + 4")));
    assert_eq!(Ok(text("**7** [10 - 3]")), roll(&text("10 - 3")));
    assert_eq!(Ok(text("**10** [2 * 5]")), roll(&text("2 * 5")));
    assert_eq!(Ok(text("**42** [42]")), roll(&text("42")));
    assert_eq!(Ok(text("**-7** [3 - 10]")), roll(&text("3-10")));
}

#[test]
fn evaluation_goes_from_left_to_right() {
    assert_eq!(Ok(text("**20** [2 + 3 * 4]")), roll(&text("2 + 3 * 4")));
    assert_eq!(Ok(text("**10** [2 * 3 + 4]")), roll(&text("2 * 3 + 4")));
    assert_eq!(Ok(text("**-4** [2 - 3 * 4]")), roll(&text("2 - 3 * 4")));
}

#[test]
fn a_leading_operator_applies_to_zero() {
    assert_eq!(Ok(text("**3** [3]")), roll(&text("+3")));
    assert_eq!(Ok(text("**-3** [3]")), roll(&text("-3")));
    assert_eq!(Ok(text("**0** [3]")), roll(&text("*3")));
    assert_eq!(Ok(text("**1** [3 + 4]")), roll(&text("-3 + 4")));
}

#[test]
fn zero_dice_contribute_zero() {
    assert_eq!(Ok(text("**0** [0]")), roll(&text("0d6")));
    assert_eq!(Ok(text("**5** [5 + 0]")), roll(&text("5 + 0d6")));
    assert_eq!(Ok(text("**0** [5 * 0]")), roll(&text("5 * 0d6")));
}

#[test]
fn summarize_adds_up_the_draws() {
    let outcomes = vec![
        Outcome::Dice(Operation::Add, vec![4, 3]),
        Outcome::Number(Operation::Add, 6),
    ];
    assert_eq!((13, text("7 (4 + 3) + 6")), summarize(&outcomes));
}

#[test]
fn summarize_applies_each_operator() {
    let outcomes = vec![
        Outcome::Number(Operation::Add, 10),
        Outcome::Dice(Operation::Substract, vec![2, 5, 1]),
        Outcome::Dice(Operation::Multiply, vec![3]),
        Outcome::Dice(Operation::Add, vec![]),
        Outcome::Number(Operation::Multiply, -2),
    ];
    assert_eq!((-12, text("10 - 8 (2 + 5 + 1) * 3 + 0 * -2")), summarize(&outcomes));
    assert_eq!((0, text("")), summarize(&vec![]));
    assert_eq!(
        (-8, text("8 (2 + 6)")),
        summarize(&vec![Outcome::Dice(Operation::Substract, vec![2, 6])])
    );
}

#[test]
fn summarize_reaches_the_ends_of_the_range() {
    assert_eq!(
        (i32::MAX, text("2147483646 + 1")),
        summarize(&vec![
            Outcome::Number(Operation::Add, 2147483646),
            Outcome::Number(Operation::Add, 1),
        ])
    );
    assert_eq!(
        (i32::MIN, text("2147483647 - 1")),
        summarize(&vec![
            Outcome::Number(Operation::Substract, 2147483647),
            Outcome::Number(Operation::Substract, 1),
        ])
    );
}

#[test]
fn a_single_die_shows_no_breakdown() {
    for _ in 0..50 {
        let (total, trace) = parts(&roll(&text("1d6")).unwrap());
        assert!(!trace.contains('(') && !trace.contains(')'));
        assert_eq!(total.to_string(), trace);
        assert!((1..=6).contains(&total));

        let (_, trace) = parts(&roll(&text("2d6")).unwrap());
        assert!(trace.contains('(') && trace.contains(')'));
    }
}

#[test]
fn draws_lie_within_the_faces_and_add_up() {
    for _ in 0..200 {
        let (total, trace) = parts(&roll(&text("5d8")).unwrap());
        let (shown, rest) = trace.split_once(" (").unwrap();
        let draws: Vec<i32> = rest
            .strip_suffix(")")
            .unwrap()
            .split(" + ")
            .map(|d| d.parse().unwrap())
            .collect();
        assert_eq!(5, draws.len());
        assert!(draws.iter().all(|d| (1..=8).contains(d)));
        assert_eq!(total, draws.iter().sum::<i32>());
        assert_eq!(total.to_string(), shown);
    }
}

#[test]
fn the_trace_adds_up_to_the_total() {
    for _ in 0..200 {
        let (total, trace) = parts(&roll(&text("3d6 + 4 - 2d4 * 2 + d20")).unwrap());
        // drop the breakdowns, then combine what is left from left to right
        let mut flat = String::new();
        let mut depth = 0;
        for c in trace.chars() {
            match c {
                '(' => depth += 1,
                ')' => depth -= 1,
                _ if depth == 0 => flat.push(c),
                _ => {}
            }
        }
        let mut words = flat.split_whitespace();
        let mut value: i32 = words.next().unwrap().parse().unwrap();
        while let Some(op) = words.next() {
            let operand: i32 = words.next().unwrap().parse().unwrap();
            match op {
                "+" => value += operand,
                "-" => value -= operand,
                "*" => value *= operand,
                _ => panic!("unexpected operator {op}"),
            }
        }
        assert_eq!(total, value);
    }
}

#[test]
fn compute_rolls_every_term() {
    for _ in 0..100 {
        let (total, trace) = compute(vec![
            RollExp::Dice(Operation::Add, 2, 6),
            RollExp::Number(Operation::Add, 6),
        ]);
        assert!((8..=18).contains(&total));
        assert!(trace.ends_with(") + 6"));
        assert!(trace.starts_with(&format!("{} (", total - 6)));
    }
    assert_eq!((7, text("3 + 4")), compute(vec![
        RollExp::Number(Operation::Add, 3),
        RollExp::Number(Operation::Add, 4),
    ]));
    assert_eq!((0, text("")), compute(vec![]));
}

#[test]
fn roll_dice_draws_from_the_whole_range() {
    let mut rng = rand::thread_rng();
    let draws = roll_dice(&mut rng, 500, 500);
    assert_eq!(500, draws.len());
    assert!(draws.iter().all(|d| (1..=500).contains(d)));
    // neither bound is what every die shows
    assert!(draws.iter().any(|d| *d != 1));
    assert!(draws.iter().any(|d| *d != 500));

    assert_eq!(vec![1; 7], roll_dice(&mut rng, 7, 1));
    assert_eq!(Vec::<i32>::new(), roll_dice(&mut rng, 0, 6));

    let mut seen = [false; 6];
    for d in roll_dice(&mut rng, 500, 6) {
        seen[(d - 1) as usize] = true;
    }
    assert_eq!([true; 6], seen);
}

#[test]
fn roll_terms_keeps_constants_and_rolls_dice() {
    let mut rng = rand::thread_rng();
    let outcomes = roll_terms(
        &mut rng,
        &vec![
            RollExp::Number(Operation::Substract, 9),
            RollExp::Dice(Operation::Multiply, 3, 4),
            RollExp::Dice(Operation::Add, 0, 4),
        ],
    );
    assert_eq!(3, outcomes.len());
    assert_eq!(Outcome::Number(Operation::Substract, 9), outcomes[0]);
    match &outcomes[1] {
        Outcome::Dice(Operation::Multiply, draws) => {
            assert_eq!(3, draws.len());
            assert!(draws.iter().all(|d| (1..=4).contains(d)));
        }
        other => panic!("unexpected outcome {other:?}"),
    }
    assert_eq!(Outcome::Dice(Operation::Add, vec![]), outcomes[2]);
}

#[test]
fn parse_tokens_reads_a_token_list() {
    assert_eq!(
        Ok(vec![RollExp::Dice(Operation::Add, 2, 6), RollExp::Number(Operation::Substract, 1)]),
        parse_tokens(&vec![
            Token::Number(2),
            Token::Marker('d'),
            Token::Number(6),
            Token::Marker('-'),
            Token::Number(1),
        ])
    );
    assert_eq!(Err(ParseError::EmptyExpression), parse_tokens(&vec![]));
    assert_eq!(
        Err(ParseError::MalformedExpression),
        parse_tokens(&vec![Token::Number(2), Token::Marker('/'), Token::Number(6)])
    );
    assert_eq!(Err(ParseError::MalformedExpression), parse_tokens(&vec![Token::Number(-2)]));
}
