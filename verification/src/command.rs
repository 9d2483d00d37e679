//! Which command a line of chat gives.

use crate::token::{is_space, is_whitespace};
use vstd::prelude::*;
use vstd::string::StringExecFns;

verus! {

/// What a line asks the bot to do.
#[derive(Debug, PartialEq, Eq)]
pub enum Command {
    /// Roll the dice that the text names.
    Roll(String),
    /// The test command.
    Test,
    /// Nothing that the bot answers.
    Other,
}

/// The first position from `i` on that holds no whitespace.
pub open spec fn word_start(s: Seq<char>, i: int) -> int
    decreases s.len() - i,
{
    if 0 <= i < s.len() && is_space(s[i]) {
        word_start(s, i + 1)
    } else {
        i
    }
}

/// The first position from `i` on that holds whitespace, or the end.
pub open spec fn word_end(s: Seq<char>, i: int) -> int
    decreases s.len() - i,
{
    if 0 <= i < s.len() && !is_space(s[i]) {
        word_end(s, i + 1)
    } else {
        i
    }
}

/// The first word of a line: what stands between the whitespace at its
/// front and the next whitespace.
pub open spec fn first_word(s: Seq<char>) -> Seq<char> {
    let start = word_start(s, 0);
    s.subrange(start, word_end(s, start))
}

/// What follows the first word of a line.
pub open spec fn after_first_word(s: Seq<char>) -> Seq<char> {
    s.subrange(word_end(s, word_start(s, 0)), s.len() as int)
}

/// Reads the command of a line: `roll` with what follows it, `test`, or
/// nothing the bot knows, by the line's first word.
pub fn command(content: &str) -> (c: Command)
    ensures
        match c {
            Command::Roll(argument) => first_word(content@) == "roll"@ && argument@
                == after_first_word(content@),
            Command::Test => first_word(content@) == "test"@,
            Command::Other => first_word(content@) != "roll"@ && first_word(content@) != "test"@,
        },
{
    let mut word = String::new();
    let mut rest = String::new();
    let mut started = false;
    let mut ended = false;
    let ghost s = content@;
    let ghost mut start: int = 0;
    let ghost mut end: int = 0;
    for c in it: content.chars()
        invariant
            it.seq() == s,
            s == content@,
            ended ==> started,
            !started ==> word@.len() == 0 && rest@.len() == 0 && word_start(s, 0) == word_start(
                s,
                it.index() as int,
            ),
            started ==> start == word_start(s, 0) && 0 <= start <= it.index(),
            started && !ended ==> rest@.len() == 0 && word@ == s.subrange(start, it.index() as int)
                && word_end(s, start) == word_end(s, it.index() as int),
            ended ==> end == word_end(s, start) && start <= end <= it.index() && word@
                == s.subrange(start, end) && rest@ == s.subrange(end, it.index() as int),
    {
        let ghost i = it.index() as int;
        if ended {
            rest.push(c);
            proof {
                assert(rest@ =~= s.subrange(end, i + 1));
            }
        } else if is_whitespace(c) {
            if started {
                ended = true;
                rest.push(c);
                proof {
                    end = i;
                    assert(rest@ =~= s.subrange(end, i + 1));
                }
            }
        } else {
            proof {
                if !started {
                    start = i;
                }
            }
            started = true;
            word.push(c);
            proof {
                assert(word@ =~= s.subrange(start, i + 1));
            }
        }
    }
    proof {
        if !started {
            assert(word@ =~= first_word(s));
            assert(rest@ =~= after_first_word(s));
        } else if !ended {
            assert(rest@ =~= after_first_word(s));
        }
    }
    if word == String::from_str("roll") {
        Command::Roll(rest)
    } else if word == String::from_str("test") {
        Command::Test
    } else {
        Command::Other
    }
}

} // verus!
