//! Dice notation for a role-playing chat bot: tokenizing, parsing and rolling
//! expressions such as `2d6 + 3`, plus the character sheet the bot keeps.

pub mod command;
pub mod decimal;
pub mod dice;
pub mod error;
pub mod outcome;
pub mod parser;
pub mod players;
pub mod roll;
pub mod stats;
pub mod token;
pub mod trace;
