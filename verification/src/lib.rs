//! Dice Maiden: a dice roller for tabletop role-playing games. Requests such
//! as `2d20 k1 + 5 ! attack` are parsed into rolls, rolled, and rendered as
//! Discord message text; dozens of game systems have their own aliases and
//! readings.

pub mod bot;
pub mod commands;
pub mod dice;
pub mod help_text;
pub mod text;

pub use dice::{DiceGroup, DiceRoll, HeroSystemType, Modifier, RollResult};
pub use dice::format::{format_multiple_results, format_multiple_results_with_limit, parse_and_roll};
pub use dice::aliases;
pub use dice::parser;
pub use dice::roller;
