//! A statement parser for a small scripting language over complex-valued
//! expressions: scripts become trees of commands.
//!
//! [`parse`] takes a script apart by recursive descent: blocks, cascades of
//! `if`, `elif` and `else`, loops, assignments, bare expressions and comments.
//! What an expression is, is for an expression engine to say; the parser reads
//! its answers from a table of [`Verdicts`], which is filled for the texts
//! that [`candidates`] lists.
//!
//! [`split`], [`plan`] and [`join`] are one step of the same descent, for a
//! driver that hands chunks of a script to workers.

pub mod budget;
pub mod command;
pub mod error;
pub mod laws;
pub mod link;
pub mod parser;
pub mod split;
pub mod text;
pub mod verdicts;

pub use budget::{plan, Plan};
pub use command::Command;
pub use error::ScparseError;
pub use link::join;
pub use parser::{candidates, parse};
pub use split::{get_block, split, Rule, Split};
pub use verdicts::Verdicts;
