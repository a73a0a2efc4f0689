//! What holds of every run of the tokenizer and of every step of the lexer,
//! proved from their grammars.

pub mod columns;
pub mod definitions;
pub mod endings;
pub mod order;
pub mod round_trip;
pub mod statements;
pub mod strict_order;
pub mod well_formed;
