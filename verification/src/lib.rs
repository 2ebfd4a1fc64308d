//! A preprocessor for SourcePawn source text, with the item model of the
//! language server that it serves.

pub mod conditions;
pub mod diagnostics;
pub mod errors;
pub mod evaluator;
pub mod inclusion;
pub mod lexer;
pub mod line_parity;
pub mod macro_table;
pub mod macros;
pub mod options;
pub mod parser;
pub mod preprocessor;
pub mod range;
pub mod runs;
pub mod spitem;
pub mod store;
pub mod symbol;
pub mod text;
