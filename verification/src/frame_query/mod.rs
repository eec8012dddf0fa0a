//! QQL over named frames: provider blocks, frames that pull fields from a
//! provider and derive calculated columns, an optional graph and an
//! optional trade rule.

pub mod lexer;
pub mod ast;
pub mod ordering;
pub mod provider_queries;
pub mod parser;
