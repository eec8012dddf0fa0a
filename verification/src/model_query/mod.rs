//! QQL for a single model: one ticker, its time range or live feed, the
//! fields to pull, an optional calculation, how to show the result, and an
//! optional graph.

pub mod lexer;
pub mod parser;
