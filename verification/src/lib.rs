//! A small arithmetic/bitwise expression language over an implicit integer
//! time variable, with a parser, a per-sample evaluator and a signal
//! generator: one numeric sample per time step, in the style of
//! formula-driven audio synthesis.

pub mod eval;
pub mod expr;
pub mod laws;
pub mod lexer;
pub mod numeral;
pub mod ops;
pub mod parser;
pub mod signal;
pub mod token;
