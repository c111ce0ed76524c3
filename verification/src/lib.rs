//! A small Scheme interpreter whose lexer, parser, environment, pair heap and
//! evaluator are verified with Verus.
//!
//! Numbers are IEEE-754 doubles carried by their bit pattern. The interpreter
//! never performs floating-point arithmetic itself: the evaluator is an
//! abstract machine that stops with a request whenever an arithmetic result is
//! needed and continues once the embedding program has supplied it.
pub mod number;
pub mod lexer;
pub mod parser;
pub mod special_form;
pub mod procedure;
pub mod enviroment;
pub mod error;
pub mod primitives;
pub mod utils;
pub mod print;
pub mod evaluator;
pub mod laws;
