//! Propositional-logic formulas: a token alphabet, an abstract syntax tree,
//! a canonical printer with minimal parenthesization, a precedence-climbing
//! parser, an evaluator under an interpretation, and a truth-table generator.

pub mod alphabet;
pub mod formula;
pub mod eval;
pub mod parser;
pub mod roundtrip;
pub mod table;
