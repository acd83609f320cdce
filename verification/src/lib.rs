//! A tree-walking interpreter for Lox, a small dynamically typed, class-based
//! scripting language.
//!
//! The pipeline runs leaves first: [`scanner`] turns source characters into
//! tokens, [`parser`] turns tokens into statements, [`resolver`] binds each
//! variable use to a scope depth, and [`interpreter`] evaluates the statements
//! over a chain of environments.
//!
//! What each stage computes is defined over plain values, and the stage is
//! proved to compute exactly that: [`scanner::scan`] for the scanner,
//! [`grammar::parse`] for the parser, [`resolver::resolve_stmts`] for the
//! resolver, and [`machine::run`] for the interpreter. [`rescan`],
//! [`operators`] and [`machine`] hold what is proved of these definitions.
//!
//! Numbers are exact decimals with six fractional digits ([`number`]), and
//! an evaluation has a budget of calls and loop rounds ([`machine`]), so
//! that every operation is defined and every evaluation ends.

pub mod environment;
pub mod expr;
pub mod functions;
pub mod grammar;
pub mod identity;
pub mod interpreter;
pub mod lox_class;
pub mod lox_error;
pub mod lox_result;
pub mod machine;
pub mod number;
pub mod operators;
pub mod parser;
pub mod rescan;
pub mod resolver;
pub mod scanner;
pub mod stmt;
pub mod text;
pub mod token;
