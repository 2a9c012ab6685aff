//! A parser for a SELECT-centric SQL dialect.
//!
//! The crate turns a single SQL statement into a strongly typed abstract
//! syntax tree.  The grammar is stated declaratively as specification
//! functions over a token stream (`grammar`), the tokens themselves are
//! produced by a lexer with an exact specification (`lexer`), flat chains of
//! binary operators are resolved by a precedence climber (`climb`), and the
//! executable recursive-descent parser (`parser`) is proved to return exactly
//! what the grammar denotes.  The laws of the parser — literal round trips,
//! precedence and associativity, the unknown-function fallback, and comment
//! idempotence — are proved once for all inputs in `laws` and beside the
//! climber in `climb`.

pub mod ast;
pub mod chars;
pub mod lexer;
pub mod climb;
pub mod grammar;
pub mod parser;
pub mod laws;
