//! A small interactive stack-based language interpreter.
//!
//! Source text is a sequence of whitespace-delimited words.  Each word is
//! classified as a numeric literal, a symbol (a `/`-prefixed name used as a
//! binding target), a block delimiter (`{` or `}`), or an operator name, and
//! is then evaluated against a machine that owns an operand stack, a table of
//! name-to-value bindings, and a stack of in-progress block accumulators.
//! Bindings and stack contents persist across input lines of a session.

pub mod eval;
pub mod laws;
pub mod machine;
pub mod numerals;
pub mod parser;
pub mod value;
