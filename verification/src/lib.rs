//! An interpreter for a small whitespace-delimited, stack-based language.
//!
//! Source text is a flat sequence of tokens.  Each token either pushes a
//! literal value onto the operand stack or invokes an operator; `[`, `{` and
//! `"` open deferred literals (lists, code blocks, strings) that a structural
//! reader recovers from the token stream.  The evaluator threads a stack, two
//! name environments (variables and functions) and an input/output record
//! through the program, and is proved equal to a total, step-bounded
//! mathematical semantics (`eval` in the `eval` module).

pub mod arithmetic;
pub mod eval;
pub mod functions;
pub mod laws;
pub mod lists;
pub mod logic;
pub mod reader;
pub mod render;
pub mod stack;
pub mod text;
pub mod types;
pub mod variables;
