//! A single static-analysis rule over an already-typed expression tree:
//! flag every use of the unary bitwise-complement operator whose operand
//! resolves to a fixed-width or platform-width machine integer.
//!
//! The crate is split along the rule's three collaborating pieces:
//! a pure type classifier, an expression scanner, and a diagnostic
//! reporter that builds the fixed warning record.

pub mod classifier;
pub mod reporter;
pub mod scanner;
pub mod tree;
