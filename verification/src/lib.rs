//! A binary-expression type checker and control-flow narrowing engine for a
//! structural type system in the style of a gradually typed scripting
//! language.
//!
//! Given a binary expression `L op R` and the analyzer state, the library
//! computes the expression's static type, reports diagnostics for illegal
//! operand combinations, and updates the flow-sensitive type facts that
//! refine variable types along the true and false branches of the condition.

#![verifier::loop_isolation(false)]

pub mod analyzer;
pub mod ast;
pub mod diag;
pub mod env;
pub mod facts;
pub mod laws;
pub mod narrow;
pub mod ops;
pub mod query;
pub mod structural;
pub mod sym;
pub mod ty;
pub mod ty_ops;
