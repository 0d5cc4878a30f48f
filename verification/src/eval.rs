//! The evaluator: the global names, the built-in operators, the trampoline
//! that runs an expression in continuation-passing style, and the job that
//! takes one form from source to result.

pub mod env;
pub mod builtin;
pub mod operators;
pub mod lambda;
pub mod evaluator;
pub mod eval_main;
pub mod laws;
