//! Liszp: a small Lisp whose programs are read into one tree of values,
//! macro-expanded, rewritten into continuation-passing style and then run
//! by a trampoline, one reduction at a time.

pub mod text;
pub mod error;
pub mod integer;
pub mod value;
pub mod format;
pub mod cps;
pub mod laws;
pub mod eval;
pub mod lexer;
pub mod read;
pub mod macros;
pub mod preproc;
pub mod repl;
