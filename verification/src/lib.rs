//! An interpreter for a small Lisp-family language: a reader that turns
//! source text into a homoiconic expression tree, an operator-expansion pass
//! that rewrites that tree before interning, and a tree-walking evaluator
//! with a module/symbol environment.
//!
//! Storage cells are arena slots: a cell is an index into the environment's
//! cell table, so aliasing (several holders of the same cell) is an index
//! shared by several places, and mutation through one alias is visible to
//! every other.

pub mod env;
pub mod err;
pub mod exec;
pub mod laws;
pub mod lexer;
pub mod model;
pub mod modules;
pub mod nodes;
pub mod objects;
pub mod parser;
pub mod pool;
pub mod repl;
pub mod prelude;
pub mod semantics;
pub mod operations;
pub mod strings;
pub mod tokens;

use vstd::prelude::*;

verus! {

/// The smallest well-formed value: nothing depends on it yet.
pub fn crate_marker() -> (r: bool)
    ensures
        r,
{
    true
}

} // verus!
