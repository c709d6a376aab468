//! A front end for a small expression language: a parser from text to a
//! syntax tree, and a compiler that lowers the tree to the instructions of a
//! module, one function at a time.
pub mod ast;
pub mod chars;
pub mod compiler;
pub mod decimal;
pub mod grammar;
pub mod ir;
pub mod laws;
pub mod parser;
pub mod render;
pub mod wrapper;

use vstd::prelude::*;
use crate::ast::Expr;
use crate::render::{is_arithmetic, rust_text};

verus! {

/// The sum of two integers.
pub fn add(x: i32, y: i32) -> (r: i32)
    requires
        i32::MIN <= x + y <= i32::MAX,
    ensures
        r == x + y,
{
    x + y
}

/// An arithmetic expression written as Rust source.
pub fn translate_to_str(e: Expr) -> (r: String)
    requires
        is_arithmetic(e@),
    ensures
        r@ == rust_text(e@),
{
    crate::render::translate_to_rust(e)
}

} // verus!
