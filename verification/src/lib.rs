//! A front-end for the fog language: lexing, parsing, desugaring and the
//! static checks on its types and kinds.

pub mod anf;
pub mod builtins;
pub mod error;
pub mod interpreter;
pub mod util;
pub mod static_check;
pub mod parser;
pub mod lexer;

use vstd::prelude::*;

verus! {
} // verus!
