//! From source text to tokens.

pub mod chars;
pub mod lexer;
pub mod token;

use vstd::prelude::*;

use crate::error::FogError;
use crate::error::error_views;
use crate::lexer::token::Token;
use crate::lexer::token::token_views;

verus! {

/// The tokens of `src` and the errors met on the way.
pub fn tokenize(src: &str) -> (r: (Vec<token::Token>, Vec<FogError>))
    requires
        src@.len() < usize::MAX,
    ensures
        (token_views(r.0@), error_views(r.1@)) == lexer::spec_tokenize(src@),
{
    lexer::Lexer::tokenize(src)
}

} // verus!
