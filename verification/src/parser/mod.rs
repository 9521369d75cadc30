//! From tokens to core statements: parsing, operator resolution and
//! desugaring.

pub mod core_expr;
pub mod core_text;
pub mod desugar;
pub mod parsed_expr;
pub mod parser;
pub mod resolved_expr;
pub mod resolved_text;
pub mod resolver;
pub mod text;

use vstd::prelude::*;

use crate::error::ErrorModel;
use crate::error::FogError;
use crate::error::error_views;
use crate::lexer::token::Token;
use crate::lexer::token::TokenModel;
use crate::lexer::token::token_views;
use crate::parser::core_expr::CoreStatement;
use crate::parser::core_expr::CoreStatementModel;
use crate::parser::core_expr::core_statement_views;
use crate::parser::desugar::spec_desugar_statements;
use crate::parser::parser::spec_parse;
use crate::parser::resolver::spec_resolve;

verus! {

/// A literal of the source. A decimal literal keeps the characters it was
/// written with.
#[derive(Debug)]
pub enum Literal {
    Int32(i32),
    Float32(String),
}

impl Literal {
    pub fn copy(&self) -> (copy: Literal)
        ensures
            copy@ == self@,
    {
        match self {
            Literal::Int32(v) => Literal::Int32(*v),
            Literal::Float32(text) => Literal::Float32(text.clone()),
        }
    }
}

/// The value of a literal: an integer, or the characters of a decimal number.
pub enum LiteralModel {
    Int32(i32),
    Float32(Seq<char>),
}

impl View for Literal {
    type V = LiteralModel;

    open spec fn view(&self) -> LiteralModel {
        match self {
            Literal::Int32(v) => LiteralModel::Int32(*v),
            Literal::Float32(text) => LiteralModel::Float32(text@),
        }
    }
}

/// What the front end gives for a program's tokens: the core statements,
/// and the errors of parsing, of resolution and of desugaring, in that
/// order.
pub open spec fn spec_parse_program(toks: Seq<TokenModel>) -> (Seq<CoreStatementModel>, Seq<ErrorModel>) {
    let (parsed, parse_errors) = spec_parse(toks);
    let (resolved, resolve_errors) = spec_resolve(parsed);
    let (core, desugar_errors) = spec_desugar_statements(resolved);
    (core, parse_errors + resolve_errors + desugar_errors)
}

/// The core statements of a program, and the errors met on the way.
pub fn parse_program(tokens: &Vec<Token>) -> (r: (Vec<CoreStatement>, Vec<FogError>))
    requires
        tokens@.len() < usize::MAX,
    ensures
        (core_statement_views(r.0@), error_views(r.1@)) == spec_parse_program(token_views(tokens@)),
{
    let (parsed, mut errors) = parser::parse(tokens);
    let (resolved, mut resolve_errors) = resolver::resolve(parsed);
    let (core, mut desugar_errors) = desugar::desugar(resolved);
    let ghost e1 = errors@;
    let ghost e2 = resolve_errors@;
    let ghost e3 = desugar_errors@;
    errors.append(&mut resolve_errors);
    errors.append(&mut desugar_errors);
    proof {
        assert(errors@ =~= e1 + e2 + e3);
        assert(error_views(e1 + e2 + e3) =~= error_views(e1) + error_views(e2) + error_views(e3));
    }
    (core, errors)
}

} // verus!
