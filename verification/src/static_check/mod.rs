//! The static checks: kinds, types and their schemes.

pub mod constraint;
pub mod environment;
pub mod eval;
pub mod kind;
pub mod names;
pub mod static_check;
pub mod type_text;
pub mod type_class;
pub mod types;
pub mod variable;

use vstd::prelude::*;

use crate::error::FogError;
use crate::error::error_views;
use crate::parser::core_expr::CoreStatement;
use crate::parser::core_expr::core_statement_views;
use crate::static_check::static_check::spec_check;

verus! {

/// The errors of the static checks of a program.
pub fn static_check(stmts: &Vec<CoreStatement>) -> (errors: Vec<FogError>)
    ensures
        error_views(errors@) == spec_check(core_statement_views(stmts@)),
{
    static_check::check(stmts)
}

} // verus!
