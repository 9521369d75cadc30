//! Type classes, their constraints and their instances.

use vstd::prelude::*;

use crate::static_check::types::Monotype;
use crate::static_check::types::Type;

verus! {

pub enum Constraint {
    /// A constraint written out: the names it declares with their types.
    Def(Vec<(String, Type)>),
    /// An instance declared before, such as `Eq Int32`.
    Instance(String, Vec<Monotype>),
    /// Several constraints that must all hold.
    And(Vec<Constraint>),
}

pub struct TypeClass {
    pub name: String,
    pub params: Vec<String>,
    pub constraint: Constraint,
}

pub struct TypeClassInstance {
    pub name: String,
    pub monotypes: Vec<Monotype>,
}

} // verus!
