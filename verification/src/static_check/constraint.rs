//! A named constraint: the type annotations that a type class asks of its
//! instances.

use vstd::prelude::*;

use crate::static_check::types::Type;

verus! {

pub struct Constraint {
    pub name: String,
    pub type_annotations: Vec<(String, Type)>,
}

} // verus!
