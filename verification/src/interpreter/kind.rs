//! The kinds of the interpreter's types.

use vstd::prelude::*;

verus! {

/// The kind of a type: a type, or a function from kinds to kinds.
#[derive(PartialEq, Eq, Debug)]
pub enum Kind {
    Type,
    Function(Box<Kind>, Box<Kind>),
}

} // verus!
