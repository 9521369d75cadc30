//! The variables of the static checks: values with their schemes and types
//! with their kinds.

use vstd::prelude::*;

use crate::error::ErrorKind;
use crate::error::FogError;
use crate::error::FogResult;
use crate::static_check::kind::Kind;
use crate::static_check::types::Monotype;
use crate::static_check::types::Type;
use crate::util::concat3;

verus! {

pub struct ValueVariable {
    pub name: String,
    pub scheme: Type,
    pub declared: bool,
}

impl ValueVariable {
    pub fn new(name: &str, scheme: Type, declared: bool) -> (var: ValueVariable)
        ensures
            var.name@ == name@,
            var.scheme@ == scheme@,
            var.declared == declared,
    {
        ValueVariable { name: crate::util::string_from(name), scheme, declared }
    }

    pub fn copy(&self) -> (copy: ValueVariable)
        ensures
            copy.name@ == self.name@,
            copy.scheme@ == self.scheme@,
            copy.declared == self.declared,
    {
        ValueVariable { name: self.name.clone(), scheme: self.scheme.copy(), declared: self.declared }
    }
}

/// A type name with its kind and, once declared, the monotype it stands for.
pub struct TypeVariable {
    pub name: String,
    pub ty: Option<Monotype>,
    pub kind: Kind,
}

pub open spec fn unassigned_type_message(name: Seq<char>) -> Seq<char> {
    seq!['u', 'n', 'a', 's', 's', 'i', 'g', 'n', 'e', 'd', ' ', 't', 'y', 'p', 'e', ' ', '`'] + name
        + seq!['`']
}

impl TypeVariable {
    pub fn copy(&self) -> (copy: TypeVariable)
        ensures
            copy.name@ == self.name@,
            copy.kind == self.kind,
            copy.ty.is_some() == self.ty.is_some(),
            self.ty.is_some() ==> copy.ty.unwrap()@ == self.ty.unwrap()@,
    {
        TypeVariable {
            name: self.name.clone(),
            ty: match &self.ty {
                Some(t) => Some(t.copy()),
                None => None,
            },
            kind: self.kind.copy(),
        }
    }

    /// The monotype the name stands for; an error while it is not declared.
    pub fn get_type(&self) -> (r: FogResult<Monotype>)
        ensures
            self.ty.is_some() ==> r is Ok && r->Ok_0@ == self.ty.unwrap()@,
            self.ty.is_none() ==> r is Err && r->Err_0.kind == ErrorKind::StaticCheck
                && r->Err_0.span.is_none() && r->Err_0.message@ == unassigned_type_message(
                self.name@,
            ),
    {
        match &self.ty {
            Some(t) => Ok(t.copy()),
            None => {
                proof {
                    reveal_strlit("unassigned type `");
                    reveal_strlit("`");
                }
                Err(
                    FogError::new(
                        ErrorKind::StaticCheck,
                        concat3("unassigned type `", self.name.as_str(), "`"),
                        None,
                    ),
                )
            },
        }
    }
}

} // verus!
