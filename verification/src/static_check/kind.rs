//! Kinds: the types of types.

use vstd::prelude::*;

use crate::util::string_from;

verus! {

#[derive(PartialEq, Eq, Debug)]
pub enum Kind {
    Type,
    Constraint,
    Function(Box<Kind>, Box<Kind>),
}

impl Clone for Kind {
    fn clone(&self) -> (copy: Self)
        ensures
            copy == *self,
    {
        self.copy()
    }
}

/// A kind as it is written: `Type`, `Constraint`, or `p -> r`, with the
/// parameter kind in parentheses where its text holds a space.
pub open spec fn spec_kind_text(kind: Kind) -> Seq<char>
    decreases kind,
{
    match kind {
        Kind::Type => seq!['T', 'y', 'p', 'e'],
        Kind::Constraint => seq!['C', 'o', 'n', 's', 't', 'r', 'a', 'i', 'n', 't'],
        Kind::Function(p, r) => {
            let p_text = spec_kind_text(*p);
            let head = if p_text.contains(' ') {
                seq!['('] + p_text + seq![')']
            } else {
                p_text
            };
            head + seq![' ', '-', '>', ' '] + spec_kind_text(*r)
        },
    }
}

impl Kind {
    /// Whether the two kinds are the same.
    pub fn same_as(&self, other: &Kind) -> (same: bool)
        ensures
            same == (*self == *other),
        decreases self,
    {
        match (self, other) {
            (Kind::Type, Kind::Type) => true,
            (Kind::Constraint, Kind::Constraint) => true,
            (Kind::Function(p1, r1), Kind::Function(p2, r2)) => p1.same_as(p2) && r1.same_as(r2),
            _ => false,
        }
    }

    /// A copy of the kind.
    pub fn copy(&self) -> (copy: Kind)
        ensures
            copy == *self,
        decreases self,
    {
        match self {
            Kind::Type => Kind::Type,
            Kind::Constraint => Kind::Constraint,
            Kind::Function(p, r) => Kind::Function(Box::new(p.copy()), Box::new(r.copy())),
        }
    }

    pub fn to_text(&self) -> (text: String)
        ensures
            text@ == spec_kind_text(*self),
        decreases self,
    {
        proof {
            reveal_strlit("Type");
            reveal_strlit("Constraint");
            reveal_strlit(" -> ");
        }
        match self {
            Kind::Type => string_from("Type"),
            Kind::Constraint => string_from("Constraint"),
            Kind::Function(p, r) => {
                let p_text = p.to_text();
                let chars = crate::util::chars_of(p_text.as_str());
                let mut has_space = false;
                let mut i: usize = 0;
                while i < chars.len()
                    invariant
                        i <= chars.len(),
                        chars@ == p_text@,
                        has_space <==> exists|j: int| 0 <= j < i && chars@[j] == ' ',
                    decreases chars.len() - i,
                {
                    if chars[i] == ' ' {
                        has_space = true;
                    }
                    i += 1;
                }
                let mut text = String::new();
                if has_space {
                    crate::util::string_push(&mut text, '(');
                    text.append(p_text.as_str());
                    crate::util::string_push(&mut text, ')');
                } else {
                    text.append(p_text.as_str());
                    proof {
                        if p_text@.contains(' ') {
                            let j = choose|j: int| 0 <= j < p_text@.len() && p_text@[j] == ' ';
                            assert(chars@[j] == ' ');
                        }
                    }
                }
                text.append(" -> ");
                let r_text = r.to_text();
                text.append(r_text.as_str());
                proof {
                    let p_spec = spec_kind_text(**p);
                    if has_space {
                        assert(text@ =~= seq!['('] + p_spec + seq![')'] + seq![' ', '-', '>', ' ']
                            + spec_kind_text(**r));
                    } else {
                        assert(text@ =~= p_spec + seq![' ', '-', '>', ' '] + spec_kind_text(**r));
                    }
                }
                text
            },
        }
    }
}

} // verus!
