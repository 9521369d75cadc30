//! How the interpreter's types are written.

use vstd::prelude::*;

use crate::interpreter::types::CtorModel;
use crate::interpreter::types::DataConstructor;
use crate::interpreter::types::Type;
use crate::interpreter::types::TypeModel;
use crate::interpreter::types::ctor_views;
use crate::interpreter::types::lemma_ctor_views;
use crate::interpreter::types::lemma_type_views;
use crate::interpreter::types::type_views;
use crate::util::format_joined;
use crate::util::spec_join;
use crate::util::string_from;
use crate::util::string_views;

verus! {

/// A type as it is written: `p -> r`, `Int32`, `Float32`, a product's
/// types joined by ` * ` (`Unit` when there are none), a sum's data
/// constructors joined by ` + `.
pub open spec fn type_text(t: TypeModel) -> Seq<char>
    decreases t,
{
    match t {
        TypeModel::Function(p, r) => type_text(*p) + " -> "@ + type_text(*r),
        TypeModel::Int32 => "Int32"@,
        TypeModel::Float32 => "Float32"@,
        TypeModel::Product(ts) => if ts.len() == 0 {
            "Unit"@
        } else {
            spec_join(type_texts(ts), " * "@)
        },
        TypeModel::Sum(cs) => spec_join(ctor_texts(cs), " + "@),
    }
}

pub open spec fn type_texts(s: Seq<TypeModel>) -> Seq<Seq<char>>
    decreases s,
{
    if s.len() == 0 {
        Seq::empty()
    } else {
        type_texts(s.drop_last()).push(type_text(s.last()))
    }
}

/// A data constructor as it is written: its tag, then each field type
/// after a space.
pub open spec fn ctor_text(c: CtorModel) -> Seq<char>
    decreases c,
{
    c.tag + fields_text(c.types)
}

pub open spec fn fields_text(s: Seq<TypeModel>) -> Seq<char>
    decreases s,
{
    if s.len() == 0 {
        Seq::empty()
    } else {
        fields_text(s.drop_last()) + " "@ + type_text(s.last())
    }
}

pub open spec fn ctor_texts(s: Seq<CtorModel>) -> Seq<Seq<char>>
    decreases s,
{
    if s.len() == 0 {
        Seq::empty()
    } else {
        ctor_texts(s.drop_last()).push(ctor_text(s.last()))
    }
}

impl Type {
    /// The type as it is written.
    pub fn to_text(&self) -> (r: String)
        ensures
            r@ == type_text(self@),
        decreases self,
    {
        match self {
            Type::Function(param, ret) => {
                let mut text = param.to_text();
                text.append(" -> ");
                let rt = ret.to_text();
                text.append(rt.as_str());
                text
            },
            Type::Int32 => string_from("Int32"),
            Type::Float32 => string_from("Float32"),
            Type::Product(ts) => {
                if ts.len() == 0 {
                    proof {
                        lemma_type_views(ts@);
                    }
                    string_from("Unit")
                } else {
                    let texts = type_texts_of(ts);
                    proof {
                        lemma_type_views(ts@);
                    }
                    format_joined(&texts, " * ")
                }
            },
            Type::Sum(cs) => {
                let texts = ctor_texts_of(cs);
                format_joined(&texts, " + ")
            },
        }
    }
}

impl DataConstructor {
    /// The data constructor as it is written.
    pub fn to_text(&self) -> (r: String)
        ensures
            r@ == ctor_text(self@),
        decreases self,
    {
        let mut text = self.tag.clone();
        let mut i: usize = 0;
        proof {
            lemma_type_views(self.types@);
            assert(text@ =~= self.tag@ + fields_text(type_views(self.types@).take(0)));
        }
        while i < self.types.len()
            invariant
                i <= self.types.len(),
                type_views(self.types@).len() == self.types.len(),
                forall|j: int| 0 <= j < self.types.len() ==> #[trigger] type_views(self.types@)[j] == self.types@[j]@,
                text@ == self.tag@ + fields_text(type_views(self.types@).take(i as int)),
            decreases self.types.len() - i,
        {
            proof {
                assert(decreases_to!(*self => self.types));
                assert(decreases_to!(self.types => self.types@));
                assert(decreases_to!(self.types@ => self.types@[i as int]));
            }
            let t = self.types[i].to_text();
            text.append(" ");
            text.append(t.as_str());
            proof {
                let v = type_views(self.types@);
                assert(v.take(i + 1).drop_last() =~= v.take(i as int));
            }
            i += 1;
        }
        proof {
            assert(type_views(self.types@).take(self.types.len() as int) =~= type_views(self.types@));
        }
        text
    }
}

fn type_texts_of(items: &Vec<Type>) -> (r: Vec<String>)
    ensures
        string_views(r@) == type_texts(type_views(items@)),
    decreases items,
{
    let mut out: Vec<String> = Vec::new();
    let mut i: usize = 0;
    proof {
        lemma_type_views(items@);
    }
    while i < items.len()
        invariant
            i <= items.len(),
            type_views(items@).len() == items.len(),
            forall|j: int| 0 <= j < items.len() ==> #[trigger] type_views(items@)[j] == items@[j]@,
            string_views(out@) == type_texts(type_views(items@).take(i as int)),
        decreases items.len() - i,
    {
        proof {
            assert(decreases_to!(*items => items@));
            assert(decreases_to!(items@ => items@[i as int]));
        }
        let t = items[i].to_text();
        let ghost before = out@;
        out.push(t);
        proof {
            let v = type_views(items@);
            assert(v.take(i + 1).drop_last() =~= v.take(i as int));
            assert(string_views(out@) =~= string_views(before).push(t@));
        }
        i += 1;
    }
    proof {
        assert(type_views(items@).take(items.len() as int) =~= type_views(items@));
    }
    out
}

fn ctor_texts_of(items: &Vec<DataConstructor>) -> (r: Vec<String>)
    ensures
        string_views(r@) == ctor_texts(ctor_views(items@)),
    decreases items,
{
    let mut out: Vec<String> = Vec::new();
    let mut i: usize = 0;
    proof {
        lemma_ctor_views(items@);
    }
    while i < items.len()
        invariant
            i <= items.len(),
            ctor_views(items@).len() == items.len(),
            forall|j: int| 0 <= j < items.len() ==> #[trigger] ctor_views(items@)[j] == items@[j]@,
            string_views(out@) == ctor_texts(ctor_views(items@).take(i as int)),
        decreases items.len() - i,
    {
        proof {
            assert(decreases_to!(*items => items@));
            assert(decreases_to!(items@ => items@[i as int]));
        }
        let t = items[i].to_text();
        let ghost before = out@;
        out.push(t);
        proof {
            let v = ctor_views(items@);
            assert(v.take(i + 1).drop_last() =~= v.take(i as int));
            assert(string_views(out@) =~= string_views(before).push(t@));
        }
        i += 1;
    }
    proof {
        assert(ctor_views(items@).take(items.len() as int) =~= ctor_views(items@));
    }
    out
}

} // verus!
