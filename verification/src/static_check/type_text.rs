//! How monotypes and type schemes are written.

use vstd::prelude::*;

use crate::static_check::types::Monotype;
use crate::static_check::types::MonotypeModel;
use crate::static_check::types::Type;
use crate::static_check::types::TypeModel;
use crate::static_check::types::lemma_monotype_views;
use crate::static_check::types::monotype_views;
use crate::util::fmt_parenthesized;
use crate::util::format_joined;
use crate::util::spec_join;
use crate::util::spec_parenthesized;
use crate::util::string_from;
use crate::util::string_views;

verus! {

/// A monotype as it is written: a function's parameter type and a named
/// type's arguments in parentheses where they hold a space, the empty
/// product as `Unit`.
pub open spec fn monotype_text(m: MonotypeModel) -> Seq<char>
    decreases m,
{
    match m {
        MonotypeModel::Int32 => "Int32"@,
        MonotypeModel::Float32 => "Float32"@,
        MonotypeModel::Char => "Char"@,
        MonotypeModel::Str => "String"@,
        MonotypeModel::Variable(name) => name,
        MonotypeModel::IO(t) => "IO "@ + spec_parenthesized(monotype_text(*t)),
        MonotypeModel::Function(p, r) => spec_parenthesized(monotype_text(*p)) + " -> "@ + monotype_text(*r),
        MonotypeModel::Product(ts) => if ts.len() == 0 {
            "Unit"@
        } else {
            spec_join(monotype_texts(ts), " * "@)
        },
        MonotypeModel::Named(name, args) => name + named_args_text(args),
        MonotypeModel::TypeConstructor(param, body) => param + " => "@ + monotype_text(*body),
    }
}

pub open spec fn monotype_texts(s: Seq<MonotypeModel>) -> Seq<Seq<char>>
    decreases s,
{
    if s.len() == 0 {
        Seq::empty()
    } else {
        monotype_texts(s.drop_last()).push(monotype_text(s.last()))
    }
}

/// Each argument after a space, in parentheses where it holds one.
pub open spec fn named_args_text(s: Seq<MonotypeModel>) -> Seq<char>
    decreases s,
{
    if s.len() == 0 {
        Seq::empty()
    } else {
        named_args_text(s.drop_last()) + " "@ + spec_parenthesized(monotype_text(s.last()))
    }
}

/// The quantified variables of a scheme as they are written: `∀ a b. `.
pub open spec fn vars_text(vars: Seq<Seq<char>>) -> Seq<char>
    decreases vars.len(),
{
    if vars.len() == 0 {
        Seq::empty()
    } else {
        vars_text(vars.drop_last()) + " "@ + vars.last()
    }
}

/// A scheme as it is written: its monotype, after `∀`, its variables and a
/// dot where it has variables.
pub open spec fn type_text(t: TypeModel) -> Seq<char> {
    if t.vars.len() == 0 {
        monotype_text(t.monotype)
    } else {
        "∀"@ + vars_text(t.vars) + ". "@ + monotype_text(t.monotype)
    }
}

impl Monotype {
    /// The monotype as it is written.
    pub fn to_text(&self) -> (r: String)
        ensures
            r@ == monotype_text(self@),
        decreases self,
    {
        match self {
            Monotype::Int32 => string_from("Int32"),
            Monotype::Float32 => string_from("Float32"),
            Monotype::Char => string_from("Char"),
            Monotype::String => string_from("String"),
            Monotype::Variable(name) => name.clone(),
            Monotype::IO(t) => {
                let mut text = string_from("IO ");
                let inner = t.to_text();
                let p = fmt_parenthesized(inner.as_str());
                text.append(p.as_str());
                text
            },
            Monotype::Function(p, r) => {
                let pt = p.to_text();
                let mut text = fmt_parenthesized(pt.as_str());
                text.append(" -> ");
                let rt = r.to_text();
                text.append(rt.as_str());
                text
            },
            Monotype::Product(ts) => {
                proof {
                    lemma_monotype_views(ts@);
                }
                if ts.len() == 0 {
                    return string_from("Unit");
                }
                let mut texts: Vec<String> = Vec::new();
                let mut i: usize = 0;
                proof {
                    lemma_monotype_views(ts@);
                }
                while i < ts.len()
                    invariant
                        i <= ts.len(),
                        *self is Product,
                        (*self)->Product_0 == *ts,
                        monotype_views(ts@).len() == ts.len(),
                        forall|j: int| 0 <= j < ts.len() ==> #[trigger] monotype_views(ts@)[j] == ts@[j]@,
                        string_views(texts@) == monotype_texts(monotype_views(ts@).take(i as int)),
                    decreases ts.len() - i,
                {
                    proof {
                        assert(decreases_to!(*self => (*self)->Product_0));
                        assert(decreases_to!(*ts => ts@));
                        assert(decreases_to!(ts@ => ts@[i as int]));
                    }
                    let t = ts[i].to_text();
                    let ghost before = texts@;
                    texts.push(t);
                    proof {
                        let v = monotype_views(ts@);
                        assert(v.take(i + 1).drop_last() =~= v.take(i as int));
                        assert(string_views(texts@) =~= string_views(before).push(t@));
                    }
                    i += 1;
                }
                proof {
                    assert(monotype_views(ts@).take(ts.len() as int) =~= monotype_views(ts@));
                }
                format_joined(&texts, " * ")
            },
            Monotype::Named(name, args) => {
                let mut text = name.clone();
                let mut i: usize = 0;
                proof {
                    lemma_monotype_views(args@);
                    assert(named_args_text(monotype_views(args@).take(0)) =~= Seq::<char>::empty());
                    assert(text@ =~= name@ + named_args_text(monotype_views(args@).take(0)));
                }
                while i < args.len()
                    invariant
                        i <= args.len(),
                        *self is Named,
                        (*self)->Named_1 == *args,
                        monotype_views(args@).len() == args.len(),
                        forall|j: int| 0 <= j < args.len() ==> #[trigger] monotype_views(args@)[j] == args@[j]@,
                        text@ == name@ + named_args_text(monotype_views(args@).take(i as int)),
                    decreases args.len() - i,
                {
                    proof {
                        assert(decreases_to!(*self => (*self)->Named_1));
                        assert(decreases_to!(*args => args@));
                        assert(decreases_to!(args@ => args@[i as int]));
                    }
                    let a = args[i].to_text();
                    let p = fmt_parenthesized(a.as_str());
                    text.append(" ");
                    text.append(p.as_str());
                    proof {
                        let v = monotype_views(args@);
                        assert(v.take(i + 1).drop_last() =~= v.take(i as int));
                    }
                    i += 1;
                }
                proof {
                    assert(monotype_views(args@).take(args.len() as int) =~= monotype_views(args@));
                }
                text
            },
            Monotype::TypeConstructor(param, body) => {
                let mut text = param.clone();
                text.append(" => ");
                let b = body.to_text();
                text.append(b.as_str());
                text
            },
        }
    }
}

impl Type {
    /// The scheme as it is written.
    pub fn to_text(&self) -> (r: String)
        ensures
            r@ == type_text(self@),
    {
        if self.vars.len() == 0 {
            return self.monotype.to_text();
        }
        let mut text = string_from("∀");
        let mut i: usize = 0;
        proof {
            assert(text@ =~= "∀"@ + vars_text(string_views(self.vars@).take(0)));
        }
        while i < self.vars.len()
            invariant
                i <= self.vars.len(),
                text@ == "∀"@ + vars_text(string_views(self.vars@).take(i as int)),
            decreases self.vars.len() - i,
        {
            text.append(" ");
            text.append(self.vars[i].as_str());
            proof {
                let v = string_views(self.vars@);
                assert(v.take(i + 1).drop_last() =~= v.take(i as int));
            }
            i += 1;
        }
        proof {
            assert(string_views(self.vars@).take(self.vars.len() as int) =~= string_views(self.vars@));
        }
        text.append(". ");
        let m = self.monotype.to_text();
        text.append(m.as_str());
        text
    }
}

} // verus!
