//! Monotypes and type schemes.

use vstd::prelude::*;

use crate::static_check::kind::Kind;
use crate::util::spec_signed_decimal;
use crate::util::i32_to_decimal;
use crate::util::string_from;
use crate::util::chars_of;
use crate::util::string_views;
use crate::static_check::names::sorted_names;
use crate::static_check::names::sorted_of;
use crate::static_check::names::lemma_sorted_of;
use crate::static_check::names::insert_names;

verus! {

// --- monotype ---

#[derive(Debug)]
pub enum Monotype {
    Int32,
    Float32,
    Char,
    String,
    IO(Box<Monotype>),
    Function(Box<Monotype>, Box<Monotype>),
    Product(Vec<Monotype>),
    Named(String, Vec<Monotype>),
    Variable(String),
    TypeConstructor(String, Box<Monotype>),
}

/// The mathematical value of a monotype: names as character sequences and
/// children as sequences.
pub enum MonotypeModel {
    Int32,
    Float32,
    Char,
    Str,
    IO(Box<MonotypeModel>),
    Function(Box<MonotypeModel>, Box<MonotypeModel>),
    Product(Seq<MonotypeModel>),
    Named(Seq<char>, Seq<MonotypeModel>),
    Variable(Seq<char>),
    TypeConstructor(Seq<char>, Box<MonotypeModel>),
}

pub open spec fn monotype_view(m: Monotype) -> MonotypeModel
    decreases m,
{
    match m {
        Monotype::Int32 => MonotypeModel::Int32,
        Monotype::Float32 => MonotypeModel::Float32,
        Monotype::Char => MonotypeModel::Char,
        Monotype::String => MonotypeModel::Str,
        Monotype::IO(t) => MonotypeModel::IO(Box::new(monotype_view(*t))),
        Monotype::Function(p, r) => MonotypeModel::Function(
            Box::new(monotype_view(*p)),
            Box::new(monotype_view(*r)),
        ),
        Monotype::Product(ts) => MonotypeModel::Product(monotype_views(ts@)),
        Monotype::Named(n, ts) => MonotypeModel::Named(n@, monotype_views(ts@)),
        Monotype::Variable(n) => MonotypeModel::Variable(n@),
        Monotype::TypeConstructor(n, t) => MonotypeModel::TypeConstructor(
            n@,
            Box::new(monotype_view(*t)),
        ),
    }
}

pub open spec fn monotype_views(s: Seq<Monotype>) -> Seq<MonotypeModel>
    decreases s,
{
    if s.len() == 0 {
        Seq::empty()
    } else {
        monotype_views(s.drop_last()).push(monotype_view(s.last()))
    }
}

impl View for Monotype {
    type V = MonotypeModel;

    open spec fn view(&self) -> MonotypeModel {
        monotype_view(*self)
    }
}

pub proof fn lemma_monotype_views(s: Seq<Monotype>)
    ensures
        monotype_views(s).len() == s.len(),
        forall|i: int| 0 <= i < s.len() ==> #[trigger] monotype_views(s)[i] == s[i]@,
    decreases s.len(),
{
    if s.len() > 0 {
        lemma_monotype_views(s.drop_last());
    }
}

/// Any two sequences whose elements have equal views have equal views.
pub proof fn lemma_monotype_views_eq(s: Seq<Monotype>, models: Seq<MonotypeModel>)
    requires
        s.len() == models.len(),
        forall|i: int| 0 <= i < s.len() ==> #[trigger] s[i]@ == models[i],
    ensures
        monotype_views(s) == models,
{
    lemma_monotype_views(s);
    assert(monotype_views(s) =~= models);
}

// --- size ---

pub open spec fn monotype_size(m: MonotypeModel) -> nat
    decreases m,
{
    match m {
        MonotypeModel::IO(t) => 1 + monotype_size(*t),
        MonotypeModel::Function(p, r) => 1 + monotype_size(*p) + monotype_size(*r),
        MonotypeModel::Product(ts) => 1 + monotype_sizes(ts),
        MonotypeModel::Named(_, ts) => 1 + monotype_sizes(ts),
        MonotypeModel::TypeConstructor(_, t) => 1 + monotype_size(*t),
        _ => 1,
    }
}

pub open spec fn monotype_sizes(s: Seq<MonotypeModel>) -> nat
    decreases s,
{
    if s.len() == 0 {
        0
    } else {
        monotype_size(s[0]) + monotype_sizes(s.drop_first())
    }
}

/// The number of type constructors in a monotype.
pub open spec fn constructor_count(m: MonotypeModel) -> nat
    decreases m,
{
    match m {
        MonotypeModel::IO(t) => constructor_count(*t),
        MonotypeModel::Function(p, r) => constructor_count(*p) + constructor_count(*r),
        MonotypeModel::Product(ts) => constructor_counts(ts),
        MonotypeModel::Named(_, ts) => constructor_counts(ts),
        MonotypeModel::TypeConstructor(_, t) => 1 + constructor_count(*t),
        _ => 0,
    }
}

pub open spec fn constructor_counts(s: Seq<MonotypeModel>) -> nat
    decreases s,
{
    if s.len() == 0 {
        0
    } else {
        constructor_count(s[0]) + constructor_counts(s.drop_first())
    }
}

// --- substitution ---

/// `m` with the variable `name` replaced by `t`; type constructors that bind
/// `name` and `IO` types are left as they are.
pub open spec fn spec_substitute_var(m: MonotypeModel, name: Seq<char>, t: MonotypeModel) -> MonotypeModel
    decreases m,
{
    match m {
        MonotypeModel::Variable(n) => if n == name {
            t
        } else {
            m
        },
        MonotypeModel::Function(p, r) => MonotypeModel::Function(
            Box::new(spec_substitute_var(*p, name, t)),
            Box::new(spec_substitute_var(*r, name, t)),
        ),
        MonotypeModel::Product(ts) => MonotypeModel::Product(spec_substitute_vars(ts, name, t)),
        MonotypeModel::Named(n, ts) => MonotypeModel::Named(n, spec_substitute_vars(ts, name, t)),
        MonotypeModel::TypeConstructor(param, body) => if param != name {
            MonotypeModel::TypeConstructor(param, Box::new(spec_substitute_var(*body, name, t)))
        } else {
            m
        },
        _ => m,
    }
}

pub open spec fn spec_substitute_vars(s: Seq<MonotypeModel>, name: Seq<char>, t: MonotypeModel) -> Seq<MonotypeModel>
    decreases s,
{
    if s.len() == 0 {
        Seq::empty()
    } else {
        seq![spec_substitute_var(s[0], name, t)] + spec_substitute_vars(s.drop_first(), name, t)
    }
}

pub proof fn lemma_substitute_vars(s: Seq<MonotypeModel>, name: Seq<char>, t: MonotypeModel)
    ensures
        spec_substitute_vars(s, name, t).len() == s.len(),
        forall|i: int| 0 <= i < s.len() ==> #[trigger] spec_substitute_vars(s, name, t)[i]
            == spec_substitute_var(s[i], name, t),
    decreases s.len(),
{
    if s.len() > 0 {
        lemma_substitute_vars(s.drop_first(), name, t);
        assert forall|i: int| 0 <= i < s.len() implies #[trigger] spec_substitute_vars(s, name, t)[i]
            == spec_substitute_var(s[i], name, t) by {
            if i > 0 {
                assert(s.drop_first()[i - 1] == s[i]);
            }
        }
    }
}

/// Replacing a variable by a variable keeps the size and the number of type
/// constructors.
pub proof fn lemma_substitute_var_size(m: MonotypeModel, name: Seq<char>, v: Seq<char>)
    ensures
        monotype_size(spec_substitute_var(m, name, MonotypeModel::Variable(v))) == monotype_size(m),
        constructor_count(spec_substitute_var(m, name, MonotypeModel::Variable(v)))
            == constructor_count(m),
    decreases m,
{
    match m {
        MonotypeModel::Function(p, r) => {
            lemma_substitute_var_size(*p, name, v);
            lemma_substitute_var_size(*r, name, v);
        },
        MonotypeModel::Product(ts) => {
            lemma_substitute_vars_size(ts, name, v);
        },
        MonotypeModel::Named(_, ts) => {
            lemma_substitute_vars_size(ts, name, v);
        },
        MonotypeModel::TypeConstructor(param, body) => {
            lemma_substitute_var_size(*body, name, v);
        },
        _ => {},
    }
}

pub proof fn lemma_substitute_vars_size(s: Seq<MonotypeModel>, name: Seq<char>, v: Seq<char>)
    ensures
        monotype_sizes(spec_substitute_vars(s, name, MonotypeModel::Variable(v))) == monotype_sizes(s),
        constructor_counts(spec_substitute_vars(s, name, MonotypeModel::Variable(v)))
            == constructor_counts(s),
    decreases s,
{
    if s.len() > 0 {
        lemma_substitute_var_size(s[0], name, v);
        lemma_substitute_vars_size(s.drop_first(), name, v);
        let r = spec_substitute_vars(s, name, MonotypeModel::Variable(v));
        assert(r[0] == spec_substitute_var(s[0], name, MonotypeModel::Variable(v)));
        assert(r.drop_first() =~= spec_substitute_vars(s.drop_first(), name, MonotypeModel::Variable(v)));
    }
}

// --- alpha equivalence ---

pub open spec fn param_prefix() -> Seq<char> {
    seq!['$', 'p', 'a', 'r', 'a', 'm']
}

pub open spec fn var_prefix() -> Seq<char> {
    seq!['$', 'v', 'a', 'r']
}

/// Equality of monotypes up to the names of type-constructor parameters.
/// Each pair of type constructors compared binds both parameters to the
/// same fresh variable `$param<n>`, `n` counting up from `counter`; the
/// result is the verdict and the counter after the comparison.
pub open spec fn spec_eq_monotype(t1: MonotypeModel, t2: MonotypeModel, counter: int) -> (bool, int)
    decreases monotype_size(t1), 0int,
{
    match (t1, t2) {
        (MonotypeModel::Int32, MonotypeModel::Int32) => (true, counter),
        (MonotypeModel::Float32, MonotypeModel::Float32) => (true, counter),
        (MonotypeModel::Char, MonotypeModel::Char) => (true, counter),
        (MonotypeModel::Str, MonotypeModel::Str) => (true, counter),
        (MonotypeModel::IO(a), MonotypeModel::IO(b)) => spec_eq_monotype(*a, *b, counter),
        (MonotypeModel::Function(p1, r1), MonotypeModel::Function(p2, r2)) => {
            let (e, c) = spec_eq_monotype(*p1, *p2, counter);
            if e {
                spec_eq_monotype(*r1, *r2, c)
            } else {
                (false, c)
            }
        },
        (MonotypeModel::Product(a), MonotypeModel::Product(b)) => if a.len() == b.len() {
            spec_eq_monotypes(a, b, counter)
        } else {
            (false, counter)
        },
        (MonotypeModel::Named(n1, a), MonotypeModel::Named(n2, b)) => {
            let (args_eq, c) = if a.len() == b.len() {
                spec_eq_monotypes(a, b, counter)
            } else {
                (false, counter)
            };
            (n1 == n2 && args_eq, c)
        },
        (MonotypeModel::Variable(n1), MonotypeModel::Variable(n2)) => (n1 == n2, counter),
        (MonotypeModel::TypeConstructor(p1, b1), MonotypeModel::TypeConstructor(p2, b2)) => {
            let fresh = param_prefix() + spec_signed_decimal(counter);
            let s1 = spec_substitute_var(*b1, p1, MonotypeModel::Variable(fresh));
            let s2 = spec_substitute_var(*b2, p2, MonotypeModel::Variable(fresh));
            proof {
                lemma_substitute_var_size(*b1, p1, fresh);
            }
            spec_eq_monotype(s1, s2, counter + 1)
        },
        _ => (false, counter),
    }
}

/// Pairwise equality of two sequences of equal length, from the first pair
/// on, stopping at the first unequal pair.
pub open spec fn spec_eq_monotypes(s1: Seq<MonotypeModel>, s2: Seq<MonotypeModel>, counter: int) -> (bool, int)
    decreases monotype_sizes(s1), 1int,
{
    if s1.len() == 0 || s2.len() == 0 {
        (true, counter)
    } else {
        let (e, c) = spec_eq_monotype(s1[0], s2[0], counter);
        if e {
            proof {
                assert(monotype_size(s1[0]) >= 1);
            }
            spec_eq_monotypes(s1.drop_first(), s2.drop_first(), c)
        } else {
            (false, c)
        }
    }
}

/// The comparison never moves the counter back, nor by more than the number
/// of type constructors in the first monotype.
pub proof fn lemma_eq_monotype_counter(t1: MonotypeModel, t2: MonotypeModel, counter: int)
    ensures
        counter <= spec_eq_monotype(t1, t2, counter).1 <= counter + constructor_count(t1),
    decreases monotype_size(t1), 0int,
{
    match (t1, t2) {
        (MonotypeModel::IO(a), MonotypeModel::IO(b)) => lemma_eq_monotype_counter(*a, *b, counter),
        (MonotypeModel::Function(p1, r1), MonotypeModel::Function(p2, r2)) => {
            lemma_eq_monotype_counter(*p1, *p2, counter);
            let (e, c) = spec_eq_monotype(*p1, *p2, counter);
            lemma_eq_monotype_counter(*r1, *r2, c);
        },
        (MonotypeModel::Product(a), MonotypeModel::Product(b)) => {
            if a.len() == b.len() {
                lemma_eq_monotypes_counter(a, b, counter);
            }
        },
        (MonotypeModel::Named(n1, a), MonotypeModel::Named(n2, b)) => {
            if a.len() == b.len() {
                lemma_eq_monotypes_counter(a, b, counter);
            }
        },
        (MonotypeModel::TypeConstructor(p1, b1), MonotypeModel::TypeConstructor(p2, b2)) => {
            let fresh = param_prefix() + spec_signed_decimal(counter);
            let s1 = spec_substitute_var(*b1, p1, MonotypeModel::Variable(fresh));
            let s2 = spec_substitute_var(*b2, p2, MonotypeModel::Variable(fresh));
            lemma_substitute_var_size(*b1, p1, fresh);
            lemma_eq_monotype_counter(s1, s2, counter + 1);
        },
        _ => {},
    }
}

pub proof fn lemma_eq_monotypes_counter(s1: Seq<MonotypeModel>, s2: Seq<MonotypeModel>, counter: int)
    ensures
        counter <= spec_eq_monotypes(s1, s2, counter).1 <= counter + constructor_counts(s1),
    decreases monotype_sizes(s1), 1int,
{
    if s1.len() > 0 && s2.len() > 0 {
        lemma_eq_monotype_counter(s1[0], s2[0], counter);
        let (e, c) = spec_eq_monotype(s1[0], s2[0], counter);
        if e {
            lemma_eq_monotypes_counter(s1.drop_first(), s2.drop_first(), c);
        }
    }
}

/// Every monotype is alpha equivalent to itself, whatever the counter, and
/// the comparison moves the counter as far as the first monotype's type
/// constructors go.
pub proof fn lemma_eq_monotype_reflexive(t: MonotypeModel, counter: int)
    ensures
        spec_eq_monotype(t, t, counter).0,
    decreases monotype_size(t), 0int,
{
    match t {
        MonotypeModel::IO(a) => lemma_eq_monotype_reflexive(*a, counter),
        MonotypeModel::Function(p, r) => {
            lemma_eq_monotype_reflexive(*p, counter);
            let (e, c) = spec_eq_monotype(*p, *p, counter);
            lemma_eq_monotype_reflexive(*r, c);
        },
        MonotypeModel::Product(a) => lemma_eq_monotypes_reflexive(a, counter),
        MonotypeModel::Named(_, a) => lemma_eq_monotypes_reflexive(a, counter),
        MonotypeModel::TypeConstructor(p, b) => {
            let fresh = param_prefix() + spec_signed_decimal(counter);
            lemma_substitute_var_size(*b, p, fresh);
            lemma_eq_monotype_reflexive(spec_substitute_var(*b, p, MonotypeModel::Variable(fresh)), counter + 1);
        },
        _ => {},
    }
}

pub proof fn lemma_eq_monotypes_reflexive(s: Seq<MonotypeModel>, counter: int)
    ensures
        spec_eq_monotypes(s, s, counter).0,
    decreases monotype_sizes(s), 1int,
{
    if s.len() > 0 {
        lemma_eq_monotype_reflexive(s[0], counter);
        let (e, c) = spec_eq_monotype(s[0], s[0], counter);
        assert(monotype_size(s[0]) >= 1);
        lemma_eq_monotypes_reflexive(s.drop_first(), c);
    }
}

/// Alpha equivalence of monotypes is symmetric, and so is how far the
/// comparison moves the counter.
pub proof fn lemma_eq_monotype_symmetric(t1: MonotypeModel, t2: MonotypeModel, counter: int)
    ensures
        spec_eq_monotype(t1, t2, counter) == spec_eq_monotype(t2, t1, counter),
    decreases monotype_size(t1), 0int,
{
    match (t1, t2) {
        (MonotypeModel::IO(a), MonotypeModel::IO(b)) => lemma_eq_monotype_symmetric(*a, *b, counter),
        (MonotypeModel::Function(p1, r1), MonotypeModel::Function(p2, r2)) => {
            lemma_eq_monotype_symmetric(*p1, *p2, counter);
            let (e, c) = spec_eq_monotype(*p1, *p2, counter);
            lemma_eq_monotype_symmetric(*r1, *r2, c);
        },
        (MonotypeModel::Product(a), MonotypeModel::Product(b)) => {
            if a.len() == b.len() {
                lemma_eq_monotypes_symmetric(a, b, counter);
            }
        },
        (MonotypeModel::Named(n1, a), MonotypeModel::Named(n2, b)) => {
            if a.len() == b.len() {
                lemma_eq_monotypes_symmetric(a, b, counter);
            }
        },
        (MonotypeModel::TypeConstructor(p1, b1), MonotypeModel::TypeConstructor(p2, b2)) => {
            let fresh = param_prefix() + spec_signed_decimal(counter);
            lemma_substitute_var_size(*b1, p1, fresh);
            lemma_eq_monotype_symmetric(
                spec_substitute_var(*b1, p1, MonotypeModel::Variable(fresh)),
                spec_substitute_var(*b2, p2, MonotypeModel::Variable(fresh)),
                counter + 1,
            );
        },
        _ => {},
    }
}

pub proof fn lemma_eq_monotypes_symmetric(s1: Seq<MonotypeModel>, s2: Seq<MonotypeModel>, counter: int)
    requires
        s1.len() == s2.len(),
    ensures
        spec_eq_monotypes(s1, s2, counter) == spec_eq_monotypes(s2, s1, counter),
    decreases monotype_sizes(s1), 1int,
{
    if s1.len() > 0 {
        lemma_eq_monotype_symmetric(s1[0], s2[0], counter);
        let (e, c) = spec_eq_monotype(s1[0], s2[0], counter);
        assert(monotype_size(s1[0]) >= 1);
        if e {
            lemma_eq_monotypes_symmetric(s1.drop_first(), s2.drop_first(), c);
        }
    }
}

/// Alpha equivalent monotypes have as many type constructors.
pub proof fn lemma_eq_monotype_counts(t1: MonotypeModel, t2: MonotypeModel, counter: int)
    requires
        spec_eq_monotype(t1, t2, counter).0,
    ensures
        constructor_count(t1) == constructor_count(t2),
    decreases monotype_size(t1), 0int,
{
    match (t1, t2) {
        (MonotypeModel::IO(a), MonotypeModel::IO(b)) => lemma_eq_monotype_counts(*a, *b, counter),
        (MonotypeModel::Function(p1, r1), MonotypeModel::Function(p2, r2)) => {
            lemma_eq_monotype_counts(*p1, *p2, counter);
            let (e, c) = spec_eq_monotype(*p1, *p2, counter);
            lemma_eq_monotype_counts(*r1, *r2, c);
        },
        (MonotypeModel::Product(a), MonotypeModel::Product(b)) => lemma_eq_monotypes_counts(a, b, counter),
        (MonotypeModel::Named(n1, a), MonotypeModel::Named(n2, b)) => lemma_eq_monotypes_counts(a, b, counter),
        (MonotypeModel::TypeConstructor(p1, b1), MonotypeModel::TypeConstructor(p2, b2)) => {
            let fresh = param_prefix() + spec_signed_decimal(counter);
            lemma_substitute_var_size(*b1, p1, fresh);
            lemma_substitute_var_size(*b2, p2, fresh);
            lemma_eq_monotype_counts(
                spec_substitute_var(*b1, p1, MonotypeModel::Variable(fresh)),
                spec_substitute_var(*b2, p2, MonotypeModel::Variable(fresh)),
                counter + 1,
            );
        },
        _ => {},
    }
}

pub proof fn lemma_eq_monotypes_counts(s1: Seq<MonotypeModel>, s2: Seq<MonotypeModel>, counter: int)
    requires
        s1.len() == s2.len(),
        spec_eq_monotypes(s1, s2, counter).0,
    ensures
        constructor_counts(s1) == constructor_counts(s2),
    decreases monotype_sizes(s1), 1int,
{
    if s1.len() > 0 {
        lemma_eq_monotype_counts(s1[0], s2[0], counter);
        let (e, c) = spec_eq_monotype(s1[0], s2[0], counter);
        assert(monotype_size(s1[0]) >= 1);
        lemma_eq_monotypes_counts(s1.drop_first(), s2.drop_first(), c);
    }
}

/// The equality of monotypes: alpha equivalence with the counter starting
/// at zero, for monotypes with fewer type constructors than the counter
/// can count; unequal otherwise.
pub open spec fn spec_monotype_eq(t1: MonotypeModel, t2: MonotypeModel) -> bool {
    constructor_count(t1) <= i32::MAX && spec_eq_monotype(t1, t2, 0).0
}


/// The equality of monotypes (`==`) is reflexive on monotypes whose type
/// constructors the counter can count.
pub proof fn law_monotype_eq_reflexive(t: MonotypeModel)
    requires
        constructor_count(t) <= i32::MAX,
    ensures
        spec_monotype_eq(t, t),
{
    lemma_eq_monotype_reflexive(t, 0);
}

/// The equality of monotypes (`==`) is symmetric.
pub proof fn law_monotype_eq_symmetric(t1: MonotypeModel, t2: MonotypeModel)
    ensures
        spec_monotype_eq(t1, t2) == spec_monotype_eq(t2, t1),
{
    lemma_eq_monotype_symmetric(t1, t2, 0);
    if spec_eq_monotype(t1, t2, 0).0 {
        lemma_eq_monotype_counts(t1, t2, 0);
    }
}
} // verus!

verus! {

impl Monotype {
    pub fn function(param_type: Monotype, return_type: Monotype) -> (m: Monotype)
        ensures
            m@ == MonotypeModel::Function(Box::new(param_type@), Box::new(return_type@)),
    {
        Monotype::Function(Box::new(param_type), Box::new(return_type))
    }

    /// A copy of the monotype.
    pub fn copy(&self) -> (copy: Monotype)
        ensures
            copy@ == self@,
        decreases self,
    {
        match self {
            Monotype::Int32 => Monotype::Int32,
            Monotype::Float32 => Monotype::Float32,
            Monotype::Char => Monotype::Char,
            Monotype::String => Monotype::String,
            Monotype::IO(t) => Monotype::IO(Box::new(t.copy())),
            Monotype::Function(p, r) => Monotype::Function(Box::new(p.copy()), Box::new(r.copy())),
            Monotype::Product(ts) => Monotype::Product(copy_monotypes(ts)),
            Monotype::Named(n, ts) => Monotype::Named(n.clone(), copy_monotypes(ts)),
            Monotype::Variable(n) => Monotype::Variable(n.clone()),
            Monotype::TypeConstructor(n, t) => Monotype::TypeConstructor(n.clone(), Box::new(t.copy())),
        }
    }

    /// The monotype with the variable `name` replaced by `r#type`.
    pub fn substitute_var(&self, name: &str, ty: &Monotype) -> (m: Monotype)
        ensures
            m@ == spec_substitute_var(self@, name@, ty@),
        decreases self,
    {
        match self {
            Monotype::Variable(n) => {
                if str_eq(n.as_str(), name) {
                    ty.copy()
                } else {
                    Monotype::Variable(n.clone())
                }
            },
            Monotype::Function(p, r) => Monotype::function(
                p.substitute_var(name, ty),
                r.substitute_var(name, ty),
            ),
            Monotype::Product(ts) => Monotype::Product(substitute_var_all(ts, name, ty)),
            Monotype::Named(n, ts) => Monotype::Named(n.clone(), substitute_var_all(ts, name, ty)),
            Monotype::TypeConstructor(param, body) => {
                if !str_eq(param.as_str(), name) {
                    Monotype::TypeConstructor(param.clone(), Box::new(body.substitute_var(name, ty)))
                } else {
                    self.copy()
                }
            },
            _ => self.copy(),
        }
    }
}

/// Whether two strings hold the same characters.
pub fn str_eq(a: &str, b: &str) -> (eq: bool)
    ensures
        eq == (a@ == b@),
{
    let ca = chars_of(a);
    let cb = chars_of(b);
    if ca.len() != cb.len() {
        return false;
    }
    let mut i: usize = 0;
    while i < ca.len()
        invariant
            i <= ca.len(),
            ca.len() == cb.len(),
            ca@ == a@,
            cb@ == b@,
            forall|j: int| 0 <= j < i ==> ca@[j] == cb@[j],
        decreases ca.len() - i,
    {
        if ca[i] != cb[i] {
            return false;
        }
        i += 1;
    }
    assert(a@ =~= b@);
    true
}

pub fn copy_monotypes(ts: &Vec<Monotype>) -> (copies: Vec<Monotype>)
    ensures
        monotype_views(copies@) == monotype_views(ts@),
    decreases ts,
{
    let mut out: Vec<Monotype> = Vec::new();
    let mut i: usize = 0;
    while i < ts.len()
        invariant
            i <= ts.len(),
            out@.len() == i,
            forall|j: int| 0 <= j < i ==> #[trigger] out@[j]@ == ts@[j]@,
        decreases ts.len() - i,
    {
        proof {
            assert(decreases_to!(*ts => ts@));
            assert(decreases_to!(ts@ => ts@[i as int]));
        }
        let c = ts[i].copy();
        out.push(c);
        i += 1;
    }
    proof {
        lemma_monotype_views(ts@);
        lemma_monotype_views_eq(out@, monotype_views(ts@));
    }
    out
}

pub fn substitute_var_all(ts: &Vec<Monotype>, name: &str, ty: &Monotype) -> (r: Vec<Monotype>)
    ensures
        monotype_views(r@) == spec_substitute_vars(monotype_views(ts@), name@, ty@),
    decreases ts,
{
    let mut out: Vec<Monotype> = Vec::new();
    let mut i: usize = 0;
    proof {
        lemma_monotype_views(ts@);
        lemma_substitute_vars(monotype_views(ts@), name@, ty@);
    }
    while i < ts.len()
        invariant
            i <= ts.len(),
            out@.len() == i,
            forall|j: int| 0 <= j < i ==> #[trigger] out@[j]@ == spec_substitute_var(ts@[j]@, name@, ty@),
        decreases ts.len() - i,
    {
        proof {
            assert(decreases_to!(*ts => ts@));
            assert(decreases_to!(ts@ => ts@[i as int]));
        }
        let c = ts[i].substitute_var(name, ty);
        out.push(c);
        i += 1;
    }
    proof {
        lemma_monotype_views_eq(out@, spec_substitute_vars(monotype_views(ts@), name@, ty@));
    }
    out
}

} // verus!

verus! {

pub proof fn lemma_sizes_element(s: Seq<MonotypeModel>, i: int)
    requires
        0 <= i < s.len(),
    ensures
        monotype_size(s[i]) <= monotype_sizes(s),
        constructor_count(s[i]) <= constructor_counts(s),
    decreases s.len(),
{
    if i > 0 {
        lemma_sizes_element(s.drop_first(), i - 1);
    }
}

pub proof fn lemma_skip_unfold(s: Seq<MonotypeModel>, i: int)
    requires
        0 <= i < s.len(),
    ensures
        s.skip(i)[0] == s[i],
        s.skip(i).drop_first() == s.skip(i + 1),
        constructor_counts(s.skip(i)) == constructor_count(s[i]) + constructor_counts(s.skip(i + 1)),
{
    assert(s.skip(i).drop_first() =~= s.skip(i + 1));
}

/// Alpha equivalence of two monotypes (see `spec_eq_monotype`).
pub fn eq_monotype(type_1: &Monotype, type_2: &Monotype, counter: &mut i32) -> (eq: bool)
    requires
        0 <= *old(counter),
        *old(counter) + constructor_count(type_1@) <= i32::MAX,
    ensures
        (eq, *final(counter) as int) == spec_eq_monotype(type_1@, type_2@, *old(counter) as int),
    decreases monotype_size(type_1@), 0int,
{
    proof {
        lemma_eq_monotype_counter(type_1@, type_2@, *old(counter) as int);
    }
    match (type_1, type_2) {
        (Monotype::Int32, Monotype::Int32) => true,
        (Monotype::Float32, Monotype::Float32) => true,
        (Monotype::Char, Monotype::Char) => true,
        (Monotype::String, Monotype::String) => true,
        (Monotype::IO(a), Monotype::IO(b)) => eq_monotype(a, b, counter),
        (Monotype::Function(p1, r1), Monotype::Function(p2, r2)) => {
            proof {
                lemma_eq_monotype_counter(p1@, p2@, *counter as int);
            }
            let e = eq_monotype(p1, p2, counter);
            if e {
                eq_monotype(r1, r2, counter)
            } else {
                false
            }
        },
        (Monotype::Product(a), Monotype::Product(b)) => {
            proof {
                lemma_monotype_views(a@);
                lemma_monotype_views(b@);
            }
            if a.len() == b.len() {
                eq_monotypes(a, b, counter)
            } else {
                false
            }
        },
        (Monotype::Named(n1, a), Monotype::Named(n2, b)) => {
            proof {
                lemma_monotype_views(a@);
                lemma_monotype_views(b@);
            }
            let names_eq = str_eq(n1.as_str(), n2.as_str());
            let args_eq = if a.len() == b.len() {
                eq_monotypes(a, b, counter)
            } else {
                false
            };
            names_eq && args_eq
        },
        (Monotype::Variable(n1), Monotype::Variable(n2)) => str_eq(n1.as_str(), n2.as_str()),
        (Monotype::TypeConstructor(p1, b1), Monotype::TypeConstructor(p2, b2)) => {
            let mut fresh = string_from("$param");
            let digits = i32_to_decimal(*counter);
            fresh.append(digits.as_str());
            proof {
                reveal_strlit("$param");
                assert(fresh@ == param_prefix() + spec_signed_decimal(*counter as int));
            }
            let fresh_var = Monotype::Variable(fresh);
            let s1 = b1.substitute_var(p1.as_str(), &fresh_var);
            let s2 = b2.substitute_var(p2.as_str(), &fresh_var);
            proof {
                lemma_substitute_var_size(b1@, p1@, fresh_var@->Variable_0);
            }
            *counter = *counter + 1;
            eq_monotype(&s1, &s2, counter)
        },
        _ => false,
    }
}

fn eq_monotypes(a: &Vec<Monotype>, b: &Vec<Monotype>, counter: &mut i32) -> (eq: bool)
    requires
        a.len() == b.len(),
        0 <= *old(counter),
        *old(counter) + constructor_counts(monotype_views(a@)) <= i32::MAX,
    ensures
        (eq, *final(counter) as int) == spec_eq_monotypes(
            monotype_views(a@),
            monotype_views(b@),
            *old(counter) as int,
        ),
    decreases monotype_sizes(monotype_views(a@)), 1int,
{
    let ghost va = monotype_views(a@);
    let ghost vb = monotype_views(b@);
    let ghost c0 = *counter as int;
    proof {
        lemma_monotype_views(a@);
        lemma_monotype_views(b@);
        assert(va.skip(0) =~= va);
        assert(vb.skip(0) =~= vb);
    }
    let mut i: usize = 0;
    while i < a.len()
        invariant
            i <= a.len(),
            a.len() == b.len(),
            va == monotype_views(a@),
            vb == monotype_views(b@),
            va.len() == a.len(),
            vb.len() == b.len(),
            forall|j: int| 0 <= j < a.len() ==> #[trigger] va[j] == a@[j]@,
            forall|j: int| 0 <= j < b.len() ==> #[trigger] vb[j] == b@[j]@,
            0 <= *counter,
            c0 == *old(counter) as int,
            *counter + constructor_counts(va.skip(i as int)) <= i32::MAX,
            spec_eq_monotypes(va, vb, c0) == spec_eq_monotypes(va.skip(i as int), vb.skip(i as int), *counter as int),
            monotype_sizes(va) == monotype_sizes(monotype_views(a@)),
        decreases a.len() - i,
    {
        proof {
            lemma_skip_unfold(va, i as int);
            lemma_skip_unfold(vb, i as int);
            lemma_sizes_element(va, i as int);
            lemma_eq_monotype_counter(va[i as int], vb[i as int], *counter as int);
        }
        let ghost before = *counter as int;
        let e = eq_monotype(&a[i], &b[i], counter);
        proof {
            assert(va.skip(i as int).len() > 0 && vb.skip(i as int).len() > 0);
            assert(spec_eq_monotypes(va.skip(i as int), vb.skip(i as int), before) == if e {
                spec_eq_monotypes(va.skip(i + 1), vb.skip(i + 1), *counter as int)
            } else {
                (false, *counter as int)
            });
        }
        if !e {
            assert(spec_eq_monotypes(va, vb, c0) == (false, *counter as int));
            assert(c0 == *old(counter) as int);
            return false;
        }
        i += 1;
    }
    proof {
        assert(va.skip(i as int).len() == 0);
    }
    true
}

/// The number of type constructors in `m`, or `cap` where there are more.
pub fn constructor_count_capped(m: &Monotype, cap: u64) -> (count: u64)
    ensures
        count == if constructor_count(m@) <= cap { constructor_count(m@) } else { cap as nat },
    decreases m,
{
    match m {
        Monotype::IO(t) => constructor_count_capped(t, cap),
        Monotype::Function(p, r) => {
            let a = constructor_count_capped(p, cap);
            if a >= cap {
                cap
            } else {
                let b = constructor_count_capped(r, cap - a);
                a + b
            }
        },
        Monotype::Product(ts) => constructor_counts_capped(ts, cap),
        Monotype::Named(_, ts) => constructor_counts_capped(ts, cap),
        Monotype::TypeConstructor(_, t) => {
            if cap == 0 {
                0
            } else {
                let a = constructor_count_capped(t, cap - 1);
                a + 1
            }
        },
        _ => 0,
    }
}

fn constructor_counts_capped(ts: &Vec<Monotype>, cap: u64) -> (count: u64)
    ensures
        count == if constructor_counts(monotype_views(ts@)) <= cap {
            constructor_counts(monotype_views(ts@))
        } else {
            cap as nat
        },
    decreases ts,
{
    let ghost v = monotype_views(ts@);
    proof {
        lemma_monotype_views(ts@);
        assert(v.skip(0) =~= v);
    }
    let mut total: u64 = 0;
    let mut i: usize = 0;
    while i < ts.len()
        invariant
            i <= ts.len(),
            v == monotype_views(ts@),
            v.len() == ts.len(),
            forall|j: int| 0 <= j < ts.len() ==> #[trigger] v[j] == ts@[j]@,
            total <= cap,
            total + constructor_counts(v.skip(i as int)) == constructor_counts(v),
        decreases ts.len() - i,
    {
        proof {
            assert(decreases_to!(*ts => ts@));
            assert(decreases_to!(ts@ => ts@[i as int]));
            lemma_skip_unfold(v, i as int);
        }
        let c = constructor_count_capped(&ts[i], cap - total);
        if c >= cap - total {
            return cap;
        }
        total = total + c;
        i += 1;
    }
    proof {
        assert(v.skip(i as int).len() == 0);
    }
    total
}

impl PartialEq for Monotype {
    fn eq(&self, other: &Self) -> (eq: bool) {
        let count = constructor_count_capped(self, 2147483648u64);
        if count > 2147483647u64 {
            return false;
        }
        let mut counter: i32 = 0;
        eq_monotype(self, other, &mut counter)
    }
}

impl vstd::std_specs::cmp::PartialEqSpecImpl for Monotype {
    open spec fn obeys_eq_spec() -> bool {
        true
    }

    open spec fn eq_spec(&self, other: &Self) -> bool {
        spec_monotype_eq(self@, other@)
    }
}

} // verus!

verus! {

// --- scheme ---

/// A type scheme: a monotype with its quantified variables.
#[derive(Debug)]
pub struct Type {
    pub vars: Vec<String>,
    pub monotype: Monotype,
}

pub struct TypeModel {
    pub vars: Seq<Seq<char>>,
    pub monotype: MonotypeModel,
}

impl View for Type {
    type V = TypeModel;

    open spec fn view(&self) -> TypeModel {
        TypeModel { vars: string_views(self.vars@), monotype: self.monotype@ }
    }
}

pub open spec fn type_views(s: Seq<Type>) -> Seq<TypeModel> {
    s.map_values(|t: Type| t@)
}

/// The variables of all the schemes in `s`.
pub open spec fn vars_of_all(s: Seq<TypeModel>) -> Set<Seq<char>>
    decreases s.len(),
{
    if s.len() == 0 {
        Set::empty()
    } else {
        vars_of_all(s.drop_last()) + s.last().vars.to_set()
    }
}

/// `m` with the `n` first variables of `vars` renamed, in order, to
/// `$var0`, `$var1`, ...
pub open spec fn spec_rename_vars(m: MonotypeModel, vars: Seq<Seq<char>>, n: nat) -> MonotypeModel
    decreases n,
{
    if n == 0 {
        m
    } else {
        spec_substitute_var(
            spec_rename_vars(m, vars, (n - 1) as nat),
            vars[n - 1],
            MonotypeModel::Variable(var_prefix() + crate::util::spec_decimal((n - 1) as nat)),
        )
    }
}

/// The function type from `p` to `r`, quantified over the variables of
/// both, in order.
pub open spec fn scheme_function(p: TypeModel, r: TypeModel) -> TypeModel {
    TypeModel {
        vars: sorted_of(p.vars.to_set() + r.vars.to_set()),
        monotype: MonotypeModel::Function(Box::new(p.monotype), Box::new(r.monotype)),
    }
}

/// The product of `ts`, quantified over all their variables, in order.
pub open spec fn scheme_product(ts: Seq<TypeModel>) -> TypeModel {
    TypeModel {
        vars: sorted_of(vars_of_all(ts)),
        monotype: MonotypeModel::Product(ts.map_values(|t: TypeModel| t.monotype)),
    }
}

/// Equality of schemes: as many variables, and equal monotypes once the
/// variables of both are renamed by position.
pub open spec fn spec_type_eq(a: TypeModel, b: TypeModel) -> bool {
    a.vars.len() == b.vars.len() && spec_monotype_eq(
        spec_rename_vars(a.monotype, a.vars, a.vars.len()),
        spec_rename_vars(b.monotype, b.vars, b.vars.len()),
    )
}

/// Renaming variables to variables keeps the number of type constructors.
pub proof fn lemma_rename_vars_count(m: MonotypeModel, vars: Seq<Seq<char>>, n: nat)
    ensures
        constructor_count(spec_rename_vars(m, vars, n)) == constructor_count(m),
    decreases n,
{
    if n > 0 {
        lemma_rename_vars_count(m, vars, (n - 1) as nat);
        lemma_substitute_var_size(
            spec_rename_vars(m, vars, (n - 1) as nat),
            vars[n - 1],
            var_prefix() + crate::util::spec_decimal((n - 1) as nat),
        );
    }
}

/// The equality of schemes (`==`) is reflexive on schemes whose type
/// constructors the counter can count.
pub proof fn law_type_eq_reflexive(t: TypeModel)
    requires
        constructor_count(t.monotype) <= i32::MAX,
    ensures
        spec_type_eq(t, t),
{
    lemma_rename_vars_count(t.monotype, t.vars, t.vars.len());
    law_monotype_eq_reflexive(spec_rename_vars(t.monotype, t.vars, t.vars.len()));
}

/// The equality of schemes (`==`) is symmetric.
pub proof fn law_type_eq_symmetric(a: TypeModel, b: TypeModel)
    ensures
        spec_type_eq(a, b) == spec_type_eq(b, a),
{
    law_monotype_eq_symmetric(
        spec_rename_vars(a.monotype, a.vars, a.vars.len()),
        spec_rename_vars(b.monotype, b.vars, b.vars.len()),
    );
}

/// `name` occurs in `m`, as a variable or as a type constructor's
/// parameter.
pub open spec fn occurs(m: MonotypeModel, name: Seq<char>) -> bool
    decreases m,
{
    match m {
        MonotypeModel::Variable(n) => n == name,
        MonotypeModel::IO(t) => occurs(*t, name),
        MonotypeModel::Function(p, r) => occurs(*p, name) || occurs(*r, name),
        MonotypeModel::Product(ts) => occurs_in(ts, name),
        MonotypeModel::Named(_, ts) => occurs_in(ts, name),
        MonotypeModel::TypeConstructor(param, body) => param == name || occurs(*body, name),
        _ => false,
    }
}

pub open spec fn occurs_in(s: Seq<MonotypeModel>, name: Seq<char>) -> bool
    decreases s,
{
    s.len() > 0 && (occurs(s[0], name) || occurs_in(s.drop_first(), name))
}

/// Replacing a name that does not occur changes nothing.
pub proof fn lemma_substitute_absent(m: MonotypeModel, b: Seq<char>, t: MonotypeModel)
    requires
        !occurs(m, b),
    ensures
        spec_substitute_var(m, b, t) == m,
    decreases m,
{
    match m {
        MonotypeModel::Function(p, r) => {
            lemma_substitute_absent(*p, b, t);
            lemma_substitute_absent(*r, b, t);
        },
        MonotypeModel::Product(ts) => lemma_substitute_absent_seq(ts, b, t),
        MonotypeModel::Named(_, ts) => lemma_substitute_absent_seq(ts, b, t),
        MonotypeModel::TypeConstructor(_, body) => lemma_substitute_absent(*body, b, t),
        _ => {},
    }
}

pub proof fn lemma_substitute_absent_seq(s: Seq<MonotypeModel>, b: Seq<char>, t: MonotypeModel)
    requires
        !occurs_in(s, b),
    ensures
        spec_substitute_vars(s, b, t) == s,
    decreases s,
{
    if s.len() > 0 {
        lemma_substitute_absent(s[0], b, t);
        lemma_substitute_absent_seq(s.drop_first(), b, t);
        assert(seq![s[0]] + s.drop_first() =~= s);
    }
}

/// Renaming `a` to a name `b` that does not occur, then replacing `b`, is
/// replacing `a`.
pub proof fn lemma_substitute_through(m: MonotypeModel, a: Seq<char>, b: Seq<char>, t: MonotypeModel)
    requires
        !occurs(m, b),
    ensures
        spec_substitute_var(spec_substitute_var(m, a, MonotypeModel::Variable(b)), b, t) == spec_substitute_var(m, a, t),
    decreases m,
{
    match m {
        MonotypeModel::Function(p, r) => {
            lemma_substitute_through(*p, a, b, t);
            lemma_substitute_through(*r, a, b, t);
        },
        MonotypeModel::Product(ts) => lemma_substitute_through_seq(ts, a, b, t),
        MonotypeModel::Named(_, ts) => lemma_substitute_through_seq(ts, a, b, t),
        MonotypeModel::TypeConstructor(param, body) => {
            if param != a {
                lemma_substitute_through(*body, a, b, t);
            } else {
                lemma_substitute_absent(m, b, t);
            }
        },
        _ => {},
    }
}

pub proof fn lemma_substitute_through_seq(s: Seq<MonotypeModel>, a: Seq<char>, b: Seq<char>, t: MonotypeModel)
    requires
        !occurs_in(s, b),
    ensures
        spec_substitute_vars(spec_substitute_vars(s, a, MonotypeModel::Variable(b)), b, t) == spec_substitute_vars(s, a, t),
    decreases s,
{
    if s.len() > 0 {
        lemma_substitute_through(s[0], a, b, t);
        lemma_substitute_through_seq(s.drop_first(), a, b, t);
        let s1 = spec_substitute_vars(s, a, MonotypeModel::Variable(b));
        assert(s1[0] == spec_substitute_var(s[0], a, MonotypeModel::Variable(b)));
        assert(s1.drop_first() =~= spec_substitute_vars(s.drop_first(), a, MonotypeModel::Variable(b)));
    }
}

/// The name the equality of schemes gives the `i`th variable.
pub open spec fn placeholder(i: nat) -> Seq<char> {
    var_prefix() + crate::util::spec_decimal(i)
}

/// `m` with the first `k` names of `xs` replaced, one after the other, by
/// the corresponding monotypes of `ts`.
pub open spec fn spec_substitute_seq(m: MonotypeModel, xs: Seq<Seq<char>>, ts: Seq<MonotypeModel>, k: nat) -> MonotypeModel
    decreases k,
{
    if k == 0 {
        m
    } else {
        spec_substitute_var(spec_substitute_seq(m, xs, ts, (k - 1) as nat), xs[k - 1], ts[k - 1])
    }
}

/// The variables named by `names`.
pub open spec fn variables(names: Seq<Seq<char>>) -> Seq<MonotypeModel> {
    names.map_values(|n: Seq<char>| MonotypeModel::Variable(n))
}

/// The placeholders of the first `n` variables.
pub open spec fn placeholders(n: nat) -> Seq<MonotypeModel> {
    Seq::new(n, |i: int| MonotypeModel::Variable(placeholder(i as nat)))
}

proof fn lemma_rename_is_substitute_seq(m: MonotypeModel, vars: Seq<Seq<char>>, n: nat, k: nat)
    requires
        k <= n,
    ensures
        spec_rename_vars(m, vars, k) == spec_substitute_seq(m, vars, placeholders(n), k),
    decreases k,
{
    if k > 0 {
        lemma_rename_is_substitute_seq(m, vars, n, (k - 1) as nat);
        assert(placeholders(n)[k - 1] == MonotypeModel::Variable(placeholder((k - 1) as nat)));
    }
}

/// Replacing two different names, neither of which occurs in what the other
/// is replaced by, in either order gives the same.
proof fn lemma_substitute_commute(m: MonotypeModel, u: Seq<char>, tu: MonotypeModel, v: Seq<char>, tv: MonotypeModel)
    requires
        u != v,
        !occurs(tv, u),
        !occurs(tu, v),
    ensures
        spec_substitute_var(spec_substitute_var(m, u, tu), v, tv) == spec_substitute_var(spec_substitute_var(m, v, tv), u, tu),
    decreases m,
{
    match m {
        MonotypeModel::Variable(n) => {
            if n == u {
                lemma_substitute_absent(tu, v, tv);
            } else if n == v {
                lemma_substitute_absent(tv, u, tu);
            }
        },
        MonotypeModel::Function(p, r) => {
            lemma_substitute_commute(*p, u, tu, v, tv);
            lemma_substitute_commute(*r, u, tu, v, tv);
        },
        MonotypeModel::Product(ts) => lemma_substitute_commute_seq(ts, u, tu, v, tv),
        MonotypeModel::Named(_, ts) => lemma_substitute_commute_seq(ts, u, tu, v, tv),
        MonotypeModel::TypeConstructor(_, body) => lemma_substitute_commute(*body, u, tu, v, tv),
        _ => {},
    }
}

proof fn lemma_substitute_commute_seq(s: Seq<MonotypeModel>, u: Seq<char>, tu: MonotypeModel, v: Seq<char>, tv: MonotypeModel)
    requires
        u != v,
        !occurs(tv, u),
        !occurs(tu, v),
    ensures
        spec_substitute_vars(spec_substitute_vars(s, u, tu), v, tv) == spec_substitute_vars(spec_substitute_vars(s, v, tv), u, tu),
    decreases s,
{
    if s.len() > 0 {
        lemma_substitute_commute(s[0], u, tu, v, tv);
        lemma_substitute_commute_seq(s.drop_first(), u, tu, v, tv);
        let su = spec_substitute_vars(s, u, tu);
        let sv = spec_substitute_vars(s, v, tv);
        assert(su[0] == spec_substitute_var(s[0], u, tu));
        assert(su.drop_first() =~= spec_substitute_vars(s.drop_first(), u, tu));
        assert(sv[0] == spec_substitute_var(s[0], v, tv));
        assert(sv.drop_first() =~= spec_substitute_vars(s.drop_first(), v, tv));
    }
}

/// What occurs after a replacement occurred before or in the replacement.
proof fn lemma_occurs_after_substitute(m: MonotypeModel, u: Seq<char>, t: MonotypeModel, b: Seq<char>)
    requires
        !occurs(m, b),
        !occurs(t, b),
    ensures
        !occurs(spec_substitute_var(m, u, t), b),
    decreases m,
{
    match m {
        MonotypeModel::Function(p, r) => {
            lemma_occurs_after_substitute(*p, u, t, b);
            lemma_occurs_after_substitute(*r, u, t, b);
        },
        MonotypeModel::Product(ts) => lemma_occurs_after_substitute_seq(ts, u, t, b),
        MonotypeModel::Named(_, ts) => lemma_occurs_after_substitute_seq(ts, u, t, b),
        MonotypeModel::TypeConstructor(_, body) => lemma_occurs_after_substitute(*body, u, t, b),
        _ => {},
    }
}

proof fn lemma_occurs_after_substitute_seq(s: Seq<MonotypeModel>, u: Seq<char>, t: MonotypeModel, b: Seq<char>)
    requires
        !occurs_in(s, b),
        !occurs(t, b),
    ensures
        !occurs_in(spec_substitute_vars(s, u, t), b),
    decreases s,
{
    if s.len() > 0 {
        lemma_occurs_after_substitute(s[0], u, t, b);
        lemma_occurs_after_substitute_seq(s.drop_first(), u, t, b);
        let su = spec_substitute_vars(s, u, t);
        assert(su[0] == spec_substitute_var(s[0], u, t));
        assert(su.drop_first() =~= spec_substitute_vars(s.drop_first(), u, t));
    }
}

/// A name that occurs neither in `m` nor among the placeholders does not
/// occur after replacing names by placeholders.
proof fn lemma_absent_after_placeholders(m: MonotypeModel, xs: Seq<Seq<char>>, n: nat, k: nat, b: Seq<char>)
    requires
        k <= n,
        !occurs(m, b),
        forall|j: nat| j < k ==> b != #[trigger] placeholder(j),
    ensures
        !occurs(spec_substitute_seq(m, xs, placeholders(n), k), b),
    decreases k,
{
    if k > 0 {
        lemma_absent_after_placeholders(m, xs, n, (k - 1) as nat, b);
        assert(placeholders(n)[k - 1] == MonotypeModel::Variable(placeholder((k - 1) as nat)));
        assert(b != placeholder((k - 1) as nat));
        lemma_occurs_after_substitute(
            spec_substitute_seq(m, xs, placeholders(n), (k - 1) as nat),
            xs[k - 1],
            placeholders(n)[k - 1],
            b,
        );
    }
}

/// Renaming `a` to `b` commutes with replacing the first `k` names of `bs`
/// by placeholders when `a` and `b` differ from those names and `a` from
/// their placeholders.
proof fn lemma_rename_past_placeholders(x: MonotypeModel, a: Seq<char>, b: Seq<char>, bs: Seq<Seq<char>>, n: nat, k: nat)
    requires
        k <= n,
        k <= bs.len(),
        forall|j: int| 0 <= j < k ==> a != #[trigger] bs[j] && b != bs[j] && a != placeholder(j as nat),
    ensures
        spec_substitute_seq(spec_substitute_var(x, a, MonotypeModel::Variable(b)), bs, placeholders(n), k)
            == spec_substitute_var(spec_substitute_seq(x, bs, placeholders(n), k), a, MonotypeModel::Variable(b)),
    decreases k,
{
    if k > 0 {
        lemma_rename_past_placeholders(x, a, b, bs, n, (k - 1) as nat);
        let p = placeholders(n)[k - 1];
        assert(p == MonotypeModel::Variable(placeholder((k - 1) as nat)));
        assert(a != bs[k - 1] && b != bs[k - 1] && a != placeholder((k - 1) as nat));
        lemma_substitute_commute(
            spec_substitute_seq(x, bs, placeholders(n), (k - 1) as nat),
            a,
            MonotypeModel::Variable(b),
            bs[k - 1],
            p,
        );
    }
}

/// Renaming the first `k` variables of `as` to those of `bs`, then the
/// first `k` of `bs` to placeholders, is renaming the first `k` of `as` to
/// placeholders.
proof fn lemma_rename_then_placeholders(m: MonotypeModel, vs: Seq<Seq<char>>, bs: Seq<Seq<char>>, n: nat, k: nat)
    requires
        k <= n,
        vs.len() == n,
        bs.len() == n,
        forall|i: int| 0 <= i < n ==> !occurs(m, #[trigger] bs[i]),
        forall|i: int, j: nat| 0 <= i < n && j < n ==> #[trigger] bs[i] != #[trigger] placeholder(j),
        forall|i: int, j: int|
            0 <= j < i < n ==> #[trigger] vs[i] != #[trigger] bs[j] && vs[i] != placeholder(j as nat) && bs[i] != bs[j],
    ensures
        spec_substitute_seq(spec_substitute_seq(m, vs, variables(bs), k), bs, placeholders(n), k)
            == spec_substitute_seq(m, vs, placeholders(n), k),
    decreases k,
{
    if k > 0 {
        let k1 = (k - 1) as nat;
        lemma_rename_then_placeholders(m, vs, bs, n, k1);
        let a = vs[k - 1];
        let b = bs[k - 1];
        assert(variables(bs)[k - 1] == MonotypeModel::Variable(b));
        let ak1 = spec_substitute_seq(m, vs, variables(bs), k1);
        assert forall|j: int| 0 <= j < k1 implies a != #[trigger] bs[j] && b != bs[j] && a != placeholder(j as nat) by {
            assert(vs[k - 1] != bs[j]);
        }
        lemma_rename_past_placeholders(ak1, a, b, bs, n, k1);
        let rk = spec_substitute_seq(m, vs, placeholders(n), k1);
        assert forall|j: nat| j < k1 implies b != #[trigger] placeholder(j) by {
            assert(bs[k - 1] != placeholder(j));
        }
        lemma_absent_after_placeholders(m, vs, n, k1, b);
        let p = placeholders(n)[k - 1];
        lemma_substitute_through(rk, a, b, p);
    }
}

/// A scheme equals the scheme with its variables renamed to names that do
/// not occur in it: each new name differs from the new names and the old
/// names after it and from the placeholders of the variables, and no old
/// name equals the placeholder of a variable before it.
pub proof fn law_type_eq_rename(m: MonotypeModel, vs: Seq<Seq<char>>, bs: Seq<Seq<char>>)
    requires
        vs.len() == bs.len(),
        constructor_count(m) <= i32::MAX,
        forall|i: int| 0 <= i < bs.len() ==> !occurs(m, #[trigger] bs[i]),
        forall|i: int, j: nat| 0 <= i < bs.len() && j < bs.len() ==> #[trigger] bs[i] != #[trigger] placeholder(j),
        forall|i: int, j: int|
            0 <= j < i < vs.len() ==> #[trigger] vs[i] != #[trigger] bs[j] && vs[i] != placeholder(j as nat) && bs[i] != bs[j],
    ensures
        spec_type_eq(
            TypeModel { vars: vs, monotype: m },
            TypeModel { vars: bs, monotype: spec_substitute_seq(m, vs, variables(bs), vs.len()) },
        ),
{
    let n = vs.len();
    let mb = spec_substitute_seq(m, vs, variables(bs), n);
    lemma_rename_is_substitute_seq(m, vs, n, n);
    lemma_rename_is_substitute_seq(mb, bs, n, n);
    lemma_rename_then_placeholders(m, vs, bs, n, n);
    lemma_rename_vars_count(m, vs, n);
    law_monotype_eq_reflexive(spec_rename_vars(m, vs, n));
}

pub fn copy_names(names: &Vec<String>) -> (copy: Vec<String>)
    ensures
        string_views(copy@) == string_views(names@),
{
    let mut out: Vec<String> = Vec::new();
    let mut i: usize = 0;
    while i < names.len()
        invariant
            i <= names.len(),
            out@ == names@.take(i as int),
        decreases names.len() - i,
    {
        out.push(names[i].clone());
        i += 1;
        assert(out@ =~= names@.take(i as int));
    }
    assert(names@.take(names.len() as int) =~= names@);
    out
}

impl Type {
    pub fn mono(monotype: Monotype) -> (t: Type)
        ensures
            t@ == (TypeModel { vars: Seq::empty(), monotype: monotype@ }),
    {
        let t = Type { vars: Vec::new(), monotype };
        assert(t@.vars =~= Seq::<Seq<char>>::empty());
        t
    }

    pub fn poly(vars: Vec<String>, monotype: Monotype) -> (t: Type)
        ensures
            t@ == (TypeModel { vars: string_views(vars@), monotype: monotype@ }),
    {
        Type { vars, monotype }
    }

    pub fn copy(&self) -> (copy: Type)
        ensures
            copy@ == self@,
    {
        Type { vars: copy_names(&self.vars), monotype: self.monotype.copy() }
    }

    /// The function type from `param_type` to `return_type`, quantified
    /// over the variables of both, in order.
    pub fn function(param_type: &Type, return_type: &Type) -> (t: Type)
        ensures
            t@ == scheme_function(param_type@, return_type@),
            sorted_names(t@.vars),
            t@.vars.to_set() == param_type@.vars.to_set() + return_type@.vars.to_set(),
            t@.monotype == MonotypeModel::Function(
                Box::new(param_type@.monotype),
                Box::new(return_type@.monotype),
            ),
    {
        let mut vars: Vec<String> = Vec::new();
        assert(string_views(vars@).to_set() =~= Set::<Seq<char>>::empty());
        insert_names(&mut vars, &param_type.vars);
        insert_names(&mut vars, &return_type.vars);
        let t = Type {
            vars,
            monotype: Monotype::function(param_type.monotype.copy(), return_type.monotype.copy()),
        };
        assert(t@.vars.to_set() =~= param_type@.vars.to_set() + return_type@.vars.to_set());
        proof {
            lemma_sorted_of(t@.vars);
        }
        t
    }

    /// The product of `types`, quantified over all their variables, in order.
    pub fn product(types: &Vec<Type>) -> (t: Type)
        ensures
            t@ == scheme_product(type_views(types@)),
            sorted_names(t@.vars),
            t@.vars.to_set() == vars_of_all(type_views(types@)),
            t@.monotype == MonotypeModel::Product(
                type_views(types@).map_values(|t: TypeModel| t.monotype),
            ),
    {
        let mut vars: Vec<String> = Vec::new();
        let mut monotypes: Vec<Monotype> = Vec::new();
        assert(string_views(vars@).to_set() =~= Set::<Seq<char>>::empty());
        let mut i: usize = 0;
        while i < types.len()
            invariant
                i <= types.len(),
                sorted_names(string_views(vars@)),
                string_views(vars@).to_set() == vars_of_all(type_views(types@.take(i as int))),
                monotypes@.len() == i,
                forall|j: int| 0 <= j < i ==> #[trigger] monotypes@[j]@ == types@[j].monotype@,
            decreases types.len() - i,
        {
            insert_names(&mut vars, &types[i].vars);
            monotypes.push(types[i].monotype.copy());
            proof {
                let prev = type_views(types@.take(i as int));
                let next = type_views(types@.take(i + 1));
                assert(next.drop_last() =~= prev);
                assert(next.last() == types@[i as int]@);
            }
            i += 1;
        }
        proof {
            assert(types@.take(types.len() as int) =~= types@);
            lemma_monotype_views_eq(
                monotypes@,
                type_views(types@).map_values(|t: TypeModel| t.monotype),
            );
            lemma_sorted_of(string_views(vars@));
        }
        Type { vars, monotype: Monotype::Product(monotypes) }
    }
}

impl PartialEq for Type {
    fn eq(&self, other: &Self) -> (eq: bool) {
        if self.vars.len() != other.vars.len() {
            return false;
        }
        let mut monotype_1 = self.monotype.copy();
        let mut monotype_2 = other.monotype.copy();
        let mut i: usize = 0;
        while i < self.vars.len()
            invariant
                i <= self.vars.len(),
                self.vars.len() == other.vars.len(),
                monotype_1@ == spec_rename_vars(self@.monotype, self@.vars, i as nat),
                monotype_2@ == spec_rename_vars(other@.monotype, other@.vars, i as nat),
            decreases self.vars.len() - i,
        {
            let mut name = string_from("$var");
            let digits = crate::util::usize_to_decimal(i);
            name.append(digits.as_str());
            proof {
                reveal_strlit("$var");
                assert(name@ == var_prefix() + crate::util::spec_decimal(i as nat));
            }
            let substitute = Monotype::Variable(name);
            assert(substitute@ == MonotypeModel::Variable(var_prefix() + crate::util::spec_decimal(i as nat)));
            monotype_1 = monotype_1.substitute_var(self.vars[i].as_str(), &substitute);
            monotype_2 = monotype_2.substitute_var(other.vars[i].as_str(), &substitute);
            proof {
                assert(self@.vars[i as int] == self.vars@[i as int]@);
                assert(other@.vars[i as int] == other.vars@[i as int]@);
            }
            i += 1;
        }
        monotype_1 == monotype_2
    }
}

impl vstd::std_specs::cmp::PartialEqSpecImpl for Type {
    open spec fn obeys_eq_spec() -> bool {
        true
    }

    open spec fn eq_spec(&self, other: &Self) -> bool {
        spec_type_eq(self@, other@)
    }
}

// --- data constructor ---

/// A constructor of a sum type: its tag and the type expressions of its fields.
pub struct DataConstructor {
    pub tag: String,
    pub types: Vec<crate::parser::core_expr::CoreAtomicTypeExpr>,
}

impl View for DataConstructor {
    type V = crate::parser::core_expr::DataConstructorModel;

    open spec fn view(&self) -> crate::parser::core_expr::DataConstructorModel {
        crate::parser::core_expr::DataConstructorModel {
            tag: self.tag@,
            types: crate::parser::core_expr::atomic_type_expr_views(self.types@),
        }
    }
}

// --- kinds ---

/// The kind of a monotype: a type constructor takes a type to the kind of
/// its body; every other monotype is a type.
pub open spec fn spec_kind_of(m: MonotypeModel) -> Kind
    decreases m,
{
    match m {
        MonotypeModel::TypeConstructor(_, t) => Kind::Function(
            Box::new(Kind::Type),
            Box::new(spec_kind_of(*t)),
        ),
        _ => Kind::Type,
    }
}

pub fn kind_of(monotype: &Monotype) -> (kind: Kind)
    ensures
        kind == spec_kind_of(monotype@),
    decreases monotype,
{
    match monotype {
        Monotype::TypeConstructor(_, t) => Kind::Function(Box::new(Kind::Type), Box::new(kind_of(t))),
        _ => Kind::Type,
    }
}

} // verus!
