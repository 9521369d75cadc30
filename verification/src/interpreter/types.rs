//! The interpreter's types: functions, the primitive types, products and
//! sums of data constructors.

use vstd::prelude::*;

use crate::interpreter::kind::Kind;
use crate::static_check::types::str_eq;

verus! {

// --- types ---

pub enum Type {
    Function(Box<Type>, Box<Type>),
    Int32,
    Float32,
    Product(Vec<Type>),
    Sum(Vec<DataConstructor>),
}

/// A data constructor of a sum type: its tag and the types of its fields.
pub struct DataConstructor {
    pub tag: String,
    pub types: Vec<Type>,
}

pub enum TypeModel {
    Function(Box<TypeModel>, Box<TypeModel>),
    Int32,
    Float32,
    Product(Seq<TypeModel>),
    Sum(Seq<CtorModel>),
}

pub struct CtorModel {
    pub tag: Seq<char>,
    pub types: Seq<TypeModel>,
}

pub open spec fn type_view(t: Type) -> TypeModel
    decreases t,
{
    match t {
        Type::Function(p, r) => TypeModel::Function(Box::new(type_view(*p)), Box::new(type_view(*r))),
        Type::Int32 => TypeModel::Int32,
        Type::Float32 => TypeModel::Float32,
        Type::Product(ts) => TypeModel::Product(type_views(ts@)),
        Type::Sum(cs) => TypeModel::Sum(ctor_views(cs@)),
    }
}

pub open spec fn ctor_view(c: DataConstructor) -> CtorModel
    decreases c,
{
    CtorModel { tag: c.tag@, types: type_views(c.types@) }
}

pub open spec fn type_views(s: Seq<Type>) -> Seq<TypeModel>
    decreases s,
{
    if s.len() == 0 {
        Seq::empty()
    } else {
        type_views(s.drop_last()).push(type_view(s.last()))
    }
}

pub open spec fn ctor_views(s: Seq<DataConstructor>) -> Seq<CtorModel>
    decreases s,
{
    if s.len() == 0 {
        Seq::empty()
    } else {
        ctor_views(s.drop_last()).push(ctor_view(s.last()))
    }
}

impl View for Type {
    type V = TypeModel;

    open spec fn view(&self) -> TypeModel {
        type_view(*self)
    }
}

impl View for DataConstructor {
    type V = CtorModel;

    open spec fn view(&self) -> CtorModel {
        ctor_view(*self)
    }
}

pub proof fn lemma_type_views(s: Seq<Type>)
    ensures
        type_views(s).len() == s.len(),
        forall|i: int| 0 <= i < s.len() ==> #[trigger] type_views(s)[i] == type_view(s[i]),
    decreases s.len(),
{
    if s.len() > 0 {
        lemma_type_views(s.drop_last());
    }
}

pub proof fn lemma_ctor_views(s: Seq<DataConstructor>)
    ensures
        ctor_views(s).len() == s.len(),
        forall|i: int| 0 <= i < s.len() ==> #[trigger] ctor_views(s)[i] == ctor_view(s[i]),
    decreases s.len(),
{
    if s.len() > 0 {
        lemma_ctor_views(s.drop_last());
    }
}

impl Type {
    /// The function type from `param_type` to `return_type`.
    pub fn function(param_type: Type, return_type: Type) -> (t: Type)
        ensures
            t@ == TypeModel::Function(Box::new(param_type@), Box::new(return_type@)),
    {
        Type::Function(Box::new(param_type), Box::new(return_type))
    }

    /// A copy of the type.
    pub fn copy(&self) -> (c: Type)
        ensures
            c@ == self@,
        decreases self,
    {
        match self {
            Type::Function(p, r) => Type::Function(Box::new(p.copy()), Box::new(r.copy())),
            Type::Int32 => Type::Int32,
            Type::Float32 => Type::Float32,
            Type::Product(ts) => Type::Product(copy_types(ts)),
            Type::Sum(cs) => Type::Sum(copy_ctors(cs)),
        }
    }
}

fn copy_types(ts: &Vec<Type>) -> (r: Vec<Type>)
    ensures
        type_views(r@) == type_views(ts@),
    decreases ts,
{
    let mut out: Vec<Type> = Vec::new();
    let mut i: usize = 0;
    proof {
        lemma_type_views(ts@);
    }
    while i < ts.len()
        invariant
            i <= ts.len(),
            type_views(ts@).len() == ts.len(),
            forall|j: int| 0 <= j < ts.len() ==> #[trigger] type_views(ts@)[j] == ts@[j]@,
            type_views(out@) == type_views(ts@).take(i as int),
        decreases ts.len() - i,
    {
        proof {
            assert(decreases_to!(*ts => ts@));
            assert(decreases_to!(ts@ => ts@[i as int]));
        }
        let c = ts[i].copy();
        let ghost before = out@;
        out.push(c);
        proof {
            assert(out@.drop_last() =~= before);
            assert(type_views(out@) =~= type_views(ts@).take(i + 1));
        }
        i += 1;
    }
    proof {
        assert(type_views(ts@).take(i as int) =~= type_views(ts@));
    }
    out
}

fn copy_ctors(cs: &Vec<DataConstructor>) -> (r: Vec<DataConstructor>)
    ensures
        ctor_views(r@) == ctor_views(cs@),
    decreases cs,
{
    let mut out: Vec<DataConstructor> = Vec::new();
    let mut i: usize = 0;
    proof {
        lemma_ctor_views(cs@);
    }
    while i < cs.len()
        invariant
            i <= cs.len(),
            ctor_views(cs@).len() == cs.len(),
            forall|j: int| 0 <= j < cs.len() ==> #[trigger] ctor_views(cs@)[j] == cs@[j]@,
            ctor_views(out@) == ctor_views(cs@).take(i as int),
        decreases cs.len() - i,
    {
        proof {
            assert(decreases_to!(*cs => cs@));
            assert(decreases_to!(cs@ => cs@[i as int]));
            assert(decreases_to!(cs@[i as int] => cs@[i as int].types));
        }
        let c = DataConstructor { tag: cs[i].tag.clone(), types: copy_types(&cs[i].types) };
        proof {
            assert(c@ == cs@[i as int]@);
        }
        let ghost before = out@;
        out.push(c);
        proof {
            assert(out@.drop_last() =~= before);
            assert(ctor_views(out@) =~= ctor_views(cs@).take(i + 1));
        }
        i += 1;
    }
    proof {
        assert(ctor_views(cs@).take(i as int) =~= ctor_views(cs@));
    }
    out
}

// --- functions ---

/// The type of a function from the field types, in order, to the return
/// type.
pub open spec fn spec_nest_function_types(ts: Seq<TypeModel>, ret: TypeModel) -> TypeModel
    decreases ts.len(),
{
    if ts.len() == 0 {
        ret
    } else {
        TypeModel::Function(Box::new(ts[0]), Box::new(spec_nest_function_types(ts.drop_first(), ret)))
    }
}

pub fn nest_function_types(field_types: &Vec<Type>, return_type: Type) -> (t: Type)
    ensures
        t@ == spec_nest_function_types(type_views(field_types@), return_type@),
{
    let ghost tv = type_views(field_types@);
    let mut acc = return_type;
    let mut i: usize = field_types.len();
    proof {
        lemma_type_views(field_types@);
        assert(tv.skip(tv.len() as int) =~= Seq::<TypeModel>::empty());
    }
    while i > 0
        invariant
            i <= field_types.len(),
            tv == type_views(field_types@),
            tv.len() == field_types.len(),
            forall|j: int| 0 <= j < field_types.len() ==> #[trigger] tv[j] == field_types@[j]@,
            acc@ == spec_nest_function_types(tv.skip(i as int), return_type@),
        decreases i,
    {
        proof {
            assert(tv.skip(i - 1)[0] == tv[i - 1]);
            assert(tv.skip(i - 1).drop_first() =~= tv.skip(i as int));
        }
        acc = Type::function(field_types[i - 1].copy(), acc);
        i -= 1;
    }
    proof {
        assert(tv.skip(0) =~= tv);
    }
    acc
}

pub open spec fn spec_kind_of(t: TypeModel) -> Kind {
    match t {
        TypeModel::Function(_, _) => Kind::Function(
            Box::new(Kind::Type),
            Box::new(Kind::Function(Box::new(Kind::Type), Box::new(Kind::Type))),
        ),
        _ => Kind::Type,
    }
}

/// The kind of a type: that of a binary type constructor for a function
/// type, that of a type otherwise.
pub fn kind_of(ty: &Type) -> (k: Kind)
    ensures
        k == spec_kind_of(ty@),
{
    match ty {
        Type::Function(_, _) => Kind::Function(
            Box::new(Kind::Type),
            Box::new(Kind::Function(Box::new(Kind::Type), Box::new(Kind::Type))),
        ),
        _ => Kind::Type,
    }
}


// --- equality ---

pub open spec fn type_size(t: TypeModel) -> nat
    decreases t,
{
    match t {
        TypeModel::Function(p, r) => 1 + type_size(*p) + type_size(*r),
        TypeModel::Product(ts) => 1 + type_sizes(ts),
        TypeModel::Sum(cs) => 1 + ctor_sizes(cs),
        _ => 1,
    }
}

pub open spec fn type_sizes(s: Seq<TypeModel>) -> nat
    decreases s,
{
    if s.len() == 0 {
        0
    } else {
        type_sizes(s.drop_last()) + type_size(s.last())
    }
}

pub open spec fn ctor_sizes(s: Seq<CtorModel>) -> nat
    decreases s,
{
    if s.len() == 0 {
        0
    } else {
        ctor_sizes(s.drop_last()) + 1 + type_sizes(s.last().types)
    }
}

/// Equality of types: functions, primitive types and products part by
/// part; sums as sets of data constructors, each of the one equal to one of
/// the other.
pub open spec fn spec_type_eq(a: TypeModel, b: TypeModel) -> bool
    decreases type_size(a) + type_size(b), 0int,
{
    match (a, b) {
        (TypeModel::Function(p1, r1), TypeModel::Function(p2, r2)) => spec_type_eq(*p1, *p2) && spec_type_eq(*r1, *r2),
        (TypeModel::Int32, TypeModel::Int32) => true,
        (TypeModel::Float32, TypeModel::Float32) => true,
        (TypeModel::Product(ts1), TypeModel::Product(ts2)) => spec_types_eq(ts1, ts2),
        (TypeModel::Sum(cs1), TypeModel::Sum(cs2)) => ctors_covered(cs1, cs2) && ctors_covered(cs2, cs1),
        _ => false,
    }
}

/// Pairwise equality of two sequences of types.
pub open spec fn spec_types_eq(a: Seq<TypeModel>, b: Seq<TypeModel>) -> bool
    decreases type_sizes(a) + type_sizes(b), 1int,
{
    proof {
        if a.len() > 0 {
            assert(type_size(a.last()) >= 1);
        }
    }
    a.len() == b.len() && (a.len() == 0 || (spec_types_eq(a.drop_last(), b.drop_last()) && spec_type_eq(
        a.last(),
        b.last(),
    )))
}

/// Equality of data constructors: the same tag and equal field types.
pub open spec fn ctor_eq(a: CtorModel, b: CtorModel) -> bool
    decreases 1 + type_sizes(a.types) + 1 + type_sizes(b.types), 2int,
{
    a.tag == b.tag && spec_types_eq(a.types, b.types)
}

/// Whether `cs` holds a constructor equal to `c`.
pub open spec fn ctor_in(c: CtorModel, cs: Seq<CtorModel>) -> bool
    decreases 1 + type_sizes(c.types) + ctor_sizes(cs), 3int,
{
    cs.len() > 0 && (ctor_eq(c, cs.last()) || ctor_in(c, cs.drop_last()))
}

/// Whether each constructor of `a` has an equal one in `b`.
pub open spec fn ctors_covered(a: Seq<CtorModel>, b: Seq<CtorModel>) -> bool
    decreases ctor_sizes(a) + ctor_sizes(b), 4int,
{
    a.len() == 0 || (ctors_covered(a.drop_last(), b) && ctor_in(a.last(), b))
}


pub proof fn lemma_types_eq_pairwise(a: Seq<TypeModel>, b: Seq<TypeModel>)
    ensures
        spec_types_eq(a, b) <==> (a.len() == b.len() && forall|i: int| 0 <= i < a.len() ==> #[trigger] spec_type_eq(a[i], b[i])),
    decreases a.len(),
{
    if a.len() > 0 && a.len() == b.len() {
        lemma_types_eq_pairwise(a.drop_last(), b.drop_last());
        if spec_types_eq(a, b) {
            assert forall|i: int| 0 <= i < a.len() implies #[trigger] spec_type_eq(a[i], b[i]) by {
                if i < a.len() - 1 {
                    assert(a.drop_last()[i] == a[i]);
                    assert(b.drop_last()[i] == b[i]);
                }
            }
        }
        if forall|i: int| 0 <= i < a.len() ==> #[trigger] spec_type_eq(a[i], b[i]) {
            assert forall|i: int| 0 <= i < a.drop_last().len() implies #[trigger] spec_type_eq(a.drop_last()[i], b.drop_last()[i]) by {
                assert(spec_type_eq(a[i], b[i]));
            }
            assert(spec_type_eq(a[a.len() - 1], b[b.len() - 1]));
        }
    }
}

pub proof fn lemma_ctor_in_exists(c: CtorModel, cs: Seq<CtorModel>)
    ensures
        ctor_in(c, cs) <==> exists|j: int| 0 <= j < cs.len() && #[trigger] ctor_eq(c, cs[j]),
    decreases cs.len(),
{
    if cs.len() > 0 {
        lemma_ctor_in_exists(c, cs.drop_last());
        if exists|j: int| 0 <= j < cs.len() && #[trigger] ctor_eq(c, cs[j]) {
            let j = choose|j: int| 0 <= j < cs.len() && #[trigger] ctor_eq(c, cs[j]);
            if j < cs.len() - 1 {
                assert(cs.drop_last()[j] == cs[j]);
            }
        }
        if ctor_in(c, cs.drop_last()) {
            let j = choose|j: int| 0 <= j < cs.drop_last().len() && #[trigger] ctor_eq(c, cs.drop_last()[j]);
            assert(cs[j] == cs.drop_last()[j]);
        }
        if ctor_eq(c, cs.last()) {
            assert(ctor_eq(c, cs[cs.len() - 1]));
        }
    }
}

pub proof fn lemma_ctors_covered_all(a: Seq<CtorModel>, b: Seq<CtorModel>)
    ensures
        ctors_covered(a, b) <==> forall|i: int| 0 <= i < a.len() ==> #[trigger] ctor_in(a[i], b),
    decreases a.len(),
{
    if a.len() > 0 {
        lemma_ctors_covered_all(a.drop_last(), b);
        if ctors_covered(a, b) {
            assert forall|i: int| 0 <= i < a.len() implies #[trigger] ctor_in(a[i], b) by {
                if i < a.len() - 1 {
                    assert(a.drop_last()[i] == a[i]);
                }
            }
        }
        if forall|i: int| 0 <= i < a.len() ==> #[trigger] ctor_in(a[i], b) {
            assert forall|i: int| 0 <= i < a.drop_last().len() implies #[trigger] ctor_in(a.drop_last()[i], b) by {
                assert(ctor_in(a[i], b));
            }
            assert(ctor_in(a[a.len() - 1], b));
        }
    }
}

pub proof fn lemma_type_sizes_element(s: Seq<TypeModel>, i: int)
    requires
        0 <= i < s.len(),
    ensures
        type_size(s[i]) <= type_sizes(s),
    decreases s.len(),
{
    if i < s.len() - 1 {
        lemma_type_sizes_element(s.drop_last(), i);
        assert(s.drop_last()[i] == s[i]);
    }
}

pub proof fn lemma_ctor_sizes_element(s: Seq<CtorModel>, i: int)
    requires
        0 <= i < s.len(),
    ensures
        1 + type_sizes(s[i].types) <= ctor_sizes(s),
    decreases s.len(),
{
    if i < s.len() - 1 {
        lemma_ctor_sizes_element(s.drop_last(), i);
        assert(s.drop_last()[i] == s[i]);
    }
}

fn type_eq(a: &Type, b: &Type) -> (r: bool)
    ensures
        r == spec_type_eq(a@, b@),
    decreases type_size(a@) + type_size(b@), 0int,
{
    match (a, b) {
        (Type::Function(p1, r1), Type::Function(p2, r2)) => type_eq(p1, p2) && type_eq(r1, r2),
        (Type::Int32, Type::Int32) => true,
        (Type::Float32, Type::Float32) => true,
        (Type::Product(ts1), Type::Product(ts2)) => types_eq(ts1, ts2),
        (Type::Sum(cs1), Type::Sum(cs2)) => ctors_covered_by(cs1, cs2) && ctors_covered_by(cs2, cs1),
        _ => false,
    }
}

fn types_eq(a: &Vec<Type>, b: &Vec<Type>) -> (r: bool)
    ensures
        r == spec_types_eq(type_views(a@), type_views(b@)),
    decreases type_sizes(type_views(a@)) + type_sizes(type_views(b@)), 1int,
{
    let ghost va = type_views(a@);
    let ghost vb = type_views(b@);
    proof {
        lemma_type_views(a@);
        lemma_type_views(b@);
        lemma_types_eq_pairwise(va, vb);
    }
    if a.len() != b.len() {
        return false;
    }
    let mut i: usize = 0;
    while i < a.len()
        invariant
            i <= a.len(),
            a.len() == b.len(),
            va == type_views(a@),
            vb == type_views(b@),
            va.len() == a.len(),
            vb.len() == b.len(),
            forall|j: int| 0 <= j < a.len() ==> #[trigger] va[j] == a@[j]@,
            forall|j: int| 0 <= j < b.len() ==> #[trigger] vb[j] == b@[j]@,
            forall|j: int| 0 <= j < i ==> #[trigger] spec_type_eq(va[j], vb[j]),
        decreases a.len() - i,
    {
        proof {
            lemma_type_sizes_element(va, i as int);
            lemma_type_sizes_element(vb, i as int);
        }
        if !type_eq(&a[i], &b[i]) {
            proof {
                assert(!spec_type_eq(va[i as int], vb[i as int]));
                lemma_types_eq_pairwise(va, vb);
            }
            return false;
        }
        i += 1;
    }
    true
}

fn ctor_eq_exec(a: &DataConstructor, b: &DataConstructor) -> (r: bool)
    ensures
        r == ctor_eq(a@, b@),
    decreases 1 + type_sizes(a@.types) + 1 + type_sizes(b@.types), 2int,
{
    str_eq(a.tag.as_str(), b.tag.as_str()) && types_eq(&a.types, &b.types)
}

fn ctor_in_exec(c: &DataConstructor, cs: &Vec<DataConstructor>) -> (r: bool)
    ensures
        r == ctor_in(c@, ctor_views(cs@)),
    decreases 1 + type_sizes(c@.types) + ctor_sizes(ctor_views(cs@)), 3int,
{
    let ghost v = ctor_views(cs@);
    proof {
        lemma_ctor_views(cs@);
        lemma_ctor_in_exists(c@, v);
    }
    let mut j: usize = 0;
    while j < cs.len()
        invariant
            j <= cs.len(),
            v == ctor_views(cs@),
            v.len() == cs.len(),
            forall|k: int| 0 <= k < cs.len() ==> #[trigger] v[k] == cs@[k]@,
            forall|k: int| 0 <= k < j ==> !#[trigger] ctor_eq(c@, v[k]),
        decreases cs.len() - j,
    {
        proof {
            lemma_ctor_sizes_element(v, j as int);
        }
        if ctor_eq_exec(c, &cs[j]) {
            proof {
                assert(ctor_eq(c@, v[j as int]));
                lemma_ctor_in_exists(c@, v);
            }
            return true;
        }
        j += 1;
    }
    false
}

fn ctors_covered_by(a: &Vec<DataConstructor>, b: &Vec<DataConstructor>) -> (r: bool)
    ensures
        r == ctors_covered(ctor_views(a@), ctor_views(b@)),
    decreases ctor_sizes(ctor_views(a@)) + ctor_sizes(ctor_views(b@)), 4int,
{
    let ghost va = ctor_views(a@);
    proof {
        lemma_ctor_views(a@);
        lemma_ctors_covered_all(va, ctor_views(b@));
    }
    let mut i: usize = 0;
    while i < a.len()
        invariant
            i <= a.len(),
            va == ctor_views(a@),
            va.len() == a.len(),
            forall|k: int| 0 <= k < a.len() ==> #[trigger] va[k] == a@[k]@,
            forall|k: int| 0 <= k < i ==> #[trigger] ctor_in(va[k], ctor_views(b@)),
        decreases a.len() - i,
    {
        proof {
            lemma_ctor_sizes_element(va, i as int);
        }
        if !ctor_in_exec(&a[i], b) {
            proof {
                assert(!ctor_in(va[i as int], ctor_views(b@)));
                lemma_ctors_covered_all(va, ctor_views(b@));
            }
            return false;
        }
        i += 1;
    }
    true
}

impl PartialEq for Type {
    fn eq(&self, other: &Self) -> (r: bool) {
        type_eq(self, other)
    }
}

impl vstd::std_specs::cmp::PartialEqSpecImpl for Type {
    open spec fn obeys_eq_spec() -> bool {
        true
    }

    open spec fn eq_spec(&self, other: &Self) -> bool {
        spec_type_eq(self@, other@)
    }
}


/// The equality of types (`==`) is reflexive.
pub proof fn law_type_eq_reflexive(t: TypeModel)
    ensures
        spec_type_eq(t, t),
    decreases t,
{
    match t {
        TypeModel::Function(p, r) => {
            law_type_eq_reflexive(*p);
            law_type_eq_reflexive(*r);
        },
        TypeModel::Product(ts) => {
            assert forall|i: int| 0 <= i < ts.len() implies #[trigger] spec_type_eq(ts[i], ts[i]) by {
                law_type_eq_reflexive(ts[i]);
            }
            lemma_types_eq_pairwise(ts, ts);
        },
        TypeModel::Sum(cs) => {
            assert forall|i: int| 0 <= i < cs.len() implies #[trigger] ctor_in(cs[i], cs) by {
                assert forall|k: int| 0 <= k < cs[i].types.len() implies #[trigger] spec_type_eq(
                    cs[i].types[k],
                    cs[i].types[k],
                ) by {
                    law_type_eq_reflexive(cs[i].types[k]);
                }
                lemma_types_eq_pairwise(cs[i].types, cs[i].types);
                assert(ctor_eq(cs[i], cs[i]));
                lemma_ctor_in_exists(cs[i], cs);
            }
            lemma_ctors_covered_all(cs, cs);
        },
        _ => {},
    }
}

/// The equality of types (`==`) is symmetric.
pub proof fn law_type_eq_symmetric(a: TypeModel, b: TypeModel)
    ensures
        spec_type_eq(a, b) == spec_type_eq(b, a),
    decreases a,
{
    match (a, b) {
        (TypeModel::Function(p1, r1), TypeModel::Function(p2, r2)) => {
            law_type_eq_symmetric(*p1, *p2);
            law_type_eq_symmetric(*r1, *r2);
        },
        (TypeModel::Product(ts1), TypeModel::Product(ts2)) => {
            lemma_types_eq_pairwise(ts1, ts2);
            lemma_types_eq_pairwise(ts2, ts1);
            if ts1.len() == ts2.len() {
                assert forall|i: int| 0 <= i < ts1.len() implies #[trigger] spec_type_eq(ts1[i], ts2[i]) == spec_type_eq(
                    ts2[i],
                    ts1[i],
                ) by {
                    law_type_eq_symmetric(ts1[i], ts2[i]);
                }
                if spec_types_eq(ts1, ts2) {
                    assert forall|i: int| 0 <= i < ts2.len() implies #[trigger] spec_type_eq(ts2[i], ts1[i]) by {
                        assert(spec_type_eq(ts1[i], ts2[i]));
                    }
                }
                if spec_types_eq(ts2, ts1) {
                    assert forall|i: int| 0 <= i < ts1.len() implies #[trigger] spec_type_eq(ts1[i], ts2[i]) by {
                        assert(spec_type_eq(ts2[i], ts1[i]));
                    }
                }
            }
        },
        (TypeModel::Sum(cs1), TypeModel::Sum(cs2)) => {
            assert(spec_type_eq(a, b) == (ctors_covered(cs1, cs2) && ctors_covered(cs2, cs1)));
            assert(spec_type_eq(b, a) == (ctors_covered(cs2, cs1) && ctors_covered(cs1, cs2)));
        },
        _ => {},
    }
}

} // verus!
