//! The type checks of a program: substitutions of type variables,
//! unification, and the types of expressions and declarations.

use vstd::prelude::*;

use crate::error::ErrorKind;
use crate::error::ErrorModel;
use crate::error::FogError;
use crate::error::FogResult;
use crate::error::Span;
use crate::parser::LiteralModel;
use crate::parser::core_expr::ArmPatternModel;
use crate::parser::core_expr::AtomicTypeExprModel;
use crate::parser::core_expr::CoreDeclPatternModel;
use crate::parser::core_expr::CoreExprModel;
use crate::parser::core_expr::CoreMatchArmModel;
use crate::parser::core_expr::CoreStatementModel;
use crate::parser::core_expr::DataConstructorModel;
use crate::parser::core_expr::TuplePatternModel;
use crate::parser::core_expr::TypeExprModel;
use crate::parser::core_text::core_decl_pattern_text;
use crate::parser::core_text::core_expr_text;
use crate::lexer::chars::spec_is_uppercase;
use crate::static_check::environment::EnvModel;
use crate::static_check::environment::empty_scope;
use crate::static_check::environment::lookup_var;
use crate::static_check::environment::spec_annotate_kind;
use crate::static_check::environment::spec_annotate_type;
use crate::static_check::environment::spec_declare_type;
use crate::static_check::environment::spec_declare_var;
use crate::static_check::environment::var_not_found;
use crate::static_check::eval::spec_eval_atomic_type_expr;
use crate::static_check::eval::spec_eval_atomic_type_exprs;
use crate::static_check::eval::spec_eval_kind_expr;
use crate::static_check::eval::spec_eval_type_expr;
use crate::static_check::type_text::monotype_text;
use crate::static_check::types::TypeModel;
use crate::static_check::types::scheme_function;
use crate::static_check::types::spec_kind_of;
use crate::util::spec_decimal;
use crate::static_check::types::Monotype;
use crate::static_check::types::MonotypeModel;
use crate::static_check::types::lemma_monotype_views;
use crate::static_check::types::monotype_views;
use crate::static_check::types::spec_monotype_eq;
use crate::static_check::types::spec_eq_monotype;
use crate::static_check::types::spec_eq_monotypes;
use crate::static_check::types::constructor_count;
use crate::static_check::types::constructor_counts;
use crate::static_check::types::law_monotype_eq_reflexive;
use crate::static_check::types::str_eq;
use crate::util::string_from;
use crate::util::usize_to_decimal;
use crate::parser::Literal;
use crate::builtins::builtin_type_entries;
use crate::builtins::builtin_variable_entries;
use crate::builtins::get_static_check_types;
use crate::builtins::get_static_check_variables;
use crate::builtins::type_var_entry;
use crate::builtins::value_var_entry;
use crate::static_check::environment::ScopeModel;
use crate::static_check::environment::TypeVarModel;
use crate::static_check::environment::VarModel;
use crate::static_check::environment::type_var_model;
use crate::static_check::variable::TypeVariable;
use crate::static_check::variable::ValueVariable;
use crate::error::error_views;
use crate::parser::core_expr::CoreMatchArm;
use crate::parser::core_expr::CoreStatement;
use crate::parser::core_expr::core_expr_views;
use crate::parser::core_expr::core_match_arm_views;
use crate::parser::core_expr::core_statement_views;
use crate::parser::core_expr::lemma_core_expr_views;
use crate::parser::core_expr::lemma_core_match_arm_views;
use crate::parser::core_expr::lemma_core_statement_views;
use crate::static_check::eval::eval_kind_expr;
use crate::parser::core_expr::CoreAtomicTypeExpr;
use crate::parser::core_expr::CoreTypeExpr;
use crate::static_check::eval::eval_atomic_type_expr;
use crate::static_check::eval::eval_atomic_type_exprs;
use crate::static_check::eval::eval_type_expr;
use crate::static_check::eval::static_ctor_views;
use crate::static_check::types::DataConstructor;
use crate::static_check::types::kind_of;
use crate::static_check::types::type_views;
use crate::util::string_views;
use crate::parser::core_expr::CoreDeclPattern;
use crate::parser::core_expr::CoreExpr;
use crate::parser::core_expr::CoreMatchArmPattern;
use crate::parser::core_expr::CoreTupleDeclPattern;
use crate::parser::core_expr::arm_pattern_views;
use crate::parser::core_expr::lemma_arm_pattern_views;
use crate::parser::core_expr::lemma_tuple_pattern_views;
use crate::parser::core_expr::tuple_pattern_views;
use crate::lexer::chars::is_uppercase;
use crate::static_check::environment::Environment;
use crate::static_check::types::Type;

verus! {

pub open spec fn static_error(message: Seq<char>, span: Option<Span>) -> ErrorModel {
    ErrorModel { kind: ErrorKind::StaticCheck, message, span }
}

// --- substitutions of type variables ---

/// What a type variable stands for, by name.
pub type SubstModel = Map<Seq<char>, MonotypeModel>;

/// The bindings of a substitution, the later of two for one name winning.
pub open spec fn subst_map(pairs: Seq<(String, Monotype)>) -> SubstModel
    decreases pairs.len(),
{
    if pairs.len() == 0 {
        Map::empty()
    } else {
        subst_map(pairs.drop_last()).insert(pairs.last().0@, pairs.last().1@)
    }
}

pub proof fn lemma_subst_map_finite(pairs: Seq<(String, Monotype)>)
    ensures
        subst_map(pairs).dom().finite(),
    decreases pairs.len(),
{
    if pairs.len() > 0 {
        lemma_subst_map_finite(pairs.drop_last());
    }
}

/// A substitution of type variables: pairs of a name and a monotype.
pub struct TypeVarSubst {
    pairs: Vec<(String, Monotype)>,
}

impl View for TypeVarSubst {
    type V = SubstModel;

    closed spec fn view(&self) -> SubstModel {
        subst_map(self.pairs@)
    }
}

impl TypeVarSubst {
    /// The empty substitution.
    pub fn new() -> (s: TypeVarSubst)
        ensures
            s@ == Map::<Seq<char>, MonotypeModel>::empty(),
    {
        TypeVarSubst { pairs: Vec::new() }
    }

    pub proof fn lemma_finite(&self)
        ensures
            self@.dom().finite(),
    {
        lemma_subst_map_finite(self.pairs@);
    }

    /// What `name` stands for, if anything.
    pub fn get(&self, name: &str) -> (r: Option<&Monotype>)
        ensures
            match r {
                Some(t) => self@.contains_key(name@) && self@[name@] == t@,
                None => !self@.contains_key(name@),
            },
    {
        let mut i: usize = self.pairs.len();
        proof {
            assert(self.pairs@.take(self.pairs.len() as int) =~= self.pairs@);
        }
        while i > 0
            invariant
                i <= self.pairs.len(),
                subst_map(self.pairs@).contains_key(name@) == subst_map(self.pairs@.take(i as int)).contains_key(
                    name@,
                ),
                subst_map(self.pairs@).contains_key(name@) ==> subst_map(self.pairs@)[name@] == subst_map(
                    self.pairs@.take(i as int),
                )[name@],
            decreases i,
        {
            proof {
                assert(self.pairs@.take(i as int).drop_last() =~= self.pairs@.take(i - 1));
            }
            if str_eq(self.pairs[i - 1].0.as_str(), name) {
                return Some(&self.pairs[i - 1].1);
            }
            i -= 1;
        }
        None
    }

    /// Binds `name` to `ty`, in place of what it stood for.
    pub fn insert(&mut self, name: String, ty: Monotype)
        ensures
            final(self)@ == old(self)@.insert(name@, ty@),
    {
        self.pairs.push((name, ty));
        proof {
            assert(self.pairs@.drop_last() =~= old(self).pairs@);
        }
    }

    /// The substitution without the binding of `name`.
    pub fn without(&self, name: &str) -> (r: TypeVarSubst)
        ensures
            r@ == self@.remove(name@),
    {
        let mut pairs: Vec<(String, Monotype)> = Vec::new();
        let mut i: usize = 0;
        proof {
            assert(subst_map(pairs@) =~= subst_map(self.pairs@.take(0)).remove(name@));
        }
        while i < self.pairs.len()
            invariant
                i <= self.pairs.len(),
                subst_map(pairs@) == subst_map(self.pairs@.take(i as int)).remove(name@),
            decreases self.pairs.len() - i,
        {
            proof {
                assert(self.pairs@.take(i + 1).drop_last() =~= self.pairs@.take(i as int));
            }
            if !str_eq(self.pairs[i].0.as_str(), name) {
                let ghost before = pairs@;
                pairs.push((self.pairs[i].0.clone(), self.pairs[i].1.copy()));
                proof {
                    assert(pairs@.drop_last() =~= before);
                    assert(subst_map(pairs@) =~= subst_map(self.pairs@.take(i + 1)).remove(name@));
                }
            } else {
                proof {
                    assert(subst_map(pairs@) =~= subst_map(self.pairs@.take(i + 1)).remove(name@));
                }
            }
            i += 1;
        }
        proof {
            assert(self.pairs@.take(self.pairs.len() as int) =~= self.pairs@);
        }
        TypeVarSubst { pairs }
    }
}

/// `t` with each variable bound in `s` replaced by what it stands for,
/// itself substituted without that binding.
pub open spec fn spec_substitute_types(t: MonotypeModel, s: SubstModel) -> MonotypeModel
    decreases s.dom().len(), t,
    when s.dom().finite()
{
    match t {
        MonotypeModel::Variable(name) => if s.contains_key(name) {
            spec_substitute_types(s[name], s.remove(name))
        } else {
            t
        },
        MonotypeModel::Function(p, r) => MonotypeModel::Function(
            Box::new(spec_substitute_types(*p, s)),
            Box::new(spec_substitute_types(*r, s)),
        ),
        MonotypeModel::Product(ts) => MonotypeModel::Product(spec_substitute_types_all(ts, s)),
        _ => t,
    }
}

pub open spec fn spec_substitute_types_all(ts: Seq<MonotypeModel>, s: SubstModel) -> Seq<MonotypeModel>
    decreases s.dom().len(), ts,
    when s.dom().finite()
{
    if ts.len() == 0 {
        Seq::empty()
    } else {
        spec_substitute_types_all(ts.drop_last(), s).push(spec_substitute_types(ts.last(), s))
    }
}

/// The monotype with the variables of the substitution replaced.
pub fn substitute_types(ty: &Monotype, type_var_subst: &TypeVarSubst) -> (r: Monotype)
    ensures
        r@ == spec_substitute_types(ty@, type_var_subst@),
    decreases type_var_subst@.dom().len(), ty,
{
    proof {
        type_var_subst.lemma_finite();
    }
    match ty {
        Monotype::Variable(name) => match type_var_subst.get(name.as_str()) {
            Some(t2) => {
                let rest = type_var_subst.without(name.as_str());
                proof {
                    rest.lemma_finite();
                    assert(rest@.dom() =~= type_var_subst@.dom().remove(name@));
                }
                substitute_types(t2, &rest)
            },
            None => ty.copy(),
        },
        Monotype::Function(p, r) => Monotype::function(
            substitute_types(p, type_var_subst),
            substitute_types(r, type_var_subst),
        ),
        Monotype::Product(ts) => {
            let mut out: Vec<Monotype> = Vec::new();
            let mut i: usize = 0;
            proof {
                lemma_monotype_views(ts@);
                assert(monotype_views(out@) =~= spec_substitute_types_all(monotype_views(ts@).take(0), type_var_subst@));
            }
            while i < ts.len()
                invariant
                    i <= ts.len(),
                    *ty is Product,
                    (*ty)->Product_0 == *ts,
                    type_var_subst@.dom().finite(),
                    monotype_views(ts@).len() == ts.len(),
                    forall|j: int| 0 <= j < ts.len() ==> #[trigger] monotype_views(ts@)[j] == ts@[j]@,
                    monotype_views(out@) == spec_substitute_types_all(
                        monotype_views(ts@).take(i as int),
                        type_var_subst@,
                    ),
                decreases ts.len() - i,
            {
                proof {
                    assert(decreases_to!(*ty => (*ty)->Product_0));
                    assert(decreases_to!(*ts => ts@));
                    assert(decreases_to!(ts@ => ts@[i as int]));
                }
                let t = substitute_types(&ts[i], type_var_subst);
                let ghost before = out@;
                out.push(t);
                proof {
                    let v = monotype_views(ts@);
                    assert(v.take(i + 1).drop_last() =~= v.take(i as int));
                    assert(out@.drop_last() =~= before);
                }
                i += 1;
            }
            proof {
                assert(monotype_views(ts@).take(ts.len() as int) =~= monotype_views(ts@));
            }
            Monotype::Product(out)
        },
        _ => ty.copy(),
    }
}

// --- unification ---

pub open spec fn unify_error(to: MonotypeModel, from: MonotypeModel, span: Span) -> ErrorModel {
    static_error("cannot unify type `"@ + monotype_text(to) + "` and `"@ + monotype_text(from) + "`"@, Some(span))
}

/// Unification of `to` with `from` under the substitution `s`: a variable
/// on the left is bound to the right side, substituted; functions and
/// products of the same length unify part by part; anything else must be
/// equal.
pub open spec fn spec_unify(to: MonotypeModel, from: MonotypeModel, s: SubstModel, span: Span) -> Result<
    SubstModel,
    ErrorModel,
>
    decreases to,
{
    if to is Variable && from is Variable && to->Variable_0 == from->Variable_0 {
        Ok(s)
    } else {
        let from = spec_substitute_types(from, s);
        match to {
            MonotypeModel::Variable(name) => Ok(s.insert(name, from)),
            MonotypeModel::Function(p1, r1) => if from is Function {
                match spec_unify(*p1, *from->Function_0, s, span) {
                    Err(e) => Err(e),
                    Ok(s1) => spec_unify(*r1, *from->Function_1, s1, span),
                }
            } else if spec_monotype_eq(to, from) {
                Ok(s)
            } else {
                Err(unify_error(to, from, span))
            },
            MonotypeModel::Product(ts1) => if from is Product && ts1.len() == from->Product_0.len() {
                spec_unify_all(ts1, from->Product_0, s, span)
            } else if spec_monotype_eq(to, from) {
                Ok(s)
            } else {
                Err(unify_error(to, from, span))
            },
            _ => if spec_monotype_eq(to, from) {
                Ok(s)
            } else {
                Err(unify_error(to, from, span))
            },
        }
    }
}

pub open spec fn spec_unify_all(ts1: Seq<MonotypeModel>, ts2: Seq<MonotypeModel>, s: SubstModel, span: Span) -> Result<
    SubstModel,
    ErrorModel,
>
    decreases ts1,
{
    if ts1.len() == 0 {
        Ok(s)
    } else {
        match spec_unify(ts1[0], ts2[0], s, span) {
            Err(e) => Err(e),
            Ok(s1) => spec_unify_all(ts1.drop_first(), ts2.drop_first(), s1, span),
        }
    }
}

/// The substitution that unifying `to` with `from` leaves behind, whether
/// it succeeds or not: on a failure, what the parts unified before it bound.
pub open spec fn spec_unify_after(to: MonotypeModel, from: MonotypeModel, s: SubstModel, span: Span) -> SubstModel
    decreases to,
{
    if to is Variable && from is Variable && to->Variable_0 == from->Variable_0 {
        s
    } else {
        let from = spec_substitute_types(from, s);
        match to {
            MonotypeModel::Variable(name) => s.insert(name, from),
            MonotypeModel::Function(p1, r1) => if from is Function {
                match spec_unify(*p1, *from->Function_0, s, span) {
                    Err(_) => spec_unify_after(*p1, *from->Function_0, s, span),
                    Ok(s1) => spec_unify_after(*r1, *from->Function_1, s1, span),
                }
            } else {
                s
            },
            MonotypeModel::Product(ts1) => if from is Product && ts1.len() == from->Product_0.len() {
                spec_unify_all_after(ts1, from->Product_0, s, span)
            } else {
                s
            },
            _ => s,
        }
    }
}

pub open spec fn spec_unify_all_after(ts1: Seq<MonotypeModel>, ts2: Seq<MonotypeModel>, s: SubstModel, span: Span) -> SubstModel
    decreases ts1,
{
    if ts1.len() == 0 {
        s
    } else {
        match spec_unify(ts1[0], ts2[0], s, span) {
            Err(_) => spec_unify_after(ts1[0], ts2[0], s, span),
            Ok(s1) => spec_unify_all_after(ts1.drop_first(), ts2.drop_first(), s1, span),
        }
    }
}

/// Substituting under the empty substitution leaves a monotype as it is.
pub proof fn law_substitute_empty(t: MonotypeModel)
    ensures
        spec_substitute_types(t, Map::empty()) == t,
    decreases t,
{
    let s = Map::<Seq<char>, MonotypeModel>::empty();
    assert(s.dom().finite()) by {
        assert(s.dom() =~= Set::<Seq<char>>::empty());
    }
    match t {
        MonotypeModel::Function(p, r) => {
            law_substitute_empty(*p);
            law_substitute_empty(*r);
        },
        MonotypeModel::Product(ts) => {
            lemma_substitute_all_empty(ts);
        },
        _ => {},
    }
}

pub proof fn lemma_substitute_all_empty(ts: Seq<MonotypeModel>)
    ensures
        spec_substitute_types_all(ts, Map::empty()) == ts,
    decreases ts,
{
    let s = Map::<Seq<char>, MonotypeModel>::empty();
    assert(s.dom().finite()) by {
        assert(s.dom() =~= Set::<Seq<char>>::empty());
    }
    if ts.len() > 0 {
        lemma_substitute_all_empty(ts.drop_last());
        law_substitute_empty(ts.last());
        assert(ts.drop_last().push(ts.last()) =~= ts);
    }
}

/// A monotype unifies with itself under the empty substitution and binds
/// nothing, where its type constructors can be counted: a declaration whose
/// type is its annotation is accepted.
pub proof fn law_unify_self(t: MonotypeModel, span: Span)
    requires
        constructor_count(t) <= i32::MAX,
    ensures
        spec_unify(t, t, Map::empty(), span) == Ok::<SubstModel, ErrorModel>(Map::empty()),
    decreases t,
{
    law_substitute_empty(t);
    match t {
        MonotypeModel::Variable(_) => {},
        MonotypeModel::Function(p, r) => {
            law_unify_self(*p, span);
            law_unify_self(*r, span);
        },
        MonotypeModel::Product(ts) => {
            lemma_unify_all_self(ts, span);
        },
        _ => {
            law_monotype_eq_reflexive(t);
        },
    }
}

pub proof fn lemma_unify_all_self(ts: Seq<MonotypeModel>, span: Span)
    requires
        constructor_counts(ts) <= i32::MAX,
    ensures
        spec_unify_all(ts, ts, Map::empty(), span) == Ok::<SubstModel, ErrorModel>(Map::empty()),
    decreases ts,
{
    if ts.len() > 0 {
        law_unify_self(ts[0], span);
        lemma_unify_all_self(ts.drop_first(), span);
    }
}

/// A monotype built from the base types by functions and products alone:
/// no variables, named types, actions or type constructors.
pub open spec fn first_order(t: MonotypeModel) -> bool
    decreases t,
{
    match t {
        MonotypeModel::Int32 | MonotypeModel::Float32 | MonotypeModel::Char | MonotypeModel::Str => true,
        MonotypeModel::Function(p, r) => first_order(*p) && first_order(*r),
        MonotypeModel::Product(ts) => first_order_all(ts),
        _ => false,
    }
}

pub open spec fn first_order_all(ts: Seq<MonotypeModel>) -> bool
    decreases ts,
{
    ts.len() > 0 ==> first_order(ts[0]) && first_order_all(ts.drop_first())
}

proof fn lemma_first_order_all_index(ts: Seq<MonotypeModel>, i: int)
    requires
        first_order_all(ts),
        0 <= i < ts.len(),
    ensures
        first_order(ts[i]),
    decreases ts.len(),
{
    if i > 0 {
        lemma_first_order_all_index(ts.drop_first(), i - 1);
    }
}

/// A substitution leaves a first-order type as it is.
proof fn lemma_substitute_first_order(t: MonotypeModel, s: SubstModel)
    requires
        first_order(t),
        s.dom().finite(),
    ensures
        spec_substitute_types(t, s) == t,
    decreases t,
{
    match t {
        MonotypeModel::Function(p, r) => {
            lemma_substitute_first_order(*p, s);
            lemma_substitute_first_order(*r, s);
        },
        MonotypeModel::Product(ts) => {
            lemma_substitute_first_order_all(ts, s);
        },
        _ => {},
    }
}

proof fn lemma_substitute_first_order_all(ts: Seq<MonotypeModel>, s: SubstModel)
    requires
        first_order_all(ts),
        s.dom().finite(),
    ensures
        spec_substitute_types_all(ts, s) == ts,
    decreases ts,
{
    if ts.len() > 0 {
        lemma_first_order_all_index(ts, ts.len() - 1);
        assert forall|i: int| 0 <= i < ts.drop_last().len() implies first_order(#[trigger] ts.drop_last()[i]) by {
            lemma_first_order_all_index(ts, i);
        }
        lemma_first_order_all_of_index(ts.drop_last());
        lemma_substitute_first_order_all(ts.drop_last(), s);
        lemma_substitute_first_order(ts.last(), s);
        assert(ts.drop_last().push(ts.last()) =~= ts);
    }
}

proof fn lemma_first_order_all_of_index(ts: Seq<MonotypeModel>)
    requires
        forall|i: int| 0 <= i < ts.len() ==> first_order(#[trigger] ts[i]),
    ensures
        first_order_all(ts),
    decreases ts.len(),
{
    if ts.len() > 0 {
        assert(first_order(ts[0]));
        assert forall|i: int| 0 <= i < ts.drop_first().len() implies first_order(#[trigger] ts.drop_first()[i]) by {
            assert(ts.drop_first()[i] == ts[i + 1]);
        }
        lemma_first_order_all_of_index(ts.drop_first());
    }
}

/// Equality of a first-order monotype with another is identity, and counts
/// nothing.
proof fn lemma_eq_first_order(t1: MonotypeModel, t2: MonotypeModel, c: int)
    requires
        first_order(t1),
        spec_eq_monotype(t1, t2, c).0,
    ensures
        t1 == t2,
        spec_eq_monotype(t1, t2, c).1 == c,
    decreases t1,
{
    match (t1, t2) {
        (MonotypeModel::Function(p1, r1), MonotypeModel::Function(p2, r2)) => {
            lemma_eq_first_order(*p1, *p2, c);
            lemma_eq_first_order(*r1, *r2, c);
        },
        (MonotypeModel::Product(a), MonotypeModel::Product(b)) => {
            lemma_eqs_first_order(a, b, c);
        },
        _ => {},
    }
}

proof fn lemma_eqs_first_order(a: Seq<MonotypeModel>, b: Seq<MonotypeModel>, c: int)
    requires
        first_order_all(a),
        a.len() == b.len(),
        spec_eq_monotypes(a, b, c).0,
    ensures
        a == b,
        spec_eq_monotypes(a, b, c).1 == c,
    decreases a,
{
    if a.len() > 0 {
        lemma_eq_first_order(a[0], b[0], c);
        lemma_eqs_first_order(a.drop_first(), b.drop_first(), c);
        assert(a =~= seq![a[0]] + a.drop_first());
        assert(b =~= seq![b[0]] + b.drop_first());
    } else {
        assert(a =~= b);
    }
}

/// Unifying two first-order types succeeds only where they are the same
/// type, and then binds nothing: two function types unify only where both
/// their parameter types and their return types are the same, so that
/// `Int32 -> String` does not unify with `Int32 -> Int32`.
pub proof fn law_unify_first_order(t1: MonotypeModel, t2: MonotypeModel, s: SubstModel, span: Span)
    requires
        first_order(t1),
        first_order(t2),
        s.dom().finite(),
    ensures
        spec_unify(t1, t2, s, span) is Ok ==> t1 == t2 && spec_unify(t1, t2, s, span) == Ok::<SubstModel, ErrorModel>(s),
    decreases t1,
{
    lemma_substitute_first_order(t2, s);
    match t1 {
        MonotypeModel::Function(p1, r1) => {
            if t2 is Function {
                let p2 = *t2->Function_0;
                let r2 = *t2->Function_1;
                law_unify_first_order(*p1, p2, s, span);
                law_unify_first_order(*r1, r2, s, span);
            } else if spec_monotype_eq(t1, t2) {
                lemma_eq_first_order(t1, t2, 0);
            }
        },
        MonotypeModel::Product(ts1) => {
            if t2 is Product && ts1.len() == t2->Product_0.len() {
                lemma_unify_all_first_order(ts1, t2->Product_0, s, span);
            } else if spec_monotype_eq(t1, t2) {
                lemma_eq_first_order(t1, t2, 0);
            }
        },
        _ => {
            if spec_monotype_eq(t1, t2) {
                lemma_eq_first_order(t1, t2, 0);
            }
        },
    }
}

proof fn lemma_unify_all_first_order(ts1: Seq<MonotypeModel>, ts2: Seq<MonotypeModel>, s: SubstModel, span: Span)
    requires
        first_order_all(ts1),
        first_order_all(ts2),
        ts1.len() == ts2.len(),
        s.dom().finite(),
    ensures
        spec_unify_all(ts1, ts2, s, span) is Ok ==> ts1 == ts2 && spec_unify_all(ts1, ts2, s, span) == Ok::<
            SubstModel,
            ErrorModel,
        >(s),
    decreases ts1,
{
    if ts1.len() > 0 {
        law_unify_first_order(ts1[0], ts2[0], s, span);
        lemma_unify_all_first_order(ts1.drop_first(), ts2.drop_first(), s, span);
        assert(ts1 =~= seq![ts1[0]] + ts1.drop_first());
        assert(ts2 =~= seq![ts2[0]] + ts2.drop_first());
    } else {
        assert(ts1 =~= ts2);
    }
}

/// Unifies `to` with `from`, binding type variables in the substitution.
pub fn unify_type(to: &Monotype, from: &Monotype, type_var_subst: &mut TypeVarSubst, span: Span) -> (r: FogResult<()>)
    ensures
        match spec_unify(to@, from@, old(type_var_subst)@, span) {
            Ok(s) => r is Ok && final(type_var_subst)@ == s,
            Err(e) => r matches Err(x) && x@ == e,
        },
        final(type_var_subst)@ == spec_unify_after(to@, from@, old(type_var_subst)@, span),
    decreases to, 1int,
{
    proof {
        type_var_subst.lemma_finite();
    }
    if let Monotype::Variable(name_1) = to {
        if let Monotype::Variable(name_2) = from {
            if str_eq(name_1.as_str(), name_2.as_str()) {
                return Ok(());
            }
        }
    }
    let from = substitute_types(from, type_var_subst);
    match to {
        Monotype::Variable(name) => {
            type_var_subst.insert(name.clone(), from);
            return Ok(());
        },
        Monotype::Function(p1, r1) => {
            if let Monotype::Function(p2, r2) = &from {
                return match unify_type(p1, p2, type_var_subst, span) {
                    Err(e) => Err(e),
                    Ok(()) => unify_type(r1, r2, type_var_subst, span),
                };
            }
        },
        Monotype::Product(ts1) => {
            proof {
                lemma_monotype_views(ts1@);
            }
            if let Monotype::Product(ts2) = &from {
                proof {
                    lemma_monotype_views(ts2@);
                }
                if ts1.len() == ts2.len() {
                    return unify_all(to, ts1, ts2, type_var_subst, span);
                }
            }
        },
        _ => {},
    }
    if *to == from {
        Ok(())
    } else {
        let mut message = string_from("cannot unify type `");
        let t = to.to_text();
        message.append(t.as_str());
        message.append("` and `");
        let f = from.to_text();
        message.append(f.as_str());
        message.append("`");
        Err(FogError::new(ErrorKind::StaticCheck, message, Some(span)))
    }
}

fn unify_all(
    to: &Monotype,
    ts1: &Vec<Monotype>,
    ts2: &Vec<Monotype>,
    type_var_subst: &mut TypeVarSubst,
    span: Span,
) -> (r: FogResult<()>)
    requires
        *to is Product,
        (*to)->Product_0 == *ts1,
        ts1@.len() == ts2@.len(),
    ensures
        match spec_unify_all(monotype_views(ts1@), monotype_views(ts2@), old(type_var_subst)@, span) {
            Ok(s) => r is Ok && final(type_var_subst)@ == s,
            Err(e) => r matches Err(x) && x@ == e,
        },
        final(type_var_subst)@ == spec_unify_all_after(monotype_views(ts1@), monotype_views(ts2@), old(type_var_subst)@, span),
    decreases to, 0int,
{
    let ghost v1 = monotype_views(ts1@);
    let ghost v2 = monotype_views(ts2@);
    proof {
        lemma_monotype_views(ts1@);
        lemma_monotype_views(ts2@);
        assert(v1.skip(0) =~= v1);
        assert(v2.skip(0) =~= v2);
    }
    let mut i: usize = 0;
    while i < ts1.len()
        invariant
            i <= ts1.len(),
            ts1@.len() == ts2@.len(),
            *to is Product,
            (*to)->Product_0 == *ts1,
            v1 == monotype_views(ts1@),
            v2 == monotype_views(ts2@),
            v1.len() == ts1.len(),
            v2.len() == ts2.len(),
            forall|j: int| 0 <= j < ts1.len() ==> #[trigger] v1[j] == ts1@[j]@,
            forall|j: int| 0 <= j < ts2.len() ==> #[trigger] v2[j] == ts2@[j]@,
            spec_unify_all(v1, v2, old(type_var_subst)@, span) == spec_unify_all(
                v1.skip(i as int),
                v2.skip(i as int),
                type_var_subst@,
                span,
            ),
            spec_unify_all_after(v1, v2, old(type_var_subst)@, span) == spec_unify_all_after(
                v1.skip(i as int),
                v2.skip(i as int),
                type_var_subst@,
                span,
            ),
        decreases ts1.len() - i,
    {
        proof {
            assert(decreases_to!(*to => (*to)->Product_0));
            assert(decreases_to!(*ts1 => ts1@));
            assert(decreases_to!(ts1@ => ts1@[i as int]));
            assert(v1.skip(i as int)[0] == v1[i as int]);
            assert(v2.skip(i as int)[0] == v2[i as int]);
            assert(v1.skip(i as int).drop_first() =~= v1.skip(i + 1));
            assert(v2.skip(i as int).drop_first() =~= v2.skip(i + 1));
        }
        match unify_type(&ts1[i], &ts2[i], type_var_subst, span) {
            Err(e) => return Err(e),
            Ok(()) => {},
        }
        i += 1;
    }
    proof {
        assert(v1.skip(i as int) =~= Seq::<MonotypeModel>::empty());
    }
    Ok(())
}

/// Whether `to` unifies with `from` under no substitution.
pub fn can_unify(to: &Monotype, from: &Monotype, span: Span) -> (r: bool)
    ensures
        r == spec_unify(to@, from@, Map::empty(), span) is Ok,
{
    let mut type_var_subst = TypeVarSubst::new();
    match unify_type(to, from, &mut type_var_subst, span) {
        Ok(()) => true,
        Err(_) => false,
    }
}

// --- the types of expressions ---

pub open spec fn mono(m: MonotypeModel) -> TypeModel {
    TypeModel { vars: Seq::empty(), monotype: m }
}

pub open spec fn literal_type(l: LiteralModel) -> MonotypeModel {
    match l {
        LiteralModel::Int32(_) => MonotypeModel::Int32,
        LiteralModel::Float32(_) => MonotypeModel::Float32,
    }
}

/// An environment step read as a result and the environment after it: an
/// error leaves the environment as it was.
pub open spec fn step(r: Result<EnvModel, ErrorModel>, env: EnvModel) -> (Result<(), ErrorModel>, EnvModel) {
    match r {
        Ok(env2) => (Ok(()), env2),
        Err(e) => (Err(e), env),
    }
}

/// A type and the substitution after it.
pub type Typed = (Result<MonotypeModel, ErrorModel>, SubstModel);

pub open spec fn spec_expr_type_of(e: CoreExprModel, env: EnvModel, s: SubstModel) -> Typed
    decreases e, 0int,
{
    match e {
        CoreExprModel::Block { statements, span } => spec_block_type_of(statements, env.push(empty_scope()), s, span),
        CoreExprModel::Identifier { name, span } => match lookup_var(env, name) {
            Some(v) => (Ok(v.scheme.monotype), s),
            None => (Err(var_not_found(name, span)), s),
        },
        CoreExprModel::Literal { literal, .. } => (Ok(literal_type(literal)), s),
        CoreExprModel::Lambda { param_name, param_type, body, span } => match spec_eval_atomic_type_expr(
            param_type,
            env,
        ) {
            Err(err) => (Err(err), s),
            Ok(pt) => match spec_declare_var(env.push(empty_scope()), param_name, pt, span) {
                Err(err) => (Err(err), s),
                Ok(env2) => match spec_expr_type_of(*body, env2, s) {
                    (Err(err), s2) => (Err(err), s2),
                    (Ok(rt), s2) => (Ok(MonotypeModel::Function(Box::new(pt.monotype), Box::new(rt))), s2),
                },
            },
        },
        CoreExprModel::FunctionAppl { callee, arg, span } => match spec_expr_type_of(*callee, env, s) {
            (Err(err), s1) => (Err(err), s1),
            (Ok(ct), s1) => match ct {
                MonotypeModel::Function(p, r) => match spec_expr_type_of(*arg, env, s1) {
                    (Err(err), s2) => (Err(err), s2),
                    (Ok(at), s2) => match spec_unify(*p, at, s2, span) {
                        Err(err) => (Err(err), s2),
                        Ok(s3) => (Ok(spec_substitute_types(*r, s3)), s3),
                    },
                },
                _ => (Err(static_error(monotype_text(ct) + " is not a function type"@, Some(span))), s1),
            },
        },
        CoreExprModel::Tuple { items, .. } => match spec_exprs_type_of(items, env, s) {
            (Err(err), s1) => (Err(err), s1),
            (Ok(ts), s1) => (Ok(MonotypeModel::Product(ts)), s1),
        },
        CoreExprModel::Match { scrutinee, arms, span } => match spec_expr_type_of(*scrutinee, env, s) {
            (Err(err), s1) => (Err(err), s1),
            (Ok(st), s1) => spec_arms_type_of(arms, st, env, s1, None, span),
        },
    }
}

pub open spec fn spec_exprs_type_of(items: Seq<CoreExprModel>, env: EnvModel, s: SubstModel) -> (
    Result<Seq<MonotypeModel>, ErrorModel>,
    SubstModel,
)
    decreases items, 0int,
{
    if items.len() == 0 {
        (Ok(Seq::empty()), s)
    } else {
        match spec_expr_type_of(items[0], env, s) {
            (Err(err), s1) => (Err(err), s1),
            (Ok(t), s1) => match spec_exprs_type_of(items.drop_first(), env, s1) {
                (Err(err), s2) => (Err(err), s2),
                (Ok(ts), s2) => (Ok(seq![t] + ts), s2),
            },
        }
    }
}

/// The arms of a match: each binds its pattern to the scrutinee's type in a
/// scope of its own, and all must have the type of the first.
pub open spec fn spec_arms_type_of(
    arms: Seq<CoreMatchArmModel>,
    scrutinee_type: MonotypeModel,
    env: EnvModel,
    s: SubstModel,
    res: Option<MonotypeModel>,
    span: Span,
) -> Typed
    decreases arms, 0int,
{
    if arms.len() == 0 {
        match res {
            Some(t) => (Ok(t), s),
            None => (Err(static_error("match with no arms"@, Some(span))), s),
        }
    } else {
        match spec_bind_pattern(arms[0].pattern, scrutinee_type, env.push(empty_scope())) {
            (Err(err), _) => (Err(err), s),
            (Ok(()), env2) => match spec_expr_type_of(arms[0].value_expr, env2, s) {
                (Err(err), s2) => (Err(err), s2),
                (Ok(at), s2) => match res {
                    None => spec_arms_type_of(arms.drop_first(), scrutinee_type, env, s2, Some(at), span),
                    Some(t) => if !spec_monotype_eq(t, at) {
                        (
                            Err(
                                static_error(
                                    "expected type `"@ + monotype_text(t) + "`, found `"@ + monotype_text(at) + "`"@,
                                    Some(span),
                                ),
                            ),
                            s2,
                        )
                    } else {
                        spec_arms_type_of(arms.drop_first(), scrutinee_type, env, s2, res, span)
                    },
                },
            },
        }
    }
}

/// The statements of a block in its own scope: the type of the block is
/// that of the first expression statement.
pub open spec fn spec_block_type_of(statements: Seq<CoreStatementModel>, env: EnvModel, s: SubstModel, span: Span) -> Typed
    decreases statements, 0int,
{
    if statements.len() == 0 {
        (Err(static_error("final operand not found in block statement"@, Some(span))), s)
    } else {
        match statements[0] {
            CoreStatementModel::KindAnnotation { name, expr, span: sp } => match spec_annotate_kind(
                env,
                name,
                spec_eval_kind_expr(expr),
                sp,
            ) {
                Err(err) => (Err(err), s),
                Ok(env2) => spec_block_type_of(statements.drop_first(), env2, s, span),
            },
            CoreStatementModel::TypeDeclaration { name, params, expr, span: sp } => match spec_check_type_declaration(
                name,
                params,
                expr,
                sp,
                env,
            ) {
                (Err(err), _) => (Err(err), s),
                (Ok(_), env2) => spec_block_type_of(statements.drop_first(), env2, s, span),
            },
            CoreStatementModel::TypeAnnotation { name, expr, span: sp } => match spec_check_type_annotation(
                name,
                expr,
                sp,
                env,
            ) {
                (Err(err), _) => (Err(err), s),
                (Ok(()), env2) => spec_block_type_of(statements.drop_first(), env2, s, span),
            },
            CoreStatementModel::VarDeclaration { pattern, expr, span: sp } => match spec_check_declaration(
                pattern,
                expr,
                sp,
                env,
                s,
            ) {
                (Err(err), _, s2) => (Err(err), s2),
                (Ok(()), env2, s2) => spec_block_type_of(statements.drop_first(), env2, s2, span),
            },
            CoreStatementModel::Expression { expr, .. } => spec_expr_type_of(expr, env, s),
        }
    }
}

/// A declaration: the expression's type, bound to the pattern.
pub open spec fn spec_check_declaration(
    pattern: CoreDeclPatternModel,
    expr: CoreExprModel,
    span: Span,
    env: EnvModel,
    s: SubstModel,
) -> (Result<(), ErrorModel>, EnvModel, SubstModel)
    decreases expr, 1int,
{
    match spec_expr_type_of(expr, env, s) {
        (Err(err), s2) => (Err(err), env, s2),
        (Ok(t), s2) => match pattern {
            CoreDeclPatternModel::Identifier { name, .. } => {
                let (r, env2) = step(spec_declare_var(env, name, mono(t), span), env);
                (r, env2, s2)
            },
            CoreDeclPatternModel::Tuple { items, .. } => {
                let (r, env2) = spec_bind_tuple_decl_pattern(items, t, pattern, expr, span, env);
                (r, env2, s2)
            },
        },
    }
}

// --- patterns ---

pub open spec fn tuple_error(n: nat, t: MonotypeModel, span: Span) -> ErrorModel {
    static_error(
        "expected a tuple of "@ + spec_decimal(n) + " element(s), found `"@ + monotype_text(t) + "`"@,
        Some(span),
    )
}

pub open spec fn not_tuple_error(t: MonotypeModel, span: Span) -> ErrorModel {
    static_error("expected a tuple type, found `"@ + monotype_text(t) + "`"@, Some(span))
}

pub open spec fn type_mismatch_error(expected: MonotypeModel, found: MonotypeModel, span: Span) -> ErrorModel {
    static_error(
        "expected type `"@ + monotype_text(expected) + "`, found `"@ + monotype_text(found) + "`"@,
        Some(span),
    )
}

/// The parameter types of a function type, up to `arity` of them, and what
/// remains.
pub open spec fn spec_uncurry_function_type(t: MonotypeModel, arity: nat) -> (Seq<MonotypeModel>, MonotypeModel)
    decreases arity,
{
    if arity == 0 {
        (Seq::empty(), t)
    } else {
        match t {
            MonotypeModel::Function(p, r) => {
                let (ps, rt) = spec_uncurry_function_type(*r, (arity - 1) as nat);
                (seq![*p] + ps, rt)
            },
            _ => (Seq::empty(), t),
        }
    }
}

/// Binds a match arm pattern to the type it is matched against: `_` binds
/// nothing, a capitalized name is a data constructor of that type, another
/// name binds a variable; a tuple and a data constructor applied to
/// patterns bind their parts.
pub open spec fn spec_bind_pattern(p: ArmPatternModel, expected: MonotypeModel, env: EnvModel) -> (
    Result<(), ErrorModel>,
    EnvModel,
)
    decreases p,
{
    match p {
        ArmPatternModel::Literal { literal, span } => if !spec_monotype_eq(literal_type(literal), expected) {
            (Err(type_mismatch_error(expected, literal_type(literal), span)), env)
        } else {
            (Ok(()), env)
        },
        ArmPatternModel::Identifier { name, span } => if name == "_"@ {
            (Ok(()), env)
        } else if name.len() > 0 && spec_is_uppercase(name[0]) {
            match lookup_var(env, name) {
                None => (Err(var_not_found(name, span)), env),
                Some(v) => if !spec_monotype_eq(v.scheme.monotype, expected) {
                    (Err(type_mismatch_error(expected, v.scheme.monotype, span)), env)
                } else {
                    (Ok(()), env)
                },
            }
        } else {
            step(spec_declare_var(env, name, mono(expected), span), env)
        },
        ArmPatternModel::Tuple { items, span } => match expected {
            MonotypeModel::Product(cs) => if items.len() != cs.len() {
                (Err(tuple_error(items.len(), expected, span)), env)
            } else {
                spec_bind_patterns(items, cs, env)
            },
            _ => (Err(not_tuple_error(expected, span)), env),
        },
        ArmPatternModel::DataConstructor { name, args, span } => match lookup_var(env, name) {
            None => (Err(var_not_found(name, span)), env),
            Some(v) => {
                let (pts, rt) = spec_uncurry_function_type(v.scheme.monotype, args.len());
                if pts.len() != args.len() || !spec_monotype_eq(rt, expected) {
                    (Err(type_mismatch_error(expected, rt, span)), env)
                } else {
                    spec_bind_patterns(args, pts, env)
                }
            },
        },
    }
}

pub open spec fn spec_bind_patterns(items: Seq<ArmPatternModel>, types: Seq<MonotypeModel>, env: EnvModel) -> (
    Result<(), ErrorModel>,
    EnvModel,
)
    decreases items,
{
    if items.len() == 0 {
        (Ok(()), env)
    } else {
        match spec_bind_pattern(items[0], types[0], env) {
            (Err(err), env1) => (Err(err), env1),
            (Ok(()), env1) => spec_bind_patterns(items.drop_first(), types.drop_first(), env1),
        }
    }
}

/// Binds an item of a tuple pattern to its part of the declared type.
pub open spec fn spec_bind_tuple_item(item: TuplePatternModel, expected: MonotypeModel, span: Span, env: EnvModel) -> (
    Result<(), ErrorModel>,
    EnvModel,
)
    decreases item,
{
    match item {
        TuplePatternModel::Identifier { name, .. } => step(spec_declare_var(env, name, mono(expected), span), env),
        TuplePatternModel::Tuple { items, .. } => match expected {
            MonotypeModel::Product(cs) => if items.len() != cs.len() {
                (Err(tuple_error(items.len(), expected, span)), env)
            } else {
                spec_bind_tuple_items(items, cs, span, env)
            },
            _ => (Err(not_tuple_error(expected, span)), env),
        },
    }
}

pub open spec fn spec_bind_tuple_items(items: Seq<TuplePatternModel>, types: Seq<MonotypeModel>, span: Span, env: EnvModel) -> (
    Result<(), ErrorModel>,
    EnvModel,
)
    decreases items,
{
    if items.len() == 0 {
        (Ok(()), env)
    } else {
        match spec_bind_tuple_item(items[0], types[0], span, env) {
            (Err(err), env1) => (Err(err), env1),
            (Ok(()), env1) => spec_bind_tuple_items(items.drop_first(), types.drop_first(), span, env1),
        }
    }
}

pub open spec fn assign_error(
    expr: CoreExprModel,
    pattern: CoreDeclPatternModel,
    detail: Seq<char>,
    span: Span,
) -> ErrorModel {
    static_error(
        "type mismatch when assigning variable `"@ + core_expr_text(expr) + "` with `"@ + core_decl_pattern_text(
            pattern,
        ) + "`\n"@ + detail,
        Some(span),
    )
}

/// Binds a tuple declaration pattern to the declared expression's type.
pub open spec fn spec_bind_tuple_decl_pattern(
    items: Seq<TuplePatternModel>,
    t: MonotypeModel,
    pattern: CoreDeclPatternModel,
    expr: CoreExprModel,
    span: Span,
    env: EnvModel,
) -> (Result<(), ErrorModel>, EnvModel) {
    match t {
        MonotypeModel::Product(cs) => if items.len() != cs.len() {
            (
                Err(
                    assign_error(
                        expr,
                        pattern,
                        "expected a tuple of "@ + spec_decimal(items.len()) + " element(s), found `"@ + monotype_text(
                            t,
                        ) + "`"@,
                        span,
                    ),
                ),
                env,
            )
        } else {
            spec_bind_tuple_items(items, cs, span, env)
        },
        _ => (Err(assign_error(expr, pattern, "expected a tuple type, found `"@ + monotype_text(t) + "`"@, span)), env),
    }
}

// --- declarations of types ---

/// A variable's type annotation.
pub open spec fn spec_check_type_annotation(
    name: Seq<char>,
    expr: AtomicTypeExprModel,
    span: Span,
    env: EnvModel,
) -> (Result<(), ErrorModel>, EnvModel) {
    match spec_eval_atomic_type_expr(expr, env) {
        Err(err) => (Err(err), env),
        Ok(t) => step(spec_annotate_type(env, name, t, span), env),
    }
}

/// A type declaration: the name's kind, annotated from the declared type
/// where the scope holds no annotation, and its type constructor; gives
/// the named type and the data constructors.
pub open spec fn spec_check_type_declaration(
    name: Seq<char>,
    params: Seq<Seq<char>>,
    expr: TypeExprModel,
    span: Span,
    env: EnvModel,
) -> (Result<(TypeModel, Seq<DataConstructorModel>), ErrorModel>, EnvModel) {
    match spec_eval_type_expr(name, params, expr, env) {
        Err(err) => (Err(err), env),
        Ok((tc, named, ctors)) => {
            let annotated = if env.last().types.contains_key(name) {
                Ok(env)
            } else {
                spec_annotate_kind(env, name, spec_kind_of(tc.monotype), span)
            };
            match annotated {
                Err(err) => (Err(err), env),
                Ok(env1) => match spec_declare_type(env1, name, tc.monotype, span) {
                    Err(err) => (Err(err), env1),
                    Ok(env2) => (Ok((named, ctors)), env2),
                },
            }
        },
    }
}

/// The scheme of a constructor with fields of types `ts` of the type `ret`.
pub open spec fn spec_nest_function_types(ts: Seq<TypeModel>, ret: TypeModel) -> TypeModel
    decreases ts.len(),
{
    if ts.len() == 0 {
        ret
    } else {
        scheme_function(ts[0], spec_nest_function_types(ts.drop_first(), ret))
    }
}

/// The monotypes of schemes, in order.
pub open spec fn scheme_monotypes(ts: Seq<TypeModel>) -> Seq<MonotypeModel> {
    ts.map_values(|t: TypeModel| t.monotype)
}

/// Monotypes as schemes over no variables.
pub open spec fn mono_schemes(ms: Seq<MonotypeModel>) -> Seq<TypeModel> {
    ms.map_values(|m: MonotypeModel| TypeModel { vars: Seq::empty(), monotype: m })
}

/// Splitting as many parameters off a nested function type as were nested
/// gives back the parameters' and the return's monotypes.
pub proof fn law_uncurry_nest(ts: Seq<TypeModel>, ret: TypeModel)
    ensures
        spec_uncurry_function_type(spec_nest_function_types(ts, ret).monotype, ts.len())
            == (scheme_monotypes(ts), ret.monotype),
    decreases ts.len(),
{
    if ts.len() == 0 {
        assert(scheme_monotypes(ts) =~= Seq::<MonotypeModel>::empty());
    } else {
        law_uncurry_nest(ts.drop_first(), ret);
        assert(scheme_monotypes(ts) =~= seq![ts[0].monotype] + scheme_monotypes(ts.drop_first()));
    }
}

/// The parameters split off a monotype, at most `n`, nested again around
/// what remains give back the monotype.
pub proof fn law_nest_uncurry(t: MonotypeModel, n: nat)
    ensures
        spec_uncurry_function_type(t, n).0.len() <= n,
        spec_nest_function_types(
            mono_schemes(spec_uncurry_function_type(t, n).0),
            TypeModel { vars: Seq::empty(), monotype: spec_uncurry_function_type(t, n).1 },
        ).monotype == t,
    decreases n,
{
    let (ps, r) = spec_uncurry_function_type(t, n);
    if n == 0 {
        assert(mono_schemes(ps) =~= Seq::<TypeModel>::empty());
    } else {
        match t {
            MonotypeModel::Function(p, rest) => {
                law_nest_uncurry(*rest, (n - 1) as nat);
                let (ps2, r2) = spec_uncurry_function_type(*rest, (n - 1) as nat);
                assert(ps == seq![*p] + ps2);
                assert(mono_schemes(ps).drop_first() =~= mono_schemes(ps2));
                assert(mono_schemes(ps)[0] == TypeModel { vars: Seq::empty(), monotype: *p });
            },
            _ => {
                assert(mono_schemes(ps) =~= Seq::<TypeModel>::empty());
            },
        }
    }
}

/// Annotates and declares each data constructor of a sum type.
pub open spec fn spec_register_data_constructors(
    env: EnvModel,
    parent: TypeModel,
    ctors: Seq<DataConstructorModel>,
    span: Span,
) -> (Result<(), ErrorModel>, EnvModel)
    decreases ctors.len(),
{
    if ctors.len() == 0 {
        (Ok(()), env)
    } else {
        match spec_eval_atomic_type_exprs(ctors[0].types, env) {
            Err(err) => (Err(err), env),
            Ok(ts) => {
                let t = spec_nest_function_types(ts, parent);
                match spec_annotate_type(env, ctors[0].tag, t, span) {
                    Err(err) => (Err(err), env),
                    Ok(env1) => match spec_declare_var(env1, ctors[0].tag, t, span) {
                        Err(err) => (Err(err), env1),
                        Ok(env2) => spec_register_data_constructors(env2, parent, ctors.drop_first(), span),
                    },
                }
            },
        }
    }
}


// --- outcomes ---

/// An outcome without a value, read as a model.
pub open spec fn unit_view(r: FogResult<()>) -> Result<(), ErrorModel> {
    match r {
        Ok(()) => Ok(()),
        Err(e) => Err(e@),
    }
}

/// Whether a computed type agrees with its model: the type, and the
/// substitution after it, on success; the error otherwise.
pub open spec fn agrees_typed(r: FogResult<Monotype>, s: SubstModel, expected: Typed) -> bool {
    match expected.0 {
        Ok(t) => r matches Ok(x) && x@ == t && s == expected.1,
        Err(e) => r matches Err(x) && x@ == e,
    }
}

pub open spec fn opt_monotype_view(o: Option<Monotype>) -> Option<MonotypeModel> {
    match o {
        Some(t) => Some(t@),
        None => None,
    }
}

fn static_check_error(message: String, span: Span) -> (e: FogError)
    ensures
        e@ == static_error(message@, Some(span)),
{
    FogError::new(ErrorKind::StaticCheck, message, Some(span))
}

fn type_mismatch(expected: &Monotype, found: &Monotype, span: Span) -> (e: FogError)
    ensures
        e@ == type_mismatch_error(expected@, found@, span),
{
    let mut message = string_from("expected type `");
    let a = expected.to_text();
    message.append(a.as_str());
    message.append("`, found `");
    let b = found.to_text();
    message.append(b.as_str());
    message.append("`");
    static_check_error(message, span)
}

fn tuple_size_detail(n: usize, t: &Monotype) -> (r: String)
    ensures
        r@ == "expected a tuple of "@ + spec_decimal(n as nat) + " element(s), found `"@ + monotype_text(t@) + "`"@,
{
    let mut message = string_from("expected a tuple of ");
    let count = usize_to_decimal(n);
    message.append(count.as_str());
    message.append(" element(s), found `");
    let text = t.to_text();
    message.append(text.as_str());
    message.append("`");
    message
}

fn not_tuple_detail(t: &Monotype) -> (r: String)
    ensures
        r@ == "expected a tuple type, found `"@ + monotype_text(t@) + "`"@,
{
    let mut message = string_from("expected a tuple type, found `");
    let text = t.to_text();
    message.append(text.as_str());
    message.append("`");
    message
}

/// The monotype of a literal.
pub fn literal_type_of(literal: &Literal) -> (m: Monotype)
    ensures
        m@ == literal_type(literal@),
{
    match literal {
        Literal::Int32(_) => Monotype::Int32,
        Literal::Float32(_) => Monotype::Float32,
    }
}

// --- binding patterns ---

/// The parameter types of a function type, up to `arity` of them, and what
/// remains of it.
pub fn uncurry_function_type(ty: &Monotype, arity: usize) -> (r: (Vec<Monotype>, Monotype))
    ensures
        (monotype_views(r.0@), r.1@) == spec_uncurry_function_type(ty@, arity as nat),
    decreases arity,
{
    if arity == 0 {
        let out: Vec<Monotype> = Vec::new();
        assert(monotype_views(out@) =~= Seq::<MonotypeModel>::empty());
        return (out, ty.copy());
    }
    match ty {
        Monotype::Function(p, r) => {
            let (mut rest, ret) = uncurry_function_type(r, arity - 1);
            let ghost rest_before = rest@;
            let mut out: Vec<Monotype> = Vec::new();
            out.push(p.copy());
            out.append(&mut rest);
            proof {
                let (ps, _) = spec_uncurry_function_type(r@, (arity - 1) as nat);
                lemma_monotype_views(out@);
                lemma_monotype_views(rest_before);
                assert(out@ =~= seq![out@[0]] + rest_before);
                assert(monotype_views(out@) =~= seq![p@] + ps);
            }
            (out, ret)
        },
        _ => {
            let out: Vec<Monotype> = Vec::new();
            assert(monotype_views(out@) =~= Seq::<MonotypeModel>::empty());
            (out, ty.copy())
        },
    }
}


/// Binds a match arm pattern to the type it is matched against, in the
/// innermost scope.
fn bind_match_arm_pattern(pattern: &CoreMatchArmPattern, expected_type: &Monotype, env: &mut Environment) -> (r:
    FogResult<()>)
    requires
        old(env)@.len() >= 1,
    ensures
        final(env)@.len() == old(env)@.len(),
        final(env)@.drop_last() == old(env)@.drop_last(),
        (unit_view(r), final(env)@) == spec_bind_pattern(pattern@, expected_type@, old(env)@),
    decreases pattern,
{
    match pattern {
        CoreMatchArmPattern::Literal { literal, span } => {
            let literal_type = literal_type_of(literal);
            if !(literal_type == *expected_type) {
                return Err(type_mismatch(expected_type, &literal_type, *span));
            }
            Ok(())
        },
        CoreMatchArmPattern::Identifier { name, span } => {
            proof {
                reveal_strlit("_");
            }
            if str_eq(name.as_str(), "_") {
                Ok(())
            } else if name.unicode_len() > 0 && is_uppercase(name.get_char(0)) {
                let var = match env.get_value_var(name.as_str(), *span) {
                    Ok(v) => v,
                    Err(e) => return Err(e),
                };
                if !(var.scheme.monotype == *expected_type) {
                    return Err(type_mismatch(expected_type, &var.scheme.monotype, *span));
                }
                Ok(())
            } else {
                env.declare_var(name.as_str(), Type::mono(expected_type.copy()), *span)
            }
        },
        CoreMatchArmPattern::Tuple { items, span } => {
            match expected_type {
                Monotype::Product(cs) => {
                    proof {
                        lemma_monotype_views(cs@);
                        lemma_arm_pattern_views(items@);
                    }
                    if items.len() != cs.len() {
                        let message = tuple_size_detail(items.len(), expected_type);
                        return Err(static_check_error(message, *span));
                    }
                    bind_match_arm_patterns(items, cs, env)
                },
                _ => {
                    let message = not_tuple_detail(expected_type);
                    Err(static_check_error(message, *span))
                },
            }
        },
        CoreMatchArmPattern::DataConstructor { name, args, span } => {
            let var = match env.get_value_var(name.as_str(), *span) {
                Ok(v) => v,
                Err(e) => return Err(e),
            };
            let (param_types, return_type) = uncurry_function_type(&var.scheme.monotype, args.len());
            proof {
                lemma_monotype_views(param_types@);
                lemma_arm_pattern_views(args@);
            }
            if param_types.len() != args.len() || !(return_type == *expected_type) {
                return Err(type_mismatch(expected_type, &return_type, *span));
            }
            bind_match_arm_patterns(args, &param_types, env)
        },
    }
}

/// Binds each pattern to the type at its position, in order.
fn bind_match_arm_patterns(items: &Vec<CoreMatchArmPattern>, types: &Vec<Monotype>, env: &mut Environment) -> (r:
    FogResult<()>)
    requires
        old(env)@.len() >= 1,
        items@.len() == types@.len(),
    ensures
        final(env)@.len() == old(env)@.len(),
        final(env)@.drop_last() == old(env)@.drop_last(),
        (unit_view(r), final(env)@) == spec_bind_patterns(arm_pattern_views(items@), monotype_views(types@), old(env)@),
    decreases items,
{
    let ghost iv = arm_pattern_views(items@);
    let ghost tv = monotype_views(types@);
    let ghost e0 = env@;
    proof {
        lemma_arm_pattern_views(items@);
        lemma_monotype_views(types@);
        assert(iv.skip(0) =~= iv);
        assert(tv.skip(0) =~= tv);
    }
    let mut i: usize = 0;
    while i < items.len()
        invariant
            i <= items.len(),
            items@.len() == types@.len(),
            iv == arm_pattern_views(items@),
            tv == monotype_views(types@),
            iv.len() == items.len(),
            tv.len() == types.len(),
            forall|j: int| 0 <= j < items.len() ==> #[trigger] iv[j] == items@[j]@,
            forall|j: int| 0 <= j < types.len() ==> #[trigger] tv[j] == types@[j]@,
            env@.len() == e0.len(),
            env@.drop_last() == e0.drop_last(),
            e0 == old(env)@,
            e0.len() >= 1,
            spec_bind_patterns(iv, tv, e0) == spec_bind_patterns(iv.skip(i as int), tv.skip(i as int), env@),
        decreases items.len() - i,
    {
        proof {
            assert(decreases_to!(*items => items@));
            assert(decreases_to!(items@ => items@[i as int]));
            assert(iv.skip(i as int)[0] == iv[i as int]);
            assert(tv.skip(i as int)[0] == tv[i as int]);
            assert(iv.skip(i as int).drop_first() =~= iv.skip(i + 1));
            assert(tv.skip(i as int).drop_first() =~= tv.skip(i + 1));
        }
        match bind_match_arm_pattern(&items[i], &types[i], env) {
            Err(e) => return Err(e),
            Ok(()) => {},
        }
        i += 1;
    }
    proof {
        assert(iv.skip(i as int) =~= Seq::<ArmPatternModel>::empty());
    }
    Ok(())
}

/// Binds an item of a tuple declaration pattern to its part of the type.
fn bind_tuple_decl_pattern_item(item: &CoreTupleDeclPattern, expected_type: &Monotype, span: Span, env: &mut Environment) -> (r:
    FogResult<()>)
    requires
        old(env)@.len() >= 1,
    ensures
        final(env)@.len() == old(env)@.len(),
        final(env)@.drop_last() == old(env)@.drop_last(),
        (unit_view(r), final(env)@) == spec_bind_tuple_item(item@, expected_type@, span, old(env)@),
    decreases item,
{
    match item {
        CoreTupleDeclPattern::Identifier { name, .. } => env.declare_var(
            name.as_str(),
            Type::mono(expected_type.copy()),
            span,
        ),
        CoreTupleDeclPattern::Tuple { items, .. } => {
            match expected_type {
                Monotype::Product(cs) => {
                    proof {
                        lemma_monotype_views(cs@);
                        lemma_tuple_pattern_views(items@);
                    }
                    if items.len() != cs.len() {
                        let message = tuple_size_detail(items.len(), expected_type);
                        return Err(static_check_error(message, span));
                    }
                    bind_tuple_decl_pattern_items(items, cs, span, env)
                },
                _ => {
                    let message = not_tuple_detail(expected_type);
                    Err(static_check_error(message, span))
                },
            }
        },
    }
}

fn bind_tuple_decl_pattern_items(
    items: &Vec<CoreTupleDeclPattern>,
    types: &Vec<Monotype>,
    span: Span,
    env: &mut Environment,
) -> (r: FogResult<()>)
    requires
        old(env)@.len() >= 1,
        items@.len() == types@.len(),
    ensures
        final(env)@.len() == old(env)@.len(),
        final(env)@.drop_last() == old(env)@.drop_last(),
        (unit_view(r), final(env)@) == spec_bind_tuple_items(
            tuple_pattern_views(items@),
            monotype_views(types@),
            span,
            old(env)@,
        ),
    decreases items,
{
    let ghost iv = tuple_pattern_views(items@);
    let ghost tv = monotype_views(types@);
    let ghost e0 = env@;
    proof {
        lemma_tuple_pattern_views(items@);
        lemma_monotype_views(types@);
        assert(iv.skip(0) =~= iv);
        assert(tv.skip(0) =~= tv);
    }
    let mut i: usize = 0;
    while i < items.len()
        invariant
            i <= items.len(),
            items@.len() == types@.len(),
            iv == tuple_pattern_views(items@),
            tv == monotype_views(types@),
            iv.len() == items.len(),
            tv.len() == types.len(),
            forall|j: int| 0 <= j < items.len() ==> #[trigger] iv[j] == items@[j]@,
            forall|j: int| 0 <= j < types.len() ==> #[trigger] tv[j] == types@[j]@,
            env@.len() == e0.len(),
            env@.drop_last() == e0.drop_last(),
            e0 == old(env)@,
            e0.len() >= 1,
            spec_bind_tuple_items(iv, tv, span, e0) == spec_bind_tuple_items(
                iv.skip(i as int),
                tv.skip(i as int),
                span,
                env@,
            ),
        decreases items.len() - i,
    {
        proof {
            assert(decreases_to!(*items => items@));
            assert(decreases_to!(items@ => items@[i as int]));
            assert(iv.skip(i as int)[0] == iv[i as int]);
            assert(tv.skip(i as int)[0] == tv[i as int]);
            assert(iv.skip(i as int).drop_first() =~= iv.skip(i + 1));
            assert(tv.skip(i as int).drop_first() =~= tv.skip(i + 1));
        }
        match bind_tuple_decl_pattern_item(&items[i], &types[i], span, env) {
            Err(e) => return Err(e),
            Ok(()) => {},
        }
        i += 1;
    }
    proof {
        assert(iv.skip(i as int) =~= Seq::<TuplePatternModel>::empty());
    }
    Ok(())
}

/// Binds a tuple declaration pattern to the type of the declared
/// expression.
fn bind_tuple_decl_pattern(
    items: &Vec<CoreTupleDeclPattern>,
    expr_type: &Monotype,
    pattern: &CoreDeclPattern,
    expr: &CoreExpr,
    span: Span,
    env: &mut Environment,
) -> (r: FogResult<()>)
    requires
        old(env)@.len() >= 1,
    ensures
        final(env)@.len() == old(env)@.len(),
        final(env)@.drop_last() == old(env)@.drop_last(),
        (unit_view(r), final(env)@) == spec_bind_tuple_decl_pattern(
            tuple_pattern_views(items@),
            expr_type@,
            pattern@,
            expr@,
            span,
            old(env)@,
        ),
{
    proof {
        lemma_tuple_pattern_views(items@);
    }
    let detail = match expr_type {
        Monotype::Product(cs) => {
            proof {
                lemma_monotype_views(cs@);
            }
            if items.len() == cs.len() {
                return bind_tuple_decl_pattern_items(items, cs, span, env);
            }
            tuple_size_detail(items.len(), expr_type)
        },
        _ => not_tuple_detail(expr_type),
    };
    let mut message = string_from("type mismatch when assigning variable `");
    let e = expr.to_text();
    message.append(e.as_str());
    message.append("` with `");
    let p = pattern.to_text();
    message.append(p.as_str());
    message.append("`\n");
    message.append(detail.as_str());
    Err(static_check_error(message, span))
}


// --- declarations of types ---

/// Annotates the type of a variable with the scheme of a type expression.
fn check_type_annotation(name: &str, expr: &CoreAtomicTypeExpr, span: Span, env: &mut Environment) -> (r: FogResult<
    (),
>)
    requires
        old(env)@.len() >= 1,
    ensures
        final(env)@.len() == old(env)@.len(),
        final(env)@.drop_last() == old(env)@.drop_last(),
        (unit_view(r), final(env)@) == spec_check_type_annotation(name@, expr@, span, old(env)@),
{
    let ty = match eval_atomic_type_expr(expr, env) {
        Ok(t) => t,
        Err(e) => return Err(e),
    };
    env.annotate_type(name, ty, span)
}

/// Declares a type: annotates its kind from its type where the innermost
/// scope holds no annotation, and declares its type constructor; gives
/// the named type and the data constructors of a sum.
fn check_type_declaration(
    name: &str,
    params: &Vec<String>,
    expr: &CoreTypeExpr,
    span: Span,
    env: &mut Environment,
) -> (r: FogResult<(Type, Vec<DataConstructor>)>)
    requires
        old(env)@.len() >= 1,
    ensures
        final(env)@.len() == old(env)@.len(),
        final(env)@.drop_last() == old(env)@.drop_last(),
        match spec_check_type_declaration(name@, string_views(params@), expr@, span, old(env)@) {
            (Ok((named, ctors)), env2) => r matches Ok(x) && x.0@ == named && static_ctor_views(x.1@) == ctors
                && final(env)@ == env2,
            (Err(e), env2) => r matches Err(x) && x@ == e && final(env)@ == env2,
        },
{
    let (constructor, named, ctors) = match eval_type_expr(name, params, expr, env) {
        Ok(x) => x,
        Err(e) => return Err(e),
    };
    if !env.top_contains_type(name) {
        let kind = kind_of(&constructor.monotype);
        match env.annotate_kind(name, kind, span) {
            Ok(()) => {},
            Err(e) => return Err(e),
        }
    }
    match env.declare_type(name, constructor.monotype, span) {
        Ok(()) => Ok((named, ctors)),
        Err(e) => Err(e),
    }
}

/// The scheme of a function from the field types, in order, to the return
/// type.
pub fn nest_function_types(field_types: &Vec<Type>, return_type: Type) -> (t: Type)
    ensures
        t@ == spec_nest_function_types(type_views(field_types@), return_type@),
{
    let ghost tv = type_views(field_types@);
    let mut acc = return_type;
    let mut i: usize = field_types.len();
    proof {
        assert(tv.skip(tv.len() as int) =~= Seq::<TypeModel>::empty());
    }
    while i > 0
        invariant
            i <= field_types.len(),
            tv == type_views(field_types@),
            tv.len() == field_types.len(),
            acc@ == spec_nest_function_types(tv.skip(i as int), return_type@),
        decreases i,
    {
        proof {
            assert(tv.skip(i - 1)[0] == field_types@[i - 1]@);
            assert(tv.skip(i - 1).drop_first() =~= tv.skip(i as int));
        }
        acc = Type::function(&field_types[i - 1], &acc);
        i -= 1;
    }
    proof {
        assert(tv.skip(0) =~= tv);
    }
    acc
}

/// Annotates and declares each data constructor of a sum type, in order,
/// as a function from its fields to the sum type.
fn register_data_constructors(env: &mut Environment, parent_sum_type: &Type, ctors: &Vec<DataConstructor>, span: Span) -> (r:
    FogResult<()>)
    requires
        old(env)@.len() >= 1,
    ensures
        final(env)@.len() == old(env)@.len(),
        final(env)@.drop_last() == old(env)@.drop_last(),
        (unit_view(r), final(env)@) == spec_register_data_constructors(
            old(env)@,
            parent_sum_type@,
            static_ctor_views(ctors@),
            span,
        ),
{
    let ghost cv = static_ctor_views(ctors@);
    let ghost e0 = env@;
    proof {
        assert(cv.skip(0) =~= cv);
    }
    let mut i: usize = 0;
    while i < ctors.len()
        invariant
            i <= ctors.len(),
            cv == static_ctor_views(ctors@),
            cv.len() == ctors.len(),
            env@.len() == e0.len(),
            env@.drop_last() == e0.drop_last(),
            e0 == old(env)@,
            e0.len() >= 1,
            spec_register_data_constructors(e0, parent_sum_type@, cv, span) == spec_register_data_constructors(
                env@,
                parent_sum_type@,
                cv.skip(i as int),
                span,
            ),
        decreases ctors.len() - i,
    {
        proof {
            assert(cv.skip(i as int)[0] == ctors@[i as int]@);
            assert(cv.skip(i as int).drop_first() =~= cv.skip(i + 1));
        }
        let types = match eval_atomic_type_exprs(&ctors[i].types, env) {
            Ok(ts) => ts,
            Err(e) => return Err(e),
        };
        let ctor_type = nest_function_types(&types, parent_sum_type.copy());
        let declared = ctor_type.copy();
        match env.annotate_type(ctors[i].tag.as_str(), ctor_type, span) {
            Ok(()) => {},
            Err(e) => return Err(e),
        }
        match env.declare_var(ctors[i].tag.as_str(), declared, span) {
            Ok(()) => {},
            Err(e) => return Err(e),
        }
        i += 1;
    }
    proof {
        assert(cv.skip(i as int) =~= Seq::<DataConstructorModel>::empty());
    }
    Ok(())
}


// --- computing the types of expressions ---

/// The types `ts` put before the types of an outcome.
pub open spec fn prepend_types(
    ts: Seq<MonotypeModel>,
    rest: (Result<Seq<MonotypeModel>, ErrorModel>, SubstModel),
) -> (Result<Seq<MonotypeModel>, ErrorModel>, SubstModel) {
    match rest.0 {
        Ok(us) => (Ok(ts + us), rest.1),
        Err(e) => (Err(e), rest.1),
    }
}

/// The type of an expression in `env` under a substitution, which it
/// extends; the environment is left as it was.
pub fn expr_type_of(expr: &CoreExpr, env: &mut Environment, type_var_subst: &mut TypeVarSubst) -> (r: FogResult<
    Monotype,
>)
    requires
        old(env)@.len() >= 1,
    ensures
        final(env)@ == old(env)@,
        agrees_typed(r, final(type_var_subst)@, spec_expr_type_of(expr@, old(env)@, old(type_var_subst)@)),
    decreases expr, 0int,
{
    match expr {
        CoreExpr::Block { statements, span } => {
            env.push_scope();
            let r = block_expr_type_of(statements, env, type_var_subst, *span);
            env.pop_scope();
            r
        },
        CoreExpr::Identifier { name, span } => match env.get_value_var(name.as_str(), *span) {
            Ok(v) => Ok(v.scheme.monotype),
            Err(e) => Err(e),
        },
        CoreExpr::Literal { literal, .. } => Ok(literal_type_of(literal)),
        CoreExpr::Lambda { param_name, param_type, body, span } => {
            let param = match eval_atomic_type_expr(param_type, env) {
                Ok(t) => t,
                Err(e) => return Err(e),
            };
            let param_monotype = param.monotype.copy();
            env.push_scope();
            match env.declare_var(param_name.as_str(), param, *span) {
                Ok(()) => {},
                Err(e) => {
                    env.pop_scope();
                    return Err(e);
                },
            }
            let r = expr_type_of(body, env, type_var_subst);
            env.pop_scope();
            match r {
                Ok(return_type) => Ok(Monotype::function(param_monotype, return_type)),
                Err(e) => Err(e),
            }
        },
        CoreExpr::FunctionAppl { callee, arg, span } => {
            let callee_type = match expr_type_of(callee, env, type_var_subst) {
                Ok(t) => t,
                Err(e) => return Err(e),
            };
            match callee_type {
                Monotype::Function(param_type, return_type) => {
                    let arg_type = match expr_type_of(arg, env, type_var_subst) {
                        Ok(t) => t,
                        Err(e) => return Err(e),
                    };
                    match unify_type(&param_type, &arg_type, type_var_subst, *span) {
                        Ok(()) => {},
                        Err(e) => return Err(e),
                    }
                    Ok(substitute_types(&return_type, type_var_subst))
                },
                _ => {
                    let mut message = callee_type.to_text();
                    message.append(" is not a function type");
                    Err(static_check_error(message, *span))
                },
            }
        },
        CoreExpr::Tuple { items, .. } => match exprs_type_of(items, env, type_var_subst) {
            Ok(ts) => Ok(Monotype::Product(ts)),
            Err(e) => Err(e),
        },
        CoreExpr::Match { scrutinee, arms, span } => {
            let scrutinee_type = match expr_type_of(scrutinee, env, type_var_subst) {
                Ok(t) => t,
                Err(e) => return Err(e),
            };
            arms_type_of(arms, &scrutinee_type, env, type_var_subst, *span)
        },
    }
}

/// The types of expressions, in order, each under the substitution left by
/// the one before.
fn exprs_type_of(items: &Vec<CoreExpr>, env: &mut Environment, type_var_subst: &mut TypeVarSubst) -> (r: FogResult<
    Vec<Monotype>,
>)
    requires
        old(env)@.len() >= 1,
    ensures
        final(env)@ == old(env)@,
        match spec_exprs_type_of(core_expr_views(items@), old(env)@, old(type_var_subst)@) {
            (Ok(ts), s) => r matches Ok(x) && monotype_views(x@) == ts && final(type_var_subst)@ == s,
            (Err(e), _) => r matches Err(x) && x@ == e,
        },
    decreases items, 0int,
{
    let ghost v = core_expr_views(items@);
    let ghost e0 = env@;
    let ghost s0 = type_var_subst@;
    let mut out: Vec<Monotype> = Vec::new();
    proof {
        lemma_core_expr_views(items@);
        assert(v.skip(0) =~= v);
        assert(monotype_views(out@) =~= Seq::<MonotypeModel>::empty());
        match spec_exprs_type_of(v, e0, s0).0 {
            Ok(us) => assert(Seq::<MonotypeModel>::empty() + us =~= us),
            Err(_) => {},
        }
    }
    let mut i: usize = 0;
    while i < items.len()
        invariant
            i <= items.len(),
            v == core_expr_views(items@),
            v.len() == items.len(),
            forall|j: int| 0 <= j < items.len() ==> #[trigger] v[j] == items@[j]@,
            env@ == e0,
            e0 == old(env)@,
            e0.len() >= 1,
            s0 == old(type_var_subst)@,
            spec_exprs_type_of(v, e0, s0) == prepend_types(
                monotype_views(out@),
                spec_exprs_type_of(v.skip(i as int), e0, type_var_subst@),
            ),
        decreases items.len() - i,
    {
        proof {
            assert(decreases_to!(*items => items@));
            assert(decreases_to!(items@ => items@[i as int]));
            assert(v.skip(i as int)[0] == v[i as int]);
            assert(v.skip(i as int).drop_first() =~= v.skip(i + 1));
        }
        let ghost s_before = type_var_subst@;
        match expr_type_of(&items[i], env, type_var_subst) {
            Err(e) => return Err(e),
            Ok(t) => {
                let ghost before = out@;
                out.push(t);
                proof {
                    assert(out@.drop_last() =~= before);
                    assert(monotype_views(out@) == monotype_views(before).push(t@));
                    match spec_exprs_type_of(v.skip(i + 1), e0, type_var_subst@).0 {
                        Ok(us) => {
                            assert(monotype_views(before) + (seq![t@] + us) =~= monotype_views(out@) + us);
                        },
                        Err(_) => {},
                    }
                }
            },
        }
        i += 1;
    }
    proof {
        assert(v.skip(i as int) =~= Seq::<CoreExprModel>::empty());
        assert(monotype_views(out@) + Seq::<MonotypeModel>::empty() =~= monotype_views(out@));
    }
    Ok(out)
}

/// The type of the arms of a match: each binds its pattern to the
/// scrutinee's type in a scope of its own, and all have the type of the
/// first.
fn arms_type_of(
    arms: &Vec<CoreMatchArm>,
    scrutinee_type: &Monotype,
    env: &mut Environment,
    type_var_subst: &mut TypeVarSubst,
    span: Span,
) -> (r: FogResult<Monotype>)
    requires
        old(env)@.len() >= 1,
    ensures
        final(env)@ == old(env)@,
        agrees_typed(
            r,
            final(type_var_subst)@,
            spec_arms_type_of(
                core_match_arm_views(arms@),
                scrutinee_type@,
                old(env)@,
                old(type_var_subst)@,
                None,
                span,
            ),
        ),
    decreases arms, 0int,
{
    let ghost v = core_match_arm_views(arms@);
    let ghost e0 = env@;
    let ghost s0 = type_var_subst@;
    proof {
        lemma_core_match_arm_views(arms@);
        assert(v.skip(0) =~= v);
    }
    let mut res: Option<Monotype> = None;
    let mut i: usize = 0;
    while i < arms.len()
        invariant
            i <= arms.len(),
            v == core_match_arm_views(arms@),
            v.len() == arms.len(),
            forall|j: int| 0 <= j < arms.len() ==> #[trigger] v[j] == arms@[j]@,
            env@ == e0,
            e0 == old(env)@,
            e0.len() >= 1,
            spec_arms_type_of(v, scrutinee_type@, e0, s0, None, span) == spec_arms_type_of(
                v.skip(i as int),
                scrutinee_type@,
                e0,
                type_var_subst@,
                opt_monotype_view(res),
                span,
            ),
            s0 == old(type_var_subst)@,
        decreases arms.len() - i,
    {
        proof {
            assert(decreases_to!(*arms => arms@));
            assert(decreases_to!(arms@ => arms@[i as int]));
            assert(decreases_to!(arms@[i as int] => arms@[i as int].value_expr));
            assert(v.skip(i as int)[0] == v[i as int]);
            assert(v.skip(i as int).drop_first() =~= v.skip(i + 1));
        }
        env.push_scope();
        match bind_match_arm_pattern(&arms[i].pattern, scrutinee_type, env) {
            Ok(()) => {},
            Err(e) => {
                env.pop_scope();
                return Err(e);
            },
        }
        let arm_type = expr_type_of(&arms[i].value_expr, env, type_var_subst);
        env.pop_scope();
        let arm_type = match arm_type {
            Ok(t) => t,
            Err(e) => return Err(e),
        };
        match res {
            None => {
                res = Some(arm_type);
            },
            Some(t) => {
                if !(t == arm_type) {
                    return Err(type_mismatch(&t, &arm_type, span));
                }
                res = Some(t);
            },
        }
        i += 1;
    }
    proof {
        assert(v.skip(i as int) =~= Seq::<CoreMatchArmModel>::empty());
    }
    match res {
        Some(t) => Ok(t),
        None => Err(static_check_error(string_from("match with no arms"), span)),
    }
}

/// The type of the statements of a block, in the innermost scope: that of
/// the first expression statement after the declarations before it.
fn block_expr_type_of(
    statements: &Vec<CoreStatement>,
    env: &mut Environment,
    type_var_subst: &mut TypeVarSubst,
    span: Span,
) -> (r: FogResult<Monotype>)
    requires
        old(env)@.len() >= 1,
    ensures
        final(env)@.len() == old(env)@.len(),
        final(env)@.drop_last() == old(env)@.drop_last(),
        agrees_typed(
            r,
            final(type_var_subst)@,
            spec_block_type_of(core_statement_views(statements@), old(env)@, old(type_var_subst)@, span),
        ),
    decreases statements, 0int,
{
    let ghost v = core_statement_views(statements@);
    let ghost e0 = env@;
    proof {
        lemma_core_statement_views(statements@);
        assert(v.skip(0) =~= v);
    }
    let mut i: usize = 0;
    while i < statements.len()
        invariant
            i <= statements.len(),
            v == core_statement_views(statements@),
            v.len() == statements.len(),
            forall|j: int| 0 <= j < statements.len() ==> #[trigger] v[j] == statements@[j]@,
            env@.len() == e0.len(),
            env@.drop_last() == e0.drop_last(),
            e0 == old(env)@,
            e0.len() >= 1,
            spec_block_type_of(v, e0, old(type_var_subst)@, span) == spec_block_type_of(
                v.skip(i as int),
                env@,
                type_var_subst@,
                span,
            ),
        decreases statements.len() - i,
    {
        proof {
            assert(decreases_to!(*statements => statements@));
            assert(decreases_to!(statements@ => statements@[i as int]));
            assert(v.skip(i as int)[0] == v[i as int]);
            assert(v.skip(i as int).drop_first() =~= v.skip(i + 1));
        }
        match &statements[i] {
            CoreStatement::KindAnnotation { name, expr, span: sp } => {
                let kind = match eval_kind_expr(expr) {
                    Ok(k) => k,
                    Err(e) => return Err(e),
                };
                match env.annotate_kind(name.as_str(), kind, *sp) {
                    Ok(()) => {},
                    Err(e) => return Err(e),
                }
            },
            CoreStatement::TypeDeclaration { name, params, expr, span: sp } => {
                match check_type_declaration(name.as_str(), params, expr, *sp, env) {
                    Ok(_) => {},
                    Err(e) => return Err(e),
                }
            },
            CoreStatement::TypeAnnotation { name, expr, span: sp } => {
                match check_type_annotation(name.as_str(), expr, *sp, env) {
                    Ok(()) => {},
                    Err(e) => return Err(e),
                }
            },
            CoreStatement::VarDeclaration { pattern, expr, span: sp } => {
                proof {
                    assert(decreases_to!(statements@[i as int] => statements@[i as int]->VarDeclaration_expr));
                }
                match check_declaration(pattern, expr, *sp, env, type_var_subst) {
                    Ok(()) => {},
                    Err(e) => return Err(e),
                }
            },
            CoreStatement::Expression { expr, .. } => {
                proof {
                    assert(decreases_to!(statements@[i as int] => statements@[i as int]->Expression_expr));
                }
                return expr_type_of(expr, env, type_var_subst);
            },
        }
        i += 1;
    }
    Err(static_check_error(string_from("final operand not found in block statement"), span))
}

/// A declaration: the type of the expression, bound to the pattern in the
/// innermost scope.
fn check_declaration(
    pattern: &CoreDeclPattern,
    expr: &CoreExpr,
    span: Span,
    env: &mut Environment,
    type_var_subst: &mut TypeVarSubst,
) -> (r: FogResult<()>)
    requires
        old(env)@.len() >= 1,
    ensures
        final(env)@.len() == old(env)@.len(),
        final(env)@.drop_last() == old(env)@.drop_last(),
        unit_view(r) == spec_check_declaration(pattern@, expr@, span, old(env)@, old(type_var_subst)@).0,
        final(env)@ == spec_check_declaration(pattern@, expr@, span, old(env)@, old(type_var_subst)@).1,
        r is Ok ==> final(type_var_subst)@ == spec_check_declaration(
            pattern@,
            expr@,
            span,
            old(env)@,
            old(type_var_subst)@,
        ).2,
    decreases expr, 1int,
{
    let expr_type = match expr_type_of(expr, env, type_var_subst) {
        Ok(t) => t,
        Err(e) => return Err(e),
    };
    match pattern {
        CoreDeclPattern::Identifier { name, .. } => env.declare_var(name.as_str(), Type::mono(expr_type), span),
        CoreDeclPattern::Tuple { items, .. } => bind_tuple_decl_pattern(items, &expr_type, pattern, expr, span, env),
    }
}


// --- the checks of a scope ---

/// The environment of a scope and the errors met so far.
pub type CheckState = (EnvModel, Seq<ErrorModel>);

/// A type declared in a scope: its named type, its data constructors and
/// where it was declared.
pub type DeclaredType = (TypeModel, Seq<DataConstructorModel>, Span);

/// An environment step that records its error and goes on.
pub open spec fn record(state: CheckState, r: (Result<(), ErrorModel>, EnvModel)) -> CheckState {
    match r.0 {
        Ok(()) => (r.1, state.1),
        Err(e) => (r.1, state.1.push(e)),
    }
}

/// The first pass: kind annotations.
pub open spec fn kind_step(state: CheckState, st: CoreStatementModel) -> CheckState {
    match st {
        CoreStatementModel::KindAnnotation { name, expr, span } => record(
            state,
            step(spec_annotate_kind(state.0, name, spec_eval_kind_expr(expr), span), state.0),
        ),
        _ => state,
    }
}

/// The second pass: type declarations, which collect their data
/// constructors.
pub open spec fn type_declaration_step(
    state: (EnvModel, Seq<ErrorModel>, Seq<DeclaredType>),
    st: CoreStatementModel,
) -> (EnvModel, Seq<ErrorModel>, Seq<DeclaredType>) {
    match st {
        CoreStatementModel::TypeDeclaration { name, params, expr, span } => match spec_check_type_declaration(
            name,
            params,
            expr,
            span,
            state.0,
        ) {
            (Ok((named, ctors)), env2) => (env2, state.1, state.2.push((named, ctors, span))),
            (Err(e), env2) => (env2, state.1.push(e), state.2),
        },
        _ => state,
    }
}

/// The third pass: the data constructors of each declared type.
pub open spec fn register_step(state: CheckState, item: DeclaredType) -> CheckState {
    record(state, spec_register_data_constructors(state.0, item.0, item.1, item.2))
}

/// The fourth pass: type annotations of variables.
pub open spec fn annotation_step(state: CheckState, st: CoreStatementModel) -> CheckState {
    match st {
        CoreStatementModel::TypeAnnotation { name, expr, span } => record(
            state,
            spec_check_type_annotation(name, expr, span, state.0),
        ),
        _ => state,
    }
}

/// The fifth pass: declarations of variables, each under a substitution
/// of its own.
pub open spec fn declaration_step(state: CheckState, st: CoreStatementModel) -> CheckState {
    match st {
        CoreStatementModel::VarDeclaration { pattern, expr, span } => {
            let (r, env2, _) = spec_check_declaration(pattern, expr, span, state.0, Map::empty());
            record(state, (r, env2))
        },
        _ => state,
    }
}

/// The last pass: expression statements, each under a substitution of its
/// own.
pub open spec fn expression_step(state: CheckState, st: CoreStatementModel) -> CheckState {
    match st {
        CoreStatementModel::Expression { expr, .. } => match spec_expr_type_of(expr, state.0, Map::empty()).0 {
            Ok(_) => state,
            Err(e) => (state.0, state.1.push(e)),
        },
        _ => state,
    }
}

/// The checks of the statements of a scope, in passes: kind annotations,
/// type declarations, their data constructors, type annotations,
/// declarations of variables, and expressions; every error is recorded and
/// the checks go on.
pub open spec fn spec_check_scope(stmts: Seq<CoreStatementModel>, state: CheckState) -> CheckState {
    let kinds = stmts.fold_left(state, |s: CheckState, st: CoreStatementModel| kind_step(s, st));
    let decls = stmts.fold_left(
        (kinds.0, kinds.1, Seq::<DeclaredType>::empty()),
        |s: (EnvModel, Seq<ErrorModel>, Seq<DeclaredType>), st: CoreStatementModel| type_declaration_step(s, st),
    );
    let registered = decls.2.fold_left((decls.0, decls.1), |s: CheckState, item: DeclaredType| register_step(s, item));
    let annotated = stmts.fold_left(registered, |s: CheckState, st: CoreStatementModel| annotation_step(s, st));
    let declared = stmts.fold_left(annotated, |s: CheckState, st: CoreStatementModel| declaration_step(s, st));
    stmts.fold_left(declared, |s: CheckState, st: CoreStatementModel| expression_step(s, st))
}

pub proof fn lemma_fold_take<A, B>(s: Seq<A>, b: B, f: spec_fn(B, A) -> B, i: int)
    requires
        0 <= i < s.len(),
    ensures
        s.take(i + 1).fold_left(b, f) == f(s.take(i).fold_left(b, f), s[i]),
{
    assert(s.take(i + 1).drop_last() =~= s.take(i));
}

fn kind_pass(stmts: &Vec<CoreStatement>, env: &mut Environment, errors: &mut Vec<FogError>)
    requires
        old(env)@.len() >= 1,
    ensures
        final(env)@.len() == old(env)@.len(),
        (final(env)@, error_views(final(errors)@)) == core_statement_views(stmts@).fold_left(
            (old(env)@, error_views(old(errors)@)),
            |s: CheckState, st: CoreStatementModel| kind_step(s, st),
        ),
{
    let ghost v = core_statement_views(stmts@);
    let ghost f = |s: CheckState, st: CoreStatementModel| kind_step(s, st);
    let ghost init = (env@, error_views(errors@));
    proof {
        lemma_core_statement_views(stmts@);
        assert(v.take(0).fold_left(init, f) == init);
    }
    let mut i: usize = 0;
    while i < stmts.len()
        invariant
            i <= stmts.len(),
            v == core_statement_views(stmts@),
            v.len() == stmts.len(),
            forall|j: int| 0 <= j < stmts.len() ==> #[trigger] v[j] == stmts@[j]@,
            f == (|s: CheckState, st: CoreStatementModel| kind_step(s, st)),
            init == (old(env)@, error_views(old(errors)@)),
            env@.len() == old(env)@.len(),
            old(env)@.len() >= 1,
            (env@, error_views(errors@)) == v.take(i as int).fold_left(init, f),
        decreases stmts.len() - i,
    {
        proof {
            lemma_fold_take(v, init, f, i as int);
        }
        match &stmts[i] {
            CoreStatement::KindAnnotation { name, expr, span } => {
                match eval_kind_expr(expr) {
                    Ok(kind) => match env.annotate_kind(name.as_str(), kind, *span) {
                        Ok(()) => {},
                        Err(e) => {
                            errors.push(e);
                        },
                    },
                    Err(e) => {
                        errors.push(e);
                    },
                }
            },
            _ => {},
        }
        proof {
            assert(error_views(errors@) =~= v.take(i + 1).fold_left(init, f).1);
        }
        i += 1;
    }
    proof {
        assert(v.take(stmts.len() as int) =~= v);
    }
}


/// The type annotations of variables, in order.
fn annotation_pass(stmts: &Vec<CoreStatement>, env: &mut Environment, errors: &mut Vec<FogError>)
    requires
        old(env)@.len() >= 1,
    ensures
        final(env)@.len() == old(env)@.len(),
        (final(env)@, error_views(final(errors)@)) == core_statement_views(stmts@).fold_left(
            (old(env)@, error_views(old(errors)@)),
            |s: CheckState, st: CoreStatementModel| annotation_step(s, st),
        ),
{
    let ghost v = core_statement_views(stmts@);
    let ghost f = |s: CheckState, st: CoreStatementModel| annotation_step(s, st);
    let ghost init = (env@, error_views(errors@));
    proof {
        lemma_core_statement_views(stmts@);
        assert(v.take(0).fold_left(init, f) == init);
    }
    let mut i: usize = 0;
    while i < stmts.len()
        invariant
            i <= stmts.len(),
            v == core_statement_views(stmts@),
            v.len() == stmts.len(),
            forall|j: int| 0 <= j < stmts.len() ==> #[trigger] v[j] == stmts@[j]@,
            f == (|s: CheckState, st: CoreStatementModel| annotation_step(s, st)),
            init == (old(env)@, error_views(old(errors)@)),
            env@.len() == old(env)@.len(),
            old(env)@.len() >= 1,
            (env@, error_views(errors@)) == v.take(i as int).fold_left(init, f),
        decreases stmts.len() - i,
    {
        proof {
            lemma_fold_take(v, init, f, i as int);
        }
        match &stmts[i] {
            CoreStatement::TypeAnnotation { name, expr, span } => {
                match check_type_annotation(name.as_str(), expr, *span, env) {
                    Ok(()) => {},
                    Err(e) => {
                        errors.push(e);
                    },
                }
            },
            _ => {},
        }
        proof {
            assert(error_views(errors@) =~= v.take(i + 1).fold_left(init, f).1);
        }
        i += 1;
    }
    proof {
        assert(v.take(stmts.len() as int) =~= v);
    }
}

/// The declarations of variables, in order, each under a substitution of
/// its own.
fn declaration_pass(stmts: &Vec<CoreStatement>, env: &mut Environment, errors: &mut Vec<FogError>)
    requires
        old(env)@.len() >= 1,
    ensures
        final(env)@.len() == old(env)@.len(),
        (final(env)@, error_views(final(errors)@)) == core_statement_views(stmts@).fold_left(
            (old(env)@, error_views(old(errors)@)),
            |s: CheckState, st: CoreStatementModel| declaration_step(s, st),
        ),
{
    let ghost v = core_statement_views(stmts@);
    let ghost f = |s: CheckState, st: CoreStatementModel| declaration_step(s, st);
    let ghost init = (env@, error_views(errors@));
    proof {
        lemma_core_statement_views(stmts@);
        assert(v.take(0).fold_left(init, f) == init);
    }
    let mut i: usize = 0;
    while i < stmts.len()
        invariant
            i <= stmts.len(),
            v == core_statement_views(stmts@),
            v.len() == stmts.len(),
            forall|j: int| 0 <= j < stmts.len() ==> #[trigger] v[j] == stmts@[j]@,
            f == (|s: CheckState, st: CoreStatementModel| declaration_step(s, st)),
            init == (old(env)@, error_views(old(errors)@)),
            env@.len() == old(env)@.len(),
            old(env)@.len() >= 1,
            (env@, error_views(errors@)) == v.take(i as int).fold_left(init, f),
        decreases stmts.len() - i,
    {
        proof {
            lemma_fold_take(v, init, f, i as int);
        }
        match &stmts[i] {
            CoreStatement::VarDeclaration { pattern, expr, span } => {
                let mut type_var_subst = TypeVarSubst::new();
                match check_declaration(pattern, expr, *span, env, &mut type_var_subst) {
                    Ok(()) => {},
                    Err(e) => {
                        errors.push(e);
                    },
                }
            },
            _ => {},
        }
        proof {
            assert(error_views(errors@) =~= v.take(i + 1).fold_left(init, f).1);
        }
        i += 1;
    }
    proof {
        assert(v.take(stmts.len() as int) =~= v);
    }
}

/// The expression statements, in order, each under a substitution of its
/// own.
fn expression_pass(stmts: &Vec<CoreStatement>, env: &mut Environment, errors: &mut Vec<FogError>)
    requires
        old(env)@.len() >= 1,
    ensures
        final(env)@.len() == old(env)@.len(),
        (final(env)@, error_views(final(errors)@)) == core_statement_views(stmts@).fold_left(
            (old(env)@, error_views(old(errors)@)),
            |s: CheckState, st: CoreStatementModel| expression_step(s, st),
        ),
{
    let ghost v = core_statement_views(stmts@);
    let ghost f = |s: CheckState, st: CoreStatementModel| expression_step(s, st);
    let ghost init = (env@, error_views(errors@));
    proof {
        lemma_core_statement_views(stmts@);
        assert(v.take(0).fold_left(init, f) == init);
    }
    let mut i: usize = 0;
    while i < stmts.len()
        invariant
            i <= stmts.len(),
            v == core_statement_views(stmts@),
            v.len() == stmts.len(),
            forall|j: int| 0 <= j < stmts.len() ==> #[trigger] v[j] == stmts@[j]@,
            f == (|s: CheckState, st: CoreStatementModel| expression_step(s, st)),
            init == (old(env)@, error_views(old(errors)@)),
            env@.len() == old(env)@.len(),
            old(env)@.len() >= 1,
            (env@, error_views(errors@)) == v.take(i as int).fold_left(init, f),
        decreases stmts.len() - i,
    {
        proof {
            lemma_fold_take(v, init, f, i as int);
        }
        match &stmts[i] {
            CoreStatement::Expression { expr, .. } => {
                let mut type_var_subst = TypeVarSubst::new();
                match expr_type_of(expr, env, &mut type_var_subst) {
                    Ok(_) => {},
                    Err(e) => {
                        errors.push(e);
                    },
                }
            },
            _ => {},
        }
        proof {
            assert(error_views(errors@) =~= v.take(i + 1).fold_left(init, f).1);
        }
        i += 1;
    }
    proof {
        assert(v.take(stmts.len() as int) =~= v);
    }
}

pub open spec fn declared_views(s: Seq<(Type, Vec<DataConstructor>, Span)>) -> Seq<DeclaredType> {
    s.map_values(|x: (Type, Vec<DataConstructor>, Span)| (x.0@, static_ctor_views(x.1@), x.2))
}

/// The type declarations, in order; gives what each declared.
fn type_declaration_pass(stmts: &Vec<CoreStatement>, env: &mut Environment, errors: &mut Vec<FogError>) -> (declared:
    Vec<(Type, Vec<DataConstructor>, Span)>)
    requires
        old(env)@.len() >= 1,
    ensures
        final(env)@.len() == old(env)@.len(),
        (final(env)@, error_views(final(errors)@), declared_views(declared@)) == core_statement_views(
            stmts@,
        ).fold_left(
            (old(env)@, error_views(old(errors)@), Seq::<DeclaredType>::empty()),
            |s: (EnvModel, Seq<ErrorModel>, Seq<DeclaredType>), st: CoreStatementModel|
                type_declaration_step(s, st),
        ),
{
    let ghost v = core_statement_views(stmts@);
    let ghost f = |s: (EnvModel, Seq<ErrorModel>, Seq<DeclaredType>), st: CoreStatementModel|
        type_declaration_step(s, st);
    let ghost init = (env@, error_views(errors@), Seq::<DeclaredType>::empty());
    let mut declared: Vec<(Type, Vec<DataConstructor>, Span)> = Vec::new();
    proof {
        lemma_core_statement_views(stmts@);
        assert(v.take(0).fold_left(init, f) == init);
        assert(declared_views(declared@) =~= Seq::<DeclaredType>::empty());
    }
    let mut i: usize = 0;
    while i < stmts.len()
        invariant
            i <= stmts.len(),
            v == core_statement_views(stmts@),
            v.len() == stmts.len(),
            forall|j: int| 0 <= j < stmts.len() ==> #[trigger] v[j] == stmts@[j]@,
            f == (|s: (EnvModel, Seq<ErrorModel>, Seq<DeclaredType>), st: CoreStatementModel|
                type_declaration_step(s, st)),
            init == (old(env)@, error_views(old(errors)@), Seq::<DeclaredType>::empty()),
            env@.len() == old(env)@.len(),
            old(env)@.len() >= 1,
            (env@, error_views(errors@), declared_views(declared@)) == v.take(i as int).fold_left(init, f),
        decreases stmts.len() - i,
    {
        proof {
            lemma_fold_take(v, init, f, i as int);
        }
        match &stmts[i] {
            CoreStatement::TypeDeclaration { name, params, expr, span } => {
                match check_type_declaration(name.as_str(), params, expr, *span, env) {
                    Ok((named, ctors)) => {
                        declared.push((named, ctors, *span));
                    },
                    Err(e) => {
                        errors.push(e);
                    },
                }
            },
            _ => {},
        }
        proof {
            assert(error_views(errors@) =~= v.take(i + 1).fold_left(init, f).1);
            assert(declared_views(declared@) =~= v.take(i + 1).fold_left(init, f).2);
        }
        i += 1;
    }
    proof {
        assert(v.take(stmts.len() as int) =~= v);
    }
    declared
}

/// The data constructors of each declared type, in order.
fn register_pass(declared: &Vec<(Type, Vec<DataConstructor>, Span)>, env: &mut Environment, errors: &mut Vec<FogError>)
    requires
        old(env)@.len() >= 1,
    ensures
        final(env)@.len() == old(env)@.len(),
        (final(env)@, error_views(final(errors)@)) == declared_views(declared@).fold_left(
            (old(env)@, error_views(old(errors)@)),
            |s: CheckState, item: DeclaredType| register_step(s, item),
        ),
{
    let ghost v = declared_views(declared@);
    let ghost f = |s: CheckState, item: DeclaredType| register_step(s, item);
    let ghost init = (env@, error_views(errors@));
    proof {
        assert(v.take(0).fold_left(init, f) == init);
    }
    let mut i: usize = 0;
    while i < declared.len()
        invariant
            i <= declared.len(),
            v == declared_views(declared@),
            v.len() == declared.len(),
            f == (|s: CheckState, item: DeclaredType| register_step(s, item)),
            init == (old(env)@, error_views(old(errors)@)),
            env@.len() == old(env)@.len(),
            old(env)@.len() >= 1,
            (env@, error_views(errors@)) == v.take(i as int).fold_left(init, f),
        decreases declared.len() - i,
    {
        proof {
            lemma_fold_take(v, init, f, i as int);
        }
        let (parent, ctors, span) = &declared[i];
        match register_data_constructors(env, parent, ctors, *span) {
            Ok(()) => {},
            Err(e) => {
                errors.push(e);
            },
        }
        proof {
            assert(error_views(errors@) =~= v.take(i + 1).fold_left(init, f).1);
        }
        i += 1;
    }
    proof {
        assert(v.take(declared.len() as int) =~= v);
    }
}

/// Checks the statements of a scope in passes, recording every error.
pub fn check_scope(stmts: &Vec<CoreStatement>, env: &mut Environment, all_errors: &mut Vec<FogError>)
    requires
        old(env)@.len() >= 1,
    ensures
        final(env)@.len() == old(env)@.len(),
        (final(env)@, error_views(final(all_errors)@)) == spec_check_scope(
            core_statement_views(stmts@),
            (old(env)@, error_views(old(all_errors)@)),
        ),
{
    kind_pass(stmts, env, all_errors);
    let declared = type_declaration_pass(stmts, env, all_errors);
    register_pass(&declared, env, all_errors);
    annotation_pass(stmts, env, all_errors);
    declaration_pass(stmts, env, all_errors);
    expression_pass(stmts, env, all_errors);
}


// --- programs ---

/// Value variables by name, all declared, a later one of a name winning.
pub open spec fn declared_vars_map(s: Seq<(Seq<char>, TypeModel)>) -> Map<Seq<char>, VarModel>
    decreases s.len(),
{
    if s.len() == 0 {
        Map::empty()
    } else {
        declared_vars_map(s.drop_last()).insert(s.last().0, VarModel { scheme: s.last().1, declared: true })
    }
}

/// Type names by name, a later one of a name winning.
pub open spec fn type_vars_map(s: Seq<(Seq<char>, TypeVarModel)>) -> Map<Seq<char>, TypeVarModel>
    decreases s.len(),
{
    if s.len() == 0 {
        Map::empty()
    } else {
        type_vars_map(s.drop_last()).insert(s.last().0, s.last().1)
    }
}

/// The environment every program is checked in: one scope of the built-in
/// types and values.
pub open spec fn top_env() -> EnvModel {
    seq![
        ScopeModel {
            vars: declared_vars_map(builtin_variable_entries()),
            types: type_vars_map(builtin_type_entries()),
        },
    ]
}

/// The errors of the static checks of a program.
pub open spec fn spec_check(stmts: Seq<CoreStatementModel>) -> Seq<ErrorModel> {
    spec_check_scope(stmts, (top_env(), Seq::empty())).1
}

fn create_top_env() -> (env: Environment)
    ensures
        env@ == top_env(),
{
    let mut env = Environment::new();
    let types = get_static_check_types();
    let ghost tv = builtin_type_entries();
    proof {
        assert(tv.take(0) =~= Seq::<(Seq<char>, TypeVarModel)>::empty());
        assert(types@.map_values(|v: TypeVariable| type_var_entry(v)).len() == types@.len());
    }
    let mut i: usize = 0;
    while i < types.len()
        invariant
            i <= types.len(),
            tv == builtin_type_entries(),
            types@.map_values(|v: TypeVariable| type_var_entry(v)) == tv,
            tv.len() == types@.len(),
            env@ == seq![ScopeModel { vars: Map::empty(), types: type_vars_map(tv.take(i as int)) }],
        decreases types.len() - i,
    {
        let t = types[i].copy();
        proof {
            assert(type_var_entry(types@[i as int]) == tv[i as int]);
            assert(type_var_model(t) == type_var_model(types@[i as int]));
            assert(tv.take(i + 1).drop_last() =~= tv.take(i as int));
        }
        env.insert_type_var(t);
        proof {
            assert(env@ =~= seq![ScopeModel { vars: Map::empty(), types: type_vars_map(tv.take(i + 1)) }]);
        }
        i += 1;
    }
    let vars = get_static_check_variables();
    let ghost vv = builtin_variable_entries();
    proof {
        assert(tv.take(types.len() as int) =~= tv);
        assert(vv.take(0) =~= Seq::<(Seq<char>, TypeModel)>::empty());
        assert(vars@.map_values(|v: ValueVariable| value_var_entry(v)).len() == vars@.len());
    }
    let mut j: usize = 0;
    while j < vars.len()
        invariant
            j <= vars.len(),
            vv == builtin_variable_entries(),
            vars@.map_values(|v: ValueVariable| value_var_entry(v)) == vv,
            forall|k: int| 0 <= k < vars@.len() ==> #[trigger] vars@[k].declared,
            vv.len() == vars@.len(),
            env@ == seq![
                ScopeModel {
                    vars: declared_vars_map(vv.take(j as int)),
                    types: type_vars_map(builtin_type_entries()),
                },
            ],
        decreases vars.len() - j,
    {
        let v = vars[j].copy();
        proof {
            assert(value_var_entry(vars@[j as int]) == vv[j as int]);
            assert(vv.take(j + 1).drop_last() =~= vv.take(j as int));
            assert(vars@[j as int].declared);
        }
        env.insert_value_var(v);
        proof {
            assert(env@ =~= seq![
                ScopeModel {
                    vars: declared_vars_map(vv.take(j + 1)),
                    types: type_vars_map(builtin_type_entries()),
                },
            ]);
        }
        j += 1;
    }
    proof {
        assert(vv.take(vars.len() as int) =~= vv);
    }
    env
}

/// The errors of the static checks of a program, in the order met.
pub fn check(stmts: &Vec<CoreStatement>) -> (errors: Vec<FogError>)
    ensures
        error_views(errors@) == spec_check(core_statement_views(stmts@)),
{
    let mut top_env = create_top_env();
    let mut all_errors: Vec<FogError> = Vec::new();
    proof {
        assert(error_views(all_errors@) =~= Seq::<ErrorModel>::empty());
    }
    check_scope(stmts, &mut top_env, &mut all_errors);
    all_errors
}

} // verus!
