//! Evaluation of kind and type expressions.

use vstd::prelude::*;

use crate::error::ErrorKind;
use crate::error::ErrorModel;
use crate::error::FogError;
use crate::error::FogResult;
use crate::lexer::chars::is_lowercase;
use crate::lexer::chars::spec_is_lowercase;
use crate::parser::core_expr::AtomicTypeExprModel;
use crate::parser::core_expr::CoreAtomicTypeExpr;
use crate::parser::core_expr::CoreTypeExpr;
use crate::parser::core_expr::DataConstructorModel;
use crate::parser::core_expr::TypeExprModel;
use crate::parser::core_expr::data_constructor_views;
use crate::parser::core_expr::lemma_atomic_type_expr_views;
use crate::static_check::environment::EnvModel;
use crate::static_check::environment::Environment;
use crate::static_check::environment::lookup_type;
use crate::static_check::environment::type_not_found;
use crate::static_check::static_check::static_error;
use crate::static_check::type_text::type_text;
use crate::static_check::types::copy_names;
use crate::static_check::types::scheme_function;
use crate::static_check::types::scheme_product;
use crate::static_check::types::spec_substitute_var;
use crate::static_check::types::type_views;
use crate::util::string_from;
use crate::parser::core_expr::CoreDataConstructor;
use crate::parser::core_expr::CoreKindExpr;
use crate::parser::core_expr::atomic_type_expr_views;
use crate::parser::core_expr::copy_atomic_type_exprs;
use crate::static_check::kind::Kind;
use crate::static_check::names::insert_name;
use crate::static_check::names::sorted_names;
use crate::static_check::names::sorted_of;
use crate::static_check::names::lemma_sorted_of;
use crate::static_check::types::TypeModel;
use crate::static_check::types::DataConstructor;
use crate::static_check::types::Monotype;
use crate::static_check::types::MonotypeModel;
use crate::static_check::types::Type;
use crate::static_check::types::lemma_monotype_views;
use crate::util::string_views;

verus! {

/// What an annotation denotes: a kind, or a type.
pub enum Annotation {
    Kind(Kind),
    Type(Type),
}

// --- kind ---

/// The kind a kind expression denotes.
pub open spec fn spec_eval_kind_expr(expr: CoreKindExpr) -> Kind
    decreases expr,
{
    match expr {
        CoreKindExpr::Type { .. } => Kind::Type,
        CoreKindExpr::Constraint { .. } => Kind::Constraint,
        CoreKindExpr::Function { param_kind, return_kind, .. } => Kind::Function(
            Box::new(spec_eval_kind_expr(*param_kind)),
            Box::new(spec_eval_kind_expr(*return_kind)),
        ),
    }
}

pub fn eval_kind_expr(expr: &CoreKindExpr) -> (r: FogResult<Kind>)
    ensures
        r is Ok,
        r->Ok_0 == spec_eval_kind_expr(*expr),
    decreases expr,
{
    match expr {
        CoreKindExpr::Type { .. } => Ok(Kind::Type),
        CoreKindExpr::Constraint { .. } => Ok(Kind::Constraint),
        CoreKindExpr::Function { param_kind, return_kind, .. } => {
            let p = eval_kind_expr(param_kind);
            let r = eval_kind_expr(return_kind);
            match (p, r) {
                (Ok(p), Ok(r)) => Ok(Kind::Function(Box::new(p), Box::new(r))),
                (Err(e), _) => Err(e),
                (_, Err(e)) => Err(e),
            }
        },
    }
}

// --- type variables of a monotype ---

/// The variables that occur in a monotype, binders of type constructors
/// included.
pub open spec fn spec_type_variables(m: MonotypeModel) -> Set<Seq<char>>
    decreases m,
{
    match m {
        MonotypeModel::Variable(name) => set![name],
        MonotypeModel::IO(t) => spec_type_variables(*t),
        MonotypeModel::Function(p, r) => spec_type_variables(*p) + spec_type_variables(*r),
        MonotypeModel::Product(ts) => spec_type_variables_all(ts),
        MonotypeModel::Named(_, ts) => spec_type_variables_all(ts),
        MonotypeModel::TypeConstructor(_, t) => spec_type_variables(*t),
        _ => Set::empty(),
    }
}

pub open spec fn spec_type_variables_all(s: Seq<MonotypeModel>) -> Set<Seq<char>>
    decreases s,
{
    if s.len() == 0 {
        Set::empty()
    } else {
        spec_type_variables_all(s.drop_last()) + spec_type_variables(s.last())
    }
}

/// `m` as a scheme quantified over its variables that are not among
/// `params`, in order.
pub open spec fn scheme_of(m: MonotypeModel, params: Seq<Seq<char>>) -> TypeModel {
    TypeModel { vars: sorted_of(spec_type_variables(m).difference(params.to_set())), monotype: m }
}

/// Adds to `vars` the variables of `ty` that are not among `params`.
pub fn find_type_variables(ty: &Monotype, vars: &mut Vec<String>, params: &Vec<String>)
    requires
        sorted_names(string_views(old(vars)@)),
    ensures
        sorted_names(string_views(final(vars)@)),
        string_views(final(vars)@).to_set() == string_views(old(vars)@).to_set() + spec_type_variables(
            ty@,
        ).difference(string_views(params@).to_set()),
    decreases ty,
{
    match ty {
        Monotype::Variable(name) => {
            let mut found = false;
            let mut i: usize = 0;
            while i < params.len()
                invariant
                    i <= params.len(),
                    found <==> exists|j: int| 0 <= j < i && params@[j]@ == name@,
                decreases params.len() - i,
            {
                if crate::static_check::types::str_eq(params[i].as_str(), name.as_str()) {
                    found = true;
                }
                i += 1;
            }
            proof {
                if string_views(params@).to_set().contains(name@) {
                    let j = choose|j: int| 0 <= j < params@.len() && string_views(params@)[j] == name@;
                    assert(params@[j]@ == name@);
                }
                if found {
                    let j = choose|j: int| 0 <= j < params@.len() && params@[j]@ == name@;
                    assert(string_views(params@)[j] == name@);
                }
            }
            if !found {
                insert_name(vars, name);
            }
            proof {
                assert(string_views(final(vars)@).to_set() =~= string_views(old(vars)@).to_set()
                    + spec_type_variables(ty@).difference(string_views(params@).to_set()));
            }
        },
        Monotype::IO(t) => find_type_variables(t, vars, params),
        Monotype::Function(p, r) => {
            find_type_variables(p, vars, params);
            find_type_variables(r, vars, params);
            proof {
                let ps = string_views(params@).to_set();
                assert(string_views(final(vars)@).to_set() =~= string_views(old(vars)@).to_set()
                    + spec_type_variables(ty@).difference(ps));
            }
        },
        Monotype::Product(ts) => find_type_variables_all(ts, vars, params),
        Monotype::Named(_, ts) => find_type_variables_all(ts, vars, params),
        Monotype::TypeConstructor(_, t) => find_type_variables(t, vars, params),
        _ => {
            assert(string_views(final(vars)@).to_set() =~= string_views(old(vars)@).to_set()
                + spec_type_variables(ty@).difference(string_views(params@).to_set()));
        },
    }
}

fn find_type_variables_all(ts: &Vec<Monotype>, vars: &mut Vec<String>, params: &Vec<String>)
    requires
        sorted_names(string_views(old(vars)@)),
    ensures
        sorted_names(string_views(final(vars)@)),
        string_views(final(vars)@).to_set() == string_views(old(vars)@).to_set()
            + spec_type_variables_all(crate::static_check::types::monotype_views(ts@)).difference(
            string_views(params@).to_set(),
        ),
    decreases ts,
{
    let ghost ps = string_views(params@).to_set();
    let ghost v = crate::static_check::types::monotype_views(ts@);
    proof {
        lemma_monotype_views(ts@);
    }
    let mut i: usize = 0;
    while i < ts.len()
        invariant
            i <= ts.len(),
            v.len() == ts.len(),
            forall|j: int| 0 <= j < ts.len() ==> #[trigger] v[j] == ts@[j]@,
            ps == string_views(params@).to_set(),
            sorted_names(string_views(vars@)),
            string_views(vars@).to_set() == string_views(old(vars)@).to_set()
                + spec_type_variables_all(v.take(i as int)).difference(ps),
        decreases ts.len() - i,
    {
        proof {
            assert(decreases_to!(*ts => ts@));
            assert(decreases_to!(ts@ => ts@[i as int]));
        }
        let ghost before = string_views(vars@).to_set();
        find_type_variables(&ts[i], vars, params);
        proof {
            assert(v.take(i + 1).drop_last() =~= v.take(i as int));
            assert(v.take(i + 1).last() == ts@[i as int]@);
            assert(string_views(vars@).to_set() =~= string_views(old(vars)@).to_set()
                + spec_type_variables_all(v.take(i + 1)).difference(ps));
        }
        i += 1;
    }
    assert(v.take(ts.len() as int) =~= v);
}

/// The monotype as a scheme quantified over its variables that are not
/// among `params`, in order.
pub fn wrap_type_scheme(monotype: &Monotype, params: &Vec<String>) -> (t: Type)
    ensures
        t@ == scheme_of(monotype@, string_views(params@)),
        sorted_names(t@.vars),
        t@.vars.to_set() == spec_type_variables(monotype@).difference(string_views(params@).to_set()),
        t@.monotype == monotype@,
{
    let mut vars: Vec<String> = Vec::new();
    assert(string_views(vars@).to_set() =~= Set::<Seq<char>>::empty());
    find_type_variables(monotype, &mut vars, params);
    assert(string_views(vars@).to_set() =~= spec_type_variables(monotype@).difference(
        string_views(params@).to_set(),
    ));
    proof {
        lemma_sorted_of(string_views(vars@));
    }
    Type { vars, monotype: monotype.copy() }
}

// --- data constructors ---

pub fn eval_data_constructor(ctor: &CoreDataConstructor) -> (r: FogResult<DataConstructor>)
    ensures
        r is Ok,
        r->Ok_0.tag@ == ctor.tag@,
        atomic_type_expr_views(r->Ok_0.types@) == atomic_type_expr_views(ctor.types@),
{
    Ok(DataConstructor { tag: ctor.tag.clone(), types: copy_atomic_type_exprs(&ctor.types) })
}

// --- type expressions ---

/// The scheme a type expression denotes: a lowercase name is a type
/// variable, another name the monotype it was declared as; arrows and
/// products are quantified over the variables of their parts; a type
/// constructor applied to an argument is its body with the argument for its
/// parameter.
pub open spec fn spec_eval_atomic_type_expr(expr: AtomicTypeExprModel, env: EnvModel) -> Result<TypeModel, ErrorModel>
    decreases expr,
{
    match expr {
        AtomicTypeExprModel::Identifier { name, span } => if name.len() > 0 && spec_is_lowercase(name[0]) {
            Ok(TypeModel { vars: Seq::empty(), monotype: MonotypeModel::Variable(name) })
        } else {
            match lookup_type(env, name) {
                None => Err(type_not_found(name, span)),
                Some(v) => match v.ty {
                    Some(t) => Ok(TypeModel { vars: Seq::empty(), monotype: t }),
                    None => Err(static_error("undeclared type `"@ + name + "`"@, Some(span))),
                },
            }
        },
        AtomicTypeExprModel::Function { param_type, return_type, .. } => match spec_eval_atomic_type_expr(
            *param_type,
            env,
        ) {
            Err(e) => Err(e),
            Ok(p) => match spec_eval_atomic_type_expr(*return_type, env) {
                Err(e) => Err(e),
                Ok(r) => Ok(scheme_function(p, r)),
            },
        },
        AtomicTypeExprModel::Product { types, .. } => match spec_eval_atomic_type_exprs(types, env) {
            Err(e) => Err(e),
            Ok(ts) => Ok(scheme_product(ts)),
        },
        AtomicTypeExprModel::FunctionAppl { callee, arg, span } => match spec_eval_atomic_type_expr(*callee, env) {
            Err(e) => Err(e),
            Ok(c) => match c.monotype {
                MonotypeModel::TypeConstructor(param, body) => match spec_eval_atomic_type_expr(*arg, env) {
                    Err(e) => Err(e),
                    Ok(a) => Ok(TypeModel { vars: c.vars, monotype: spec_substitute_var(*body, param, a.monotype) }),
                },
                _ => Err(static_error("`"@ + type_text(c) + "` is not a valid type constructor"@, Some(span))),
            },
        },
    }
}

pub open spec fn spec_eval_atomic_type_exprs(s: Seq<AtomicTypeExprModel>, env: EnvModel) -> Result<
    Seq<TypeModel>,
    ErrorModel,
>
    decreases s,
{
    if s.len() == 0 {
        Ok(Seq::empty())
    } else {
        match spec_eval_atomic_type_expr(s[0], env) {
            Err(e) => Err(e),
            Ok(t) => match spec_eval_atomic_type_exprs(s.drop_first(), env) {
                Err(e) => Err(e),
                Ok(ts) => Ok(seq![t] + ts),
            },
        }
    }
}

/// The scheme that a type expression denotes in `env`.
pub fn eval_atomic_type_expr(expr: &CoreAtomicTypeExpr, env: &Environment) -> (r: FogResult<Type>)
    ensures
        match spec_eval_atomic_type_expr(expr@, env@) {
            Ok(t) => r matches Ok(x) && x@ == t,
            Err(e) => r matches Err(x) && x@ == e,
        },
    decreases expr,
{
    let span = expr.span();
    match expr {
        CoreAtomicTypeExpr::Identifier { name, .. } => {
            let lowercase = name.unicode_len() > 0 && is_lowercase(name.get_char(0));
            if lowercase {
                return Ok(Type::mono(Monotype::Variable(name.clone())));
            }
            match env.get_type_var(name.as_str(), span) {
                Err(e) => Err(e),
                Ok(var) => match var.ty {
                    Some(t) => Ok(Type::mono(t)),
                    None => {
                        let mut message = string_from("undeclared type `");
                        message.append(name.as_str());
                        message.append("`");
                        Err(FogError::new(ErrorKind::StaticCheck, message, Some(span)))
                    },
                },
            }
        },
        CoreAtomicTypeExpr::Function { param_type, return_type, .. } => {
            let p = match eval_atomic_type_expr(param_type, env) {
                Ok(p) => p,
                Err(e) => return Err(e),
            };
            let r = match eval_atomic_type_expr(return_type, env) {
                Ok(r) => r,
                Err(e) => return Err(e),
            };
            Ok(Type::function(&p, &r))
        },
        CoreAtomicTypeExpr::Product { types, .. } => match eval_atomic_type_exprs(types, env) {
            Ok(out) => Ok(Type::product(&out)),
            Err(e) => Err(e),
        },
        CoreAtomicTypeExpr::FunctionAppl { callee, arg, .. } => {
            let callee_type = match eval_atomic_type_expr(callee, env) {
                Ok(t) => t,
                Err(e) => return Err(e),
            };
            match &callee_type.monotype {
                Monotype::TypeConstructor(param, body) => {
                    let arg_type = match eval_atomic_type_expr(arg, env) {
                        Ok(t) => t,
                        Err(e) => return Err(e),
                    };
                    let res = body.substitute_var(param.as_str(), &arg_type.monotype);
                    Ok(Type::poly(copy_names(&callee_type.vars), res))
                },
                _ => {
                    let mut message = string_from("`");
                    let text = callee_type.to_text();
                    message.append(text.as_str());
                    message.append("` is not a valid type constructor");
                    Err(FogError::new(ErrorKind::StaticCheck, message, Some(span)))
                },
            }
        },
    }
}

/// The schemes of type expressions, in order; the first error met.
pub fn eval_atomic_type_exprs(types: &Vec<CoreAtomicTypeExpr>, env: &Environment) -> (r: FogResult<Vec<Type>>)
    ensures
        match spec_eval_atomic_type_exprs(atomic_type_expr_views(types@), env@) {
            Ok(ts) => r matches Ok(x) && type_views(x@) == ts,
            Err(e) => r matches Err(x) && x@ == e,
        },
    decreases types,
{
    let ghost v = atomic_type_expr_views(types@);
    proof {
        lemma_atomic_type_expr_views(types@);
        assert(v.skip(0) =~= v);
    }
    let mut out: Vec<Type> = Vec::new();
    let mut i: usize = 0;
    while i < types.len()
        invariant
            i <= types.len(),
            v == atomic_type_expr_views(types@),
            v.len() == types.len(),
            forall|j: int| 0 <= j < types.len() ==> #[trigger] v[j] == types@[j]@,
            spec_eval_atomic_type_exprs(v, env@) == match spec_eval_atomic_type_exprs(v.skip(i as int), env@) {
                Ok(ts) => Ok(type_views(out@) + ts),
                Err(e) => Err(e),
            },
        decreases types.len() - i,
    {
        proof {
            assert(decreases_to!(*types => types@));
            assert(decreases_to!(types@ => types@[i as int]));
            assert(v.skip(i as int)[0] == v[i as int]);
            assert(v.skip(i as int).drop_first() =~= v.skip(i + 1));
        }
        match eval_atomic_type_expr(&types[i], env) {
            Ok(t) => {
                let ghost before = out@;
                out.push(t);
                proof {
                    assert(type_views(out@) =~= type_views(before).push(t@));
                    match spec_eval_atomic_type_exprs(v.skip(i + 1), env@) {
                        Ok(ts) => {
                            assert(type_views(before) + (seq![t@] + ts) =~= type_views(out@) + ts);
                        },
                        Err(_) => {},
                    }
                }
            },
            Err(e) => return Err(e),
        }
        i += 1;
    }
    proof {
        assert(v.skip(i as int) =~= Seq::<AtomicTypeExprModel>::empty());
        assert(type_views(out@) + Seq::<TypeModel>::empty() =~= type_views(out@));
    }
    Ok(out)
}

/// The type constructor of a sum type: its named type under one binder
/// for each parameter, the last outermost.
pub open spec fn type_constructor_of(named: MonotypeModel, params: Seq<Seq<char>>) -> MonotypeModel
    decreases params.len(),
{
    if params.len() == 0 {
        named
    } else {
        MonotypeModel::TypeConstructor(params.last(), Box::new(type_constructor_of(named, params.drop_last())))
    }
}

pub open spec fn named_type_of(name: Seq<char>, params: Seq<Seq<char>>) -> MonotypeModel {
    MonotypeModel::Named(name, params.map_values(|p: Seq<char>| MonotypeModel::Variable(p)))
}

/// A type declaration's right side: an atomic type is its scheme; a sum is
/// its type constructor, its named type and its data constructors.
pub open spec fn spec_eval_type_expr(
    name: Seq<char>,
    params: Seq<Seq<char>>,
    expr: TypeExprModel,
    env: EnvModel,
) -> Result<(TypeModel, TypeModel, Seq<DataConstructorModel>), ErrorModel> {
    match expr {
        TypeExprModel::Atomic(e) => match spec_eval_atomic_type_expr(e, env) {
            Err(err) => Err(err),
            Ok(t) => Ok((t, t, Seq::empty())),
        },
        TypeExprModel::Sum { ctors, .. } => Ok(
            (
                scheme_of(type_constructor_of(named_type_of(name, params), params), params),
                TypeModel { vars: Seq::empty(), monotype: named_type_of(name, params) },
                ctors,
            ),
        ),
    }
}

pub open spec fn static_ctor_views(s: Seq<DataConstructor>) -> Seq<DataConstructorModel> {
    s.map_values(|c: DataConstructor| c@)
}

/// Evaluates a type declaration's right side.
pub fn eval_type_expr(name: &str, params: &Vec<String>, expr: &CoreTypeExpr, env: &Environment) -> (r: FogResult<
    (Type, Type, Vec<DataConstructor>),
>)
    ensures
        match spec_eval_type_expr(name@, string_views(params@), expr@, env@) {
            Ok((a, b, c)) => r matches Ok(x) && x.0@ == a && x.1@ == b && static_ctor_views(x.2@) == c,
            Err(e) => r matches Err(x) && x@ == e,
        },
{
    match expr {
        CoreTypeExpr::Atomic(e) => match eval_atomic_type_expr(e, env) {
            Ok(t) => {
                let copy = t.copy();
                let ctors: Vec<DataConstructor> = Vec::new();
                assert(static_ctor_views(ctors@) =~= Seq::<DataConstructorModel>::empty());
                Ok((copy, t, ctors))
            },
            Err(e) => Err(e),
        },
        CoreTypeExpr::Sum { ctors, .. } => {
            let mut args: Vec<Monotype> = Vec::new();
            let mut i: usize = 0;
            while i < params.len()
                invariant
                    i <= params.len(),
                    args@.len() == i,
                    forall|j: int| 0 <= j < i ==> #[trigger] args@[j]@ == MonotypeModel::Variable(params@[j]@),
                decreases params.len() - i,
            {
                args.push(Monotype::Variable(params[i].clone()));
                i += 1;
            }
            proof {
                crate::static_check::types::lemma_monotype_views_eq(
                    args@,
                    string_views(params@).map_values(|p: Seq<char>| MonotypeModel::Variable(p)),
                );
            }
            let named = Monotype::Named(string_from(name), args);
            let mut type_constructor = named.copy();
            let mut k: usize = 0;
            while k < params.len()
                invariant
                    k <= params.len(),
                    named@ == named_type_of(name@, string_views(params@)),
                    type_constructor@ == type_constructor_of(named@, string_views(params@).take(k as int)),
                decreases params.len() - k,
            {
                type_constructor = Monotype::TypeConstructor(params[k].clone(), Box::new(type_constructor));
                proof {
                    let ps = string_views(params@);
                    assert(ps.take(k + 1).drop_last() =~= ps.take(k as int));
                }
                k += 1;
            }
            proof {
                assert(string_views(params@).take(params.len() as int) =~= string_views(params@));
            }
            let scheme = wrap_type_scheme(&type_constructor, params);
            let mut out: Vec<DataConstructor> = Vec::new();
            let mut j: usize = 0;
            while j < ctors.len()
                invariant
                    j <= ctors.len(),
                    out@.len() == j,
                    forall|m: int| 0 <= m < j ==> #[trigger] out@[m]@ == ctors@[m]@,
                decreases ctors.len() - j,
            {
                match eval_data_constructor(&ctors[j]) {
                    Ok(c) => out.push(c),
                    Err(e) => return Err(e),
                }
                j += 1;
            }
            proof {
                assert(static_ctor_views(out@) =~= data_constructor_views(ctors@));
            }
            Ok((scheme, Type::mono(named), out))
        },
    }
}

} // verus!
