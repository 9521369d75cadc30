//! Eager evaluation of a program in A-normal form. Evaluation may not end,
//! so each step spends fuel; running out of it is an outcome of its own.
use vstd::prelude::*;

use std::rc::Rc;

use crate::anf::anf::ANFAtomic;
use crate::anf::anf::ANFAtomicModel;
use crate::anf::anf::ANFDeclPattern;
use crate::anf::anf::ANFDeclPatternModel;
use crate::anf::anf::ANFStatement;
use crate::anf::anf::ANFStatementModel;
use crate::anf::anf::ANFValue;
use crate::anf::anf::ANFValueModel;
use crate::anf::anf::anf_arm_views;
use crate::anf::anf::anf_pattern_views;
use crate::anf::anf::anf_statement_views;
use crate::anf::anf::anf_value_views;
use crate::anf::anf::lemma_anf_arm_views;
use crate::anf::anf::lemma_anf_pattern_views;
use crate::anf::anf::lemma_anf_statement_views;
use crate::anf::anf::lemma_anf_value_views;
use crate::anf::anf_text::anf_var_text;
use crate::error::ErrorKind;
use crate::error::ErrorModel;
use crate::error::FogError;
use crate::error::Span;
use crate::interpreter::value::apply_builtin;
use crate::interpreter::value::binding_views;
use crate::interpreter::value::copy_bindings;
use crate::interpreter::value::lemma_binding_views;
use crate::interpreter::value::lemma_binding_views_append;
use crate::interpreter::value::builtin_in_range;
use crate::interpreter::value::copy_value;
use crate::interpreter::value::lemma_value_views;
use crate::interpreter::value::match_pattern;
use crate::interpreter::value::runtime_error;
use crate::interpreter::value::spec_apply_builtin;
use crate::interpreter::value::spec_match_pattern;
use crate::interpreter::value::value_text;
use crate::interpreter::value::value_views;
use crate::interpreter::value::BuiltinOp;
use crate::interpreter::value::IoKind;
use crate::interpreter::value::Value;
use crate::interpreter::value::ValueModel;
use crate::parser::Literal;
use crate::parser::LiteralModel;
use crate::static_check::types::str_eq;
use crate::util::string_from;

verus! {

// --- environments ---

/// The bindings in force, the later of two for one name winning; those
/// from `local_start` on belong to the innermost scope.
pub struct Environment {
    pub bindings: Vec<(String, Value)>,
    pub local_start: usize,
}

pub struct EnvModel {
    pub bindings: Seq<(Seq<char>, ValueModel)>,
    pub local_start: nat,
}

impl View for Environment {
    type V = EnvModel;

    open spec fn view(&self) -> EnvModel {
        EnvModel { bindings: binding_views(self.bindings@), local_start: self.local_start as nat }
    }
}

/// The value the latest binding of `name` holds.
pub open spec fn spec_lookup(b: Seq<(Seq<char>, ValueModel)>, name: Seq<char>) -> Option<ValueModel>
    decreases b.len(),
{
    if b.len() == 0 {
        None
    } else if b.last().0 == name {
        Some(b.last().1)
    } else {
        spec_lookup(b.drop_last(), name)
    }
}

/// Whether the innermost scope binds `name`.
pub open spec fn declared_locally(env: EnvModel, name: Seq<char>) -> bool {
    exists|j: int| env.local_start <= j < env.bindings.len() && #[trigger] env.bindings[j].0 == name
}

/// `name` bound to `v` in the innermost scope: `_` binds nothing, and a
/// name the scope binds already is an error.
pub open spec fn spec_declare(env: EnvModel, name: Seq<char>, v: ValueModel) -> Result<EnvModel, ErrorModel> {
    if name == "_"@ {
        Ok(env)
    } else if declared_locally(env, name) {
        Err(runtime_error("variable `"@ + name + "` already declared in the current scope"@))
    } else {
        Ok(EnvModel { bindings: env.bindings.push((name, v)), local_start: env.local_start })
    }
}

/// A scope inside `env`, with `b` bound in it.
pub open spec fn inner(env: EnvModel, b: Seq<(Seq<char>, ValueModel)>) -> EnvModel {
    EnvModel { bindings: env.bindings + b, local_start: env.bindings.len() }
}

/// The bindings a declaration's pattern makes of a value, in `env`.
pub open spec fn spec_declare_pattern(p: ANFDeclPatternModel, v: ValueModel, env: EnvModel) -> Result<EnvModel, ErrorModel>
    decreases p,
{
    match p {
        ANFDeclPatternModel::Single(var) => spec_declare(env, anf_var_text(var), v),
        ANFDeclPatternModel::Tuple(pats) => match v {
            ValueModel::Tuple(vals) => if pats.len() != vals.len() {
                Err(runtime_error("tuple declaration size mismatch"@))
            } else {
                spec_declare_items(pats, vals, env)
            },
            _ => Err(runtime_error("cannot declare a non-tuple value `"@ + value_text(v) + "` to a tuple"@)),
        },
    }
}

/// Each pattern declared with the value in the same place, left to right.
pub open spec fn spec_declare_items(pats: Seq<ANFDeclPatternModel>, vals: Seq<ValueModel>, env: EnvModel) -> Result<
    EnvModel,
    ErrorModel,
>
    decreases pats,
{
    if pats.len() == 0 || vals.len() == 0 {
        Ok(env)
    } else {
        match spec_declare_items(pats.drop_last(), vals.drop_last(), env) {
            Ok(e) => spec_declare_pattern(pats.last(), vals.last(), e),
            Err(err) => Err(err),
        }
    }
}

// --- outcomes ---

/// How an evaluation ends: with a result, with an error, with an integer
/// operation whose result does not fit in an `Int32`, or out of fuel.
pub enum Eval<T> {
    Done(T),
    Failed(FogError),
    Overflow,
    OutOfFuel,
}

pub enum EvalModel<T> {
    Done(T),
    Failed(ErrorModel),
    Overflow,
    OutOfFuel,
}

/// An outcome other than a result, carried over to another type.
pub open spec fn stop<A, B>(r: EvalModel<A>) -> EvalModel<B> {
    match r {
        EvalModel::Failed(e) => EvalModel::Failed(e),
        EvalModel::Overflow => EvalModel::Overflow,
        _ => EvalModel::OutOfFuel,
    }
}

pub open spec fn value_outcome(r: Eval<Value>) -> EvalModel<ValueModel> {
    match r {
        Eval::Done(v) => EvalModel::Done(v@),
        Eval::Failed(e) => EvalModel::Failed(e@),
        Eval::Overflow => EvalModel::Overflow,
        Eval::OutOfFuel => EvalModel::OutOfFuel,
    }
}

pub open spec fn values_outcome(r: Eval<Vec<Value>>) -> EvalModel<Seq<ValueModel>> {
    match r {
        Eval::Done(v) => EvalModel::Done(value_views(v@)),
        Eval::Failed(e) => EvalModel::Failed(e@),
        Eval::Overflow => EvalModel::Overflow,
        Eval::OutOfFuel => EvalModel::OutOfFuel,
    }
}

pub open spec fn scope_outcome(r: Eval<Option<Value>>) -> EvalModel<Option<ValueModel>> {
    match r {
        Eval::Done(Some(v)) => EvalModel::Done(Some(v@)),
        Eval::Done(None) => EvalModel::Done(None),
        Eval::Failed(e) => EvalModel::Failed(e@),
        Eval::Overflow => EvalModel::Overflow,
        Eval::OutOfFuel => EvalModel::OutOfFuel,
    }
}

// --- evaluation, in the model ---

/// A value evaluated in `env`.
pub open spec fn spec_eval_value(v: ANFValueModel, env: EnvModel, fuel: nat) -> EvalModel<ValueModel>
    decreases fuel, 0nat,
{
    if fuel == 0 {
        EvalModel::OutOfFuel
    } else {
        match v {
            ANFValueModel::Atomic(a) => spec_eval_atomic(a, env, (fuel - 1) as nat),
            ANFValueModel::FunctionAppl(c, a) => match spec_eval_atomic(c, env, (fuel - 1) as nat) {
                EvalModel::Done(f) => match spec_eval_atomic(a, env, (fuel - 1) as nat) {
                    EvalModel::Done(x) => spec_apply(f, x, (fuel - 1) as nat),
                    r => r,
                },
                r => r,
            },
        }
    }
}

/// A function value applied to an argument: a function's body is evaluated
/// in the bindings it captured with its parameter bound to the argument.
pub open spec fn spec_apply(f: ValueModel, x: ValueModel, fuel: nat) -> EvalModel<ValueModel>
    decreases fuel, 0nat,
{
    if fuel == 0 {
        EvalModel::OutOfFuel
    } else {
        match f {
            ValueModel::Function { param, body, captured } => spec_eval_value(
                body,
                EnvModel { bindings: captured.push((param, x)), local_start: captured.len() },
                (fuel - 1) as nat,
            ),
            ValueModel::Builtin { op, args } => if builtin_in_range(op, args, x) {
                match spec_apply_builtin(op, args, x) {
                    Ok(v) => EvalModel::Done(v),
                    Err(e) => EvalModel::Failed(e),
                }
            } else {
                EvalModel::Overflow
            },
            _ => EvalModel::Failed(runtime_error("cannot apply a non-function value"@)),
        }
    }
}

/// An atom evaluated in `env`.
pub open spec fn spec_eval_atomic(a: ANFAtomicModel, env: EnvModel, fuel: nat) -> EvalModel<ValueModel>
    decreases fuel, 0nat,
{
    if fuel == 0 {
        EvalModel::OutOfFuel
    } else {
        match a {
            ANFAtomicModel::Block { anfs, span } => match spec_eval_scope(anfs, inner(env, Seq::empty()), (fuel - 1) as nat) {
                EvalModel::Done(Some(v)) => EvalModel::Done(v),
                EvalModel::Done(None) => EvalModel::Failed(
                    ErrorModel {
                        kind: ErrorKind::Runtime,
                        message: "final operand not found in block statement"@,
                        span: Some(span),
                    },
                ),
                r => stop(r),
            },
            ANFAtomicModel::Literal { literal, .. } => match literal {
                LiteralModel::Int32(i) => EvalModel::Done(ValueModel::Int32(i)),
                LiteralModel::Float32(t) => EvalModel::Done(ValueModel::Float32Text(t)),
            },
            ANFAtomicModel::Var { var, .. } => match spec_lookup(env.bindings, anf_var_text(var)) {
                Some(v) => EvalModel::Done(v),
                None => EvalModel::Failed(
                    runtime_error("variable `"@ + anf_var_text(var) + "` not found in the current scope"@),
                ),
            },
            ANFAtomicModel::Lambda { param, body, .. } => EvalModel::Done(
                ValueModel::Function { param: anf_var_text(param), body: *body, captured: env.bindings },
            ),
            ANFAtomicModel::Tuple { items, .. } => match spec_eval_values(items, env, (fuel - 1) as nat) {
                EvalModel::Done(vs) => EvalModel::Done(ValueModel::Tuple(vs)),
                r => stop(r),
            },
            ANFAtomicModel::Match { scrutinee, arms, span } => match spec_eval_atomic(
                *scrutinee,
                env,
                (fuel - 1) as nat,
            ) {
                EvalModel::Done(v) => spec_eval_arms(v, arms, env, span, (fuel - 1) as nat),
                r => r,
            },
            ANFAtomicModel::Constructor { tag, items, .. } => match spec_eval_values(items, env, (fuel - 1) as nat) {
                EvalModel::Done(vs) => EvalModel::Done(ValueModel::Constructor { tag, values: vs }),
                r => stop(r),
            },
        }
    }
}

/// Each value evaluated in `env`, left to right; the first that does not
/// give a result ends the evaluation.
pub open spec fn spec_eval_values(items: Seq<ANFValueModel>, env: EnvModel, fuel: nat) -> EvalModel<Seq<ValueModel>>
    decreases fuel, items.len(),
{
    if items.len() == 0 {
        EvalModel::Done(Seq::empty())
    } else {
        match spec_eval_values(items.drop_last(), env, fuel) {
            EvalModel::Done(vs) => match spec_eval_value(items.last(), env, fuel) {
                EvalModel::Done(v) => EvalModel::Done(vs.push(v)),
                r => stop(r),
            },
            r => r,
        }
    }
}

/// The first arm whose pattern matches `v`, its value evaluated with the
/// pattern's bindings in a scope of their own.
pub open spec fn spec_eval_arms(
    v: ValueModel,
    arms: Seq<(crate::parser::core_expr::ArmPatternModel, ANFValueModel)>,
    env: EnvModel,
    span: Span,
    fuel: nat,
) -> EvalModel<ValueModel>
    decreases fuel, arms.len(),
{
    if arms.len() == 0 {
        EvalModel::Failed(
            ErrorModel { kind: ErrorKind::Runtime, message: "match expression not covered"@, span: Some(span) },
        )
    } else {
        match spec_match_pattern(v, arms[0].0) {
            Some(b) => spec_eval_value(arms[0].1, inner(env, b), fuel),
            None => spec_eval_arms(v, arms.drop_first(), env, span, fuel),
        }
    }
}

/// The declarations among `anfs` made in turn, each value evaluated in the
/// bindings made before it.
pub open spec fn spec_declare_all(anfs: Seq<ANFStatementModel>, env: EnvModel, fuel: nat) -> EvalModel<EnvModel>
    decreases fuel, anfs.len(),
{
    if anfs.len() == 0 {
        EvalModel::Done(env)
    } else {
        match spec_declare_all(anfs.drop_last(), env, fuel) {
            EvalModel::Done(e) => match anfs.last() {
                ANFStatementModel::Declaration(p, expr) => match spec_eval_value(expr, e, fuel) {
                    EvalModel::Done(val) => match spec_declare_pattern(p, val, e) {
                        Ok(e2) => EvalModel::Done(e2),
                        Err(err) => EvalModel::Failed(err),
                    },
                    r => stop(r),
                },
                ANFStatementModel::Value(_) => EvalModel::Done(e),
            },
            r => r,
        }
    }
}

/// The value of the first statement that is a value, if any.
pub open spec fn first_value(anfs: Seq<ANFStatementModel>) -> Option<ANFValueModel>
    decreases anfs.len(),
{
    if anfs.len() == 0 {
        None
    } else {
        match anfs[0] {
            ANFStatementModel::Value(v) => Some(v),
            _ => first_value(anfs.drop_first()),
        }
    }
}

/// A scope: its declarations made first, then the first value among its
/// statements evaluated, if there is one.
pub open spec fn spec_eval_scope(anfs: Seq<ANFStatementModel>, env: EnvModel, fuel: nat) -> EvalModel<Option<ValueModel>>
    decreases fuel, anfs.len() + 1,
{
    match spec_declare_all(anfs, env, fuel) {
        EvalModel::Done(e) => match first_value(anfs) {
            Some(v) => match spec_eval_value(v, e, fuel) {
                EvalModel::Done(x) => EvalModel::Done(Some(x)),
                r => stop(r),
            },
            None => EvalModel::Done(None),
        },
        r => stop(r),
    }
}

// --- laws ---

/// Evaluation is eager: an application evaluates its argument before the
/// call, so an argument that gives no value ends the application with its
/// own outcome, whatever the function would do with it.
pub proof fn law_eager_application(c: ANFAtomicModel, a: ANFAtomicModel, env: EnvModel, fuel: nat)
    requires
        fuel > 0,
        spec_eval_atomic(c, env, (fuel - 1) as nat) is Done,
        !(spec_eval_atomic(a, env, (fuel - 1) as nat) is Done),
    ensures
        spec_eval_value(ANFValueModel::FunctionAppl(c, a), env, fuel) == spec_eval_atomic(a, env, (fuel - 1) as nat),
{
}

/// A function's body is evaluated with the bindings the function captured,
/// its parameter bound to the argument on top of them: what the caller has
/// bound since does not reach it.
pub proof fn law_closure_scope(
    param: Seq<char>,
    body: ANFValueModel,
    captured: Seq<(Seq<char>, ValueModel)>,
    x: ValueModel,
    fuel: nat,
)
    requires
        fuel > 0,
    ensures
        spec_apply(ValueModel::Function { param, body, captured }, x, fuel) == spec_eval_value(
            body,
            EnvModel { bindings: captured.push((param, x)), local_start: captured.len() },
            (fuel - 1) as nat,
        ),
        spec_lookup(captured.push((param, x)), param) == Some(x),
{
}

// --- more fuel ---

proof fn lemma_fuel_value(v: ANFValueModel, env: EnvModel, f1: nat, f2: nat)
    requires
        f1 <= f2,
        !(spec_eval_value(v, env, f1) is OutOfFuel),
    ensures
        spec_eval_value(v, env, f2) == spec_eval_value(v, env, f1),
    decreases f1, 0nat,
{
    let g1 = (f1 - 1) as nat;
    let g2 = (f2 - 1) as nat;
    match v {
        ANFValueModel::Atomic(a) => {
            lemma_fuel_atomic(a, env, g1, g2);
        },
        ANFValueModel::FunctionAppl(c, a) => {
            lemma_fuel_atomic(c, env, g1, g2);
            match spec_eval_atomic(c, env, g1) {
                EvalModel::Done(f) => {
                    lemma_fuel_atomic(a, env, g1, g2);
                    match spec_eval_atomic(a, env, g1) {
                        EvalModel::Done(x) => {
                            lemma_fuel_apply(f, x, g1, g2);
                        },
                        _ => {},
                    }
                },
                _ => {},
            }
        },
    }
}

proof fn lemma_fuel_apply(f: ValueModel, x: ValueModel, f1: nat, f2: nat)
    requires
        f1 <= f2,
        !(spec_apply(f, x, f1) is OutOfFuel),
    ensures
        spec_apply(f, x, f2) == spec_apply(f, x, f1),
    decreases f1, 0nat,
{
    match f {
        ValueModel::Function { param, body, captured } => {
            lemma_fuel_value(
                body,
                EnvModel { bindings: captured.push((param, x)), local_start: captured.len() },
                (f1 - 1) as nat,
                (f2 - 1) as nat,
            );
        },
        _ => {},
    }
}

proof fn lemma_fuel_atomic(a: ANFAtomicModel, env: EnvModel, f1: nat, f2: nat)
    requires
        f1 <= f2,
        !(spec_eval_atomic(a, env, f1) is OutOfFuel),
    ensures
        spec_eval_atomic(a, env, f2) == spec_eval_atomic(a, env, f1),
    decreases f1, 0nat,
{
    let g1 = (f1 - 1) as nat;
    let g2 = (f2 - 1) as nat;
    match a {
        ANFAtomicModel::Block { anfs, .. } => {
            lemma_fuel_scope(anfs, inner(env, Seq::empty()), g1, g2);
        },
        ANFAtomicModel::Tuple { items, .. } => {
            lemma_fuel_values(items, env, g1, g2);
        },
        ANFAtomicModel::Constructor { items, .. } => {
            lemma_fuel_values(items, env, g1, g2);
        },
        ANFAtomicModel::Match { scrutinee, arms, span } => {
            lemma_fuel_atomic(*scrutinee, env, g1, g2);
            match spec_eval_atomic(*scrutinee, env, g1) {
                EvalModel::Done(v) => {
                    lemma_fuel_arms(v, arms, env, span, g1, g2);
                },
                _ => {},
            }
        },
        _ => {},
    }
}

proof fn lemma_fuel_values(items: Seq<ANFValueModel>, env: EnvModel, f1: nat, f2: nat)
    requires
        f1 <= f2,
        !(spec_eval_values(items, env, f1) is OutOfFuel),
    ensures
        spec_eval_values(items, env, f2) == spec_eval_values(items, env, f1),
    decreases f1, items.len(),
{
    if items.len() > 0 {
        lemma_fuel_values(items.drop_last(), env, f1, f2);
        match spec_eval_values(items.drop_last(), env, f1) {
            EvalModel::Done(_) => {
                lemma_fuel_value(items.last(), env, f1, f2);
            },
            _ => {},
        }
    }
}

proof fn lemma_fuel_arms(
    v: ValueModel,
    arms: Seq<(crate::parser::core_expr::ArmPatternModel, ANFValueModel)>,
    env: EnvModel,
    span: Span,
    f1: nat,
    f2: nat,
)
    requires
        f1 <= f2,
        !(spec_eval_arms(v, arms, env, span, f1) is OutOfFuel),
    ensures
        spec_eval_arms(v, arms, env, span, f2) == spec_eval_arms(v, arms, env, span, f1),
    decreases f1, arms.len(),
{
    if arms.len() > 0 {
        match spec_match_pattern(v, arms[0].0) {
            Some(b) => {
                lemma_fuel_value(arms[0].1, inner(env, b), f1, f2);
            },
            None => {
                lemma_fuel_arms(v, arms.drop_first(), env, span, f1, f2);
            },
        }
    }
}

proof fn lemma_fuel_declare_all(anfs: Seq<ANFStatementModel>, env: EnvModel, f1: nat, f2: nat)
    requires
        f1 <= f2,
        !(spec_declare_all(anfs, env, f1) is OutOfFuel),
    ensures
        spec_declare_all(anfs, env, f2) == spec_declare_all(anfs, env, f1),
    decreases f1, anfs.len(),
{
    if anfs.len() > 0 {
        lemma_fuel_declare_all(anfs.drop_last(), env, f1, f2);
        match spec_declare_all(anfs.drop_last(), env, f1) {
            EvalModel::Done(e) => match anfs.last() {
                ANFStatementModel::Declaration(_, expr) => {
                    lemma_fuel_value(expr, e, f1, f2);
                },
                _ => {},
            },
            _ => {},
        }
    }
}

proof fn lemma_fuel_scope(anfs: Seq<ANFStatementModel>, env: EnvModel, f1: nat, f2: nat)
    requires
        f1 <= f2,
        !(spec_eval_scope(anfs, env, f1) is OutOfFuel),
    ensures
        spec_eval_scope(anfs, env, f2) == spec_eval_scope(anfs, env, f1),
    decreases f1, anfs.len() + 1,
{
    lemma_fuel_declare_all(anfs, env, f1, f2);
    match spec_declare_all(anfs, env, f1) {
        EvalModel::Done(e) => match first_value(anfs) {
            Some(v) => {
                lemma_fuel_value(v, e, f1, f2);
            },
            None => {},
        },
        _ => {},
    }
}

/// More fuel changes no outcome but running out of it: a value that
/// evaluates to a result, an error or an overflow with some fuel evaluates
/// to the same with any more.
pub proof fn law_more_fuel_same_outcome(v: ANFValueModel, env: EnvModel, f1: nat, f2: nat)
    requires
        f1 <= f2,
        !(spec_eval_value(v, env, f1) is OutOfFuel),
    ensures
        spec_eval_value(v, env, f2) == spec_eval_value(v, env, f1),
{
    lemma_fuel_value(v, env, f1, f2);
}

/// The same of a whole program: once it ends with some fuel, it ends the
/// same way with any more.
pub proof fn law_program_more_fuel(anfs: Seq<ANFStatementModel>, f1: nat, f2: nat)
    requires
        f1 <= f2,
        !(spec_eval_scope(anfs, top_environment_model(), f1) is OutOfFuel),
    ensures
        spec_eval_scope(anfs, top_environment_model(), f2) == spec_eval_scope(anfs, top_environment_model(), f1),
{
    lemma_fuel_scope(anfs, top_environment_model(), f1, f2);
}

// --- environments, in code ---

impl Environment {
    /// The value of the latest binding of `name`.
    pub fn lookup(&self, name: &str) -> (r: Option<Value>)
        ensures
            match r {
                Some(v) => spec_lookup(self@.bindings, name@) == Some(v@),
                None => spec_lookup(self@.bindings, name@) is None,
            },
    {
        let ghost b = self@.bindings;
        proof {
            lemma_binding_views(self.bindings@);
            assert(b.take(b.len() as int) =~= b);
        }
        let mut i: usize = self.bindings.len();
        while i > 0
            invariant
                i <= self.bindings.len(),
                b == binding_views(self.bindings@),
                b.len() == self.bindings.len(),
                forall|j: int| 0 <= j < b.len() ==> #[trigger] b[j] == (self.bindings@[j].0@, self.bindings@[j].1@),
                spec_lookup(b, name@) == spec_lookup(b.take(i as int), name@),
            decreases i,
        {
            let (n, v) = &self.bindings[i - 1];
            proof {
                let t = b.take(i as int);
                assert(t.last() == b[i - 1]);
                assert(t.drop_last() =~= b.take(i - 1));
            }
            if str_eq(n.as_str(), name) {
                return Some(copy_value(v));
            }
            i = i - 1;
        }
        None
    }

    /// `name` bound to `v` in the innermost scope.
    pub fn declare(&mut self, name: String, v: Value) -> (r: Result<(), FogError>)
        ensures
            match spec_declare(old(self)@, name@, v@) {
                Ok(e) => r is Ok && final(self)@ == e,
                Err(err) => r matches Err(x) && x@ == err,
            },
    {
        if str_eq(name.as_str(), "_") {
            return Ok(());
        }
        let ghost b = self@.bindings;
        proof {
            lemma_binding_views(self.bindings@);
        }
        let mut j: usize = self.local_start;
        while j < self.bindings.len()
            invariant
                self.local_start <= j,
                b == binding_views(self.bindings@),
                b.len() == self.bindings.len(),
                self@ == old(self)@,
                name@ != "_"@,
                forall|k: int| 0 <= k < b.len() ==> #[trigger] b[k] == (self.bindings@[k].0@, self.bindings@[k].1@),
                forall|k: int| self.local_start <= k < j ==> #[trigger] b[k].0 != name@,
            decreases self.bindings.len() - j,
        {
            if str_eq(self.bindings[j].0.as_str(), name.as_str()) {
                assert(b[j as int].0 == name@);
                let mut message = string_from("variable `");
                message.append(name.as_str());
                message.append("` already declared in the current scope");
                return Err(FogError::new(ErrorKind::Runtime, message, None));
            }
            j = j + 1;
        }
        let ghost vm = v@;
        let ghost nm = name@;
        self.bindings.push((name, v));
        proof {
            assert(self.bindings@.drop_last() =~= old(self).bindings@);
            assert(!declared_locally(old(self)@, nm));
        }
        Ok(())
    }
}

/// A scope inside `env` that binds `b`.
fn inner_env(env: &Environment, b: Vec<(String, Value)>) -> (r: Environment)
    ensures
        r@ == inner(env@, binding_views(b@)),
{
    let mut bindings = copy_bindings(&env.bindings);
    let ghost outer = bindings@;
    let ghost added = b@;
    let mut b = b;
    proof {
        lemma_binding_views(env.bindings@);
        lemma_binding_views(outer);
    }
    bindings.append(&mut b);
    proof {
        lemma_binding_views_append(outer, added);
        assert(bindings@ == outer + added);
    }
    Environment { bindings, local_start: env.bindings.len() }
}

// --- outcomes that end an evaluation early ---

proof fn lemma_values_prefix(items: Seq<ANFValueModel>, env: EnvModel, fuel: nat, k: int)
    requires
        0 <= k <= items.len(),
        !(spec_eval_values(items.take(k), env, fuel) is Done),
    ensures
        spec_eval_values(items, env, fuel) == spec_eval_values(items.take(k), env, fuel),
    decreases items.len(),
{
    if items.len() > k {
        assert(items.drop_last().take(k) =~= items.take(k));
        lemma_values_prefix(items.drop_last(), env, fuel, k);
    } else {
        assert(items.take(k) =~= items);
    }
}

proof fn lemma_declare_all_prefix(anfs: Seq<ANFStatementModel>, env: EnvModel, fuel: nat, k: int)
    requires
        0 <= k <= anfs.len(),
        !(spec_declare_all(anfs.take(k), env, fuel) is Done),
    ensures
        spec_declare_all(anfs, env, fuel) == spec_declare_all(anfs.take(k), env, fuel),
    decreases anfs.len(),
{
    if anfs.len() > k {
        assert(anfs.drop_last().take(k) =~= anfs.take(k));
        lemma_declare_all_prefix(anfs.drop_last(), env, fuel, k);
    } else {
        assert(anfs.take(k) =~= anfs);
    }
}

proof fn lemma_declare_items_prefix(pats: Seq<ANFDeclPatternModel>, vals: Seq<ValueModel>, env: EnvModel, k: int)
    requires
        0 <= k <= pats.len(),
        pats.len() == vals.len(),
        spec_declare_items(pats.take(k), vals.take(k), env) is Err,
    ensures
        spec_declare_items(pats, vals, env) == spec_declare_items(pats.take(k), vals.take(k), env),
    decreases pats.len(),
{
    if pats.len() > k {
        assert(pats.drop_last().take(k) =~= pats.take(k));
        assert(vals.drop_last().take(k) =~= vals.take(k));
        lemma_declare_items_prefix(pats.drop_last(), vals.drop_last(), env, k);
    } else {
        assert(pats.take(k) =~= pats);
        assert(vals.take(k) =~= vals);
    }
}

// --- evaluation ---

/// Whether the result of `op` on `args` and `x`, where it is computed, fits
/// in an `Int32`.
fn in_range(op: BuiltinOp, args: &Vec<Value>, x: &Value) -> (r: bool)
    ensures
        r == builtin_in_range(op, value_views(args@), x@),
{
    proof {
        lemma_value_views(args@);
    }
    let arithmetic = match op {
        BuiltinOp::AddInt32 => true,
        BuiltinOp::SubtractInt32 => true,
        _ => false,
    };
    if !arithmetic || args.len() == 0 {
        true
    } else {
        match (&args[0], x) {
            (Value::Int32(l), Value::Int32(r)) => {
                let l64: i64 = *l as i64;
                let r64: i64 = *r as i64;
                let res: i64 = match op {
                    BuiltinOp::SubtractInt32 => l64 - r64,
                    _ => l64 + r64,
                };
                -2147483648i64 <= res && res <= 2147483647i64
            },
            _ => true,
        }
    }
}

/// A value evaluated in `env`.
pub fn eval_value(v: &ANFValue, env: &Environment, fuel: u64) -> (r: Eval<Value>)
    ensures
        value_outcome(r) == spec_eval_value(v@, env@, fuel as nat),
    decreases fuel, 0nat,
{
    if fuel == 0 {
        return Eval::OutOfFuel;
    }
    match v {
        ANFValue::Atomic(a) => eval_atomic(a, env, fuel - 1),
        ANFValue::FunctionAppl(c, a) => {
            let f = match eval_atomic(c, env, fuel - 1) {
                Eval::Done(f) => f,
                r => return r,
            };
            let x = match eval_atomic(a, env, fuel - 1) {
                Eval::Done(x) => x,
                r => return r,
            };
            apply(f, x, fuel - 1)
        },
    }
}

/// A function value applied to an argument.
pub fn apply(f: Value, x: Value, fuel: u64) -> (r: Eval<Value>)
    ensures
        value_outcome(r) == spec_apply(f@, x@, fuel as nat),
    decreases fuel, 0nat,
{
    if fuel == 0 {
        return Eval::OutOfFuel;
    }
    match f {
        Value::Function { param, body, captured } => {
            let mut bindings = copy_bindings(&*captured);
            let n = captured.len();
            let ghost before = bindings@;
            let ghost pm = param@;
            let ghost xm = x@;
            let ghost entry = (param, x);
            bindings.push((param, x));
            proof {
                lemma_binding_views(before);
                lemma_binding_views((*captured)@);
                assert(bindings@.drop_last() =~= before);
                assert(bindings@.last() == entry);
                assert(binding_views(bindings@) == binding_views(before).push((pm, xm)));
                assert(binding_views(before).len() == n);
            }
            let env = Environment { bindings, local_start: n };
            eval_value(&*body, &env, fuel - 1)
        },
        Value::Builtin { op, args } => {
            if in_range(op, &args, &x) {
                match apply_builtin(op, &args, x) {
                    Ok(v) => Eval::Done(v),
                    Err(e) => Eval::Failed(e),
                }
            } else {
                Eval::Overflow
            }
        },
        _ => Eval::Failed(FogError::new(ErrorKind::Runtime, string_from("cannot apply a non-function value"), None)),
    }
}

/// An atom evaluated in `env`.
pub fn eval_atomic(a: &ANFAtomic, env: &Environment, fuel: u64) -> (r: Eval<Value>)
    ensures
        value_outcome(r) == spec_eval_atomic(a@, env@, fuel as nat),
    decreases fuel, 0nat,
{
    if fuel == 0 {
        return Eval::OutOfFuel;
    }
    match a {
        ANFAtomic::Block { anfs, span } => {
            let block_env = inner_env(env, Vec::new());
            proof {
                assert(binding_views(Seq::<(String, Value)>::empty()) =~= Seq::<(Seq<char>, ValueModel)>::empty());
            }
            match eval_scope(anfs, block_env, fuel - 1) {
                Eval::Done(Some(v)) => Eval::Done(v),
                Eval::Done(None) => Eval::Failed(
                    FogError::new(ErrorKind::Runtime, string_from("final operand not found in block statement"), Some(*span)),
                ),
                Eval::Failed(e) => Eval::Failed(e),
                Eval::Overflow => Eval::Overflow,
                Eval::OutOfFuel => Eval::OutOfFuel,
            }
        },
        ANFAtomic::Literal { literal, .. } => match literal {
            Literal::Int32(i) => Eval::Done(Value::Int32(*i)),
            Literal::Float32(t) => Eval::Done(Value::Float32Text(t.clone())),
        },
        ANFAtomic::Var { var, .. } => {
            let name = var.to_text();
            match env.lookup(name.as_str()) {
                Some(v) => Eval::Done(v),
                None => {
                    let mut message = string_from("variable `");
                    message.append(name.as_str());
                    message.append("` not found in the current scope");
                    Eval::Failed(FogError::new(ErrorKind::Runtime, message, None))
                },
            }
        },
        ANFAtomic::Lambda { param, body, .. } => {
            let b = (**body).copy();
            let captured = copy_bindings(&env.bindings);
            Eval::Done(Value::Function { param: param.to_text(), body: Rc::new(b), captured: Rc::new(captured) })
        },
        ANFAtomic::Tuple { items, .. } => match eval_values(items, env, fuel - 1) {
            Eval::Done(vs) => Eval::Done(Value::Tuple(vs)),
            Eval::Failed(e) => Eval::Failed(e),
            Eval::Overflow => Eval::Overflow,
            Eval::OutOfFuel => Eval::OutOfFuel,
        },
        ANFAtomic::Match { scrutinee, arms, span } => {
            let v = match eval_atomic(&**scrutinee, env, fuel - 1) {
                Eval::Done(v) => v,
                r => return r,
            };
            eval_arms(&v, arms, env, *span, fuel - 1)
        },
        ANFAtomic::Constructor { tag, items, .. } => match eval_values(items, env, fuel - 1) {
            Eval::Done(vs) => Eval::Done(Value::Constructor { tag: tag.clone(), values: vs }),
            Eval::Failed(e) => Eval::Failed(e),
            Eval::Overflow => Eval::Overflow,
            Eval::OutOfFuel => Eval::OutOfFuel,
        },
    }
}

/// Each value evaluated in `env`, left to right.
pub fn eval_values(items: &Vec<ANFValue>, env: &Environment, fuel: u64) -> (r: Eval<Vec<Value>>)
    ensures
        values_outcome(r) == spec_eval_values(anf_value_views(items@), env@, fuel as nat),
    decreases fuel, items.len(),
{
    let ghost s = anf_value_views(items@);
    proof {
        lemma_anf_value_views(items@);
    }
    let mut out: Vec<Value> = Vec::new();
    let mut i: usize = 0;
    while i < items.len()
        invariant
            i <= items.len(),
            s == anf_value_views(items@),
            s.len() == items.len(),
            forall|j: int| 0 <= j < items.len() ==> #[trigger] s[j] == items@[j]@,
            spec_eval_values(s.take(i as int), env@, fuel as nat) == EvalModel::Done(value_views(out@)),
        decreases items.len() - i,
    {
        let r = eval_value(&items[i], env, fuel);
        proof {
            let t = s.take(i + 1);
            assert(t.drop_last() =~= s.take(i as int));
            assert(t.last() == s[i as int]);
        }
        match r {
            Eval::Done(v) => {
                proof {
                    assert(value_views(out@.push(v)) == value_views(out@).push(v@)) by {
                        assert(out@.push(v).drop_last() =~= out@);
                    }
                }
                out.push(v);
            },
            Eval::Failed(e) => {
                proof {
                    lemma_values_prefix(s, env@, fuel as nat, i + 1);
                }
                return Eval::Failed(e);
            },
            Eval::Overflow => {
                proof {
                    lemma_values_prefix(s, env@, fuel as nat, i + 1);
                }
                return Eval::Overflow;
            },
            Eval::OutOfFuel => {
                proof {
                    lemma_values_prefix(s, env@, fuel as nat, i + 1);
                }
                return Eval::OutOfFuel;
            },
        }
        i = i + 1;
    }
    assert(s.take(i as int) =~= s);
    Eval::Done(out)
}

/// The first arm whose pattern matches `v`, evaluated.
fn eval_arms(
    v: &Value,
    arms: &Vec<(crate::parser::core_expr::CoreMatchArmPattern, ANFValue)>,
    env: &Environment,
    span: Span,
    fuel: u64,
) -> (r: Eval<Value>)
    ensures
        value_outcome(r) == spec_eval_arms(v@, anf_arm_views(arms@), env@, span, fuel as nat),
    decreases fuel, arms.len(),
{
    let ghost s = anf_arm_views(arms@);
    proof {
        lemma_anf_arm_views(arms@);
        assert(s.skip(0) =~= s);
    }
    let mut i: usize = 0;
    while i < arms.len()
        invariant
            i <= arms.len(),
            s == anf_arm_views(arms@),
            s.len() == arms.len(),
            forall|j: int| 0 <= j < arms.len() ==> #[trigger] s[j] == (arms@[j].0@, arms@[j].1@),
            spec_eval_arms(v@, s, env@, span, fuel as nat) == spec_eval_arms(v@, s.skip(i as int), env@, span, fuel as nat),
        decreases arms.len() - i,
    {
        let (p, body) = &arms[i];
        proof {
            let t = s.skip(i as int);
            assert(t[0] == s[i as int]);
            assert(t.drop_first() =~= s.skip(i + 1));
        }
        match match_pattern(v, p) {
            Some(b) => {
                let arm_env = inner_env(env, b);
                return eval_value(body, &arm_env, fuel);
            },
            None => {},
        }
        i = i + 1;
    }
    proof {
        assert(s.skip(i as int).len() == 0);
    }
    Eval::Failed(FogError::new(ErrorKind::Runtime, string_from("match expression not covered"), Some(span)))
}

/// A declaration's pattern bound to a value in `env`.
fn declare_pattern(p: &ANFDeclPattern, v: Value, env: &mut Environment) -> (r: Result<(), FogError>)
    ensures
        match spec_declare_pattern(p@, v@, old(env)@) {
            Ok(e) => r is Ok && final(env)@ == e,
            Err(err) => r matches Err(x) && x@ == err,
        },
    decreases p,
{
    match p {
        ANFDeclPattern::Single(var) => env.declare(var.to_text(), v),
        ANFDeclPattern::Tuple(pats) => {
            proof {
                lemma_anf_pattern_views(pats@);
            }
            match v {
                Value::Tuple(vals) => {
                    proof {
                        lemma_value_views(vals@);
                    }
                    if pats.len() != vals.len() {
                        Err(FogError::new(ErrorKind::Runtime, string_from("tuple declaration size mismatch"), None))
                    } else {
                        declare_items(pats, &vals, env)
                    }
                },
                _ => {
                    let t = v.to_text();
                    let mut message = string_from("cannot declare a non-tuple value `");
                    message.append(t.as_str());
                    message.append("` to a tuple");
                    Err(FogError::new(ErrorKind::Runtime, message, None))
                },
            }
        },
    }
}

/// Each pattern bound to the value in the same place, left to right.
fn declare_items(pats: &Vec<ANFDeclPattern>, vals: &Vec<Value>, env: &mut Environment) -> (r: Result<(), FogError>)
    requires
        pats.len() == vals.len(),
    ensures
        match spec_declare_items(anf_pattern_views(pats@), value_views(vals@), old(env)@) {
            Ok(e) => r is Ok && final(env)@ == e,
            Err(err) => r matches Err(x) && x@ == err,
        },
    decreases pats,
{
    let ghost ps = anf_pattern_views(pats@);
    let ghost vs = value_views(vals@);
    let ghost env0 = env@;
    proof {
        lemma_anf_pattern_views(pats@);
        lemma_value_views(vals@);
        assert(ps.take(0) =~= Seq::<ANFDeclPatternModel>::empty());
    }
    let mut i: usize = 0;
    while i < pats.len()
        invariant
            i <= pats.len(),
            pats.len() == vals.len(),
            ps == anf_pattern_views(pats@),
            vs == value_views(vals@),
            ps.len() == pats.len(),
            vs.len() == vals.len(),
            forall|j: int| 0 <= j < pats.len() ==> #[trigger] ps[j] == pats@[j]@,
            forall|j: int| 0 <= j < vals.len() ==> #[trigger] vs[j] == vals@[j]@,
            env0 == old(env)@,
            spec_declare_items(ps.take(i as int), vs.take(i as int), env0) == Ok::<EnvModel, ErrorModel>(env@),
        decreases pats.len() - i,
    {
        assert(decreases_to!(pats => pats@[i as int]));
        let c = copy_value(&vals[i]);
        proof {
            let tp = ps.take(i + 1);
            let tv = vs.take(i + 1);
            assert(tp.drop_last() =~= ps.take(i as int));
            assert(tv.drop_last() =~= vs.take(i as int));
            assert(tp.last() == ps[i as int]);
            assert(tv.last() == vs[i as int]);
        }
        let ghost before = env@;
        match declare_pattern(&pats[i], c, env) {
            Ok(()) => {
                proof {
                    assert(spec_declare_items(ps.take(i + 1), vs.take(i + 1), env0) == spec_declare_pattern(
                        ps[i as int],
                        vs[i as int],
                        before,
                    ));
                }
            },
            Err(e) => {
                proof {
                    assert(pats@[i as int]@ == ps[i as int]);
                    assert(c@ == vs[i as int]);
                    assert(spec_declare_items(ps.take(i + 1), vs.take(i + 1), env0) == spec_declare_pattern(
                        ps[i as int],
                        vs[i as int],
                        before,
                    ));
                    assert(spec_declare_pattern(ps[i as int], vs[i as int], before) == Err::<EnvModel, ErrorModel>(e@));
                    lemma_declare_items_prefix(ps, vs, env0, i + 1);
                    assert(spec_declare_items(ps, vs, env0) == Err::<EnvModel, ErrorModel>(e@));
                }
                return Err(e);
            },
        }
        i = i + 1;
    }
    proof {
        assert(ps.take(i as int) =~= ps);
        assert(vs.take(i as int) =~= vs);
    }
    Ok(())
}

/// The declarations among `anfs` made in turn.
fn declare_all(anfs: &Vec<ANFStatement>, env: &mut Environment, fuel: u64) -> (r: Eval<()>)
    ensures
        spec_declare_all(anf_statement_views(anfs@), old(env)@, fuel as nat) == match r {
            Eval::Done(_) => EvalModel::Done(final(env)@),
            Eval::Failed(e) => EvalModel::Failed(e@),
            Eval::Overflow => EvalModel::Overflow,
            Eval::OutOfFuel => EvalModel::OutOfFuel,
        },
    decreases fuel, anfs.len(),
{
    let ghost s = anf_statement_views(anfs@);
    let ghost env0 = env@;
    proof {
        lemma_anf_statement_views(anfs@);
        assert(s.take(0) =~= Seq::<ANFStatementModel>::empty());
    }
    let mut i: usize = 0;
    while i < anfs.len()
        invariant
            i <= anfs.len(),
            s == anf_statement_views(anfs@),
            s.len() == anfs.len(),
            forall|j: int| 0 <= j < anfs.len() ==> #[trigger] s[j] == anfs@[j]@,
            env0 == old(env)@,
            spec_declare_all(s.take(i as int), env0, fuel as nat) == EvalModel::Done(env@),
        decreases anfs.len() - i,
    {
        proof {
            let t = s.take(i + 1);
            assert(t.drop_last() =~= s.take(i as int));
            assert(t.last() == s[i as int]);
        }
        match &anfs[i] {
            ANFStatement::Declaration(p, expr) => {
                let ghost before = env@;
                proof {
                    assert(s[i as int] == ANFStatementModel::Declaration(p@, expr@));
                    assert(spec_declare_all(s.take(i + 1), env0, fuel as nat) == match spec_eval_value(
                        expr@,
                        before,
                        fuel as nat,
                    ) {
                        EvalModel::Done(val) => match spec_declare_pattern(p@, val, before) {
                            Ok(e2) => EvalModel::Done(e2),
                            Err(err) => EvalModel::Failed(err),
                        },
                        r => stop(r),
                    });
                }
                let val = match eval_value(expr, env, fuel) {
                    Eval::Done(val) => val,
                    Eval::Failed(e) => {
                        proof {
                            lemma_declare_all_prefix(s, env0, fuel as nat, i + 1);
                        }
                        return Eval::Failed(e);
                    },
                    Eval::Overflow => {
                        proof {
                            lemma_declare_all_prefix(s, env0, fuel as nat, i + 1);
                        }
                        return Eval::Overflow;
                    },
                    Eval::OutOfFuel => {
                        proof {
                            lemma_declare_all_prefix(s, env0, fuel as nat, i + 1);
                        }
                        return Eval::OutOfFuel;
                    },
                };
                match declare_pattern(p, val, env) {
                    Ok(()) => {},
                    Err(e) => {
                        proof {
                            lemma_declare_all_prefix(s, env0, fuel as nat, i + 1);
                        }
                        return Eval::Failed(e);
                    },
                }
            },
            ANFStatement::Value(_) => {},
        }
        i = i + 1;
    }
    proof {
        assert(s.take(i as int) =~= s);
    }
    Eval::Done(())
}

/// A scope: its declarations, then its first value, if any.
pub fn eval_scope(anfs: &Vec<ANFStatement>, env: Environment, fuel: u64) -> (r: Eval<Option<Value>>)
    ensures
        scope_outcome(r) == spec_eval_scope(anf_statement_views(anfs@), env@, fuel as nat),
    decreases fuel, anfs.len() + 1,
{
    let ghost s = anf_statement_views(anfs@);
    let mut e = env;
    match declare_all(anfs, &mut e, fuel) {
        Eval::Done(()) => {},
        Eval::Failed(x) => return Eval::Failed(x),
        Eval::Overflow => return Eval::Overflow,
        Eval::OutOfFuel => return Eval::OutOfFuel,
    }
    proof {
        lemma_anf_statement_views(anfs@);
        assert(s.skip(0) =~= s);
    }
    let mut i: usize = 0;
    let mut found = false;
    while i < anfs.len() && !found
        invariant
            i <= anfs.len(),
            s == anf_statement_views(anfs@),
            s.len() == anfs.len(),
            forall|j: int| 0 <= j < anfs.len() ==> #[trigger] s[j] == anfs@[j]@,
            first_value(s) == first_value(s.skip(i as int)),
            found ==> i < anfs.len() && anfs@[i as int] is Value,
        decreases anfs.len() - i + (if found { 0int } else { 1int }),
    {
        proof {
            let t = s.skip(i as int);
            assert(t[0] == s[i as int]);
            assert(t.drop_first() =~= s.skip(i + 1));
        }
        match &anfs[i] {
            ANFStatement::Value(_) => {
                found = true;
            },
            _ => {
                i = i + 1;
            },
        }
    }
    if !found {
        proof {
            assert(s.skip(i as int).len() == 0);
        }
        return Eval::Done(None);
    }
    match &anfs[i] {
        ANFStatement::Value(v) => {
            proof {
                let t = s.skip(i as int);
                assert(t[0] == s[i as int]);
            }
            match eval_value(v, &e, fuel) {
                Eval::Done(x) => Eval::Done(Some(x)),
                Eval::Failed(x) => Eval::Failed(x),
                Eval::Overflow => Eval::Overflow,
                Eval::OutOfFuel => Eval::OutOfFuel,
            }
        },
        _ => Eval::Done(None),
    }
}

// --- programs ---

/// The bindings a program starts with: its native operations, and the
/// action that reads a line.
pub open spec fn top_environment_model() -> EnvModel {
    EnvModel {
        bindings: seq![
            ("addInt32"@, ValueModel::Builtin { op: BuiltinOp::AddInt32, args: Seq::empty() }),
            ("subtractInt32"@, ValueModel::Builtin { op: BuiltinOp::SubtractInt32, args: Seq::empty() }),
            ("toString"@, ValueModel::Builtin { op: BuiltinOp::ToString, args: Seq::empty() }),
            ("concatString"@, ValueModel::Builtin { op: BuiltinOp::ConcatString, args: Seq::empty() }),
            ("return"@, ValueModel::Builtin { op: BuiltinOp::Return, args: Seq::empty() }),
            ("join"@, ValueModel::Builtin { op: BuiltinOp::Join, args: Seq::empty() }),
            ("fmap"@, ValueModel::Builtin { op: BuiltinOp::Fmap, args: Seq::empty() }),
            ("bind"@, ValueModel::Builtin { op: BuiltinOp::Bind, args: Seq::empty() }),
            ("then"@, ValueModel::Builtin { op: BuiltinOp::Then, args: Seq::empty() }),
            ("print"@, ValueModel::Builtin { op: BuiltinOp::Print, args: Seq::empty() }),
            ("printLine"@, ValueModel::Builtin { op: BuiltinOp::PrintLine, args: Seq::empty() }),
            ("readLine"@, ValueModel::Io { kind: IoKind::ReadLine, args: Seq::empty() }),
        ],
        local_start: 0,
    }
}

/// The environment a program starts in.
pub fn top_environment() -> (e: Environment)
    ensures
        e@ == top_environment_model(),
{
    let mut bindings: Vec<(String, Value)> = Vec::new();
    push_builtin(&mut bindings, "addInt32", BuiltinOp::AddInt32);
    push_builtin(&mut bindings, "subtractInt32", BuiltinOp::SubtractInt32);
    push_builtin(&mut bindings, "toString", BuiltinOp::ToString);
    push_builtin(&mut bindings, "concatString", BuiltinOp::ConcatString);
    push_builtin(&mut bindings, "return", BuiltinOp::Return);
    push_builtin(&mut bindings, "join", BuiltinOp::Join);
    push_builtin(&mut bindings, "fmap", BuiltinOp::Fmap);
    push_builtin(&mut bindings, "bind", BuiltinOp::Bind);
    push_builtin(&mut bindings, "then", BuiltinOp::Then);
    push_builtin(&mut bindings, "print", BuiltinOp::Print);
    push_builtin(&mut bindings, "printLine", BuiltinOp::PrintLine);
    let read_line = (string_from("readLine"), Value::Io { kind: IoKind::ReadLine, args: Vec::new() });
    let ghost before = bindings@;
    let ghost entry = read_line;
    bindings.push(read_line);
    proof {
        assert(value_views(Seq::<Value>::empty()) =~= Seq::<ValueModel>::empty());
        assert(bindings@.drop_last() =~= before);
        assert(bindings@.last() == entry);
        assert(binding_views(bindings@) == binding_views(before).push((entry.0@, entry.1@)));
    }
    proof {
        let m = top_environment_model().bindings;
        assert(binding_views(bindings@) =~= m);
    }
    Environment { bindings, local_start: 0 }
}

/// `name` bound to `op`, before it has taken any argument.
fn push_builtin(bindings: &mut Vec<(String, Value)>, name: &str, op: BuiltinOp)
    ensures
        binding_views(final(bindings)@) == binding_views(old(bindings)@).push(
            (name@, ValueModel::Builtin { op, args: Seq::empty() }),
        ),
{
    let entry = (string_from(name), Value::Builtin { op, args: Vec::new() });
    let ghost e = entry;
    bindings.push(entry);
    proof {
        assert(value_views(Seq::<Value>::empty()) =~= Seq::<ValueModel>::empty());
        assert(bindings@.drop_last() =~= old(bindings)@);
        assert(bindings@.last() == e);
        assert(e.1@ == ValueModel::Builtin { op, args: Seq::empty() });
        assert(binding_views(bindings@) == binding_views(bindings@.drop_last()).push((e.0@, e.1@)));
    }
}

/// A program run: its declarations made in the starting environment, then
/// its first value, if it has one, evaluated.
pub fn interpret(anfs: &Vec<ANFStatement>, fuel: u64) -> (r: Eval<Option<Value>>)
    ensures
        scope_outcome(r) == spec_eval_scope(anf_statement_views(anfs@), top_environment_model(), fuel as nat),
{
    eval_scope(anfs, top_environment(), fuel)
}

} // verus!
