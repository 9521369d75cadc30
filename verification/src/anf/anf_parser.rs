//! From core statements to A-normal form: every application's parts become
//! atoms, the intermediate results are bound to numbered temporaries, and
//! every declared name gets a number of its own.

use vstd::prelude::*;

use std::collections::HashMap;

use crate::anf::anf::ANFAtomic;
use crate::anf::anf::ANFAtomicModel;
use crate::anf::anf::ANFDeclPattern;
use crate::anf::anf::ANFDeclPatternModel;
use crate::anf::anf::ANFStatement;
use crate::anf::anf::ANFStatementModel;
use crate::anf::anf::ANFValue;
use crate::anf::anf::ANFValueModel;
use crate::anf::anf::ANFVar;
use crate::anf::anf::ANFVarModel;
use crate::anf::anf::anf_arm_views;
use crate::anf::anf::anf_pattern_views;
use crate::anf::anf::anf_statement_views;
use crate::anf::anf::anf_value_views;
use crate::anf::anf::pattern_ids;
use crate::anf::anf::patterns_ids;
use crate::anf::anf::var_ids;
use crate::anf::anf::lemma_anf_arm_views_push;
use crate::anf::anf::lemma_anf_pattern_views_push;
use crate::anf::anf::lemma_anf_statement_views;
use crate::anf::anf::lemma_anf_statement_views_push;
use crate::anf::anf::lemma_anf_value_views_push;
use crate::error::Span;
use crate::parser::core_expr::CoreDataConstructor;
use crate::parser::core_expr::CoreDeclPattern;
use crate::parser::core_expr::data_constructor_views;
use crate::parser::core_expr::lemma_atomic_type_expr_views;
use crate::parser::core_expr::CoreExpr;
use crate::parser::core_expr::CoreMatchArm;
use crate::parser::core_expr::CoreMatchArmPattern;
use crate::parser::core_expr::CoreStatement;
use crate::parser::core_expr::CoreTupleDeclPattern;
use crate::parser::core_expr::CoreTypeExpr;
use crate::parser::core_expr::core_expr_views;
use crate::parser::core_expr::core_match_arm_views;
use crate::parser::core_expr::core_statement_views;
use crate::parser::core_expr::lemma_core_expr_views;
use crate::parser::core_expr::lemma_core_match_arm_views;
use crate::parser::core_expr::lemma_core_statement_views;
use crate::parser::core_expr::lemma_tuple_pattern_views;
use crate::parser::core_expr::tuple_pattern_views;
use crate::parser::core_expr::ArmPatternModel;
use crate::parser::core_expr::CoreExprModel;
use crate::parser::core_expr::CoreMatchArmModel;
use crate::parser::core_expr::CoreStatementModel;
use crate::parser::core_expr::CoreDeclPatternModel;
use crate::parser::core_expr::DataConstructorModel;
use crate::parser::core_expr::lemma_tuple_pattern_views_push;
use crate::parser::core_expr::spec_tuple_pattern_names;
use crate::parser::core_expr::spec_tuple_patterns_names;
use crate::parser::core_expr::spec_decl_pattern_names;
use crate::parser::core_expr::TuplePatternModel;
use crate::parser::core_expr::TypeExprModel;
use crate::static_check::types::str_eq;
use crate::util::spec_decimal;
use crate::util::string_from;
use crate::util::string_views;
use crate::util::usize_to_decimal;
use crate::anf::dependencies::rearranges_by_dependencies;
use crate::anf::dependencies::reorder_by_dependencies;

verus! {

// --- scopes ---

/// The names of the scopes, the innermost last, and the next number to
/// hand out, which all scopes share.
#[verifier::ext_equal]
pub struct AnfScopeModel {
    pub frames: Seq<Map<Seq<char>, usize>>,
    pub counter: nat,
}

/// The names of a scope by name, a later one of a name winning.
pub open spec fn frame_map(pairs: Seq<(String, usize)>) -> Map<Seq<char>, usize>
    decreases pairs.len(),
{
    if pairs.len() == 0 {
        Map::empty()
    } else {
        frame_map(pairs.drop_last()).insert(pairs.last().0@, pairs.last().1)
    }
}

/// The number of the innermost binding of `name`.
pub open spec fn spec_get_id(frames: Seq<Map<Seq<char>, usize>>, name: Seq<char>) -> Option<usize>
    decreases frames.len(),
{
    if frames.len() == 0 {
        None
    } else if frames.last().contains_key(name) {
        Some(frames.last()[name])
    } else {
        spec_get_id(frames.drop_last(), name)
    }
}

/// `name` bound in the innermost scope to the next number.
pub open spec fn spec_register_name(sc: AnfScopeModel, name: Seq<char>) -> AnfScopeModel {
    AnfScopeModel {
        frames: sc.frames.update(sc.frames.len() - 1, sc.frames.last().insert(name, sc.counter as usize)),
        counter: sc.counter + 1,
    }
}

pub open spec fn temp_name(id: nat) -> Seq<char> {
    "$t"@ + spec_decimal(id)
}

/// A fresh temporary: the next number, named after it.
pub open spec fn spec_new_temp(sc: AnfScopeModel) -> (ANFVarModel, AnfScopeModel) {
    (
        ANFVarModel { id: Some(sc.counter as usize), name: temp_name(sc.counter) },
        AnfScopeModel { frames: sc.frames, counter: sc.counter + 1 },
    )
}

/// The numbers of the top scope are below the counter, each given to one
/// name only.
pub open spec fn top_scope_fresh(sc: AnfScopeModel) -> bool {
    &&& sc.frames.len() >= 1
    &&& forall|n: Seq<char>| #[trigger] sc.frames[0].contains_key(n) ==> sc.frames[0][n] < sc.counter
    &&& forall|n1: Seq<char>, n2: Seq<char>|
        sc.frames[0].contains_key(n1) && sc.frames[0].contains_key(n2) && n1 != n2 ==> #[trigger] sc.frames[0][n1]
            != #[trigger] sc.frames[0][n2]
}

/// Binding a name to the next number keeps the top scope's numbers fresh
/// and distinct.
pub proof fn lemma_register_fresh(sc: AnfScopeModel, name: Seq<char>)
    requires
        top_scope_fresh(sc),
        sc.counter <= usize::MAX,
    ensures
        top_scope_fresh(spec_register_name(sc, name)),
{
    let sc2 = spec_register_name(sc, name);
    if sc.frames.len() == 1 {
        let top = sc.frames[0];
        assert(sc2.frames[0] == top.insert(name, sc.counter as usize));
        assert forall|n1: Seq<char>, n2: Seq<char>|
            sc2.frames[0].contains_key(n1) && sc2.frames[0].contains_key(n2) && n1 != n2 implies #[trigger] sc2.frames[0][n1]
                != #[trigger] sc2.frames[0][n2] by {
            if n1 != name && n2 != name {
                assert(top[n1] != top[n2]);
            } else if n1 == name {
                assert(top[n2] < sc.counter);
            } else {
                assert(top[n1] < sc.counter);
            }
        }
    } else {
        assert(sc2.frames[0] == sc.frames[0]);
    }
}

/// Bindings in an inner scope, and numbers handed out, keep the top
/// scope's numbers fresh and distinct.
pub proof fn lemma_fresh_same_top(sc: AnfScopeModel, sc2: AnfScopeModel)
    requires
        top_scope_fresh(sc),
        sc2.frames.len() >= 1,
        sc2.frames[0] == sc.frames[0],
        sc.counter <= sc2.counter,
    ensures
        top_scope_fresh(sc2),
{
}

/// The names bound while a program is put in A-normal form, innermost
/// scope last, and the next number to give.
pub struct Scope {
    frames: Vec<Vec<(String, usize)>>,
    counter: usize,
}

impl View for Scope {
    type V = AnfScopeModel;

    closed spec fn view(&self) -> AnfScopeModel {
        AnfScopeModel {
            frames: self.frames@.map_values(|f: Vec<(String, usize)>| frame_map(f@)),
            counter: self.counter as nat,
        }
    }
}

fn frame_get(frame: &Vec<(String, usize)>, name: &str) -> (r: Option<usize>)
    ensures
        r == (if frame_map(frame@).contains_key(name@) {
            Some(frame_map(frame@)[name@])
        } else {
            None
        }),
{
    let mut i: usize = frame.len();
    proof {
        assert(frame@.take(frame@.len() as int) =~= frame@);
    }
    while i > 0
        invariant
            i <= frame.len(),
            frame_map(frame@).contains_key(name@) == frame_map(frame@.take(i as int)).contains_key(name@),
            frame_map(frame@).contains_key(name@) ==> frame_map(frame@)[name@] == frame_map(
                frame@.take(i as int),
            )[name@],
        decreases i,
    {
        proof {
            assert(frame@.take(i as int).drop_last() =~= frame@.take(i - 1));
        }
        if str_eq(frame[i - 1].0.as_str(), name) {
            return Some(frame[i - 1].1);
        }
        i -= 1;
    }
    None
}


impl Scope {
    /// The top scope: no names, numbers from zero.
    pub fn new_root() -> (scope: Scope)
        ensures
            scope@ == (AnfScopeModel { frames: seq![Map::empty()], counter: 0 }),
    {
        let mut frames: Vec<Vec<(String, usize)>> = Vec::new();
        frames.push(Vec::new());
        let scope = Scope { frames, counter: 0 };
        proof {
            assert(frame_map(scope.frames@[0]@) =~= Map::<Seq<char>, usize>::empty());
            assert(scope@.frames =~= seq![Map::<Seq<char>, usize>::empty()]);
        }
        scope
    }

    /// Opens an inner scope, which shares the numbering.
    pub fn new_child(&mut self)
        ensures
            final(self)@ == (AnfScopeModel { frames: old(self)@.frames.push(Map::empty()), counter: old(self)@.counter }),
    {
        self.frames.push(Vec::new());
        proof {
            assert(frame_map(self.frames@.last()@) =~= Map::<Seq<char>, usize>::empty());
            assert(self@.frames =~= old(self)@.frames.push(Map::empty()));
        }
    }

    /// Closes the innermost scope.
    pub fn drop_child(&mut self)
        requires
            old(self)@.frames.len() >= 2,
        ensures
            final(self)@ == (AnfScopeModel { frames: old(self)@.frames.drop_last(), counter: old(self)@.counter }),
    {
        let _ = self.frames.pop();
        proof {
            assert(self@.frames =~= old(self)@.frames.drop_last());
        }
    }

    /// The next number.
    fn next_id(&mut self) -> (id: usize)
        requires
            old(self)@.counter < usize::MAX,
        ensures
            id == old(self)@.counter,
            final(self)@ == (AnfScopeModel { frames: old(self)@.frames, counter: old(self)@.counter + 1 }),
    {
        let id = self.counter;
        self.counter = id + 1;
        id
    }

    /// Binds `name` in the innermost scope to the next number.
    pub fn register_name(&mut self, name: &str) -> (id: usize)
        requires
            old(self)@.frames.len() >= 1,
            old(self)@.counter < usize::MAX,
        ensures
            id == old(self)@.counter,
            final(self)@ == spec_register_name(old(self)@, name@),
    {
        let id = self.next_id();
        let mut top = self.frames.pop().unwrap();
        let ghost top_before = top@;
        top.push((string_from(name), id));
        self.frames.push(top);
        proof {
            assert(top@.drop_last() =~= top_before);
            assert(self@.frames =~= spec_register_name(old(self)@, name@).frames);
        }
        id
    }

    /// The number of the innermost binding of `name`.
    pub fn get_id(&self, name: &str) -> (r: Option<usize>)
        ensures
            r == spec_get_id(self@.frames, name@),
    {
        let ghost frames = self@.frames;
        let mut i: usize = self.frames.len();
        proof {
            assert(frames.take(frames.len() as int) =~= frames);
        }
        while i > 0
            invariant
                i <= self.frames.len(),
                frames == self@.frames,
                frames.len() == self.frames.len(),
                spec_get_id(frames, name@) == spec_get_id(frames.take(i as int), name@),
            decreases i,
        {
            proof {
                assert(frames.take(i as int).drop_last() =~= frames.take(i - 1));
                assert(frames.take(i as int).last() == frame_map(self.frames@[i - 1]@));
            }
            match frame_get(&self.frames[i - 1], name) {
                Some(id) => return Some(id),
                None => {},
            }
            i -= 1;
        }
        None
    }

    /// A fresh temporary, named after its number.
    fn new_temp(&mut self) -> (var: ANFVar)
        requires
            old(self)@.counter < usize::MAX,
        ensures
            (var@, final(self)@) == spec_new_temp(old(self)@),
    {
        let id = self.next_id();
        let mut name = string_from("$t");
        let digits = usize_to_decimal(id);
        name.append(digits.as_str());
        ANFVar { id: Some(id), name }
    }
}


// --- the conversion, in the model ---

/// `tail` after the statements collected for it, in a block of their own
/// where there are any.
pub open spec fn spec_wrap_scoped_anf(collected: Seq<ANFStatementModel>, tail: ANFValueModel, span: Span) -> ANFValueModel {
    if collected.len() == 0 {
        tail
    } else {
        ANFValueModel::Atomic(ANFAtomicModel::Block { anfs: collected.push(ANFStatementModel::Value(tail)), span })
    }
}

pub open spec fn anf_var_of(frames: Seq<Map<Seq<char>, usize>>, name: Seq<char>) -> ANFVarModel {
    ANFVarModel { id: spec_get_id(frames, name), name }
}

pub open spec fn spec_tuple_pattern_to_anf(p: TuplePatternModel, frames: Seq<Map<Seq<char>, usize>>) -> ANFDeclPatternModel
    decreases p,
{
    match p {
        TuplePatternModel::Identifier { name, .. } => ANFDeclPatternModel::Single(anf_var_of(frames, name)),
        TuplePatternModel::Tuple { items, .. } => ANFDeclPatternModel::Tuple(spec_tuple_patterns_to_anf(items, frames)),
    }
}

pub open spec fn spec_tuple_patterns_to_anf(s: Seq<TuplePatternModel>, frames: Seq<Map<Seq<char>, usize>>) -> Seq<
    ANFDeclPatternModel,
>
    decreases s,
{
    if s.len() == 0 {
        Seq::empty()
    } else {
        spec_tuple_patterns_to_anf(s.drop_last(), frames).push(spec_tuple_pattern_to_anf(s.last(), frames))
    }
}

/// A declaration's pattern, each name with the number of its binding.
pub open spec fn spec_decl_pattern_to_anf(p: CoreDeclPatternModel, frames: Seq<Map<Seq<char>, usize>>) -> ANFDeclPatternModel {
    match p {
        CoreDeclPatternModel::Identifier { name, .. } => ANFDeclPatternModel::Single(anf_var_of(frames, name)),
        CoreDeclPatternModel::Tuple { items, .. } => ANFDeclPatternModel::Tuple(spec_tuple_patterns_to_anf(items, frames)),
    }
}

/// The index of the first expression statement, or the number of
/// statements where there is none.
pub open spec fn first_operand(s: Seq<CoreStatementModel>) -> int
    decreases s.len(),
{
    if s.len() == 0 {
        0
    } else if s[0] is Expression {
        0
    } else {
        1 + first_operand(s.drop_first())
    }
}

/// The first expression statement is where `first_operand` says, and
/// none is before it.
pub proof fn lemma_first_operand(s: Seq<CoreStatementModel>)
    ensures
        0 <= first_operand(s) <= s.len(),
        first_operand(s) < s.len() ==> s[first_operand(s)] is Expression,
        forall|j: int| 0 <= j < first_operand(s) ==> !(#[trigger] s[j] is Expression),
    decreases s.len(),
{
    if s.len() > 0 && !(s[0] is Expression) {
        lemma_first_operand(s.drop_first());
        assert forall|j: int| 0 <= j < first_operand(s) implies !(#[trigger] s[j] is Expression) by {
            if j > 0 {
                assert(s[j] == s.drop_first()[j - 1]);
            }
        }
    }
}

/// An expression as a value: an application of two atoms, or an atom.
pub open spec fn spec_expr_to_anf(e: CoreExprModel, sc: AnfScopeModel, col: Seq<ANFStatementModel>) -> (
    ANFValueModel,
    AnfScopeModel,
    Seq<ANFStatementModel>,
)
    decreases e, 1int,
{
    match e {
        CoreExprModel::FunctionAppl { callee, arg, .. } => {
            let (c, sc1, col1) = spec_expr_to_atomic(*callee, sc, col);
            let (a, sc2, col2) = spec_expr_to_atomic(*arg, sc1, col1);
            (ANFValueModel::FunctionAppl(c, a), sc2, col2)
        },
        _ => {
            let (a, sc1, col1) = spec_expr_to_atomic(e, sc, col);
            (ANFValueModel::Atomic(a), sc1, col1)
        },
    }
}

/// An expression as an atom: an application is declared to a fresh
/// temporary among the collected statements, and the atom is that
/// temporary; a lambda's parameter gets a number in a scope of its own, and
/// its body's statements go into its body.
pub open spec fn spec_expr_to_atomic(e: CoreExprModel, sc: AnfScopeModel, col: Seq<ANFStatementModel>) -> (
    ANFAtomicModel,
    AnfScopeModel,
    Seq<ANFStatementModel>,
)
    decreases e, 0int,
{
    match e {
        CoreExprModel::Identifier { name, span } => (ANFAtomicModel::Var { var: anf_var_of(sc.frames, name), span }, sc, col),
        CoreExprModel::Literal { literal, span } => (ANFAtomicModel::Literal { literal, span }, sc, col),
        CoreExprModel::Lambda { param_name, body, span, .. } => {
            let child = spec_register_name(AnfScopeModel { frames: sc.frames.push(Map::empty()), counter: sc.counter }, param_name);
            let (b, sc1, body_col) = spec_expr_to_anf(*body, child, Seq::empty());
            (
                ANFAtomicModel::Lambda {
                    param: ANFVarModel { id: Some(sc.counter as usize), name: param_name },
                    body: Box::new(spec_wrap_scoped_anf(body_col, b, span)),
                    span,
                },
                AnfScopeModel { frames: sc.frames, counter: sc1.counter },
                col,
            )
        },
        CoreExprModel::Tuple { items, span } => {
            let (vs, sc1, col1) = spec_exprs_to_anf(items, sc, col);
            (ANFAtomicModel::Tuple { items: vs, span }, sc1, col1)
        },
        CoreExprModel::Match { scrutinee, arms, span } => {
            let (s, sc1, col1) = spec_expr_to_atomic(*scrutinee, sc, col);
            let (anf_arms, sc2) = spec_arms_to_anf(arms, sc1, span);
            (ANFAtomicModel::Match { scrutinee: Box::new(s), arms: anf_arms, span }, sc2, col1)
        },
        CoreExprModel::Block { statements, span } => {
            let k = first_operand(statements);
            if k < statements.len() {
                proof {
                    lemma_first_operand(statements);
                    assert(decreases_to!(statements => statements[k]));
                }
                let (sc1, block_col) = spec_collect_block(statements, k, statements.len() as int, sc, Seq::empty());
                let (v, sc2, block_col2) = spec_expr_to_anf(statements[k]->Expression_expr, sc1, block_col);
                (ANFAtomicModel::Block { anfs: block_col2.push(ANFStatementModel::Value(v)), span }, sc2, col)
            } else {
                (ANFAtomicModel::Block { anfs: Seq::empty(), span }, sc, col)
            }
        },
        CoreExprModel::FunctionAppl { callee, arg, span } => {
            let (c, sc1, col1) = spec_expr_to_atomic(*callee, sc, col);
            let (a, sc2, col2) = spec_expr_to_atomic(*arg, sc1, col1);
            let (var, sc3) = spec_new_temp(sc2);
            (
                ANFAtomicModel::Var { var, span },
                sc3,
                col2.push(ANFStatementModel::Declaration(ANFDeclPatternModel::Single(var), ANFValueModel::FunctionAppl(c, a))),
            )
        },
    }
}

/// The values of expressions, in order, the statements collected for each
/// after those of the ones before.
pub open spec fn spec_exprs_to_anf(items: Seq<CoreExprModel>, sc: AnfScopeModel, col: Seq<ANFStatementModel>) -> (
    Seq<ANFValueModel>,
    AnfScopeModel,
    Seq<ANFStatementModel>,
)
    decreases items, 0int,
{
    if items.len() == 0 {
        (Seq::empty(), sc, col)
    } else {
        let (vs, sc1, col1) = spec_exprs_to_anf(items.drop_last(), sc, col);
        let (v, sc2, col2) = spec_expr_to_anf(items.last(), sc1, col1);
        (vs.push(v), sc2, col2)
    }
}

/// The arms of a match: each value with the statements collected for it.
pub open spec fn spec_arms_to_anf(arms: Seq<CoreMatchArmModel>, sc: AnfScopeModel, span: Span) -> (
    Seq<(ArmPatternModel, ANFValueModel)>,
    AnfScopeModel,
)
    decreases arms, 0int,
{
    if arms.len() == 0 {
        (Seq::empty(), sc)
    } else {
        let (done, sc1) = spec_arms_to_anf(arms.drop_last(), sc, span);
        let (v, sc2, arm_col) = spec_expr_to_anf(arms.last().value_expr, sc1, Seq::empty());
        (done.push((arms.last().pattern, spec_wrap_scoped_anf(arm_col, v, span))), sc2)
    }
}

/// The first `n` statements of a block but the one at `skip`, collected in
/// order.
pub open spec fn spec_collect_block(
    stmts: Seq<CoreStatementModel>,
    skip: int,
    n: int,
    sc: AnfScopeModel,
    col: Seq<ANFStatementModel>,
) -> (AnfScopeModel, Seq<ANFStatementModel>)
    decreases stmts, n,
{
    if n <= 0 || n > stmts.len() {
        (sc, col)
    } else {
        let (sc1, col1) = spec_collect_block(stmts, skip, n - 1, sc, col);
        if n - 1 == skip {
            (sc1, col1)
        } else {
            spec_collect_stmt(stmts[n - 1], sc1, col1)
        }
    }
}

/// A statement: a declaration is collected with its value; an expression
/// statement adds only what its value needed.
pub open spec fn spec_collect_stmt(stmt: CoreStatementModel, sc: AnfScopeModel, col: Seq<ANFStatementModel>) -> (
    AnfScopeModel,
    Seq<ANFStatementModel>,
)
    decreases stmt, 0int,
{
    match stmt {
        CoreStatementModel::VarDeclaration { pattern, expr, .. } => {
            let (v, sc1, col1) = spec_expr_to_anf(expr, sc, col);
            (sc1, col1.push(ANFStatementModel::Declaration(spec_decl_pattern_to_anf(pattern, sc1.frames), v)))
        },
        CoreStatementModel::Expression { expr, .. } => {
            let (_, sc1, col1) = spec_expr_to_anf(expr, sc, col);
            (sc1, col1)
        },
        _ => (sc, col),
    }
}


// --- what the conversion needs ---

/// How many numbers the conversion of an expression hands out at most: one
/// for each lambda's parameter and one for each application's temporary.
pub open spec fn anf_size(e: CoreExprModel) -> nat
    decreases e, 1int,
{
    match e {
        CoreExprModel::Lambda { body, .. } => 1 + anf_size(*body),
        CoreExprModel::Tuple { items, .. } => anf_sizes(items),
        CoreExprModel::Match { scrutinee, arms, .. } => anf_size(*scrutinee) + arm_sizes(arms),
        CoreExprModel::Block { statements, .. } => statement_sizes(statements),
        CoreExprModel::FunctionAppl { callee, arg, .. } => 1 + anf_size(*callee) + anf_size(*arg),
        _ => 0,
    }
}

pub open spec fn statement_size(st: CoreStatementModel) -> nat
    decreases st, 1int,
{
    match st {
        CoreStatementModel::VarDeclaration { expr, .. } => anf_size(expr),
        CoreStatementModel::Expression { expr, .. } => anf_size(expr),
        _ => 0,
    }
}

pub open spec fn anf_sizes(s: Seq<CoreExprModel>) -> nat
    decreases s, 1int,
{
    if s.len() == 0 {
        0
    } else {
        anf_sizes(s.drop_last()) + anf_size(s.last())
    }
}

pub open spec fn arm_sizes(s: Seq<CoreMatchArmModel>) -> nat
    decreases s, 1int,
{
    if s.len() == 0 {
        0
    } else {
        arm_sizes(s.drop_last()) + anf_size(s.last().value_expr)
    }
}

pub open spec fn statement_sizes(s: Seq<CoreStatementModel>) -> nat
    decreases s, 1int,
{
    if s.len() == 0 {
        0
    } else {
        statement_sizes(s.drop_last()) + statement_size(s.last())
    }
}

/// Whether every block in an expression ends in an expression statement,
/// which the static checks make sure of.
pub open spec fn has_operands(e: CoreExprModel) -> bool
    decreases e, 1int,
{
    match e {
        CoreExprModel::Lambda { body, .. } => has_operands(*body),
        CoreExprModel::Tuple { items, .. } => exprs_have_operands(items),
        CoreExprModel::Match { scrutinee, arms, .. } => has_operands(*scrutinee) && arms_have_operands(arms),
        CoreExprModel::Block { statements, .. } => first_operand(statements) < statements.len()
            && statements_have_operands(statements),
        CoreExprModel::FunctionAppl { callee, arg, .. } => has_operands(*callee) && has_operands(*arg),
        _ => true,
    }
}

pub open spec fn statement_has_operands(st: CoreStatementModel) -> bool
    decreases st, 1int,
{
    match st {
        CoreStatementModel::VarDeclaration { expr, .. } => has_operands(expr),
        CoreStatementModel::Expression { expr, .. } => has_operands(expr),
        _ => true,
    }
}

pub open spec fn exprs_have_operands(s: Seq<CoreExprModel>) -> bool
    decreases s, 1int,
{
    if s.len() == 0 {
        true
    } else {
        exprs_have_operands(s.drop_last()) && has_operands(s.last())
    }
}

pub open spec fn arms_have_operands(s: Seq<CoreMatchArmModel>) -> bool
    decreases s, 1int,
{
    if s.len() == 0 {
        true
    } else {
        arms_have_operands(s.drop_last()) && has_operands(s.last().value_expr)
    }
}

pub open spec fn statements_have_operands(s: Seq<CoreStatementModel>) -> bool
    decreases s, 1int,
{
    if s.len() == 0 {
        true
    } else {
        statements_have_operands(s.drop_last()) && statement_has_operands(s.last())
    }
}

pub proof fn lemma_exprs_prefix(s: Seq<CoreExprModel>, i: int)
    requires
        0 <= i <= s.len(),
    ensures
        anf_sizes(s.take(i)) <= anf_sizes(s),
        exprs_have_operands(s) ==> exprs_have_operands(s.take(i)),
        i < s.len() ==> anf_sizes(s.take(i + 1)) == anf_sizes(s.take(i)) + anf_size(s[i]),
        i < s.len() && exprs_have_operands(s) ==> has_operands(s[i]),
    decreases s.len(),
{
    if i < s.len() {
        assert(s.take(i + 1).drop_last() =~= s.take(i));
        lemma_exprs_prefix(s.drop_last(), i);
        assert(s.drop_last().take(i) =~= s.take(i));
        if i + 1 < s.len() {
            lemma_exprs_prefix(s.drop_last(), i + 1);
            assert(s.drop_last().take(i + 1) =~= s.take(i + 1));
            assert(s.drop_last()[i] == s[i]);
        } else {
            assert(s.take(i + 1) =~= s);
        }
    } else {
        assert(s.take(i) =~= s);
    }
}

pub proof fn lemma_arms_prefix(s: Seq<CoreMatchArmModel>, i: int)
    requires
        0 <= i <= s.len(),
    ensures
        arm_sizes(s.take(i)) <= arm_sizes(s),
        arms_have_operands(s) ==> arms_have_operands(s.take(i)),
        i < s.len() ==> arm_sizes(s.take(i + 1)) == arm_sizes(s.take(i)) + anf_size(s[i].value_expr),
        i < s.len() && arms_have_operands(s) ==> has_operands(s[i].value_expr),
    decreases s.len(),
{
    if i < s.len() {
        assert(s.take(i + 1).drop_last() =~= s.take(i));
        lemma_arms_prefix(s.drop_last(), i);
        assert(s.drop_last().take(i) =~= s.take(i));
        if i + 1 < s.len() {
            lemma_arms_prefix(s.drop_last(), i + 1);
            assert(s.drop_last().take(i + 1) =~= s.take(i + 1));
            assert(s.drop_last()[i] == s[i]);
        } else {
            assert(s.take(i + 1) =~= s);
        }
    } else {
        assert(s.take(i) =~= s);
    }
}

pub proof fn lemma_statements_prefix(s: Seq<CoreStatementModel>, i: int)
    requires
        0 <= i <= s.len(),
    ensures
        statement_sizes(s.take(i)) <= statement_sizes(s),
        statements_have_operands(s) ==> statements_have_operands(s.take(i)),
        i < s.len() ==> statement_sizes(s.take(i + 1)) == statement_sizes(s.take(i)) + statement_size(s[i]),
        i < s.len() && statements_have_operands(s) ==> statement_has_operands(s[i]),
    decreases s.len(),
{
    if i < s.len() {
        assert(s.take(i + 1).drop_last() =~= s.take(i));
        lemma_statements_prefix(s.drop_last(), i);
        assert(s.drop_last().take(i) =~= s.take(i));
        if i + 1 < s.len() {
            lemma_statements_prefix(s.drop_last(), i + 1);
            assert(s.drop_last().take(i + 1) =~= s.take(i + 1));
            assert(s.drop_last()[i] == s[i]);
        } else {
            assert(s.take(i + 1) =~= s);
        }
    } else {
        assert(s.take(i) =~= s);
    }
}


// --- the conversion ---

fn wrap_scoped_anf(collected: Vec<ANFStatement>, tail: ANFValue, span: Span) -> (r: ANFValue)
    ensures
        r@ == spec_wrap_scoped_anf(anf_statement_views(collected@), tail@, span),
{
    if collected.len() == 0 {
        proof {
            assert(anf_statement_views(collected@) =~= Seq::<ANFStatementModel>::empty());
        }
        tail
    } else {
        let mut collected = collected;
        let ghost before = collected@;
        let value = ANFStatement::Value(tail);
        collected.push(value);
        proof {
            lemma_anf_statement_views_push(before, value);
            lemma_anf_statement_views(before);
        }
        ANFValue::Atomic(ANFAtomic::Block { anfs: collected, span })
    }
}

fn tuple_decl_pattern_to_anf(pattern: &CoreTupleDeclPattern, scope: &Scope) -> (p: ANFDeclPattern)
    ensures
        p@ == spec_tuple_pattern_to_anf(pattern@, scope@.frames),
    decreases pattern,
{
    match pattern {
        CoreTupleDeclPattern::Identifier { name, .. } => ANFDeclPattern::Single(
            ANFVar { id: scope.get_id(name.as_str()), name: name.clone() },
        ),
        CoreTupleDeclPattern::Tuple { items, .. } => ANFDeclPattern::Tuple(tuple_decl_patterns_to_anf(items, scope)),
    }
}

fn tuple_decl_patterns_to_anf(items: &Vec<CoreTupleDeclPattern>, scope: &Scope) -> (r: Vec<ANFDeclPattern>)
    ensures
        anf_pattern_views(r@) == spec_tuple_patterns_to_anf(tuple_pattern_views(items@), scope@.frames),
    decreases items,
{
    let ghost v = tuple_pattern_views(items@);
    let mut out: Vec<ANFDeclPattern> = Vec::new();
    let mut i: usize = 0;
    proof {
        lemma_tuple_pattern_views(items@);
        assert(anf_pattern_views(out@) =~= spec_tuple_patterns_to_anf(v.take(0), scope@.frames));
    }
    while i < items.len()
        invariant
            i <= items.len(),
            v == tuple_pattern_views(items@),
            v.len() == items.len(),
            forall|j: int| 0 <= j < items.len() ==> #[trigger] v[j] == items@[j]@,
            anf_pattern_views(out@) == spec_tuple_patterns_to_anf(v.take(i as int), scope@.frames),
        decreases items.len() - i,
    {
        proof {
            assert(decreases_to!(*items => items@));
            assert(decreases_to!(items@ => items@[i as int]));
        }
        let p = tuple_decl_pattern_to_anf(&items[i], scope);
        let ghost before = out@;
        out.push(p);
        proof {
            lemma_anf_pattern_views_push(before, p);
            assert(v.take(i + 1).drop_last() =~= v.take(i as int));
        }
        i += 1;
    }
    proof {
        assert(v.take(i as int) =~= v);
    }
    out
}

/// A declaration's pattern, each name with the number of its binding.
pub fn decl_pattern_to_anf(pattern: &CoreDeclPattern, scope: &Scope) -> (p: ANFDeclPattern)
    ensures
        p@ == spec_decl_pattern_to_anf(pattern@, scope@.frames),
{
    match pattern {
        CoreDeclPattern::Identifier { name, .. } => ANFDeclPattern::Single(
            ANFVar { id: scope.get_id(name.as_str()), name: name.clone() },
        ),
        CoreDeclPattern::Tuple { items, .. } => ANFDeclPattern::Tuple(tuple_decl_patterns_to_anf(items, scope)),
    }
}

/// A name as an atom, with the number of its binding.
fn var_atom(name: &str, span: Span, scope: &Scope) -> (a: ANFAtomic)
    ensures
        a@ == (ANFAtomicModel::Var { var: anf_var_of(scope@.frames, name@), span }),
{
    let var = ANFVar { id: scope.get_id(name), name: string_from(name) };
    ANFAtomic::Var { var, span }
}

/// An expression as a value, collecting the statements it needs.
fn parse_expr_to_anf(expr: &CoreExpr, scope: &mut Scope, collected: &mut Vec<ANFStatement>) -> (v: ANFValue)
    requires
        old(scope)@.frames.len() >= 1,
        has_operands(expr@),
        old(scope)@.counter + anf_size(expr@) <= usize::MAX,
    ensures
        final(scope)@.frames == old(scope)@.frames,
        old(scope)@.counter <= final(scope)@.counter <= old(scope)@.counter + anf_size(expr@),
        spec_expr_to_anf(expr@, old(scope)@, anf_statement_views(old(collected)@)) == (
            v@,
            final(scope)@,
            anf_statement_views(final(collected)@),
        ),
    decreases expr, 1int,
{
    match expr {
        CoreExpr::FunctionAppl { callee, arg, .. } => {
            let callee = parse_expr_to_atomic(callee, scope, collected);
            let arg = parse_expr_to_atomic(arg, scope, collected);
            ANFValue::FunctionAppl(callee, arg)
        },
        _ => ANFValue::Atomic(parse_expr_to_atomic(expr, scope, collected)),
    }
}

/// An expression as an atom, collecting the statements it needs.
#[verifier::spinoff_prover]
fn parse_expr_to_atomic(expr: &CoreExpr, scope: &mut Scope, collected: &mut Vec<ANFStatement>) -> (a: ANFAtomic)
    requires
        old(scope)@.frames.len() >= 1,
        has_operands(expr@),
        old(scope)@.counter + anf_size(expr@) <= usize::MAX,
    ensures
        final(scope)@.frames == old(scope)@.frames,
        old(scope)@.counter <= final(scope)@.counter <= old(scope)@.counter + anf_size(expr@),
        spec_expr_to_atomic(expr@, old(scope)@, anf_statement_views(old(collected)@)).0 == a@,
        spec_expr_to_atomic(expr@, old(scope)@, anf_statement_views(old(collected)@)).1 == final(scope)@,
        spec_expr_to_atomic(expr@, old(scope)@, anf_statement_views(old(collected)@)).2 == anf_statement_views(
            final(collected)@,
        ),
    decreases expr, 0int,
{
    match expr {
        CoreExpr::Identifier { name, span } => {
            var_atom(name.as_str(), *span, scope)
        },
        CoreExpr::Literal { literal, span } => ANFAtomic::Literal { literal: literal.copy(), span: *span },
        CoreExpr::Lambda { param_name, body, span, .. } => {
            let mut body_collected: Vec<ANFStatement> = Vec::new();
            proof {
                assert(anf_statement_views(body_collected@) =~= Seq::<ANFStatementModel>::empty());
            }
            scope.new_child();
            let _ = scope.register_name(param_name.as_str());
            let body_anf = parse_expr_to_anf(body, scope, &mut body_collected);
            let id = scope.get_id(param_name.as_str());
            proof {
                assert(scope@.frames.last().contains_key(param_name@));
            }
            scope.drop_child();
            let body_anf = wrap_scoped_anf(body_collected, body_anf, *span);
            ANFAtomic::Lambda {
                param: ANFVar { id, name: param_name.clone() },
                body: Box::new(body_anf),
                span: *span,
            }
        },
        CoreExpr::Tuple { items, span } => {
            let items = parse_exprs_to_anf(items, scope, collected);
            ANFAtomic::Tuple { items, span: *span }
        },
        CoreExpr::Match { scrutinee, arms, span } => {
            let scrutinee = parse_expr_to_atomic(scrutinee, scope, collected);
            let arms = parse_match_arms(arms, scope, *span);
            ANFAtomic::Match { scrutinee: Box::new(scrutinee), arms, span: *span }
        },
        CoreExpr::Block { statements, span } => {
            proof {
                lemma_core_statement_views(statements@);
            }
            parse_block_to_atomic(statements, *span, scope)
        },
        CoreExpr::FunctionAppl { callee, arg, span } => {
            let callee = parse_expr_to_atomic(callee, scope, collected);
            let arg = parse_expr_to_atomic(arg, scope, collected);
            let value = ANFValue::FunctionAppl(callee, arg);
            let var = scope.new_temp();
            let pattern = ANFDeclPattern::Single(var.copy());
            let ghost before = collected@;
            let declaration = ANFStatement::Declaration(pattern, value);
            collected.push(declaration);
            proof {
                lemma_anf_statement_views_push(before, declaration);
            }
            ANFAtomic::Var { var, span: *span }
        },
    }
}

fn parse_exprs_to_anf(items: &Vec<CoreExpr>, scope: &mut Scope, collected: &mut Vec<ANFStatement>) -> (r: Vec<ANFValue>)
    requires
        old(scope)@.frames.len() >= 1,
        exprs_have_operands(core_expr_views(items@)),
        old(scope)@.counter + anf_sizes(core_expr_views(items@)) <= usize::MAX,
    ensures
        final(scope)@.frames == old(scope)@.frames,
        old(scope)@.counter <= final(scope)@.counter <= old(scope)@.counter + anf_sizes(core_expr_views(items@)),
        spec_exprs_to_anf(core_expr_views(items@), old(scope)@, anf_statement_views(old(collected)@)) == (
            anf_value_views(r@),
            final(scope)@,
            anf_statement_views(final(collected)@),
        ),
    decreases items, 0int,
{
    let ghost v = core_expr_views(items@);
    let ghost sc0 = scope@;
    let ghost col0 = anf_statement_views(collected@);
    let mut out: Vec<ANFValue> = Vec::new();
    proof {
        lemma_core_expr_views(items@);
        assert(v.take(0) =~= Seq::<CoreExprModel>::empty());
        assert(anf_value_views(out@) =~= Seq::<ANFValueModel>::empty());
    }
    let mut i: usize = 0;
    while i < items.len()
        invariant
            i <= items.len(),
            v == core_expr_views(items@),
            v.len() == items.len(),
            forall|j: int| 0 <= j < items.len() ==> #[trigger] v[j] == items@[j]@,
            sc0 == old(scope)@,
            col0 == anf_statement_views(old(collected)@),
            sc0.frames.len() >= 1,
            exprs_have_operands(v),
            sc0.counter + anf_sizes(v) <= usize::MAX,
            scope@.frames == sc0.frames,
            sc0.counter <= scope@.counter <= sc0.counter + anf_sizes(v.take(i as int)),
            spec_exprs_to_anf(v.take(i as int), sc0, col0) == (
                anf_value_views(out@),
                scope@,
                anf_statement_views(collected@),
            ),
        decreases items.len() - i,
    {
        proof {
            assert(decreases_to!(*items => items@));
            assert(decreases_to!(items@ => items@[i as int]));
            lemma_exprs_prefix(v, i as int);
            lemma_exprs_prefix(v, i + 1);
            assert(v.take(i + 1).drop_last() =~= v.take(i as int));
            assert(v.take(i + 1).last() == v[i as int]);
        }
        let x = parse_expr_to_anf(&items[i], scope, collected);
        let ghost before = out@;
        out.push(x);
        proof {
            lemma_anf_value_views_push(before, x);
        }
        i += 1;
    }
    proof {
        assert(v.take(i as int) =~= v);
    }
    out
}

/// An arm of a match: its pattern, and its value after the statements it
/// needs.
fn parse_match_arm(arm: &CoreMatchArm, scope: &mut Scope, span: Span) -> (r: (CoreMatchArmPattern, ANFValue))
    requires
        old(scope)@.frames.len() >= 1,
        has_operands(arm@.value_expr),
        old(scope)@.counter + anf_size(arm@.value_expr) <= usize::MAX,
    ensures
        final(scope)@.frames == old(scope)@.frames,
        old(scope)@.counter <= final(scope)@.counter <= old(scope)@.counter + anf_size(arm@.value_expr),
        ({
            let (v, sc1, arm_col) = spec_expr_to_anf(arm@.value_expr, old(scope)@, Seq::empty());
            r.0@ == arm@.pattern && r.1@ == spec_wrap_scoped_anf(arm_col, v, span) && final(scope)@ == sc1
        }),
    decreases arm, 0int,
{
    let pattern = arm.pattern.copy();
    let mut arm_collected: Vec<ANFStatement> = Vec::new();
    proof {
        assert(anf_statement_views(arm_collected@) =~= Seq::<ANFStatementModel>::empty());
    }
    let arm_anf = parse_expr_to_anf(&arm.value_expr, scope, &mut arm_collected);
    let wrapped_arm_anf = wrap_scoped_anf(arm_collected, arm_anf, span);
    (pattern, wrapped_arm_anf)
}

fn parse_match_arms(arms: &Vec<CoreMatchArm>, scope: &mut Scope, span: Span) -> (r: Vec<(CoreMatchArmPattern, ANFValue)>)
    requires
        old(scope)@.frames.len() >= 1,
        arms_have_operands(core_match_arm_views(arms@)),
        old(scope)@.counter + arm_sizes(core_match_arm_views(arms@)) <= usize::MAX,
    ensures
        final(scope)@.frames == old(scope)@.frames,
        old(scope)@.counter <= final(scope)@.counter <= old(scope)@.counter + arm_sizes(core_match_arm_views(arms@)),
        spec_arms_to_anf(core_match_arm_views(arms@), old(scope)@, span) == (anf_arm_views(r@), final(scope)@),
    decreases arms, 0int,
{
    let ghost v = core_match_arm_views(arms@);
    let ghost sc0 = scope@;
    let mut out: Vec<(CoreMatchArmPattern, ANFValue)> = Vec::new();
    proof {
        lemma_core_match_arm_views(arms@);
        assert(v.take(0) =~= Seq::<CoreMatchArmModel>::empty());
        assert(anf_arm_views(out@) =~= Seq::<(ArmPatternModel, ANFValueModel)>::empty());
    }
    let mut i: usize = 0;
    while i < arms.len()
        invariant
            i <= arms.len(),
            v == core_match_arm_views(arms@),
            v.len() == arms.len(),
            forall|j: int| 0 <= j < arms.len() ==> #[trigger] v[j] == arms@[j]@,
            sc0 == old(scope)@,
            sc0.frames.len() >= 1,
            arms_have_operands(v),
            sc0.counter + arm_sizes(v) <= usize::MAX,
            scope@.frames == sc0.frames,
            sc0.counter <= scope@.counter <= sc0.counter + arm_sizes(v.take(i as int)),
            spec_arms_to_anf(v.take(i as int), sc0, span) == (anf_arm_views(out@), scope@),
        decreases arms.len() - i,
    {
        proof {
            assert(decreases_to!(*arms => arms@));
            assert(decreases_to!(arms@ => arms@[i as int]));
            lemma_arms_prefix(v, i as int);
            lemma_arms_prefix(v, i + 1);
            assert(v.take(i + 1).drop_last() =~= v.take(i as int));
            assert(v.take(i + 1).last() == v[i as int]);
        }
        let arm = parse_match_arm(&arms[i], scope, span);
        let ghost before = out@;
        out.push(arm);
        proof {
            lemma_anf_arm_views_push(before, arm);
        }
        i += 1;
    }
    proof {
        assert(v.take(i as int) =~= v);
    }
    out
}

/// A statement of a block or of the top scope: a declaration is collected
/// with its value; an expression statement adds only what its value needs.
fn collect_stmt_to_anf(stmt: &CoreStatement, scope: &mut Scope, collected: &mut Vec<ANFStatement>)
    requires
        old(scope)@.frames.len() >= 1,
        statement_has_operands(stmt@),
        old(scope)@.counter + statement_size(stmt@) <= usize::MAX,
    ensures
        final(scope)@.frames == old(scope)@.frames,
        old(scope)@.counter <= final(scope)@.counter <= old(scope)@.counter + statement_size(stmt@),
        spec_collect_stmt(stmt@, old(scope)@, anf_statement_views(old(collected)@)) == (
            final(scope)@,
            anf_statement_views(final(collected)@),
        ),
    decreases stmt, 0int,
{
    match stmt {
        CoreStatement::VarDeclaration { pattern, expr, .. } => {
            let anf_expr = parse_expr_to_anf(expr, scope, collected);
            let anf_pattern = decl_pattern_to_anf(pattern, scope);
            let anf = ANFStatement::Declaration(anf_pattern, anf_expr);
            let ghost before = collected@;
            collected.push(anf);
            proof {
                lemma_anf_statement_views_push(before, anf);
            }
        },
        CoreStatement::Expression { expr, .. } => {
            let _ = parse_expr_to_anf(expr, scope, collected);
        },
        _ => {},
    }
}

/// A block as an atom: its statements but the first expression statement,
/// in order, then that expression as the block's value.
fn parse_block_to_atomic(statements: &Vec<CoreStatement>, span: Span, scope: &mut Scope) -> (a: ANFAtomic)
    requires
        old(scope)@.frames.len() >= 1,
        first_operand(core_statement_views(statements@)) < statements@.len(),
        statements_have_operands(core_statement_views(statements@)),
        old(scope)@.counter + statement_sizes(core_statement_views(statements@)) <= usize::MAX,
    ensures
        final(scope)@.frames == old(scope)@.frames,
        old(scope)@.counter <= final(scope)@.counter <= old(scope)@.counter + statement_sizes(
            core_statement_views(statements@),
        ),
        ({
            let sv = core_statement_views(statements@);
            let k = first_operand(sv);
            let (sc1, block_col) = spec_collect_block(sv, k, sv.len() as int, old(scope)@, Seq::empty());
            let (v, sc2, block_col2) = spec_expr_to_anf(sv[k]->Expression_expr, sc1, block_col);
            a@ == (ANFAtomicModel::Block { anfs: block_col2.push(ANFStatementModel::Value(v)), span })
                && final(scope)@ == sc2
        }),
    decreases statements, 0int,
{
    let ghost sv = core_statement_views(statements@);
    let ghost sc0 = scope@;
    proof {
        lemma_core_statement_views(statements@);
        lemma_first_operand(sv);
    }
    // the final operand: the first expression statement
    let mut k: usize = 0;
    while k < statements.len() && !matches!(statements[k], CoreStatement::Expression { .. })
        invariant
            k <= statements.len(),
            sv == core_statement_views(statements@),
            sv.len() == statements.len(),
            forall|j: int| 0 <= j < statements.len() ==> #[trigger] sv[j] == statements@[j]@,
            forall|j: int| 0 <= j < k ==> !(#[trigger] sv[j] is Expression),
        decreases statements.len() - k,
    {
        k += 1;
    }
    proof {
        if k < statements.len() {
            assert(sv[k as int] is Expression);
        }
        if first_operand(sv) < k {
            assert(sv[first_operand(sv)] is Expression);
        }
        assert(k == first_operand(sv));
        assert(decreases_to!(*statements => statements@));
        assert(decreases_to!(statements@ => statements@[k as int]));
        lemma_statements_prefix(sv, k as int);
    }
    let mut block_collected: Vec<ANFStatement> = Vec::new();
    proof {
        assert(anf_statement_views(block_collected@) =~= Seq::<ANFStatementModel>::empty());
    }
    let mut i: usize = 0;
    while i < statements.len()
        invariant
            i <= statements.len(),
            k < statements.len(),
            k == first_operand(sv),
            sv == core_statement_views(statements@),
            sv.len() == statements.len(),
            forall|j: int| 0 <= j < statements.len() ==> #[trigger] sv[j] == statements@[j]@,
            sc0 == old(scope)@,
            sc0.frames.len() >= 1,
            statements_have_operands(sv),
            sc0.counter + statement_sizes(sv) <= usize::MAX,
            scope@.frames == sc0.frames,
            sc0.counter <= scope@.counter,
            scope@.counter + (if i > k { statement_size(sv[k as int]) } else { 0 }) <= sc0.counter + statement_sizes(
                sv.take(i as int),
            ),
            spec_collect_block(sv, k as int, i as int, sc0, Seq::empty()) == (
                scope@,
                anf_statement_views(block_collected@),
            ),
        decreases statements.len() - i,
    {
        proof {
            assert(decreases_to!(*statements => statements@));
            assert(decreases_to!(statements@ => statements@[i as int]));
            lemma_statements_prefix(sv, i as int);
            lemma_statements_prefix(sv, i + 1);
        }
        if i != k {
            collect_stmt_to_anf(&statements[i], scope, &mut block_collected);
        }
        i += 1;
    }
    proof {
        assert(sv.take(i as int) =~= sv);
    }
    match &statements[k] {
        CoreStatement::Expression { expr, .. } => {
            proof {
                assert(decreases_to!(statements@[k as int] => statements@[k as int]->Expression_expr));
            }
            let last_anf = parse_expr_to_anf(expr, scope, &mut block_collected);
            let ghost before = block_collected@;
            let value = ANFStatement::Value(last_anf);
            block_collected.push(value);
            proof {
                lemma_anf_statement_views_push(before, value);
            }
            ANFAtomic::Block { anfs: block_collected, span }
        },
        _ => {
            proof {
                assert(false);
            }
            ANFAtomic::Block { anfs: block_collected, span }
        },
    }
}


// --- the top scope, in the model ---

pub open spec fn tuple_names(p: TuplePatternModel) -> Seq<Seq<char>>
    decreases p,
{
    match p {
        TuplePatternModel::Identifier { name, .. } => seq![name],
        TuplePatternModel::Tuple { items, .. } => tuple_names_all(items),
    }
}

pub open spec fn tuple_names_all(s: Seq<TuplePatternModel>) -> Seq<Seq<char>>
    decreases s,
{
    if s.len() == 0 {
        Seq::empty()
    } else {
        tuple_names_all(s.drop_last()) + tuple_names(s.last())
    }
}

/// The names a declaration pattern binds, left to right.
pub open spec fn decl_names(p: CoreDeclPatternModel) -> Seq<Seq<char>> {
    match p {
        CoreDeclPatternModel::Identifier { name, .. } => seq![name],
        CoreDeclPatternModel::Tuple { items, .. } => tuple_names_all(items),
    }
}

pub proof fn lemma_tuple_names(p: CoreTupleDeclPattern)
    ensures
        spec_tuple_pattern_names(p) == tuple_names(p@),
    decreases p,
{
    match p {
        CoreTupleDeclPattern::Tuple { items, .. } => lemma_tuple_names_all(items@),
        _ => {},
    }
}

pub proof fn lemma_tuple_names_all(s: Seq<CoreTupleDeclPattern>)
    ensures
        spec_tuple_patterns_names(s) == tuple_names_all(tuple_pattern_views(s)),
    decreases s,
{
    if s.len() > 0 {
        lemma_tuple_names_all(s.drop_last());
        lemma_tuple_names(s.last());
        let v = tuple_pattern_views(s);
        assert(v.drop_last() =~= tuple_pattern_views(s.drop_last()));
        assert(v.last() == s.last()@);
    }
}

/// `names` bound in turn in the innermost scope.
pub open spec fn spec_register_names(sc: AnfScopeModel, names: Seq<Seq<char>>) -> AnfScopeModel
    decreases names.len(),
{
    if names.len() == 0 {
        sc
    } else {
        spec_register_name(spec_register_names(sc, names.drop_last()), names.last())
    }
}

/// `k` fresh temporaries.
pub open spec fn spec_new_temps(sc: AnfScopeModel, k: nat) -> (Seq<ANFVarModel>, AnfScopeModel)
    decreases k,
{
    if k == 0 {
        (Seq::empty(), sc)
    } else {
        let (vs, sc1) = spec_new_temps(sc, (k - 1) as nat);
        let (v, sc2) = spec_new_temp(sc1);
        (vs.push(v), sc2)
    }
}

/// `body` under a lambda for each parameter, the first outermost.
pub open spec fn spec_wrap_lambdas(params: Seq<ANFVarModel>, body: ANFValueModel, span: Span) -> ANFValueModel
    decreases params.len(),
{
    if params.len() == 0 {
        body
    } else {
        spec_wrap_lambdas(
            params.drop_last(),
            ANFValueModel::Atomic(ANFAtomicModel::Lambda { param: params.last(), body: Box::new(body), span }),
            span,
        )
    }
}

pub open spec fn var_values(params: Seq<ANFVarModel>, span: Span) -> Seq<ANFValueModel> {
    params.map_values(|v: ANFVarModel| ANFValueModel::Atomic(ANFAtomicModel::Var { var: v, span }))
}

/// Each data constructor declared as a function of its fields that builds
/// the constructed value: its tag gets a number, and each field a fresh
/// temporary.
pub open spec fn spec_register_ctors(
    ctors: Seq<DataConstructorModel>,
    sc: AnfScopeModel,
    col: Seq<ANFStatementModel>,
    span: Span,
) -> (AnfScopeModel, Seq<ANFStatementModel>)
    decreases ctors.len(),
{
    if ctors.len() == 0 {
        (sc, col)
    } else {
        let (sc1, col1) = spec_register_ctors(ctors.drop_last(), sc, col, span);
        let ctor = ctors.last();
        let id = sc1.counter as usize;
        let sc2 = spec_register_name(sc1, ctor.tag);
        let (params, sc3) = spec_new_temps(sc2, ctor.types.len());
        let value = spec_wrap_lambdas(
            params,
            ANFValueModel::Atomic(ANFAtomicModel::Constructor { tag: ctor.tag, items: var_values(params, span), span }),
            span,
        );
        (
            sc3,
            col1.push(
                ANFStatementModel::Declaration(
                    ANFDeclPatternModel::Single(ANFVarModel { id: Some(id), name: ctor.tag }),
                    value,
                ),
            ),
        )
    }
}

pub open spec fn ctor_sizes(ctors: Seq<DataConstructorModel>) -> nat
    decreases ctors.len(),
{
    if ctors.len() == 0 {
        0
    } else {
        ctor_sizes(ctors.drop_last()) + 1 + ctors.last().types.len()
    }
}


/// Declares each data constructor of a sum type as a function of its
/// fields that builds the constructed value.
fn register_sum_type_ctors(
    ctors: &Vec<CoreDataConstructor>,
    scope: &mut Scope,
    collected: &mut Vec<ANFStatement>,
    span: Span,
)
    requires
        old(scope)@.frames.len() >= 1,
        old(scope)@.counter + ctor_sizes(data_constructor_views(ctors@)) <= usize::MAX,
    ensures
        final(scope)@.frames.len() == old(scope)@.frames.len(),
        old(scope)@.counter <= final(scope)@.counter <= old(scope)@.counter + ctor_sizes(data_constructor_views(ctors@)),
        top_scope_fresh(old(scope)@) ==> top_scope_fresh(final(scope)@),
        spec_register_ctors(data_constructor_views(ctors@), old(scope)@, anf_statement_views(old(collected)@), span) == (
            final(scope)@,
            anf_statement_views(final(collected)@),
        ),
{
    let ghost cv = data_constructor_views(ctors@);
    let ghost sc0 = scope@;
    let ghost col0 = anf_statement_views(collected@);
    let mut c: usize = 0;
    proof {
        assert(cv.take(0) =~= Seq::<DataConstructorModel>::empty());
    }
    while c < ctors.len()
        invariant
            c <= ctors.len(),
            cv == data_constructor_views(ctors@),
            cv.len() == ctors.len(),
            sc0 == old(scope)@,
            col0 == anf_statement_views(old(collected)@),
            sc0.counter + ctor_sizes(cv) <= usize::MAX,
            scope@.frames.len() == sc0.frames.len(),
            sc0.frames.len() >= 1,
            sc0.counter <= scope@.counter <= sc0.counter + ctor_sizes(cv.take(c as int)),
            spec_register_ctors(cv.take(c as int), sc0, col0, span) == (scope@, anf_statement_views(collected@)),
            top_scope_fresh(sc0) ==> top_scope_fresh(scope@),
        decreases ctors.len() - c,
    {
        proof {
            assert(cv.take(c + 1).drop_last() =~= cv.take(c as int));
            assert(cv.take(c + 1).last() == cv[c as int]);
            lemma_ctor_sizes_prefix(cv, c as int);
            assert(cv[c as int] == ctors@[c as int]@);
            lemma_atomic_type_expr_views(ctors@[c as int].types@);
        }
        let tag = ctors[c].tag.clone();
        let ghost sc_pre = scope@;
        let id = scope.register_name(tag.as_str());
        let ghost sc2 = scope@;
        proof {
            if top_scope_fresh(sc0) {
                lemma_register_fresh(sc_pre, tag@);
            }
        }
        let mut params: Vec<ANFVar> = Vec::new();
        let mut k: usize = 0;
        proof {
            assert(params@.map_values(|v: ANFVar| v@) =~= spec_new_temps(sc2, 0).0);
        }
        while k < ctors[c].types.len()
            invariant
                c < ctors.len(),
                k <= ctors@[c as int].types@.len(),
                scope@.counter == sc2.counter + k,
                sc2.counter + ctors@[c as int].types@.len() <= usize::MAX,
                scope@.frames == sc2.frames,
                params@.map_values(|v: ANFVar| v@) == spec_new_temps(sc2, k as nat).0,
                scope@ == spec_new_temps(sc2, k as nat).1,
                top_scope_fresh(sc0) ==> top_scope_fresh(sc2),
                sc2.frames.len() >= 1,
            decreases ctors@[c as int].types@.len() - k,
        {
            let var = scope.new_temp();
            params.push(var);
            proof {
                assert(params@.map_values(|v: ANFVar| v@) =~= spec_new_temps(sc2, (k + 1) as nat).0);
            }
            k += 1;
        }
        proof {
            if top_scope_fresh(sc0) {
                lemma_fresh_same_top(sc2, scope@);
            }
        }
        let ghost pv = params@.map_values(|v: ANFVar| v@);
        let mut items: Vec<ANFValue> = Vec::new();
        let mut j: usize = 0;
        while j < params.len()
            invariant
                j <= params.len(),
                pv == params@.map_values(|v: ANFVar| v@),
                anf_value_views(items@) == var_values(pv.take(j as int), span),
            decreases params.len() - j,
        {
            let item = ANFValue::Atomic(ANFAtomic::Var { var: params[j].copy(), span });
            let ghost before = items@;
            items.push(item);
            proof {
                lemma_anf_value_views_push(before, item);
                assert(pv.take(j + 1) =~= pv.take(j as int).push(pv[j as int]));
                assert(var_values(pv.take(j + 1), span) =~= var_values(pv.take(j as int), span).push(
                    ANFValueModel::Atomic(ANFAtomicModel::Var { var: pv[j as int], span }),
                ));
            }
            j += 1;
        }
        proof {
            assert(pv.take(j as int) =~= pv);
        }
        let mut value = ANFValue::Atomic(ANFAtomic::Constructor { tag: tag.clone(), items, span });
        let ghost body0 = value@;
        while params.len() > 0
            invariant
                spec_wrap_lambdas(pv, body0, span) == spec_wrap_lambdas(params@.map_values(|v: ANFVar| v@), value@, span),
            decreases params.len(),
        {
            let ghost rest = params@;
            let param = params.pop().unwrap();
            proof {
                assert(rest.map_values(|v: ANFVar| v@).drop_last() =~= params@.map_values(|v: ANFVar| v@));
            }
            value = ANFValue::Atomic(ANFAtomic::Lambda { param, body: Box::new(value), span });
        }
        proof {
            assert(params@.map_values(|v: ANFVar| v@) =~= Seq::<ANFVarModel>::empty());
        }
        let pattern = ANFDeclPattern::Single(ANFVar { id: Some(id), name: tag });
        let declaration = ANFStatement::Declaration(pattern, value);
        let ghost before = collected@;
        collected.push(declaration);
        proof {
            lemma_anf_statement_views_push(before, declaration);
        }
        c += 1;
    }
    proof {
        assert(cv.take(c as int) =~= cv);
    }
}

proof fn lemma_ctor_sizes_prefix(s: Seq<DataConstructorModel>, i: int)
    requires
        0 <= i < s.len(),
    ensures
        ctor_sizes(s.take(i + 1)) == ctor_sizes(s.take(i)) + 1 + s[i].types.len(),
        ctor_sizes(s.take(i + 1)) <= ctor_sizes(s),
    decreases s.len(),
{
    assert(s.take(i + 1).drop_last() =~= s.take(i));
    if i + 1 < s.len() {
        lemma_ctor_sizes_prefix(s.drop_last(), i);
        assert(s.drop_last().take(i + 1) =~= s.take(i + 1));
        assert(s.drop_last().take(i) =~= s.take(i));
    } else {
        assert(s.take(i + 1) =~= s);
    }
}


/// What the first pass over the top scope leaves: the scope with every
/// declared name and data constructor numbered, the constructors'
/// declarations, and where `main` is declared, if it is.
pub type Prepass = (AnfScopeModel, Seq<ANFStatementModel>, Option<Span>);

pub open spec fn prepass_step(state: Prepass, st: CoreStatementModel) -> Prepass {
    match st {
        CoreStatementModel::VarDeclaration { pattern, .. } => (
            spec_register_names(state.0, decl_names(pattern)),
            state.1,
            match pattern {
                CoreDeclPatternModel::Identifier { name, span } => if name == "main"@ {
                    Some(span)
                } else {
                    state.2
                },
                _ => state.2,
            },
        ),
        CoreStatementModel::TypeDeclaration { expr, .. } => match expr {
            TypeExprModel::Sum { ctors, span } => {
                let (sc1, col1) = spec_register_ctors(ctors, state.0, state.1, span);
                (sc1, col1, state.2)
            },
            _ => state,
        },
        _ => state,
    }
}

pub open spec fn prepass_size(st: CoreStatementModel) -> nat {
    match st {
        CoreStatementModel::VarDeclaration { pattern, .. } => decl_names(pattern).len(),
        CoreStatementModel::TypeDeclaration { expr, .. } => match expr {
            TypeExprModel::Sum { ctors, .. } => ctor_sizes(ctors),
            _ => 0,
        },
        _ => 0,
    }
}

pub open spec fn prepass_sizes(s: Seq<CoreStatementModel>) -> nat
    decreases s.len(),
{
    if s.len() == 0 {
        0
    } else {
        prepass_sizes(s.drop_last()) + prepass_size(s.last())
    }
}

/// The statements of the top scope, collected in order after the first
/// pass.
pub open spec fn spec_collect_all(stmts: Seq<CoreStatementModel>, sc: AnfScopeModel, col: Seq<ANFStatementModel>) -> (
    AnfScopeModel,
    Seq<ANFStatementModel>,
)
    decreases stmts.len(),
{
    if stmts.len() == 0 {
        (sc, col)
    } else {
        let (sc1, col1) = spec_collect_all(stmts.drop_last(), sc, col);
        spec_collect_stmt(stmts.last(), sc1, col1)
    }
}


/// The statement that runs `main`.
pub open spec fn main_statement(frames: Seq<Map<Seq<char>, usize>>, span: Span) -> ANFStatementModel {
    ANFStatementModel::Value(ANFValueModel::Atomic(ANFAtomicModel::Var { var: anf_var_of(frames, "main"@), span }))
}

pub proof fn lemma_prepass_prefix(s: Seq<CoreStatementModel>, i: int)
    requires
        0 <= i < s.len(),
    ensures
        prepass_sizes(s.take(i + 1)) == prepass_sizes(s.take(i)) + prepass_size(s[i]),
        prepass_sizes(s.take(i + 1)) <= prepass_sizes(s),
    decreases s.len(),
{
    assert(s.take(i + 1).drop_last() =~= s.take(i));
    if i + 1 < s.len() {
        lemma_prepass_prefix(s.drop_last(), i);
        assert(s.drop_last().take(i + 1) =~= s.take(i + 1));
        assert(s.drop_last().take(i) =~= s.take(i));
    } else {
        assert(s.take(i + 1) =~= s);
    }
}


// --- the top scope ---

/// The first pass over the top scope: numbers every declared name and data
/// constructor, and finds where `main` is declared.
fn name_prepass(stmts: &Vec<CoreStatement>, scope: &mut Scope, collected: &mut Vec<ANFStatement>) -> (main_span:
    Option<Span>)
    requires
        old(scope)@.frames.len() >= 1,
        old(scope)@.counter + prepass_sizes(core_statement_views(stmts@)) <= usize::MAX,
    ensures
        final(scope)@.frames.len() == old(scope)@.frames.len(),
        final(scope)@.counter <= old(scope)@.counter + prepass_sizes(core_statement_views(stmts@)),
        top_scope_fresh(old(scope)@) ==> top_scope_fresh(final(scope)@),
        core_statement_views(stmts@).fold_left(
            (old(scope)@, anf_statement_views(old(collected)@), None::<Span>),
            |s: Prepass, st: CoreStatementModel| prepass_step(s, st),
        ) == (final(scope)@, anf_statement_views(final(collected)@), main_span),
{
    let ghost v = core_statement_views(stmts@);
    let ghost f = |s: Prepass, st: CoreStatementModel| prepass_step(s, st);
    let ghost init = (scope@, anf_statement_views(collected@), None::<Span>);
    let ghost sc0 = scope@;
    let mut main_span: Option<Span> = None;
    proof {
        lemma_core_statement_views(stmts@);
        assert(v.take(0).fold_left(init, f) == init);
    }
    let mut i: usize = 0;
    while i < stmts.len()
        invariant
            i <= stmts.len(),
            v == core_statement_views(stmts@),
            v.len() == stmts.len(),
            forall|j: int| 0 <= j < stmts.len() ==> #[trigger] v[j] == stmts@[j]@,
            f == (|s: Prepass, st: CoreStatementModel| prepass_step(s, st)),
            init == (old(scope)@, anf_statement_views(old(collected)@), None::<Span>),
            sc0 == old(scope)@,
            sc0.frames.len() >= 1,
            sc0.counter + prepass_sizes(v) <= usize::MAX,
            scope@.frames.len() == sc0.frames.len(),
            scope@.counter <= sc0.counter + prepass_sizes(v.take(i as int)),
            v.take(i as int).fold_left(init, f) == (scope@, anf_statement_views(collected@), main_span),
            top_scope_fresh(sc0) ==> top_scope_fresh(scope@),
        decreases stmts.len() - i,
    {
        proof {
            crate::static_check::static_check::lemma_fold_take(v, init, f, i as int);
            lemma_prepass_prefix(v, i as int);
        }
        match &stmts[i] {
            CoreStatement::VarDeclaration { pattern, .. } => {
                let names = pattern.all_identifiers();
                let ghost sc_before = scope@;
                let ghost nv = string_views(names@);
                proof {
                    if pattern is Tuple {
                        lemma_tuple_names_all(pattern->Tuple_items@);
                    }
                    assert(nv == decl_names(pattern@));
                    assert(nv.take(0) =~= Seq::<Seq<char>>::empty());
                }
                let mut k: usize = 0;
                while k < names.len()
                    invariant
                        k <= names.len(),
                        nv == string_views(names@),
                        nv.len() == names@.len(),
                        sc_before.frames.len() >= 1,
                        sc_before.counter + nv.len() <= usize::MAX,
                        scope@ == spec_register_names(sc_before, nv.take(k as int)),
                        scope@.frames.len() == sc_before.frames.len(),
                        scope@.counter == sc_before.counter + k,
                        top_scope_fresh(sc0) ==> top_scope_fresh(scope@),
                    decreases names.len() - k,
                {
                    let ghost sc_pre = scope@;
                    proof {
                        if top_scope_fresh(sc0) {
                            lemma_register_fresh(sc_pre, names@[k as int]@);
                        }
                    }
                    let _ = scope.register_name(names[k].as_str());
                    proof {
                        assert(nv.take(k + 1).drop_last() =~= nv.take(k as int));
                        assert(nv[k as int] == names@[k as int]@);
                    }
                    k += 1;
                }
                proof {
                    assert(nv.take(k as int) =~= nv);
                    reveal_strlit("main");
                }
                match pattern {
                    CoreDeclPattern::Identifier { name, span } => {
                        if str_eq(name.as_str(), "main") {
                            main_span = Some(*span);
                        }
                    },
                    _ => {},
                }
            },
            CoreStatement::TypeDeclaration { expr, .. } => {
                match expr {
                    CoreTypeExpr::Sum { ctors, span } => {
                        register_sum_type_ctors(ctors, scope, collected, *span);
                    },
                    _ => {},
                }
            },
            _ => {},
        }
        i += 1;
    }
    proof {
        assert(v.take(i as int) =~= v);
    }
    main_span
}

/// The statements of the top scope, collected in order.
fn collect_all(stmts: &Vec<CoreStatement>, scope: &mut Scope, collected: &mut Vec<ANFStatement>)
    requires
        old(scope)@.frames.len() >= 1,
        statements_have_operands(core_statement_views(stmts@)),
        old(scope)@.counter + statement_sizes(core_statement_views(stmts@)) <= usize::MAX,
    ensures
        final(scope)@.frames == old(scope)@.frames,
        old(scope)@.counter <= final(scope)@.counter,
        spec_collect_all(core_statement_views(stmts@), old(scope)@, anf_statement_views(old(collected)@)) == (
            final(scope)@,
            anf_statement_views(final(collected)@),
        ),
{
    let ghost v = core_statement_views(stmts@);
    let ghost sc0 = scope@;
    let ghost col0 = anf_statement_views(collected@);
    proof {
        lemma_core_statement_views(stmts@);
        assert(v.take(0) =~= Seq::<CoreStatementModel>::empty());
    }
    let mut i: usize = 0;
    while i < stmts.len()
        invariant
            i <= stmts.len(),
            v == core_statement_views(stmts@),
            v.len() == stmts.len(),
            forall|j: int| 0 <= j < stmts.len() ==> #[trigger] v[j] == stmts@[j]@,
            sc0 == old(scope)@,
            col0 == anf_statement_views(old(collected)@),
            sc0.frames.len() >= 1,
            statements_have_operands(v),
            sc0.counter + statement_sizes(v) <= usize::MAX,
            scope@.frames == sc0.frames,
            sc0.counter <= scope@.counter,
            scope@.counter <= sc0.counter + statement_sizes(v.take(i as int)),
            spec_collect_all(v.take(i as int), sc0, col0) == (scope@, anf_statement_views(collected@)),
        decreases stmts.len() - i,
    {
        proof {
            lemma_statements_prefix(v, i as int);
            lemma_statements_prefix(v, i + 1);
            assert(v.take(i + 1).drop_last() =~= v.take(i as int));
            assert(v.take(i + 1).last() == v[i as int]);
        }
        collect_stmt_to_anf(&stmts[i], scope, collected);
        i += 1;
    }
    proof {
        assert(v.take(i as int) =~= v);
    }
}




// --- programs ---

/// The A-normal form of the top scope: the first pass numbers the declared
/// names and declares the data constructors, the statements are collected
/// in order, the declarations are ordered by their dependencies, and a
/// statement that runs `main` comes last where `main` is declared.
fn collect_stmts_to_anf(stmts: &Vec<CoreStatement>, scope: &mut Scope, collected: &mut Vec<ANFStatement>)
    requires
        old(scope)@.frames.len() >= 1,
        statements_have_operands(core_statement_views(stmts@)),
        old(scope)@.counter + prepass_sizes(core_statement_views(stmts@)) + statement_sizes(core_statement_views(stmts@))
            <= usize::MAX,
    ensures
        ({
            let (sc1, col1, main) = core_statement_views(stmts@).fold_left(
                (old(scope)@, anf_statement_views(old(collected)@), None::<Span>),
                |s: Prepass, st: CoreStatementModel| prepass_step(s, st),
            );
            let (sc2, all) = spec_collect_all(core_statement_views(stmts@), sc1, col1);
            let r = anf_statement_views(final(collected)@);
            &&& final(scope)@ == sc2
            &&& sc2.frames.len() == old(scope)@.frames.len()
            &&& (top_scope_fresh(old(scope)@) ==> top_scope_fresh(sc2))
            &&& match main {
                Some(span) => r.len() >= 1 && rearranges_by_dependencies(r.drop_last(), all) && r.last() == main_statement(sc2.frames, span),
                None => rearranges_by_dependencies(r, all),
            }
        }),
{
    let main_span = name_prepass(stmts, scope, collected);
    let ghost sc1 = scope@;
    collect_all(stmts, scope, collected);
    proof {
        if top_scope_fresh(old(scope)@) {
            lemma_fresh_same_top(sc1, scope@);
        }
    }
    let mut all: Vec<ANFStatement> = Vec::new();
    std::mem::swap(&mut all, collected);
    let mut reordered = reorder_by_dependencies(all);
    match main_span {
        Some(span) => {
            let var = ANFVar { id: scope.get_id("main"), name: string_from("main") };
            let ghost before = reordered@;
            let main_anf = ANFStatement::Value(ANFValue::Atomic(ANFAtomic::Var { var, span }));
            reordered.push(main_anf);
            proof {
                lemma_anf_statement_views_push(before, main_anf);
                assert(anf_statement_views(reordered@).drop_last() =~= anf_statement_views(before));
            }
        },
        None => {},
    }
    *collected = reordered;
}

/// What the conversion tells of the program: the name of each number the
/// top scope handed out to a name.
pub struct ANFMetaData {
    pub name_by_id: HashMap<usize, String>,
}

/// The last binding of a name is the one the scope keeps, and a name the
/// scope binds has a last binding.
pub proof fn lemma_frame_map_last(pairs: Seq<(String, usize)>, k: int)
    requires
        0 <= k < pairs.len(),
        forall|j: int| k < j < pairs.len() ==> (#[trigger] pairs[j]).0@ != pairs[k].0@,
    ensures
        frame_map(pairs).contains_key(pairs[k].0@),
        frame_map(pairs)[pairs[k].0@] == pairs[k].1,
    decreases pairs.len(),
{
    if k < pairs.len() - 1 {
        lemma_frame_map_last(pairs.drop_last(), k);
        assert(pairs.drop_last()[k] == pairs[k]);
        assert(pairs.last().0@ != pairs[k].0@);
    }
}

pub proof fn lemma_frame_map_has_last(pairs: Seq<(String, usize)>, name: Seq<char>)
    requires
        frame_map(pairs).contains_key(name),
    ensures
        exists|k: int|
            0 <= k < pairs.len() && (#[trigger] pairs[k]).0@ == name && frame_map(pairs)[name] == pairs[k].1 && forall|j: int|
                k < j < pairs.len() ==> (#[trigger] pairs[j]).0@ != name,
    decreases pairs.len(),
{
    if pairs.last().0@ == name {
        let k = pairs.len() - 1;
        assert(pairs[k].0@ == name);
    } else {
        lemma_frame_map_has_last(pairs.drop_last(), name);
        let k = choose|k: int|
            0 <= k < pairs.drop_last().len() && (#[trigger] pairs.drop_last()[k]).0@ == name && frame_map(pairs.drop_last())[name]
                == pairs.drop_last()[k].1 && forall|j: int|
                k < j < pairs.drop_last().len() ==> (#[trigger] pairs.drop_last()[j]).0@ != name;
        assert(pairs[k] == pairs.drop_last()[k]);
        assert forall|j: int| k < j < pairs.len() implies (#[trigger] pairs[j]).0@ != name by {
            if j < pairs.len() - 1 {
                assert(pairs[j] == pairs.drop_last()[j]);
            }
        }
    }
}

/// The names of the top scope by number: each number maps to a name the
/// scope binds to it, and the number of each name the scope binds is there.
fn names_by_id(frame: &Vec<(String, usize)>) -> (m: HashMap<usize, String>)
    ensures
        forall|id: usize| #[trigger] m@.contains_key(id) ==> frame_map(frame@).contains_key(m@[id]@) && frame_map(
            frame@,
        )[m@[id]@] == id,
        forall|name: Seq<char>| #[trigger] frame_map(frame@).contains_key(name) ==> m@.contains_key(
            frame_map(frame@)[name],
        ),
{
    broadcast use vstd::std_specs::hash::group_hash_axioms;
    let ghost pairs = frame@;
    let mut m: HashMap<usize, String> = HashMap::new();
    let mut i: usize = 0;
    while i < frame.len()
        invariant
            i <= frame.len(),
            pairs == frame@,
            forall|id: usize| #[trigger] m@.contains_key(id) ==> frame_map(pairs).contains_key(m@[id]@) && frame_map(
                pairs,
            )[m@[id]@] == id,
            forall|k: int|
                0 <= k < i && (forall|j: int| k < j < pairs.len() ==> (#[trigger] pairs[j]).0@ != pairs[k].0@)
                    ==> m@.contains_key((#[trigger] pairs[k]).1),
        decreases frame.len() - i,
    {
        // a name bound again later is shadowed
        let mut later = false;
        let mut j: usize = i + 1;
        while j < frame.len()
            invariant
                i < j <= frame.len(),
                pairs == frame@,
                later <==> exists|q: int| i < q < j && (#[trigger] pairs[q]).0@ == pairs[i as int].0@,
            decreases frame.len() - j,
        {
            if str_eq(frame[j].0.as_str(), frame[i].0.as_str()) {
                later = true;
            }
            j += 1;
        }
        let ghost before = m@;
        if !later {
            proof {
                lemma_frame_map_last(pairs, i as int);
            }
            m.insert(frame[i].1, frame[i].0.clone());
        }
        proof {
            assert forall|k: int|
                0 <= k < i + 1 && (forall|j: int| k < j < pairs.len() ==> (#[trigger] pairs[j]).0@ != pairs[k].0@)
                    implies m@.contains_key((#[trigger] pairs[k]).1) by {
                if k < i {
                    assert(before.contains_key(pairs[k].1));
                }
            }
        }
        i += 1;
    }
    proof {
        assert forall|name: Seq<char>| #[trigger] frame_map(pairs).contains_key(name) implies m@.contains_key(
            frame_map(pairs)[name],
        ) by {
            lemma_frame_map_has_last(pairs, name);
            let k = choose|k: int|
                0 <= k < pairs.len() && (#[trigger] pairs[k]).0@ == name && frame_map(pairs)[name] == pairs[k].1 && forall|j: int|
                    k < j < pairs.len() ==> (#[trigger] pairs[j]).0@ != name;
            assert(m@.contains_key(pairs[k].1));
        }
    }
    m
}


/// The scope a program starts in: one empty scope, numbers from zero.
pub open spec fn root_scope() -> AnfScopeModel {
    AnfScopeModel { frames: seq![Map::empty()], counter: 0 }
}

/// A program in A-normal form, with the names of the numbers of its top
/// scope. Every block of the program ends in an expression statement, as
/// the static checks make sure, and the numbers handed out fit in `usize`.
pub fn parse_anf(stmts: &Vec<CoreStatement>) -> (r: (Vec<ANFStatement>, ANFMetaData))
    requires
        statements_have_operands(core_statement_views(stmts@)),
        prepass_sizes(core_statement_views(stmts@)) + statement_sizes(core_statement_views(stmts@)) <= usize::MAX,
    ensures
        ({
            let (sc1, col1, main) = core_statement_views(stmts@).fold_left(
                (root_scope(), Seq::<ANFStatementModel>::empty(), None::<Span>),
                |s: Prepass, st: CoreStatementModel| prepass_step(s, st),
            );
            let (sc2, all) = spec_collect_all(core_statement_views(stmts@), sc1, col1);
            let anfs = anf_statement_views(r.0@);
            let top = sc2.frames[0];
            &&& match main {
                Some(span) => anfs.len() >= 1 && rearranges_by_dependencies(anfs.drop_last(), all) && anfs.last() == main_statement(
                    sc2.frames,
                    span,
                ),
                None => rearranges_by_dependencies(anfs, all),
            }
            &&& forall|id: usize| #[trigger] r.1.name_by_id@.contains_key(id) ==> top.contains_key(
                r.1.name_by_id@[id]@,
            ) && top[r.1.name_by_id@[id]@] == id
            &&& forall|name: Seq<char>| #[trigger] top.contains_key(name) ==> r.1.name_by_id@.contains_key(top[name])
                && r.1.name_by_id@[top[name]]@ == name
        }),
{
    let mut collected_anfs: Vec<ANFStatement> = Vec::new();
    let mut top_scope = Scope::new_root();
    proof {
        assert(anf_statement_views(collected_anfs@) =~= Seq::<ANFStatementModel>::empty());
    }
    proof {
        assert(top_scope_fresh(top_scope@));
    }
    collect_stmts_to_anf(stmts, &mut top_scope, &mut collected_anfs);
    proof {
        assert(top_scope.frames@.len() == top_scope@.frames.len());
    }
    let name_by_id = names_by_id(&top_scope.frames[0]);
    proof {
        let top = top_scope@.frames[0];
        assert forall|name: Seq<char>| #[trigger] top.contains_key(name) implies name_by_id@[top[name]]@ == name by {
            let other = name_by_id@[top[name]]@;
            assert(top.contains_key(other) && top[other] == top[name]);
        }
    }
    let metadata = ANFMetaData { name_by_id };
    (collected_anfs, metadata)
}


// --- the numbers a declaration pattern gets ---

/// The numbers `frames` gives `names`, in order, leaving out the names it does
/// not know.
pub open spec fn known_ids(frames: Seq<Map<Seq<char>, usize>>, names: Seq<Seq<char>>) -> Seq<usize>
    decreases names.len(),
{
    if names.len() == 0 {
        Seq::empty()
    } else {
        known_ids(frames, names.drop_last()) + match spec_get_id(frames, names.last()) {
            Some(id) => seq![id],
            None => Seq::empty(),
        }
    }
}

proof fn lemma_known_ids_append(frames: Seq<Map<Seq<char>, usize>>, a: Seq<Seq<char>>, b: Seq<Seq<char>>)
    ensures
        known_ids(frames, a + b) == known_ids(frames, a) + known_ids(frames, b),
    decreases b.len(),
{
    if b.len() == 0 {
        assert(a + b =~= a);
        assert(known_ids(frames, a) + known_ids(frames, b) =~= known_ids(frames, a));
    } else {
        lemma_known_ids_append(frames, a, b.drop_last());
        assert((a + b).drop_last() =~= a + b.drop_last());
        assert((a + b).last() == b.last());
        let tail = match spec_get_id(frames, b.last()) {
            Some(id) => seq![id],
            None => Seq::<usize>::empty(),
        };
        assert(known_ids(frames, a) + known_ids(frames, b.drop_last()) + tail
            =~= known_ids(frames, a) + (known_ids(frames, b.drop_last()) + tail));
    }
}

proof fn lemma_known_ids_one(frames: Seq<Map<Seq<char>, usize>>, name: Seq<char>)
    ensures
        known_ids(frames, seq![name]) == var_ids(anf_var_of(frames, name)),
{
    let s = seq![name];
    assert(s.drop_last() =~= Seq::<Seq<char>>::empty());
    assert(s.last() == name);
    assert(known_ids(frames, s.drop_last()) =~= Seq::<usize>::empty());
    assert(known_ids(frames, s) =~= var_ids(anf_var_of(frames, name)));
}

proof fn lemma_tuple_pattern_ids(p: TuplePatternModel, frames: Seq<Map<Seq<char>, usize>>)
    ensures
        pattern_ids(spec_tuple_pattern_to_anf(p, frames)) == known_ids(frames, tuple_names(p)),
    decreases p,
{
    match p {
        TuplePatternModel::Identifier { name, .. } => {
            lemma_known_ids_one(frames, name);
        },
        TuplePatternModel::Tuple { items, .. } => lemma_tuple_patterns_ids(items, frames),
    }
}

proof fn lemma_tuple_patterns_ids(s: Seq<TuplePatternModel>, frames: Seq<Map<Seq<char>, usize>>)
    ensures
        patterns_ids(spec_tuple_patterns_to_anf(s, frames)) == known_ids(frames, tuple_names_all(s)),
    decreases s,
{
    if s.len() > 0 {
        lemma_tuple_patterns_ids(s.drop_last(), frames);
        lemma_tuple_pattern_ids(s.last(), frames);
        lemma_known_ids_append(frames, tuple_names_all(s.drop_last()), tuple_names(s.last()));
        let q = spec_tuple_patterns_to_anf(s, frames);
        assert(q.drop_last() =~= spec_tuple_patterns_to_anf(s.drop_last(), frames));
    }
}

/// The numbers a declaration pattern gets are those the scope gives the names
/// `all_identifiers` lists, in the same order, leaving out the names the scope
/// does not know.
pub proof fn law_decl_pattern_ids(p: CoreDeclPattern, frames: Seq<Map<Seq<char>, usize>>)
    ensures
        pattern_ids(spec_decl_pattern_to_anf(p@, frames)) == known_ids(frames, spec_decl_pattern_names(p)),
{
    match p {
        CoreDeclPattern::Identifier { name, .. } => {
            lemma_known_ids_one(frames, name@);
        },
        CoreDeclPattern::Tuple { items, .. } => {
            lemma_tuple_names_all(items@);
            lemma_tuple_patterns_ids(tuple_pattern_views(items@), frames);
        },
    }
}

// --- the arms of a match ---

/// A match in A-normal form keeps its arms, in order: arm `i` has the
/// pattern of the core match's arm `i`, and its value is that arm's value
/// in A-normal form, put in the scope the arms before it left.
pub proof fn law_arms_in_order(arms: Seq<CoreMatchArmModel>, sc: AnfScopeModel, span: Span)
    ensures
        spec_arms_to_anf(arms, sc, span).0.len() == arms.len(),
        forall|i: int|
            0 <= i < arms.len() ==> (#[trigger] spec_arms_to_anf(arms, sc, span).0[i]).0 == arms[i].pattern,
        forall|i: int|
            0 <= i < arms.len() ==> {
                let (v, _, col) = spec_expr_to_anf(
                    arms[i].value_expr,
                    spec_arms_to_anf(arms.take(i), sc, span).1,
                    Seq::empty(),
                );
                (#[trigger] spec_arms_to_anf(arms, sc, span).0[i]).1 == spec_wrap_scoped_anf(col, v, span)
            },
    decreases arms.len(),
{
    if arms.len() > 0 {
        let d = arms.drop_last();
        law_arms_in_order(d, sc, span);
        assert forall|i: int| 0 <= i < d.len() implies #[trigger] d.take(i) == arms.take(i) && d[i] == arms[i] by {
            assert(d.take(i) =~= arms.take(i));
        }
        assert(arms.take(arms.len() - 1) =~= d);
    }
}

} // verus!
