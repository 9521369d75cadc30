//! Desugaring: function clauses become one lambda over a match, and the
//! resolved program becomes core statements.

use vstd::prelude::*;

use crate::error::ErrorKind;
use crate::error::ErrorModel;
use crate::error::FogError;
use crate::error::FogResult;
use crate::error::error_views;
use crate::error::Span;
use crate::parser::core_expr::ArmPatternModel;
use crate::parser::core_expr::AtomicTypeExprModel;
use crate::parser::core_expr::CoreDeclPatternModel;
use crate::parser::core_expr::CoreExprModel;
use crate::parser::core_expr::CoreMatchArmModel;
use crate::parser::core_expr::CoreStatementModel;
use crate::parser::core_expr::CoreAtomicTypeExpr;
use crate::parser::core_expr::CoreDeclPattern;
use crate::parser::core_expr::CoreExpr;
use crate::parser::core_expr::CoreMatchArm;
use crate::parser::core_expr::CoreMatchArmPattern;
use crate::parser::core_expr::CoreStatement;
use crate::parser::core_expr::CoreTupleDeclPattern;
use crate::parser::core_expr::arm_pattern_span;
use crate::parser::core_expr::arm_pattern_view;
use crate::parser::core_expr::arm_pattern_views;
use crate::parser::core_expr::tuple_pattern_view;
use crate::parser::core_expr::atomic_type_expr_views;
use crate::parser::core_expr::copy_atomic_type_expr;
use crate::parser::core_expr::core_expr_views;
use crate::parser::core_expr::core_match_arm_views;
use crate::parser::core_expr::core_statement_views;
use crate::parser::core_expr::lemma_arm_pattern_views;
use crate::parser::core_expr::lemma_atomic_type_expr_views;
use crate::parser::core_expr::lemma_atomic_type_expr_views_push;
use crate::parser::core_expr::lemma_core_expr_views_push;
use crate::parser::core_expr::lemma_core_match_arm_views_push;
use crate::parser::core_expr::lemma_core_statement_views;
use crate::parser::core_expr::lemma_core_statement_views_push;
use crate::parser::core_expr::lemma_tuple_pattern_views;
use crate::parser::core_expr::tuple_pattern_views;
use crate::parser::parsed_expr::parse_error;
use crate::parser::resolved_expr::ResolvedDeclPattern;
use crate::parser::resolved_expr::ResolvedDeclPatternModel;
use crate::parser::resolved_expr::ResolvedExpr;
use crate::parser::resolved_expr::ResolvedMatchArm;
use crate::parser::resolved_expr::ResolvedMatchArmPattern;
use crate::parser::resolved_expr::ResolvedStatement;
use crate::parser::resolved_expr::ResolvedTupleDeclPattern;
use crate::parser::resolved_expr::lemma_resolved_arm_pattern_views;
use crate::parser::resolved_expr::lemma_resolved_expr_views;
use crate::parser::resolved_expr::lemma_resolved_match_arm_views;
use crate::parser::resolved_expr::lemma_resolved_statement_views;
use crate::parser::resolved_expr::lemma_resolved_tuple_pattern_views;
use crate::parser::resolved_expr::resolved_arm_pattern_view;
use crate::parser::resolved_expr::resolved_arm_pattern_views;
use crate::parser::resolved_expr::resolved_tuple_pattern_view;
use crate::parser::resolved_expr::resolved_expr_views;
use crate::parser::resolved_expr::resolved_match_arm_views;
use crate::parser::resolved_expr::resolved_statement_views;
use crate::parser::resolved_expr::resolved_tuple_pattern_views;
use crate::parser::resolved_expr::ResolvedExprModel;
use crate::parser::resolved_expr::ResolvedMatchArmModel;
use crate::parser::resolved_expr::ResolvedStatementModel;
use crate::static_check::types::str_eq;
use crate::util::spec_decimal;
use crate::util::string_from;
use crate::util::string_views;
use crate::util::usize_to_decimal;

verus! {

// --- expressions ---

pub open spec fn spec_desugar_expr(e: ResolvedExprModel) -> CoreExprModel
    decreases e, 0int,
{
    match e {
        ResolvedExprModel::Block { statements, span } => CoreExprModel::Block {
            statements: spec_desugar_statements(statements).0,
            span,
        },
        ResolvedExprModel::Identifier { name, span } => CoreExprModel::Identifier { name, span },
        ResolvedExprModel::Literal { literal, span } => CoreExprModel::Literal { literal, span },
        ResolvedExprModel::Lambda { param_name, param_type, body, span } => CoreExprModel::Lambda {
            param_name,
            param_type,
            body: Box::new(spec_desugar_expr(*body)),
            span,
        },
        ResolvedExprModel::Tuple { items, span } => CoreExprModel::Tuple { items: spec_desugar_exprs(items), span },
        ResolvedExprModel::FunctionAppl { callee, arg, span } => CoreExprModel::FunctionAppl {
            callee: Box::new(spec_desugar_expr(*callee)),
            arg: Box::new(spec_desugar_expr(*arg)),
            span,
        },
        ResolvedExprModel::Match { scrutinee, match_arms, span } => CoreExprModel::Match {
            scrutinee: Box::new(spec_desugar_expr(*scrutinee)),
            arms: spec_desugar_arms(match_arms),
            span,
        },
    }
}

pub open spec fn spec_desugar_exprs(s: Seq<ResolvedExprModel>) -> Seq<CoreExprModel>
    decreases s, 0int,
{
    if s.len() == 0 {
        Seq::empty()
    } else {
        spec_desugar_exprs(s.drop_last()).push(spec_desugar_expr(s.last()))
    }
}

pub open spec fn spec_desugar_arms(s: Seq<ResolvedMatchArmModel>) -> Seq<CoreMatchArmModel>
    decreases s, 0int,
{
    if s.len() == 0 {
        Seq::empty()
    } else {
        spec_desugar_arms(s.drop_last()).push(
            CoreMatchArmModel { pattern: s.last().pattern, value_expr: spec_desugar_expr(s.last().value_expr) },
        )
    }
}

// --- statements ---

/// One clause of a function declared by pattern-matched clauses: its
/// parameter patterns, its body, and where its pattern stands.
pub struct ClauseModel {
    pub params: Seq<ArmPatternModel>,
    pub body: CoreExprModel,
    pub span: Span,
}

/// The clauses of one function, in order.
pub struct ClauseGroupModel {
    pub name: Seq<char>,
    pub clauses: Seq<ClauseModel>,
}

/// What one pass over a scope's statements collects: the statements that
/// pass through, the function clauses grouped by name in the order the
/// names first occur, and the errors.
pub struct Collected {
    pub statements: Seq<CoreStatementModel>,
    pub groups: Seq<ClauseGroupModel>,
    pub errors: Seq<ErrorModel>,
}

/// Where the last group named `name` stands, or -1.
pub open spec fn group_index(groups: Seq<ClauseGroupModel>, name: Seq<char>) -> int
    decreases groups.len(),
{
    if groups.len() == 0 {
        -1
    } else if groups.last().name == name {
        groups.len() - 1
    } else {
        group_index(groups.drop_last(), name)
    }
}

pub open spec fn add_clause(groups: Seq<ClauseGroupModel>, name: Seq<char>, clause: ClauseModel) -> Seq<ClauseGroupModel> {
    let i = group_index(groups, name);
    if i >= 0 {
        groups.update(i, ClauseGroupModel { name, clauses: groups[i].clauses.push(clause) })
    } else {
        groups.push(ClauseGroupModel { name, clauses: seq![clause] })
    }
}

pub open spec fn spec_add_statement(c: Collected, st: ResolvedStatementModel) -> Collected
    decreases st, 0int,
{
    match st {
        ResolvedStatementModel::KindAnnotation { name, expr, span } => Collected {
            statements: c.statements.push(CoreStatementModel::KindAnnotation { name, expr, span }),
            ..c
        },
        ResolvedStatementModel::TypeDeclaration { name, expr, span } => Collected {
            statements: c.statements.push(
                CoreStatementModel::TypeDeclaration { name, params: Seq::empty(), expr, span },
            ),
            ..c
        },
        ResolvedStatementModel::TypeAnnotation { name, expr, span } => Collected {
            statements: c.statements.push(CoreStatementModel::TypeAnnotation { name, expr, span }),
            ..c
        },
        ResolvedStatementModel::VarDeclaration { pattern, expr, .. } => {
            let expr = spec_desugar_expr(expr);
            match pattern {
                ResolvedDeclPatternModel::Identifier { name, span } => Collected {
                    statements: c.statements.push(
                        CoreStatementModel::VarDeclaration {
                            pattern: CoreDeclPatternModel::Identifier { name, span },
                            expr,
                            span,
                        },
                    ),
                    ..c
                },
                ResolvedDeclPatternModel::Tuple { items, span } => Collected {
                    statements: c.statements.push(
                        CoreStatementModel::VarDeclaration {
                            pattern: CoreDeclPatternModel::Tuple { items, span },
                            expr,
                            span,
                        },
                    ),
                    ..c
                },
                ResolvedDeclPatternModel::FunctionClause { name, items, span } => Collected {
                    groups: add_clause(c.groups, name, ClauseModel { params: items, body: expr, span }),
                    ..c
                },
            }
        },
        ResolvedStatementModel::Expression { expr, span } => Collected {
            statements: c.statements.push(CoreStatementModel::Expression { expr: spec_desugar_expr(expr), span }),
            ..c
        },
    }
}

pub open spec fn spec_collect(s: Seq<ResolvedStatementModel>) -> Collected
    decreases s, 1int,
{
    if s.len() == 0 {
        Collected { statements: Seq::empty(), groups: Seq::empty(), errors: Seq::empty() }
    } else {
        spec_add_statement(spec_collect(s.drop_last()), s.last())
    }
}

/// The statements of a scope, with each function declared by clauses turned
/// into one declaration, and the errors met.
pub open spec fn spec_desugar_statements(s: Seq<ResolvedStatementModel>) -> (Seq<CoreStatementModel>, Seq<ErrorModel>)
    decreases s, 2int,
{
    let c = spec_collect(s);
    spec_combine(c.groups, c.statements, c.errors)
}

// --- combining clauses ---

/// The type annotated for `name` first among `statements`, if any.
pub open spec fn find_annotation(statements: Seq<CoreStatementModel>, name: Seq<char>) -> Option<AtomicTypeExprModel>
    decreases statements.len(),
{
    if statements.len() == 0 {
        None
    } else {
        match statements[0] {
            CoreStatementModel::TypeAnnotation { name: n, expr, .. } => if n == name {
                Some(expr)
            } else {
                find_annotation(statements.drop_first(), name)
            },
            _ => find_annotation(statements.drop_first(), name),
        }
    }
}

pub open spec fn arity_error(name: Seq<char>, arity: nat, found: nat, span: Span) -> ErrorModel {
    parse_error(
        "function `"@ + name + "` is declared with "@ + spec_decimal(arity) + " argument(s), but its type signature only accounts for "@
            + spec_decimal(found),
        Some(span),
    )
}

/// The parameter and return types of a function type, written either as an
/// arrow `A -> B` or as the arrow applied to them, `(-> A) B`.
pub open spec fn arrow_parts(t: AtomicTypeExprModel) -> Option<(AtomicTypeExprModel, AtomicTypeExprModel)> {
    match t {
        AtomicTypeExprModel::Function { param_type, return_type, .. } => Some((*param_type, *return_type)),
        AtomicTypeExprModel::FunctionAppl { callee, arg, .. } => match *callee {
            AtomicTypeExprModel::FunctionAppl { callee: op, arg: param_type, .. } => match *op {
                AtomicTypeExprModel::Identifier { name, .. } => if name == "->"@ {
                    Some((*param_type, *arg))
                } else {
                    None
                },
                _ => None,
            },
            _ => None,
        },
        _ => None,
    }
}

/// The arrow's parts of a function type, in either written form.
fn split_arrow(t: CoreAtomicTypeExpr) -> (r: Result<(CoreAtomicTypeExpr, CoreAtomicTypeExpr), CoreAtomicTypeExpr>)
    ensures
        match arrow_parts(t@) {
            Some((p, q)) => r matches Ok((a, b)) && a@ == p && b@ == q,
            None => r is Err,
        },
{
    proof {
        reveal_strlit("->");
        reveal_with_fuel(crate::parser::core_expr::atomic_type_expr_view, 3);
    }
    match t {
        CoreAtomicTypeExpr::Function { param_type, return_type, .. } => Ok((*param_type, *return_type)),
        CoreAtomicTypeExpr::FunctionAppl { callee, arg, span } => match *callee {
            CoreAtomicTypeExpr::FunctionAppl { callee: op, arg: param_type, span: inner } => match *op {
                CoreAtomicTypeExpr::Identifier { name, span: op_span } => {
                    if str_eq(name.as_str(), "->") {
                        Ok((*param_type, *arg))
                    } else {
                        Err(CoreAtomicTypeExpr::Identifier { name, span: op_span })
                    }
                },
                other => Err(other),
            },
            other => Err(other),
        },
        other => Err(other),
    }
}

/// The first `remaining` parameter types of a function type, after those in
/// `found`.
pub open spec fn peel_params(
    t: AtomicTypeExprModel,
    remaining: nat,
    found: Seq<AtomicTypeExprModel>,
    name: Seq<char>,
    arity: nat,
    span: Span,
) -> Result<Seq<AtomicTypeExprModel>, ErrorModel>
    decreases remaining,
{
    if remaining == 0 {
        Ok(found)
    } else {
        match arrow_parts(t) {
            Some((param_type, return_type)) => peel_params(
                return_type,
                (remaining - 1) as nat,
                found.push(param_type),
                name,
                arity,
                span,
            ),
            None => Err(arity_error(name, arity, found.len(), span)),
        }
    }
}

/// The parameter types of a function declared by `arity`-parameter clauses,
/// read from its type annotation.
pub open spec fn spec_find_param_types(
    statements: Seq<CoreStatementModel>,
    name: Seq<char>,
    arity: nat,
    span: Span,
) -> Result<Seq<AtomicTypeExprModel>, ErrorModel> {
    match find_annotation(statements, name) {
        None => Err(
            parse_error(
                "function `"@ + name + "` needs a type annotation to use pattern-matched clauses"@,
                Some(span),
            ),
        ),
        Some(t) => peel_params(t, arity, Seq::empty(), name, arity, span),
    }
}

/// The name of the `i`-th parameter of a function declared by clauses.
pub open spec fn arg_name(i: nat) -> Seq<char> {
    seq!['a', 'r', 'g'] + spec_decimal(i)
}

pub open spec fn clause_arm(c: ClauseModel, arity: nat) -> CoreMatchArmModel {
    CoreMatchArmModel {
        pattern: if arity == 1 {
            c.params[0]
        } else {
            ArmPatternModel::Tuple {
                items: c.params,
                span: if c.params.len() > 0 {
                    arm_pattern_span(c.params[0])
                } else {
                    c.span
                },
            }
        },
        value_expr: c.body,
    }
}

pub open spec fn clause_arms(s: Seq<ClauseModel>, arity: nat) -> Seq<CoreMatchArmModel>
    decreases s.len(),
{
    if s.len() == 0 {
        Seq::empty()
    } else {
        clause_arms(s.drop_last(), arity).push(clause_arm(s.last(), arity))
    }
}

pub open spec fn arg_identifiers(n: nat, span: Span) -> Seq<CoreExprModel>
    decreases n,
{
    if n == 0 {
        Seq::empty()
    } else {
        arg_identifiers((n - 1) as nat, span).push(
            CoreExprModel::Identifier { name: arg_name((n - 1) as nat), span },
        )
    }
}

/// `body` under one lambda for each parameter type, the first outermost.
pub open spec fn wrap_lambdas(types: Seq<AtomicTypeExprModel>, body: CoreExprModel, span: Span) -> CoreExprModel
    decreases types.len(),
{
    if types.len() == 0 {
        body
    } else {
        wrap_lambdas(
            types.drop_last(),
            CoreExprModel::Lambda {
                param_name: arg_name((types.len() - 1) as nat),
                param_type: types.last(),
                body: Box::new(body),
                span,
            },
            span,
        )
    }
}

/// The lambda that a function's clauses become: one parameter for each of
/// its types, and a match of the parameters against the clauses' patterns.
pub open spec fn clauses_lambda(clauses: Seq<ClauseModel>, types: Seq<AtomicTypeExprModel>, span: Span) -> CoreExprModel {
    let arity = types.len();
    let scrutinee = if arity == 1 {
        CoreExprModel::Identifier { name: arg_name(0), span }
    } else {
        CoreExprModel::Tuple { items: arg_identifiers(arity, span), span }
    };
    wrap_lambdas(
        types,
        CoreExprModel::Match { scrutinee: Box::new(scrutinee), arms: clause_arms(clauses, arity), span },
        span,
    )
}

/// Where a function declared by clauses is said to stand: at its first
/// clause's first parameter.
pub open spec fn group_span(g: ClauseGroupModel) -> Span {
    if g.clauses[0].params.len() > 0 {
        arm_pattern_span(g.clauses[0].params[0])
    } else {
        g.clauses[0].span
    }
}

pub open spec fn same_arity(clauses: Seq<ClauseModel>, arity: nat) -> bool {
    forall|i: int| 0 <= i < clauses.len() ==> #[trigger] clauses[i].params.len() == arity
}

pub open spec fn combine_one(
    g: ClauseGroupModel,
    statements: Seq<CoreStatementModel>,
    errors: Seq<ErrorModel>,
) -> (Seq<CoreStatementModel>, Seq<ErrorModel>) {
    let arity = g.clauses[0].params.len();
    let span = group_span(g);
    if !same_arity(g.clauses, arity) {
        (
            statements,
            errors.push(
                parse_error(
                    "clauses of function `"@ + g.name + "` don't all take the same number of arguments"@,
                    Some(span),
                ),
            ),
        )
    } else {
        match spec_find_param_types(statements, g.name, arity, span) {
            Err(e) => (statements, errors.push(e)),
            Ok(types) => (
                statements.push(
                    CoreStatementModel::VarDeclaration {
                        pattern: CoreDeclPatternModel::Identifier { name: g.name, span },
                        expr: clauses_lambda(g.clauses, types, span),
                        span,
                    },
                ),
                errors,
            ),
        }
    }
}

pub open spec fn spec_combine(
    groups: Seq<ClauseGroupModel>,
    statements: Seq<CoreStatementModel>,
    errors: Seq<ErrorModel>,
) -> (Seq<CoreStatementModel>, Seq<ErrorModel>)
    decreases groups.len(),
{
    if groups.len() == 0 {
        (statements, errors)
    } else {
        let (st, er) = spec_combine(groups.drop_last(), statements, errors);
        combine_one(groups.last(), st, er)
    }
}

/// The match a function's clauses become has one arm per clause, in the
/// clauses' order: arm `i` has clause `i`'s body, and its pattern is
/// clause `i`'s parameter where the function has one, the tuple of its
/// parameters otherwise.
pub proof fn law_clause_arms_in_order(s: Seq<ClauseModel>, arity: nat)
    ensures
        clause_arms(s, arity).len() == s.len(),
        forall|i: int| 0 <= i < s.len() ==> (#[trigger] clause_arms(s, arity)[i]).value_expr == s[i].body,
        forall|i: int|
            0 <= i < s.len() && arity == 1 ==> (#[trigger] clause_arms(s, arity)[i]).pattern == s[i].params[0],
        forall|i: int|
            0 <= i < s.len() && arity != 1 ==> (#[trigger] clause_arms(s, arity)[i]).pattern is Tuple
                && clause_arms(s, arity)[i].pattern->Tuple_items == s[i].params,
    decreases s.len(),
{
    if s.len() > 0 {
        law_clause_arms_in_order(s.drop_last(), arity);
        assert forall|i: int| 0 <= i < s.len() - 1 implies #[trigger] s.drop_last()[i] == s[i] by {}
    }
}

/// A function of one parameter declared by clauses becomes the lambda of
/// that parameter whose body matches it against the clauses' patterns, in
/// the clauses' order.
pub proof fn law_clauses_lambda_one_parameter(clauses: Seq<ClauseModel>, t: AtomicTypeExprModel, span: Span)
    ensures
        ({
            let e = clauses_lambda(clauses, seq![t], span);
            &&& e is Lambda
            &&& e->Lambda_param_name == arg_name(0)
            &&& e->Lambda_param_type == t
            &&& *e->Lambda_body is Match
            &&& *e->Lambda_body->Match_scrutinee == (CoreExprModel::Identifier { name: arg_name(0), span })
            &&& e->Lambda_body->Match_arms.len() == clauses.len()
            &&& forall|i: int|
                0 <= i < clauses.len() ==> (#[trigger] e->Lambda_body->Match_arms[i]).pattern == clauses[i].params[0]
                    && e->Lambda_body->Match_arms[i].value_expr == clauses[i].body
        }),
{
    law_clause_arms_in_order(clauses, 1);
    let types = seq![t];
    assert(types.drop_last() =~= Seq::<AtomicTypeExprModel>::empty());
    assert(types.last() == t);
    assert(types.len() == 1);
    let m = CoreExprModel::Match {
        scrutinee: Box::new(CoreExprModel::Identifier { name: arg_name(0), span }),
        arms: clause_arms(clauses, 1),
        span,
    };
    let l = CoreExprModel::Lambda { param_name: arg_name(0), param_type: t, body: Box::new(m), span };
    assert(wrap_lambdas(Seq::<AtomicTypeExprModel>::empty(), l, span) == l);
    assert(wrap_lambdas(types, m, span) == wrap_lambdas(types.drop_last(), l, span));
    assert(clauses_lambda(clauses, types, span) == l);
}

} // verus!

verus! {

// --- patterns ---

/// A match arm pattern of the resolved program as one of the core program.
fn desugar_match_arm_pattern(pattern: &ResolvedMatchArmPattern) -> (r: CoreMatchArmPattern)
    ensures
        r@ == pattern@,
    decreases pattern,
{
    match pattern {
        ResolvedMatchArmPattern::Literal { literal, span } => CoreMatchArmPattern::Literal {
            literal: literal.copy(),
            span: *span,
        },
        ResolvedMatchArmPattern::Tuple { items, span } => CoreMatchArmPattern::Tuple {
            items: desugar_match_arm_patterns(items),
            span: *span,
        },
        ResolvedMatchArmPattern::Identifier { name, span } => CoreMatchArmPattern::Identifier {
            name: name.clone(),
            span: *span,
        },
        ResolvedMatchArmPattern::DataConstructor { name, args, span } => CoreMatchArmPattern::DataConstructor {
            name: name.clone(),
            args: desugar_match_arm_patterns(args),
            span: *span,
        },
    }
}

fn desugar_match_arm_patterns(items: &Vec<ResolvedMatchArmPattern>) -> (r: Vec<CoreMatchArmPattern>)
    ensures
        arm_pattern_views(r@) == resolved_arm_pattern_views(items@),
    decreases items,
{
    let mut out: Vec<CoreMatchArmPattern> = Vec::new();
    let mut i: usize = 0;
    proof {
        lemma_resolved_arm_pattern_views(items@);
    }
    while i < items.len()
        invariant
            i <= items.len(),
            out@.len() == i,
            resolved_arm_pattern_views(items@).len() == items.len(),
            forall|j: int| 0 <= j < items.len() ==> #[trigger] resolved_arm_pattern_views(items@)[j] == items@[j]@,
            forall|j: int| 0 <= j < i ==> #[trigger] arm_pattern_view(out@[j]) == resolved_arm_pattern_view(items@[j]),
        decreases items.len() - i,
    {
        proof {
            assert(decreases_to!(*items => items@));
            assert(decreases_to!(items@ => items@[i as int]));
        }
        out.push(desugar_match_arm_pattern(&items[i]));
        i += 1;
    }
    proof {
        lemma_arm_pattern_views(out@);
        assert(arm_pattern_views(out@) =~= resolved_arm_pattern_views(items@));
    }
    out
}

/// A tuple pattern of the resolved program as one of the core program.
pub fn desugar_tuple_decl_pattern(pattern: &ResolvedTupleDeclPattern) -> (r: FogResult<CoreTupleDeclPattern>)
    ensures
        r matches Ok(p) && p@ == pattern@,
    decreases pattern,
{
    match pattern {
        ResolvedTupleDeclPattern::Identifier { name, span } => Ok(
            CoreTupleDeclPattern::Identifier { name: name.clone(), span: *span },
        ),
        ResolvedTupleDeclPattern::Tuple { items, span } => {
            let mut out: Vec<CoreTupleDeclPattern> = Vec::new();
            let mut i: usize = 0;
            proof {
                lemma_resolved_tuple_pattern_views(items@);
            }
            while i < items.len()
                invariant
                    i <= items.len(),
                    out@.len() == i,
                    *pattern is Tuple,
                    (*pattern)->Tuple_items == *items,
                    resolved_tuple_pattern_views(items@).len() == items.len(),
                    forall|j: int| 0 <= j < items.len() ==> #[trigger] resolved_tuple_pattern_views(items@)[j] == items@[j]@,
                    forall|j: int| 0 <= j < i ==> #[trigger] tuple_pattern_view(out@[j]) == resolved_tuple_pattern_view(
                        items@[j],
                    ),
                decreases items.len() - i,
            {
                proof {
                    assert(decreases_to!(*pattern => (*pattern)->Tuple_items));
                    assert(decreases_to!(*items => items@));
                    assert(decreases_to!(items@ => items@[i as int]));
                }
                match desugar_tuple_decl_pattern(&items[i]) {
                    Ok(p) => out.push(p),
                    Err(e) => return Err(e),
                }
                i += 1;
            }
            proof {
                lemma_tuple_pattern_views(out@);
                assert(tuple_pattern_views(out@) =~= resolved_tuple_pattern_views(items@));
            }
            Ok(CoreTupleDeclPattern::Tuple { items: out, span: *span })
        },
    }
}

fn desugar_tuple_decl_patterns(items: &Vec<ResolvedTupleDeclPattern>) -> (r: Vec<CoreTupleDeclPattern>)
    ensures
        tuple_pattern_views(r@) == resolved_tuple_pattern_views(items@),
{
    let mut out: Vec<CoreTupleDeclPattern> = Vec::new();
    let mut i: usize = 0;
    proof {
        lemma_resolved_tuple_pattern_views(items@);
    }
    while i < items.len()
        invariant
            i <= items.len(),
            out@.len() == i,
            resolved_tuple_pattern_views(items@).len() == items.len(),
            forall|j: int| 0 <= j < items.len() ==> #[trigger] resolved_tuple_pattern_views(items@)[j] == items@[j]@,
            forall|j: int| 0 <= j < i ==> #[trigger] tuple_pattern_view(out@[j]) == resolved_tuple_pattern_view(items@[j]),
        decreases items.len() - i,
    {
        match desugar_tuple_decl_pattern(&items[i]) {
            Ok(p) => out.push(p),
            Err(_) => {},
        }
        i += 1;
    }
    proof {
        lemma_tuple_pattern_views(out@);
        assert(tuple_pattern_views(out@) =~= resolved_tuple_pattern_views(items@));
    }
    out
}

// --- expressions ---

fn desugar_expr(e: &ResolvedExpr) -> (r: CoreExpr)
    ensures
        r@ == spec_desugar_expr(e@),
    decreases e, 0int,
{
    match e {
        ResolvedExpr::Block { statements, span } => {
            let (statements, _errors) = desugar_statements(statements);
            CoreExpr::Block { statements, span: *span }
        },
        ResolvedExpr::Identifier { name, span } => CoreExpr::Identifier { name: name.clone(), span: *span },
        ResolvedExpr::Literal { literal, span } => CoreExpr::Literal { literal: literal.copy(), span: *span },
        ResolvedExpr::Lambda { param_name, param_type, body, span } => CoreExpr::Lambda {
            param_name: param_name.clone(),
            param_type: copy_atomic_type_expr(param_type),
            body: Box::new(desugar_expr(body)),
            span: *span,
        },
        ResolvedExpr::Tuple { items, span } => CoreExpr::Tuple { items: desugar_exprs(items), span: *span },
        ResolvedExpr::FunctionAppl { callee, arg, span } => CoreExpr::FunctionAppl {
            callee: Box::new(desugar_expr(callee)),
            arg: Box::new(desugar_expr(arg)),
            span: *span,
        },
        ResolvedExpr::Match { scrutinee, match_arms, span } => CoreExpr::Match {
            scrutinee: Box::new(desugar_expr(scrutinee)),
            arms: desugar_arms(match_arms),
            span: *span,
        },
    }
}

fn desugar_exprs(items: &Vec<ResolvedExpr>) -> (r: Vec<CoreExpr>)
    ensures
        core_expr_views(r@) == spec_desugar_exprs(resolved_expr_views(items@)),
    decreases items, 0int,
{
    let mut out: Vec<CoreExpr> = Vec::new();
    let mut i: usize = 0;
    let ghost v = resolved_expr_views(items@);
    proof {
        lemma_resolved_expr_views(items@);
        assert(core_expr_views(out@) =~= spec_desugar_exprs(v.take(0)));
    }
    while i < items.len()
        invariant
            i <= items.len(),
            v == resolved_expr_views(items@),
            v.len() == items.len(),
            forall|j: int| 0 <= j < items.len() ==> #[trigger] v[j] == items@[j]@,
            core_expr_views(out@) == spec_desugar_exprs(v.take(i as int)),
        decreases items.len() - i,
    {
        proof {
            assert(decreases_to!(*items => items@));
            assert(decreases_to!(items@ => items@[i as int]));
        }
        let x = desugar_expr(&items[i]);
        let ghost before = out@;
        out.push(x);
        proof {
            lemma_core_expr_views_push(before, x);
            assert(v.take(i + 1).drop_last() =~= v.take(i as int));
        }
        i += 1;
    }
    proof {
        assert(v.take(i as int) =~= v);
    }
    out
}

fn desugar_arms(items: &Vec<ResolvedMatchArm>) -> (r: Vec<CoreMatchArm>)
    ensures
        core_match_arm_views(r@) == spec_desugar_arms(resolved_match_arm_views(items@)),
    decreases items, 0int,
{
    let mut out: Vec<CoreMatchArm> = Vec::new();
    let mut i: usize = 0;
    let ghost v = resolved_match_arm_views(items@);
    proof {
        lemma_resolved_match_arm_views(items@);
        assert(core_match_arm_views(out@) =~= spec_desugar_arms(v.take(0)));
    }
    while i < items.len()
        invariant
            i <= items.len(),
            v == resolved_match_arm_views(items@),
            v.len() == items.len(),
            forall|j: int| 0 <= j < items.len() ==> #[trigger] v[j] == items@[j]@,
            core_match_arm_views(out@) == spec_desugar_arms(v.take(i as int)),
        decreases items.len() - i,
    {
        proof {
            assert(decreases_to!(*items => items@));
            assert(decreases_to!(items@ => items@[i as int]));
            assert(decreases_to!(items@[i as int] => items@[i as int].value_expr));
        }
        let arm = CoreMatchArm {
            pattern: desugar_match_arm_pattern(&items[i].pattern),
            value_expr: desugar_expr(&items[i].value_expr),
        };
        let ghost before = out@;
        out.push(arm);
        proof {
            lemma_core_match_arm_views_push(before, arm);
            assert(v.take(i + 1).drop_last() =~= v.take(i as int));
        }
        i += 1;
    }
    proof {
        assert(v.take(i as int) =~= v);
    }
    out
}

// --- statements ---

struct FnClause {
    params: Vec<CoreMatchArmPattern>,
    body: CoreExpr,
    span: Span,
}

impl View for FnClause {
    type V = ClauseModel;

    closed spec fn view(&self) -> ClauseModel {
        ClauseModel { params: arm_pattern_views(self.params@), body: self.body@, span: self.span }
    }
}

struct ClauseGroup {
    name: String,
    clauses: Vec<FnClause>,
}

impl View for ClauseGroup {
    type V = ClauseGroupModel;

    closed spec fn view(&self) -> ClauseGroupModel {
        ClauseGroupModel { name: self.name@, clauses: self.clauses@.map_values(|c: FnClause| c@) }
    }
}

spec fn group_views(s: Seq<ClauseGroup>) -> Seq<ClauseGroupModel> {
    s.map_values(|g: ClauseGroup| g@)
}

spec fn groups_nonempty(s: Seq<ClauseGroupModel>) -> bool {
    forall|i: int| 0 <= i < s.len() ==> (#[trigger] s[i]).clauses.len() > 0
}

/// Adds a clause to the group of its function, or opens one.
fn add_clause_to(groups: &mut Vec<ClauseGroup>, name: String, clause: FnClause)
    requires
        groups_nonempty(group_views(old(groups)@)),
    ensures
        group_views(final(groups)@) == add_clause(group_views(old(groups)@), name@, clause@),
        groups_nonempty(group_views(final(groups)@)),
{
    let ghost gv = group_views(groups@);
    let mut i: usize = groups.len();
    proof {
        assert(gv.take(gv.len() as int) =~= gv);
    }
    while i > 0
        invariant
            i <= groups.len(),
            groups@ == old(groups)@,
            gv == group_views(groups@),
            gv.len() == groups.len(),
            groups_nonempty(gv),
            group_index(gv, name@) == group_index(gv.take(i as int), name@),
        decreases i,
    {
        proof {
            assert(gv.take(i as int).drop_last() =~= gv.take(i - 1));
        }
        if str_eq(groups[i - 1].name.as_str(), name.as_str()) {
            let mut g = groups.remove(i - 1);
            let ghost g_before = g@;
            g.clauses.push(clause);
            groups.insert(i - 1, g);
            proof {
                assert(g@.clauses =~= g_before.clauses.push(clause@));
                assert(group_views(groups@) =~= gv.update(i - 1, g@));
                assert forall|j: int| 0 <= j < group_views(groups@).len() implies (#[trigger] group_views(
                    groups@,
                )[j]).clauses.len() > 0 by {
                    if j != i - 1 {
                        assert(group_views(groups@)[j] == gv[j]);
                        assert(groups_nonempty(gv));
                        assert(gv[j].clauses.len() > 0);
                    } else {
                        assert(group_views(groups@)[j] == g@);
                    }
                }
            }
            return;
        }
        i -= 1;
    }
    let mut clauses: Vec<FnClause> = Vec::new();
    clauses.push(clause);
    let g = ClauseGroup { name, clauses };
    groups.push(g);
    proof {
        assert(g@.clauses =~= seq![clause@]);
        assert(group_views(groups@) =~= gv.push(g@));
        assert forall|j: int| 0 <= j < group_views(groups@).len() implies (#[trigger] group_views(groups@)[j]).clauses.len()
            > 0 by {
            if j < gv.len() {
                assert(group_views(groups@)[j] == gv[j]);
            }
        }
    }
}

/// What one statement of a scope adds to what was collected.
fn add_statement(st: &ResolvedStatement, statements: &mut Vec<CoreStatement>, groups: &mut Vec<ClauseGroup>)
    requires
        groups_nonempty(group_views(old(groups)@)),
    ensures
        groups_nonempty(group_views(final(groups)@)),
        spec_add_statement(
            Collected {
                statements: core_statement_views(old(statements)@),
                groups: group_views(old(groups)@),
                errors: Seq::empty(),
            },
            st@,
        ) == (Collected {
            statements: core_statement_views(final(statements)@),
            groups: group_views(final(groups)@),
            errors: Seq::empty(),
        }),
    decreases st, 0int,
{
    let ghost before = statements@;
    let new_statement = match st {
        ResolvedStatement::KindAnnotation { name, expr, span } => CoreStatement::KindAnnotation {
            name: name.clone(),
            expr: expr.copy(),
            span: *span,
        },
        ResolvedStatement::TypeDeclaration { name, expr, span } => {
            let params: Vec<String> = Vec::new();
            proof {
                assert(string_views(params@) =~= Seq::<Seq<char>>::empty());
            }
            CoreStatement::TypeDeclaration { name: name.clone(), params, expr: expr.copy(), span: *span }
        },
        ResolvedStatement::TypeAnnotation { name, expr, span } => CoreStatement::TypeAnnotation {
            name: name.clone(),
            expr: copy_atomic_type_expr(expr),
            span: *span,
        },
        ResolvedStatement::VarDeclaration { pattern, expr, .. } => {
            let expr = desugar_expr(expr);
            match pattern {
                ResolvedDeclPattern::Identifier { name, span } => CoreStatement::VarDeclaration {
                    pattern: CoreDeclPattern::Identifier { name: name.clone(), span: *span },
                    expr,
                    span: *span,
                },
                ResolvedDeclPattern::Tuple { items, span } => CoreStatement::VarDeclaration {
                    pattern: CoreDeclPattern::Tuple { items: desugar_tuple_decl_patterns(items), span: *span },
                    expr,
                    span: *span,
                },
                ResolvedDeclPattern::FunctionClause { name, items, span } => {
                    let clause = FnClause { params: desugar_match_arm_patterns(items), body: expr, span: *span };
                    add_clause_to(groups, name.clone(), clause);
                    return;
                },
            }
        },
        ResolvedStatement::Expression { expr, span } => CoreStatement::Expression {
            expr: desugar_expr(expr),
            span: *span,
        },
    };
    statements.push(new_statement);
    proof {
        lemma_core_statement_views_push(before, new_statement);
    }
}

/// The statements of a scope, with each function declared by clauses turned
/// into one declaration, and the errors met.
fn desugar_statements(resolved: &Vec<ResolvedStatement>) -> (r: (Vec<CoreStatement>, Vec<FogError>))
    ensures
        (core_statement_views(r.0@), error_views(r.1@)) == spec_desugar_statements(resolved_statement_views(resolved@)),
    decreases resolved, 2int,
{
    let ghost v = resolved_statement_views(resolved@);
    let mut statements: Vec<CoreStatement> = Vec::new();
    let mut groups: Vec<ClauseGroup> = Vec::new();
    let mut i: usize = 0;
    proof {
        lemma_resolved_statement_views(resolved@);
        assert(v.take(0) =~= Seq::<ResolvedStatementModel>::empty());
        assert(core_statement_views(statements@) =~= Seq::<CoreStatementModel>::empty());
        assert(group_views(groups@) =~= Seq::<ClauseGroupModel>::empty());
    }
    while i < resolved.len()
        invariant
            i <= resolved.len(),
            v == resolved_statement_views(resolved@),
            v.len() == resolved.len(),
            forall|j: int| 0 <= j < resolved.len() ==> #[trigger] v[j] == resolved@[j]@,
            groups_nonempty(group_views(groups@)),
            spec_collect(v.take(i as int)) == (Collected {
                statements: core_statement_views(statements@),
                groups: group_views(groups@),
                errors: Seq::empty(),
            }),
        decreases resolved.len() - i,
    {
        proof {
            assert(decreases_to!(*resolved => resolved@));
            assert(decreases_to!(resolved@ => resolved@[i as int]));
            assert(v.take(i + 1).drop_last() =~= v.take(i as int));
        }
        add_statement(&resolved[i], &mut statements, &mut groups);
        i += 1;
    }
    proof {
        assert(v.take(i as int) =~= v);
    }
    let mut errors: Vec<FogError> = Vec::new();
    proof {
        assert(error_views(errors@) =~= Seq::<ErrorModel>::empty());
    }
    combine_groups(groups, &mut statements, &mut errors);
    (statements, errors)
}

// --- combining clauses ---

/// The name of the `i`-th parameter of a function declared by clauses.
fn arg_name_of(i: usize) -> (r: String)
    ensures
        r@ == arg_name(i as nat),
{
    let mut name = string_from("arg");
    let digits = usize_to_decimal(i);
    name.append(digits.as_str());
    proof {
        reveal_strlit("arg");
        assert("arg"@ =~= seq!['a', 'r', 'g']);
    }
    name
}

proof fn lemma_peel_len(
    t: AtomicTypeExprModel,
    remaining: nat,
    found: Seq<AtomicTypeExprModel>,
    name: Seq<char>,
    arity: nat,
    span: Span,
)
    ensures
        peel_params(t, remaining, found, name, arity, span) matches Ok(r) ==> r.len() == found.len() + remaining,
    decreases remaining,
{
    if remaining > 0 {
        if let Some((param_type, return_type)) = arrow_parts(t) {
            lemma_peel_len(return_type, (remaining - 1) as nat, found.push(param_type), name, arity, span);
        }
    }
}

/// The parameter types of a function declared by `arity`-parameter
/// clauses, read from its type annotation among `statements`.
pub fn find_fn_clause_param_types(statements: &Vec<CoreStatement>, fn_name: &str, arity: usize, span: Span) -> (r:
    FogResult<Vec<CoreAtomicTypeExpr>>)
    ensures
        match spec_find_param_types(core_statement_views(statements@), fn_name@, arity as nat, span) {
            Ok(m) => r matches Ok(v) && atomic_type_expr_views(v@) == m,
            Err(e) => r matches Err(x) && x@ == e,
        },
{
    let ghost v = core_statement_views(statements@);
    proof {
        lemma_core_statement_views(statements@);
        assert(v.skip(0) =~= v);
    }
    let mut i: usize = 0;
    let mut found: Option<CoreAtomicTypeExpr> = None;
    while i < statements.len() && found.is_none()
        invariant
            i <= statements.len(),
            v == core_statement_views(statements@),
            v.len() == statements.len(),
            forall|j: int| 0 <= j < statements.len() ==> #[trigger] v[j] == statements@[j]@,
            found matches Some(t) ==> find_annotation(v, fn_name@) == Some(t@),
            found is None ==> find_annotation(v, fn_name@) == find_annotation(v.skip(i as int), fn_name@),
        decreases statements.len() - i,
    {
        proof {
            assert(v.skip(i as int)[0] == v[i as int]);
            assert(v.skip(i as int).drop_first() =~= v.skip(i + 1));
        }
        if let CoreStatement::TypeAnnotation { name, expr, .. } = &statements[i] {
            if str_eq(name.as_str(), fn_name) {
                found = Some(copy_atomic_type_expr(expr));
            }
        }
        i += 1;
    }
    let annotated = match found {
        Some(t) => t,
        None => {
            proof {
                assert(v.skip(i as int) =~= Seq::<CoreStatementModel>::empty());
            }
            let mut message = string_from("function `");
            message.append(fn_name);
            message.append("` needs a type annotation to use pattern-matched clauses");
            return Err(FogError::new(ErrorKind::Parse, message, Some(span)));
        },
    };
    let mut params: Vec<CoreAtomicTypeExpr> = Vec::new();
    let mut current = annotated;
    let mut k: usize = 0;
    proof {
        assert(atomic_type_expr_views(params@) =~= Seq::<AtomicTypeExprModel>::empty());
    }
    while k < arity
        invariant
            k <= arity,
            params@.len() == k,
            v == core_statement_views(statements@),
            spec_find_param_types(v, fn_name@, arity as nat, span) == peel_params(
                current@,
                (arity - k) as nat,
                atomic_type_expr_views(params@),
                fn_name@,
                arity as nat,
                span,
            ),
        decreases arity - k,
    {
        let ghost cur = current@;
        match split_arrow(current) {
            Ok((param_type, return_type)) => {
                let ghost before = params@;
                params.push(param_type);
                proof {
                    lemma_atomic_type_expr_views_push(before, param_type);
                }
                current = return_type;
            },
            Err(_) => {
                let mut message = string_from("function `");
                message.append(fn_name);
                message.append("` is declared with ");
                let a = usize_to_decimal(arity);
                message.append(a.as_str());
                message.append(" argument(s), but its type signature only accounts for ");
                let n = usize_to_decimal(k);
                message.append(n.as_str());
                proof {
                    lemma_atomic_type_expr_views(params@);
                    assert(arrow_parts(cur) is None);
                    assert(peel_params(cur, (arity - k) as nat, atomic_type_expr_views(params@), fn_name@, arity as nat, span)
                        == Err::<Seq<AtomicTypeExprModel>, ErrorModel>(arity_error(fn_name@, arity as nat, k as nat, span)));
                    assert(message@ =~= arity_error(fn_name@, arity as nat, k as nat, span).message);
                }
                return Err(FogError::new(ErrorKind::Parse, message, Some(span)));
            },
        }
        k += 1;
    }
    Ok(params)
}

/// The lambda that a function's clauses become.
fn clauses_lambda_of(clauses: Vec<FnClause>, types: Vec<CoreAtomicTypeExpr>, span: Span) -> (r: CoreExpr)
    requires
        same_arity(clauses@.map_values(|c: FnClause| c@), types@.len() as nat),
    ensures
        r@ == clauses_lambda(clauses@.map_values(|c: FnClause| c@), atomic_type_expr_views(types@), span),
{
    let ghost cv = clauses@.map_values(|c: FnClause| c@);
    let arity = types.len();
    proof {
        lemma_atomic_type_expr_views(types@);
    }
    // the arms, one for each clause
    let mut clauses = clauses;
    let mut arms: Vec<CoreMatchArm> = Vec::new();
    let ghost mut k: int = 0;
    proof {
        assert(core_match_arm_views(arms@) =~= clause_arms(cv.take(0), arity as nat));
        assert(clauses@.map_values(|c: FnClause| c@) =~= cv.skip(0));
    }
    while clauses.len() > 0
        invariant
            0 <= k <= cv.len(),
            clauses@.len() == cv.len() - k,
            forall|j: int| 0 <= j < clauses@.len() ==> #[trigger] clauses@[j]@ == cv[k + j],
            same_arity(cv, arity as nat),
            core_match_arm_views(arms@) == clause_arms(cv.take(k), arity as nat),
        decreases clauses.len(),
    {
        let ghost old_clauses = clauses@;
        let c = clauses.remove(0);
        proof {
            assert(old_clauses[0]@ == cv[k + 0]);
            assert(c@ == cv[k]);
            assert(cv[k].params.len() == arity);
            lemma_arm_pattern_views(c.params@);
        }
        let FnClause { params, body, span: clause_span } = c;
        let mut params = params;
        let pattern = if arity == 1 {
            params.remove(0)
        } else {
            let tuple_span = if params.len() > 0 {
                params[0].span()
            } else {
                clause_span
            };
            CoreMatchArmPattern::Tuple { items: params, span: tuple_span }
        };
        let arm = CoreMatchArm { pattern, value_expr: body };
        let ghost before = arms@;
        arms.push(arm);
        proof {
            lemma_core_match_arm_views_push(before, arm);
            assert(cv.take(k + 1).drop_last() =~= cv.take(k));
            assert(arm@ == clause_arm(cv[k], arity as nat));
            k = k + 1;
            assert(clauses@ =~= old_clauses.drop_first());
            assert forall|j: int| 0 <= j < clauses@.len() implies #[trigger] clauses@[j]@ == cv[k + j] by {
                assert(clauses@[j] == old_clauses[j + 1]);
                assert(old_clauses[j + 1]@ == cv[k - 1 + (j + 1)]);
            }
        }
    }
    proof {
        assert(cv.take(k) =~= cv);
    }
    // the parameters, as the match's scrutinee
    let scrutinee = if arity == 1 {
        CoreExpr::Identifier { name: arg_name_of(0), span }
    } else {
        let mut items: Vec<CoreExpr> = Vec::new();
        let mut i: usize = 0;
        proof {
            assert(core_expr_views(items@) =~= arg_identifiers(0, span));
        }
        while i < arity
            invariant
                i <= arity,
                core_expr_views(items@) == arg_identifiers(i as nat, span),
            decreases arity - i,
        {
            let id = CoreExpr::Identifier { name: arg_name_of(i), span };
            let ghost before = items@;
            items.push(id);
            proof {
                lemma_core_expr_views_push(before, id);
            }
            i += 1;
        }
        CoreExpr::Tuple { items, span }
    };
    let ghost scrutinee_model = scrutinee@;
    let mut body = CoreExpr::Match { scrutinee: Box::new(scrutinee), arms, span };
    let ghost match_model = body@;
    proof {
        assert(scrutinee_model == if arity == 1 {
            CoreExprModel::Identifier { name: arg_name(0), span }
        } else {
            CoreExprModel::Tuple { items: arg_identifiers(arity as nat, span), span }
        });
        assert(match_model == CoreExprModel::Match {
            scrutinee: Box::new(scrutinee_model),
            arms: clause_arms(cv, arity as nat),
            span,
        });
    }
    // one lambda for each parameter, the first outermost
    let mut types = types;
    let ghost all_types = atomic_type_expr_views(types@);
    while types.len() > 0
        invariant
            wrap_lambdas(all_types, match_model, span) == wrap_lambdas(atomic_type_expr_views(types@), body@, span),
        decreases types.len(),
    {
        let ghost tv = types@;
        let t = types.pop().unwrap();
        proof {
            assert(tv =~= types@.push(t));
            lemma_atomic_type_expr_views_push(types@, t);
            lemma_atomic_type_expr_views(types@);
            assert(atomic_type_expr_views(tv).drop_last() =~= atomic_type_expr_views(types@));
            assert(atomic_type_expr_views(tv).last() == t@);
            assert(atomic_type_expr_views(tv).len() == types@.len() + 1);
        }
        let n = types.len();
        let ghost body_before = body@;
        body = CoreExpr::Lambda { param_name: arg_name_of(n), param_type: t, body: Box::new(body), span };
        proof {
            assert(body@ == CoreExprModel::Lambda {
                param_name: arg_name(n as nat),
                param_type: t@,
                body: Box::new(body_before),
                span,
            });
            assert(wrap_lambdas(atomic_type_expr_views(tv), body_before, span) == wrap_lambdas(
                atomic_type_expr_views(types@),
                body@,
                span,
            ));
        }
    }
    proof {
        assert(atomic_type_expr_views(types@) =~= Seq::<AtomicTypeExprModel>::empty());
    }
    body
}

/// Turns each function's clauses into one declaration, or an error.
fn combine_groups(groups: Vec<ClauseGroup>, statements: &mut Vec<CoreStatement>, errors: &mut Vec<FogError>)
    requires
        groups_nonempty(group_views(groups@)),
    ensures
        (core_statement_views(final(statements)@), error_views(final(errors)@)) == spec_combine(
            group_views(groups@),
            core_statement_views(old(statements)@),
            error_views(old(errors)@),
        ),
{
    let ghost gv = group_views(groups@);
    let ghost st0 = core_statement_views(statements@);
    let ghost er0 = error_views(errors@);
    let mut groups = groups;
    let ghost mut k: int = 0;
    proof {
        assert(gv.take(0) =~= Seq::<ClauseGroupModel>::empty());
    }
    while groups.len() > 0
        invariant
            0 <= k <= gv.len(),
            groups@.len() == gv.len() - k,
            forall|j: int| 0 <= j < groups@.len() ==> #[trigger] groups@[j]@ == gv[k + j],
            groups_nonempty(gv),
            st0 == core_statement_views(old(statements)@),
            er0 == error_views(old(errors)@),
            (core_statement_views(statements@), error_views(errors@)) == spec_combine(gv.take(k), st0, er0),
        decreases groups.len(),
    {
        let ghost old_groups = groups@;
        let g = groups.remove(0);
        proof {
            assert(old_groups[0]@ == gv[k + 0]);
            assert(g@ == gv[k]);
            assert(gv.take(k + 1).drop_last() =~= gv.take(k));
        }
        combine_one_group(g, statements, errors);
        proof {
            k = k + 1;
            assert(groups@ =~= old_groups.drop_first());
            assert forall|j: int| 0 <= j < groups@.len() implies #[trigger] groups@[j]@ == gv[k + j] by {
                assert(groups@[j] == old_groups[j + 1]);
                assert(old_groups[j + 1]@ == gv[k - 1 + (j + 1)]);
            }
        }
    }
    proof {
        assert(gv.take(k) =~= gv);
    }
}

fn combine_one_group(g: ClauseGroup, statements: &mut Vec<CoreStatement>, errors: &mut Vec<FogError>)
    requires
        g@.clauses.len() > 0,
    ensures
        (core_statement_views(final(statements)@), error_views(final(errors)@)) == combine_one(
            g@,
            core_statement_views(old(statements)@),
            error_views(old(errors)@),
        ),
{
    let ghost gm = g@;
    let ClauseGroup { name, clauses } = g;
    proof {
        lemma_arm_pattern_views(clauses@[0].params@);
    }
    let arity = clauses[0].params.len();
    let span = if arity > 0 {
        clauses[0].params[0].span()
    } else {
        clauses[0].span
    };
    let mut j: usize = 0;
    assert forall|i: int| 0 <= i < clauses@.len() implies #[trigger] gm.clauses[i].params.len() == clauses@[i].params@.len() by {
        lemma_arm_pattern_views(clauses@[i].params@);
    }
    let ghost before_errors = errors@;
    proof {
        assert(gm.clauses[0].params == arm_pattern_views(clauses@[0].params@));
        assert(arity == gm.clauses[0].params.len());
        if arity > 0 {
            assert(gm.clauses[0].params[0] == clauses@[0].params@[0]@);
        }
        assert(span == group_span(gm));
    }
    while j < clauses.len()
        invariant
            j <= clauses.len(),
            gm == g@,
            before_errors == old(errors)@,
            statements@ == old(statements)@,
            gm.name == name@,
            span == group_span(gm),
            arity == gm.clauses[0].params.len(),
            gm.clauses == clauses@.map_values(|c: FnClause| c@),
            forall|i: int| 0 <= i < clauses@.len() ==> #[trigger] gm.clauses[i].params.len() == clauses@[i].params@.len(),
            forall|i: int| 0 <= i < j ==> #[trigger] gm.clauses[i].params.len() == arity,
            errors@ == before_errors,
        decreases clauses.len() - j,
    {
        if clauses[j].params.len() != arity {
            assert(gm.clauses[j as int].params.len() != arity);
            let mut message = string_from("clauses of function `");
            message.append(name.as_str());
            message.append("` don't all take the same number of arguments");
            let e = FogError::new(ErrorKind::Parse, message, Some(span));
            errors.push(e);
            proof {
                assert(error_views(errors@) =~= error_views(before_errors).push(e@));
                assert(!same_arity(gm.clauses, arity as nat));
                assert(span == group_span(gm));
                assert(gm.name == name@);
                assert(e@.message =~= "clauses of function `"@ + gm.name + "` don't all take the same number of arguments"@);
            }
            return;
        }
        j += 1;
    }
    match find_fn_clause_param_types(statements, name.as_str(), arity, span) {
        Err(e) => {
            errors.push(e);
            proof {
                assert(error_views(errors@) =~= error_views(before_errors).push(e@));
            }
        },
        Ok(types) => {
            proof {
                lemma_atomic_type_expr_views(types@);
                match find_annotation(core_statement_views(statements@), name@) {
                    Some(t) => lemma_peel_len(t, arity as nat, Seq::empty(), name@, arity as nat, span),
                    None => {},
                }
            }
            let lambda = clauses_lambda_of(clauses, types, span);
            let declaration = CoreStatement::VarDeclaration {
                pattern: CoreDeclPattern::Identifier { name, span },
                expr: lambda,
                span,
            };
            let ghost before = statements@;
            statements.push(declaration);
            proof {
                lemma_core_statement_views_push(before, declaration);
            }
        },
    }
}

/// The core statements of a resolved program, and the errors met.
pub fn desugar(resolved_stmts: Vec<ResolvedStatement>) -> (r: (Vec<CoreStatement>, Vec<FogError>))
    ensures
        (core_statement_views(r.0@), error_views(r.1@)) == spec_desugar_statements(
            resolved_statement_views(resolved_stmts@),
        ),
{
    desugar_statements(&resolved_stmts)
}

} // verus!
