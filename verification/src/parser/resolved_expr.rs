//! The program after operator resolution: applications and infix operators
//! are curried function applications, and declaration patterns are told
//! apart.

use vstd::prelude::*;

use crate::error::Span;
use crate::parser::Literal;
use crate::parser::LiteralModel;
use crate::parser::core_expr::ArmPatternModel;
use crate::parser::core_expr::AtomicTypeExprModel;
use crate::parser::core_expr::CoreAtomicTypeExpr;
use crate::parser::core_expr::CoreKindExpr;
use crate::parser::core_expr::CoreTypeExpr;
use crate::parser::core_expr::TuplePatternModel;
use crate::parser::core_expr::TypeExprModel;

verus! {

pub enum ResolvedStatement {
    KindAnnotation { name: String, expr: CoreKindExpr, span: Span },
    TypeDeclaration { name: String, expr: CoreTypeExpr, span: Span },
    TypeAnnotation { name: String, expr: CoreAtomicTypeExpr, span: Span },
    VarDeclaration { pattern: ResolvedDeclPattern, expr: ResolvedExpr, span: Span },
    Expression { expr: ResolvedExpr, span: Span },
}

pub enum ResolvedDeclPattern {
    Identifier { name: String, span: Span },
    Tuple { items: Vec<ResolvedTupleDeclPattern>, span: Span },
    FunctionClause { name: String, items: Vec<ResolvedMatchArmPattern>, span: Span },
}

pub enum ResolvedTupleDeclPattern {
    Identifier { name: String, span: Span },
    Tuple { items: Vec<ResolvedTupleDeclPattern>, span: Span },
}

pub enum ResolvedMatchArmPattern {
    Literal { literal: Literal, span: Span },
    Tuple { items: Vec<ResolvedMatchArmPattern>, span: Span },
    Identifier { name: String, span: Span },
    DataConstructor { name: String, args: Vec<ResolvedMatchArmPattern>, span: Span },
}

pub enum ResolvedExpr {
    Block { statements: Vec<ResolvedStatement>, span: Span },
    Identifier { name: String, span: Span },
    Literal { literal: Literal, span: Span },
    Lambda { param_name: String, param_type: CoreAtomicTypeExpr, body: Box<ResolvedExpr>, span: Span },
    Tuple { items: Vec<ResolvedExpr>, span: Span },
    FunctionAppl { callee: Box<ResolvedExpr>, arg: Box<ResolvedExpr>, span: Span },
    Match { scrutinee: Box<ResolvedExpr>, match_arms: Vec<ResolvedMatchArm>, span: Span },
}

pub struct ResolvedMatchArm {
    pub pattern: ResolvedMatchArmPattern,
    pub value_expr: ResolvedExpr,
}

// --- values ---

pub enum ResolvedStatementModel {
    KindAnnotation { name: Seq<char>, expr: CoreKindExpr, span: Span },
    TypeDeclaration { name: Seq<char>, expr: TypeExprModel, span: Span },
    TypeAnnotation { name: Seq<char>, expr: AtomicTypeExprModel, span: Span },
    VarDeclaration { pattern: ResolvedDeclPatternModel, expr: ResolvedExprModel, span: Span },
    Expression { expr: ResolvedExprModel, span: Span },
}

pub enum ResolvedDeclPatternModel {
    Identifier { name: Seq<char>, span: Span },
    Tuple { items: Seq<TuplePatternModel>, span: Span },
    FunctionClause { name: Seq<char>, items: Seq<ArmPatternModel>, span: Span },
}

pub enum ResolvedExprModel {
    Block { statements: Seq<ResolvedStatementModel>, span: Span },
    Identifier { name: Seq<char>, span: Span },
    Literal { literal: LiteralModel, span: Span },
    Lambda { param_name: Seq<char>, param_type: AtomicTypeExprModel, body: Box<ResolvedExprModel>, span: Span },
    Tuple { items: Seq<ResolvedExprModel>, span: Span },
    FunctionAppl { callee: Box<ResolvedExprModel>, arg: Box<ResolvedExprModel>, span: Span },
    Match { scrutinee: Box<ResolvedExprModel>, match_arms: Seq<ResolvedMatchArmModel>, span: Span },
}

pub struct ResolvedMatchArmModel {
    pub pattern: ArmPatternModel,
    pub value_expr: ResolvedExprModel,
}

pub open spec fn resolved_tuple_pattern_view(p: ResolvedTupleDeclPattern) -> TuplePatternModel
    decreases p,
{
    match p {
        ResolvedTupleDeclPattern::Identifier { name, span } => TuplePatternModel::Identifier { name: name@, span },
        ResolvedTupleDeclPattern::Tuple { items, span } => TuplePatternModel::Tuple {
            items: resolved_tuple_pattern_views(items@),
            span,
        },
    }
}

pub open spec fn resolved_tuple_pattern_views(s: Seq<ResolvedTupleDeclPattern>) -> Seq<TuplePatternModel>
    decreases s,
{
    if s.len() == 0 {
        Seq::empty()
    } else {
        resolved_tuple_pattern_views(s.drop_last()).push(resolved_tuple_pattern_view(s.last()))
    }
}

pub open spec fn resolved_arm_pattern_view(p: ResolvedMatchArmPattern) -> ArmPatternModel
    decreases p,
{
    match p {
        ResolvedMatchArmPattern::Literal { literal, span } => ArmPatternModel::Literal { literal: literal@, span },
        ResolvedMatchArmPattern::Tuple { items, span } => ArmPatternModel::Tuple {
            items: resolved_arm_pattern_views(items@),
            span,
        },
        ResolvedMatchArmPattern::Identifier { name, span } => ArmPatternModel::Identifier { name: name@, span },
        ResolvedMatchArmPattern::DataConstructor { name, args, span } => ArmPatternModel::DataConstructor {
            name: name@,
            args: resolved_arm_pattern_views(args@),
            span,
        },
    }
}

pub open spec fn resolved_arm_pattern_views(s: Seq<ResolvedMatchArmPattern>) -> Seq<ArmPatternModel>
    decreases s,
{
    if s.len() == 0 {
        Seq::empty()
    } else {
        resolved_arm_pattern_views(s.drop_last()).push(resolved_arm_pattern_view(s.last()))
    }
}

pub open spec fn resolved_decl_pattern_view(p: ResolvedDeclPattern) -> ResolvedDeclPatternModel {
    match p {
        ResolvedDeclPattern::Identifier { name, span } => ResolvedDeclPatternModel::Identifier { name: name@, span },
        ResolvedDeclPattern::Tuple { items, span } => ResolvedDeclPatternModel::Tuple {
            items: resolved_tuple_pattern_views(items@),
            span,
        },
        ResolvedDeclPattern::FunctionClause { name, items, span } => ResolvedDeclPatternModel::FunctionClause {
            name: name@,
            items: resolved_arm_pattern_views(items@),
            span,
        },
    }
}

pub open spec fn resolved_expr_view(e: ResolvedExpr) -> ResolvedExprModel
    decreases e,
{
    match e {
        ResolvedExpr::Block { statements, span } => ResolvedExprModel::Block {
            statements: resolved_statement_views(statements@),
            span,
        },
        ResolvedExpr::Identifier { name, span } => ResolvedExprModel::Identifier { name: name@, span },
        ResolvedExpr::Literal { literal, span } => ResolvedExprModel::Literal { literal: literal@, span },
        ResolvedExpr::Lambda { param_name, param_type, body, span } => ResolvedExprModel::Lambda {
            param_name: param_name@,
            param_type: param_type@,
            body: Box::new(resolved_expr_view(*body)),
            span,
        },
        ResolvedExpr::Tuple { items, span } => ResolvedExprModel::Tuple { items: resolved_expr_views(items@), span },
        ResolvedExpr::FunctionAppl { callee, arg, span } => ResolvedExprModel::FunctionAppl {
            callee: Box::new(resolved_expr_view(*callee)),
            arg: Box::new(resolved_expr_view(*arg)),
            span,
        },
        ResolvedExpr::Match { scrutinee, match_arms, span } => ResolvedExprModel::Match {
            scrutinee: Box::new(resolved_expr_view(*scrutinee)),
            match_arms: resolved_match_arm_views(match_arms@),
            span,
        },
    }
}

pub open spec fn resolved_match_arm_view(a: ResolvedMatchArm) -> ResolvedMatchArmModel
    decreases a,
{
    ResolvedMatchArmModel { pattern: resolved_arm_pattern_view(a.pattern), value_expr: resolved_expr_view(a.value_expr) }
}

pub open spec fn resolved_statement_view(s: ResolvedStatement) -> ResolvedStatementModel
    decreases s,
{
    match s {
        ResolvedStatement::KindAnnotation { name, expr, span } => ResolvedStatementModel::KindAnnotation {
            name: name@,
            expr,
            span,
        },
        ResolvedStatement::TypeDeclaration { name, expr, span } => ResolvedStatementModel::TypeDeclaration {
            name: name@,
            expr: expr@,
            span,
        },
        ResolvedStatement::TypeAnnotation { name, expr, span } => ResolvedStatementModel::TypeAnnotation {
            name: name@,
            expr: expr@,
            span,
        },
        ResolvedStatement::VarDeclaration { pattern, expr, span } => ResolvedStatementModel::VarDeclaration {
            pattern: resolved_decl_pattern_view(pattern),
            expr: resolved_expr_view(expr),
            span,
        },
        ResolvedStatement::Expression { expr, span } => ResolvedStatementModel::Expression {
            expr: resolved_expr_view(expr),
            span,
        },
    }
}

pub open spec fn resolved_expr_views(s: Seq<ResolvedExpr>) -> Seq<ResolvedExprModel>
    decreases s,
{
    if s.len() == 0 {
        Seq::empty()
    } else {
        resolved_expr_views(s.drop_last()).push(resolved_expr_view(s.last()))
    }
}

pub open spec fn resolved_match_arm_views(s: Seq<ResolvedMatchArm>) -> Seq<ResolvedMatchArmModel>
    decreases s,
{
    if s.len() == 0 {
        Seq::empty()
    } else {
        resolved_match_arm_views(s.drop_last()).push(resolved_match_arm_view(s.last()))
    }
}

pub open spec fn resolved_statement_views(s: Seq<ResolvedStatement>) -> Seq<ResolvedStatementModel>
    decreases s,
{
    if s.len() == 0 {
        Seq::empty()
    } else {
        resolved_statement_views(s.drop_last()).push(resolved_statement_view(s.last()))
    }
}

impl View for ResolvedTupleDeclPattern {
    type V = TuplePatternModel;

    open spec fn view(&self) -> TuplePatternModel {
        resolved_tuple_pattern_view(*self)
    }
}

impl View for ResolvedMatchArmPattern {
    type V = ArmPatternModel;

    open spec fn view(&self) -> ArmPatternModel {
        resolved_arm_pattern_view(*self)
    }
}

impl View for ResolvedDeclPattern {
    type V = ResolvedDeclPatternModel;

    open spec fn view(&self) -> ResolvedDeclPatternModel {
        resolved_decl_pattern_view(*self)
    }
}

impl View for ResolvedExpr {
    type V = ResolvedExprModel;

    open spec fn view(&self) -> ResolvedExprModel {
        resolved_expr_view(*self)
    }
}

impl View for ResolvedMatchArm {
    type V = ResolvedMatchArmModel;

    open spec fn view(&self) -> ResolvedMatchArmModel {
        resolved_match_arm_view(*self)
    }
}

impl View for ResolvedStatement {
    type V = ResolvedStatementModel;

    open spec fn view(&self) -> ResolvedStatementModel {
        resolved_statement_view(*self)
    }
}

/// The view of each item.
pub proof fn lemma_resolved_tuple_pattern_views(s: Seq<ResolvedTupleDeclPattern>)
    ensures
        resolved_tuple_pattern_views(s).len() == s.len(),
        forall|i: int| 0 <= i < s.len() ==> #[trigger] resolved_tuple_pattern_views(s)[i] == resolved_tuple_pattern_view(s[i]),
    decreases s.len(),
{
    if s.len() > 0 {
        lemma_resolved_tuple_pattern_views(s.drop_last());
    }
}

/// Views of a sequence grown by one.
pub proof fn lemma_resolved_tuple_pattern_views_push(s: Seq<ResolvedTupleDeclPattern>, x: ResolvedTupleDeclPattern)
    ensures
        resolved_tuple_pattern_views(s.push(x)) == resolved_tuple_pattern_views(s).push(resolved_tuple_pattern_view(x)),
{
    assert(s.push(x).drop_last() =~= s);
}

/// The view of each item.
pub proof fn lemma_resolved_arm_pattern_views(s: Seq<ResolvedMatchArmPattern>)
    ensures
        resolved_arm_pattern_views(s).len() == s.len(),
        forall|i: int| 0 <= i < s.len() ==> #[trigger] resolved_arm_pattern_views(s)[i] == resolved_arm_pattern_view(s[i]),
    decreases s.len(),
{
    if s.len() > 0 {
        lemma_resolved_arm_pattern_views(s.drop_last());
    }
}

/// Views of a sequence grown by one.
pub proof fn lemma_resolved_arm_pattern_views_push(s: Seq<ResolvedMatchArmPattern>, x: ResolvedMatchArmPattern)
    ensures
        resolved_arm_pattern_views(s.push(x)) == resolved_arm_pattern_views(s).push(resolved_arm_pattern_view(x)),
{
    assert(s.push(x).drop_last() =~= s);
}

/// The view of each item.
pub proof fn lemma_resolved_expr_views(s: Seq<ResolvedExpr>)
    ensures
        resolved_expr_views(s).len() == s.len(),
        forall|i: int| 0 <= i < s.len() ==> #[trigger] resolved_expr_views(s)[i] == resolved_expr_view(s[i]),
    decreases s.len(),
{
    if s.len() > 0 {
        lemma_resolved_expr_views(s.drop_last());
    }
}

/// Views of a sequence grown by one.
pub proof fn lemma_resolved_expr_views_push(s: Seq<ResolvedExpr>, x: ResolvedExpr)
    ensures
        resolved_expr_views(s.push(x)) == resolved_expr_views(s).push(resolved_expr_view(x)),
{
    assert(s.push(x).drop_last() =~= s);
}

/// The view of each item.
pub proof fn lemma_resolved_match_arm_views(s: Seq<ResolvedMatchArm>)
    ensures
        resolved_match_arm_views(s).len() == s.len(),
        forall|i: int| 0 <= i < s.len() ==> #[trigger] resolved_match_arm_views(s)[i] == resolved_match_arm_view(s[i]),
    decreases s.len(),
{
    if s.len() > 0 {
        lemma_resolved_match_arm_views(s.drop_last());
    }
}

/// Views of a sequence grown by one.
pub proof fn lemma_resolved_match_arm_views_push(s: Seq<ResolvedMatchArm>, x: ResolvedMatchArm)
    ensures
        resolved_match_arm_views(s.push(x)) == resolved_match_arm_views(s).push(resolved_match_arm_view(x)),
{
    assert(s.push(x).drop_last() =~= s);
}

/// The view of each item.
pub proof fn lemma_resolved_statement_views(s: Seq<ResolvedStatement>)
    ensures
        resolved_statement_views(s).len() == s.len(),
        forall|i: int| 0 <= i < s.len() ==> #[trigger] resolved_statement_views(s)[i] == resolved_statement_view(s[i]),
    decreases s.len(),
{
    if s.len() > 0 {
        lemma_resolved_statement_views(s.drop_last());
    }
}

/// Views of a sequence grown by one.
pub proof fn lemma_resolved_statement_views_push(s: Seq<ResolvedStatement>, x: ResolvedStatement)
    ensures
        resolved_statement_views(s.push(x)) == resolved_statement_views(s).push(resolved_statement_view(x)),
{
    assert(s.push(x).drop_last() =~= s);
}

pub open spec fn resolved_expr_span(e: ResolvedExprModel) -> Span {
    match e {
        ResolvedExprModel::Block { span, .. } => span,
        ResolvedExprModel::Identifier { span, .. } => span,
        ResolvedExprModel::Literal { span, .. } => span,
        ResolvedExprModel::Lambda { span, .. } => span,
        ResolvedExprModel::Tuple { span, .. } => span,
        ResolvedExprModel::FunctionAppl { span, .. } => span,
        ResolvedExprModel::Match { span, .. } => span,
    }
}

impl ResolvedExpr {
    pub fn span(&self) -> (span: Span)
        ensures
            span == resolved_expr_span(self@),
    {
        match self {
            ResolvedExpr::Block { span, .. } => *span,
            ResolvedExpr::Identifier { span, .. } => *span,
            ResolvedExpr::Literal { span, .. } => *span,
            ResolvedExpr::Lambda { span, .. } => *span,
            ResolvedExpr::Tuple { span, .. } => *span,
            ResolvedExpr::FunctionAppl { span, .. } => *span,
            ResolvedExpr::Match { span, .. } => *span,
        }
    }
}

} // verus!
