//! Operator resolution: infix operators by precedence and associativity,
//! function application by juxtaposition, and the kinds of patterns.

use vstd::prelude::*;

use crate::error::ErrorKind;
use crate::error::ErrorModel;
use crate::error::error_views;
use crate::error::FogError;
use crate::error::FogResult;
use crate::error::Span;
use crate::lexer::chars::is_uppercase;
use crate::lexer::chars::spec_is_uppercase;
use crate::parser::core_expr::ArmPatternModel;
use crate::parser::core_expr::TuplePatternModel;
use crate::parser::core_expr::copy_atomic_type_expr;
use crate::parser::parsed_expr::DeclPatternModel;
use crate::parser::parsed_expr::ParsedDeclPattern;
use crate::parser::parsed_expr::ParsedMatchArm;
use crate::parser::parsed_expr::ParsedStatement;
use crate::parser::parsed_expr::ParsedValueExpr;
use crate::parser::parsed_expr::decl_pattern_views;
use crate::parser::parsed_expr::lemma_decl_pattern_views;
use crate::parser::parsed_expr::lemma_match_arm_views;
use crate::parser::parsed_expr::lemma_statement_views;
use crate::parser::parsed_expr::lemma_value_expr_views;
use crate::parser::parsed_expr::match_arm_views;
use crate::parser::parsed_expr::statement_views;
use crate::parser::parsed_expr::value_expr_views;
use crate::parser::parser::agrees;
use crate::parser::parser::error_at;
use crate::parser::parser::is_type_name;
use crate::parser::parsed_expr::MatchArmModel;
use crate::parser::parsed_expr::OpKind;
use crate::parser::parsed_expr::ParsedStatementModel;
use crate::parser::parsed_expr::ValueExprModel;
use crate::parser::parsed_expr::decl_pattern_span;
use crate::parser::parsed_expr::parse_error;
use crate::parser::resolved_expr::ResolvedDeclPattern;
use crate::parser::resolved_expr::ResolvedDeclPatternModel;
use crate::parser::resolved_expr::ResolvedExpr;
use crate::parser::resolved_expr::ResolvedMatchArm;
use crate::parser::resolved_expr::ResolvedMatchArmPattern;
use crate::parser::resolved_expr::ResolvedStatement;
use crate::parser::resolved_expr::ResolvedTupleDeclPattern;
use crate::parser::resolved_expr::lemma_resolved_arm_pattern_views_push;
use crate::parser::resolved_expr::lemma_resolved_expr_views_push;
use crate::parser::resolved_expr::lemma_resolved_match_arm_views_push;
use crate::parser::resolved_expr::lemma_resolved_statement_views_push;
use crate::parser::resolved_expr::lemma_resolved_tuple_pattern_views_push;
use crate::parser::resolved_expr::resolved_arm_pattern_views;
use crate::parser::resolved_expr::resolved_expr_views;
use crate::parser::resolved_expr::resolved_match_arm_views;
use crate::parser::resolved_expr::resolved_statement_views;
use crate::parser::resolved_expr::resolved_tuple_pattern_views;
use crate::parser::resolved_expr::ResolvedExprModel;
use crate::parser::resolved_expr::ResolvedMatchArmModel;
use crate::parser::resolved_expr::ResolvedStatementModel;
use crate::parser::resolved_expr::resolved_expr_span;
use crate::parser::text::value_expr_text;
use crate::static_check::types::str_eq;
use crate::util::string_from;

verus! {

// --- the infix functions ---

#[derive(Clone, Copy, Debug, PartialEq, Eq, Structural)]
pub enum Associativity {
    Left,
    Right,
}

/// What an infix operator stands for: the function's name, how it
/// associates and how tightly it binds.
pub struct InfixModel {
    pub name: Seq<char>,
    pub associativity: Associativity,
    pub precedence: int,
}

/// The infix operators: `*` and `/` bind tightest, then `+` and `-`, all to
/// the left; `->` binds loosest, to the right.
pub open spec fn spec_infix_of(kind: OpKind) -> InfixModel {
    match kind {
        OpKind::Star => InfixModel { name: seq!['*'], associativity: Associativity::Left, precedence: 3 },
        OpKind::Slash => InfixModel { name: seq!['/'], associativity: Associativity::Left, precedence: 3 },
        OpKind::Plus => InfixModel { name: seq!['+'], associativity: Associativity::Left, precedence: 2 },
        OpKind::Minus => InfixModel { name: seq!['-'], associativity: Associativity::Left, precedence: 2 },
        OpKind::Arrow => InfixModel { name: seq!['-', '>'], associativity: Associativity::Right, precedence: 1 },
    }
}

/// The infix operator that an item of a collection is, if it is one.
pub open spec fn spec_binary_op(e: ValueExprModel) -> Option<InfixModel> {
    match e {
        ValueExprModel::Op { kind, .. } => Some(spec_infix_of(kind)),
        _ => None,
    }
}

/// Whether `name` is the name of an infix function.
pub open spec fn spec_is_infix_name(name: Seq<char>) -> bool {
    name == seq!['*'] || name == seq!['/'] || name == seq!['+'] || name == seq!['-'] || name == seq!['-', '>']
}

pub open spec fn spec_is_primary_starter(e: ValueExprModel) -> bool {
    match e {
        ValueExprModel::Identifier { .. } | ValueExprModel::Literal { .. } | ValueExprModel::Tuple {
            ..
        } | ValueExprModel::Collection { .. } => true,
        ValueExprModel::Op { kind, .. } => kind == OpKind::Minus,
        _ => false,
    }
}

/// Whether an item that follows a name can be an argument it is applied
/// to: an operand, but not a minus sign, which after an operand is the
/// binary subtraction; a negation stands only where no operand comes
/// before it.
pub open spec fn spec_is_argument_starter(e: ValueExprModel) -> bool {
    spec_is_primary_starter(e) && !(e is Op)
}

// --- patterns ---

pub open spec fn spec_resolve_tuple_pattern(p: DeclPatternModel) -> Result<TuplePatternModel, ErrorModel>
    decreases p,
{
    match p {
        DeclPatternModel::Identifier { name, span } => Ok(TuplePatternModel::Identifier { name, span }),
        DeclPatternModel::Tuple { items, span } => match spec_resolve_tuple_patterns(items) {
            Ok(items) => Ok(TuplePatternModel::Tuple { items, span }),
            Err(e) => Err(e),
        },
        DeclPatternModel::Literal { span, .. } => Err(parse_error("invalid tuple pattern"@, Some(span))),
        DeclPatternModel::Collection { span, .. } => Err(parse_error("invalid tuple pattern"@, Some(span))),
    }
}

pub open spec fn spec_resolve_tuple_patterns(s: Seq<DeclPatternModel>) -> Result<Seq<TuplePatternModel>, ErrorModel>
    decreases s,
{
    if s.len() == 0 {
        Ok(Seq::empty())
    } else {
        match spec_resolve_tuple_pattern(s[0]) {
            Err(e) => Err(e),
            Ok(x) => match spec_resolve_tuple_patterns(s.drop_first()) {
                Err(e) => Err(e),
                Ok(xs) => Ok(seq![x] + xs),
            },
        }
    }
}

/// A parameter of a function clause read as a match arm pattern: a
/// collection is a data constructor applied to patterns.
pub open spec fn spec_resolve_clause_item(p: DeclPatternModel) -> Result<ArmPatternModel, ErrorModel>
    decreases p,
{
    match p {
        DeclPatternModel::Identifier { name, span } => Ok(ArmPatternModel::Identifier { name, span }),
        DeclPatternModel::Literal { literal, span } => Ok(ArmPatternModel::Literal { literal, span }),
        DeclPatternModel::Tuple { items, span } => match spec_resolve_clause_items(items) {
            Ok(items) => Ok(ArmPatternModel::Tuple { items, span }),
            Err(e) => Err(e),
        },
        DeclPatternModel::Collection { items, span } => if items.len() > 0 && items[0] is Identifier {
            let name = items[0]->Identifier_name;
            if name.len() > 0 && spec_is_uppercase(name[0]) {
                match spec_resolve_clause_items(items.drop_first()) {
                    Ok(args) => Ok(ArmPatternModel::DataConstructor { name, args, span }),
                    Err(e) => Err(e),
                }
            } else {
                Err(parse_error("data constructor's name must starts with an uppercase letter"@, Some(span)))
            }
        } else {
            Err(parse_error("collection pattern's first element must be an identifier"@, Some(span)))
        },
    }
}

pub open spec fn spec_resolve_clause_items(s: Seq<DeclPatternModel>) -> Result<Seq<ArmPatternModel>, ErrorModel>
    decreases s,
{
    if s.len() == 0 {
        Ok(Seq::empty())
    } else {
        match spec_resolve_clause_item(s[0]) {
            Err(e) => Err(e),
            Ok(x) => match spec_resolve_clause_items(s.drop_first()) {
                Err(e) => Err(e),
                Ok(xs) => Ok(seq![x] + xs),
            },
        }
    }
}

/// The items of a collection on the left of `=` read as a function clause:
/// `x op y` for an infix function `op`, or a name and its parameters.
pub open spec fn spec_resolve_function_clause(items: Seq<DeclPatternModel>, span: Span) -> Result<
    ResolvedDeclPatternModel,
    ErrorModel,
> {
    if items.len() == 3 && items[1] is Identifier && spec_is_infix_name(items[1]->Identifier_name) {
        match spec_resolve_clause_item(items[0]) {
            Err(e) => Err(e),
            Ok(lhs) => match spec_resolve_clause_item(items[2]) {
                Err(e) => Err(e),
                Ok(rhs) => Ok(
                    ResolvedDeclPatternModel::FunctionClause {
                        name: items[1]->Identifier_name,
                        items: seq![lhs, rhs],
                        span,
                    },
                ),
            },
        }
    } else if items.len() > 0 && items[0] is Identifier {
        match spec_resolve_clause_items(items.drop_first()) {
            Err(e) => Err(e),
            Ok(params) => Ok(
                ResolvedDeclPatternModel::FunctionClause { name: items[0]->Identifier_name, items: params, span },
            ),
        }
    } else {
        Err(parse_error("function clause's first element must be an identifier"@, Some(span)))
    }
}

pub open spec fn spec_resolve_decl_pattern(p: DeclPatternModel) -> Result<ResolvedDeclPatternModel, ErrorModel> {
    match p {
        DeclPatternModel::Identifier { name, span } => Ok(ResolvedDeclPatternModel::Identifier { name, span }),
        DeclPatternModel::Literal { span, .. } => Err(parse_error("invalid declaration pattern"@, Some(span))),
        DeclPatternModel::Tuple { items, span } => match spec_resolve_tuple_patterns(items) {
            Ok(items) => Ok(ResolvedDeclPatternModel::Tuple { items, span }),
            Err(e) => Err(e),
        },
        DeclPatternModel::Collection { items, span } => spec_resolve_function_clause(items, span),
    }
}

/// A match arm's pattern: a collection is a data constructor applied to
/// patterns; a block, an operator, a lambda or a match is an error.
pub open spec fn spec_resolve_match_pattern(e: ValueExprModel) -> Result<ArmPatternModel, ErrorModel>
    decreases e,
{
    match e {
        ValueExprModel::Identifier { name, span } => Ok(ArmPatternModel::Identifier { name, span }),
        ValueExprModel::Literal { literal, span } => Ok(ArmPatternModel::Literal { literal, span }),
        ValueExprModel::Tuple { items, span } => match spec_resolve_match_patterns(items) {
            Ok(items) => Ok(ArmPatternModel::Tuple { items, span }),
            Err(err) => Err(err),
        },
        ValueExprModel::Collection { items, span } => if items.len() == 0 {
            Err(parse_error("collection pattern items cannot be empty"@, Some(span)))
        } else if !(items[0] is Identifier) {
            Err(parse_error("collection pattern's first element must be an identifier"@, Some(span)))
        } else if items[0]->Identifier_name.len() == 0 {
            Err(parse_error("data constructor's name cannot be empty"@, Some(span)))
        } else if !spec_is_uppercase(items[0]->Identifier_name[0]) {
            Err(parse_error("data constructor's name must starts with an uppercase letter"@, Some(span)))
        } else {
            match spec_resolve_match_patterns(items.drop_first()) {
                Ok(args) => Ok(ArmPatternModel::DataConstructor { name: items[0]->Identifier_name, args, span }),
                Err(err) => Err(err),
            }
        },
        ValueExprModel::Block { span, .. } | ValueExprModel::Op { span, .. } | ValueExprModel::Lambda {
            span,
            ..
        } | ValueExprModel::Match { span, .. } => Err(
            parse_error("invalid match arm pattern `"@ + value_expr_text(e) + "`"@, Some(span)),
        ),
    }
}

pub open spec fn spec_resolve_match_patterns(s: Seq<ValueExprModel>) -> Result<Seq<ArmPatternModel>, ErrorModel>
    decreases s,
{
    if s.len() == 0 {
        Ok(Seq::empty())
    } else {
        match spec_resolve_match_pattern(s[0]) {
            Err(e) => Err(e),
            Ok(x) => match spec_resolve_match_patterns(s.drop_first()) {
                Err(e) => Err(e),
                Ok(xs) => Ok(seq![x] + xs),
            },
        }
    }
}

// --- expressions ---

/// `name lhs rhs`, applied one argument at a time.
pub open spec fn spec_apply_binary(name: Seq<char>, lhs: ResolvedExprModel, rhs: ResolvedExprModel) -> ResolvedExprModel {
    let span = resolved_expr_span(lhs);
    ResolvedExprModel::FunctionAppl {
        callee: Box::new(
            ResolvedExprModel::FunctionAppl {
                callee: Box::new(ResolvedExprModel::Identifier { name, span }),
                arg: Box::new(lhs),
                span,
            },
        ),
        arg: Box::new(rhs),
        span,
    }
}

/// `head` applied to `args`, one argument at a time, left to right.
pub open spec fn spec_apply_all(head: ResolvedExprModel, args: Seq<ResolvedExprModel>) -> ResolvedExprModel
    decreases args.len(),
{
    if args.len() == 0 {
        head
    } else {
        ResolvedExprModel::FunctionAppl {
            callee: Box::new(spec_apply_all(head, args.drop_last())),
            arg: Box::new(args.last()),
            span: resolved_expr_span(head),
        }
    }
}

pub type Resolved = (Result<ResolvedExprModel, ErrorModel>, int);

pub open spec fn out_of_items(index: int) -> Resolved {
    (Err(parse_error("unexpected end of expression"@, None)), index)
}

pub open spec fn spec_resolve_expr(e: ValueExprModel) -> Result<ResolvedExprModel, ErrorModel>
    decreases e, 0int,
{
    match e {
        ValueExprModel::Block { statements, span } => match spec_resolve_statements(statements) {
            Ok(statements) => Ok(ResolvedExprModel::Block { statements, span }),
            Err(err) => Err(err),
        },
        ValueExprModel::Identifier { name, span } => Ok(ResolvedExprModel::Identifier { name, span }),
        ValueExprModel::Literal { literal, span } => Ok(ResolvedExprModel::Literal { literal, span }),
        ValueExprModel::Op { .. } => Err(parse_error("unexpected infix operator"@, None)),
        ValueExprModel::Lambda { param_name, param_type, body, span } => match spec_resolve_expr(*body) {
            Ok(body) => Ok(ResolvedExprModel::Lambda { param_name, param_type, body: Box::new(body), span }),
            Err(err) => Err(err),
        },
        ValueExprModel::Tuple { items, span } => match spec_resolve_exprs(items) {
            Ok(items) => Ok(ResolvedExprModel::Tuple { items, span }),
            Err(err) => Err(err),
        },
        ValueExprModel::Collection { items, .. } => spec_resolve_collection(items, i32::MIN as int, 0).0,
        ValueExprModel::Match { scrutinee, match_arms, span } => match spec_resolve_expr(*scrutinee) {
            Err(err) => Err(err),
            Ok(scrutinee) => match spec_resolve_arms(match_arms) {
                Err(err) => Err(err),
                Ok(match_arms) => Ok(
                    ResolvedExprModel::Match { scrutinee: Box::new(scrutinee), match_arms, span },
                ),
            },
        },
    }
}

pub open spec fn spec_resolve_exprs(s: Seq<ValueExprModel>) -> Result<Seq<ResolvedExprModel>, ErrorModel>
    decreases s, 0int,
{
    if s.len() == 0 {
        Ok(Seq::empty())
    } else {
        match spec_resolve_expr(s[0]) {
            Err(e) => Err(e),
            Ok(x) => match spec_resolve_exprs(s.drop_first()) {
                Err(e) => Err(e),
                Ok(xs) => Ok(seq![x] + xs),
            },
        }
    }
}

pub open spec fn spec_resolve_arms(s: Seq<MatchArmModel>) -> Result<Seq<ResolvedMatchArmModel>, ErrorModel>
    decreases s, 0int,
{
    if s.len() == 0 {
        Ok(Seq::empty())
    } else {
        match spec_resolve_match_pattern(s[0].pattern) {
            Err(e) => Err(e),
            Ok(pattern) => match spec_resolve_expr(s[0].value_expr) {
                Err(e) => Err(e),
                Ok(value_expr) => match spec_resolve_arms(s.drop_first()) {
                    Err(e) => Err(e),
                    Ok(xs) => Ok(seq![ResolvedMatchArmModel { pattern, value_expr }] + xs),
                },
            },
        }
    }
}

pub open spec fn spec_resolve_statement(s: ParsedStatementModel) -> Result<ResolvedStatementModel, ErrorModel>
    decreases s, 0int,
{
    match s {
        ParsedStatementModel::KindAnnotation { name, expr, span } => Ok(
            ResolvedStatementModel::KindAnnotation { name, expr, span },
        ),
        ParsedStatementModel::TypeDeclaration { name, expr, span } => Ok(
            ResolvedStatementModel::TypeDeclaration { name, expr, span },
        ),
        ParsedStatementModel::TypeAnnotation { pattern, expr, span } => match pattern {
            DeclPatternModel::Identifier { name, .. } => Ok(ResolvedStatementModel::TypeAnnotation { name, expr, span }),
            _ => Err(parse_error("invalid declaration pattern"@, Some(decl_pattern_span(pattern)))),
        },
        ParsedStatementModel::VarDeclaration { pattern, expr, span } => match spec_resolve_decl_pattern(pattern) {
            Err(e) => Err(e),
            Ok(pattern) => match spec_resolve_expr(expr) {
                Err(e) => Err(e),
                Ok(expr) => Ok(ResolvedStatementModel::VarDeclaration { pattern, expr, span }),
            },
        },
        ParsedStatementModel::Expression { expr, span } => match spec_resolve_expr(expr) {
            Err(e) => Err(e),
            Ok(expr) => Ok(ResolvedStatementModel::Expression { expr, span }),
        },
    }
}

pub open spec fn spec_resolve_statements(s: Seq<ParsedStatementModel>) -> Result<Seq<ResolvedStatementModel>, ErrorModel>
    decreases s, 0int,
{
    if s.len() == 0 {
        Ok(Seq::empty())
    } else {
        match spec_resolve_statement(s[0]) {
            Err(e) => Err(e),
            Ok(x) => match spec_resolve_statements(s.drop_first()) {
                Err(e) => Err(e),
                Ok(xs) => Ok(seq![x] + xs),
            },
        }
    }
}

/// The items of a collection from `index` on, read by precedence climbing:
/// an operand, then operators that bind at least as tightly as `min_prec`
/// with their right operands. Returns the expression and where it stopped.
pub open spec fn spec_resolve_collection(items: Seq<ValueExprModel>, min_prec: int, index: int) -> Resolved
    decreases items, 3 * (items.len() - index) + 2,
{
    if index < 0 || index > items.len() {
        out_of_items(index)
    } else {
        match spec_resolve_primary(items, index) {
            (Err(e), i) => (Err(e), i),
            (Ok(lhs), i) => if i <= index || i > items.len() {
                out_of_items(i)
            } else {
                spec_collection_loop(items, min_prec, i, lhs)
            },
        }
    }
}

pub open spec fn spec_collection_loop(
    items: Seq<ValueExprModel>,
    min_prec: int,
    index: int,
    lhs: ResolvedExprModel,
) -> Resolved
    decreases items, 3 * (items.len() - index) + 2,
{
    if index < 0 || index >= items.len() {
        (Ok(lhs), index)
    } else {
        match spec_binary_op(items[index]) {
            None => (Ok(lhs), index),
            Some(op) => if op.precedence < min_prec {
                (Ok(lhs), index)
            } else {
                let next_min_prec = match op.associativity {
                    Associativity::Left => op.precedence + 1,
                    Associativity::Right => op.precedence,
                };
                match spec_resolve_collection(items, next_min_prec, index + 1) {
                    (Err(e), i) => (Err(e), i),
                    (Ok(rhs), i) => if i <= index || i > items.len() {
                        out_of_items(i)
                    } else {
                        spec_collection_loop(items, min_prec, i, spec_apply_binary(op.name, lhs, rhs))
                    },
                }
            },
        }
    }
}

/// An operand: an atom, applied to the atoms that follow it where it is a
/// name; a minus sign after the name ends the operand, as a subtraction.
pub open spec fn spec_resolve_primary(items: Seq<ValueExprModel>, index: int) -> Resolved
    decreases items, 3 * (items.len() - index) + 1,
{
    if index < 0 || index > items.len() {
        out_of_items(index)
    } else {
        match spec_resolve_atomic(items, index) {
            (Err(e), i) => (Err(e), i),
            (Ok(head), i) => if head is Identifier {
                if i <= index || i > items.len() {
                    out_of_items(i)
                } else {
                    spec_primary_loop(items, i, head, Seq::empty())
                }
            } else {
                (Ok(head), i)
            },
        }
    }
}

/// The arguments a head is applied to: the atoms that follow it, up to the
/// first item that cannot start an argument, such as a minus sign after an
/// operand, which is left for the binary subtraction.
pub open spec fn spec_primary_loop(
    items: Seq<ValueExprModel>,
    index: int,
    head: ResolvedExprModel,
    args: Seq<ResolvedExprModel>,
) -> Resolved
    decreases items, 3 * (items.len() - index) + 1,
{
    if index < 0 || index > items.len() {
        out_of_items(index)
    } else if index < items.len() && spec_is_argument_starter(items[index]) {
        match spec_resolve_atomic(items, index) {
            (Err(e), i) => (Err(e), i),
            (Ok(arg), i) => if i <= index || i > items.len() {
                out_of_items(i)
            } else {
                spec_primary_loop(items, i, head, args.push(arg))
            },
        }
    } else {
        (Ok(spec_apply_all(head, args)), index)
    }
}

/// One atom of a collection; a negation sign applies `-` to the atom after
/// it.
pub open spec fn spec_resolve_atomic(items: Seq<ValueExprModel>, index: int) -> Resolved
    decreases items, 3 * (items.len() - index),
{
    if index < 0 || index >= items.len() {
        out_of_items(index)
    } else {
        match items[index] {
            ValueExprModel::Op { kind: OpKind::Minus, span } => match spec_resolve_atomic(items, index + 1) {
                (Err(e), i) => (Err(e), i),
                (Ok(operand), i) => (
                    Ok(
                        ResolvedExprModel::FunctionAppl {
                            callee: Box::new(ResolvedExprModel::Identifier { name: seq!['-'], span }),
                            arg: Box::new(operand),
                            span,
                        },
                    ),
                    i,
                ),
            },
            _ => (spec_resolve_expr(items[index]), index + 1),
        }
    }
}

/// The operand a literal resolves to.
pub open spec fn literal_operand(e: ValueExprModel) -> ResolvedExprModel {
    ResolvedExprModel::Literal { literal: e->Literal_literal, span: e->Literal_span }
}

/// Subtraction associates to the left: `a - b - c`, with literal operands,
/// resolves to `-` applied to `a - b` and `c`, within any collection and
/// from any binding strength no tighter than subtraction's.
pub proof fn law_subtraction_left_associative(
    a: ValueExprModel,
    b: ValueExprModel,
    c: ValueExprModel,
    s1: Span,
    s2: Span,
    min_prec: int,
)
    requires
        a is Literal,
        b is Literal,
        c is Literal,
        min_prec <= 2,
    ensures
        ({
            let items = seq![
                a,
                ValueExprModel::Op { kind: OpKind::Minus, span: s1 },
                b,
                ValueExprModel::Op { kind: OpKind::Minus, span: s2 },
                c,
            ];
            let ab = spec_apply_binary(seq!['-'], literal_operand(a), literal_operand(b));
            spec_resolve_collection(items, min_prec, 0) == (
                Ok::<ResolvedExprModel, ErrorModel>(spec_apply_binary(seq!['-'], ab, literal_operand(c))),
                5int,
            )
        }),
{
    let items = seq![
        a,
        ValueExprModel::Op { kind: OpKind::Minus, span: s1 },
        b,
        ValueExprModel::Op { kind: OpKind::Minus, span: s2 },
        c,
    ];
    let ra = literal_operand(a);
    let rb = literal_operand(b);
    let rc = literal_operand(c);
    let ab = spec_apply_binary(seq!['-'], ra, rb);
    let abc = spec_apply_binary(seq!['-'], ab, rc);
    assert(items[0] == a && items[1] is Op && items[2] == b && items[3] is Op && items[4] == c);
    assert(spec_resolve_expr(a) == Ok::<ResolvedExprModel, ErrorModel>(ra));
    assert(spec_resolve_expr(b) == Ok::<ResolvedExprModel, ErrorModel>(rb));
    assert(spec_resolve_expr(c) == Ok::<ResolvedExprModel, ErrorModel>(rc));
    assert(spec_resolve_atomic(items, 0) == (Ok::<ResolvedExprModel, ErrorModel>(ra), 1int));
    assert(spec_resolve_primary(items, 0) == (Ok::<ResolvedExprModel, ErrorModel>(ra), 1int));
    assert(spec_resolve_atomic(items, 2) == (Ok::<ResolvedExprModel, ErrorModel>(rb), 3int));
    assert(spec_resolve_primary(items, 2) == (Ok::<ResolvedExprModel, ErrorModel>(rb), 3int));
    assert(spec_collection_loop(items, 3, 3, rb) == (Ok::<ResolvedExprModel, ErrorModel>(rb), 3int));
    assert(spec_resolve_collection(items, 3, 2) == (Ok::<ResolvedExprModel, ErrorModel>(rb), 3int));
    assert(spec_resolve_atomic(items, 4) == (Ok::<ResolvedExprModel, ErrorModel>(rc), 5int));
    assert(spec_resolve_primary(items, 4) == (Ok::<ResolvedExprModel, ErrorModel>(rc), 5int));
    assert(spec_collection_loop(items, 3, 5, rc) == (Ok::<ResolvedExprModel, ErrorModel>(rc), 5int));
    assert(spec_resolve_collection(items, 3, 4) == (Ok::<ResolvedExprModel, ErrorModel>(rc), 5int));
    assert(spec_collection_loop(items, min_prec, 5, abc) == (Ok::<ResolvedExprModel, ErrorModel>(abc), 5int));
    assert(spec_collection_loop(items, min_prec, 3, ab) == (Ok::<ResolvedExprModel, ErrorModel>(abc), 5int));
    assert(spec_collection_loop(items, min_prec, 1, ra) == (Ok::<ResolvedExprModel, ErrorModel>(abc), 5int));
}

/// What resolving a program gives: the statements that resolved, and an
/// error for each that did not, in order.
pub open spec fn spec_resolve(s: Seq<ParsedStatementModel>) -> (Seq<ResolvedStatementModel>, Seq<ErrorModel>)
    decreases s.len(),
{
    if s.len() == 0 {
        (Seq::empty(), Seq::empty())
    } else {
        let (statements, errors) = spec_resolve(s.drop_last());
        match spec_resolve_statement(s.last()) {
            Ok(r) => (statements.push(r), errors),
            Err(e) => (statements, errors.push(e)),
        }
    }
}


// --- the resolver ---

pub enum InfixFunctionKey {
    Op(OpKind),
    Identifier(String),
}

pub struct InfixFunctionInfo {
    pub name: String,
    pub associativity: Associativity,
    pub precedence: i32,
}

impl View for InfixFunctionInfo {
    type V = InfixModel;

    open spec fn view(&self) -> InfixModel {
        InfixModel { name: self.name@, associativity: self.associativity, precedence: self.precedence as int }
    }
}

/// The table of infix functions, each under its key.
pub struct Resolver {
    infix_functions: Vec<(InfixFunctionKey, InfixFunctionInfo)>,
}

/// Whether an item after a name is an argument the name is applied to.
fn is_argument_starter(e: &ParsedValueExpr) -> (r: bool)
    ensures
        r == spec_is_argument_starter(e@),
{
    match e {
        ParsedValueExpr::Op { .. } => false,
        _ => is_primary_starter(e),
    }
}

/// Whether an item of a collection can start an operand.
pub fn is_primary_starter(e: &ParsedValueExpr) -> (r: bool)
    ensures
        r == spec_is_primary_starter(e@),
{
    e.is_primary_starter()
}

fn infix_entry(kind: OpKind, name: &str, associativity: Associativity, precedence: i32) -> (entry: (
    InfixFunctionKey,
    InfixFunctionInfo,
))
    ensures
        entry.0 == InfixFunctionKey::Op(kind),
        entry.1@ == (InfixModel { name: name@, associativity, precedence: precedence as int }),
{
    (InfixFunctionKey::Op(kind), InfixFunctionInfo { name: string_from(name), associativity, precedence })
}

impl Resolver {
    /// The table holds one entry for each operator, keyed by it.
    pub closed spec fn wf(&self) -> bool {
        &&& self.infix_functions@.len() == 5
        &&& forall|i: int|
            0 <= i < 5 ==> (#[trigger] self.infix_functions@[i]).0 is Op && self.infix_functions@[i].1@
                == spec_infix_of(self.infix_functions@[i].0->Op_0)
        &&& self.infix_functions@[0].0 == InfixFunctionKey::Op(OpKind::Star)
        &&& self.infix_functions@[1].0 == InfixFunctionKey::Op(OpKind::Slash)
        &&& self.infix_functions@[2].0 == InfixFunctionKey::Op(OpKind::Plus)
        &&& self.infix_functions@[3].0 == InfixFunctionKey::Op(OpKind::Minus)
        &&& self.infix_functions@[4].0 == InfixFunctionKey::Op(OpKind::Arrow)
    }

    /// The table's entries: each key with the infix function it stands for.
    pub closed spec fn table(&self) -> Seq<(InfixFunctionKey, InfixModel)> {
        self.infix_functions@.map_values(|e: (InfixFunctionKey, InfixFunctionInfo)| (e.0, e.1@))
    }

    /// The table of infix functions: `*` and `/` at precedence 3, `+` and
    /// `-` at 2, all associating to the left, and `->` at 1, associating to
    /// the right.
    pub fn new() -> (r: Resolver)
        ensures
            r.wf(),
            r.table() == seq![
                (InfixFunctionKey::Op(OpKind::Star), spec_infix_of(OpKind::Star)),
                (InfixFunctionKey::Op(OpKind::Slash), spec_infix_of(OpKind::Slash)),
                (InfixFunctionKey::Op(OpKind::Plus), spec_infix_of(OpKind::Plus)),
                (InfixFunctionKey::Op(OpKind::Minus), spec_infix_of(OpKind::Minus)),
                (InfixFunctionKey::Op(OpKind::Arrow), spec_infix_of(OpKind::Arrow)),
            ],
    {
        let mut infix_functions: Vec<(InfixFunctionKey, InfixFunctionInfo)> = Vec::new();
        proof {
            reveal_strlit("*");
            reveal_strlit("/");
            reveal_strlit("+");
            reveal_strlit("-");
            reveal_strlit("->");
            assert("*"@ =~= seq!['*']);
            assert("/"@ =~= seq!['/']);
            assert("+"@ =~= seq!['+']);
            assert("-"@ =~= seq!['-']);
            assert("->"@ =~= seq!['-', '>']);
        }
        infix_functions.push(infix_entry(OpKind::Star, "*", Associativity::Left, 3));
        infix_functions.push(infix_entry(OpKind::Slash, "/", Associativity::Left, 3));
        infix_functions.push(infix_entry(OpKind::Plus, "+", Associativity::Left, 2));
        infix_functions.push(infix_entry(OpKind::Minus, "-", Associativity::Left, 2));
        infix_functions.push(infix_entry(OpKind::Arrow, "->", Associativity::Right, 1));
        let r = Resolver { infix_functions };
        assert forall|i: int| 0 <= i < 5 implies (#[trigger] r.infix_functions@[i]).0 is Op && r.infix_functions@[i].1@
            == spec_infix_of(r.infix_functions@[i].0->Op_0) by {
            assert(i == 0 || i == 1 || i == 2 || i == 3 || i == 4);
        }
        proof {
            assert(r.table() =~= seq![
                (InfixFunctionKey::Op(OpKind::Star), spec_infix_of(OpKind::Star)),
                (InfixFunctionKey::Op(OpKind::Slash), spec_infix_of(OpKind::Slash)),
                (InfixFunctionKey::Op(OpKind::Plus), spec_infix_of(OpKind::Plus)),
                (InfixFunctionKey::Op(OpKind::Minus), spec_infix_of(OpKind::Minus)),
                (InfixFunctionKey::Op(OpKind::Arrow), spec_infix_of(OpKind::Arrow)),
            ]);
        }
        r
    }

    /// The infix function that an item of a collection is, if it is one.
    pub fn get_binary_op(&self, e: &ParsedValueExpr) -> (r: Option<&InfixFunctionInfo>)
        requires
            self.wf(),
        ensures
            match spec_binary_op(e@) {
                Some(m) => r matches Some(info) && info@ == m,
                None => r is None,
            },
    {
        let kind = match e {
            ParsedValueExpr::Op { kind, .. } => *kind,
            _ => return None,
        };
        let mut i: usize = 0;
        while i < self.infix_functions.len()
            invariant
                self.wf(),
                e@ is Op,
                kind == e@->Op_kind,
                i <= 5,
                forall|j: int| 0 <= j < i ==> self.infix_functions@[j].0 != InfixFunctionKey::Op(kind),
            decreases 5 - i,
        {
            let found = match &self.infix_functions[i].0 {
                InfixFunctionKey::Op(k) => *k == kind,
                InfixFunctionKey::Identifier(_) => false,
            };
            if found {
                return Some(&self.infix_functions[i].1);
            }
            i += 1;
        }
        proof {
            assert(self.infix_functions@[0].0 == InfixFunctionKey::Op(OpKind::Star));
            assert(self.infix_functions@[1].0 == InfixFunctionKey::Op(OpKind::Slash));
            assert(self.infix_functions@[2].0 == InfixFunctionKey::Op(OpKind::Plus));
            assert(self.infix_functions@[3].0 == InfixFunctionKey::Op(OpKind::Minus));
            assert(self.infix_functions@[4].0 == InfixFunctionKey::Op(OpKind::Arrow));
        }
        None
    }

    /// Whether `name` names an infix function.
    pub fn is_infix_function_name(&self, name: &str) -> (r: bool)
        requires
            self.wf(),
        ensures
            r == spec_is_infix_name(name@),
    {
        let mut i: usize = 0;
        while i < self.infix_functions.len()
            invariant
                self.wf(),
                i <= 5,
                forall|j: int| 0 <= j < i ==> self.infix_functions@[j].1.name@ != name@,
            decreases 5 - i,
        {
            if str_eq(self.infix_functions[i].1.name.as_str(), name) {
                proof {
                    assert(self.infix_functions@[i as int].1@ == spec_infix_of(self.infix_functions@[i as int].0->Op_0));
                }
                return true;
            }
            i += 1;
        }
        proof {
            assert(self.infix_functions@[0].1@ == spec_infix_of(OpKind::Star));
            assert(self.infix_functions@[1].1@ == spec_infix_of(OpKind::Slash));
            assert(self.infix_functions@[2].1@ == spec_infix_of(OpKind::Plus));
            assert(self.infix_functions@[3].1@ == spec_infix_of(OpKind::Minus));
            assert(self.infix_functions@[4].1@ == spec_infix_of(OpKind::Arrow));
        }
        false
    }

    /// The statements that resolved, and an error for each that did not.
    pub fn resolve(parsed_statements: Vec<ParsedStatement>) -> (r: (Vec<ResolvedStatement>, Vec<FogError>))
        ensures
            (resolved_statement_views(r.0@), error_views(r.1@)) == spec_resolve(statement_views(parsed_statements@)),
    {
        let resolver = Resolver::new();
        let mut statements: Vec<ResolvedStatement> = Vec::new();
        let mut errors: Vec<FogError> = Vec::new();
        let ghost v = statement_views(parsed_statements@);
        proof {
            lemma_statement_views(parsed_statements@);
            assert(resolved_statement_views(statements@) =~= Seq::<ResolvedStatementModel>::empty());
            assert(error_views(errors@) =~= Seq::<ErrorModel>::empty());
            assert(v.take(0) =~= Seq::<ParsedStatementModel>::empty());
        }
        let mut i: usize = 0;
        while i < parsed_statements.len()
            invariant
                resolver.wf(),
                i <= parsed_statements.len(),
                v == statement_views(parsed_statements@),
                v.len() == parsed_statements.len(),
                forall|j: int| 0 <= j < parsed_statements.len() ==> #[trigger] v[j] == parsed_statements@[j]@,
                (resolved_statement_views(statements@), error_views(errors@)) == spec_resolve(v.take(i as int)),
            decreases parsed_statements.len() - i,
        {
            proof {
                assert(v.take(i + 1).drop_last() =~= v.take(i as int));
                assert(v.take(i + 1).last() == v[i as int]);
            }
            match resolver.resolve_statement(&parsed_statements[i]) {
                Ok(s) => {
                    let ghost before = statements@;
                    statements.push(s);
                    proof {
                        lemma_resolved_statement_views_push(before, s);
                    }
                },
                Err(e) => {
                    let ghost before = errors@;
                    errors.push(e);
                    proof {
                        assert(error_views(errors@) =~= error_views(before).push(e@));
                    }
                },
            }
            i += 1;
        }
        proof {
            assert(v.take(parsed_statements.len() as int) =~= v);
        }
        (statements, errors)
    }

    // --- statements ---

    fn resolve_statement(&self, statement: &ParsedStatement) -> (r: FogResult<ResolvedStatement>)
        requires
            self.wf(),
        ensures
            agrees(r, spec_resolve_statement(statement@)),
        decreases statement, 0int,
    {
        match statement {
            ParsedStatement::KindAnnotation { name, expr, span } => Ok(
                ResolvedStatement::KindAnnotation { name: name.clone(), expr: expr.copy(), span: *span },
            ),
            ParsedStatement::TypeDeclaration { name, expr, span } => Ok(
                ResolvedStatement::TypeDeclaration { name: name.clone(), expr: expr.copy(), span: *span },
            ),
            ParsedStatement::TypeAnnotation { pattern, expr, span } => match pattern {
                ParsedDeclPattern::Identifier { name, .. } => Ok(
                    ResolvedStatement::TypeAnnotation {
                        name: name.clone(),
                        expr: copy_atomic_type_expr(expr),
                        span: *span,
                    },
                ),
                _ => Err(error_at("invalid declaration pattern", Some(pattern.span()))),
            },
            ParsedStatement::VarDeclaration { pattern, expr, span } => {
                let pattern = match self.resolve_decl_pattern(pattern) {
                    Ok(p) => p,
                    Err(e) => return Err(e),
                };
                match self.resolve_expr(expr) {
                    Ok(expr) => Ok(ResolvedStatement::VarDeclaration { pattern, expr, span: *span }),
                    Err(e) => Err(e),
                }
            },
            ParsedStatement::Expression { expr, span } => match self.resolve_expr(expr) {
                Ok(expr) => Ok(ResolvedStatement::Expression { expr, span: *span }),
                Err(e) => Err(e),
            },
        }
    }

    fn resolve_statements(&self, items: &Vec<ParsedStatement>, start: usize) -> (r: FogResult<Vec<ResolvedStatement>>)
        requires
            self.wf(),
            start <= items@.len(),
        ensures
            match spec_resolve_statements(statement_views(items@).skip(start as int)) {
                Ok(m) => r matches Ok(v) && resolved_statement_views(v@) == m,
                Err(e) => r matches Err(x) && x@ == e,
            },
        decreases items, 0int,
    {
        let ghost v = statement_views(items@);
        let mut out: Vec<ResolvedStatement> = Vec::new();
        let mut i: usize = start;
        proof {
            lemma_statement_views(items@);
            assert(resolved_statement_views(out@) =~= Seq::<ResolvedStatementModel>::empty());
            match spec_resolve_statements(v.skip(start as int)) {
                Ok(xs) => {
                    assert(resolved_statement_views(out@) + xs =~= xs);
                },
                Err(_) => {},
            }
        }
        while i < items.len()
            invariant
                start <= i <= items.len(),
                self.wf(),
                v == statement_views(items@),
                v.len() == items.len(),
                forall|j: int| 0 <= j < items.len() ==> #[trigger] v[j] == items@[j]@,
                spec_resolve_statements(v.skip(start as int)) == match spec_resolve_statements(v.skip(i as int)) {
                    Ok(xs) => Ok(resolved_statement_views(out@) + xs),
                    Err(e) => Err(e),
                },
            decreases items.len() - i,
        {
            proof {
                assert(decreases_to!(*items => items@));
                assert(decreases_to!(items@ => items@[i as int]));
                assert(v.skip(i as int)[0] == v[i as int]);
                assert(v.skip(i as int).drop_first() =~= v.skip(i + 1));
            }
            match self.resolve_statement(&items[i]) {
                Ok(x) => {
                    let ghost before = out@;
                    out.push(x);
                    proof {
                        lemma_resolved_statement_views_push(before, x);
                        match spec_resolve_statements(v.skip(i + 1)) {
                            Ok(xs) => {
                                assert(resolved_statement_views(before) + (seq![x@] + xs) =~= resolved_statement_views(out@) + xs);
                            },
                            Err(_) => {},
                        }
                    }
                },
                Err(e) => {
                    return Err(e);
                },
            }
            i += 1;
        }
        proof {
            assert(v.skip(i as int) =~= Seq::<ParsedStatementModel>::empty());
            assert(resolved_statement_views(out@) + Seq::<ResolvedStatementModel>::empty() =~= resolved_statement_views(out@));
        }
        Ok(out)
    }

    // --- declaration patterns ---

    fn resolve_decl_pattern(&self, pattern: &ParsedDeclPattern) -> (r: FogResult<ResolvedDeclPattern>)
        requires
            self.wf(),
        ensures
            agrees(r, spec_resolve_decl_pattern(pattern@)),
    {
        match pattern {
            ParsedDeclPattern::Identifier { name, span } => Ok(
                ResolvedDeclPattern::Identifier { name: name.clone(), span: *span },
            ),
            ParsedDeclPattern::Literal { span, .. } => Err(error_at("invalid declaration pattern", Some(*span))),
            ParsedDeclPattern::Tuple { items, span } => {
                proof {
                    assert(decl_pattern_views(items@).skip(0) =~= decl_pattern_views(items@));
                }
                match resolve_tuple_patterns(items, 0) {
                    Ok(items) => Ok(ResolvedDeclPattern::Tuple { items, span: *span }),
                    Err(e) => Err(e),
                }
            },
            ParsedDeclPattern::Collection { items, span } => self.resolve_function_clause(items, *span),
        }
    }

    /// The items of a collection on the left of `=` read as a function
    /// clause.
    fn resolve_function_clause(&self, items: &Vec<ParsedDeclPattern>, span: Span) -> (r: FogResult<
        ResolvedDeclPattern,
    >)
        requires
            self.wf(),
        ensures
            agrees(r, spec_resolve_function_clause(decl_pattern_views(items@), span)),
    {
        proof {
            lemma_decl_pattern_views(items@);
        }
        if items.len() == 3 {
            if let ParsedDeclPattern::Identifier { name, .. } = &items[1] {
                if self.is_infix_function_name(name.as_str()) {
                    let lhs = match resolve_clause_item(&items[0]) {
                        Ok(p) => p,
                        Err(e) => return Err(e),
                    };
                    let rhs = match resolve_clause_item(&items[2]) {
                        Ok(p) => p,
                        Err(e) => return Err(e),
                    };
                    let mut params: Vec<ResolvedMatchArmPattern> = Vec::new();
                    params.push(lhs);
                    params.push(rhs);
                    proof {
                        lemma_resolved_arm_pattern_views_push(Seq::empty(), lhs);
                        lemma_resolved_arm_pattern_views_push(seq![lhs], rhs);
                        assert(Seq::<ResolvedMatchArmPattern>::empty().push(lhs) =~= seq![lhs]);
                        assert(seq![lhs].push(rhs) =~= params@);
                        assert(resolved_arm_pattern_views(Seq::<ResolvedMatchArmPattern>::empty()) =~= Seq::<
                            ArmPatternModel,
                        >::empty());
                        assert(resolved_arm_pattern_views(params@) =~= seq![lhs@, rhs@]);
                    }
                    return Ok(ResolvedDeclPattern::FunctionClause { name: name.clone(), items: params, span });
                }
            }
        }
        if items.len() > 0 {
            if let ParsedDeclPattern::Identifier { name, .. } = &items[0] {
                return match resolve_clause_items(items, 1) {
                    Ok(params) => Ok(ResolvedDeclPattern::FunctionClause { name: name.clone(), items: params, span }),
                    Err(e) => Err(e),
                };
            }
        }
        Err(error_at("function clause's first element must be an identifier", Some(span)))
    }

    // --- expressions ---

    fn resolve_expr(&self, e: &ParsedValueExpr) -> (r: FogResult<ResolvedExpr>)
        requires
            self.wf(),
        ensures
            agrees(r, spec_resolve_expr(e@)),
        decreases e, 0int,
    {
        match e {
            ParsedValueExpr::Block { statements, span } => {
                proof {
                    assert(statement_views(statements@).skip(0) =~= statement_views(statements@));
                }
                match self.resolve_statements(statements, 0) {
                    Ok(statements) => Ok(ResolvedExpr::Block { statements, span: *span }),
                    Err(err) => Err(err),
                }
            },
            ParsedValueExpr::Identifier { name, span } => Ok(ResolvedExpr::Identifier { name: name.clone(), span: *span }),
            ParsedValueExpr::Literal { literal, span } => Ok(
                ResolvedExpr::Literal { literal: literal.copy(), span: *span },
            ),
            ParsedValueExpr::Op { .. } => Err(error_at("unexpected infix operator", None)),
            ParsedValueExpr::Lambda { param_name, param_type, body, span } => match self.resolve_expr(body) {
                Ok(body) => Ok(
                    ResolvedExpr::Lambda {
                        param_name: param_name.clone(),
                        param_type: copy_atomic_type_expr(param_type),
                        body: Box::new(body),
                        span: *span,
                    },
                ),
                Err(err) => Err(err),
            },
            ParsedValueExpr::Tuple { items, span } => {
                proof {
                    assert(value_expr_views(items@).skip(0) =~= value_expr_views(items@));
                }
                match self.resolve_exprs(items, 0) {
                    Ok(items) => Ok(ResolvedExpr::Tuple { items, span: *span }),
                    Err(err) => Err(err),
                }
            },
            ParsedValueExpr::Collection { items, .. } => {
                let mut index: usize = 0;
                self.resolve_collection(items, i32::MIN, &mut index)
            },
            ParsedValueExpr::Match { scrutinee, match_arms, span } => {
                let scrutinee = match self.resolve_expr(scrutinee) {
                    Ok(s) => s,
                    Err(err) => return Err(err),
                };
                proof {
                    assert(match_arm_views(match_arms@).skip(0) =~= match_arm_views(match_arms@));
                }
                match self.resolve_arms(match_arms, 0) {
                    Ok(arms) => Ok(
                        ResolvedExpr::Match { scrutinee: Box::new(scrutinee), match_arms: arms, span: *span },
                    ),
                    Err(err) => Err(err),
                }
            },
        }
    }

    fn resolve_exprs(&self, items: &Vec<ParsedValueExpr>, start: usize) -> (r: FogResult<Vec<ResolvedExpr>>)
        requires
            self.wf(),
            start <= items@.len(),
        ensures
            match spec_resolve_exprs(value_expr_views(items@).skip(start as int)) {
                Ok(m) => r matches Ok(v) && resolved_expr_views(v@) == m,
                Err(e) => r matches Err(x) && x@ == e,
            },
        decreases items, 0int,
    {
        let ghost v = value_expr_views(items@);
        let mut out: Vec<ResolvedExpr> = Vec::new();
        let mut i: usize = start;
        proof {
            lemma_value_expr_views(items@);
            assert(resolved_expr_views(out@) =~= Seq::<ResolvedExprModel>::empty());
            match spec_resolve_exprs(v.skip(start as int)) {
                Ok(xs) => {
                    assert(resolved_expr_views(out@) + xs =~= xs);
                },
                Err(_) => {},
            }
        }
        while i < items.len()
            invariant
                start <= i <= items.len(),
                self.wf(),
                v == value_expr_views(items@),
                v.len() == items.len(),
                forall|j: int| 0 <= j < items.len() ==> #[trigger] v[j] == items@[j]@,
                spec_resolve_exprs(v.skip(start as int)) == match spec_resolve_exprs(v.skip(i as int)) {
                    Ok(xs) => Ok(resolved_expr_views(out@) + xs),
                    Err(e) => Err(e),
                },
            decreases items.len() - i,
        {
            proof {
                assert(decreases_to!(*items => items@));
                assert(decreases_to!(items@ => items@[i as int]));
                assert(v.skip(i as int)[0] == v[i as int]);
                assert(v.skip(i as int).drop_first() =~= v.skip(i + 1));
            }
            match self.resolve_expr(&items[i]) {
                Ok(x) => {
                    let ghost before = out@;
                    out.push(x);
                    proof {
                        lemma_resolved_expr_views_push(before, x);
                        match spec_resolve_exprs(v.skip(i + 1)) {
                            Ok(xs) => {
                                assert(resolved_expr_views(before) + (seq![x@] + xs) =~= resolved_expr_views(out@) + xs);
                            },
                            Err(_) => {},
                        }
                    }
                },
                Err(e) => {
                    return Err(e);
                },
            }
            i += 1;
        }
        proof {
            assert(v.skip(i as int) =~= Seq::<ValueExprModel>::empty());
            assert(resolved_expr_views(out@) + Seq::<ResolvedExprModel>::empty() =~= resolved_expr_views(out@));
        }
        Ok(out)
    }


    fn resolve_arms(&self, items: &Vec<ParsedMatchArm>, start: usize) -> (r: FogResult<Vec<ResolvedMatchArm>>)
        requires
            self.wf(),
            start <= items@.len(),
        ensures
            match spec_resolve_arms(match_arm_views(items@).skip(start as int)) {
                Ok(m) => r matches Ok(v) && resolved_match_arm_views(v@) == m,
                Err(e) => r matches Err(x) && x@ == e,
            },
        decreases items, 0int,
    {
        let ghost v = match_arm_views(items@);
        let mut out: Vec<ResolvedMatchArm> = Vec::new();
        let mut i: usize = start;
        proof {
            lemma_match_arm_views(items@);
            assert(resolved_match_arm_views(out@) =~= Seq::<ResolvedMatchArmModel>::empty());
            match spec_resolve_arms(v.skip(start as int)) {
                Ok(xs) => {
                    assert(resolved_match_arm_views(out@) + xs =~= xs);
                },
                Err(_) => {},
            }
        }
        while i < items.len()
            invariant
                self.wf(),
                start <= i <= items.len(),
                v == match_arm_views(items@),
                v.len() == items.len(),
                forall|j: int| 0 <= j < items.len() ==> #[trigger] v[j] == items@[j]@,
                spec_resolve_arms(v.skip(start as int)) == match spec_resolve_arms(v.skip(i as int)) {
                    Ok(xs) => Ok(resolved_match_arm_views(out@) + xs),
                    Err(e) => Err(e),
                },
            decreases items.len() - i,
        {
            proof {
                assert(decreases_to!(*items => items@));
                assert(decreases_to!(items@ => items@[i as int]));
                assert(decreases_to!(items@[i as int] => items@[i as int].value_expr));
                assert(v.skip(i as int)[0] == v[i as int]);
                assert(v.skip(i as int).drop_first() =~= v.skip(i + 1));
            }
            let pattern = match resolve_match_pattern(&items[i].pattern) {
                Ok(p) => p,
                Err(e) => return Err(e),
            };
            let value_expr = match self.resolve_expr(&items[i].value_expr) {
                Ok(e) => e,
                Err(e) => return Err(e),
            };
            let arm = ResolvedMatchArm { pattern, value_expr };
            let ghost before = out@;
            out.push(arm);
            proof {
                lemma_resolved_match_arm_views_push(before, arm);
                match spec_resolve_arms(v.skip(i + 1)) {
                    Ok(xs) => {
                        assert(resolved_match_arm_views(before) + (seq![arm@] + xs) =~= resolved_match_arm_views(out@)
                            + xs);
                    },
                    Err(_) => {},
                }
            }
            i += 1;
        }
        proof {
            assert(v.skip(i as int) =~= Seq::<MatchArmModel>::empty());
            assert(resolved_match_arm_views(out@) + Seq::<ResolvedMatchArmModel>::empty() =~= resolved_match_arm_views(
                out@,
            ));
        }
        Ok(out)
    }

    // --- collections ---

    /// Precedence climbing over the items of a collection from `*index` on;
    /// `*index` ends where the expression ends.
    fn resolve_collection(&self, items: &Vec<ParsedValueExpr>, min_prec: i32, index: &mut usize) -> (r: FogResult<
        ResolvedExpr,
    >)
        requires
            self.wf(),
            *old(index) <= items@.len(),
        ensures
            agrees(r, spec_resolve_collection(value_expr_views(items@), min_prec as int, *old(index) as int).0),
            *final(index) == spec_resolve_collection(value_expr_views(items@), min_prec as int, *old(index) as int).1,
            *old(index) <= *final(index) <= items@.len(),
            r is Ok ==> *old(index) < *final(index),
        decreases items, 3 * (items@.len() - *old(index)) + 2,
    {
        let ghost v = value_expr_views(items@);
        let ghost start = *index as int;
        proof {
            lemma_value_expr_views(items@);
        }
        let mut lhs = match self.resolve_primary(items, index) {
            Ok(lhs) => lhs,
            Err(e) => return Err(e),
        };
        loop
            invariant
                self.wf(),
                v == value_expr_views(items@),
                v.len() == items.len(),
                forall|j: int| 0 <= j < items.len() ==> #[trigger] v[j] == items@[j]@,
                start < *index <= items@.len(),
                start == *old(index) as int,
                spec_collection_loop(v, min_prec as int, *index as int, lhs@) == spec_resolve_collection(
                    v,
                    min_prec as int,
                    start,
                ),
            ensures
                start < *index <= items@.len(),
                spec_resolve_collection(v, min_prec as int, start) == (
                    Ok::<ResolvedExprModel, ErrorModel>(lhs@),
                    *index as int,
                ),
            decreases items@.len() - *index,
        {
            if *index >= items.len() {
                break;
            }
            let op = match self.get_binary_op(&items[*index]) {
                Some(op) => op,
                None => break,
            };
            if op.precedence < min_prec {
                break;
            }
            let op_name = op.name.clone();
            let next_min_prec = match op.associativity {
                Associativity::Left => op.precedence + 1,
                Associativity::Right => op.precedence,
            };
            let at = *index;
            *index = at + 1;
            let rhs = match self.resolve_collection(items, next_min_prec, index) {
                Ok(rhs) => rhs,
                Err(e) => return Err(e),
            };
            lhs = apply_binary(op_name, lhs, rhs);
        }
        Ok(lhs)
    }

    /// An operand: an atom, applied to the atoms after it where it is a name.
    fn resolve_primary(&self, items: &Vec<ParsedValueExpr>, index: &mut usize) -> (r: FogResult<ResolvedExpr>)
        requires
            self.wf(),
            *old(index) <= items@.len(),
        ensures
            agrees(r, spec_resolve_primary(value_expr_views(items@), *old(index) as int).0),
            *final(index) == spec_resolve_primary(value_expr_views(items@), *old(index) as int).1,
            *old(index) <= *final(index) <= items@.len(),
            r is Ok ==> *old(index) < *final(index),
        decreases items, 3 * (items@.len() - *old(index)) + 1,
    {
        let ghost v = value_expr_views(items@);
        let ghost start = *index as int;
        proof {
            lemma_value_expr_views(items@);
        }
        let head = match self.resolve_atomic(items, index) {
            Ok(head) => head,
            Err(e) => return Err(e),
        };
        let is_name = matches!(head, ResolvedExpr::Identifier { .. });
        if !is_name {
            return Ok(head);
        }
        let ghost after_head = *index as int;
        let mut args: Vec<ResolvedExpr> = Vec::new();
        proof {
            assert(resolved_expr_views(args@) =~= Seq::<ResolvedExprModel>::empty());
        }
        while *index < items.len() && is_argument_starter(&items[*index])
            invariant
                self.wf(),
                v == value_expr_views(items@),
                v.len() == items.len(),
                forall|j: int| 0 <= j < items.len() ==> #[trigger] v[j] == items@[j]@,
                start == *old(index) as int,
                start < after_head <= *index <= items@.len(),
                head@ is Identifier,
                spec_resolve_primary(v, start) == spec_primary_loop(v, after_head, head@, Seq::empty()),
                spec_primary_loop(v, *index as int, head@, resolved_expr_views(args@)) == spec_primary_loop(
                    v,
                    after_head,
                    head@,
                    Seq::empty(),
                ),
            decreases items@.len() - *index,
        {
            let arg = match self.resolve_atomic(items, index) {
                Ok(arg) => arg,
                Err(e) => return Err(e),
            };
            let ghost before = args@;
            args.push(arg);
            proof {
                lemma_resolved_expr_views_push(before, arg);
            }
        }
        let span = head.span();
        Ok(apply_all(head, args, span))
    }

    /// One atom of a collection.
    fn resolve_atomic(&self, items: &Vec<ParsedValueExpr>, index: &mut usize) -> (r: FogResult<ResolvedExpr>)
        requires
            self.wf(),
            *old(index) <= items@.len(),
        ensures
            agrees(r, spec_resolve_atomic(value_expr_views(items@), *old(index) as int).0),
            *final(index) == spec_resolve_atomic(value_expr_views(items@), *old(index) as int).1,
            *old(index) <= *final(index) <= items@.len(),
            r is Ok ==> *old(index) < *final(index),
        decreases items, 3 * (items@.len() - *old(index)),
    {
        proof {
            lemma_value_expr_views(items@);
        }
        if *index >= items.len() {
            return Err(error_at("unexpected end of expression", None));
        }
        let i = *index;
        *index = i + 1;
        proof {
            assert(decreases_to!(*items => items@));
            assert(decreases_to!(items@ => items@[i as int]));
        }
        match &items[i] {
            ParsedValueExpr::Op { kind: OpKind::Minus, span } => match self.resolve_atomic(items, index) {
                Ok(operand) => {
                    proof {
                        reveal_strlit("-");
                        assert("-"@ =~= seq!['-']);
                    }
                    let minus = ResolvedExpr::Identifier { name: string_from("-"), span: *span };
                    assert(minus@ == ResolvedExprModel::Identifier { name: seq!['-'], span: *span });
                    let appl = ResolvedExpr::FunctionAppl { callee: Box::new(minus), arg: Box::new(operand), span: *span };
                    assert(appl@ == ResolvedExprModel::FunctionAppl {
                        callee: Box::new(minus@),
                        arg: Box::new(operand@),
                        span: *span,
                    });
                    Ok(appl)
                },
                Err(e) => Err(e),
            },
            _ => {
                assert(!(value_expr_views(items@)[i as int] matches ValueExprModel::Op { kind: OpKind::Minus, .. }));
                self.resolve_expr(&items[i])
            },
        }
    }
}

/// `name lhs rhs`, applied one argument at a time.
fn apply_binary(name: String, lhs: ResolvedExpr, rhs: ResolvedExpr) -> (r: ResolvedExpr)
    ensures
        r@ == spec_apply_binary(name@, lhs@, rhs@),
{
    let span = lhs.span();
    let op = ResolvedExpr::Identifier { name, span };
    let inner = ResolvedExpr::FunctionAppl { callee: Box::new(op), arg: Box::new(lhs), span };
    assert(inner@ == ResolvedExprModel::FunctionAppl { callee: Box::new(op@), arg: Box::new(lhs@), span });
    let outer = ResolvedExpr::FunctionAppl { callee: Box::new(inner), arg: Box::new(rhs), span };
    assert(outer@ == ResolvedExprModel::FunctionAppl { callee: Box::new(inner@), arg: Box::new(rhs@), span });
    outer
}

/// `head` applied to `args`, one at a time.
fn apply_all(head: ResolvedExpr, args: Vec<ResolvedExpr>, span: Span) -> (r: ResolvedExpr)
    requires
        span == resolved_expr_span(head@),
    ensures
        r@ == spec_apply_all(head@, resolved_expr_views(args@)),
    decreases args@.len(),
{
    let mut args = args;
    let ghost all = args@;
    match args.pop() {
        None => {
            proof {
                assert(resolved_expr_views(all) =~= Seq::<ResolvedExprModel>::empty());
            }
            head
        },
        Some(last) => {
            proof {
                assert(all =~= args@.push(last));
                lemma_resolved_expr_views_push(args@, last);
                assert(resolved_expr_views(all).drop_last() =~= resolved_expr_views(args@));
            }
            let inner = apply_all(head, args, span);
            ResolvedExpr::FunctionAppl { callee: Box::new(inner), arg: Box::new(last), span }
        },
    }
}

// --- patterns ---

fn resolve_tuple_pattern(pattern: &ParsedDeclPattern) -> (r: FogResult<ResolvedTupleDeclPattern>)
    ensures
        agrees(r, spec_resolve_tuple_pattern(pattern@)),
    decreases pattern, 1int,
{
    match pattern {
        ParsedDeclPattern::Identifier { name, span } => Ok(
            ResolvedTupleDeclPattern::Identifier { name: name.clone(), span: *span },
        ),
        ParsedDeclPattern::Tuple { items, span } => {
            proof {
                assert(decl_pattern_views(items@).skip(0) =~= decl_pattern_views(items@));
            }
            match resolve_tuple_patterns(items, 0) {
                Ok(items) => Ok(ResolvedTupleDeclPattern::Tuple { items, span: *span }),
                Err(e) => Err(e),
            }
        },
        ParsedDeclPattern::Literal { span, .. } => Err(error_at("invalid tuple pattern", Some(*span))),
        ParsedDeclPattern::Collection { span, .. } => Err(error_at("invalid tuple pattern", Some(*span))),
    }
}

fn resolve_tuple_patterns(items: &Vec<ParsedDeclPattern>, start: usize) -> (r: FogResult<Vec<ResolvedTupleDeclPattern>>)
    requires
        start <= items@.len(),
    ensures
        match spec_resolve_tuple_patterns(decl_pattern_views(items@).skip(start as int)) {
            Ok(m) => r matches Ok(v) && resolved_tuple_pattern_views(v@) == m,
            Err(e) => r matches Err(x) && x@ == e,
        },
    decreases items, 1int,
{
    let ghost v = decl_pattern_views(items@);
    let mut out: Vec<ResolvedTupleDeclPattern> = Vec::new();
    let mut i: usize = start;
    proof {
        lemma_decl_pattern_views(items@);
        assert(resolved_tuple_pattern_views(out@) =~= Seq::<TuplePatternModel>::empty());
        match spec_resolve_tuple_patterns(v.skip(start as int)) {
            Ok(xs) => {
                assert(resolved_tuple_pattern_views(out@) + xs =~= xs);
            },
            Err(_) => {},
        }
    }
    while i < items.len()
        invariant
            start <= i <= items.len(),
            v == decl_pattern_views(items@),
            v.len() == items.len(),
            forall|j: int| 0 <= j < items.len() ==> #[trigger] v[j] == items@[j]@,
            spec_resolve_tuple_patterns(v.skip(start as int)) == match spec_resolve_tuple_patterns(v.skip(i as int)) {
                Ok(xs) => Ok(resolved_tuple_pattern_views(out@) + xs),
                Err(e) => Err(e),
            },
        decreases items.len() - i,
    {
        proof {
            assert(decreases_to!(*items => items@));
            assert(decreases_to!(items@ => items@[i as int]));
            assert(v.skip(i as int)[0] == v[i as int]);
            assert(v.skip(i as int).drop_first() =~= v.skip(i + 1));
        }
        match resolve_tuple_pattern(&items[i]) {
            Ok(x) => {
                let ghost before = out@;
                out.push(x);
                proof {
                    lemma_resolved_tuple_pattern_views_push(before, x);
                    match spec_resolve_tuple_patterns(v.skip(i + 1)) {
                        Ok(xs) => {
                            assert(resolved_tuple_pattern_views(before) + (seq![x@] + xs) =~= resolved_tuple_pattern_views(out@) + xs);
                        },
                        Err(_) => {},
                    }
                }
            },
            Err(e) => {
                return Err(e);
            },
        }
        i += 1;
    }
    proof {
        assert(v.skip(i as int) =~= Seq::<DeclPatternModel>::empty());
        assert(resolved_tuple_pattern_views(out@) + Seq::<TuplePatternModel>::empty() =~= resolved_tuple_pattern_views(out@));
    }
    Ok(out)
}

/// A parameter of a function clause read as a match arm pattern.
fn resolve_clause_item(pattern: &ParsedDeclPattern) -> (r: FogResult<ResolvedMatchArmPattern>)
    ensures
        agrees(r, spec_resolve_clause_item(pattern@)),
    decreases pattern, 1int,
{
    match pattern {
        ParsedDeclPattern::Identifier { name, span } => Ok(
            ResolvedMatchArmPattern::Identifier { name: name.clone(), span: *span },
        ),
        ParsedDeclPattern::Literal { literal, span } => Ok(
            ResolvedMatchArmPattern::Literal { literal: literal.copy(), span: *span },
        ),
        ParsedDeclPattern::Tuple { items, span } => {
            proof {
                assert(decl_pattern_views(items@).skip(0) =~= decl_pattern_views(items@));
            }
            match resolve_clause_items(items, 0) {
                Ok(items) => Ok(ResolvedMatchArmPattern::Tuple { items, span: *span }),
                Err(e) => Err(e),
            }
        },
        ParsedDeclPattern::Collection { items, span } => {
            proof {
                lemma_decl_pattern_views(items@);
                assert(decl_pattern_views(items@).skip(1) =~= decl_pattern_views(items@).drop_first());
            }
            if items.len() > 0 {
                if let ParsedDeclPattern::Identifier { name, .. } = &items[0] {
                    if is_type_name(name.as_str()) {
                        return match resolve_clause_items(items, 1) {
                            Ok(args) => Ok(
                                ResolvedMatchArmPattern::DataConstructor { name: name.clone(), args, span: *span },
                            ),
                            Err(e) => Err(e),
                        };
                    } else {
                        return Err(
                            error_at("data constructor's name must starts with an uppercase letter", Some(*span)),
                        );
                    }
                }
            }
            Err(error_at("collection pattern's first element must be an identifier", Some(*span)))
        },
    }
}

fn resolve_clause_items(items: &Vec<ParsedDeclPattern>, start: usize) -> (r: FogResult<Vec<ResolvedMatchArmPattern>>)
    requires
        start <= items@.len(),
    ensures
        match spec_resolve_clause_items(decl_pattern_views(items@).skip(start as int)) {
            Ok(m) => r matches Ok(v) && resolved_arm_pattern_views(v@) == m,
            Err(e) => r matches Err(x) && x@ == e,
        },
    decreases items, 1int,
{
    let ghost v = decl_pattern_views(items@);
    let mut out: Vec<ResolvedMatchArmPattern> = Vec::new();
    let mut i: usize = start;
    proof {
        lemma_decl_pattern_views(items@);
        assert(resolved_arm_pattern_views(out@) =~= Seq::<ArmPatternModel>::empty());
        match spec_resolve_clause_items(v.skip(start as int)) {
            Ok(xs) => {
                assert(resolved_arm_pattern_views(out@) + xs =~= xs);
            },
            Err(_) => {},
        }
    }
    while i < items.len()
        invariant
            start <= i <= items.len(),
            v == decl_pattern_views(items@),
            v.len() == items.len(),
            forall|j: int| 0 <= j < items.len() ==> #[trigger] v[j] == items@[j]@,
            spec_resolve_clause_items(v.skip(start as int)) == match spec_resolve_clause_items(v.skip(i as int)) {
                Ok(xs) => Ok(resolved_arm_pattern_views(out@) + xs),
                Err(e) => Err(e),
            },
        decreases items.len() - i,
    {
        proof {
            assert(decreases_to!(*items => items@));
            assert(decreases_to!(items@ => items@[i as int]));
            assert(v.skip(i as int)[0] == v[i as int]);
            assert(v.skip(i as int).drop_first() =~= v.skip(i + 1));
        }
        match resolve_clause_item(&items[i]) {
            Ok(x) => {
                let ghost before = out@;
                out.push(x);
                proof {
                    lemma_resolved_arm_pattern_views_push(before, x);
                    match spec_resolve_clause_items(v.skip(i + 1)) {
                        Ok(xs) => {
                            assert(resolved_arm_pattern_views(before) + (seq![x@] + xs) =~= resolved_arm_pattern_views(out@) + xs);
                        },
                        Err(_) => {},
                    }
                }
            },
            Err(e) => {
                return Err(e);
            },
        }
        i += 1;
    }
    proof {
        assert(v.skip(i as int) =~= Seq::<DeclPatternModel>::empty());
        assert(resolved_arm_pattern_views(out@) + Seq::<ArmPatternModel>::empty() =~= resolved_arm_pattern_views(out@));
    }
    Ok(out)
}

/// A match arm's pattern.
fn resolve_match_pattern(pattern: &ParsedValueExpr) -> (r: FogResult<ResolvedMatchArmPattern>)
    ensures
        agrees(r, spec_resolve_match_pattern(pattern@)),
    decreases pattern, 1int,
{
    match pattern {
        ParsedValueExpr::Identifier { name, span } => Ok(
            ResolvedMatchArmPattern::Identifier { name: name.clone(), span: *span },
        ),
        ParsedValueExpr::Literal { literal, span } => Ok(
            ResolvedMatchArmPattern::Literal { literal: literal.copy(), span: *span },
        ),
        ParsedValueExpr::Tuple { items, span } => {
            proof {
                assert(value_expr_views(items@).skip(0) =~= value_expr_views(items@));
            }
            match resolve_match_patterns(items, 0) {
                Ok(items) => Ok(ResolvedMatchArmPattern::Tuple { items, span: *span }),
                Err(e) => Err(e),
            }
        },
        ParsedValueExpr::Collection { items, span } => {
            proof {
                lemma_value_expr_views(items@);
                assert(value_expr_views(items@).skip(1) =~= value_expr_views(items@).drop_first());
            }
            if items.len() == 0 {
                return Err(error_at("collection pattern items cannot be empty", Some(*span)));
            }
            match &items[0] {
                ParsedValueExpr::Identifier { name, .. } => {
                    if name.unicode_len() == 0 {
                        return Err(error_at("data constructor's name cannot be empty", Some(*span)));
                    }
                    if !is_uppercase(name.get_char(0)) {
                        return Err(
                            error_at("data constructor's name must starts with an uppercase letter", Some(*span)),
                        );
                    }
                    match resolve_match_patterns(items, 1) {
                        Ok(args) => Ok(
                            ResolvedMatchArmPattern::DataConstructor { name: name.clone(), args, span: *span },
                        ),
                        Err(e) => Err(e),
                    }
                },
                _ => Err(error_at("collection pattern's first element must be an identifier", Some(*span))),
            }
        },
        _ => {
            let text = pattern.to_text();
            let mut message = string_from("invalid match arm pattern `");
            message.append(text.as_str());
            message.append("`");
            Err(FogError::new(ErrorKind::Parse, message, Some(pattern.span())))
        },
    }
}

fn resolve_match_patterns(items: &Vec<ParsedValueExpr>, start: usize) -> (r: FogResult<Vec<ResolvedMatchArmPattern>>)
    requires
        start <= items@.len(),
    ensures
        match spec_resolve_match_patterns(value_expr_views(items@).skip(start as int)) {
            Ok(m) => r matches Ok(v) && resolved_arm_pattern_views(v@) == m,
            Err(e) => r matches Err(x) && x@ == e,
        },
    decreases items, 1int,
{
    let ghost v = value_expr_views(items@);
    let mut out: Vec<ResolvedMatchArmPattern> = Vec::new();
    let mut i: usize = start;
    proof {
        lemma_value_expr_views(items@);
        assert(resolved_arm_pattern_views(out@) =~= Seq::<ArmPatternModel>::empty());
        match spec_resolve_match_patterns(v.skip(start as int)) {
            Ok(xs) => {
                assert(resolved_arm_pattern_views(out@) + xs =~= xs);
            },
            Err(_) => {},
        }
    }
    while i < items.len()
        invariant
            start <= i <= items.len(),
            v == value_expr_views(items@),
            v.len() == items.len(),
            forall|j: int| 0 <= j < items.len() ==> #[trigger] v[j] == items@[j]@,
            spec_resolve_match_patterns(v.skip(start as int)) == match spec_resolve_match_patterns(v.skip(i as int)) {
                Ok(xs) => Ok(resolved_arm_pattern_views(out@) + xs),
                Err(e) => Err(e),
            },
        decreases items.len() - i,
    {
        proof {
            assert(decreases_to!(*items => items@));
            assert(decreases_to!(items@ => items@[i as int]));
            assert(v.skip(i as int)[0] == v[i as int]);
            assert(v.skip(i as int).drop_first() =~= v.skip(i + 1));
        }
        match resolve_match_pattern(&items[i]) {
            Ok(x) => {
                let ghost before = out@;
                out.push(x);
                proof {
                    lemma_resolved_arm_pattern_views_push(before, x);
                    match spec_resolve_match_patterns(v.skip(i + 1)) {
                        Ok(xs) => {
                            assert(resolved_arm_pattern_views(before) + (seq![x@] + xs) =~= resolved_arm_pattern_views(out@) + xs);
                        },
                        Err(_) => {},
                    }
                }
            },
            Err(e) => {
                return Err(e);
            },
        }
        i += 1;
    }
    proof {
        assert(v.skip(i as int) =~= Seq::<ValueExprModel>::empty());
        assert(resolved_arm_pattern_views(out@) + Seq::<ArmPatternModel>::empty() =~= resolved_arm_pattern_views(out@));
    }
    Ok(out)
}

/// The statements that resolved, and an error for each that did not, in
/// order.
pub fn resolve(parsed_statements: Vec<ParsedStatement>) -> (r: (Vec<ResolvedStatement>, Vec<FogError>))
    ensures
        (resolved_statement_views(r.0@), error_views(r.1@)) == spec_resolve(statement_views(parsed_statements@)),
{
    Resolver::resolve(parsed_statements)
}

} // verus!
