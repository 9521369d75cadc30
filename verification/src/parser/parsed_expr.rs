//! What the parser builds: statements, declaration patterns and value
//! expressions in which operators are not yet resolved.

use vstd::prelude::*;

use crate::error::ErrorKind;
use crate::error::FogError;
use crate::error::FogResult;
use crate::error::Span;
use crate::lexer::token::Token;
use crate::lexer::token::TokenKind;
use crate::lexer::token::TokenKindModel;
use crate::parser::Literal;
use crate::parser::LiteralModel;
use crate::parser::core_expr::AtomicTypeExprModel;
use crate::parser::core_expr::CoreAtomicTypeExpr;
use crate::parser::core_expr::CoreKindExpr;
use crate::parser::core_expr::CoreTypeExpr;
use crate::parser::core_expr::TypeExprModel;

verus! {

// --- statement ---

pub enum ParsedStatement {
    KindAnnotation { name: String, expr: CoreKindExpr, span: Span },
    TypeDeclaration { name: String, expr: CoreTypeExpr, span: Span },
    TypeAnnotation { pattern: ParsedDeclPattern, expr: CoreAtomicTypeExpr, span: Span },
    VarDeclaration { pattern: ParsedDeclPattern, expr: ParsedValueExpr, span: Span },
    Expression { expr: ParsedValueExpr, span: Span },
}

// --- pattern ---

pub enum ParsedDeclPattern {
    Identifier { name: String, span: Span },
    Literal { literal: Literal, span: Span },
    Tuple { items: Vec<ParsedDeclPattern>, span: Span },
    Collection { items: Vec<ParsedDeclPattern>, span: Span },
}

// --- operator kind ---

#[derive(Clone, Copy, PartialEq, Eq, Structural, Hash, Debug)]
pub enum OpKind {
    Plus,
    Minus,
    Star,
    Slash,
    Arrow,
}

pub open spec fn spec_op_kind_of(kind: TokenKindModel) -> Option<OpKind> {
    match kind {
        TokenKindModel::Plus => Some(OpKind::Plus),
        TokenKindModel::Minus => Some(OpKind::Minus),
        TokenKindModel::Star => Some(OpKind::Star),
        TokenKindModel::Slash => Some(OpKind::Slash),
        TokenKindModel::Arrow => Some(OpKind::Arrow),
        _ => None,
    }
}

impl OpKind {
    pub fn from_token(token: &Token) -> (op: Option<OpKind>)
        ensures
            op == spec_op_kind_of(token@.kind),
    {
        match &token.kind {
            TokenKind::Plus => Some(OpKind::Plus),
            TokenKind::Minus => Some(OpKind::Minus),
            TokenKind::Star => Some(OpKind::Star),
            TokenKind::Slash => Some(OpKind::Slash),
            TokenKind::Arrow => Some(OpKind::Arrow),
            _ => None,
        }
    }
}

// --- expressions ---

pub enum ParsedValueExpr {
    Block { statements: Vec<ParsedStatement>, span: Span },
    Identifier { name: String, span: Span },
    Op { kind: OpKind, span: Span },
    Literal { literal: Literal, span: Span },
    Lambda { param_name: String, param_type: CoreAtomicTypeExpr, body: Box<ParsedValueExpr>, span: Span },
    Tuple { items: Vec<ParsedValueExpr>, span: Span },
    Collection { items: Vec<ParsedValueExpr>, span: Span },
    Match { scrutinee: Box<ParsedValueExpr>, match_arms: Vec<ParsedMatchArm>, span: Span },
}

pub struct ParsedMatchArm {
    pub pattern: ParsedValueExpr,
    pub value_expr: ParsedValueExpr,
}

// --- models ---

pub enum ParsedStatementModel {
    KindAnnotation { name: Seq<char>, expr: CoreKindExpr, span: Span },
    TypeDeclaration { name: Seq<char>, expr: TypeExprModel, span: Span },
    TypeAnnotation { pattern: DeclPatternModel, expr: AtomicTypeExprModel, span: Span },
    VarDeclaration { pattern: DeclPatternModel, expr: ValueExprModel, span: Span },
    Expression { expr: ValueExprModel, span: Span },
}

pub enum DeclPatternModel {
    Identifier { name: Seq<char>, span: Span },
    Literal { literal: LiteralModel, span: Span },
    Tuple { items: Seq<DeclPatternModel>, span: Span },
    Collection { items: Seq<DeclPatternModel>, span: Span },
}

pub enum ValueExprModel {
    Block { statements: Seq<ParsedStatementModel>, span: Span },
    Identifier { name: Seq<char>, span: Span },
    Op { kind: OpKind, span: Span },
    Literal { literal: LiteralModel, span: Span },
    Lambda { param_name: Seq<char>, param_type: AtomicTypeExprModel, body: Box<ValueExprModel>, span: Span },
    Tuple { items: Seq<ValueExprModel>, span: Span },
    Collection { items: Seq<ValueExprModel>, span: Span },
    Match { scrutinee: Box<ValueExprModel>, match_arms: Seq<MatchArmModel>, span: Span },
}

pub struct MatchArmModel {
    pub pattern: ValueExprModel,
    pub value_expr: ValueExprModel,
}

pub open spec fn decl_pattern_view(p: ParsedDeclPattern) -> DeclPatternModel
    decreases p,
{
    match p {
        ParsedDeclPattern::Identifier { name, span } => DeclPatternModel::Identifier { name: name@, span },
        ParsedDeclPattern::Literal { literal, span } => DeclPatternModel::Literal { literal: literal@, span },
        ParsedDeclPattern::Tuple { items, span } => DeclPatternModel::Tuple { items: decl_pattern_views(items@), span },
        ParsedDeclPattern::Collection { items, span } => DeclPatternModel::Collection {
            items: decl_pattern_views(items@),
            span,
        },
    }
}

pub open spec fn decl_pattern_views(s: Seq<ParsedDeclPattern>) -> Seq<DeclPatternModel>
    decreases s,
{
    if s.len() == 0 {
        Seq::empty()
    } else {
        decl_pattern_views(s.drop_last()).push(decl_pattern_view(s.last()))
    }
}

impl View for ParsedDeclPattern {
    type V = DeclPatternModel;

    open spec fn view(&self) -> DeclPatternModel {
        decl_pattern_view(*self)
    }
}

pub proof fn lemma_decl_pattern_views(s: Seq<ParsedDeclPattern>)
    ensures
        decl_pattern_views(s).len() == s.len(),
        forall|i: int| 0 <= i < s.len() ==> #[trigger] decl_pattern_views(s)[i] == s[i]@,
    decreases s.len(),
{
    if s.len() > 0 {
        lemma_decl_pattern_views(s.drop_last());
    }
}

pub open spec fn value_expr_view(e: ParsedValueExpr) -> ValueExprModel
    decreases e,
{
    match e {
        ParsedValueExpr::Block { statements, span } => ValueExprModel::Block {
            statements: statement_views(statements@),
            span,
        },
        ParsedValueExpr::Identifier { name, span } => ValueExprModel::Identifier { name: name@, span },
        ParsedValueExpr::Op { kind, span } => ValueExprModel::Op { kind, span },
        ParsedValueExpr::Literal { literal, span } => ValueExprModel::Literal { literal: literal@, span },
        ParsedValueExpr::Lambda { param_name, param_type, body, span } => ValueExprModel::Lambda {
            param_name: param_name@,
            param_type: param_type@,
            body: Box::new(value_expr_view(*body)),
            span,
        },
        ParsedValueExpr::Tuple { items, span } => ValueExprModel::Tuple { items: value_expr_views(items@), span },
        ParsedValueExpr::Collection { items, span } => ValueExprModel::Collection {
            items: value_expr_views(items@),
            span,
        },
        ParsedValueExpr::Match { scrutinee, match_arms, span } => ValueExprModel::Match {
            scrutinee: Box::new(value_expr_view(*scrutinee)),
            match_arms: match_arm_views(match_arms@),
            span,
        },
    }
}

pub open spec fn value_expr_views(s: Seq<ParsedValueExpr>) -> Seq<ValueExprModel>
    decreases s,
{
    if s.len() == 0 {
        Seq::empty()
    } else {
        value_expr_views(s.drop_last()).push(value_expr_view(s.last()))
    }
}

pub open spec fn match_arm_view(a: ParsedMatchArm) -> MatchArmModel
    decreases a,
{
    MatchArmModel { pattern: value_expr_view(a.pattern), value_expr: value_expr_view(a.value_expr) }
}

pub open spec fn match_arm_views(s: Seq<ParsedMatchArm>) -> Seq<MatchArmModel>
    decreases s,
{
    if s.len() == 0 {
        Seq::empty()
    } else {
        match_arm_views(s.drop_last()).push(match_arm_view(s.last()))
    }
}

pub open spec fn statement_view(s: ParsedStatement) -> ParsedStatementModel
    decreases s,
{
    match s {
        ParsedStatement::KindAnnotation { name, expr, span } => ParsedStatementModel::KindAnnotation {
            name: name@,
            expr,
            span,
        },
        ParsedStatement::TypeDeclaration { name, expr, span } => ParsedStatementModel::TypeDeclaration {
            name: name@,
            expr: expr@,
            span,
        },
        ParsedStatement::TypeAnnotation { pattern, expr, span } => ParsedStatementModel::TypeAnnotation {
            pattern: pattern@,
            expr: expr@,
            span,
        },
        ParsedStatement::VarDeclaration { pattern, expr, span } => ParsedStatementModel::VarDeclaration {
            pattern: pattern@,
            expr: value_expr_view(expr),
            span,
        },
        ParsedStatement::Expression { expr, span } => ParsedStatementModel::Expression {
            expr: value_expr_view(expr),
            span,
        },
    }
}

pub open spec fn statement_views(s: Seq<ParsedStatement>) -> Seq<ParsedStatementModel>
    decreases s,
{
    if s.len() == 0 {
        Seq::empty()
    } else {
        statement_views(s.drop_last()).push(statement_view(s.last()))
    }
}

impl View for ParsedValueExpr {
    type V = ValueExprModel;

    open spec fn view(&self) -> ValueExprModel {
        value_expr_view(*self)
    }
}

impl View for ParsedMatchArm {
    type V = MatchArmModel;

    open spec fn view(&self) -> MatchArmModel {
        match_arm_view(*self)
    }
}

impl View for ParsedStatement {
    type V = ParsedStatementModel;

    open spec fn view(&self) -> ParsedStatementModel {
        statement_view(*self)
    }
}

pub proof fn lemma_value_expr_views(s: Seq<ParsedValueExpr>)
    ensures
        value_expr_views(s).len() == s.len(),
        forall|i: int| 0 <= i < s.len() ==> #[trigger] value_expr_views(s)[i] == s[i]@,
    decreases s.len(),
{
    if s.len() > 0 {
        lemma_value_expr_views(s.drop_last());
    }
}

pub proof fn lemma_match_arm_views(s: Seq<ParsedMatchArm>)
    ensures
        match_arm_views(s).len() == s.len(),
        forall|i: int| 0 <= i < s.len() ==> #[trigger] match_arm_views(s)[i] == s[i]@,
    decreases s.len(),
{
    if s.len() > 0 {
        lemma_match_arm_views(s.drop_last());
    }
}

pub proof fn lemma_statement_views(s: Seq<ParsedStatement>)
    ensures
        statement_views(s).len() == s.len(),
        forall|i: int| 0 <= i < s.len() ==> #[trigger] statement_views(s)[i] == s[i]@,
    decreases s.len(),
{
    if s.len() > 0 {
        lemma_statement_views(s.drop_last());
    }
}

/// Views of a sequence grown by one.
pub proof fn lemma_statement_views_push(s: Seq<ParsedStatement>, x: ParsedStatement)
    ensures
        statement_views(s.push(x)) == statement_views(s).push(x@),
{
    assert(s.push(x).drop_last() =~= s);
}

pub proof fn lemma_value_expr_views_push(s: Seq<ParsedValueExpr>, x: ParsedValueExpr)
    ensures
        value_expr_views(s.push(x)) == value_expr_views(s).push(x@),
{
    assert(s.push(x).drop_last() =~= s);
}

pub proof fn lemma_match_arm_views_push(s: Seq<ParsedMatchArm>, x: ParsedMatchArm)
    ensures
        match_arm_views(s.push(x)) == match_arm_views(s).push(x@),
{
    assert(s.push(x).drop_last() =~= s);
}

pub proof fn lemma_decl_pattern_views_push(s: Seq<ParsedDeclPattern>, x: ParsedDeclPattern)
    ensures
        decl_pattern_views(s.push(x)) == decl_pattern_views(s).push(x@),
{
    assert(s.push(x).drop_last() =~= s);
}

} // verus!

verus! {

pub open spec fn value_expr_span(e: ValueExprModel) -> Span {
    match e {
        ValueExprModel::Block { span, .. } => span,
        ValueExprModel::Identifier { span, .. } => span,
        ValueExprModel::Op { span, .. } => span,
        ValueExprModel::Literal { span, .. } => span,
        ValueExprModel::Lambda { span, .. } => span,
        ValueExprModel::Tuple { span, .. } => span,
        ValueExprModel::Collection { span, .. } => span,
        ValueExprModel::Match { span, .. } => span,
    }
}

pub open spec fn decl_pattern_span(p: DeclPatternModel) -> Span {
    match p {
        DeclPatternModel::Identifier { span, .. } => span,
        DeclPatternModel::Literal { span, .. } => span,
        DeclPatternModel::Tuple { span, .. } => span,
        DeclPatternModel::Collection { span, .. } => span,
    }
}

pub open spec fn parse_error(message: Seq<char>, span: Option<Span>) -> crate::error::ErrorModel {
    crate::error::ErrorModel { kind: ErrorKind::Parse, message, span }
}

pub open spec fn invalid_decl_pattern_message() -> Seq<char> {
    seq![
        'i', 'n', 'v', 'a', 'l', 'i', 'd', ' ', 'd', 'e', 'c', 'l', 'a', 'r', 'a', 't', 'i', 'o', 'n',
        ' ', 'p', 'a', 't', 't', 'e', 'r', 'n'
    ]
}

/// An expression read as a declaration pattern: identifiers, literals,
/// tuples and collections of these; the first other expression, left to
/// right, is an error.
pub open spec fn spec_into_decl_pattern(e: ValueExprModel) -> Result<DeclPatternModel, crate::error::ErrorModel>
    decreases e,
{
    match e {
        ValueExprModel::Identifier { name, span } => Ok(DeclPatternModel::Identifier { name, span }),
        ValueExprModel::Literal { literal, span } => Ok(DeclPatternModel::Literal { literal, span }),
        ValueExprModel::Tuple { items, span } => match spec_into_decl_patterns(items) {
            Ok(ps) => Ok(DeclPatternModel::Tuple { items: ps, span }),
            Err(err) => Err(err),
        },
        ValueExprModel::Collection { items, span } => match spec_into_decl_patterns(items) {
            Ok(ps) => Ok(DeclPatternModel::Collection { items: ps, span }),
            Err(err) => Err(err),
        },
        _ => Err(parse_error(invalid_decl_pattern_message(), Some(value_expr_span(e)))),
    }
}

pub open spec fn spec_into_decl_patterns(s: Seq<ValueExprModel>) -> Result<Seq<DeclPatternModel>, crate::error::ErrorModel>
    decreases s,
{
    if s.len() == 0 {
        Ok(Seq::empty())
    } else {
        match spec_into_decl_pattern(s[0]) {
            Err(err) => Err(err),
            Ok(p) => match spec_into_decl_patterns(s.drop_first()) {
                Err(err) => Err(err),
                Ok(ps) => Ok(seq![p] + ps),
            },
        }
    }
}

impl ParsedValueExpr {
    pub fn span(&self) -> (span: Span)
        ensures
            span == value_expr_span(self@),
    {
        match self {
            ParsedValueExpr::Block { span, .. } => *span,
            ParsedValueExpr::Identifier { span, .. } => *span,
            ParsedValueExpr::Op { span, .. } => *span,
            ParsedValueExpr::Literal { span, .. } => *span,
            ParsedValueExpr::Lambda { span, .. } => *span,
            ParsedValueExpr::Tuple { span, .. } => *span,
            ParsedValueExpr::Collection { span, .. } => *span,
            ParsedValueExpr::Match { span, .. } => *span,
        }
    }

    pub fn is_primary_starter(&self) -> (r: bool)
        ensures
            r == match self@ {
                ValueExprModel::Identifier { .. } | ValueExprModel::Literal { .. } | ValueExprModel::Tuple {
                    ..
                } | ValueExprModel::Collection { .. } => true,
                ValueExprModel::Op { kind, .. } => kind == OpKind::Minus,
                _ => false,
            },
    {
        match self {
            ParsedValueExpr::Identifier { .. }
            | ParsedValueExpr::Literal { .. }
            | ParsedValueExpr::Tuple { .. }
            | ParsedValueExpr::Collection { .. } => true,
            ParsedValueExpr::Op { kind, .. } => match kind {
                OpKind::Minus => true,
                _ => false,
            },
            _ => false,
        }
    }

    pub fn into_decl_pattern(self) -> (r: FogResult<ParsedDeclPattern>)
        ensures
            match spec_into_decl_pattern(self@) {
                Ok(p) => r matches Ok(q) && q@ == p,
                Err(e) => r matches Err(err) && err@ == e,
            },
    {
        to_decl_pattern(&self)
    }
}

fn to_decl_pattern(e: &ParsedValueExpr) -> (r: FogResult<ParsedDeclPattern>)
    ensures
        match spec_into_decl_pattern(e@) {
            Ok(p) => r matches Ok(q) && q@ == p,
            Err(err) => r matches Err(x) && x@ == err,
        },
    decreases e,
{
    match e {
        ParsedValueExpr::Identifier { name, span } => Ok(ParsedDeclPattern::Identifier { name: name.clone(), span: *span }),
        ParsedValueExpr::Literal { literal, span } => Ok(ParsedDeclPattern::Literal { literal: literal.copy(), span: *span }),
        ParsedValueExpr::Tuple { items, span } => match to_decl_patterns(items) {
            Ok(ps) => Ok(ParsedDeclPattern::Tuple { items: ps, span: *span }),
            Err(err) => Err(err),
        },
        ParsedValueExpr::Collection { items, span } => match to_decl_patterns(items) {
            Ok(ps) => Ok(ParsedDeclPattern::Collection { items: ps, span: *span }),
            Err(err) => Err(err),
        },
        _ => {
            proof {
                reveal_strlit("invalid declaration pattern");
                assert("invalid declaration pattern"@ =~= invalid_decl_pattern_message());
            }
            Err(FogError::new(
                ErrorKind::Parse,
                crate::util::string_from("invalid declaration pattern"),
                Some(e.span()),
            ))
        },
    }
}

fn to_decl_patterns(items: &Vec<ParsedValueExpr>) -> (r: FogResult<Vec<ParsedDeclPattern>>)
    ensures
        match spec_into_decl_patterns(value_expr_views(items@)) {
            Ok(ps) => r matches Ok(q) && decl_pattern_views(q@) == ps,
            Err(err) => r matches Err(x) && x@ == err,
        },
    decreases items,
{
    let ghost v = value_expr_views(items@);
    proof {
        lemma_value_expr_views(items@);
        assert(v.skip(0) =~= v);
    }
    let mut out: Vec<ParsedDeclPattern> = Vec::new();
    let mut i: usize = 0;
    while i < items.len()
        invariant
            i <= items.len(),
            v == value_expr_views(items@),
            v.len() == items.len(),
            forall|j: int| 0 <= j < items.len() ==> #[trigger] v[j] == items@[j]@,
            spec_into_decl_patterns(v) == match spec_into_decl_patterns(v.skip(i as int)) {
                Ok(ps) => Ok(decl_pattern_views(out@) + ps),
                Err(err) => Err(err),
            },
        decreases items.len() - i,
    {
        proof {
            assert(decreases_to!(*items => items@));
            assert(decreases_to!(items@ => items@[i as int]));
            assert(v.skip(i as int)[0] == v[i as int]);
            assert(v.skip(i as int).drop_first() =~= v.skip(i + 1));
        }
        match to_decl_pattern(&items[i]) {
            Ok(p) => {
                let ghost before = out@;
                out.push(p);
                proof {
                    lemma_decl_pattern_views_push(before, out@.last());
                    match spec_into_decl_patterns(v.skip(i + 1)) {
                        Ok(ps) => {
                            assert(decl_pattern_views(before) + (seq![out@.last()@] + ps) =~= decl_pattern_views(out@) + ps);
                        },
                        Err(_) => {},
                    }
                }
            },
            Err(err) => {
                return Err(err);
            },
        }
        i += 1;
    }
    proof {
        assert(v.skip(i as int) =~= Seq::<ValueExprModel>::empty());
        assert(decl_pattern_views(out@) + Seq::<DeclPatternModel>::empty() =~= decl_pattern_views(out@));
    }
    Ok(out)
}

impl ParsedDeclPattern {
    pub fn span(&self) -> (span: Span)
        ensures
            span == decl_pattern_span(self@),
    {
        match self {
            ParsedDeclPattern::Identifier { span, .. } => *span,
            ParsedDeclPattern::Literal { span, .. } => *span,
            ParsedDeclPattern::Tuple { span, .. } => *span,
            ParsedDeclPattern::Collection { span, .. } => *span,
        }
    }
}

} // verus!
