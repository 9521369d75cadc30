//! The parser: recursive descent over the tokens, one statement at a time.
//!
//! Every function reads from a position; it returns what it built or the
//! first error, and the position it stopped at. The `spec_` functions state
//! what each one returns, position by position.

use vstd::prelude::*;

use crate::error::ErrorKind;
use crate::error::ErrorModel;
use crate::error::error_views;
use crate::error::FogError;
use crate::error::FogResult;
use crate::error::Pos;
use crate::error::Span;
use crate::lexer::chars::is_uppercase;
use crate::static_check::types::str_eq;
use crate::util::string_from;
use crate::lexer::chars::spec_is_uppercase;
use crate::lexer::token::Token;
use crate::lexer::token::TokenKind;
use crate::lexer::token::TokenKindModel;
use crate::lexer::token::TokenModel;
use crate::lexer::token::spec_is_primary_starter;
use crate::lexer::token::token_views;
use crate::parser::LiteralModel;
use crate::parser::core_expr::AtomicTypeExprModel;
use crate::parser::core_expr::CoreAtomicTypeExpr;
use crate::parser::core_expr::CoreDataConstructor;
use crate::parser::core_expr::CoreTypeExpr;
use crate::parser::core_expr::atomic_type_expr_views;
use crate::parser::core_expr::data_constructor_views;
use crate::parser::core_expr::lemma_atomic_type_expr_views;
use crate::parser::core_expr::lemma_atomic_type_expr_views_push;
use crate::parser::core_expr::CoreKindExpr;
use crate::parser::core_expr::DataConstructorModel;
use crate::parser::core_expr::TypeExprModel;
use crate::parser::core_expr::atomic_type_expr_span;
use crate::parser::core_expr::spec_atomic_type_text;
use crate::parser::core_expr::type_expr_span;
use crate::parser::Literal;
use crate::parser::parsed_expr::DeclPatternModel;
use crate::parser::parsed_expr::ParsedDeclPattern;
use crate::parser::parsed_expr::ParsedMatchArm;
use crate::parser::parsed_expr::ParsedStatement;
use crate::parser::parsed_expr::ParsedValueExpr;
use crate::parser::parsed_expr::lemma_match_arm_views_push;
use crate::parser::parsed_expr::lemma_statement_views_push;
use crate::parser::parsed_expr::lemma_value_expr_views;
use crate::parser::parsed_expr::lemma_value_expr_views_push;
use crate::parser::parsed_expr::match_arm_views;
use crate::parser::parsed_expr::statement_views;
use crate::parser::parsed_expr::value_expr_views;
use crate::parser::parsed_expr::MatchArmModel;
use crate::parser::parsed_expr::OpKind;
use crate::parser::parsed_expr::ParsedStatementModel;
use crate::parser::parsed_expr::ValueExprModel;
use crate::parser::parsed_expr::parse_error;
use crate::parser::parsed_expr::spec_into_decl_pattern;
use crate::parser::parsed_expr::spec_op_kind_of;
use crate::parser::parsed_expr::value_expr_span;
use crate::parser::parsed_expr::decl_pattern_span;

verus! {

// --- reading tokens ---

/// Where the source ends: the end of the last token, or the start.
pub open spec fn eof_pos(toks: Seq<TokenModel>) -> Pos {
    if toks.len() == 0 {
        Pos { line: 1, column: 1 }
    } else {
        toks.last().span.end
    }
}

pub open spec fn eof_token(toks: Seq<TokenModel>) -> TokenModel {
    TokenModel { kind: TokenKindModel::Eof, span: Span { start: eof_pos(toks), end: eof_pos(toks) } }
}

/// The token at `pos`; the end-of-file token past the last one.
pub open spec fn peek(toks: Seq<TokenModel>, pos: int) -> TokenModel {
    if 0 <= pos < toks.len() {
        toks[pos]
    } else {
        eof_token(toks)
    }
}

/// The first position from `pos` on that does not hold a newline.
pub open spec fn skip_newlines(toks: Seq<TokenModel>, pos: int) -> int
    decreases toks.len() - pos,
{
    if 0 <= pos < toks.len() && toks[pos].kind is Newline {
        skip_newlines(toks, pos + 1)
    } else {
        pos
    }
}

/// Past one newline, if there is one at `pos`.
pub open spec fn skip_newline(toks: Seq<TokenModel>, pos: int) -> int {
    if peek(toks, pos).kind is Newline {
        pos + 1
    } else {
        pos
    }
}

/// A name of a type starts with an uppercase letter.
pub open spec fn spec_is_type_name(name: Seq<char>) -> bool {
    name.len() > 0 && spec_is_uppercase(name[0])
}

pub type Parsed<T> = (Result<T, ErrorModel>, int);

pub open spec fn junk<T>(pos: int) -> Parsed<T> {
    (Err(parse_error(Seq::empty(), None)), pos)
}

// --- statements ---

/// One statement of a program or a block.
pub open spec fn spec_parse_block_statement(toks: Seq<TokenModel>, pos: int) -> Parsed<ParsedStatementModel>
    decreases toks.len() + 1 - pos, 30int,
{
    if pos < 0 || pos > toks.len() {
        junk(pos)
    } else {
        let start_span = peek(toks, pos).span;
        match (peek(toks, pos).kind, peek(toks, pos + 1).kind) {
            (TokenKindModel::Identifier(name), TokenKindModel::Colon) => {
                if spec_is_type_name(name) {
                    match spec_parse_kind_expr(toks, pos + 2) {
                        (Ok(k), p) => (
                            Ok(ParsedStatementModel::KindAnnotation {
                                name,
                                expr: k,
                                span: Span::merge_spec(start_span, k.spec_span()),
                            }),
                            p,
                        ),
                        (Err(e), p) => (Err(e), p),
                    }
                } else {
                    match spec_parse_atomic_type_expr(toks, pos + 2) {
                        (Ok(t), p) => (
                            Ok(ParsedStatementModel::TypeAnnotation {
                                pattern: DeclPatternModel::Identifier { name, span: start_span },
                                expr: t,
                                span: Span::merge_spec(start_span, atomic_type_expr_span(t)),
                            }),
                            p,
                        ),
                        (Err(e), p) => (Err(e), p),
                    }
                }
            },
            (TokenKindModel::Identifier(name), TokenKindModel::Equal) => {
                let p0 = skip_newline(toks, pos + 2);
                if spec_is_type_name(name) {
                    match spec_parse_type_expr(toks, p0) {
                        (Ok(t), p) => (
                            Ok(ParsedStatementModel::TypeDeclaration {
                                name,
                                expr: t,
                                span: Span::merge_spec(start_span, type_expr_span(t)),
                            }),
                            p,
                        ),
                        (Err(e), p) => (Err(e), p),
                    }
                } else {
                    match spec_parse_expr(toks, p0) {
                        (Ok(e), p) => (
                            Ok(ParsedStatementModel::VarDeclaration {
                                pattern: DeclPatternModel::Identifier { name, span: start_span },
                                expr: e,
                                span: Span::merge_spec(start_span, value_expr_span(e)),
                            }),
                            p,
                        ),
                        (Err(e), p) => (Err(e), p),
                    }
                }
            },
            _ => match spec_parse_expr(toks, pos) {
                (Err(e), p) => (Err(e), p),
                (Ok(e), p) => if peek(toks, p).kind is Equal && pos <= p < toks.len() {
                    match spec_into_decl_pattern(e) {
                        Err(err) => (Err(err), p + 1),
                        Ok(pattern) => match spec_parse_expr(toks, p + 1) {
                            (Ok(e2), q) => (
                                Ok(ParsedStatementModel::VarDeclaration {
                                    pattern,
                                    expr: e2,
                                    span: Span::merge_spec(decl_pattern_span(pattern), value_expr_span(e2)),
                                }),
                                q,
                            ),
                            (Err(err), q) => (Err(err), q),
                        },
                    }
                } else {
                    (Ok(ParsedStatementModel::Expression { expr: e, span: value_expr_span(e) }), p)
                },
            },
        }
    }
}

// --- value expressions ---

/// An expression: atoms and operators side by side, kept as a collection
/// where there is more than one.
pub open spec fn spec_parse_expr(toks: Seq<TokenModel>, pos: int) -> Parsed<ValueExprModel>
    decreases toks.len() + 1 - pos, 29int,
{
    if pos < 0 || pos > toks.len() {
        junk(pos)
    } else {
        spec_parse_expr_loop(toks, pos, Seq::empty(), peek(toks, pos).span)
    }
}

pub open spec fn collection_of(args: Seq<ValueExprModel>, start_span: Span) -> ValueExprModel {
    if args.len() == 1 {
        args[0]
    } else {
        ValueExprModel::Collection {
            items: args,
            span: Span::merge_spec(start_span, value_expr_span(args.last())),
        }
    }
}

pub open spec fn spec_parse_expr_loop(
    toks: Seq<TokenModel>,
    pos: int,
    args: Seq<ValueExprModel>,
    start_span: Span,
) -> Parsed<ValueExprModel>
    decreases toks.len() + 1 - pos, 28int,
{
    if pos < 0 || pos > toks.len() {
        junk(pos)
    } else {
        match spec_parse_atomic(toks, pos) {
            (Err(e), p) => (Err(e), p),
            (Ok(atom), p) => {
                let args = args.push(atom);
                if p <= pos || p > toks.len() {
                    junk(p)
                } else {
                    let token = peek(toks, p);
                    match spec_op_kind_of(token.kind) {
                        Some(kind) => if p < toks.len() {
                            spec_parse_expr_loop(
                                toks,
                                p + 1,
                                args.push(ValueExprModel::Op { kind, span: token.span }),
                                start_span,
                            )
                        } else {
                            junk(p)
                        },
                        None => if spec_is_primary_starter(token.kind) {
                            spec_parse_expr_loop(toks, p, args, start_span)
                        } else {
                            (Ok(collection_of(args, start_span)), p)
                        },
                    }
                }
            },
        }
    }
}

/// An atom: a literal, a negation sign, an identifier or a lambda, a tuple
/// or an expression in parentheses, a block, or a match.
pub open spec fn spec_parse_atomic(toks: Seq<TokenModel>, pos: int) -> Parsed<ValueExprModel>
    decreases toks.len() + 1 - pos, 27int,
{
    if pos < 0 || pos > toks.len() {
        junk(pos)
    } else {
        let token = peek(toks, pos);
        let span = token.span;
        match token.kind {
            TokenKindModel::Int32Literal(v) => (
                Ok(ValueExprModel::Literal { literal: LiteralModel::Int32(v), span }),
                pos + 1,
            ),
            TokenKindModel::Float32Literal(text) => (
                Ok(ValueExprModel::Literal { literal: LiteralModel::Float32(text), span }),
                pos + 1,
            ),
            TokenKindModel::Minus => (Ok(ValueExprModel::Op { kind: OpKind::Minus, span }), pos + 1),
            TokenKindModel::Identifier(name) => {
                if peek(toks, pos + 1).kind is Colon {
                    match spec_parse_atomic_type_expr(toks, pos + 2) {
                        (Err(e), p) => (Err(e), p),
                        (Ok(t), p) => if !(peek(toks, p).kind is FatArrow) {
                            (Err(parse_error("expected `=>`"@, Some(peek(toks, p).span))), p)
                        } else if p < pos || p >= toks.len() {
                            junk(p)
                        } else {
                            match spec_parse_expr(toks, skip_newline(toks, p + 1)) {
                                (Err(e), q) => (Err(e), q),
                                (Ok(body), q) => (
                                    Ok(ValueExprModel::Lambda {
                                        param_name: name,
                                        param_type: t,
                                        body: Box::new(body),
                                        span: Span::merge_spec(span, value_expr_span(body)),
                                    }),
                                    q,
                                ),
                            }
                        },
                    }
                } else {
                    (Ok(ValueExprModel::Identifier { name, span }), pos + 1)
                }
            },
            TokenKindModel::LeftParenthesis => {
                if peek(toks, pos + 1).kind is RightParenthesis {
                    (
                        Ok(ValueExprModel::Tuple {
                            items: Seq::empty(),
                            span: Span::merge_spec(span, peek(toks, pos + 1).span),
                        }),
                        pos + 2,
                    )
                } else {
                    spec_parse_tuple_items(toks, pos + 1, Seq::empty(), span)
                }
            },
            TokenKindModel::LeftBrace => match spec_parse_block(toks, pos + 1, Seq::empty()) {
                (Err(e), p) => (Err(e), p),
                (Ok((statements, close)), p) => (
                    Ok(ValueExprModel::Block { statements, span: Span::merge_spec(span, close) }),
                    p,
                ),
            },
            TokenKindModel::Match => match spec_parse_expr(toks, pos + 1) {
                (Err(e), p) => (Err(e), p),
                (Ok(scrutinee), p) => if !(peek(toks, p).kind is LeftBrace) {
                    (Err(parse_error("expected `{`"@, Some(peek(toks, p).span))), p)
                } else if p < pos || p >= toks.len() {
                    junk(p)
                } else {
                    match spec_parse_match_arms(toks, p + 1, Seq::empty()) {
                        (Err(e), q) => (Err(e), q),
                        (Ok((arms, close)), q) => (
                            Ok(ValueExprModel::Match {
                                scrutinee: Box::new(scrutinee),
                                match_arms: arms,
                                span: Span::merge_spec(span, close),
                            }),
                            q,
                        ),
                    }
                },
            },
            _ => (Err(parse_error("atomic expression parsing error"@, Some(span))), pos + 1),
        }
    }
}

/// The items of a parenthesized list, after its opening parenthesis at
/// `open_span`: one item is the item itself; more are a tuple.
pub open spec fn spec_parse_tuple_items(
    toks: Seq<TokenModel>,
    pos: int,
    items: Seq<ValueExprModel>,
    open_span: Span,
) -> Parsed<ValueExprModel>
    decreases toks.len() + 1 - pos, 31int,
{
    if pos < 0 || pos > toks.len() {
        junk(pos)
    } else {
        match spec_parse_expr(toks, pos) {
            (Err(e), p) => (Err(e), p),
            (Ok(e), p) => {
                let items = items.push(e);
                if p <= pos || p > toks.len() {
                    junk(p)
                } else {
                    match peek(toks, p).kind {
                        TokenKindModel::RightParenthesis => if items.len() == 1 {
                            (Ok(items[0]), p + 1)
                        } else {
                            (
                                Ok(ValueExprModel::Tuple {
                                    items,
                                    span: Span::merge_spec(open_span, peek(toks, p).span),
                                }),
                                p + 1,
                            )
                        },
                        TokenKindModel::Comma => spec_parse_tuple_items(toks, p + 1, items, open_span),
                        _ => (Err(parse_error("expected `)`"@, Some(open_span))), p),
                    }
                }
            },
        }
    }
}

/// The arms of a match, up to its closing brace; newlines around arms are
/// skipped.
pub open spec fn spec_parse_match_arms(
    toks: Seq<TokenModel>,
    pos: int,
    arms: Seq<MatchArmModel>,
) -> Parsed<(Seq<MatchArmModel>, Span)>
    decreases toks.len() + 1 - pos, 32int,
{
    if pos < 0 || pos > toks.len() {
        junk(pos)
    } else {
        let p = skip_newlines(toks, pos);
        if p < pos || p > toks.len() {
            junk(p)
        } else if peek(toks, p).kind is Eof {
            (Err(parse_error("unclosed match"@, None)), p)
        } else if peek(toks, p).kind is RightBrace {
            (Ok((arms, peek(toks, p).span)), p + 1)
        } else {
            match spec_parse_expr(toks, p) {
                (Err(e), q) => (Err(e), q),
                (Ok(pattern), q) => if !(peek(toks, q).kind is FatArrow) {
                    (Err(parse_error("expected `=>`"@, Some(peek(toks, q).span))), q)
                } else if q <= pos || q >= toks.len() {
                    junk(q)
                } else {
                    match spec_parse_expr(toks, skip_newline(toks, q + 1)) {
                        (Err(e), r) => (Err(e), r),
                        (Ok(value_expr), r) => if r <= pos || r > toks.len() {
                            junk(r)
                        } else {
                            spec_parse_match_arms(
                                toks,
                                r,
                                arms.push(MatchArmModel { pattern, value_expr }),
                            )
                        },
                    }
                },
            }
        }
    }
}

/// The statements of a block, up to its closing brace; newlines between
/// statements are skipped.
pub open spec fn spec_parse_block(
    toks: Seq<TokenModel>,
    pos: int,
    statements: Seq<ParsedStatementModel>,
) -> Parsed<(Seq<ParsedStatementModel>, Span)>
    decreases toks.len() + 1 - pos, 33int,
{
    if pos < 0 || pos > toks.len() {
        junk(pos)
    } else {
        let p = skip_newlines(toks, pos);
        if p < pos || p > toks.len() {
            junk(p)
        } else if peek(toks, p).kind is RightBrace {
            (Ok((statements, peek(toks, p).span)), p + 1)
        } else if peek(toks, p).kind is Eof {
            (Err(parse_error("unclosed block"@, None)), p)
        } else {
            match spec_parse_block_statement(toks, p) {
                (Err(e), q) => (Err(e), q),
                (Ok(stmt), q) => if q <= pos || q > toks.len() {
                    junk(q)
                } else {
                    spec_parse_block(toks, q, statements.push(stmt))
                },
            }
        }
    }
}

// --- kind expressions ---

/// A kind: atoms joined by right-associative arrows.
pub open spec fn spec_parse_kind_expr(toks: Seq<TokenModel>, pos: int) -> Parsed<CoreKindExpr>
    decreases toks.len() + 1 - pos, 9int,
{
    if pos < 0 || pos > toks.len() {
        junk(pos)
    } else {
        let start_span = peek(toks, pos).span;
        match spec_parse_kind_atom_expr(toks, pos) {
            (Err(e), p) => (Err(e), p),
            (Ok(atom), p) => if peek(toks, p).kind is Arrow {
                if p <= pos || p >= toks.len() {
                    junk(p)
                } else {
                    match spec_parse_kind_expr(toks, p + 1) {
                        (Err(e), q) => (Err(e), q),
                        (Ok(rhs), q) => (
                            Ok(CoreKindExpr::Function {
                                param_kind: Box::new(atom),
                                return_kind: Box::new(rhs),
                                span: start_span,
                            }),
                            q,
                        ),
                    }
                }
            } else {
                (Ok(atom), p)
            },
        }
    }
}

pub open spec fn spec_parse_kind_atom_expr(toks: Seq<TokenModel>, pos: int) -> Parsed<CoreKindExpr>
    decreases toks.len() + 1 - pos, 8int,
{
    if pos < 0 || pos > toks.len() {
        junk(pos)
    } else {
        let token = peek(toks, pos);
        let span = token.span;
        match token.kind {
            TokenKindModel::Identifier(name) => if name == "Type"@ {
                (Ok(CoreKindExpr::Type { span }), pos + 1)
            } else if name == "Constraint"@ {
                (Ok(CoreKindExpr::Constraint { span }), pos + 1)
            } else {
                (Err(parse_error("expected `Type`, `Constraint`, or `(`"@, Some(span))), pos + 1)
            },
            TokenKindModel::LeftParenthesis => match spec_parse_kind_expr(toks, pos + 1) {
                (Err(e), p) => (Err(e), p),
                (Ok(e), p) => if peek(toks, p).kind is RightParenthesis {
                    (Ok(e), p + 1)
                } else {
                    (Err(parse_error("expected `)`"@, Some(span))), p)
                },
            },
            _ => (Err(parse_error("expected `Type`, `Constraint`, or `(`"@, Some(span))), pos + 1),
        }
    }
}

// --- type expressions ---

/// The head of an application and its arguments, in order.
pub open spec fn spec_uncurry(t: AtomicTypeExprModel) -> (AtomicTypeExprModel, Seq<AtomicTypeExprModel>)
    decreases t,
{
    match t {
        AtomicTypeExprModel::FunctionAppl { callee, arg, .. } => {
            let (head, args) = spec_uncurry(*callee);
            (head, args.push(*arg))
        },
        _ => (t, Seq::empty()),
    }
}

/// A summand of a sum type read as a data constructor: a tag alone, or a
/// tag applied to the types of its fields.
pub open spec fn spec_data_constructor_of(t: AtomicTypeExprModel) -> Result<DataConstructorModel, ErrorModel> {
    match t {
        AtomicTypeExprModel::Identifier { name, .. } => Ok(DataConstructorModel { tag: name, types: Seq::empty() }),
        AtomicTypeExprModel::FunctionAppl { .. } => {
            let (head, types) = spec_uncurry(t);
            match head {
                AtomicTypeExprModel::Identifier { name, .. } => Ok(DataConstructorModel { tag: name, types }),
                _ => Err(parse_error("expected identifier"@, Some(atomic_type_expr_span(head)))),
            }
        },
        _ => Err(
            parse_error(
                "invalid data constructor `"@ + spec_atomic_type_text(t) + "`"@,
                Some(atomic_type_expr_span(t)),
            ),
        ),
    }
}

pub open spec fn spec_data_constructors_of(s: Seq<AtomicTypeExprModel>) -> Result<Seq<DataConstructorModel>, ErrorModel>
    decreases s.len(),
{
    if s.len() == 0 {
        Ok(Seq::empty())
    } else {
        match spec_data_constructors_of(s.drop_last()) {
            Err(e) => Err(e),
            Ok(cs) => match spec_data_constructor_of(s.last()) {
                Err(e) => Err(e),
                Ok(c) => Ok(cs.push(c)),
            },
        }
    }
}

/// A type declaration's right side: a type, or summands joined by `+`.
pub open spec fn spec_parse_type_expr(toks: Seq<TokenModel>, pos: int) -> Parsed<TypeExprModel>
    decreases toks.len() + 1 - pos, 16int,
{
    if pos < 0 || pos > toks.len() {
        junk(pos)
    } else {
        let start_span = peek(toks, pos).span;
        match spec_parse_atomic_type_expr(toks, pos) {
            (Err(e), p) => (Err(e), p),
            (Ok(first), p) => if peek(toks, p).kind is Plus {
                if p <= pos || p > toks.len() {
                    junk(p)
                } else {
                    match spec_parse_sum_loop(toks, p, seq![first]) {
                        (Err(e), q) => (Err(e), q),
                        (Ok(summands), q) => {
                            let span = Span::merge_spec(start_span, atomic_type_expr_span(summands.last()));
                            match spec_data_constructors_of(summands) {
                                Err(e) => (Err(e), q),
                                Ok(ctors) => (Ok(TypeExprModel::Sum { ctors, span }), q),
                            }
                        },
                    }
                }
            } else {
                (Ok(TypeExprModel::Atomic(first)), p)
            },
        }
    }
}

pub open spec fn spec_parse_sum_loop(
    toks: Seq<TokenModel>,
    pos: int,
    summands: Seq<AtomicTypeExprModel>,
) -> Parsed<Seq<AtomicTypeExprModel>>
    decreases toks.len() + 1 - pos, 17int,
{
    if pos < 0 || pos > toks.len() {
        junk(pos)
    } else if peek(toks, pos).kind is Plus && pos < toks.len() {
        match spec_parse_atomic_type_expr(toks, pos + 1) {
            (Err(e), p) => (Err(e), p),
            (Ok(t), p) => if p <= pos || p > toks.len() {
                junk(p)
            } else {
                spec_parse_sum_loop(toks, p, summands.push(t))
            },
        }
    } else {
        (Ok(summands), pos)
    }
}

/// A type: products joined by right-associative arrows.
pub open spec fn spec_parse_atomic_type_expr(toks: Seq<TokenModel>, pos: int) -> Parsed<AtomicTypeExprModel>
    decreases toks.len() + 1 - pos, 15int,
{
    if pos < 0 || pos > toks.len() {
        junk(pos)
    } else {
        match spec_parse_product_type_expr(toks, pos) {
            (Err(e), p) => (Err(e), p),
            (Ok(param_type), p) => if peek(toks, p).kind is Arrow {
                if p <= pos || p >= toks.len() {
                    junk(p)
                } else {
                    match spec_parse_atomic_type_expr(toks, p + 1) {
                        (Err(e), q) => (Err(e), q),
                        (Ok(return_type), q) => (
                            Ok(AtomicTypeExprModel::Function {
                                param_type: Box::new(param_type),
                                return_type: Box::new(return_type),
                                span: Span::merge_spec(
                                    atomic_type_expr_span(param_type),
                                    atomic_type_expr_span(return_type),
                                ),
                            }),
                            q,
                        ),
                    }
                }
            } else {
                (Ok(param_type), p)
            },
        }
    }
}

/// A product: applications joined by `*`.
pub open spec fn spec_parse_product_type_expr(toks: Seq<TokenModel>, pos: int) -> Parsed<AtomicTypeExprModel>
    decreases toks.len() + 1 - pos, 14int,
{
    if pos < 0 || pos > toks.len() {
        junk(pos)
    } else {
        let start_span = peek(toks, pos).span;
        match spec_parse_application_type_expr(toks, pos) {
            (Err(e), p) => (Err(e), p),
            (Ok(first), p) => if peek(toks, p).kind is Star {
                if p <= pos || p > toks.len() {
                    junk(p)
                } else {
                    match spec_parse_product_loop(toks, p, seq![first]) {
                        (Err(e), q) => (Err(e), q),
                        (Ok(types), q) => (
                            Ok(AtomicTypeExprModel::Product {
                                types,
                                span: Span::merge_spec(start_span, atomic_type_expr_span(types.last())),
                            }),
                            q,
                        ),
                    }
                }
            } else {
                (Ok(first), p)
            },
        }
    }
}

pub open spec fn spec_parse_product_loop(
    toks: Seq<TokenModel>,
    pos: int,
    types: Seq<AtomicTypeExprModel>,
) -> Parsed<Seq<AtomicTypeExprModel>>
    decreases toks.len() + 1 - pos, 13int,
{
    if pos < 0 || pos > toks.len() {
        junk(pos)
    } else if peek(toks, pos).kind is Star && pos < toks.len() {
        match spec_parse_application_type_expr(toks, pos + 1) {
            (Err(e), p) => (Err(e), p),
            (Ok(t), p) => if p <= pos || p > toks.len() {
                junk(p)
            } else {
                spec_parse_product_loop(toks, p, types.push(t))
            },
        }
    } else {
        (Ok(types), pos)
    }
}

pub open spec fn starts_primary_type(kind: TokenKindModel) -> bool {
    kind is Identifier || kind is LeftParenthesis
}

/// An application: primary types side by side, applied left to right.
pub open spec fn spec_parse_application_type_expr(toks: Seq<TokenModel>, pos: int) -> Parsed<AtomicTypeExprModel>
    decreases toks.len() + 1 - pos, 12int,
{
    if pos < 0 || pos > toks.len() {
        junk(pos)
    } else {
        let start_span = peek(toks, pos).span;
        match spec_parse_primary_type_expr(toks, pos) {
            (Err(e), p) => (Err(e), p),
            (Ok(callee), p) => if p <= pos || p > toks.len() {
                junk(p)
            } else {
                spec_parse_application_loop(toks, p, callee, start_span)
            },
        }
    }
}

pub open spec fn spec_parse_application_loop(
    toks: Seq<TokenModel>,
    pos: int,
    callee: AtomicTypeExprModel,
    start_span: Span,
) -> Parsed<AtomicTypeExprModel>
    decreases toks.len() + 1 - pos, 11int,
{
    if pos < 0 || pos > toks.len() {
        junk(pos)
    } else if starts_primary_type(peek(toks, pos).kind) {
        match spec_parse_primary_type_expr(toks, pos) {
            (Err(e), p) => (Err(e), p),
            (Ok(arg), p) => if p <= pos || p > toks.len() {
                junk(p)
            } else {
                spec_parse_application_loop(
                    toks,
                    p,
                    AtomicTypeExprModel::FunctionAppl {
                        callee: Box::new(callee),
                        arg: Box::new(arg),
                        span: Span::merge_spec(start_span, atomic_type_expr_span(arg)),
                    },
                    start_span,
                )
            },
        }
    } else {
        (Ok(callee), pos)
    }
}

/// A primary type: a name, or a type in parentheses.
pub open spec fn spec_parse_primary_type_expr(toks: Seq<TokenModel>, pos: int) -> Parsed<AtomicTypeExprModel>
    decreases toks.len() + 1 - pos, 10int,
{
    if pos < 0 || pos > toks.len() {
        junk(pos)
    } else {
        let token = peek(toks, pos);
        let span = token.span;
        match token.kind {
            TokenKindModel::Identifier(name) => (Ok(AtomicTypeExprModel::Identifier { name, span }), pos + 1),
            TokenKindModel::LeftParenthesis => match spec_parse_atomic_type_expr(toks, pos + 1) {
                (Err(e), p) => (Err(e), p),
                (Ok(t), p) => if peek(toks, p).kind is RightParenthesis {
                    (Ok(t), p + 1)
                } else {
                    (Err(parse_error("expected `)`"@, Some(span))), p)
                },
            },
            _ => (Err(parse_error("expected a type expression"@, Some(span))), pos + 1),
        }
    }
}

// --- a program ---

/// The statements of a program and the errors met: after an error the
/// parser skips at least one token; newlines between statements are
/// skipped.
pub open spec fn spec_parse_from(
    toks: Seq<TokenModel>,
    pos: int,
    statements: Seq<ParsedStatementModel>,
    errors: Seq<ErrorModel>,
) -> (Seq<ParsedStatementModel>, Seq<ErrorModel>)
    decreases toks.len() + 1 - pos,
{
    if pos < 0 || pos > toks.len() || peek(toks, pos).kind is Eof {
        (statements, errors)
    } else {
        let (r, p) = spec_parse_block_statement(toks, pos);
        let p2 = if r is Err && p == pos { pos + 1 } else { p };
        let p3 = skip_newlines(toks, p2);
        let (statements, errors) = match r {
            Ok(s) => (statements.push(s), errors),
            Err(e) => (statements, errors.push(e)),
        };
        if p3 <= pos || p3 > toks.len() + 1 {
            (statements, errors)
        } else {
            spec_parse_from(toks, p3, statements, errors)
        }
    }
}

pub open spec fn spec_parse(toks: Seq<TokenModel>) -> (Seq<ParsedStatementModel>, Seq<ErrorModel>) {
    spec_parse_from(toks, skip_newlines(toks, 0), Seq::empty(), Seq::empty())
}

} // verus!

verus! {

/// `r` is what the parser function whose result is `expected` returns.
pub open spec fn agrees<V: View>(r: FogResult<V>, expected: Result<V::V, ErrorModel>) -> bool {
    match expected {
        Ok(m) => r matches Ok(v) && v@ == m,
        Err(e) => r matches Err(x) && x@ == e,
    }
}

/// Whether a name is that of a type: whether it starts with an uppercase
/// letter.
pub fn is_type_name(name: &str) -> (r: bool)
    ensures
        r == spec_is_type_name(name@),
{
    let n = name.unicode_len();
    if n == 0 {
        false
    } else {
        let c = name.get_char(0);
        is_uppercase(c)
    }
}

/// The statements of a program and the errors met, in order: after an
/// error the parser goes on with the next statement.
pub fn parse(tokens: &Vec<Token>) -> (r: (Vec<ParsedStatement>, Vec<FogError>))
    requires
        tokens@.len() < usize::MAX,
    ensures
        (statement_views(r.0@), error_views(r.1@)) == spec_parse(token_views(tokens@)),
{
    Parser::parse(tokens)
}

/// A parse error with `message` at `span`.
pub(crate) fn error_at(message: &str, span: Option<Span>) -> (e: FogError)
    ensures
        e@ == parse_error(message@, span),
{
    FogError::new(ErrorKind::Parse, string_from(message), span)
}

/// The head of an application and its arguments, in order.
fn uncurry(t: CoreAtomicTypeExpr) -> (r: (CoreAtomicTypeExpr, Vec<CoreAtomicTypeExpr>))
    ensures
        r.0@ == spec_uncurry(t@).0,
        atomic_type_expr_views(r.1@) == spec_uncurry(t@).1,
    decreases t,
{
    match t {
        CoreAtomicTypeExpr::FunctionAppl { callee, arg, .. } => {
            let (head, mut args) = uncurry(*callee);
            let ghost before = args@;
            args.push(*arg);
            proof {
                lemma_atomic_type_expr_views_push(before, *arg);
            }
            (head, args)
        },
        _ => {
            proof {
                assert(atomic_type_expr_views(Seq::<CoreAtomicTypeExpr>::empty()) =~= Seq::<AtomicTypeExprModel>::empty());
            }
            (t, Vec::new())
        },
    }
}

/// A summand of a sum type read as a data constructor.
fn data_constructor_of(t: CoreAtomicTypeExpr) -> (r: FogResult<CoreDataConstructor>)
    ensures
        agrees(r, spec_data_constructor_of(t@)),
{
    match t {
        CoreAtomicTypeExpr::Identifier { name, .. } => {
            proof {
                assert(atomic_type_expr_views(Seq::<CoreAtomicTypeExpr>::empty()) =~= Seq::<AtomicTypeExprModel>::empty());
            }
            Ok(CoreDataConstructor { tag: name, types: Vec::new() })
        },
        CoreAtomicTypeExpr::FunctionAppl { .. } => {
            let (head, types) = uncurry(t);
            match head {
                CoreAtomicTypeExpr::Identifier { name, .. } => Ok(CoreDataConstructor { tag: name, types }),
                _ => Err(error_at("expected identifier", Some(head.span()))),
            }
        },
        _ => {
            let text = t.to_text();
            let mut message = string_from("invalid data constructor `");
            message.append(text.as_str());
            message.append("`");
            Err(FogError::new(ErrorKind::Parse, message, Some(t.span())))
        },
    }
}

/// The summands of a sum type read as data constructors; the first that is
/// not one is an error.
fn data_constructors_of(summands: Vec<CoreAtomicTypeExpr>) -> (r: FogResult<Vec<CoreDataConstructor>>)
    ensures
        match spec_data_constructors_of(atomic_type_expr_views(summands@)) {
            Ok(m) => r matches Ok(v) && data_constructor_views(v@) == m,
            Err(e) => r matches Err(x) && x@ == e,
        },
    decreases summands@.len(),
{
    let mut summands = summands;
    let ghost all = summands@;
    match summands.pop() {
        None => {
            proof {
                assert(atomic_type_expr_views(all) =~= Seq::<AtomicTypeExprModel>::empty());
                assert(data_constructor_views(Seq::<CoreDataConstructor>::empty()) =~= Seq::<DataConstructorModel>::empty());
            }
            Ok(Vec::new())
        },
        Some(last) => {
            proof {
                assert(all =~= summands@.push(last));
                lemma_atomic_type_expr_views_push(summands@, last);
                assert(atomic_type_expr_views(all).drop_last() =~= atomic_type_expr_views(summands@));
            }
            match data_constructors_of(summands) {
                Err(e) => Err(e),
                Ok(mut ctors) => match data_constructor_of(last) {
                    Err(e) => Err(e),
                    Ok(c) => {
                        let ghost before = ctors@;
                        ctors.push(c);
                        proof {
                            assert(data_constructor_views(ctors@) =~= data_constructor_views(before).push(c@));
                        }
                        Ok(ctors)
                    },
                },
            }
        },
    }
}

pub struct Parser<'a> {
    tokens: &'a Vec<Token>,
    pos: usize,
    eof_token: Token,
}

impl<'a> Parser<'a> {
    pub closed spec fn toks(&self) -> Seq<TokenModel> {
        token_views(self.tokens@)
    }

    pub closed spec fn at(&self) -> int {
        self.pos as int
    }

    pub closed spec fn wf(&self) -> bool {
        &&& self.pos <= self.tokens@.len() + 1
        &&& self.tokens@.len() < usize::MAX
        &&& self.eof_token@ == eof_token(self.toks())
    }

    fn new(tokens: &'a Vec<Token>) -> (parser: Parser<'a>)
        requires
            tokens@.len() < usize::MAX,
        ensures
            parser.wf(),
            parser.toks() == token_views(tokens@),
            parser.at() == 0,
    {
        let eof_pos = if tokens.len() == 0 {
            Pos { line: 1, column: 1 }
        } else {
            tokens[tokens.len() - 1].span.end
        };
        let eof_token = Token { kind: TokenKind::Eof, span: Span::new(eof_pos, eof_pos) };
        Parser { tokens, pos: 0, eof_token }
    }

    fn next(&mut self)
        requires
            old(self).wf(),
            old(self).at() <= old(self).toks().len(),
        ensures
            final(self).wf(),
            final(self).toks() == old(self).toks(),
            final(self).at() == old(self).at() + 1,
    {
        self.pos = self.pos + 1;
    }

    fn peek(&self) -> (token: &Token)
        requires
            self.wf(),
        ensures
            token@ == peek(self.toks(), self.at()),
    {
        if self.pos < self.tokens.len() {
            &self.tokens[self.pos]
        } else {
            &self.eof_token
        }
    }

    fn peek_offset(&self, offset: i32) -> (token: &Token)
        requires
            self.wf(),
            offset >= 0,
        ensures
            token@ == peek(self.toks(), self.at() + offset),
    {
        let off = offset as usize;
        if self.pos < self.tokens.len() && off < self.tokens.len() - self.pos {
            &self.tokens[self.pos + off]
        } else {
            &self.eof_token
        }
    }

    fn skip_newlines(&mut self)
        requires
            old(self).wf(),
        ensures
            final(self).wf(),
            final(self).toks() == old(self).toks(),
            final(self).at() == skip_newlines(old(self).toks(), old(self).at()),
            old(self).at() <= final(self).at() <= old(self).toks().len() + 1,
            old(self).at() <= old(self).toks().len() ==> final(self).at() <= old(self).toks().len(),
    {
        let ghost start = self.pos as int;
        while self.pos < self.tokens.len() && matches!(self.tokens[self.pos].kind, TokenKind::Newline)
            invariant
                self.wf(),
                self.toks() == old(self).toks(),
                start == old(self).at(),
                start <= self.at() <= self.toks().len() + 1,
                start <= self.toks().len() ==> self.at() <= self.toks().len(),
                self.at() > start ==> self.at() <= self.toks().len(),
                skip_newlines(self.toks(), self.at()) == skip_newlines(self.toks(), start),
            decreases self.toks().len() - self.at(),
        {
            self.pos = self.pos + 1;
        }
    }


    // --- kind expressions ---

    fn parse_kind_expr(&mut self) -> (r: FogResult<CoreKindExpr>)
        requires
            old(self).wf(),
            old(self).at() <= old(self).toks().len(),
        ensures
            final(self).wf(),
            final(self).toks() == old(self).toks(),
            agrees(r, spec_parse_kind_expr(old(self).toks(), old(self).at()).0),
            final(self).at() == spec_parse_kind_expr(old(self).toks(), old(self).at()).1,
            old(self).at() <= final(self).at() <= old(self).toks().len() + 1,
            r is Ok ==> final(self).at() <= old(self).toks().len(),
            r is Ok ==> old(self).at() < final(self).at(),
        decreases old(self).toks().len() + 1 - old(self).at(), 9int,
    {
        let start_span = self.peek().span;
        let atom = match self.parse_kind_atom_expr() {
            Ok(atom) => atom,
            Err(e) => return Err(e),
        };
        if matches!(self.peek().kind, TokenKind::Arrow) {
            self.next();
            match self.parse_kind_expr() {
                Ok(rhs) => Ok(
                    CoreKindExpr::Function { param_kind: Box::new(atom), return_kind: Box::new(rhs), span: start_span },
                ),
                Err(e) => Err(e),
            }
        } else {
            Ok(atom)
        }
    }

    fn parse_kind_atom_expr(&mut self) -> (r: FogResult<CoreKindExpr>)
        requires
            old(self).wf(),
            old(self).at() <= old(self).toks().len(),
        ensures
            final(self).wf(),
            final(self).toks() == old(self).toks(),
            agrees(r, spec_parse_kind_atom_expr(old(self).toks(), old(self).at()).0),
            final(self).at() == spec_parse_kind_atom_expr(old(self).toks(), old(self).at()).1,
            old(self).at() <= final(self).at() <= old(self).toks().len() + 1,
            r is Ok ==> final(self).at() <= old(self).toks().len(),
            r is Ok ==> old(self).at() < final(self).at(),
        decreases old(self).toks().len() + 1 - old(self).at(), 8int,
    {
        let span = self.peek().span;
        let kind = self.peek().kind.copy();
        match kind {
            TokenKind::Identifier(name) => {
                self.next();
                if str_eq(name.as_str(), "Type") {
                    Ok(CoreKindExpr::Type { span })
                } else if str_eq(name.as_str(), "Constraint") {
                    Ok(CoreKindExpr::Constraint { span })
                } else {
                    Err(error_at("expected `Type`, `Constraint`, or `(`", Some(span)))
                }
            },
            TokenKind::LeftParenthesis => {
                self.next();
                match self.parse_kind_expr() {
                    Ok(e) => if matches!(self.peek().kind, TokenKind::RightParenthesis) {
                        self.next();
                        Ok(e)
                    } else {
                        Err(error_at("expected `)`", Some(span)))
                    },
                    Err(e) => Err(e),
                }
            },
            _ => {
                self.next();
                Err(error_at("expected `Type`, `Constraint`, or `(`", Some(span)))
            },
        }
    }

    // --- type expressions ---

    fn parse_type_expr(&mut self) -> (r: FogResult<CoreTypeExpr>)
        requires
            old(self).wf(),
            old(self).at() <= old(self).toks().len(),
        ensures
            final(self).wf(),
            final(self).toks() == old(self).toks(),
            agrees(r, spec_parse_type_expr(old(self).toks(), old(self).at()).0),
            final(self).at() == spec_parse_type_expr(old(self).toks(), old(self).at()).1,
            old(self).at() <= final(self).at() <= old(self).toks().len() + 1,
            r is Ok ==> final(self).at() <= old(self).toks().len(),
            r is Ok ==> old(self).at() < final(self).at(),
        decreases old(self).toks().len() + 1 - old(self).at(), 16int,
    {
        let start_span = self.peek().span;
        let first = match self.parse_atomic_type_expr() {
            Ok(first) => first,
            Err(e) => return Err(e),
        };
        if matches!(self.peek().kind, TokenKind::Plus) {
            let mut summands: Vec<CoreAtomicTypeExpr> = Vec::new();
            summands.push(first);
            proof {
                lemma_atomic_type_expr_views_push(Seq::empty(), first);
                assert(Seq::<CoreAtomicTypeExpr>::empty().push(first) =~= summands@);
                assert(atomic_type_expr_views(Seq::empty()) =~= Seq::<AtomicTypeExprModel>::empty());
                assert(seq![first@] =~= Seq::<AtomicTypeExprModel>::empty().push(first@));
            }
            match self.parse_sum_loop(summands) {
                Ok(summands) => {
                    let span = Span::merge(start_span, summands[summands.len() - 1].span());
                    proof {
                        lemma_atomic_type_expr_views(summands@);
                    }
                    match data_constructors_of(summands) {
                        Ok(ctors) => Ok(CoreTypeExpr::Sum { ctors, span }),
                        Err(e) => Err(e),
                    }
                },
                Err(e) => Err(e),
            }
        } else {
            Ok(CoreTypeExpr::Atomic(first))
        }
    }

    fn parse_sum_loop(&mut self, first: Vec<CoreAtomicTypeExpr>) -> (r: FogResult<Vec<CoreAtomicTypeExpr>>)
        requires
            old(self).wf(),
            old(self).at() <= old(self).toks().len(),
        ensures
            final(self).wf(),
            final(self).toks() == old(self).toks(),
            match spec_parse_sum_loop(old(self).toks(), old(self).at(), atomic_type_expr_views(first@)).0 {
                Ok(m) => r matches Ok(v) && atomic_type_expr_views(v@) == m && v@.len() >= first@.len(),
                Err(e) => r matches Err(x) && x@ == e,
            },
            final(self).at() == spec_parse_sum_loop(old(self).toks(), old(self).at(), atomic_type_expr_views(first@)).1,
            old(self).at() <= final(self).at() <= old(self).toks().len() + 1,
            r is Ok ==> final(self).at() <= old(self).toks().len(),
        decreases old(self).toks().len() + 1 - old(self).at(), 17int,
    {
        let mut summands = first;
        let ghost len0 = summands@.len();
        let ghost init = atomic_type_expr_views(summands@);
        while matches!(self.peek().kind, TokenKind::Plus)
            invariant
                self.wf(),
                self.toks() == old(self).toks(),
                old(self).at() <= self.at() <= self.toks().len(),
                summands@.len() >= len0,
                len0 == first@.len(),
                init == atomic_type_expr_views(first@),
                spec_parse_sum_loop(self.toks(), self.at(), atomic_type_expr_views(summands@))
                    == spec_parse_sum_loop(old(self).toks(), old(self).at(), init),
            decreases self.toks().len() + 1 - self.at(),
        {
            let ghost head = self.at();
            self.next();
            match self.parse_atomic_type_expr() {
                Ok(t) => {
                    let ghost before = summands@;
                    summands.push(t);
                    proof {
                        lemma_atomic_type_expr_views_push(before, t);
                    }
                },
                Err(e) => {
                    assert(spec_parse_sum_loop(self.toks(), head, atomic_type_expr_views(summands@)) == (
                        Err::<Seq<AtomicTypeExprModel>, ErrorModel>(e@),
                        self.at(),
                    ));
                    return Err(e);
                },
            }
        }
        Ok(summands)
    }

    fn parse_atomic_type_expr(&mut self) -> (r: FogResult<CoreAtomicTypeExpr>)
        requires
            old(self).wf(),
            old(self).at() <= old(self).toks().len(),
        ensures
            final(self).wf(),
            final(self).toks() == old(self).toks(),
            agrees(r, spec_parse_atomic_type_expr(old(self).toks(), old(self).at()).0),
            final(self).at() == spec_parse_atomic_type_expr(old(self).toks(), old(self).at()).1,
            old(self).at() <= final(self).at() <= old(self).toks().len() + 1,
            r is Ok ==> final(self).at() <= old(self).toks().len(),
            r is Ok ==> old(self).at() < final(self).at(),
        decreases old(self).toks().len() + 1 - old(self).at(), 15int,
    {
        let param_type = match self.parse_product_type_expr() {
            Ok(t) => t,
            Err(e) => return Err(e),
        };
        if matches!(self.peek().kind, TokenKind::Arrow) {
            self.next();
            match self.parse_atomic_type_expr() {
                Ok(return_type) => {
                    let span = Span::merge(param_type.span(), return_type.span());
                    Ok(
                        CoreAtomicTypeExpr::Function {
                            param_type: Box::new(param_type),
                            return_type: Box::new(return_type),
                            span,
                        },
                    )
                },
                Err(e) => Err(e),
            }
        } else {
            Ok(param_type)
        }
    }

    fn parse_product_type_expr(&mut self) -> (r: FogResult<CoreAtomicTypeExpr>)
        requires
            old(self).wf(),
            old(self).at() <= old(self).toks().len(),
        ensures
            final(self).wf(),
            final(self).toks() == old(self).toks(),
            agrees(r, spec_parse_product_type_expr(old(self).toks(), old(self).at()).0),
            final(self).at() == spec_parse_product_type_expr(old(self).toks(), old(self).at()).1,
            old(self).at() <= final(self).at() <= old(self).toks().len() + 1,
            r is Ok ==> final(self).at() <= old(self).toks().len(),
            r is Ok ==> old(self).at() < final(self).at(),
        decreases old(self).toks().len() + 1 - old(self).at(), 14int,
    {
        let start_span = self.peek().span;
        let first = match self.parse_application_type_expr() {
            Ok(t) => t,
            Err(e) => return Err(e),
        };
        if matches!(self.peek().kind, TokenKind::Star) {
            let mut types: Vec<CoreAtomicTypeExpr> = Vec::new();
            types.push(first);
            proof {
                lemma_atomic_type_expr_views_push(Seq::empty(), first);
                assert(Seq::<CoreAtomicTypeExpr>::empty().push(first) =~= types@);
                assert(atomic_type_expr_views(Seq::empty()) =~= Seq::<AtomicTypeExprModel>::empty());
                assert(seq![first@] =~= Seq::<AtomicTypeExprModel>::empty().push(first@));
            }
            match self.parse_product_loop(types) {
                Ok(types) => {
                    let span = Span::merge(start_span, types[types.len() - 1].span());
                    proof {
                        lemma_atomic_type_expr_views(types@);
                    }
                    Ok(CoreAtomicTypeExpr::Product { types, span })
                },
                Err(e) => Err(e),
            }
        } else {
            Ok(first)
        }
    }

    fn parse_product_loop(&mut self, first: Vec<CoreAtomicTypeExpr>) -> (r: FogResult<Vec<CoreAtomicTypeExpr>>)
        requires
            old(self).wf(),
            old(self).at() <= old(self).toks().len(),
        ensures
            final(self).wf(),
            final(self).toks() == old(self).toks(),
            match spec_parse_product_loop(old(self).toks(), old(self).at(), atomic_type_expr_views(first@)).0 {
                Ok(m) => r matches Ok(v) && atomic_type_expr_views(v@) == m && v@.len() >= first@.len(),
                Err(e) => r matches Err(x) && x@ == e,
            },
            final(self).at() == spec_parse_product_loop(old(self).toks(), old(self).at(), atomic_type_expr_views(first@)).1,
            old(self).at() <= final(self).at() <= old(self).toks().len() + 1,
            r is Ok ==> final(self).at() <= old(self).toks().len(),
        decreases old(self).toks().len() + 1 - old(self).at(), 13int,
    {
        let mut types = first;
        let ghost len0 = types@.len();
        let ghost init = atomic_type_expr_views(types@);
        while matches!(self.peek().kind, TokenKind::Star)
            invariant
                self.wf(),
                self.toks() == old(self).toks(),
                old(self).at() <= self.at() <= self.toks().len(),
                types@.len() >= len0,
                len0 == first@.len(),
                init == atomic_type_expr_views(first@),
                spec_parse_product_loop(self.toks(), self.at(), atomic_type_expr_views(types@))
                    == spec_parse_product_loop(old(self).toks(), old(self).at(), init),
            decreases self.toks().len() + 1 - self.at(),
        {
            let ghost head = self.at();
            self.next();
            match self.parse_application_type_expr() {
                Ok(t) => {
                    let ghost before = types@;
                    types.push(t);
                    proof {
                        lemma_atomic_type_expr_views_push(before, t);
                    }
                },
                Err(e) => {
                    assert(spec_parse_product_loop(self.toks(), head, atomic_type_expr_views(types@)) == (
                        Err::<Seq<AtomicTypeExprModel>, ErrorModel>(e@),
                        self.at(),
                    ));
                    return Err(e);
                },
            }
        }
        Ok(types)
    }

    fn parse_application_type_expr(&mut self) -> (r: FogResult<CoreAtomicTypeExpr>)
        requires
            old(self).wf(),
            old(self).at() <= old(self).toks().len(),
        ensures
            final(self).wf(),
            final(self).toks() == old(self).toks(),
            agrees(r, spec_parse_application_type_expr(old(self).toks(), old(self).at()).0),
            final(self).at() == spec_parse_application_type_expr(old(self).toks(), old(self).at()).1,
            old(self).at() <= final(self).at() <= old(self).toks().len() + 1,
            r is Ok ==> final(self).at() <= old(self).toks().len(),
            r is Ok ==> old(self).at() < final(self).at(),
        decreases old(self).toks().len() + 1 - old(self).at(), 12int,
    {
        let start_span = self.peek().span;
        match self.parse_primary_type_expr() {
            Ok(callee) => self.parse_application_loop(callee, start_span),
            Err(e) => Err(e),
        }
    }

    fn parse_application_loop(&mut self, head: CoreAtomicTypeExpr, start_span: Span) -> (r: FogResult<
        CoreAtomicTypeExpr,
    >)
        requires
            old(self).wf(),
            old(self).at() <= old(self).toks().len(),
        ensures
            final(self).wf(),
            final(self).toks() == old(self).toks(),
            agrees(r, spec_parse_application_loop(old(self).toks(), old(self).at(), head@, start_span).0),
            final(self).at() == spec_parse_application_loop(old(self).toks(), old(self).at(), head@, start_span).1,
            old(self).at() <= final(self).at() <= old(self).toks().len() + 1,
            r is Ok ==> final(self).at() <= old(self).toks().len(),
        decreases old(self).toks().len() + 1 - old(self).at(), 11int,
    {
        let mut callee = head;
        let ghost init = callee@;
        while matches!(self.peek().kind, TokenKind::Identifier(_) | TokenKind::LeftParenthesis)
            invariant
                self.wf(),
                self.toks() == old(self).toks(),
                old(self).at() <= self.at() <= self.toks().len(),
                init == head@,
                spec_parse_application_loop(self.toks(), self.at(), callee@, start_span)
                    == spec_parse_application_loop(old(self).toks(), old(self).at(), init, start_span),
            decreases self.toks().len() + 1 - self.at(),
        {
            let ghost at_head = self.at();
            match self.parse_primary_type_expr() {
                Ok(arg) => {
                    let span = Span::merge(start_span, arg.span());
                    callee = CoreAtomicTypeExpr::FunctionAppl { callee: Box::new(callee), arg: Box::new(arg), span };
                },
                Err(e) => {
                    assert(spec_parse_application_loop(self.toks(), at_head, callee@, start_span) == (
                        Err::<AtomicTypeExprModel, ErrorModel>(e@),
                        self.at(),
                    ));
                    return Err(e);
                },
            }
        }
        Ok(callee)
    }

    fn parse_primary_type_expr(&mut self) -> (r: FogResult<CoreAtomicTypeExpr>)
        requires
            old(self).wf(),
            old(self).at() <= old(self).toks().len(),
        ensures
            final(self).wf(),
            final(self).toks() == old(self).toks(),
            agrees(r, spec_parse_primary_type_expr(old(self).toks(), old(self).at()).0),
            final(self).at() == spec_parse_primary_type_expr(old(self).toks(), old(self).at()).1,
            old(self).at() <= final(self).at() <= old(self).toks().len() + 1,
            r is Ok ==> final(self).at() <= old(self).toks().len(),
            r is Ok ==> old(self).at() < final(self).at(),
        decreases old(self).toks().len() + 1 - old(self).at(), 10int,
    {
        let span = self.peek().span;
        let kind = self.peek().kind.copy();
        match kind {
            TokenKind::Identifier(name) => {
                self.next();
                Ok(CoreAtomicTypeExpr::Identifier { name, span })
            },
            TokenKind::LeftParenthesis => {
                self.next();
                match self.parse_atomic_type_expr() {
                    Ok(t) => if matches!(self.peek().kind, TokenKind::RightParenthesis) {
                        self.next();
                        Ok(t)
                    } else {
                        Err(error_at("expected `)`", Some(span)))
                    },
                    Err(e) => Err(e),
                }
            },
            _ => {
                self.next();
                Err(error_at("expected a type expression", Some(span)))
            },
        }
    }

    // --- statements and value expressions ---

    /// One statement of a program or a block.
    fn parse_block_statement(&mut self) -> (r: FogResult<ParsedStatement>)
        requires
            old(self).wf(),
            old(self).at() <= old(self).toks().len(),
        ensures
            final(self).wf(),
            final(self).toks() == old(self).toks(),
            agrees(r, spec_parse_block_statement(old(self).toks(), old(self).at()).0),
            final(self).at() == spec_parse_block_statement(old(self).toks(), old(self).at()).1,
            old(self).at() <= final(self).at() <= old(self).toks().len() + 1,
            r is Ok ==> final(self).at() <= old(self).toks().len(),
            r is Ok ==> old(self).at() < final(self).at(),
        decreases old(self).toks().len() + 1 - old(self).at(), 37int,
    {
        let start_span = self.peek().span;
        let head = self.peek().kind.copy();
        let ahead_colon = matches!(self.peek_offset(1).kind, TokenKind::Colon);
        let ahead_equal = matches!(self.peek_offset(1).kind, TokenKind::Equal);
        match head {
            TokenKind::Identifier(name) => {
                if ahead_colon {
                    self.parse_annotation(name, start_span)
                } else if ahead_equal {
                    self.parse_declaration(name, start_span)
                } else {
                    self.parse_expression_statement()
                }
            },
            _ => self.parse_expression_statement(),
        }
    }

    /// `name : kind` or `name : type`.
    fn parse_annotation(&mut self, name: String, start_span: Span) -> (r: FogResult<ParsedStatement>)
        requires
            old(self).wf(),
            old(self).at() <= old(self).toks().len(),
            peek(old(self).toks(), old(self).at()).kind == TokenKindModel::Identifier(name@),
            peek(old(self).toks(), old(self).at() + 1).kind is Colon,
            start_span == peek(old(self).toks(), old(self).at()).span,
        ensures
            final(self).wf(),
            final(self).toks() == old(self).toks(),
            agrees(r, spec_parse_block_statement(old(self).toks(), old(self).at()).0),
            final(self).at() == spec_parse_block_statement(old(self).toks(), old(self).at()).1,
            old(self).at() <= final(self).at() <= old(self).toks().len() + 1,
            r is Ok ==> final(self).at() <= old(self).toks().len(),
            r is Ok ==> old(self).at() < final(self).at(),
    {
        self.next();
        self.next();
        if is_type_name(name.as_str()) {
            match self.parse_kind_expr() {
                Ok(expr) => {
                    let span = Span::merge(start_span, expr.span());
                    Ok(ParsedStatement::KindAnnotation { name, expr, span })
                },
                Err(e) => Err(e),
            }
        } else {
            match self.parse_atomic_type_expr() {
                Ok(expr) => {
                    let span = Span::merge(start_span, expr.span());
                    Ok(
                        ParsedStatement::TypeAnnotation {
                            pattern: ParsedDeclPattern::Identifier { name, span: start_span },
                            expr,
                            span,
                        },
                    )
                },
                Err(e) => Err(e),
            }
        }
    }

    /// `Name = type` or `name = expression`.
    fn parse_declaration(&mut self, name: String, start_span: Span) -> (r: FogResult<ParsedStatement>)
        requires
            old(self).wf(),
            old(self).at() <= old(self).toks().len(),
            peek(old(self).toks(), old(self).at()).kind == TokenKindModel::Identifier(name@),
            peek(old(self).toks(), old(self).at() + 1).kind is Equal,
            start_span == peek(old(self).toks(), old(self).at()).span,
        ensures
            final(self).wf(),
            final(self).toks() == old(self).toks(),
            agrees(r, spec_parse_block_statement(old(self).toks(), old(self).at()).0),
            final(self).at() == spec_parse_block_statement(old(self).toks(), old(self).at()).1,
            old(self).at() <= final(self).at() <= old(self).toks().len() + 1,
            r is Ok ==> final(self).at() <= old(self).toks().len(),
            r is Ok ==> old(self).at() < final(self).at(),
        decreases old(self).toks().len() + 1 - old(self).at(), 36int,
    {
        self.next();
        self.next();
        if matches!(self.peek().kind, TokenKind::Newline) {
            self.next();
        }
        if is_type_name(name.as_str()) {
            match self.parse_type_expr() {
                Ok(expr) => {
                    let span = Span::merge(start_span, expr.span());
                    Ok(ParsedStatement::TypeDeclaration { name, expr, span })
                },
                Err(e) => Err(e),
            }
        } else {
            match self.parse_expr() {
                Ok(expr) => {
                    let span = Span::merge(start_span, expr.span());
                    Ok(
                        ParsedStatement::VarDeclaration {
                            pattern: ParsedDeclPattern::Identifier { name, span: start_span },
                            expr,
                            span,
                        },
                    )
                },
                Err(e) => Err(e),
            }
        }
    }

    /// A tuple declaration, a function clause, or an expression.
    fn parse_expression_statement(&mut self) -> (r: FogResult<ParsedStatement>)
        requires
            old(self).wf(),
            old(self).at() <= old(self).toks().len(),
            !(peek(old(self).toks(), old(self).at()).kind is Identifier && (peek(
                old(self).toks(),
                old(self).at() + 1,
            ).kind is Colon || peek(old(self).toks(), old(self).at() + 1).kind is Equal)),
        ensures
            final(self).wf(),
            final(self).toks() == old(self).toks(),
            agrees(r, spec_parse_block_statement(old(self).toks(), old(self).at()).0),
            final(self).at() == spec_parse_block_statement(old(self).toks(), old(self).at()).1,
            old(self).at() <= final(self).at() <= old(self).toks().len() + 1,
            r is Ok ==> final(self).at() <= old(self).toks().len(),
            r is Ok ==> old(self).at() < final(self).at(),
        decreases old(self).toks().len() + 1 - old(self).at(), 36int,
    {
        let expr = match self.parse_expr() {
            Ok(expr) => expr,
            Err(e) => return Err(e),
        };
        if matches!(self.peek().kind, TokenKind::Equal) {
            self.next();
            let pattern = match expr.into_decl_pattern() {
                Ok(pattern) => pattern,
                Err(e) => return Err(e),
            };
            match self.parse_expr() {
                Ok(expr) => {
                    let span = Span::merge(pattern.span(), expr.span());
                    Ok(ParsedStatement::VarDeclaration { pattern, expr, span })
                },
                Err(e) => Err(e),
            }
        } else {
            let span = expr.span();
            Ok(ParsedStatement::Expression { expr, span })
        }
    }

    /// An expression: atoms and operators side by side.
    fn parse_expr(&mut self) -> (r: FogResult<ParsedValueExpr>)
        requires
            old(self).wf(),
            old(self).at() <= old(self).toks().len(),
        ensures
            final(self).wf(),
            final(self).toks() == old(self).toks(),
            agrees(r, spec_parse_expr(old(self).toks(), old(self).at()).0),
            final(self).at() == spec_parse_expr(old(self).toks(), old(self).at()).1,
            old(self).at() <= final(self).at() <= old(self).toks().len() + 1,
            r is Ok ==> final(self).at() <= old(self).toks().len(),
            r is Ok ==> old(self).at() < final(self).at(),
        decreases old(self).toks().len() + 1 - old(self).at(), 29int,
    {
        let start_span = self.peek().span;
        let mut args: Vec<ParsedValueExpr> = Vec::new();
        proof {
            assert(value_expr_views(args@) =~= Seq::<ValueExprModel>::empty());
        }
        loop
            invariant_except_break
                self.wf(),
                self.toks() == old(self).toks(),
                old(self).at() <= self.at() <= self.toks().len(),
                args@.len() > 0 ==> old(self).at() < self.at(),
                start_span == peek(old(self).toks(), old(self).at()).span,
                spec_parse_expr_loop(self.toks(), self.at(), value_expr_views(args@), start_span)
                    == spec_parse_expr(old(self).toks(), old(self).at()),
            ensures
                self.wf(),
                self.toks() == old(self).toks(),
                old(self).at() < self.at() <= self.toks().len(),
                args@.len() > 0,
                spec_parse_expr(old(self).toks(), old(self).at()) == (
                    Ok::<ValueExprModel, ErrorModel>(collection_of(value_expr_views(args@), start_span)),
                    self.at(),
                ),
            decreases self.toks().len() + 1 - self.at(),
        {
            let ghost at_head = self.at();
            let ghost views_head = value_expr_views(args@);
            let atom = match self.parse_atomic() {
                Ok(atom) => atom,
                Err(e) => return Err(e),
            };
            let ghost before = args@;
            args.push(atom);
            proof {
                lemma_value_expr_views_push(before, atom);
            }
            let token_span = self.peek().span;
            match OpKind::from_token(self.peek()) {
                Some(kind) => {
                    let op = ParsedValueExpr::Op { kind, span: token_span };
                    let ghost before = args@;
                    args.push(op);
                    proof {
                        lemma_value_expr_views_push(before, op);
                    }
                    self.next();
                },
                None => {
                    if !self.peek().kind.is_primary_starter() {
                        break;
                    }
                },
            }
        }
        proof {
            lemma_value_expr_views(args@);
        }
        if args.len() == 1 {
            let only = args.pop().unwrap();
            Ok(only)
        } else {
            let span = Span::merge(start_span, args[args.len() - 1].span());
            Ok(ParsedValueExpr::Collection { items: args, span })
        }
    }

    /// An atom of an expression.
    fn parse_atomic(&mut self) -> (r: FogResult<ParsedValueExpr>)
        requires
            old(self).wf(),
            old(self).at() <= old(self).toks().len(),
        ensures
            final(self).wf(),
            final(self).toks() == old(self).toks(),
            agrees(r, spec_parse_atomic(old(self).toks(), old(self).at()).0),
            final(self).at() == spec_parse_atomic(old(self).toks(), old(self).at()).1,
            old(self).at() <= final(self).at() <= old(self).toks().len() + 1,
            r is Ok ==> final(self).at() <= old(self).toks().len(),
            r is Ok ==> old(self).at() < final(self).at(),
        decreases old(self).toks().len() + 1 - old(self).at(), 27int,
    {
        let span = self.peek().span;
        let kind = self.peek().kind.copy();
        match kind {
            TokenKind::Int32Literal(value) => {
                self.next();
                Ok(ParsedValueExpr::Literal { literal: Literal::Int32(value), span })
            },
            TokenKind::Float32Literal(text) => {
                self.next();
                Ok(ParsedValueExpr::Literal { literal: Literal::Float32(text), span })
            },
            TokenKind::Minus => {
                self.next();
                Ok(ParsedValueExpr::Op { kind: OpKind::Minus, span })
            },
            TokenKind::Identifier(name) => self.parse_identifier_or_lambda(name, span),
            TokenKind::LeftParenthesis => self.parse_parenthesized(span),
            TokenKind::LeftBrace => {
                self.next();
                match self.parse_block() {
                    Ok((statements, close_span)) => Ok(
                        ParsedValueExpr::Block { statements, span: Span::merge(span, close_span) },
                    ),
                    Err(e) => Err(e),
                }
            },
            TokenKind::Match => self.parse_match(span),
            _ => {
                self.next();
                Err(error_at("atomic expression parsing error", Some(span)))
            },
        }
    }

    /// An identifier, or a lambda `name: type => body`.
    fn parse_identifier_or_lambda(&mut self, name: String, span: Span) -> (r: FogResult<ParsedValueExpr>)
        requires
            old(self).wf(),
            old(self).at() <= old(self).toks().len(),
            peek(old(self).toks(), old(self).at()).kind == TokenKindModel::Identifier(name@),
            span == peek(old(self).toks(), old(self).at()).span,
        ensures
            final(self).wf(),
            final(self).toks() == old(self).toks(),
            agrees(r, spec_parse_atomic(old(self).toks(), old(self).at()).0),
            final(self).at() == spec_parse_atomic(old(self).toks(), old(self).at()).1,
            old(self).at() <= final(self).at() <= old(self).toks().len() + 1,
            r is Ok ==> final(self).at() <= old(self).toks().len(),
            r is Ok ==> old(self).at() < final(self).at(),
        decreases old(self).toks().len() + 1 - old(self).at(), 26int,
    {
        self.next();
        if matches!(self.peek().kind, TokenKind::Colon) {
            self.next();
            let param_type = match self.parse_atomic_type_expr() {
                Ok(t) => t,
                Err(e) => return Err(e),
            };
            if !matches!(self.peek().kind, TokenKind::FatArrow) {
                return Err(error_at("expected `=>`", Some(self.peek().span)));
            }
            self.next();
            if matches!(self.peek().kind, TokenKind::Newline) {
                self.next();
            }
            match self.parse_expr() {
                Ok(body) => {
                    let lambda_span = Span::merge(span, body.span());
                    Ok(ParsedValueExpr::Lambda { param_name: name, param_type, body: Box::new(body), span: lambda_span })
                },
                Err(e) => Err(e),
            }
        } else {
            Ok(ParsedValueExpr::Identifier { name, span })
        }
    }

    /// `()`, an expression in parentheses, or a tuple.
    fn parse_parenthesized(&mut self, span: Span) -> (r: FogResult<ParsedValueExpr>)
        requires
            old(self).wf(),
            old(self).at() <= old(self).toks().len(),
            peek(old(self).toks(), old(self).at()).kind is LeftParenthesis,
            span == peek(old(self).toks(), old(self).at()).span,
        ensures
            final(self).wf(),
            final(self).toks() == old(self).toks(),
            agrees(r, spec_parse_atomic(old(self).toks(), old(self).at()).0),
            final(self).at() == spec_parse_atomic(old(self).toks(), old(self).at()).1,
            old(self).at() <= final(self).at() <= old(self).toks().len() + 1,
            r is Ok ==> final(self).at() <= old(self).toks().len(),
            r is Ok ==> old(self).at() < final(self).at(),
        decreases old(self).toks().len() + 1 - old(self).at(), 26int,
    {
        self.next();
        if matches!(self.peek().kind, TokenKind::RightParenthesis) {
            let close_span = self.peek().span;
            self.next();
            proof {
                assert(value_expr_views(Seq::<ParsedValueExpr>::empty()) =~= Seq::<ValueExprModel>::empty());
            }
            Ok(ParsedValueExpr::Tuple { items: Vec::new(), span: Span::merge(span, close_span) })
        } else {
            self.parse_tuple_items(span)
        }
    }

    /// `match scrutinee { arms }`.
    fn parse_match(&mut self, span: Span) -> (r: FogResult<ParsedValueExpr>)
        requires
            old(self).wf(),
            old(self).at() <= old(self).toks().len(),
            peek(old(self).toks(), old(self).at()).kind is Match,
            span == peek(old(self).toks(), old(self).at()).span,
        ensures
            final(self).wf(),
            final(self).toks() == old(self).toks(),
            agrees(r, spec_parse_atomic(old(self).toks(), old(self).at()).0),
            final(self).at() == spec_parse_atomic(old(self).toks(), old(self).at()).1,
            old(self).at() <= final(self).at() <= old(self).toks().len() + 1,
            r is Ok ==> final(self).at() <= old(self).toks().len(),
            r is Ok ==> old(self).at() < final(self).at(),
        decreases old(self).toks().len() + 1 - old(self).at(), 26int,
    {
        self.next();
        let scrutinee = match self.parse_expr() {
            Ok(e) => e,
            Err(e) => return Err(e),
        };
        if !matches!(self.peek().kind, TokenKind::LeftBrace) {
            return Err(error_at("expected `{`", Some(self.peek().span)));
        }
        self.next();
        match self.parse_match_arms() {
            Ok((match_arms, close_span)) => Ok(
                ParsedValueExpr::Match { scrutinee: Box::new(scrutinee), match_arms, span: Span::merge(span, close_span) },
            ),
            Err(e) => Err(e),
        }
    }

    /// The items of a parenthesized list after its opening parenthesis: one
    /// item is the item itself, more are a tuple.
    fn parse_tuple_items(&mut self, open_span: Span) -> (r: FogResult<ParsedValueExpr>)
        requires
            old(self).wf(),
            old(self).at() <= old(self).toks().len(),
        ensures
            final(self).wf(),
            final(self).toks() == old(self).toks(),
            agrees(r, spec_parse_tuple_items(old(self).toks(), old(self).at(), Seq::empty(), open_span).0),
            final(self).at() == spec_parse_tuple_items(old(self).toks(), old(self).at(), Seq::empty(), open_span).1,
            old(self).at() <= final(self).at() <= old(self).toks().len() + 1,
            r is Ok ==> final(self).at() <= old(self).toks().len(),
            r is Ok ==> old(self).at() < final(self).at(),
        decreases old(self).toks().len() + 1 - old(self).at(), 38int,
    {
        let mut items: Vec<ParsedValueExpr> = Vec::new();
        proof {
            assert(value_expr_views(items@) =~= Seq::<ValueExprModel>::empty());
        }
        loop
            invariant
                self.wf(),
                self.toks() == old(self).toks(),
                old(self).at() <= self.at() <= self.toks().len(),
                items@.len() > 0 ==> old(self).at() < self.at(),
                spec_parse_tuple_items(self.toks(), self.at(), value_expr_views(items@), open_span)
                    == spec_parse_tuple_items(old(self).toks(), old(self).at(), Seq::empty(), open_span),
            decreases self.toks().len() + 1 - self.at(),
        {
            let item = match self.parse_expr() {
                Ok(e) => e,
                Err(e) => return Err(e),
            };
            let ghost before = items@;
            items.push(item);
            proof {
                lemma_value_expr_views_push(before, item);
                lemma_value_expr_views(items@);
            }
            if matches!(self.peek().kind, TokenKind::RightParenthesis) {
                let close_span = self.peek().span;
                self.next();
                if items.len() == 1 {
                    let only = items.pop().unwrap();
                    return Ok(only);
                } else {
                    return Ok(ParsedValueExpr::Tuple { items, span: Span::merge(open_span, close_span) });
                }
            } else if matches!(self.peek().kind, TokenKind::Comma) {
                self.next();
            } else {
                return Err(error_at("expected `)`", Some(open_span)));
            }
        }
    }

    /// The arms of a match up to its closing brace, with its span.
    fn parse_match_arms(&mut self) -> (r: FogResult<(Vec<ParsedMatchArm>, Span)>)
        requires
            old(self).wf(),
            old(self).at() <= old(self).toks().len(),
        ensures
            final(self).wf(),
            final(self).toks() == old(self).toks(),
            match spec_parse_match_arms(old(self).toks(), old(self).at(), Seq::empty()).0 {
                Ok((arms, close)) => r matches Ok((v, s)) && match_arm_views(v@) == arms && s == close,
                Err(e) => r matches Err(x) && x@ == e,
            },
            final(self).at() == spec_parse_match_arms(old(self).toks(), old(self).at(), Seq::empty()).1,
            old(self).at() <= final(self).at() <= old(self).toks().len() + 1,
            r is Ok ==> final(self).at() <= old(self).toks().len(),
            r is Ok ==> old(self).at() < final(self).at(),
        decreases old(self).toks().len() + 1 - old(self).at(), 39int,
    {
        let mut arms: Vec<ParsedMatchArm> = Vec::new();
        proof {
            assert(match_arm_views(arms@) =~= Seq::<MatchArmModel>::empty());
        }
        loop
            invariant
                self.wf(),
                self.toks() == old(self).toks(),
                old(self).at() <= self.at() <= self.toks().len(),
                spec_parse_match_arms(self.toks(), self.at(), match_arm_views(arms@))
                    == spec_parse_match_arms(old(self).toks(), old(self).at(), Seq::empty()),
            decreases self.toks().len() + 1 - self.at(),
        {
            self.skip_newlines();
            if matches!(self.peek().kind, TokenKind::Eof) {
                return Err(error_at("unclosed match", None));
            }
            if matches!(self.peek().kind, TokenKind::RightBrace) {
                let close_span = self.peek().span;
                self.next();
                return Ok((arms, close_span));
            }
            let pattern = match self.parse_expr() {
                Ok(e) => e,
                Err(e) => return Err(e),
            };
            if !matches!(self.peek().kind, TokenKind::FatArrow) {
                return Err(error_at("expected `=>`", Some(self.peek().span)));
            }
            self.next();
            if matches!(self.peek().kind, TokenKind::Newline) {
                self.next();
            }
            let value_expr = match self.parse_expr() {
                Ok(e) => e,
                Err(e) => return Err(e),
            };
            let arm = ParsedMatchArm { pattern, value_expr };
            let ghost before = arms@;
            arms.push(arm);
            proof {
                lemma_match_arm_views_push(before, arm);
            }
        }
    }

    /// The statements of a block up to its closing brace, with its span.
    fn parse_block(&mut self) -> (r: FogResult<(Vec<ParsedStatement>, Span)>)
        requires
            old(self).wf(),
            old(self).at() <= old(self).toks().len(),
        ensures
            final(self).wf(),
            final(self).toks() == old(self).toks(),
            match spec_parse_block(old(self).toks(), old(self).at(), Seq::empty()).0 {
                Ok((statements, close)) => r matches Ok((v, s)) && statement_views(v@) == statements && s == close,
                Err(e) => r matches Err(x) && x@ == e,
            },
            final(self).at() == spec_parse_block(old(self).toks(), old(self).at(), Seq::empty()).1,
            old(self).at() <= final(self).at() <= old(self).toks().len() + 1,
            r is Ok ==> final(self).at() <= old(self).toks().len(),
            r is Ok ==> old(self).at() < final(self).at(),
        decreases old(self).toks().len() + 1 - old(self).at(), 40int,
    {
        let mut statements: Vec<ParsedStatement> = Vec::new();
        proof {
            assert(statement_views(statements@) =~= Seq::<ParsedStatementModel>::empty());
        }
        loop
            invariant
                self.wf(),
                self.toks() == old(self).toks(),
                old(self).at() <= self.at() <= self.toks().len(),
                spec_parse_block(self.toks(), self.at(), statement_views(statements@))
                    == spec_parse_block(old(self).toks(), old(self).at(), Seq::empty()),
            decreases self.toks().len() + 1 - self.at(),
        {
            self.skip_newlines();
            if matches!(self.peek().kind, TokenKind::RightBrace) {
                let close_span = self.peek().span;
                self.next();
                return Ok((statements, close_span));
            }
            if matches!(self.peek().kind, TokenKind::Eof) {
                return Err(error_at("unclosed block", None));
            }
            let statement = match self.parse_block_statement() {
                Ok(s) => s,
                Err(e) => return Err(e),
            };
            let ghost before = statements@;
            statements.push(statement);
            proof {
                lemma_statement_views_push(before, statement);
            }
        }
    }

    // --- a program ---

    /// The statements of a program and the errors met; after an error the
    /// parser goes on past at least one token.
    #[verifier::rlimit(40)]
    fn parse(tokens: &Vec<Token>) -> (r: (Vec<ParsedStatement>, Vec<FogError>))
        requires
            tokens@.len() < usize::MAX,
        ensures
            (statement_views(r.0@), error_views(r.1@)) == spec_parse(token_views(tokens@)),
    {
        let mut parser = Parser::new(tokens);
        let ghost toks = token_views(tokens@);
        let mut statements: Vec<ParsedStatement> = Vec::new();
        let mut errors: Vec<FogError> = Vec::new();
        parser.skip_newlines();
        proof {
            assert(statement_views(statements@) =~= Seq::<ParsedStatementModel>::empty());
            assert(error_views(errors@) =~= Seq::<ErrorModel>::empty());
        }
        while !matches!(parser.peek().kind, TokenKind::Eof)
            invariant
                parser.wf(),
                parser.toks() == toks,
                parser.at() <= toks.len() + 1,
                spec_parse_from(toks, parser.at(), statement_views(statements@), error_views(errors@))
                    == spec_parse(toks),
            decreases toks.len() + 1 - parser.at(),
        {
            let prev_pos = parser.pos;
            match parser.parse_block_statement() {
                Ok(statement) => {
                    let ghost before = statements@;
                    statements.push(statement);
                    proof {
                        lemma_statement_views_push(before, statement);
                    }
                },
                Err(e) => {
                    let ghost before = errors@;
                    errors.push(e);
                    proof {
                        assert(error_views(errors@) =~= error_views(before).push(e@));
                    }
                    if parser.pos == prev_pos {
                        parser.next();
                    }
                },
            }
            parser.skip_newlines();
        }
        (statements, errors)
    }
}

} // verus!
