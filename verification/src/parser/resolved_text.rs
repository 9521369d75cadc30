//! How resolved statements, expressions and patterns are written back as
//! text.

use vstd::prelude::*;

use crate::parser::core_expr::ArmPatternModel;
use crate::parser::core_expr::spec_atomic_type_text;
use crate::parser::core_text::arm_args_text;
use crate::parser::core_text::arm_pattern_text;
use crate::parser::core_text::arm_pattern_texts;
use crate::parser::core_text::lemma_arm_pattern_texts;
use crate::parser::core_text::tuple_pattern_text;
use crate::parser::core_text::tuple_pattern_texts;
use crate::parser::resolved_expr::ResolvedDeclPattern;
use crate::parser::resolved_expr::ResolvedDeclPatternModel;
use crate::parser::resolved_expr::ResolvedExpr;
use crate::parser::resolved_expr::ResolvedExprModel;
use crate::parser::resolved_expr::ResolvedMatchArm;
use crate::parser::resolved_expr::ResolvedMatchArmModel;
use crate::parser::resolved_expr::ResolvedMatchArmPattern;
use crate::parser::resolved_expr::ResolvedStatement;
use crate::parser::resolved_expr::ResolvedStatementModel;
use crate::parser::resolved_expr::ResolvedTupleDeclPattern;
use crate::parser::resolved_expr::lemma_resolved_arm_pattern_views;
use crate::parser::resolved_expr::lemma_resolved_expr_views;
use crate::parser::resolved_expr::lemma_resolved_match_arm_views;
use crate::parser::resolved_expr::lemma_resolved_statement_views;
use crate::parser::resolved_expr::lemma_resolved_tuple_pattern_views;
use crate::parser::resolved_expr::resolved_arm_pattern_views;
use crate::parser::resolved_expr::resolved_expr_views;
use crate::parser::resolved_expr::resolved_match_arm_views;
use crate::parser::resolved_expr::resolved_statement_views;
use crate::parser::resolved_expr::resolved_tuple_pattern_views;
use crate::parser::text::kind_expr_text;
use crate::parser::text::literal_text;
use crate::parser::text::type_expr_text;
use crate::util::fmt_parenthesized;
use crate::util::format_joined;
use crate::util::spec_join;
use crate::util::spec_parenthesized;
use crate::util::string_from;
use crate::util::string_views;

verus! {

/// The patterns of a function clause, each in parentheses where its text
/// holds a space.
pub open spec fn parenthesized_arm_texts(s: Seq<ArmPatternModel>) -> Seq<Seq<char>>
    decreases s,
{
    if s.len() == 0 {
        Seq::empty()
    } else {
        parenthesized_arm_texts(s.drop_last()).push(spec_parenthesized(arm_pattern_text(s.last())))
    }
}

/// A declaration pattern as it is written: a tuple's items joined by
/// commas; a function clause's patterns, without its name, joined by
/// spaces.
pub open spec fn resolved_decl_pattern_text(p: ResolvedDeclPatternModel) -> Seq<char> {
    match p {
        ResolvedDeclPatternModel::Identifier { name, .. } => name,
        ResolvedDeclPatternModel::Tuple { items, .. } => spec_join(tuple_pattern_texts(items), ", "@),
        ResolvedDeclPatternModel::FunctionClause { items, .. } => spec_join(parenthesized_arm_texts(items), " "@),
    }
}

/// A resolved expression as it is written; a block and a match hold one
/// line for each statement or arm, four spaces in.
pub open spec fn resolved_expr_text(e: ResolvedExprModel) -> Seq<char>
    decreases e,
{
    match e {
        ResolvedExprModel::Block { statements, .. } => "{\n"@ + resolved_statement_lines(statements) + "}"@,
        ResolvedExprModel::Identifier { name, .. } => name,
        ResolvedExprModel::Literal { literal, .. } => literal_text(literal),
        ResolvedExprModel::Tuple { items, .. } => "("@ + spec_join(resolved_expr_texts(items), ", "@) + ")"@,
        ResolvedExprModel::Lambda { param_name, body, .. } => param_name + " => "@ + resolved_expr_text(*body),
        ResolvedExprModel::FunctionAppl { callee, arg, .. } => spec_parenthesized(resolved_expr_text(*callee))
            + " "@ + spec_parenthesized(resolved_expr_text(*arg)),
        ResolvedExprModel::Match { scrutinee, match_arms, .. } => "match "@ + resolved_expr_text(*scrutinee)
            + " {\n"@ + resolved_arm_lines(match_arms) + "}"@,
    }
}

pub open spec fn resolved_expr_texts(s: Seq<ResolvedExprModel>) -> Seq<Seq<char>>
    decreases s,
{
    if s.len() == 0 {
        Seq::empty()
    } else {
        resolved_expr_texts(s.drop_last()).push(resolved_expr_text(s.last()))
    }
}

pub open spec fn resolved_statement_lines(s: Seq<ResolvedStatementModel>) -> Seq<char>
    decreases s,
{
    if s.len() == 0 {
        Seq::empty()
    } else {
        resolved_statement_lines(s.drop_last()) + "    "@ + resolved_statement_text(s.last()) + "\n"@
    }
}

pub open spec fn resolved_arm_lines(s: Seq<ResolvedMatchArmModel>) -> Seq<char>
    decreases s,
{
    if s.len() == 0 {
        Seq::empty()
    } else {
        resolved_arm_lines(s.drop_last()) + "    "@ + arm_pattern_text(s.last().pattern) + " => "@
            + resolved_expr_text(s.last().value_expr) + "\n"@
    }
}

pub open spec fn resolved_statement_text(s: ResolvedStatementModel) -> Seq<char>
    decreases s,
{
    match s {
        ResolvedStatementModel::KindAnnotation { name, expr, .. } => name + " : "@ + kind_expr_text(expr),
        ResolvedStatementModel::TypeDeclaration { name, expr, .. } => name + " = "@ + type_expr_text(expr),
        ResolvedStatementModel::TypeAnnotation { name, expr, .. } => name + " : "@ + spec_atomic_type_text(expr),
        ResolvedStatementModel::VarDeclaration { pattern, expr, .. } => resolved_decl_pattern_text(pattern)
            + " = "@ + resolved_expr_text(expr),
        ResolvedStatementModel::Expression { expr, .. } => resolved_expr_text(expr),
    }
}

impl ResolvedTupleDeclPattern {
    /// The pattern as it is written.
    pub fn to_text(&self) -> (r: String)
        ensures
            r@ == tuple_pattern_text(self@),
        decreases self,
    {
        match self {
            ResolvedTupleDeclPattern::Identifier { name, .. } => name.clone(),
            ResolvedTupleDeclPattern::Tuple { items, .. } => {
                let texts = tuple_pattern_texts_of(items);
                format_joined(&texts, ", ")
            },
        }
    }
}

fn tuple_pattern_texts_of(items: &Vec<ResolvedTupleDeclPattern>) -> (r: Vec<String>)
    ensures
        string_views(r@) == tuple_pattern_texts(resolved_tuple_pattern_views(items@)),
    decreases items,
{
    let mut out: Vec<String> = Vec::new();
    let mut i: usize = 0;
    proof {
        lemma_resolved_tuple_pattern_views(items@);
    }
    while i < items.len()
        invariant
            i <= items.len(),
            resolved_tuple_pattern_views(items@).len() == items.len(),
            forall|j: int| 0 <= j < items.len() ==> #[trigger] resolved_tuple_pattern_views(items@)[j] == items@[j]@,
            string_views(out@) == tuple_pattern_texts(resolved_tuple_pattern_views(items@).take(i as int)),
        decreases items.len() - i,
    {
        proof {
            assert(decreases_to!(*items => items@));
            assert(decreases_to!(items@ => items@[i as int]));
        }
        let t = items[i].to_text();
        let ghost before = out@;
        out.push(t);
        proof {
            let v = resolved_tuple_pattern_views(items@);
            assert(v.take(i + 1).drop_last() =~= v.take(i as int));
            assert(string_views(out@) =~= string_views(before).push(t@));
        }
        i += 1;
    }
    proof {
        assert(resolved_tuple_pattern_views(items@).take(items.len() as int) =~= resolved_tuple_pattern_views(items@));
    }
    out
}

impl ResolvedMatchArmPattern {
    /// The pattern as it is written.
    pub fn to_text(&self) -> (r: String)
        ensures
            r@ == arm_pattern_text(self@),
        decreases self,
    {
        match self {
            ResolvedMatchArmPattern::Literal { literal, .. } => literal.to_text(),
            ResolvedMatchArmPattern::Tuple { items, .. } => {
                let texts = arm_pattern_texts_of(items);
                let mut text = string_from("(");
                let joined = format_joined(&texts, ", ");
                text.append(joined.as_str());
                text.append(")");
                text
            },
            ResolvedMatchArmPattern::Identifier { name, .. } => name.clone(),
            ResolvedMatchArmPattern::DataConstructor { name, args, .. } => {
                let mut text = name.clone();
                let texts = arm_pattern_texts_of(args);
                let mut i: usize = 0;
                proof {
                    lemma_resolved_arm_pattern_views(args@);
                    assert(text@ =~= name@ + arm_args_text(resolved_arm_pattern_views(args@).take(0)));
                }
                while i < texts.len()
                    invariant
                        i <= texts.len(),
                        string_views(texts@) == arm_pattern_texts(resolved_arm_pattern_views(args@)),
                        texts.len() == args.len(),
                        resolved_arm_pattern_views(args@).len() == args.len(),
                        text@ == name@ + arm_args_text(resolved_arm_pattern_views(args@).take(i as int)),
                    decreases texts.len() - i,
                {
                    let p = fmt_parenthesized(texts[i].as_str());
                    text.append(" ");
                    text.append(p.as_str());
                    proof {
                        let v = resolved_arm_pattern_views(args@);
                        lemma_arm_pattern_texts(v, i as int);
                        assert(v.take(i + 1).drop_last() =~= v.take(i as int));
                        assert(string_views(texts@)[i as int] == texts@[i as int]@);
                    }
                    i += 1;
                }
                proof {
                    assert(resolved_arm_pattern_views(args@).take(args.len() as int) =~= resolved_arm_pattern_views(args@));
                }
                text
            },
        }
    }
}

fn arm_pattern_texts_of(items: &Vec<ResolvedMatchArmPattern>) -> (r: Vec<String>)
    ensures
        string_views(r@) == arm_pattern_texts(resolved_arm_pattern_views(items@)),
        r@.len() == items@.len(),
    decreases items,
{
    let mut out: Vec<String> = Vec::new();
    let mut i: usize = 0;
    proof {
        lemma_resolved_arm_pattern_views(items@);
    }
    while i < items.len()
        invariant
            i <= items.len(),
            out@.len() == i,
            resolved_arm_pattern_views(items@).len() == items.len(),
            forall|j: int| 0 <= j < items.len() ==> #[trigger] resolved_arm_pattern_views(items@)[j] == items@[j]@,
            string_views(out@) == arm_pattern_texts(resolved_arm_pattern_views(items@).take(i as int)),
        decreases items.len() - i,
    {
        proof {
            assert(decreases_to!(*items => items@));
            assert(decreases_to!(items@ => items@[i as int]));
        }
        let t = items[i].to_text();
        let ghost before = out@;
        out.push(t);
        proof {
            let v = resolved_arm_pattern_views(items@);
            assert(v.take(i + 1).drop_last() =~= v.take(i as int));
            assert(string_views(out@) =~= string_views(before).push(t@));
        }
        i += 1;
    }
    proof {
        assert(resolved_arm_pattern_views(items@).take(items.len() as int) =~= resolved_arm_pattern_views(items@));
    }
    out
}

impl ResolvedDeclPattern {
    /// The pattern as it is written.
    pub fn to_text(&self) -> (r: String)
        ensures
            r@ == resolved_decl_pattern_text(self@),
    {
        match self {
            ResolvedDeclPattern::Identifier { name, .. } => name.clone(),
            ResolvedDeclPattern::Tuple { items, .. } => {
                let texts = tuple_pattern_texts_of(items);
                format_joined(&texts, ", ")
            },
            ResolvedDeclPattern::FunctionClause { items, .. } => {
                let texts = arm_pattern_texts_of(items);
                let mut parts: Vec<String> = Vec::new();
                let mut i: usize = 0;
                proof {
                    lemma_resolved_arm_pattern_views(items@);
                    assert(string_views(parts@) =~= parenthesized_arm_texts(resolved_arm_pattern_views(items@).take(0)));
                }
                while i < texts.len()
                    invariant
                        i <= texts.len(),
                        string_views(texts@) == arm_pattern_texts(resolved_arm_pattern_views(items@)),
                        texts.len() == items.len(),
                        resolved_arm_pattern_views(items@).len() == items.len(),
                        string_views(parts@) == parenthesized_arm_texts(resolved_arm_pattern_views(items@).take(i as int)),
                    decreases texts.len() - i,
                {
                    let p = fmt_parenthesized(texts[i].as_str());
                    let ghost before = parts@;
                    parts.push(p);
                    proof {
                        let v = resolved_arm_pattern_views(items@);
                        lemma_arm_pattern_texts(v, i as int);
                        assert(v.take(i + 1).drop_last() =~= v.take(i as int));
                        assert(string_views(texts@)[i as int] == texts@[i as int]@);
                        assert(string_views(parts@) =~= string_views(before).push(p@));
                    }
                    i += 1;
                }
                proof {
                    assert(resolved_arm_pattern_views(items@).take(items.len() as int) =~= resolved_arm_pattern_views(items@));
                }
                format_joined(&parts, " ")
            },
        }
    }
}

impl ResolvedExpr {
    /// The expression as it is written.
    pub fn to_text(&self) -> (r: String)
        ensures
            r@ == resolved_expr_text(self@),
        decreases self,
    {
        match self {
            ResolvedExpr::Block { statements, .. } => {
                let mut text = string_from("{\n");
                let lines = statement_lines_of(statements);
                text.append(lines.as_str());
                text.append("}");
                text
            },
            ResolvedExpr::Identifier { name, .. } => name.clone(),
            ResolvedExpr::Literal { literal, .. } => literal.to_text(),
            ResolvedExpr::Tuple { items, .. } => {
                let texts = expr_texts_of(items);
                let mut text = string_from("(");
                let joined = format_joined(&texts, ", ");
                text.append(joined.as_str());
                text.append(")");
                text
            },
            ResolvedExpr::Lambda { param_name, body, .. } => {
                let mut text = param_name.clone();
                text.append(" => ");
                let b = body.to_text();
                text.append(b.as_str());
                text
            },
            ResolvedExpr::FunctionAppl { callee, arg, .. } => {
                let c = callee.to_text();
                let mut text = fmt_parenthesized(c.as_str());
                text.append(" ");
                let a = arg.to_text();
                let pa = fmt_parenthesized(a.as_str());
                text.append(pa.as_str());
                text
            },
            ResolvedExpr::Match { scrutinee, match_arms, .. } => {
                let mut text = string_from("match ");
                let s = scrutinee.to_text();
                text.append(s.as_str());
                text.append(" {\n");
                let lines = arm_lines_of(match_arms);
                text.append(lines.as_str());
                text.append("}");
                text
            },
        }
    }
}

fn expr_texts_of(items: &Vec<ResolvedExpr>) -> (r: Vec<String>)
    ensures
        string_views(r@) == resolved_expr_texts(resolved_expr_views(items@)),
    decreases items,
{
    let mut out: Vec<String> = Vec::new();
    let mut i: usize = 0;
    proof {
        lemma_resolved_expr_views(items@);
    }
    while i < items.len()
        invariant
            i <= items.len(),
            resolved_expr_views(items@).len() == items.len(),
            forall|j: int| 0 <= j < items.len() ==> #[trigger] resolved_expr_views(items@)[j] == items@[j]@,
            string_views(out@) == resolved_expr_texts(resolved_expr_views(items@).take(i as int)),
        decreases items.len() - i,
    {
        proof {
            assert(decreases_to!(*items => items@));
            assert(decreases_to!(items@ => items@[i as int]));
        }
        let t = items[i].to_text();
        let ghost before = out@;
        out.push(t);
        proof {
            let v = resolved_expr_views(items@);
            assert(v.take(i + 1).drop_last() =~= v.take(i as int));
            assert(string_views(out@) =~= string_views(before).push(t@));
        }
        i += 1;
    }
    proof {
        assert(resolved_expr_views(items@).take(items.len() as int) =~= resolved_expr_views(items@));
    }
    out
}

fn statement_lines_of(statements: &Vec<ResolvedStatement>) -> (r: String)
    ensures
        r@ == resolved_statement_lines(resolved_statement_views(statements@)),
    decreases statements,
{
    let mut out = String::new();
    let mut i: usize = 0;
    proof {
        lemma_resolved_statement_views(statements@);
        assert(out@ =~= resolved_statement_lines(resolved_statement_views(statements@).take(0)));
    }
    while i < statements.len()
        invariant
            i <= statements.len(),
            resolved_statement_views(statements@).len() == statements.len(),
            forall|j: int| 0 <= j < statements.len() ==> #[trigger] resolved_statement_views(statements@)[j]
                == statements@[j]@,
            out@ == resolved_statement_lines(resolved_statement_views(statements@).take(i as int)),
        decreases statements.len() - i,
    {
        proof {
            assert(decreases_to!(*statements => statements@));
            assert(decreases_to!(statements@ => statements@[i as int]));
        }
        let t = statements[i].to_text();
        out.append("    ");
        out.append(t.as_str());
        out.append("\n");
        proof {
            let v = resolved_statement_views(statements@);
            assert(v.take(i + 1).drop_last() =~= v.take(i as int));
        }
        i += 1;
    }
    proof {
        assert(resolved_statement_views(statements@).take(statements.len() as int) =~= resolved_statement_views(
            statements@,
        ));
    }
    out
}

fn arm_lines_of(arms: &Vec<ResolvedMatchArm>) -> (r: String)
    ensures
        r@ == resolved_arm_lines(resolved_match_arm_views(arms@)),
    decreases arms,
{
    let mut out = String::new();
    let mut i: usize = 0;
    proof {
        lemma_resolved_match_arm_views(arms@);
        assert(out@ =~= resolved_arm_lines(resolved_match_arm_views(arms@).take(0)));
    }
    while i < arms.len()
        invariant
            i <= arms.len(),
            resolved_match_arm_views(arms@).len() == arms.len(),
            forall|j: int| 0 <= j < arms.len() ==> #[trigger] resolved_match_arm_views(arms@)[j] == arms@[j]@,
            out@ == resolved_arm_lines(resolved_match_arm_views(arms@).take(i as int)),
        decreases arms.len() - i,
    {
        proof {
            assert(decreases_to!(*arms => arms@));
            assert(decreases_to!(arms@ => arms@[i as int]));
            assert(decreases_to!(arms@[i as int] => arms@[i as int].value_expr));
        }
        let p = arms[i].pattern.to_text();
        let v = arms[i].value_expr.to_text();
        out.append("    ");
        out.append(p.as_str());
        out.append(" => ");
        out.append(v.as_str());
        out.append("\n");
        proof {
            let w = resolved_match_arm_views(arms@);
            assert(w.take(i + 1).drop_last() =~= w.take(i as int));
            assert(w.take(i + 1).last() == arms@[i as int]@);
        }
        i += 1;
    }
    proof {
        assert(resolved_match_arm_views(arms@).take(arms.len() as int) =~= resolved_match_arm_views(arms@));
    }
    out
}

impl ResolvedStatement {
    /// The statement as it is written.
    pub fn to_text(&self) -> (r: String)
        ensures
            r@ == resolved_statement_text(self@),
        decreases self,
    {
        let (mut text, sep, rest) = match self {
            ResolvedStatement::KindAnnotation { name, expr, .. } => (name.clone(), " : ", expr.to_text()),
            ResolvedStatement::TypeDeclaration { name, expr, .. } => (name.clone(), " = ", expr.to_text()),
            ResolvedStatement::TypeAnnotation { name, expr, .. } => (name.clone(), " : ", expr.to_text()),
            ResolvedStatement::VarDeclaration { pattern, expr, .. } => (pattern.to_text(), " = ", expr.to_text()),
            ResolvedStatement::Expression { expr, .. } => {
                return expr.to_text();
            },
        };
        text.append(sep);
        text.append(rest.as_str());
        text
    }
}

} // verus!
