//! How core statements, expressions and patterns are written back as text.

use vstd::prelude::*;

use crate::parser::core_expr::ArmPatternModel;
use crate::parser::core_expr::CoreDeclPattern;
use crate::parser::core_expr::CoreDeclPatternModel;
use crate::parser::core_expr::CoreExpr;
use crate::parser::core_expr::CoreExprModel;
use crate::parser::core_expr::CoreMatchArm;
use crate::parser::core_expr::CoreMatchArmModel;
use crate::parser::core_expr::CoreMatchArmPattern;
use crate::parser::core_expr::CoreStatement;
use crate::parser::core_expr::CoreStatementModel;
use crate::parser::core_expr::CoreTupleDeclPattern;
use crate::parser::core_expr::TuplePatternModel;
use crate::parser::core_expr::arm_pattern_views;
use crate::parser::core_expr::core_expr_views;
use crate::parser::core_expr::core_match_arm_views;
use crate::parser::core_expr::core_statement_views;
use crate::parser::core_expr::lemma_arm_pattern_views;
use crate::parser::core_expr::lemma_core_expr_views;
use crate::parser::core_expr::lemma_core_match_arm_views;
use crate::parser::core_expr::lemma_core_statement_views;
use crate::parser::core_expr::lemma_tuple_pattern_views;
use crate::parser::core_expr::spec_atomic_type_text;
use crate::parser::core_expr::tuple_pattern_views;
use crate::parser::text::kind_expr_text;
use crate::parser::text::literal_text;
use crate::parser::text::type_expr_text;
use crate::util::fmt_parenthesized;
use crate::util::format_joined;
use crate::util::spec_join;
use crate::util::spec_parenthesized;
use crate::util::string_from;
use crate::util::string_views;

verus! {

pub open spec fn tuple_pattern_text(p: TuplePatternModel) -> Seq<char>
    decreases p,
{
    match p {
        TuplePatternModel::Identifier { name, .. } => name,
        TuplePatternModel::Tuple { items, .. } => spec_join(tuple_pattern_texts(items), ", "@),
    }
}

pub open spec fn tuple_pattern_texts(s: Seq<TuplePatternModel>) -> Seq<Seq<char>>
    decreases s,
{
    if s.len() == 0 {
        Seq::empty()
    } else {
        tuple_pattern_texts(s.drop_last()).push(tuple_pattern_text(s.last()))
    }
}

/// A declaration pattern as it is written: a tuple's items joined by commas.
pub open spec fn core_decl_pattern_text(p: CoreDeclPatternModel) -> Seq<char> {
    match p {
        CoreDeclPatternModel::Identifier { name, .. } => name,
        CoreDeclPatternModel::Tuple { items, .. } => spec_join(tuple_pattern_texts(items), ", "@),
    }
}

/// A match arm pattern as it is written: a tuple in parentheses, a data
/// constructor followed by its arguments.
pub open spec fn arm_pattern_text(p: ArmPatternModel) -> Seq<char>
    decreases p,
{
    match p {
        ArmPatternModel::Literal { literal, .. } => literal_text(literal),
        ArmPatternModel::Tuple { items, .. } => "("@ + spec_join(arm_pattern_texts(items), ", "@) + ")"@,
        ArmPatternModel::Identifier { name, .. } => name,
        ArmPatternModel::DataConstructor { name, args, .. } => name + arm_args_text(args),
    }
}

pub open spec fn arm_pattern_texts(s: Seq<ArmPatternModel>) -> Seq<Seq<char>>
    decreases s,
{
    if s.len() == 0 {
        Seq::empty()
    } else {
        arm_pattern_texts(s.drop_last()).push(arm_pattern_text(s.last()))
    }
}

pub open spec fn arm_args_text(s: Seq<ArmPatternModel>) -> Seq<char>
    decreases s,
{
    if s.len() == 0 {
        Seq::empty()
    } else {
        arm_args_text(s.drop_last()) + " "@ + spec_parenthesized(arm_pattern_text(s.last()))
    }
}

/// A core expression as it is written; a block and a match hold one line for
/// each statement or arm, four spaces in.
pub open spec fn core_expr_text(e: CoreExprModel) -> Seq<char>
    decreases e,
{
    match e {
        CoreExprModel::Block { statements, .. } => "{\n"@ + core_statement_lines(statements) + "}"@,
        CoreExprModel::Identifier { name, .. } => name,
        CoreExprModel::Literal { literal, .. } => literal_text(literal),
        CoreExprModel::Tuple { items, .. } => "("@ + spec_join(core_expr_texts(items), ", "@) + ")"@,
        CoreExprModel::Lambda { param_name, body, .. } => param_name + " => "@ + core_expr_text(*body),
        CoreExprModel::FunctionAppl { callee, arg, .. } => spec_parenthesized(core_expr_text(*callee)) + " "@
            + spec_parenthesized(core_expr_text(*arg)),
        CoreExprModel::Match { scrutinee, arms, .. } => "match "@ + core_expr_text(*scrutinee) + " {\n"@
            + core_arm_lines(arms) + "}"@,
    }
}

pub open spec fn core_expr_texts(s: Seq<CoreExprModel>) -> Seq<Seq<char>>
    decreases s,
{
    if s.len() == 0 {
        Seq::empty()
    } else {
        core_expr_texts(s.drop_last()).push(core_expr_text(s.last()))
    }
}

pub open spec fn core_statement_lines(s: Seq<CoreStatementModel>) -> Seq<char>
    decreases s,
{
    if s.len() == 0 {
        Seq::empty()
    } else {
        core_statement_lines(s.drop_last()) + "    "@ + core_statement_text(s.last()) + "\n"@
    }
}

pub open spec fn core_arm_lines(s: Seq<CoreMatchArmModel>) -> Seq<char>
    decreases s,
{
    if s.len() == 0 {
        Seq::empty()
    } else {
        core_arm_lines(s.drop_last()) + "    "@ + arm_pattern_text(s.last().pattern) + " => "@ + core_expr_text(
            s.last().value_expr,
        ) + "\n"@
    }
}

pub open spec fn core_statement_text(s: CoreStatementModel) -> Seq<char>
    decreases s,
{
    match s {
        CoreStatementModel::KindAnnotation { name, expr, .. } => name + " : "@ + kind_expr_text(expr),
        CoreStatementModel::TypeDeclaration { name, expr, .. } => name + " = "@ + type_expr_text(expr),
        CoreStatementModel::TypeAnnotation { name, expr, .. } => name + " : "@ + spec_atomic_type_text(expr),
        CoreStatementModel::VarDeclaration { pattern, expr, .. } => core_decl_pattern_text(pattern) + " = "@
            + core_expr_text(expr),
        CoreStatementModel::Expression { expr, .. } => core_expr_text(expr),
    }
}

impl CoreTupleDeclPattern {
    pub fn to_text(&self) -> (r: String)
        ensures
            r@ == tuple_pattern_text(self@),
        decreases self,
    {
        match self {
            CoreTupleDeclPattern::Identifier { name, .. } => name.clone(),
            CoreTupleDeclPattern::Tuple { items, .. } => {
                let texts = tuple_pattern_texts_of(items);
                format_joined(&texts, ", ")
            },
        }
    }
}

fn tuple_pattern_texts_of(items: &Vec<CoreTupleDeclPattern>) -> (r: Vec<String>)
    ensures
        string_views(r@) == tuple_pattern_texts(tuple_pattern_views(items@)),
    decreases items,
{
    let mut out: Vec<String> = Vec::new();
    let mut i: usize = 0;
    proof {
        lemma_tuple_pattern_views(items@);
    }
    while i < items.len()
        invariant
            i <= items.len(),
            tuple_pattern_views(items@).len() == items.len(),
            forall|j: int| 0 <= j < items.len() ==> #[trigger] tuple_pattern_views(items@)[j] == items@[j]@,
            string_views(out@) == tuple_pattern_texts(tuple_pattern_views(items@).take(i as int)),
        decreases items.len() - i,
    {
        proof {
            assert(decreases_to!(*items => items@));
            assert(decreases_to!(items@ => items@[i as int]));
        }
        let t = items[i].to_text();
        let ghost before = out@;
        out.push(t);
        proof {
            let v = tuple_pattern_views(items@);
            assert(v.take(i + 1).drop_last() =~= v.take(i as int));
            assert(string_views(out@) =~= string_views(before).push(t@));
        }
        i += 1;
    }
    proof {
        assert(tuple_pattern_views(items@).take(items.len() as int) =~= tuple_pattern_views(items@));
    }
    out
}

impl CoreDeclPattern {
    pub fn to_text(&self) -> (r: String)
        ensures
            r@ == core_decl_pattern_text(self@),
    {
        match self {
            CoreDeclPattern::Identifier { name, .. } => name.clone(),
            CoreDeclPattern::Tuple { items, .. } => {
                let texts = tuple_pattern_texts_of(items);
                format_joined(&texts, ", ")
            },
        }
    }
}

impl CoreMatchArmPattern {
    pub fn to_text(&self) -> (r: String)
        ensures
            r@ == arm_pattern_text(self@),
        decreases self,
    {
        match self {
            CoreMatchArmPattern::Literal { literal, .. } => literal.to_text(),
            CoreMatchArmPattern::Tuple { items, .. } => {
                let texts = arm_pattern_texts_of(items);
                let mut text = string_from("(");
                let joined = format_joined(&texts, ", ");
                text.append(joined.as_str());
                text.append(")");
                text
            },
            CoreMatchArmPattern::Identifier { name, .. } => name.clone(),
            CoreMatchArmPattern::DataConstructor { name, args, .. } => {
                let mut text = name.clone();
                let texts = arm_pattern_texts_of(args);
                let mut i: usize = 0;
                proof {
                    lemma_arm_pattern_views(args@);
                    assert(text@ =~= name@ + arm_args_text(arm_pattern_views(args@).take(0)));
                }
                while i < texts.len()
                    invariant
                        i <= texts.len(),
                        string_views(texts@) == arm_pattern_texts(arm_pattern_views(args@)),
                        texts.len() == args.len(),
                        arm_pattern_views(args@).len() == args.len(),
                        text@ == name@ + arm_args_text(arm_pattern_views(args@).take(i as int)),
                    decreases texts.len() - i,
                {
                    let p = fmt_parenthesized(texts[i].as_str());
                    text.append(" ");
                    text.append(p.as_str());
                    proof {
                        let v = arm_pattern_views(args@);
                        lemma_arm_pattern_texts(v, i as int);
                        assert(v.take(i + 1).drop_last() =~= v.take(i as int));
                        assert(string_views(texts@)[i as int] == texts@[i as int]@);
                    }
                    i += 1;
                }
                proof {
                    assert(arm_pattern_views(args@).take(args.len() as int) =~= arm_pattern_views(args@));
                }
                text
            },
        }
    }
}

pub proof fn lemma_arm_pattern_texts_len(s: Seq<ArmPatternModel>)
    ensures
        arm_pattern_texts(s).len() == s.len(),
    decreases s.len(),
{
    if s.len() > 0 {
        lemma_arm_pattern_texts_len(s.drop_last());
    }
}

pub proof fn lemma_arm_pattern_texts(s: Seq<ArmPatternModel>, i: int)
    requires
        0 <= i < s.len(),
    ensures
        arm_pattern_texts(s).len() == s.len(),
        arm_pattern_texts(s)[i] == arm_pattern_text(s[i]),
    decreases s.len(),
{
    lemma_arm_pattern_texts_len(s);
    lemma_arm_pattern_texts_len(s.drop_last());
    if i < s.len() - 1 {
        lemma_arm_pattern_texts(s.drop_last(), i);
    }
}

fn arm_pattern_texts_of(items: &Vec<CoreMatchArmPattern>) -> (r: Vec<String>)
    ensures
        string_views(r@) == arm_pattern_texts(arm_pattern_views(items@)),
        r@.len() == items@.len(),
    decreases items,
{
    let mut out: Vec<String> = Vec::new();
    let mut i: usize = 0;
    proof {
        lemma_arm_pattern_views(items@);
    }
    while i < items.len()
        invariant
            i <= items.len(),
            out@.len() == i,
            arm_pattern_views(items@).len() == items.len(),
            forall|j: int| 0 <= j < items.len() ==> #[trigger] arm_pattern_views(items@)[j] == items@[j]@,
            string_views(out@) == arm_pattern_texts(arm_pattern_views(items@).take(i as int)),
        decreases items.len() - i,
    {
        proof {
            assert(decreases_to!(*items => items@));
            assert(decreases_to!(items@ => items@[i as int]));
        }
        let t = items[i].to_text();
        let ghost before = out@;
        out.push(t);
        proof {
            let v = arm_pattern_views(items@);
            assert(v.take(i + 1).drop_last() =~= v.take(i as int));
            assert(string_views(out@) =~= string_views(before).push(t@));
        }
        i += 1;
    }
    proof {
        assert(arm_pattern_views(items@).take(items.len() as int) =~= arm_pattern_views(items@));
    }
    out
}

impl CoreExpr {
    /// The expression as it is written.
    pub fn to_text(&self) -> (r: String)
        ensures
            r@ == core_expr_text(self@),
        decreases self,
    {
        match self {
            CoreExpr::Block { statements, .. } => {
                let mut text = string_from("{\n");
                let lines = core_statement_lines_of(statements);
                text.append(lines.as_str());
                text.append("}");
                text
            },
            CoreExpr::Identifier { name, .. } => name.clone(),
            CoreExpr::Literal { literal, .. } => literal.to_text(),
            CoreExpr::Tuple { items, .. } => {
                let texts = core_expr_texts_of(items);
                let mut text = string_from("(");
                let joined = format_joined(&texts, ", ");
                text.append(joined.as_str());
                text.append(")");
                text
            },
            CoreExpr::Lambda { param_name, body, .. } => {
                let mut text = param_name.clone();
                text.append(" => ");
                let b = body.to_text();
                text.append(b.as_str());
                text
            },
            CoreExpr::FunctionAppl { callee, arg, .. } => {
                let c = callee.to_text();
                let mut text = fmt_parenthesized(c.as_str());
                text.append(" ");
                let a = arg.to_text();
                let pa = fmt_parenthesized(a.as_str());
                text.append(pa.as_str());
                text
            },
            CoreExpr::Match { scrutinee, arms, .. } => {
                let mut text = string_from("match ");
                let s = scrutinee.to_text();
                text.append(s.as_str());
                text.append(" {\n");
                let lines = core_arm_lines_of(arms);
                text.append(lines.as_str());
                text.append("}");
                text
            },
        }
    }
}

fn core_expr_texts_of(items: &Vec<CoreExpr>) -> (r: Vec<String>)
    ensures
        string_views(r@) == core_expr_texts(core_expr_views(items@)),
    decreases items,
{
    let mut out: Vec<String> = Vec::new();
    let mut i: usize = 0;
    proof {
        lemma_core_expr_views(items@);
    }
    while i < items.len()
        invariant
            i <= items.len(),
            core_expr_views(items@).len() == items.len(),
            forall|j: int| 0 <= j < items.len() ==> #[trigger] core_expr_views(items@)[j] == items@[j]@,
            string_views(out@) == core_expr_texts(core_expr_views(items@).take(i as int)),
        decreases items.len() - i,
    {
        proof {
            assert(decreases_to!(*items => items@));
            assert(decreases_to!(items@ => items@[i as int]));
        }
        let t = items[i].to_text();
        let ghost before = out@;
        out.push(t);
        proof {
            let v = core_expr_views(items@);
            assert(v.take(i + 1).drop_last() =~= v.take(i as int));
            assert(string_views(out@) =~= string_views(before).push(t@));
        }
        i += 1;
    }
    proof {
        assert(core_expr_views(items@).take(items.len() as int) =~= core_expr_views(items@));
    }
    out
}

fn core_statement_lines_of(statements: &Vec<CoreStatement>) -> (r: String)
    ensures
        r@ == core_statement_lines(core_statement_views(statements@)),
    decreases statements,
{
    let mut out = String::new();
    let mut i: usize = 0;
    proof {
        lemma_core_statement_views(statements@);
        assert(out@ =~= core_statement_lines(core_statement_views(statements@).take(0)));
    }
    while i < statements.len()
        invariant
            i <= statements.len(),
            core_statement_views(statements@).len() == statements.len(),
            forall|j: int| 0 <= j < statements.len() ==> #[trigger] core_statement_views(statements@)[j]
                == statements@[j]@,
            out@ == core_statement_lines(core_statement_views(statements@).take(i as int)),
        decreases statements.len() - i,
    {
        proof {
            assert(decreases_to!(*statements => statements@));
            assert(decreases_to!(statements@ => statements@[i as int]));
        }
        let t = statements[i].to_text();
        out.append("    ");
        out.append(t.as_str());
        out.append("\n");
        proof {
            let v = core_statement_views(statements@);
            assert(v.take(i + 1).drop_last() =~= v.take(i as int));
        }
        i += 1;
    }
    proof {
        assert(core_statement_views(statements@).take(statements.len() as int) =~= core_statement_views(
            statements@,
        ));
    }
    out
}

fn core_arm_lines_of(arms: &Vec<CoreMatchArm>) -> (r: String)
    ensures
        r@ == core_arm_lines(core_match_arm_views(arms@)),
    decreases arms,
{
    let mut out = String::new();
    let mut i: usize = 0;
    proof {
        lemma_core_match_arm_views(arms@);
        assert(out@ =~= core_arm_lines(core_match_arm_views(arms@).take(0)));
    }
    while i < arms.len()
        invariant
            i <= arms.len(),
            core_match_arm_views(arms@).len() == arms.len(),
            forall|j: int| 0 <= j < arms.len() ==> #[trigger] core_match_arm_views(arms@)[j] == arms@[j]@,
            out@ == core_arm_lines(core_match_arm_views(arms@).take(i as int)),
        decreases arms.len() - i,
    {
        proof {
            assert(decreases_to!(*arms => arms@));
            assert(decreases_to!(arms@ => arms@[i as int]));
            assert(decreases_to!(arms@[i as int] => arms@[i as int].value_expr));
        }
        let p = arms[i].pattern.to_text();
        let v = arms[i].value_expr.to_text();
        out.append("    ");
        out.append(p.as_str());
        out.append(" => ");
        out.append(v.as_str());
        out.append("\n");
        proof {
            let w = core_match_arm_views(arms@);
            assert(w.take(i + 1).drop_last() =~= w.take(i as int));
            assert(w.take(i + 1).last() == arms@[i as int]@);
        }
        i += 1;
    }
    proof {
        assert(core_match_arm_views(arms@).take(arms.len() as int) =~= core_match_arm_views(arms@));
    }
    out
}

impl CoreStatement {
    /// The statement as it is written.
    pub fn to_text(&self) -> (r: String)
        ensures
            r@ == core_statement_text(self@),
        decreases self,
    {
        let (mut text, sep, rest) = match self {
            CoreStatement::KindAnnotation { name, expr, .. } => (name.clone(), " : ", expr.to_text()),
            CoreStatement::TypeDeclaration { name, expr, .. } => (name.clone(), " = ", expr.to_text()),
            CoreStatement::TypeAnnotation { name, expr, .. } => (name.clone(), " : ", expr.to_text()),
            CoreStatement::VarDeclaration { pattern, expr, .. } => (pattern.to_text(), " = ", expr.to_text()),
            CoreStatement::Expression { expr, .. } => {
                return expr.to_text();
            },
        };
        text.append(sep);
        text.append(rest.as_str());
        text
    }
}

} // verus!
