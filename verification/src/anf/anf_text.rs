//! How the pieces of a program in A-normal form are written.

use vstd::prelude::*;

use crate::anf::anf::ANFAtomic;
use crate::anf::anf::ANFAtomicModel;
use crate::anf::anf::ANFDeclPattern;
use crate::anf::anf::ANFDeclPatternModel;
use crate::anf::anf::ANFStatement;
use crate::anf::anf::ANFStatementModel;
use crate::anf::anf::ANFValue;
use crate::anf::anf::ANFValueModel;
use crate::anf::anf::ANFVar;
use crate::anf::anf::ANFVarModel;
use crate::anf::anf::anf_arm_views;
use crate::anf::anf::anf_pattern_views;
use crate::anf::anf::anf_statement_views;
use crate::anf::anf::anf_value_views;
use crate::anf::anf::lemma_anf_arm_views;
use crate::anf::anf::lemma_anf_pattern_views;
use crate::anf::anf::lemma_anf_statement_views;
use crate::anf::anf::lemma_anf_value_views;
use crate::parser::core_expr::ArmPatternModel;
use crate::parser::core_expr::CoreMatchArmPattern;
use crate::parser::core_text::arm_pattern_text;
use crate::parser::text::literal_text;
use crate::util::fmt_parenthesized;
use crate::util::format_joined;
use crate::util::indent;
use crate::util::spec_decimal;
use crate::util::spec_indent;
use crate::util::spec_join;
use crate::util::spec_parenthesized;
use crate::util::string_from;
use crate::util::string_views;
use crate::util::usize_to_decimal;

verus! {

/// A variable as it is written: `t` and its number where it has one, its
/// name otherwise.
pub open spec fn anf_var_text(v: ANFVarModel) -> Seq<char> {
    match v.id {
        Some(id) => "t"@ + spec_decimal(id as nat),
        None => v.name,
    }
}

pub open spec fn anf_pattern_text(p: ANFDeclPatternModel) -> Seq<char>
    decreases p,
{
    match p {
        ANFDeclPatternModel::Single(v) => anf_var_text(v),
        ANFDeclPatternModel::Tuple(items) => "("@ + spec_join(anf_pattern_texts(items), ", "@) + ")"@,
    }
}

pub open spec fn anf_pattern_texts(s: Seq<ANFDeclPatternModel>) -> Seq<Seq<char>>
    decreases s,
{
    if s.len() == 0 {
        Seq::empty()
    } else {
        anf_pattern_texts(s.drop_last()).push(anf_pattern_text(s.last()))
    }
}

pub open spec fn anf_statement_text(s: ANFStatementModel) -> Seq<char>
    decreases s,
{
    match s {
        ANFStatementModel::Declaration(p, v) => anf_pattern_text(p) + " = "@ + anf_value_text(v),
        ANFStatementModel::Value(v) => anf_value_text(v),
    }
}

pub open spec fn anf_value_text(v: ANFValueModel) -> Seq<char>
    decreases v,
{
    match v {
        ANFValueModel::Atomic(a) => anf_atomic_text(a),
        ANFValueModel::FunctionAppl(c, a) => spec_parenthesized(anf_atomic_text(c)) + " "@ + spec_parenthesized(
            anf_atomic_text(a),
        ),
    }
}

/// An atom as it is written; a block and a match hold one line for each
/// statement or arm, indented.
pub open spec fn anf_atomic_text(a: ANFAtomicModel) -> Seq<char>
    decreases a,
{
    match a {
        ANFAtomicModel::Block { anfs, .. } => "{\n"@ + anf_statement_lines(anfs) + "}"@,
        ANFAtomicModel::Literal { literal, .. } => literal_text(literal),
        ANFAtomicModel::Var { var, .. } => anf_var_text(var),
        ANFAtomicModel::Lambda { param, body, .. } => anf_var_text(param) + " => "@ + anf_value_text(*body),
        ANFAtomicModel::Tuple { items, .. } => "("@ + spec_join(anf_value_texts(items), ", "@) + ")"@,
        ANFAtomicModel::Match { scrutinee, arms, .. } => "match "@ + anf_atomic_text(*scrutinee) + " {\n"@
            + anf_arm_lines(arms) + "}"@,
        ANFAtomicModel::Constructor { tag, items, .. } => tag + anf_constructor_args(items),
    }
}

pub open spec fn anf_statement_lines(s: Seq<ANFStatementModel>) -> Seq<char>
    decreases s,
{
    if s.len() == 0 {
        Seq::empty()
    } else {
        anf_statement_lines(s.drop_last()) + spec_indent(anf_statement_text(s.last())) + "\n"@
    }
}

pub open spec fn anf_value_texts(s: Seq<ANFValueModel>) -> Seq<Seq<char>>
    decreases s,
{
    if s.len() == 0 {
        Seq::empty()
    } else {
        anf_value_texts(s.drop_last()).push(anf_value_text(s.last()))
    }
}

pub open spec fn anf_arm_lines(s: Seq<(ArmPatternModel, ANFValueModel)>) -> Seq<char>
    decreases s,
{
    if s.len() == 0 {
        Seq::empty()
    } else {
        anf_arm_lines(s.drop_last()) + spec_indent(arm_pattern_text(s.last().0) + " => "@ + anf_value_text(s.last().1))
            + "\n"@
    }
}

/// The fields of a constructed value, each after a space, in parentheses
/// where they hold one.
pub open spec fn anf_constructor_args(s: Seq<ANFValueModel>) -> Seq<char>
    decreases s,
{
    if s.len() == 0 {
        Seq::empty()
    } else {
        anf_constructor_args(s.drop_last()) + " "@ + spec_parenthesized(anf_value_text(s.last()))
    }
}

impl ANFVar {
    /// The variable as it is written.
    pub fn to_text(&self) -> (r: String)
        ensures
            r@ == anf_var_text(self@),
    {
        match self.id {
            Some(id) => {
                let mut text = string_from("t");
                let digits = usize_to_decimal(id);
                text.append(digits.as_str());
                text
            },
            None => self.name.clone(),
        }
    }
}

impl ANFDeclPattern {
    /// The pattern as it is written.
    pub fn to_text(&self) -> (r: String)
        ensures
            r@ == anf_pattern_text(self@),
        decreases self,
    {
        match self {
            ANFDeclPattern::Single(var) => var.to_text(),
            ANFDeclPattern::Tuple(items) => {
                let texts = anf_pattern_texts_of(items);
                let mut text = string_from("(");
                let joined = format_joined(&texts, ", ");
                text.append(joined.as_str());
                text.append(")");
                text
            },
        }
    }
}

fn anf_pattern_texts_of(items: &Vec<ANFDeclPattern>) -> (r: Vec<String>)
    ensures
        string_views(r@) == anf_pattern_texts(anf_pattern_views(items@)),
    decreases items,
{
    let ghost v = anf_pattern_views(items@);
    let mut out: Vec<String> = Vec::new();
    let mut i: usize = 0;
    proof {
        lemma_anf_pattern_views(items@);
        assert(string_views(out@) =~= anf_pattern_texts(v.take(0)));
    }
    while i < items.len()
        invariant
            i <= items.len(),
            v == anf_pattern_views(items@),
            v.len() == items.len(),
            forall|j: int| 0 <= j < items.len() ==> #[trigger] v[j] == items@[j]@,
            string_views(out@) == anf_pattern_texts(v.take(i as int)),
        decreases items.len() - i,
    {
        proof {
            assert(decreases_to!(*items => items@));
            assert(decreases_to!(items@ => items@[i as int]));
        }
        let t = items[i].to_text();
        let ghost before = out@;
        out.push(t);
        proof {
            assert(v.take(i + 1).drop_last() =~= v.take(i as int));
            assert(string_views(out@) =~= string_views(before).push(t@));
        }
        i += 1;
    }
    proof {
        assert(v.take(i as int) =~= v);
    }
    out
}

impl ANFStatement {
    /// The statement as it is written.
    pub fn to_text(&self) -> (r: String)
        ensures
            r@ == anf_statement_text(self@),
        decreases self,
    {
        match self {
            ANFStatement::Declaration(pattern, value) => {
                let mut text = pattern.to_text();
                text.append(" = ");
                let v = value.to_text();
                text.append(v.as_str());
                text
            },
            ANFStatement::Value(value) => value.to_text(),
        }
    }
}

impl ANFValue {
    /// The value as it is written.
    pub fn to_text(&self) -> (r: String)
        ensures
            r@ == anf_value_text(self@),
        decreases self,
    {
        match self {
            ANFValue::Atomic(expr) => expr.to_text(),
            ANFValue::FunctionAppl(callee, arg) => {
                let c = callee.to_text();
                let mut text = fmt_parenthesized(c.as_str());
                text.append(" ");
                let a = arg.to_text();
                let pa = fmt_parenthesized(a.as_str());
                text.append(pa.as_str());
                text
            },
        }
    }
}

fn anf_statement_lines_of(anfs: &Vec<ANFStatement>) -> (r: String)
    ensures
        r@ == anf_statement_lines(anf_statement_views(anfs@)),
    decreases anfs,
{
    let ghost v = anf_statement_views(anfs@);
    let mut out = String::new();
    let mut i: usize = 0;
    proof {
        lemma_anf_statement_views(anfs@);
        assert(out@ =~= anf_statement_lines(v.take(0)));
    }
    while i < anfs.len()
        invariant
            i <= anfs.len(),
            v == anf_statement_views(anfs@),
            v.len() == anfs.len(),
            forall|j: int| 0 <= j < anfs.len() ==> #[trigger] v[j] == anfs@[j]@,
            out@ == anf_statement_lines(v.take(i as int)),
        decreases anfs.len() - i,
    {
        proof {
            assert(decreases_to!(*anfs => anfs@));
            assert(decreases_to!(anfs@ => anfs@[i as int]));
        }
        let t = anfs[i].to_text();
        let line = indent(t.as_str());
        out.append(line.as_str());
        out.append("\n");
        proof {
            assert(v.take(i + 1).drop_last() =~= v.take(i as int));
        }
        i += 1;
    }
    proof {
        assert(v.take(i as int) =~= v);
    }
    out
}

fn anf_value_texts_of(items: &Vec<ANFValue>) -> (r: Vec<String>)
    ensures
        string_views(r@) == anf_value_texts(anf_value_views(items@)),
    decreases items,
{
    let ghost v = anf_value_views(items@);
    let mut out: Vec<String> = Vec::new();
    let mut i: usize = 0;
    proof {
        lemma_anf_value_views(items@);
        assert(string_views(out@) =~= anf_value_texts(v.take(0)));
    }
    while i < items.len()
        invariant
            i <= items.len(),
            v == anf_value_views(items@),
            v.len() == items.len(),
            forall|j: int| 0 <= j < items.len() ==> #[trigger] v[j] == items@[j]@,
            string_views(out@) == anf_value_texts(v.take(i as int)),
        decreases items.len() - i,
    {
        proof {
            assert(decreases_to!(*items => items@));
            assert(decreases_to!(items@ => items@[i as int]));
        }
        let t = items[i].to_text();
        let ghost before = out@;
        out.push(t);
        proof {
            assert(v.take(i + 1).drop_last() =~= v.take(i as int));
            assert(string_views(out@) =~= string_views(before).push(t@));
        }
        i += 1;
    }
    proof {
        assert(v.take(i as int) =~= v);
    }
    out
}

fn anf_constructor_args_of(items: &Vec<ANFValue>) -> (r: String)
    ensures
        r@ == anf_constructor_args(anf_value_views(items@)),
    decreases items,
{
    let ghost v = anf_value_views(items@);
    let mut out = String::new();
    let mut i: usize = 0;
    proof {
        lemma_anf_value_views(items@);
        assert(out@ =~= anf_constructor_args(v.take(0)));
    }
    while i < items.len()
        invariant
            i <= items.len(),
            v == anf_value_views(items@),
            v.len() == items.len(),
            forall|j: int| 0 <= j < items.len() ==> #[trigger] v[j] == items@[j]@,
            out@ == anf_constructor_args(v.take(i as int)),
        decreases items.len() - i,
    {
        proof {
            assert(decreases_to!(*items => items@));
            assert(decreases_to!(items@ => items@[i as int]));
        }
        let t = items[i].to_text();
        let p = fmt_parenthesized(t.as_str());
        out.append(" ");
        out.append(p.as_str());
        proof {
            assert(v.take(i + 1).drop_last() =~= v.take(i as int));
        }
        i += 1;
    }
    proof {
        assert(v.take(i as int) =~= v);
    }
    out
}

fn anf_arm_lines_of(arms: &Vec<(CoreMatchArmPattern, ANFValue)>) -> (r: String)
    ensures
        r@ == anf_arm_lines(anf_arm_views(arms@)),
    decreases arms,
{
    let ghost v = anf_arm_views(arms@);
    let mut out = String::new();
    let mut i: usize = 0;
    proof {
        lemma_anf_arm_views(arms@);
        assert(out@ =~= anf_arm_lines(v.take(0)));
    }
    while i < arms.len()
        invariant
            i <= arms.len(),
            v == anf_arm_views(arms@),
            v.len() == arms.len(),
            forall|j: int| 0 <= j < arms.len() ==> #[trigger] v[j] == (arms@[j].0@, arms@[j].1@),
            out@ == anf_arm_lines(v.take(i as int)),
        decreases arms.len() - i,
    {
        proof {
            assert(decreases_to!(*arms => arms@));
            assert(decreases_to!(arms@ => arms@[i as int]));
            assert(decreases_to!(arms@[i as int] => arms@[i as int].1));
        }
        let mut arm = arms[i].0.to_text();
        arm.append(" => ");
        let value = arms[i].1.to_text();
        arm.append(value.as_str());
        let line = indent(arm.as_str());
        out.append(line.as_str());
        out.append("\n");
        proof {
            assert(v.take(i + 1).drop_last() =~= v.take(i as int));
        }
        i += 1;
    }
    proof {
        assert(v.take(i as int) =~= v);
    }
    out
}

impl ANFAtomic {
    /// The atom as it is written.
    pub fn to_text(&self) -> (r: String)
        ensures
            r@ == anf_atomic_text(self@),
        decreases self,
    {
        match self {
            ANFAtomic::Block { anfs, .. } => {
                let mut text = string_from("{\n");
                let lines = anf_statement_lines_of(anfs);
                text.append(lines.as_str());
                text.append("}");
                text
            },
            ANFAtomic::Literal { literal, .. } => literal.to_text(),
            ANFAtomic::Var { var, .. } => var.to_text(),
            ANFAtomic::Lambda { param, body, .. } => {
                let mut text = param.to_text();
                text.append(" => ");
                let b = body.to_text();
                text.append(b.as_str());
                text
            },
            ANFAtomic::Tuple { items, .. } => {
                let texts = anf_value_texts_of(items);
                let mut text = string_from("(");
                let joined = format_joined(&texts, ", ");
                text.append(joined.as_str());
                text.append(")");
                text
            },
            ANFAtomic::Match { scrutinee, arms, .. } => {
                let mut text = string_from("match ");
                let s = scrutinee.to_text();
                text.append(s.as_str());
                text.append(" {\n");
                let lines = anf_arm_lines_of(arms);
                text.append(lines.as_str());
                text.append("}");
                text
            },
            ANFAtomic::Constructor { tag, items, .. } => {
                let mut text = tag.clone();
                let args = anf_constructor_args_of(items);
                text.append(args.as_str());
                text
            },
        }
    }
}

} // verus!
