//! How parsed statements and expressions are written back as text.

use vstd::prelude::*;

use crate::parser::Literal;
use crate::parser::LiteralModel;
use crate::parser::core_expr::CoreDataConstructor;
use crate::parser::core_expr::CoreKindExpr;
use crate::parser::core_expr::CoreTypeExpr;
use crate::parser::core_expr::DataConstructorModel;
use crate::parser::core_expr::TypeExprModel;
use crate::parser::core_expr::atomic_type_expr_views;
use crate::parser::core_expr::data_constructor_views;
use crate::parser::core_expr::lemma_atomic_type_expr_views;
use crate::parser::core_expr::spec_atomic_type_text;
use crate::parser::core_expr::spec_atomic_type_texts;
use crate::parser::parsed_expr::DeclPatternModel;
use crate::parser::parsed_expr::MatchArmModel;
use crate::parser::parsed_expr::OpKind;
use crate::parser::parsed_expr::ParsedDeclPattern;
use crate::parser::parsed_expr::ParsedMatchArm;
use crate::parser::parsed_expr::ParsedStatement;
use crate::parser::parsed_expr::ParsedStatementModel;
use crate::parser::parsed_expr::ParsedValueExpr;
use crate::parser::parsed_expr::ValueExprModel;
use crate::parser::parsed_expr::decl_pattern_views;
use crate::parser::parsed_expr::lemma_decl_pattern_views;
use crate::parser::parsed_expr::lemma_match_arm_views;
use crate::parser::parsed_expr::lemma_statement_views;
use crate::parser::parsed_expr::lemma_value_expr_views;
use crate::parser::parsed_expr::match_arm_views;
use crate::parser::parsed_expr::statement_views;
use crate::parser::parsed_expr::value_expr_views;
use crate::static_check::eval::spec_eval_kind_expr;
use crate::static_check::kind::spec_kind_text;
use crate::util::fmt_parenthesized;
use crate::util::format_joined;
use crate::util::i32_to_decimal;
use crate::util::indent;
use crate::util::spec_indent;
use crate::util::spec_join;
use crate::util::spec_parenthesized;
use crate::util::spec_signed_decimal;
use crate::util::string_from;
use crate::util::string_views;

verus! {

pub open spec fn literal_text(l: LiteralModel) -> Seq<char> {
    match l {
        LiteralModel::Int32(v) => spec_signed_decimal(v as int),
        LiteralModel::Float32(text) => text,
    }
}

pub open spec fn op_text(kind: OpKind) -> Seq<char> {
    match kind {
        OpKind::Plus => seq!['+'],
        OpKind::Minus => seq!['-'],
        OpKind::Star => seq!['*'],
        OpKind::Slash => seq!['/'],
        OpKind::Arrow => seq!['-', '>'],
    }
}

/// The texts of items, each in parentheses where it holds a space.
pub open spec fn parenthesized_texts(texts: Seq<Seq<char>>) -> Seq<Seq<char>> {
    texts.map_values(|t: Seq<char>| spec_parenthesized(t))
}

/// A declaration pattern as it is written: a tuple's items joined by
/// commas, a collection's items side by side.
pub open spec fn decl_pattern_text(p: DeclPatternModel) -> Seq<char>
    decreases p,
{
    match p {
        DeclPatternModel::Identifier { name, .. } => name,
        DeclPatternModel::Literal { literal, .. } => literal_text(literal),
        DeclPatternModel::Tuple { items, .. } => spec_join(decl_pattern_texts(items), seq![',', ' ']),
        DeclPatternModel::Collection { items, .. } => spec_join(
            parenthesized_texts(decl_pattern_texts(items)),
            seq![' '],
        ),
    }
}

pub open spec fn decl_pattern_texts(s: Seq<DeclPatternModel>) -> Seq<Seq<char>>
    decreases s,
{
    if s.len() == 0 {
        Seq::empty()
    } else {
        decl_pattern_texts(s.drop_last()).push(decl_pattern_text(s.last()))
    }
}

/// A value expression as it is written; a block and a match hold one
/// indented line for each statement or arm.
pub open spec fn value_expr_text(e: ValueExprModel) -> Seq<char>
    decreases e,
{
    match e {
        ValueExprModel::Block { statements, .. } => seq!['{', '\n'] + statement_lines(statements) + seq!['}'],
        ValueExprModel::Identifier { name, .. } => name,
        ValueExprModel::Op { kind, .. } => op_text(kind),
        ValueExprModel::Literal { literal, .. } => literal_text(literal),
        ValueExprModel::Tuple { items, .. } => seq!['('] + spec_join(value_expr_texts(items), seq![',', ' '])
            + seq![')'],
        ValueExprModel::Lambda { param_name, body, .. } => param_name + seq![' ', '=', '>', ' ']
            + value_expr_text(*body),
        ValueExprModel::Collection { items, .. } => spec_join(parenthesized_texts(value_expr_texts(items)), seq![' ']),
        ValueExprModel::Match { scrutinee, match_arms, .. } => seq!['m', 'a', 't', 'c', 'h', ' ']
            + value_expr_text(*scrutinee) + seq![' ', '{', '\n'] + arm_lines(match_arms) + seq!['}'],
    }
}

pub open spec fn value_expr_texts(s: Seq<ValueExprModel>) -> Seq<Seq<char>>
    decreases s,
{
    if s.len() == 0 {
        Seq::empty()
    } else {
        value_expr_texts(s.drop_last()).push(value_expr_text(s.last()))
    }
}

pub open spec fn statement_lines(s: Seq<ParsedStatementModel>) -> Seq<char>
    decreases s,
{
    if s.len() == 0 {
        Seq::empty()
    } else {
        statement_lines(s.drop_last()) + spec_indent(statement_text(s.last())) + seq!['\n']
    }
}

pub open spec fn arm_text(a: MatchArmModel) -> Seq<char>
    decreases a,
{
    value_expr_text(a.pattern) + seq![' ', '=', '>', ' '] + value_expr_text(a.value_expr)
}

pub open spec fn arm_lines(s: Seq<MatchArmModel>) -> Seq<char>
    decreases s,
{
    if s.len() == 0 {
        Seq::empty()
    } else {
        arm_lines(s.drop_last()) + spec_indent(arm_text(s.last())) + seq!['\n']
    }
}

/// A kind expression as it is written: as the kind it denotes.
pub open spec fn kind_expr_text(k: CoreKindExpr) -> Seq<char> {
    spec_kind_text(spec_eval_kind_expr(k))
}

/// A data constructor as it is written: its tag, then its field types.
pub open spec fn data_constructor_text(c: DataConstructorModel) -> Seq<char> {
    spec_join(seq![c.tag] + parenthesized_texts(spec_atomic_type_texts(c.types)), seq![' '])
}

/// A type declaration's right side as it is written: summands joined by `+`.
pub open spec fn type_expr_text(t: TypeExprModel) -> Seq<char> {
    match t {
        TypeExprModel::Atomic(a) => spec_atomic_type_text(a),
        TypeExprModel::Sum { ctors, .. } => spec_join(
            ctors.map_values(|c: DataConstructorModel| data_constructor_text(c)),
            seq![' ', '+', ' '],
        ),
    }
}

pub open spec fn statement_text(s: ParsedStatementModel) -> Seq<char>
    decreases s,
{
    match s {
        ParsedStatementModel::KindAnnotation { name, expr, .. } => name + seq![' ', ':', ' '] + kind_expr_text(expr),
        ParsedStatementModel::TypeDeclaration { name, expr, .. } => name + seq![' ', '=', ' '] + type_expr_text(expr),
        ParsedStatementModel::TypeAnnotation { pattern, expr, .. } => decl_pattern_text(pattern) + seq![' ', ':', ' ']
            + spec_atomic_type_text(expr),
        ParsedStatementModel::VarDeclaration { pattern, expr, .. } => decl_pattern_text(pattern) + seq![' ', '=', ' ']
            + value_expr_text(expr),
        ParsedStatementModel::Expression { expr, .. } => value_expr_text(expr),
    }
}

} // verus!

verus! {

impl Literal {
    pub fn to_text(&self) -> (r: String)
        ensures
            r@ == literal_text(self@),
    {
        match self {
            Literal::Int32(v) => i32_to_decimal(*v),
            Literal::Float32(text) => text.clone(),
        }
    }
}

impl OpKind {
    pub fn to_text(&self) -> (r: String)
        ensures
            r@ == op_text(*self),
    {
        let r = match self {
            OpKind::Plus => string_from("+"),
            OpKind::Minus => string_from("-"),
            OpKind::Star => string_from("*"),
            OpKind::Slash => string_from("/"),
            OpKind::Arrow => string_from("->"),
        };
        proof {
            reveal_strlit("+");
            reveal_strlit("-");
            reveal_strlit("*");
            reveal_strlit("/");
            reveal_strlit("->");
        }
        r
    }
}

/// Each text in parentheses where it holds a space.
fn parenthesize_all(texts: &Vec<String>) -> (r: Vec<String>)
    ensures
        string_views(r@) == parenthesized_texts(string_views(texts@)),
{
    let mut out: Vec<String> = Vec::new();
    let mut i: usize = 0;
    while i < texts.len()
        invariant
            i <= texts.len(),
            out@.len() == i,
            forall|j: int| 0 <= j < i ==> #[trigger] out@[j]@ == spec_parenthesized(texts@[j]@),
        decreases texts.len() - i,
    {
        out.push(fmt_parenthesized(texts[i].as_str()));
        i += 1;
    }
    assert(string_views(out@) =~= parenthesized_texts(string_views(texts@)));
    out
}

impl ParsedDeclPattern {
    /// The pattern as it is written.
    pub fn to_text(&self) -> (r: String)
        ensures
            r@ == decl_pattern_text(self@),
        decreases self,
    {
        match self {
            ParsedDeclPattern::Identifier { name, .. } => name.clone(),
            ParsedDeclPattern::Literal { literal, .. } => literal.to_text(),
            ParsedDeclPattern::Tuple { items, .. } => {
                let texts = decl_pattern_texts_of(items);
                proof {
                    reveal_strlit(", ");
                    assert(", "@ =~= seq![',', ' ']);
                }
                format_joined(&texts, ", ")
            },
            ParsedDeclPattern::Collection { items, .. } => {
                let texts = decl_pattern_texts_of(items);
                let texts = parenthesize_all(&texts);
                proof {
                    reveal_strlit(" ");
                    assert(" "@ =~= seq![' ']);
                }
                format_joined(&texts, " ")
            },
        }
    }
}

fn decl_pattern_texts_of(items: &Vec<ParsedDeclPattern>) -> (r: Vec<String>)
    ensures
        string_views(r@) == decl_pattern_texts(decl_pattern_views(items@)),
    decreases items,
{
    let mut out: Vec<String> = Vec::new();
    let mut i: usize = 0;
    proof {
        lemma_decl_pattern_views(items@);
    }
    while i < items.len()
        invariant
            i <= items.len(),
            decl_pattern_views(items@).len() == items.len(),
            forall|j: int| 0 <= j < items.len() ==> #[trigger] decl_pattern_views(items@)[j] == items@[j]@,
            string_views(out@) == decl_pattern_texts(decl_pattern_views(items@).take(i as int)),
        decreases items.len() - i,
    {
        proof {
            assert(decreases_to!(*items => items@));
            assert(decreases_to!(items@ => items@[i as int]));
        }
        let t = items[i].to_text();
        let ghost before = out@;
        out.push(t);
        proof {
            let v = decl_pattern_views(items@);
            assert(v.take(i + 1).drop_last() =~= v.take(i as int));
            assert(string_views(out@) =~= string_views(before).push(t@));
        }
        i += 1;
    }
    proof {
        assert(decl_pattern_views(items@).take(items.len() as int) =~= decl_pattern_views(items@));
    }
    out
}

impl ParsedValueExpr {
    /// The expression as it is written.
    pub fn to_text(&self) -> (r: String)
        ensures
            r@ == value_expr_text(self@),
        decreases self,
    {
        match self {
            ParsedValueExpr::Block { statements, .. } => {
                let mut text = string_from("{\n");
                let lines = statement_lines_of(statements);
                text.append(lines.as_str());
                text.append("}");
                proof {
                    reveal_strlit("{\n");
                    reveal_strlit("}");
                }
                text
            },
            ParsedValueExpr::Identifier { name, .. } => name.clone(),
            ParsedValueExpr::Op { kind, .. } => kind.to_text(),
            ParsedValueExpr::Literal { literal, .. } => literal.to_text(),
            ParsedValueExpr::Tuple { items, .. } => {
                let texts = value_expr_texts_of(items);
                let mut text = string_from("(");
                let joined = format_joined(&texts, ", ");
                text.append(joined.as_str());
                text.append(")");
                proof {
                    reveal_strlit("(");
                    reveal_strlit(")");
                    reveal_strlit(", ");
                    assert(", "@ =~= seq![',', ' ']);
                }
                text
            },
            ParsedValueExpr::Lambda { param_name, body, .. } => {
                let mut text = param_name.clone();
                text.append(" => ");
                let b = body.to_text();
                text.append(b.as_str());
                proof {
                    reveal_strlit(" => ");
                }
                text
            },
            ParsedValueExpr::Collection { items, .. } => {
                let texts = value_expr_texts_of(items);
                let texts = parenthesize_all(&texts);
                proof {
                    reveal_strlit(" ");
                    assert(" "@ =~= seq![' ']);
                }
                format_joined(&texts, " ")
            },
            ParsedValueExpr::Match { scrutinee, match_arms, .. } => {
                let mut text = string_from("match ");
                let s = scrutinee.to_text();
                text.append(s.as_str());
                text.append(" {\n");
                let lines = arm_lines_of(match_arms);
                text.append(lines.as_str());
                text.append("}");
                proof {
                    reveal_strlit("match ");
                    reveal_strlit(" {\n");
                    reveal_strlit("}");
                }
                text
            },
        }
    }
}

fn value_expr_texts_of(items: &Vec<ParsedValueExpr>) -> (r: Vec<String>)
    ensures
        string_views(r@) == value_expr_texts(value_expr_views(items@)),
    decreases items,
{
    let mut out: Vec<String> = Vec::new();
    let mut i: usize = 0;
    proof {
        lemma_value_expr_views(items@);
    }
    while i < items.len()
        invariant
            i <= items.len(),
            value_expr_views(items@).len() == items.len(),
            forall|j: int| 0 <= j < items.len() ==> #[trigger] value_expr_views(items@)[j] == items@[j]@,
            string_views(out@) == value_expr_texts(value_expr_views(items@).take(i as int)),
        decreases items.len() - i,
    {
        proof {
            assert(decreases_to!(*items => items@));
            assert(decreases_to!(items@ => items@[i as int]));
        }
        let t = items[i].to_text();
        let ghost before = out@;
        out.push(t);
        proof {
            let v = value_expr_views(items@);
            assert(v.take(i + 1).drop_last() =~= v.take(i as int));
            assert(string_views(out@) =~= string_views(before).push(t@));
        }
        i += 1;
    }
    proof {
        assert(value_expr_views(items@).take(items.len() as int) =~= value_expr_views(items@));
    }
    out
}

fn statement_lines_of(statements: &Vec<ParsedStatement>) -> (r: String)
    ensures
        r@ == statement_lines(statement_views(statements@)),
    decreases statements,
{
    let mut out = String::new();
    let mut i: usize = 0;
    proof {
        lemma_statement_views(statements@);
        assert(out@ =~= statement_lines(statement_views(statements@).take(0)));
    }
    while i < statements.len()
        invariant
            i <= statements.len(),
            statement_views(statements@).len() == statements.len(),
            forall|j: int| 0 <= j < statements.len() ==> #[trigger] statement_views(statements@)[j] == statements@[j]@,
            out@ == statement_lines(statement_views(statements@).take(i as int)),
        decreases statements.len() - i,
    {
        proof {
            assert(decreases_to!(*statements => statements@));
            assert(decreases_to!(statements@ => statements@[i as int]));
        }
        let t = statements[i].to_text();
        let line = indent(t.as_str());
        out.append(line.as_str());
        out.append("\n");
        proof {
            reveal_strlit("\n");
            let v = statement_views(statements@);
            assert(v.take(i + 1).drop_last() =~= v.take(i as int));
        }
        i += 1;
    }
    proof {
        assert(statement_views(statements@).take(statements.len() as int) =~= statement_views(statements@));
    }
    out
}

fn arm_lines_of(arms: &Vec<ParsedMatchArm>) -> (r: String)
    ensures
        r@ == arm_lines(match_arm_views(arms@)),
    decreases arms,
{
    let mut out = String::new();
    let mut i: usize = 0;
    proof {
        lemma_match_arm_views(arms@);
        assert(out@ =~= arm_lines(match_arm_views(arms@).take(0)));
    }
    while i < arms.len()
        invariant
            i <= arms.len(),
            match_arm_views(arms@).len() == arms.len(),
            forall|j: int| 0 <= j < arms.len() ==> #[trigger] match_arm_views(arms@)[j] == arms@[j]@,
            out@ == arm_lines(match_arm_views(arms@).take(i as int)),
        decreases arms.len() - i,
    {
        proof {
            assert(decreases_to!(*arms => arms@));
            assert(decreases_to!(arms@ => arms@[i as int]));
            assert(decreases_to!(arms@[i as int] => arms@[i as int].pattern));
            assert(decreases_to!(arms@[i as int] => arms@[i as int].value_expr));
        }
        let mut t = arms[i].pattern.to_text();
        t.append(" => ");
        let v = arms[i].value_expr.to_text();
        t.append(v.as_str());
        let line = indent(t.as_str());
        out.append(line.as_str());
        out.append("\n");
        proof {
            reveal_strlit("\n");
            reveal_strlit(" => ");
            let v = match_arm_views(arms@);
            assert(v.take(i + 1).drop_last() =~= v.take(i as int));
            assert(v.take(i + 1).last() == arms@[i as int]@);
            assert(arm_text(arms@[i as int]@) == t@);
        }
        i += 1;
    }
    proof {
        assert(match_arm_views(arms@).take(arms.len() as int) =~= match_arm_views(arms@));
    }
    out
}

impl CoreKindExpr {
    /// The kind expression as it is written.
    pub fn to_text(&self) -> (r: String)
        ensures
            r@ == kind_expr_text(*self),
    {
        let kind = crate::static_check::eval::eval_kind_expr(self);
        match kind {
            Ok(kind) => kind.to_text(),
            Err(_) => String::new(),
        }
    }
}

fn data_constructor_text_of(c: &CoreDataConstructor) -> (r: String)
    ensures
        r@ == data_constructor_text(c@),
{
    let mut texts: Vec<String> = Vec::new();
    texts.push(c.tag.clone());
    let mut i: usize = 0;
    proof {
        lemma_atomic_type_expr_views(c.types@);
    }
    while i < c.types.len()
        invariant
            i <= c.types.len(),
            atomic_type_expr_views(c.types@).len() == c.types.len(),
            forall|j: int| 0 <= j < c.types.len() ==> #[trigger] atomic_type_expr_views(c.types@)[j] == c.types@[j]@,
            texts@.len() == i + 1,
            texts@[0]@ == c.tag@,
            forall|j: int| 1 <= j <= i ==> #[trigger] texts@[j]@ == spec_parenthesized(
                spec_atomic_type_text(c.types@[j - 1]@),
            ),
        decreases c.types.len() - i,
    {
        let t = c.types[i].to_text();
        texts.push(fmt_parenthesized(t.as_str()));
        i += 1;
    }
    proof {
        reveal_strlit(" ");
        assert(" "@ =~= seq![' ']);
        let types = atomic_type_expr_views(c.types@);
        assert forall|j: int| 0 <= j < types.len() implies #[trigger] spec_atomic_type_texts(types)[j] == spec_atomic_type_text(types[j]) by {
            lemma_atomic_type_texts(types, j);
        }
        lemma_atomic_type_texts_len(types);
        assert(string_views(texts@) =~= seq![c.tag@] + parenthesized_texts(spec_atomic_type_texts(types)));
    }
    format_joined(&texts, " ")
}

proof fn lemma_atomic_type_texts_len(s: Seq<crate::parser::core_expr::AtomicTypeExprModel>)
    ensures
        spec_atomic_type_texts(s).len() == s.len(),
    decreases s.len(),
{
    if s.len() > 0 {
        lemma_atomic_type_texts_len(s.drop_last());
    }
}

proof fn lemma_atomic_type_texts(s: Seq<crate::parser::core_expr::AtomicTypeExprModel>, j: int)
    requires
        0 <= j < s.len(),
    ensures
        spec_atomic_type_texts(s)[j] == spec_atomic_type_text(s[j]),
    decreases s.len(),
{
    lemma_atomic_type_texts_len(s);
    if j < s.len() - 1 {
        lemma_atomic_type_texts(s.drop_last(), j);
        lemma_atomic_type_texts_len(s.drop_last());
    }
}

impl CoreTypeExpr {
    /// The type declaration's right side as it is written.
    pub fn to_text(&self) -> (r: String)
        ensures
            r@ == type_expr_text(self@),
    {
        match self {
            CoreTypeExpr::Atomic(a) => a.to_text(),
            CoreTypeExpr::Sum { ctors, .. } => {
                let mut texts: Vec<String> = Vec::new();
                let mut i: usize = 0;
                while i < ctors.len()
                    invariant
                        i <= ctors.len(),
                        texts@.len() == i,
                        forall|j: int| 0 <= j < i ==> #[trigger] texts@[j]@ == data_constructor_text(ctors@[j]@),
                    decreases ctors.len() - i,
                {
                    texts.push(data_constructor_text_of(&ctors[i]));
                    i += 1;
                }
                proof {
                    reveal_strlit(" + ");
                    assert(" + "@ =~= seq![' ', '+', ' ']);
                    assert(string_views(texts@) =~= data_constructor_views(ctors@).map_values(
                        |c: DataConstructorModel| data_constructor_text(c),
                    ));
                }
                format_joined(&texts, " + ")
            },
        }
    }
}

impl ParsedStatement {
    /// The statement as it is written.
    pub fn to_text(&self) -> (r: String)
        ensures
            r@ == statement_text(self@),
        decreases self,
    {
        let (mut text, sep, rest) = match self {
            ParsedStatement::KindAnnotation { name, expr, .. } => (name.clone(), " : ", expr.to_text()),
            ParsedStatement::TypeDeclaration { name, expr, .. } => (name.clone(), " = ", expr.to_text()),
            ParsedStatement::TypeAnnotation { pattern, expr, .. } => (pattern.to_text(), " : ", expr.to_text()),
            ParsedStatement::VarDeclaration { pattern, expr, .. } => (pattern.to_text(), " = ", expr.to_text()),
            ParsedStatement::Expression { expr, .. } => {
                return expr.to_text();
            },
        };
        text.append(sep);
        text.append(rest.as_str());
        proof {
            reveal_strlit(" : ");
            reveal_strlit(" = ");
        }
        text
    }
}

} // verus!
