//! The core language that the static checks read: statements, patterns,
//! value expressions, and kind and type expressions.

use vstd::prelude::*;

use crate::error::Span;
use crate::parser::Literal;
use crate::parser::LiteralModel;
use crate::util::string_views;

verus! {

// --- kind and type expressions ---

pub enum CoreKindExpr {
    Type { span: Span },
    Constraint { span: Span },
    Function { param_kind: Box<CoreKindExpr>, return_kind: Box<CoreKindExpr>, span: Span },
}

impl View for CoreKindExpr {
    type V = CoreKindExpr;

    open spec fn view(&self) -> CoreKindExpr {
        *self
    }
}

impl CoreKindExpr {
    pub fn span(&self) -> (span: Span)
        ensures
            span == self.spec_span(),
    {
        match self {
            CoreKindExpr::Type { span } => *span,
            CoreKindExpr::Constraint { span } => *span,
            CoreKindExpr::Function { span, .. } => *span,
        }
    }

    pub open spec fn spec_span(&self) -> Span {
        match self {
            CoreKindExpr::Type { span } => *span,
            CoreKindExpr::Constraint { span } => *span,
            CoreKindExpr::Function { span, .. } => *span,
        }
    }
}

pub enum CoreAtomicTypeExpr {
    Identifier { name: String, span: Span },
    Function { param_type: Box<CoreAtomicTypeExpr>, return_type: Box<CoreAtomicTypeExpr>, span: Span },
    Product { types: Vec<CoreAtomicTypeExpr>, span: Span },
    FunctionAppl { callee: Box<CoreAtomicTypeExpr>, arg: Box<CoreAtomicTypeExpr>, span: Span },
}

impl CoreAtomicTypeExpr {
    pub open spec fn spec_span(&self) -> Span {
        match self {
            CoreAtomicTypeExpr::Identifier { span, .. } => *span,
            CoreAtomicTypeExpr::Function { span, .. } => *span,
            CoreAtomicTypeExpr::Product { span, .. } => *span,
            CoreAtomicTypeExpr::FunctionAppl { span, .. } => *span,
        }
    }

    pub fn span(&self) -> (span: Span)
        ensures
            span == self.spec_span(),
            span == atomic_type_expr_span(self@),
    {
        match self {
            CoreAtomicTypeExpr::Identifier { span, .. } => *span,
            CoreAtomicTypeExpr::Function { span, .. } => *span,
            CoreAtomicTypeExpr::Product { span, .. } => *span,
            CoreAtomicTypeExpr::FunctionAppl { span, .. } => *span,
        }
    }
}

/// The mathematical value of a type expression.
pub enum AtomicTypeExprModel {
    Identifier { name: Seq<char>, span: Span },
    Function { param_type: Box<AtomicTypeExprModel>, return_type: Box<AtomicTypeExprModel>, span: Span },
    Product { types: Seq<AtomicTypeExprModel>, span: Span },
    FunctionAppl { callee: Box<AtomicTypeExprModel>, arg: Box<AtomicTypeExprModel>, span: Span },
}

pub open spec fn atomic_type_expr_view(e: CoreAtomicTypeExpr) -> AtomicTypeExprModel
    decreases e,
{
    match e {
        CoreAtomicTypeExpr::Identifier { name, span } => AtomicTypeExprModel::Identifier { name: name@, span },
        CoreAtomicTypeExpr::Function { param_type, return_type, span } => AtomicTypeExprModel::Function {
            param_type: Box::new(atomic_type_expr_view(*param_type)),
            return_type: Box::new(atomic_type_expr_view(*return_type)),
            span,
        },
        CoreAtomicTypeExpr::Product { types, span } => AtomicTypeExprModel::Product {
            types: atomic_type_expr_views(types@),
            span,
        },
        CoreAtomicTypeExpr::FunctionAppl { callee, arg, span } => AtomicTypeExprModel::FunctionAppl {
            callee: Box::new(atomic_type_expr_view(*callee)),
            arg: Box::new(atomic_type_expr_view(*arg)),
            span,
        },
    }
}

pub open spec fn atomic_type_expr_views(s: Seq<CoreAtomicTypeExpr>) -> Seq<AtomicTypeExprModel>
    decreases s,
{
    if s.len() == 0 {
        Seq::empty()
    } else {
        atomic_type_expr_views(s.drop_last()).push(atomic_type_expr_view(s.last()))
    }
}

impl View for CoreAtomicTypeExpr {
    type V = AtomicTypeExprModel;

    open spec fn view(&self) -> AtomicTypeExprModel {
        atomic_type_expr_view(*self)
    }
}

pub proof fn lemma_atomic_type_expr_views(s: Seq<CoreAtomicTypeExpr>)
    ensures
        atomic_type_expr_views(s).len() == s.len(),
        forall|i: int| 0 <= i < s.len() ==> #[trigger] atomic_type_expr_views(s)[i] == s[i]@,
    decreases s.len(),
{
    if s.len() > 0 {
        lemma_atomic_type_expr_views(s.drop_last());
    }
}

pub proof fn lemma_atomic_type_expr_views_eq(s: Seq<CoreAtomicTypeExpr>, models: Seq<AtomicTypeExprModel>)
    requires
        s.len() == models.len(),
        forall|i: int| 0 <= i < s.len() ==> #[trigger] s[i]@ == models[i],
    ensures
        atomic_type_expr_views(s) == models,
{
    lemma_atomic_type_expr_views(s);
    assert(atomic_type_expr_views(s) =~= models);
}

/// Views of a sequence grown by one.
pub proof fn lemma_atomic_type_expr_views_push(s: Seq<CoreAtomicTypeExpr>, x: CoreAtomicTypeExpr)
    ensures
        atomic_type_expr_views(s.push(x)) == atomic_type_expr_views(s).push(x@),
{
    assert(s.push(x).drop_last() =~= s);
}

/// A copy of a type expression.
pub fn copy_atomic_type_expr(e: &CoreAtomicTypeExpr) -> (copy: CoreAtomicTypeExpr)
    ensures
        copy@ == e@,
    decreases e,
{
    match e {
        CoreAtomicTypeExpr::Identifier { name, span } => CoreAtomicTypeExpr::Identifier { name: name.clone(), span: *span },
        CoreAtomicTypeExpr::Function { param_type, return_type, span } => CoreAtomicTypeExpr::Function {
            param_type: Box::new(copy_atomic_type_expr(param_type)),
            return_type: Box::new(copy_atomic_type_expr(return_type)),
            span: *span,
        },
        CoreAtomicTypeExpr::Product { types, span } => CoreAtomicTypeExpr::Product {
            types: copy_atomic_type_exprs(types),
            span: *span,
        },
        CoreAtomicTypeExpr::FunctionAppl { callee, arg, span } => CoreAtomicTypeExpr::FunctionAppl {
            callee: Box::new(copy_atomic_type_expr(callee)),
            arg: Box::new(copy_atomic_type_expr(arg)),
            span: *span,
        },
    }
}

pub fn copy_atomic_type_exprs(es: &Vec<CoreAtomicTypeExpr>) -> (copies: Vec<CoreAtomicTypeExpr>)
    ensures
        atomic_type_expr_views(copies@) == atomic_type_expr_views(es@),
    decreases es,
{
    let mut out: Vec<CoreAtomicTypeExpr> = Vec::new();
    let mut i: usize = 0;
    while i < es.len()
        invariant
            i <= es.len(),
            out@.len() == i,
            forall|j: int| 0 <= j < i ==> #[trigger] out@[j]@ == es@[j]@,
        decreases es.len() - i,
    {
        proof {
            assert(decreases_to!(*es => es@));
            assert(decreases_to!(es@ => es@[i as int]));
        }
        out.push(copy_atomic_type_expr(&es[i]));
        i += 1;
    }
    proof {
        lemma_atomic_type_expr_views(es@);
        lemma_atomic_type_expr_views_eq(out@, atomic_type_expr_views(es@));
    }
    out
}

impl CoreKindExpr {
    pub fn copy(&self) -> (copy: CoreKindExpr)
        ensures
            copy == *self,
        decreases self,
    {
        match self {
            CoreKindExpr::Type { span } => CoreKindExpr::Type { span: *span },
            CoreKindExpr::Constraint { span } => CoreKindExpr::Constraint { span: *span },
            CoreKindExpr::Function { param_kind, return_kind, span } => CoreKindExpr::Function {
                param_kind: Box::new(param_kind.copy()),
                return_kind: Box::new(return_kind.copy()),
                span: *span,
            },
        }
    }
}

pub struct CoreDataConstructor {
    pub tag: String,
    pub types: Vec<CoreAtomicTypeExpr>,
}

pub enum CoreTypeExpr {
    Atomic(CoreAtomicTypeExpr),
    Sum { ctors: Vec<CoreDataConstructor>, span: Span },
}

pub struct DataConstructorModel {
    pub tag: Seq<char>,
    pub types: Seq<AtomicTypeExprModel>,
}

impl View for CoreDataConstructor {
    type V = DataConstructorModel;

    open spec fn view(&self) -> DataConstructorModel {
        DataConstructorModel { tag: self.tag@, types: atomic_type_expr_views(self.types@) }
    }
}

pub enum TypeExprModel {
    Atomic(AtomicTypeExprModel),
    Sum { ctors: Seq<DataConstructorModel>, span: Span },
}

pub open spec fn data_constructor_views(s: Seq<CoreDataConstructor>) -> Seq<DataConstructorModel> {
    s.map_values(|c: CoreDataConstructor| c@)
}

impl View for CoreTypeExpr {
    type V = TypeExprModel;

    open spec fn view(&self) -> TypeExprModel {
        match self {
            CoreTypeExpr::Atomic(e) => TypeExprModel::Atomic(e@),
            CoreTypeExpr::Sum { ctors, span } => TypeExprModel::Sum {
                ctors: data_constructor_views(ctors@),
                span: *span,
            },
        }
    }
}

impl CoreTypeExpr {
    pub fn copy(&self) -> (copy: CoreTypeExpr)
        ensures
            copy@ == self@,
    {
        match self {
            CoreTypeExpr::Atomic(e) => CoreTypeExpr::Atomic(copy_atomic_type_expr(e)),
            CoreTypeExpr::Sum { ctors, span } => {
                let mut copies: Vec<CoreDataConstructor> = Vec::new();
                let mut i: usize = 0;
                while i < ctors.len()
                    invariant
                        i <= ctors.len(),
                        copies@.len() == i,
                        forall|j: int| 0 <= j < i ==> #[trigger] copies@[j]@ == ctors@[j]@,
                    decreases ctors.len() - i,
                {
                    let c = CoreDataConstructor {
                        tag: ctors[i].tag.clone(),
                        types: copy_atomic_type_exprs(&ctors[i].types),
                    };
                    copies.push(c);
                    i += 1;
                }
                assert(data_constructor_views(copies@) =~= data_constructor_views(ctors@));
                CoreTypeExpr::Sum { ctors: copies, span: *span }
            },
        }
    }
}

pub open spec fn type_expr_span(e: TypeExprModel) -> Span {
    match e {
        TypeExprModel::Atomic(a) => atomic_type_expr_span(a),
        TypeExprModel::Sum { span, .. } => span,
    }
}

pub open spec fn atomic_type_expr_span(e: AtomicTypeExprModel) -> Span {
    match e {
        AtomicTypeExprModel::Identifier { span, .. } => span,
        AtomicTypeExprModel::Function { span, .. } => span,
        AtomicTypeExprModel::Product { span, .. } => span,
        AtomicTypeExprModel::FunctionAppl { span, .. } => span,
    }
}

impl CoreTypeExpr {
    pub fn span(&self) -> (span: Span)
        ensures
            span == type_expr_span(self@),
    {
        match self {
            CoreTypeExpr::Atomic(e) => e.span(),
            CoreTypeExpr::Sum { span, .. } => *span,
        }
    }
}

// --- declaration patterns ---

pub enum CoreDeclPattern {
    Identifier { name: String, span: Span },
    Tuple { items: Vec<CoreTupleDeclPattern>, span: Span },
}

pub enum CoreTupleDeclPattern {
    Identifier { name: String, span: Span },
    Tuple { items: Vec<CoreTupleDeclPattern>, span: Span },
}

/// The names a tuple pattern binds, left to right.
pub open spec fn spec_tuple_pattern_names(p: CoreTupleDeclPattern) -> Seq<Seq<char>>
    decreases p,
{
    match p {
        CoreTupleDeclPattern::Identifier { name, .. } => seq![name@],
        CoreTupleDeclPattern::Tuple { items, .. } => spec_tuple_patterns_names(items@),
    }
}

pub open spec fn spec_tuple_patterns_names(s: Seq<CoreTupleDeclPattern>) -> Seq<Seq<char>>
    decreases s,
{
    if s.len() == 0 {
        Seq::empty()
    } else {
        spec_tuple_patterns_names(s.drop_last()) + spec_tuple_pattern_names(s.last())
    }
}

/// The names a declaration pattern binds, left to right.
pub open spec fn spec_decl_pattern_names(p: CoreDeclPattern) -> Seq<Seq<char>> {
    match p {
        CoreDeclPattern::Identifier { name, .. } => seq![name@],
        CoreDeclPattern::Tuple { items, .. } => spec_tuple_patterns_names(items@),
    }
}

impl CoreDeclPattern {
    pub fn all_identifiers(&self) -> (names: Vec<String>)
        ensures
            string_views(names@) == spec_decl_pattern_names(*self),
    {
        match self {
            CoreDeclPattern::Identifier { name, .. } => {
                let mut names = Vec::new();
                names.push(name.clone());
                assert(string_views(names@) =~= seq![name@]);
                names
            },
            CoreDeclPattern::Tuple { items, .. } => {
                let mut names = Vec::new();
                tuple_patterns_identifiers(items, &mut names);
                assert(string_views(names@) =~= spec_tuple_patterns_names(items@));
                names
            },
        }
    }
}

impl CoreTupleDeclPattern {
    pub fn all_identifiers(&self) -> (names: Vec<String>)
        ensures
            string_views(names@) == spec_tuple_pattern_names(*self),
    {
        let mut names = Vec::new();
        self.push_identifiers(&mut names);
        assert(string_views(names@) =~= spec_tuple_pattern_names(*self));
        names
    }

    fn push_identifiers(&self, names: &mut Vec<String>)
        ensures
            string_views(final(names)@) == string_views(old(names)@) + spec_tuple_pattern_names(*self),
        decreases self,
    {
        match self {
            CoreTupleDeclPattern::Identifier { name, .. } => {
                names.push(name.clone());
                assert(string_views(names@) =~= string_views(old(names)@) + seq![name@]);
            },
            CoreTupleDeclPattern::Tuple { items, .. } => {
                tuple_patterns_identifiers(items, names);
            },
        }
    }
}

fn tuple_patterns_identifiers(items: &Vec<CoreTupleDeclPattern>, names: &mut Vec<String>)
    ensures
        string_views(final(names)@) == string_views(old(names)@) + spec_tuple_patterns_names(items@),
    decreases items,
{
    let mut i: usize = 0;
    while i < items.len()
        invariant
            i <= items.len(),
            string_views(names@) == string_views(old(names)@) + spec_tuple_patterns_names(
                items@.take(i as int),
            ),
        decreases items.len() - i,
    {
        proof {
            assert(decreases_to!(*items => items@));
            assert(decreases_to!(items@ => items@[i as int]));
        }
        items[i].push_identifiers(names);
        proof {
            assert(items@.take(i + 1).drop_last() =~= items@.take(i as int));
            assert(items@.take(i + 1).last() == items@[i as int]);
        }
        i += 1;
    }
    assert(items@.take(items.len() as int) =~= items@);
}

/// The names a match arm pattern binds, left to right: a literal binds
/// none, a name itself, a tuple or a constructor those of its items.
pub open spec fn spec_arm_pattern_names(p: CoreMatchArmPattern) -> Seq<Seq<char>>
    decreases p,
{
    match p {
        CoreMatchArmPattern::Literal { .. } => Seq::empty(),
        CoreMatchArmPattern::Tuple { items, .. } => spec_arm_patterns_names(items@),
        CoreMatchArmPattern::Identifier { name, .. } => seq![name@],
        CoreMatchArmPattern::DataConstructor { args, .. } => spec_arm_patterns_names(args@),
    }
}

pub open spec fn spec_arm_patterns_names(s: Seq<CoreMatchArmPattern>) -> Seq<Seq<char>>
    decreases s,
{
    if s.len() == 0 {
        Seq::empty()
    } else {
        spec_arm_patterns_names(s.drop_last()) + spec_arm_pattern_names(s.last())
    }
}

impl CoreMatchArmPattern {
    /// The names the pattern binds, left to right.
    pub fn all_identifiers(&self) -> (names: Vec<String>)
        ensures
            string_views(names@) == spec_arm_pattern_names(*self),
    {
        let mut names = Vec::new();
        self.push_identifiers(&mut names);
        assert(string_views(names@) =~= spec_arm_pattern_names(*self));
        names
    }

    fn push_identifiers(&self, names: &mut Vec<String>)
        ensures
            string_views(final(names)@) == string_views(old(names)@) + spec_arm_pattern_names(*self),
        decreases self,
    {
        match self {
            CoreMatchArmPattern::Literal { .. } => {
                assert(string_views(names@) =~= string_views(old(names)@) + Seq::<Seq<char>>::empty());
            },
            CoreMatchArmPattern::Identifier { name, .. } => {
                names.push(name.clone());
                assert(string_views(names@) =~= string_views(old(names)@) + seq![name@]);
            },
            CoreMatchArmPattern::Tuple { items, .. } => {
                arm_patterns_identifiers(items, names);
            },
            CoreMatchArmPattern::DataConstructor { args, .. } => {
                arm_patterns_identifiers(args, names);
            },
        }
    }
}

fn arm_patterns_identifiers(items: &Vec<CoreMatchArmPattern>, names: &mut Vec<String>)
    ensures
        string_views(final(names)@) == string_views(old(names)@) + spec_arm_patterns_names(items@),
    decreases items,
{
    let mut i: usize = 0;
    while i < items.len()
        invariant
            i <= items.len(),
            string_views(names@) == string_views(old(names)@) + spec_arm_patterns_names(items@.take(i as int)),
        decreases items.len() - i,
    {
        proof {
            assert(decreases_to!(*items => items@));
            assert(decreases_to!(items@ => items@[i as int]));
        }
        items[i].push_identifiers(names);
        proof {
            assert(items@.take(i + 1).drop_last() =~= items@.take(i as int));
            assert(items@.take(i + 1).last() == items@[i as int]);
        }
        i += 1;
    }
    assert(items@.take(items.len() as int) =~= items@);
}

} // verus!

verus! {

/// A type expression as it is written: arrows and products between their
/// operands, an application as the callee, a space and the argument;
/// operands that hold a space in parentheses.
pub open spec fn spec_atomic_type_text(e: AtomicTypeExprModel) -> Seq<char>
    decreases e,
{
    match e {
        AtomicTypeExprModel::Identifier { name, .. } => name,
        AtomicTypeExprModel::Function { param_type, return_type, .. } => crate::util::spec_parenthesized(
            spec_atomic_type_text(*param_type),
        ) + seq![' ', '-', '>', ' '] + spec_atomic_type_text(*return_type),
        AtomicTypeExprModel::Product { types, .. } => crate::util::spec_join(
            spec_atomic_type_texts(types),
            seq![' ', '*', ' '],
        ),
        AtomicTypeExprModel::FunctionAppl { callee, arg, .. } => spec_atomic_type_text(*callee) + seq![' ']
            + crate::util::spec_parenthesized(spec_atomic_type_text(*arg)),
    }
}

pub open spec fn spec_atomic_type_texts(s: Seq<AtomicTypeExprModel>) -> Seq<Seq<char>>
    decreases s,
{
    if s.len() == 0 {
        Seq::empty()
    } else {
        spec_atomic_type_texts(s.drop_last()).push(spec_atomic_type_text(s.last()))
    }
}

impl CoreAtomicTypeExpr {
    pub fn to_text(&self) -> (r: String)
        ensures
            r@ == spec_atomic_type_text(self@),
        decreases self,
    {
        match self {
            CoreAtomicTypeExpr::Identifier { name, .. } => {
                let text = name.clone();
                assert(self@ == AtomicTypeExprModel::Identifier { name: name@, span: self.spec_span() });
                assert(spec_atomic_type_text(self@) == name@);
                assert(text@ == name@);
                text
            },
            CoreAtomicTypeExpr::Function { param_type, return_type, .. } => {
                let p = param_type.to_text();
                let mut text = crate::util::fmt_parenthesized(p.as_str());
                text.append(" -> ");
                proof {
                    reveal_strlit(" -> ");
                }
                let r = return_type.to_text();
                text.append(r.as_str());
                assert(text@ == spec_atomic_type_text(self@));
                text
            },
            CoreAtomicTypeExpr::Product { types, .. } => {
                let mut texts: Vec<String> = Vec::new();
                let mut i: usize = 0;
                proof {
                    lemma_atomic_type_expr_views(types@);
                }
                while i < types.len()
                    invariant
                        i <= types.len(),
                        crate::util::string_views(texts@) == spec_atomic_type_texts(
                            atomic_type_expr_views(types@).take(i as int),
                        ),
                        atomic_type_expr_views(types@).len() == types.len(),
                        forall|j: int| 0 <= j < types.len() ==> #[trigger] atomic_type_expr_views(types@)[j] == types@[j]@,
                        *self is Product,
                        (*self)->Product_types == *types,
                    decreases types.len() - i,
                {
                    proof {
                        assert(decreases_to!(*self => (*self)->Product_types));
                        assert(decreases_to!(*types => types@));
                        assert(decreases_to!(types@ => types@[i as int]));
                    }
                    let t = types[i].to_text();
                    let ghost before = texts@;
                    texts.push(t);
                    proof {
                        let v = atomic_type_expr_views(types@);
                        assert(v.take(i + 1).drop_last() =~= v.take(i as int));
                        assert(crate::util::string_views(texts@) =~= crate::util::string_views(before).push(
                            texts@.last()@,
                        ));
                    }
                    i += 1;
                }
                proof {
                    assert(atomic_type_expr_views(types@).take(types.len() as int) =~= atomic_type_expr_views(
                        types@,
                    ));
                    reveal_strlit(" * ");
                    assert(" * "@ =~= seq![' ', '*', ' ']);
                }
                let joined = crate::util::format_joined(&texts, " * ");
                assert(joined@ == spec_atomic_type_text(self@));
                joined
            },
            CoreAtomicTypeExpr::FunctionAppl { callee, arg, .. } => {
                let mut text = callee.to_text();
                crate::util::string_push(&mut text, ' ');
                let a = arg.to_text();
                let pa = crate::util::fmt_parenthesized(a.as_str());
                text.append(pa.as_str());
                assert(text@ == spec_atomic_type_text(self@));
                text
            },
        }
    }
}

// --- the mathematical values of patterns, expressions and statements ---

/// The value of a tuple pattern.
pub enum TuplePatternModel {
    Identifier { name: Seq<char>, span: Span },
    Tuple { items: Seq<TuplePatternModel>, span: Span },
}

/// The value of a declaration pattern.
pub enum CoreDeclPatternModel {
    Identifier { name: Seq<char>, span: Span },
    Tuple { items: Seq<TuplePatternModel>, span: Span },
}

pub open spec fn tuple_pattern_view(p: CoreTupleDeclPattern) -> TuplePatternModel
    decreases p,
{
    match p {
        CoreTupleDeclPattern::Identifier { name, span } => TuplePatternModel::Identifier { name: name@, span },
        CoreTupleDeclPattern::Tuple { items, span } => TuplePatternModel::Tuple {
            items: tuple_pattern_views(items@),
            span,
        },
    }
}

pub open spec fn tuple_pattern_views(s: Seq<CoreTupleDeclPattern>) -> Seq<TuplePatternModel>
    decreases s,
{
    if s.len() == 0 {
        Seq::empty()
    } else {
        tuple_pattern_views(s.drop_last()).push(tuple_pattern_view(s.last()))
    }
}

impl View for CoreTupleDeclPattern {
    type V = TuplePatternModel;

    open spec fn view(&self) -> TuplePatternModel {
        tuple_pattern_view(*self)
    }
}

impl View for CoreDeclPattern {
    type V = CoreDeclPatternModel;

    open spec fn view(&self) -> CoreDeclPatternModel {
        match self {
            CoreDeclPattern::Identifier { name, span } => CoreDeclPatternModel::Identifier { name: name@, span: *span },
            CoreDeclPattern::Tuple { items, span } => CoreDeclPatternModel::Tuple {
                items: tuple_pattern_views(items@),
                span: *span,
            },
        }
    }
}

/// The view of each item.
pub proof fn lemma_tuple_pattern_views(s: Seq<CoreTupleDeclPattern>)
    ensures
        tuple_pattern_views(s).len() == s.len(),
        forall|i: int| 0 <= i < s.len() ==> #[trigger] tuple_pattern_views(s)[i] == tuple_pattern_view(s[i]),
    decreases s.len(),
{
    if s.len() > 0 {
        lemma_tuple_pattern_views(s.drop_last());
    }
}

/// Views of a sequence grown by one.
pub proof fn lemma_tuple_pattern_views_push(s: Seq<CoreTupleDeclPattern>, x: CoreTupleDeclPattern)
    ensures
        tuple_pattern_views(s.push(x)) == tuple_pattern_views(s).push(tuple_pattern_view(x)),
{
    assert(s.push(x).drop_last() =~= s);
}


// --- match arm patterns ---

pub enum CoreMatchArmPattern {
    Literal { literal: Literal, span: Span },
    Tuple { items: Vec<CoreMatchArmPattern>, span: Span },
    Identifier { name: String, span: Span },
    DataConstructor { name: String, args: Vec<CoreMatchArmPattern>, span: Span },
}

/// The value of a match arm pattern.
pub enum ArmPatternModel {
    Literal { literal: LiteralModel, span: Span },
    Tuple { items: Seq<ArmPatternModel>, span: Span },
    Identifier { name: Seq<char>, span: Span },
    DataConstructor { name: Seq<char>, args: Seq<ArmPatternModel>, span: Span },
}

pub open spec fn arm_pattern_view(p: CoreMatchArmPattern) -> ArmPatternModel
    decreases p,
{
    match p {
        CoreMatchArmPattern::Literal { literal, span } => ArmPatternModel::Literal { literal: literal@, span },
        CoreMatchArmPattern::Tuple { items, span } => ArmPatternModel::Tuple { items: arm_pattern_views(items@), span },
        CoreMatchArmPattern::Identifier { name, span } => ArmPatternModel::Identifier { name: name@, span },
        CoreMatchArmPattern::DataConstructor { name, args, span } => ArmPatternModel::DataConstructor {
            name: name@,
            args: arm_pattern_views(args@),
            span,
        },
    }
}

pub open spec fn arm_pattern_views(s: Seq<CoreMatchArmPattern>) -> Seq<ArmPatternModel>
    decreases s,
{
    if s.len() == 0 {
        Seq::empty()
    } else {
        arm_pattern_views(s.drop_last()).push(arm_pattern_view(s.last()))
    }
}

impl View for CoreMatchArmPattern {
    type V = ArmPatternModel;

    open spec fn view(&self) -> ArmPatternModel {
        arm_pattern_view(*self)
    }
}

/// The view of each item.
pub proof fn lemma_arm_pattern_views(s: Seq<CoreMatchArmPattern>)
    ensures
        arm_pattern_views(s).len() == s.len(),
        forall|i: int| 0 <= i < s.len() ==> #[trigger] arm_pattern_views(s)[i] == arm_pattern_view(s[i]),
    decreases s.len(),
{
    if s.len() > 0 {
        lemma_arm_pattern_views(s.drop_last());
    }
}

/// Views of a sequence grown by one.
pub proof fn lemma_arm_pattern_views_push(s: Seq<CoreMatchArmPattern>, x: CoreMatchArmPattern)
    ensures
        arm_pattern_views(s.push(x)) == arm_pattern_views(s).push(arm_pattern_view(x)),
{
    assert(s.push(x).drop_last() =~= s);
}


pub open spec fn arm_pattern_span(p: ArmPatternModel) -> Span {
    match p {
        ArmPatternModel::Literal { span, .. } => span,
        ArmPatternModel::Tuple { span, .. } => span,
        ArmPatternModel::Identifier { span, .. } => span,
        ArmPatternModel::DataConstructor { span, .. } => span,
    }
}

impl CoreMatchArmPattern {
    /// A copy of the pattern.
    pub fn copy(&self) -> (copy: CoreMatchArmPattern)
        ensures
            copy@ == self@,
        decreases self,
    {
        match self {
            CoreMatchArmPattern::Literal { literal, span } => CoreMatchArmPattern::Literal {
                literal: literal.copy(),
                span: *span,
            },
            CoreMatchArmPattern::Tuple { items, span } => CoreMatchArmPattern::Tuple {
                items: copy_arm_patterns(items),
                span: *span,
            },
            CoreMatchArmPattern::Identifier { name, span } => CoreMatchArmPattern::Identifier {
                name: name.clone(),
                span: *span,
            },
            CoreMatchArmPattern::DataConstructor { name, args, span } => CoreMatchArmPattern::DataConstructor {
                name: name.clone(),
                args: copy_arm_patterns(args),
                span: *span,
            },
        }
    }
}

fn copy_arm_patterns(items: &Vec<CoreMatchArmPattern>) -> (copies: Vec<CoreMatchArmPattern>)
    ensures
        arm_pattern_views(copies@) == arm_pattern_views(items@),
    decreases items,
{
    let mut out: Vec<CoreMatchArmPattern> = Vec::new();
    let mut i: usize = 0;
    proof {
        lemma_arm_pattern_views(items@);
    }
    while i < items.len()
        invariant
            i <= items.len(),
            arm_pattern_views(items@).len() == items.len(),
            forall|j: int| 0 <= j < items.len() ==> #[trigger] arm_pattern_views(items@)[j] == items@[j]@,
            arm_pattern_views(out@) == arm_pattern_views(items@).take(i as int),
        decreases items.len() - i,
    {
        proof {
            assert(decreases_to!(*items => items@));
            assert(decreases_to!(items@ => items@[i as int]));
        }
        let c = items[i].copy();
        let ghost before = out@;
        out.push(c);
        proof {
            lemma_arm_pattern_views_push(before, c);
            assert(arm_pattern_views(out@) =~= arm_pattern_views(items@).take(i + 1));
        }
        i += 1;
    }
    proof {
        assert(arm_pattern_views(items@).take(items.len() as int) =~= arm_pattern_views(items@));
    }
    out
}

impl CoreMatchArmPattern {
    pub fn span(&self) -> (span: Span)
        ensures
            span == arm_pattern_span(self@),
    {
        match self {
            CoreMatchArmPattern::Literal { span, .. } => *span,
            CoreMatchArmPattern::Tuple { span, .. } => *span,
            CoreMatchArmPattern::Identifier { span, .. } => *span,
            CoreMatchArmPattern::DataConstructor { span, .. } => *span,
        }
    }
}

// --- expressions and statements ---

pub enum CoreExpr {
    Block { statements: Vec<CoreStatement>, span: Span },
    Identifier { name: String, span: Span },
    Literal { literal: Literal, span: Span },
    Lambda { param_name: String, param_type: CoreAtomicTypeExpr, body: Box<CoreExpr>, span: Span },
    Tuple { items: Vec<CoreExpr>, span: Span },
    FunctionAppl { callee: Box<CoreExpr>, arg: Box<CoreExpr>, span: Span },
    Match { scrutinee: Box<CoreExpr>, arms: Vec<CoreMatchArm>, span: Span },
}

pub struct CoreMatchArm {
    pub pattern: CoreMatchArmPattern,
    pub value_expr: CoreExpr,
}

pub enum CoreStatement {
    KindAnnotation { name: String, expr: CoreKindExpr, span: Span },
    TypeDeclaration { name: String, params: Vec<String>, expr: CoreTypeExpr, span: Span },
    TypeAnnotation { name: String, expr: CoreAtomicTypeExpr, span: Span },
    VarDeclaration { pattern: CoreDeclPattern, expr: CoreExpr, span: Span },
    Expression { expr: CoreExpr, span: Span },
}

/// The value of a core expression.
pub enum CoreExprModel {
    Block { statements: Seq<CoreStatementModel>, span: Span },
    Identifier { name: Seq<char>, span: Span },
    Literal { literal: LiteralModel, span: Span },
    Lambda { param_name: Seq<char>, param_type: AtomicTypeExprModel, body: Box<CoreExprModel>, span: Span },
    Tuple { items: Seq<CoreExprModel>, span: Span },
    FunctionAppl { callee: Box<CoreExprModel>, arg: Box<CoreExprModel>, span: Span },
    Match { scrutinee: Box<CoreExprModel>, arms: Seq<CoreMatchArmModel>, span: Span },
}

pub struct CoreMatchArmModel {
    pub pattern: ArmPatternModel,
    pub value_expr: CoreExprModel,
}

/// The value of a core statement.
pub enum CoreStatementModel {
    KindAnnotation { name: Seq<char>, expr: CoreKindExpr, span: Span },
    TypeDeclaration { name: Seq<char>, params: Seq<Seq<char>>, expr: TypeExprModel, span: Span },
    TypeAnnotation { name: Seq<char>, expr: AtomicTypeExprModel, span: Span },
    VarDeclaration { pattern: CoreDeclPatternModel, expr: CoreExprModel, span: Span },
    Expression { expr: CoreExprModel, span: Span },
}

pub open spec fn core_expr_view(e: CoreExpr) -> CoreExprModel
    decreases e,
{
    match e {
        CoreExpr::Block { statements, span } => CoreExprModel::Block {
            statements: core_statement_views(statements@),
            span,
        },
        CoreExpr::Identifier { name, span } => CoreExprModel::Identifier { name: name@, span },
        CoreExpr::Literal { literal, span } => CoreExprModel::Literal { literal: literal@, span },
        CoreExpr::Lambda { param_name, param_type, body, span } => CoreExprModel::Lambda {
            param_name: param_name@,
            param_type: param_type@,
            body: Box::new(core_expr_view(*body)),
            span,
        },
        CoreExpr::Tuple { items, span } => CoreExprModel::Tuple { items: core_expr_views(items@), span },
        CoreExpr::FunctionAppl { callee, arg, span } => CoreExprModel::FunctionAppl {
            callee: Box::new(core_expr_view(*callee)),
            arg: Box::new(core_expr_view(*arg)),
            span,
        },
        CoreExpr::Match { scrutinee, arms, span } => CoreExprModel::Match {
            scrutinee: Box::new(core_expr_view(*scrutinee)),
            arms: core_match_arm_views(arms@),
            span,
        },
    }
}

pub open spec fn core_match_arm_view(a: CoreMatchArm) -> CoreMatchArmModel
    decreases a,
{
    CoreMatchArmModel { pattern: a.pattern@, value_expr: core_expr_view(a.value_expr) }
}

pub open spec fn core_statement_view(s: CoreStatement) -> CoreStatementModel
    decreases s,
{
    match s {
        CoreStatement::KindAnnotation { name, expr, span } => CoreStatementModel::KindAnnotation {
            name: name@,
            expr,
            span,
        },
        CoreStatement::TypeDeclaration { name, params, expr, span } => CoreStatementModel::TypeDeclaration {
            name: name@,
            params: string_views(params@),
            expr: expr@,
            span,
        },
        CoreStatement::TypeAnnotation { name, expr, span } => CoreStatementModel::TypeAnnotation {
            name: name@,
            expr: expr@,
            span,
        },
        CoreStatement::VarDeclaration { pattern, expr, span } => CoreStatementModel::VarDeclaration {
            pattern: pattern@,
            expr: core_expr_view(expr),
            span,
        },
        CoreStatement::Expression { expr, span } => CoreStatementModel::Expression {
            expr: core_expr_view(expr),
            span,
        },
    }
}

pub open spec fn core_expr_views(s: Seq<CoreExpr>) -> Seq<CoreExprModel>
    decreases s,
{
    if s.len() == 0 {
        Seq::empty()
    } else {
        core_expr_views(s.drop_last()).push(core_expr_view(s.last()))
    }
}

pub open spec fn core_match_arm_views(s: Seq<CoreMatchArm>) -> Seq<CoreMatchArmModel>
    decreases s,
{
    if s.len() == 0 {
        Seq::empty()
    } else {
        core_match_arm_views(s.drop_last()).push(core_match_arm_view(s.last()))
    }
}

pub open spec fn core_statement_views(s: Seq<CoreStatement>) -> Seq<CoreStatementModel>
    decreases s,
{
    if s.len() == 0 {
        Seq::empty()
    } else {
        core_statement_views(s.drop_last()).push(core_statement_view(s.last()))
    }
}

impl View for CoreExpr {
    type V = CoreExprModel;

    open spec fn view(&self) -> CoreExprModel {
        core_expr_view(*self)
    }
}

impl View for CoreMatchArm {
    type V = CoreMatchArmModel;

    open spec fn view(&self) -> CoreMatchArmModel {
        core_match_arm_view(*self)
    }
}

impl View for CoreStatement {
    type V = CoreStatementModel;

    open spec fn view(&self) -> CoreStatementModel {
        core_statement_view(*self)
    }
}

/// The view of each item.
pub proof fn lemma_core_expr_views(s: Seq<CoreExpr>)
    ensures
        core_expr_views(s).len() == s.len(),
        forall|i: int| 0 <= i < s.len() ==> #[trigger] core_expr_views(s)[i] == core_expr_view(s[i]),
    decreases s.len(),
{
    if s.len() > 0 {
        lemma_core_expr_views(s.drop_last());
    }
}

/// Views of a sequence grown by one.
pub proof fn lemma_core_expr_views_push(s: Seq<CoreExpr>, x: CoreExpr)
    ensures
        core_expr_views(s.push(x)) == core_expr_views(s).push(core_expr_view(x)),
{
    assert(s.push(x).drop_last() =~= s);
}

/// The view of each item.
pub proof fn lemma_core_match_arm_views(s: Seq<CoreMatchArm>)
    ensures
        core_match_arm_views(s).len() == s.len(),
        forall|i: int| 0 <= i < s.len() ==> #[trigger] core_match_arm_views(s)[i] == core_match_arm_view(s[i]),
    decreases s.len(),
{
    if s.len() > 0 {
        lemma_core_match_arm_views(s.drop_last());
    }
}

/// Views of a sequence grown by one.
pub proof fn lemma_core_match_arm_views_push(s: Seq<CoreMatchArm>, x: CoreMatchArm)
    ensures
        core_match_arm_views(s.push(x)) == core_match_arm_views(s).push(core_match_arm_view(x)),
{
    assert(s.push(x).drop_last() =~= s);
}

/// The view of each item.
pub proof fn lemma_core_statement_views(s: Seq<CoreStatement>)
    ensures
        core_statement_views(s).len() == s.len(),
        forall|i: int| 0 <= i < s.len() ==> #[trigger] core_statement_views(s)[i] == core_statement_view(s[i]),
    decreases s.len(),
{
    if s.len() > 0 {
        lemma_core_statement_views(s.drop_last());
    }
}

/// Views of a sequence grown by one.
pub proof fn lemma_core_statement_views_push(s: Seq<CoreStatement>, x: CoreStatement)
    ensures
        core_statement_views(s.push(x)) == core_statement_views(s).push(core_statement_view(x)),
{
    assert(s.push(x).drop_last() =~= s);
}


pub open spec fn core_expr_span(e: CoreExprModel) -> Span {
    match e {
        CoreExprModel::Block { span, .. } => span,
        CoreExprModel::Identifier { span, .. } => span,
        CoreExprModel::Literal { span, .. } => span,
        CoreExprModel::Lambda { span, .. } => span,
        CoreExprModel::Tuple { span, .. } => span,
        CoreExprModel::FunctionAppl { span, .. } => span,
        CoreExprModel::Match { span, .. } => span,
    }
}

impl CoreExpr {
    pub fn span(&self) -> (span: Span)
        ensures
            span == core_expr_span(self@),
    {
        match self {
            CoreExpr::Block { span, .. } => *span,
            CoreExpr::Identifier { span, .. } => *span,
            CoreExpr::Literal { span, .. } => *span,
            CoreExpr::Lambda { span, .. } => *span,
            CoreExpr::Tuple { span, .. } => *span,
            CoreExpr::FunctionAppl { span, .. } => *span,
            CoreExpr::Match { span, .. } => *span,
        }
    }
}

} // verus!

