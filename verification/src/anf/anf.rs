//! A program in A-normal form: every argument of an application is atomic,
//! and the intermediate results are bound to numbered temporaries.

use vstd::prelude::*;

use crate::error::Span;
use crate::parser::Literal;
use crate::parser::LiteralModel;
use crate::parser::core_expr::ArmPatternModel;
use crate::parser::core_expr::CoreMatchArmPattern;

verus! {

// --- variables and patterns ---

/// A variable: its number where it was bound, and its name.
pub struct ANFVar {
    pub id: Option<usize>,
    pub name: String,
}

pub struct ANFVarModel {
    pub id: Option<usize>,
    pub name: Seq<char>,
}

impl View for ANFVar {
    type V = ANFVarModel;

    open spec fn view(&self) -> ANFVarModel {
        ANFVarModel { id: self.id, name: self.name@ }
    }
}

impl ANFVar {
    pub fn copy(&self) -> (copy: ANFVar)
        ensures
            copy@ == self@,
    {
        ANFVar { id: self.id, name: self.name.clone() }
    }
}

/// The left side of a declaration.
pub enum ANFDeclPattern {
    Single(ANFVar),
    Tuple(Vec<ANFDeclPattern>),
}

pub enum ANFDeclPatternModel {
    Single(ANFVarModel),
    Tuple(Seq<ANFDeclPatternModel>),
}

pub open spec fn anf_pattern_view(p: ANFDeclPattern) -> ANFDeclPatternModel
    decreases p,
{
    match p {
        ANFDeclPattern::Single(v) => ANFDeclPatternModel::Single(v@),
        ANFDeclPattern::Tuple(items) => ANFDeclPatternModel::Tuple(anf_pattern_views(items@)),
    }
}

pub open spec fn anf_pattern_views(s: Seq<ANFDeclPattern>) -> Seq<ANFDeclPatternModel>
    decreases s,
{
    if s.len() == 0 {
        Seq::empty()
    } else {
        anf_pattern_views(s.drop_last()).push(anf_pattern_view(s.last()))
    }
}

impl View for ANFDeclPattern {
    type V = ANFDeclPatternModel;

    open spec fn view(&self) -> ANFDeclPatternModel {
        anf_pattern_view(*self)
    }
}

/// The view of each item.
pub proof fn lemma_anf_pattern_views(s: Seq<ANFDeclPattern>)
    ensures
        anf_pattern_views(s).len() == s.len(),
        forall|i: int| 0 <= i < s.len() ==> #[trigger] anf_pattern_views(s)[i] == anf_pattern_view(s[i]),
    decreases s.len(),
{
    if s.len() > 0 {
        lemma_anf_pattern_views(s.drop_last());
    }
}

/// Views of a sequence grown by one.
pub proof fn lemma_anf_pattern_views_push(s: Seq<ANFDeclPattern>, x: ANFDeclPattern)
    ensures
        anf_pattern_views(s.push(x)) == anf_pattern_views(s).push(anf_pattern_view(x)),
{
    assert(s.push(x).drop_last() =~= s);
}


// --- statements, values and atoms ---

pub enum ANFStatement {
    Declaration(ANFDeclPattern, ANFValue),
    Value(ANFValue),
}

pub enum ANFValue {
    Atomic(ANFAtomic),
    FunctionAppl(ANFAtomic, ANFAtomic),
}

pub enum ANFAtomic {
    Block { anfs: Vec<ANFStatement>, span: Span },
    Literal { literal: Literal, span: Span },
    Var { var: ANFVar, span: Span },
    Lambda { param: ANFVar, body: Box<ANFValue>, span: Span },
    Tuple { items: Vec<ANFValue>, span: Span },
    Match { scrutinee: Box<ANFAtomic>, arms: Vec<(CoreMatchArmPattern, ANFValue)>, span: Span },
    Constructor { tag: String, items: Vec<ANFValue>, span: Span },
}

pub enum ANFStatementModel {
    Declaration(ANFDeclPatternModel, ANFValueModel),
    Value(ANFValueModel),
}

pub enum ANFValueModel {
    Atomic(ANFAtomicModel),
    FunctionAppl(ANFAtomicModel, ANFAtomicModel),
}

pub enum ANFAtomicModel {
    Block { anfs: Seq<ANFStatementModel>, span: Span },
    Literal { literal: LiteralModel, span: Span },
    Var { var: ANFVarModel, span: Span },
    Lambda { param: ANFVarModel, body: Box<ANFValueModel>, span: Span },
    Tuple { items: Seq<ANFValueModel>, span: Span },
    Match { scrutinee: Box<ANFAtomicModel>, arms: Seq<(ArmPatternModel, ANFValueModel)>, span: Span },
    Constructor { tag: Seq<char>, items: Seq<ANFValueModel>, span: Span },
}

pub open spec fn anf_statement_view(s: ANFStatement) -> ANFStatementModel
    decreases s,
{
    match s {
        ANFStatement::Declaration(p, v) => ANFStatementModel::Declaration(p@, anf_value_view(v)),
        ANFStatement::Value(v) => ANFStatementModel::Value(anf_value_view(v)),
    }
}

pub open spec fn anf_value_view(v: ANFValue) -> ANFValueModel
    decreases v,
{
    match v {
        ANFValue::Atomic(a) => ANFValueModel::Atomic(anf_atomic_view(a)),
        ANFValue::FunctionAppl(c, a) => ANFValueModel::FunctionAppl(anf_atomic_view(c), anf_atomic_view(a)),
    }
}

pub open spec fn anf_atomic_view(a: ANFAtomic) -> ANFAtomicModel
    decreases a,
{
    match a {
        ANFAtomic::Block { anfs, span } => ANFAtomicModel::Block { anfs: anf_statement_views(anfs@), span },
        ANFAtomic::Literal { literal, span } => ANFAtomicModel::Literal { literal: literal@, span },
        ANFAtomic::Var { var, span } => ANFAtomicModel::Var { var: var@, span },
        ANFAtomic::Lambda { param, body, span } => ANFAtomicModel::Lambda {
            param: param@,
            body: Box::new(anf_value_view(*body)),
            span,
        },
        ANFAtomic::Tuple { items, span } => ANFAtomicModel::Tuple { items: anf_value_views(items@), span },
        ANFAtomic::Match { scrutinee, arms, span } => ANFAtomicModel::Match {
            scrutinee: Box::new(anf_atomic_view(*scrutinee)),
            arms: anf_arm_views(arms@),
            span,
        },
        ANFAtomic::Constructor { tag, items, span } => ANFAtomicModel::Constructor {
            tag: tag@,
            items: anf_value_views(items@),
            span,
        },
    }
}

pub open spec fn anf_arm_view(arm: (CoreMatchArmPattern, ANFValue)) -> (ArmPatternModel, ANFValueModel)
    decreases arm,
{
    (arm.0@, anf_value_view(arm.1))
}

pub open spec fn anf_statement_views(s: Seq<ANFStatement>) -> Seq<ANFStatementModel>
    decreases s,
{
    if s.len() == 0 {
        Seq::empty()
    } else {
        anf_statement_views(s.drop_last()).push(anf_statement_view(s.last()))
    }
}
pub open spec fn anf_value_views(s: Seq<ANFValue>) -> Seq<ANFValueModel>
    decreases s,
{
    if s.len() == 0 {
        Seq::empty()
    } else {
        anf_value_views(s.drop_last()).push(anf_value_view(s.last()))
    }
}
pub open spec fn anf_arm_views(s: Seq<(CoreMatchArmPattern, ANFValue)>) -> Seq<(ArmPatternModel, ANFValueModel)>
    decreases s,
{
    if s.len() == 0 {
        Seq::empty()
    } else {
        anf_arm_views(s.drop_last()).push(anf_arm_view(s.last()))
    }
}

impl View for ANFStatement {
    type V = ANFStatementModel;

    open spec fn view(&self) -> ANFStatementModel {
        anf_statement_view(*self)
    }
}

impl View for ANFValue {
    type V = ANFValueModel;

    open spec fn view(&self) -> ANFValueModel {
        anf_value_view(*self)
    }
}

impl View for ANFAtomic {
    type V = ANFAtomicModel;

    open spec fn view(&self) -> ANFAtomicModel {
        anf_atomic_view(*self)
    }
}

/// The view of each item.
pub proof fn lemma_anf_statement_views(s: Seq<ANFStatement>)
    ensures
        anf_statement_views(s).len() == s.len(),
        forall|i: int| 0 <= i < s.len() ==> #[trigger] anf_statement_views(s)[i] == anf_statement_view(s[i]),
    decreases s.len(),
{
    if s.len() > 0 {
        lemma_anf_statement_views(s.drop_last());
    }
}

/// Views of a sequence grown by one.
pub proof fn lemma_anf_statement_views_push(s: Seq<ANFStatement>, x: ANFStatement)
    ensures
        anf_statement_views(s.push(x)) == anf_statement_views(s).push(anf_statement_view(x)),
{
    assert(s.push(x).drop_last() =~= s);
}

/// The view of each item.
pub proof fn lemma_anf_value_views(s: Seq<ANFValue>)
    ensures
        anf_value_views(s).len() == s.len(),
        forall|i: int| 0 <= i < s.len() ==> #[trigger] anf_value_views(s)[i] == anf_value_view(s[i]),
    decreases s.len(),
{
    if s.len() > 0 {
        lemma_anf_value_views(s.drop_last());
    }
}

/// Views of a sequence grown by one.
pub proof fn lemma_anf_value_views_push(s: Seq<ANFValue>, x: ANFValue)
    ensures
        anf_value_views(s.push(x)) == anf_value_views(s).push(anf_value_view(x)),
{
    assert(s.push(x).drop_last() =~= s);
}

/// The view of each item.
pub proof fn lemma_anf_arm_views(s: Seq<(CoreMatchArmPattern, ANFValue)>)
    ensures
        anf_arm_views(s).len() == s.len(),
        forall|i: int| 0 <= i < s.len() ==> #[trigger] anf_arm_views(s)[i] == anf_arm_view(s[i]),
    decreases s.len(),
{
    if s.len() > 0 {
        lemma_anf_arm_views(s.drop_last());
    }
}

/// Views of a sequence grown by one.
pub proof fn lemma_anf_arm_views_push(s: Seq<(CoreMatchArmPattern, ANFValue)>, x: (CoreMatchArmPattern, ANFValue))
    ensures
        anf_arm_views(s.push(x)) == anf_arm_views(s).push(anf_arm_view(x)),
{
    assert(s.push(x).drop_last() =~= s);
}


// --- the numbers a piece refers to ---

pub open spec fn var_ids(v: ANFVarModel) -> Seq<usize> {
    match v.id {
        Some(id) => seq![id],
        None => Seq::empty(),
    }
}

/// The numbers of the variables a pattern binds, in order.
pub open spec fn pattern_ids(p: ANFDeclPatternModel) -> Seq<usize>
    decreases p,
{
    match p {
        ANFDeclPatternModel::Single(v) => var_ids(v),
        ANFDeclPatternModel::Tuple(items) => patterns_ids(items),
    }
}

pub open spec fn patterns_ids(s: Seq<ANFDeclPatternModel>) -> Seq<usize>
    decreases s,
{
    if s.len() == 0 {
        Seq::empty()
    } else {
        patterns_ids(s.drop_last()) + pattern_ids(s.last())
    }
}

/// The numbers of the variables a statement's value refers to, in order.
pub open spec fn statement_ids(s: ANFStatementModel) -> Seq<usize>
    decreases s,
{
    match s {
        ANFStatementModel::Declaration(_, v) => value_ids(v),
        ANFStatementModel::Value(v) => value_ids(v),
    }
}

pub open spec fn value_ids(v: ANFValueModel) -> Seq<usize>
    decreases v,
{
    match v {
        ANFValueModel::Atomic(a) => atomic_ids(a),
        ANFValueModel::FunctionAppl(c, a) => atomic_ids(c) + atomic_ids(a),
    }
}

/// The numbers of the variables an atom refers to, in order; a lambda's
/// parameter is not among them.
pub open spec fn atomic_ids(a: ANFAtomicModel) -> Seq<usize>
    decreases a,
{
    match a {
        ANFAtomicModel::Block { anfs, .. } => statements_ids(anfs),
        ANFAtomicModel::Literal { .. } => Seq::empty(),
        ANFAtomicModel::Var { var, .. } => var_ids(var),
        ANFAtomicModel::Lambda { body, .. } => value_ids(*body),
        ANFAtomicModel::Tuple { items, .. } => values_ids(items),
        ANFAtomicModel::Match { scrutinee, arms, .. } => atomic_ids(*scrutinee) + arms_ids(arms),
        ANFAtomicModel::Constructor { items, .. } => values_ids(items),
    }
}

pub open spec fn statements_ids(s: Seq<ANFStatementModel>) -> Seq<usize>
    decreases s,
{
    if s.len() == 0 {
        Seq::empty()
    } else {
        statements_ids(s.drop_last()) + statement_ids(s.last())
    }
}

pub open spec fn values_ids(s: Seq<ANFValueModel>) -> Seq<usize>
    decreases s,
{
    if s.len() == 0 {
        Seq::empty()
    } else {
        values_ids(s.drop_last()) + value_ids(s.last())
    }
}

pub open spec fn arms_ids(s: Seq<(ArmPatternModel, ANFValueModel)>) -> Seq<usize>
    decreases s,
{
    if s.len() == 0 {
        Seq::empty()
    } else {
        arms_ids(s.drop_last()) + value_ids(s.last().1)
    }
}

fn var_all_ids(var: &ANFVar) -> (ids: Vec<usize>)
    ensures
        ids@ == var_ids(var@),
{
    let mut ids: Vec<usize> = Vec::new();
    match var.id {
        Some(id) => ids.push(id),
        None => {},
    }
    assert(ids@ =~= var_ids(var@));
    ids
}

impl ANFDeclPattern {
    /// The numbers of the variables the pattern binds, in order.
    pub fn all_ids(&self) -> (ids: Vec<usize>)
        ensures
            ids@ == pattern_ids(self@),
        decreases self,
    {
        match self {
            ANFDeclPattern::Single(var) => var_all_ids(var),
            ANFDeclPattern::Tuple(items) => patterns_all_ids(items),
        }
    }
}

fn patterns_all_ids(items: &Vec<ANFDeclPattern>) -> (ids: Vec<usize>)
    ensures
        ids@ == patterns_ids(anf_pattern_views(items@)),
    decreases items,
{
    let ghost v = anf_pattern_views(items@);
    let mut ids: Vec<usize> = Vec::new();
    let mut i: usize = 0;
    proof {
        lemma_anf_pattern_views(items@);
        assert(v.take(0) =~= Seq::<ANFDeclPatternModel>::empty());
    }
    while i < items.len()
        invariant
            i <= items.len(),
            v == anf_pattern_views(items@),
            v.len() == items.len(),
            forall|j: int| 0 <= j < items.len() ==> #[trigger] v[j] == items@[j]@,
            ids@ == patterns_ids(v.take(i as int)),
        decreases items.len() - i,
    {
        proof {
            assert(decreases_to!(*items => items@));
            assert(decreases_to!(items@ => items@[i as int]));
            assert(v.take(i + 1).drop_last() =~= v.take(i as int));
        }
        let mut sub = items[i].all_ids();
        ids.append(&mut sub);
        i += 1;
    }
    proof {
        assert(v.take(i as int) =~= v);
    }
    ids
}

impl ANFStatement {
    /// The numbers of the variables the statement's value refers to.
    pub fn all_ids(&self) -> (ids: Vec<usize>)
        ensures
            ids@ == statement_ids(self@),
        decreases self,
    {
        match self {
            ANFStatement::Declaration(_, value) => value.all_ids(),
            ANFStatement::Value(value) => value.all_ids(),
        }
    }
}

impl ANFValue {
    /// The numbers of the variables the value refers to.
    pub fn all_ids(&self) -> (ids: Vec<usize>)
        ensures
            ids@ == value_ids(self@),
        decreases self,
    {
        match self {
            ANFValue::Atomic(expr) => expr.all_ids(),
            ANFValue::FunctionAppl(callee, arg) => {
                let mut ids = callee.all_ids();
                let mut rest = arg.all_ids();
                ids.append(&mut rest);
                ids
            },
        }
    }
}

fn statements_all_ids(anfs: &Vec<ANFStatement>) -> (ids: Vec<usize>)
    ensures
        ids@ == statements_ids(anf_statement_views(anfs@)),
    decreases anfs,
{
        let ghost v = anf_statement_views(anfs@);
        let mut ids: Vec<usize> = Vec::new();
        let mut i: usize = 0;
        proof {
            lemma_anf_statement_views(anfs@);
            assert(v.take(0) =~= Seq::<ANFStatementModel>::empty());
        }
        while i < anfs.len()
            invariant
                i <= anfs.len(),
                v == anf_statement_views(anfs@),
                v.len() == anfs.len(),
                forall|j: int| 0 <= j < anfs.len() ==> #[trigger] v[j] == anfs@[j]@,
                ids@ == statements_ids(v.take(i as int)),
            decreases anfs.len() - i,
        {
            proof {
                assert(decreases_to!(*anfs => anfs@));
                assert(decreases_to!(anfs@ => anfs@[i as int]));
                assert(v.take(i + 1).drop_last() =~= v.take(i as int));
            }
            let mut sub = anfs[i].all_ids();
            ids.append(&mut sub);
            i += 1;
        }
        proof {
            assert(v.take(i as int) =~= v);
        }
        ids
}

fn values_all_ids(items: &Vec<ANFValue>) -> (ids: Vec<usize>)
    ensures
        ids@ == values_ids(anf_value_views(items@)),
    decreases items,
{
        let ghost v = anf_value_views(items@);
        let mut ids: Vec<usize> = Vec::new();
        let mut i: usize = 0;
        proof {
            lemma_anf_value_views(items@);
            assert(v.take(0) =~= Seq::<ANFValueModel>::empty());
        }
        while i < items.len()
            invariant
                i <= items.len(),
                v == anf_value_views(items@),
                v.len() == items.len(),
                forall|j: int| 0 <= j < items.len() ==> #[trigger] v[j] == items@[j]@,
                ids@ == values_ids(v.take(i as int)),
            decreases items.len() - i,
        {
            proof {
                assert(decreases_to!(*items => items@));
                assert(decreases_to!(items@ => items@[i as int]));
                assert(v.take(i + 1).drop_last() =~= v.take(i as int));
            }
            let mut sub = items[i].all_ids();
            ids.append(&mut sub);
            i += 1;
        }
        proof {
            assert(v.take(i as int) =~= v);
        }
        ids
}

fn arms_all_ids(arms: &Vec<(CoreMatchArmPattern, ANFValue)>) -> (ids: Vec<usize>)
    ensures
        ids@ == arms_ids(anf_arm_views(arms@)),
    decreases arms,
{
        let ghost v = anf_arm_views(arms@);
        let mut ids: Vec<usize> = Vec::new();
        let mut i: usize = 0;
        proof {
            lemma_anf_arm_views(arms@);
            assert(v.take(0) =~= Seq::<(ArmPatternModel, ANFValueModel)>::empty());
        }
        while i < arms.len()
            invariant
                i <= arms.len(),
                v == anf_arm_views(arms@),
                v.len() == arms.len(),
                forall|j: int| 0 <= j < arms.len() ==> #[trigger] v[j] == arms@[j]@,
                ids@ == arms_ids(v.take(i as int)),
            decreases arms.len() - i,
        {
            proof {
                assert(decreases_to!(*arms => arms@));
                assert(decreases_to!(arms@ => arms@[i as int]));
                assert(decreases_to!(arms@[i as int] => arms@[i as int].1));
                assert(v.take(i + 1).drop_last() =~= v.take(i as int));
            }
            let mut sub = arms[i].1.all_ids();
            ids.append(&mut sub);
            i += 1;
        }
        proof {
            assert(v.take(i as int) =~= v);
        }
        ids
}

/// Where in the source an atom stands.
pub open spec fn atomic_span(a: ANFAtomicModel) -> Span {
    match a {
        ANFAtomicModel::Block { span, .. } => span,
        ANFAtomicModel::Literal { span, .. } => span,
        ANFAtomicModel::Var { span, .. } => span,
        ANFAtomicModel::Lambda { span, .. } => span,
        ANFAtomicModel::Tuple { span, .. } => span,
        ANFAtomicModel::Match { span, .. } => span,
        ANFAtomicModel::Constructor { span, .. } => span,
    }
}

impl ANFAtomic {
    /// Where in the source the atom stands.
    pub fn span(&self) -> (s: Span)
        ensures
            s == atomic_span(self@),
    {
        match self {
            ANFAtomic::Block { span, .. } => *span,
            ANFAtomic::Literal { span, .. } => *span,
            ANFAtomic::Var { span, .. } => *span,
            ANFAtomic::Lambda { span, .. } => *span,
            ANFAtomic::Tuple { span, .. } => *span,
            ANFAtomic::Match { span, .. } => *span,
            ANFAtomic::Constructor { span, .. } => *span,
        }
    }

    /// The numbers of the variables the atom refers to, in order.
    pub fn all_ids(&self) -> (ids: Vec<usize>)
        ensures
            ids@ == atomic_ids(self@),
        decreases self,
    {
        match self {
            ANFAtomic::Block { anfs, .. } => statements_all_ids(anfs),
            ANFAtomic::Literal { .. } => {
                let ids: Vec<usize> = Vec::new();
                assert(ids@ =~= Seq::<usize>::empty());
                ids
            },
            ANFAtomic::Var { var, .. } => var_all_ids(var),
            ANFAtomic::Lambda { body, .. } => body.all_ids(),
            ANFAtomic::Tuple { items, .. } => values_all_ids(items),
            ANFAtomic::Match { scrutinee, arms, .. } => {
                let mut ids = scrutinee.all_ids();
                let mut rest = arms_all_ids(arms);
                ids.append(&mut rest);
                ids
            },
            ANFAtomic::Constructor { items, .. } => values_all_ids(items),
        }
    }
}

// --- copies ---

impl ANFDeclPattern {
    /// A copy of the pattern.
    pub fn copy(&self) -> (copy: ANFDeclPattern)
        ensures
            copy@ == self@,
        decreases self,
    {
        match self {
            ANFDeclPattern::Single(v) => ANFDeclPattern::Single(v.copy()),
            ANFDeclPattern::Tuple(items) => ANFDeclPattern::Tuple(copy_patterns(items)),
        }
    }
}

impl ANFStatement {
    /// A copy of the statement.
    pub fn copy(&self) -> (copy: ANFStatement)
        ensures
            copy@ == self@,
        decreases self,
    {
        match self {
            ANFStatement::Declaration(p, v) => ANFStatement::Declaration(p.copy(), v.copy()),
            ANFStatement::Value(v) => ANFStatement::Value(v.copy()),
        }
    }
}

impl ANFValue {
    /// A copy of the value.
    pub fn copy(&self) -> (copy: ANFValue)
        ensures
            copy@ == self@,
        decreases self,
    {
        match self {
            ANFValue::Atomic(a) => ANFValue::Atomic(a.copy()),
            ANFValue::FunctionAppl(c, a) => ANFValue::FunctionAppl(c.copy(), a.copy()),
        }
    }
}

impl ANFAtomic {
    /// A copy of the atom.
    pub fn copy(&self) -> (copy: ANFAtomic)
        ensures
            copy@ == self@,
        decreases self,
    {
        match self {
            ANFAtomic::Block { anfs, span } => ANFAtomic::Block { anfs: copy_statements(anfs), span: *span },
            ANFAtomic::Literal { literal, span } => ANFAtomic::Literal { literal: literal.copy(), span: *span },
            ANFAtomic::Var { var, span } => ANFAtomic::Var { var: var.copy(), span: *span },
            ANFAtomic::Lambda { param, body, span } => {
                let b = (**body).copy();
                ANFAtomic::Lambda { param: param.copy(), body: Box::new(b), span: *span }
            },
            ANFAtomic::Tuple { items, span } => ANFAtomic::Tuple { items: copy_values(items), span: *span },
            ANFAtomic::Match { scrutinee, arms, span } => {
                let sc = (**scrutinee).copy();
                ANFAtomic::Match { scrutinee: Box::new(sc), arms: copy_arms(arms), span: *span }
            },
            ANFAtomic::Constructor { tag, items, span } => ANFAtomic::Constructor {
                tag: tag.clone(),
                items: copy_values(items),
                span: *span,
            },
        }
    }
}

/// A copy of each pattern, in order.
pub fn copy_patterns(items: &Vec<ANFDeclPattern>) -> (r: Vec<ANFDeclPattern>)
    ensures
        anf_pattern_views(r@) == anf_pattern_views(items@),
    decreases items,
{
    let mut out: Vec<ANFDeclPattern> = Vec::new();
    let mut i: usize = 0;
    while i < items.len()
        invariant
            i <= items.len(),
            anf_pattern_views(out@) == anf_pattern_views(items@.take(i as int)),
        decreases items.len() - i,
    {
        assert(decreases_to!(items => items@[i as int]));
        let c = items[i].copy();
        proof {
            lemma_anf_pattern_views_push(out@, c);
            lemma_anf_pattern_views_push(items@.take(i as int), items@[i as int]);
            assert(items@.take(i as int).push(items@[i as int]) =~= items@.take(i + 1));
        }
        out.push(c);
        i = i + 1;
    }
    assert(items@.take(items.len() as int) =~= items@);
    out
}

/// A copy of each statement, in order.
pub fn copy_statements(items: &Vec<ANFStatement>) -> (r: Vec<ANFStatement>)
    ensures
        anf_statement_views(r@) == anf_statement_views(items@),
    decreases items,
{
    let mut out: Vec<ANFStatement> = Vec::new();
    let mut i: usize = 0;
    while i < items.len()
        invariant
            i <= items.len(),
            anf_statement_views(out@) == anf_statement_views(items@.take(i as int)),
        decreases items.len() - i,
    {
        assert(decreases_to!(items => items@[i as int]));
        let c = items[i].copy();
        proof {
            lemma_anf_statement_views_push(out@, c);
            lemma_anf_statement_views_push(items@.take(i as int), items@[i as int]);
            assert(items@.take(i as int).push(items@[i as int]) =~= items@.take(i + 1));
        }
        out.push(c);
        i = i + 1;
    }
    assert(items@.take(items.len() as int) =~= items@);
    out
}

/// A copy of each value, in order.
pub fn copy_values(items: &Vec<ANFValue>) -> (r: Vec<ANFValue>)
    ensures
        anf_value_views(r@) == anf_value_views(items@),
    decreases items,
{
    let mut out: Vec<ANFValue> = Vec::new();
    let mut i: usize = 0;
    while i < items.len()
        invariant
            i <= items.len(),
            anf_value_views(out@) == anf_value_views(items@.take(i as int)),
        decreases items.len() - i,
    {
        assert(decreases_to!(items => items@[i as int]));
        let c = items[i].copy();
        proof {
            lemma_anf_value_views_push(out@, c);
            lemma_anf_value_views_push(items@.take(i as int), items@[i as int]);
            assert(items@.take(i as int).push(items@[i as int]) =~= items@.take(i + 1));
        }
        out.push(c);
        i = i + 1;
    }
    assert(items@.take(items.len() as int) =~= items@);
    out
}

/// A copy of each arm, in order.
pub fn copy_arms(items: &Vec<(CoreMatchArmPattern, ANFValue)>) -> (r: Vec<(CoreMatchArmPattern, ANFValue)>)
    ensures
        anf_arm_views(r@) == anf_arm_views(items@),
    decreases items,
{
    let mut out: Vec<(CoreMatchArmPattern, ANFValue)> = Vec::new();
    let mut i: usize = 0;
    while i < items.len()
        invariant
            i <= items.len(),
            anf_arm_views(out@) == anf_arm_views(items@.take(i as int)),
        decreases items.len() - i,
    {
        assert(decreases_to!(items => items@[i as int]));
        let (p, v) = &items[i];
        assert(decreases_to!(items@[i as int] => items@[i as int].1));
        let c = (p.copy(), v.copy());
        proof {
            lemma_anf_arm_views_push(out@, c);
            lemma_anf_arm_views_push(items@.take(i as int), items@[i as int]);
            assert(items@.take(i as int).push(items@[i as int]) =~= items@.take(i + 1));
        }
        out.push(c);
        i = i + 1;
    }
    assert(items@.take(items.len() as int) =~= items@);
    out
}

} // verus!
