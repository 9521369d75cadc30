//! The values the interpreter computes, how a match arm's pattern takes one
//! apart, and the native operations it starts with.
use vstd::prelude::*;

use std::rc::Rc;

use crate::anf::anf::ANFValue;
use crate::anf::anf::ANFValueModel;
use crate::error::ErrorKind;
use crate::error::ErrorModel;
use crate::error::FogError;
use crate::error::FogResult;
use crate::parser::core_expr::arm_pattern_views;
use crate::parser::core_expr::lemma_arm_pattern_views;
use crate::parser::core_expr::ArmPatternModel;
use crate::parser::core_expr::CoreMatchArmPattern;
use crate::parser::parser::agrees;
use crate::parser::parser::is_type_name;
use crate::parser::parser::spec_is_type_name;
use crate::parser::Literal;
use crate::parser::LiteralModel;
use crate::static_check::types::str_eq;
use crate::util::string_from;
use crate::util::format_joined;
use crate::util::i32_to_decimal;
use crate::util::spec_join;
use crate::util::spec_signed_decimal;
use crate::util::string_views;
use crate::anf::anf_text::anf_value_text;

verus! {

/// A native operation. Those of two operands are curried: they take their
/// operands one at a time.
#[derive(Clone, Copy, PartialEq, Eq, Structural, Debug)]
pub enum BuiltinOp {
    AddInt32,
    SubtractInt32,
    ToString,
    ConcatString,
    Return,
    Join,
    Fmap,
    Bind,
    Then,
    Print,
    PrintLine,
}

/// What an input or output action does, once run: give a value, write a
/// string, read a line, or one of the ways actions and functions combine.
#[derive(Clone, Copy, PartialEq, Eq, Structural, Debug)]
pub enum IoKind {
    Return,
    Join,
    Fmap,
    Bind,
    Then,
    Print,
    PrintLine,
    ReadLine,
}

/// A value. A function keeps the bindings it was made in; a float is kept
/// as the text of its literal.
pub enum Value {
    Int32(i32),
    Float32Text(String),
    String(String),
    Function { param: String, body: Rc<ANFValue>, captured: Rc<Vec<(String, Value)>> },
    Builtin { op: BuiltinOp, args: Vec<Value> },
    Tuple(Vec<Value>),
    Constructor { tag: String, values: Vec<Value> },
    Io { kind: IoKind, args: Vec<Value> },
}

/// What a value is.
pub enum ValueModel {
    Int32(i32),
    Float32Text(Seq<char>),
    String(Seq<char>),
    Function { param: Seq<char>, body: ANFValueModel, captured: Seq<(Seq<char>, ValueModel)> },
    Builtin { op: BuiltinOp, args: Seq<ValueModel> },
    Tuple(Seq<ValueModel>),
    Constructor { tag: Seq<char>, values: Seq<ValueModel> },
    Io { kind: IoKind, args: Seq<ValueModel> },
}

pub open spec fn value_view(v: Value) -> ValueModel
    decreases v,
{
    match v {
        Value::Int32(i) => ValueModel::Int32(i),
        Value::Float32Text(t) => ValueModel::Float32Text(t@),
        Value::String(t) => ValueModel::String(t@),
        Value::Function { param, body, captured } => ValueModel::Function {
            param: param@,
            body: (*body)@,
            captured: binding_views(captured@),
        },
        Value::Builtin { op, args } => ValueModel::Builtin { op, args: value_views(args@) },
        Value::Tuple(items) => ValueModel::Tuple(value_views(items@)),
        Value::Constructor { tag, values } => ValueModel::Constructor { tag: tag@, values: value_views(values@) },
        Value::Io { kind, args } => ValueModel::Io { kind, args: value_views(args@) },
    }
}

pub open spec fn value_views(s: Seq<Value>) -> Seq<ValueModel>
    decreases s,
{
    if s.len() == 0 {
        Seq::empty()
    } else {
        value_views(s.drop_last()).push(value_view(s.last()))
    }
}

pub open spec fn binding_views(s: Seq<(String, Value)>) -> Seq<(Seq<char>, ValueModel)>
    decreases s,
{
    if s.len() == 0 {
        Seq::empty()
    } else {
        binding_views(s.drop_last()).push((s.last().0@, value_view(s.last().1)))
    }
}

impl View for Value {
    type V = ValueModel;

    open spec fn view(&self) -> ValueModel {
        value_view(*self)
    }
}

/// The view of each item.
pub proof fn lemma_value_views(s: Seq<Value>)
    ensures
        value_views(s).len() == s.len(),
        forall|i: int| 0 <= i < s.len() ==> #[trigger] value_views(s)[i] == value_view(s[i]),
    decreases s.len(),
{
    if s.len() > 0 {
        lemma_value_views(s.drop_last());
    }
}

/// The view of each binding.
pub proof fn lemma_binding_views(s: Seq<(String, Value)>)
    ensures
        binding_views(s).len() == s.len(),
        forall|i: int| 0 <= i < s.len() ==> #[trigger] binding_views(s)[i] == (s[i].0@, value_view(s[i].1)),
    decreases s.len(),
{
    if s.len() > 0 {
        lemma_binding_views(s.drop_last());
    }
}

/// A copy of each binding, in order.
pub fn copy_bindings(b: &Vec<(String, Value)>) -> (r: Vec<(String, Value)>)
    ensures
        binding_views(r@) == binding_views(b@),
{
    let mut out: Vec<(String, Value)> = Vec::new();
    let mut i: usize = 0;
    while i < b.len()
        invariant
            i <= b.len(),
            binding_views(out@) == binding_views(b@.take(i as int)),
        decreases b.len() - i,
    {
        let (n, v) = &b[i];
        let c = (string_from(n.as_str()), copy_value(v));
        proof {
            let t = b@.take(i + 1);
            assert(t.drop_last() =~= b@.take(i as int));
            assert(t.last() == b@[i as int]);
            assert(out@.push(c).drop_last() =~= out@);
        }
        out.push(c);
        i = i + 1;
    }
    assert(b@.take(b.len() as int) =~= b@);
    out
}

pub proof fn lemma_value_views_push(s: Seq<Value>, x: Value)
    ensures
        value_views(s.push(x)) == value_views(s).push(value_view(x)),
{
    assert(s.push(x).drop_last() =~= s);
}

/// `Rc::clone`: another pointer to the same value.
#[verifier::external_body]
fn share<T>(r: &Rc<T>) -> (s: Rc<T>)
    ensures
        *s == **r,
{
    Rc::clone(r)
}

/// A copy of a value.
pub fn copy_value(v: &Value) -> (r: Value)
    ensures
        r@ == v@,
    decreases v,
{
    match v {
        Value::Int32(i) => Value::Int32(*i),
        Value::Float32Text(t) => Value::Float32Text(t.clone()),
        Value::String(t) => Value::String(t.clone()),
        Value::Function { param, body, captured } => Value::Function {
            param: param.clone(),
            body: share(body),
            captured: share(captured),
        },
        Value::Builtin { op, args } => Value::Builtin { op: *op, args: copy_values(args) },
        Value::Tuple(items) => Value::Tuple(copy_values(items)),
        Value::Constructor { tag, values } => Value::Constructor { tag: tag.clone(), values: copy_values(values) },
        Value::Io { kind, args } => Value::Io { kind: *kind, args: copy_values(args) },
    }
}

/// A copy of each value, in order.
pub fn copy_values(vs: &Vec<Value>) -> (r: Vec<Value>)
    ensures
        value_views(r@) == value_views(vs@),
    decreases vs,
{
    let mut out: Vec<Value> = Vec::new();
    let mut i: usize = 0;
    while i < vs.len()
        invariant
            i <= vs.len(),
            value_views(out@) == value_views(vs@.take(i as int)),
        decreases vs.len() - i,
    {
        assert(decreases_to!(vs => vs@[i as int]));
        let c = copy_value(&vs[i]);
        proof {
            lemma_value_views_push(out@, c);
            lemma_value_views_push(vs@.take(i as int), vs@[i as int]);
            assert(vs@.take(i as int).push(vs@[i as int]) =~= vs@.take(i + 1));
        }
        out.push(c);
        i = i + 1;
    }
    assert(vs@.take(vs.len() as int) =~= vs@);
    out
}

// --- text ---

/// A value as the interpreter writes it.
pub open spec fn value_text(v: ValueModel) -> Seq<char>
    decreases v,
{
    match v {
        ValueModel::Int32(i) => spec_signed_decimal(i as int),
        ValueModel::Float32Text(t) => t,
        ValueModel::String(t) => t,
        ValueModel::Function { param, body, .. } => param + " => "@ + anf_value_text(body),
        ValueModel::Builtin { .. } => "[native function]"@,
        ValueModel::Io { .. } => "[IO]"@,
        ValueModel::Tuple(items) => "("@ + spec_join(value_texts(items), ", "@) + ")"@,
        ValueModel::Constructor { tag, values } => if values.len() == 0 {
            tag
        } else {
            tag + " "@ + spec_join(value_texts(values), " "@)
        },
    }
}

pub open spec fn value_texts(s: Seq<ValueModel>) -> Seq<Seq<char>>
    decreases s,
{
    if s.len() == 0 {
        Seq::empty()
    } else {
        value_texts(s.drop_last()).push(value_text(s.last()))
    }
}

impl Value {
    /// The value as the interpreter writes it.
    pub fn to_text(&self) -> (r: String)
        ensures
            r@ == value_text(self@),
        decreases self,
    {
        match self {
            Value::Int32(i) => i32_to_decimal(*i),
            Value::Float32Text(t) => t.clone(),
            Value::String(t) => t.clone(),
            Value::Function { param, body, .. } => {
                let mut text = param.clone();
                text.append(" => ");
                let b = body.to_text();
                text.append(b.as_str());
                text
            },
            Value::Builtin { .. } => string_from("[native function]"),
            Value::Io { .. } => string_from("[IO]"),
            Value::Tuple(items) => {
                let texts = value_texts_of(items);
                let mut text = string_from("(");
                let j = format_joined(&texts, ", ");
                text.append(j.as_str());
                text.append(")");
                text
            },
            Value::Constructor { tag, values } => {
                proof {
                    lemma_value_views(values@);
                }
                if values.len() == 0 {
                    tag.clone()
                } else {
                    let texts = value_texts_of(values);
                    let mut text = tag.clone();
                    text.append(" ");
                    let j = format_joined(&texts, " ");
                    text.append(j.as_str());
                    text
                }
            },
        }
    }
}

/// The text of each value, in order.
fn value_texts_of(vs: &Vec<Value>) -> (r: Vec<String>)
    ensures
        string_views(r@) == value_texts(value_views(vs@)),
    decreases vs,
{
    let mut out: Vec<String> = Vec::new();
    let mut i: usize = 0;
    while i < vs.len()
        invariant
            i <= vs.len(),
            string_views(out@) == value_texts(value_views(vs@.take(i as int))),
        decreases vs.len() - i,
    {
        assert(decreases_to!(vs => vs@[i as int]));
        let t = vs[i].to_text();
        proof {
            lemma_value_views_push(vs@.take(i as int), vs@[i as int]);
            assert(vs@.take(i as int).push(vs@[i as int]) =~= vs@.take(i + 1));
            let vv = value_views(vs@.take(i + 1));
            assert(vv.drop_last() =~= value_views(vs@.take(i as int)));
            assert(string_views(out@.push(t)) =~= string_views(out@).push(t@));
        }
        out.push(t);
        i = i + 1;
    }
    assert(vs@.take(vs.len() as int) =~= vs@);
    out
}

// --- match arm patterns ---

/// The bindings a pattern makes of a value, left to right, or `None` where
/// the value does not have the pattern's shape. `_` matches anything and
/// binds nothing; a name that starts with an uppercase letter is a
/// constructor without arguments; another name binds the whole value.
/// Where a name is bound twice, the later binding is the one that counts.
pub open spec fn spec_match_pattern(v: ValueModel, p: ArmPatternModel) -> Option<Seq<(Seq<char>, ValueModel)>>
    decreases p,
{
    match p {
        ArmPatternModel::Literal { literal, .. } => match (literal, v) {
            (LiteralModel::Int32(a), ValueModel::Int32(b)) => if a == b {
                Some(Seq::empty())
            } else {
                None
            },
            (LiteralModel::Float32(a), ValueModel::Float32Text(b)) => if a == b {
                Some(Seq::empty())
            } else {
                None
            },
            _ => None,
        },
        ArmPatternModel::Identifier { name, .. } => if name == "_"@ {
            Some(Seq::empty())
        } else if spec_is_type_name(name) {
            match v {
                ValueModel::Constructor { tag, values } => if tag == name && values.len() == 0 {
                    Some(Seq::empty())
                } else {
                    None
                },
                _ => None,
            }
        } else {
            Some(seq![(name, v)])
        },
        ArmPatternModel::Tuple { items, .. } => match v {
            ValueModel::Tuple(values) => if values.len() == items.len() {
                spec_match_all(values, items)
            } else {
                None
            },
            _ => None,
        },
        ArmPatternModel::DataConstructor { name, args, .. } => match v {
            ValueModel::Constructor { tag, values } => if tag == name && values.len() == args.len() {
                spec_match_all(values, args)
            } else {
                None
            },
            _ => None,
        },
    }
}

/// The bindings of each value by the pattern in the same place, joined, or
/// `None` where one of them does not match.
pub open spec fn spec_match_all(vs: Seq<ValueModel>, ps: Seq<ArmPatternModel>) -> Option<Seq<(Seq<char>, ValueModel)>>
    decreases ps,
{
    if ps.len() == 0 || vs.len() == 0 {
        Some(Seq::empty())
    } else {
        match spec_match_all(vs.drop_last(), ps.drop_last()) {
            None => None,
            Some(b) => match spec_match_pattern(vs.last(), ps.last()) {
                None => None,
                Some(c) => Some(b + c),
            },
        }
    }
}

/// Where a prefix does not match, neither does the whole.
proof fn lemma_match_all_prefix_none(vs: Seq<ValueModel>, ps: Seq<ArmPatternModel>, k: int)
    requires
        0 <= k <= vs.len(),
        vs.len() == ps.len(),
        spec_match_all(vs.take(k), ps.take(k)) is None,
    ensures
        spec_match_all(vs, ps) is None,
    decreases vs.len(),
{
    if vs.len() > k {
        assert(vs.drop_last().take(k) =~= vs.take(k));
        assert(ps.drop_last().take(k) =~= ps.take(k));
        lemma_match_all_prefix_none(vs.drop_last(), ps.drop_last(), k);
    } else {
        assert(vs.take(k) =~= vs);
        assert(ps.take(k) =~= ps);
    }
}

pub open spec fn bindings_view(b: Option<Vec<(String, Value)>>) -> Option<Seq<(Seq<char>, ValueModel)>> {
    match b {
        Some(v) => Some(binding_views(v@)),
        None => None,
    }
}

pub proof fn lemma_binding_views_append(a: Seq<(String, Value)>, b: Seq<(String, Value)>)
    ensures
        binding_views(a + b) == binding_views(a) + binding_views(b),
    decreases b.len(),
{
    if b.len() == 0 {
        assert(a + b =~= a);
        assert(binding_views(a) + binding_views(b) =~= binding_views(a));
    } else {
        lemma_binding_views_append(a, b.drop_last());
        assert((a + b).drop_last() =~= a + b.drop_last());
        assert((a + b).last() == b.last());
    }
}

/// The bindings `pattern` makes of `value`, or `None` where it does not
/// match.
pub fn match_pattern(value: &Value, pattern: &CoreMatchArmPattern) -> (r: Option<Vec<(String, Value)>>)
    ensures
        bindings_view(r) == spec_match_pattern(value@, pattern@),
    decreases pattern,
{
    match pattern {
        CoreMatchArmPattern::Literal { literal, .. } => match (literal, value) {
            (Literal::Int32(a), Value::Int32(b)) => if *a == *b {
                Some(Vec::new())
            } else {
                None
            },
            (Literal::Float32(a), Value::Float32Text(b)) => if str_eq(a.as_str(), b.as_str()) {
                Some(Vec::new())
            } else {
                None
            },
            _ => None,
        },
        CoreMatchArmPattern::Identifier { name, .. } => {
            if str_eq(name.as_str(), "_") {
                Some(Vec::new())
            } else if is_type_name(name.as_str()) {
                match value {
                    Value::Constructor { tag, values } => if str_eq(tag.as_str(), name.as_str()) && values.len()
                        == 0 {
                        proof {
                            lemma_value_views(values@);
                        }
                        Some(Vec::new())
                    } else {
                        proof {
                            lemma_value_views(values@);
                        }
                        None
                    },
                    _ => None,
                }
            } else {
                let mut b: Vec<(String, Value)> = Vec::new();
                let c = copy_value(value);
                let n = string_from(name.as_str());
                b.push((n, c));
                proof {
                    assert(b@.drop_last() =~= Seq::<(String, Value)>::empty());
                    assert(b@.last() == (n, c));
                    assert(binding_views(b@.drop_last()) =~= Seq::<(Seq<char>, ValueModel)>::empty());
                    assert(binding_views(b@) == binding_views(b@.drop_last()).push((n@, value_view(c))));
                    assert(binding_views(b@) =~= seq![(name@, value@)]);
                }
                Some(b)
            }
        },
        CoreMatchArmPattern::Tuple { items, .. } => match value {
            Value::Tuple(values) => {
                proof {
                    lemma_value_views(values@);
                    lemma_arm_pattern_views(items@);
                }
                if values.len() == items.len() {
                    match_items(values, items)
                } else {
                    None
                }
            },
            _ => None,
        },
        CoreMatchArmPattern::DataConstructor { name, args, .. } => match value {
            Value::Constructor { tag, values } => {
                proof {
                    lemma_value_views(values@);
                    lemma_arm_pattern_views(args@);
                }
                if str_eq(tag.as_str(), name.as_str()) && values.len() == args.len() {
                    match_items(values, args)
                } else {
                    None
                }
            },
            _ => None,
        },
    }
}

/// The bindings each pattern makes of the value in the same place, joined,
/// or `None` where one does not match.
fn match_items(values: &Vec<Value>, pats: &Vec<CoreMatchArmPattern>) -> (r: Option<Vec<(String, Value)>>)
    requires
        values.len() == pats.len(),
    ensures
        bindings_view(r) == spec_match_all(value_views(values@), arm_pattern_views(pats@)),
    decreases pats,
{
    let ghost vs = value_views(values@);
    let ghost ps = arm_pattern_views(pats@);
    proof {
        lemma_value_views(values@);
        lemma_arm_pattern_views(pats@);
    }
    let mut acc: Vec<(String, Value)> = Vec::new();
    let mut i: usize = 0;
    while i < pats.len()
        invariant
            i <= pats.len(),
            values.len() == pats.len(),
            vs == value_views(values@),
            ps == arm_pattern_views(pats@),
            vs.len() == values.len(),
            ps.len() == pats.len(),
            forall|j: int| 0 <= j < values.len() ==> #[trigger] vs[j] == values@[j]@,
            forall|j: int| 0 <= j < pats.len() ==> #[trigger] ps[j] == pats@[j]@,
            spec_match_all(vs.take(i as int), ps.take(i as int)) == Some(binding_views(acc@)),
        decreases pats.len() - i,
    {
        assert(decreases_to!(pats => pats@[i as int]));
        let m = match_pattern(&values[i], &pats[i]);
        proof {
            let vt = vs.take(i + 1);
            let pt = ps.take(i + 1);
            assert(vt.drop_last() =~= vs.take(i as int));
            assert(pt.drop_last() =~= ps.take(i as int));
            assert(vt.last() == vs[i as int]);
            assert(pt.last() == ps[i as int]);
        }
        match m {
            None => {
                proof {
                    lemma_match_all_prefix_none(vs, ps, i + 1);
                }
                return None;
            },
            Some(b) => {
                proof {
                    lemma_binding_views_append(acc@, b@);
                }
                let mut b = b;
                acc.append(&mut b);
            },
        }
        i = i + 1;
    }
    proof {
        assert(vs.take(i as int) =~= vs);
        assert(ps.take(i as int) =~= ps);
    }
    Some(acc)
}

// --- native operations ---

pub open spec fn runtime_error(message: Seq<char>) -> ErrorModel {
    ErrorModel { kind: ErrorKind::Runtime, message, span: None }
}

/// What an arithmetic operation gives of its two operands, as an integer.
pub open spec fn spec_op_result(op: BuiltinOp, lhs: i32, rhs: i32) -> int {
    match op {
        BuiltinOp::SubtractInt32 => lhs - rhs,
        _ => lhs + rhs,
    }
}

/// Whether the operation takes one operand; the others take two.
pub open spec fn is_unary(op: BuiltinOp) -> bool {
    op is ToString || op is Return || op is Join || op is Print || op is PrintLine
}

pub open spec fn is_function(v: ValueModel) -> bool {
    v is Function || v is Builtin
}

/// Whether a value may be the operation's first operand.
pub open spec fn first_fits(op: BuiltinOp, v: ValueModel) -> bool {
    match op {
        BuiltinOp::AddInt32 | BuiltinOp::SubtractInt32 | BuiltinOp::ToString => v is Int32,
        BuiltinOp::ConcatString | BuiltinOp::Print | BuiltinOp::PrintLine => v is String,
        BuiltinOp::Return => true,
        BuiltinOp::Fmap => is_function(v),
        BuiltinOp::Join | BuiltinOp::Bind | BuiltinOp::Then => v is Io,
    }
}

/// Whether a value may be the operation's second operand.
pub open spec fn second_fits(op: BuiltinOp, v: ValueModel) -> bool {
    match op {
        BuiltinOp::ConcatString => v is String,
        BuiltinOp::Fmap | BuiltinOp::Then => v is Io,
        BuiltinOp::Bind => is_function(v),
        _ => v is Int32,
    }
}

/// The error for a first operand that does not fit.
pub open spec fn first_error(op: BuiltinOp, v: ValueModel) -> ErrorModel {
    runtime_error(
        match op {
            BuiltinOp::AddInt32 => "`addInt32`: left operand is not an Int32"@,
            BuiltinOp::SubtractInt32 => "`subtractInt32`: left operand is not an Int32"@,
            BuiltinOp::ToString => "`toString`: argument cannot be converted to String"@,
            BuiltinOp::ConcatString => "`concatString`: left operand is not a String"@,
            BuiltinOp::Fmap => "`fmap`: argument is not a function"@,
            BuiltinOp::Bind => "`bind`: first argument is not an IO"@,
            BuiltinOp::Then => "`then`: first argument `"@ + value_text(v) + "` is not an IO"@,
            BuiltinOp::Join => "`join`: argument is not an IO"@,
            BuiltinOp::Print => "`print`: argument is not a String"@,
            BuiltinOp::PrintLine => "`printLine`: argument is not a String"@,
            BuiltinOp::Return => Seq::empty(),
        },
    )
}

/// The error for a second operand that does not fit.
pub open spec fn second_error(op: BuiltinOp, v: ValueModel) -> ErrorModel {
    runtime_error(
        match op {
            BuiltinOp::SubtractInt32 => "`subtractInt32`: right operand is not an Int32"@,
            BuiltinOp::ConcatString => "`concatString`: right operand is not a String"@,
            BuiltinOp::Fmap => "`fmap`: argument is not an IO"@,
            BuiltinOp::Bind => "`bind`: second argument is not a function"@,
            BuiltinOp::Then => "`then`: second argument `"@ + value_text(v) + "` is not an IO"@,
            _ => "`addInt32`: right operand is not an Int32"@,
        },
    )
}

/// What an operation gives once it has all its operands: `toString` the
/// decimal text of an integer; the arithmetic ones the sum or difference;
/// `concatString` the two strings one after the other; the others an
/// action that holds their operands, to be run later.
pub open spec fn builtin_result(op: BuiltinOp, args: Seq<ValueModel>) -> ValueModel {
    match op {
        BuiltinOp::ToString => match args[0] {
            ValueModel::Int32(i) => ValueModel::String(spec_signed_decimal(i as int)),
            other => other,
        },
        BuiltinOp::AddInt32 | BuiltinOp::SubtractInt32 => match (args[0], args[1]) {
            (ValueModel::Int32(l), ValueModel::Int32(r)) => ValueModel::Int32(spec_op_result(op, l, r) as i32),
            _ => args[0],
        },
        BuiltinOp::ConcatString => match (args[0], args[1]) {
            (ValueModel::String(l), ValueModel::String(r)) => ValueModel::String(l + r),
            _ => args[0],
        },
        BuiltinOp::Return => ValueModel::Io { kind: IoKind::Return, args },
        BuiltinOp::Join => ValueModel::Io { kind: IoKind::Join, args },
        BuiltinOp::Fmap => ValueModel::Io { kind: IoKind::Fmap, args },
        BuiltinOp::Bind => ValueModel::Io { kind: IoKind::Bind, args },
        BuiltinOp::Then => ValueModel::Io { kind: IoKind::Then, args },
        BuiltinOp::Print => ValueModel::Io { kind: IoKind::Print, args },
        BuiltinOp::PrintLine => ValueModel::Io { kind: IoKind::PrintLine, args },
    }
}

/// An operation applied to one more argument: the operands are checked as
/// they come; an operation of two operands keeps its first until the
/// second comes.
pub open spec fn spec_apply_builtin(op: BuiltinOp, args: Seq<ValueModel>, arg: ValueModel) -> Result<ValueModel, ErrorModel> {
    if is_unary(op) || args.len() == 0 {
        if !first_fits(op, arg) {
            Err(first_error(op, arg))
        } else if is_unary(op) {
            Ok(builtin_result(op, seq![arg]))
        } else {
            Ok(ValueModel::Builtin { op, args: seq![arg] })
        }
    } else if !first_fits(op, args[0]) {
        Err(first_error(op, args[0]))
    } else if !second_fits(op, arg) {
        Err(second_error(op, arg))
    } else {
        Ok(builtin_result(op, seq![args[0], arg]))
    }
}

/// Whether the result of an arithmetic operation, where one is computed,
/// fits in an `Int32`.
pub open spec fn builtin_in_range(op: BuiltinOp, args: Seq<ValueModel>, arg: ValueModel) -> bool {
    ((op is AddInt32 || op is SubtractInt32) && args.len() > 0) ==> match (args[0], arg) {
        (ValueModel::Int32(l), ValueModel::Int32(r)) => i32::MIN <= spec_op_result(op, l, r) <= i32::MAX,
        _ => true,
    }
}

fn unary(op: BuiltinOp) -> (r: bool)
    ensures
        r == is_unary(op),
{
    match op {
        BuiltinOp::ToString | BuiltinOp::Return | BuiltinOp::Join | BuiltinOp::Print | BuiltinOp::PrintLine => true,
        _ => false,
    }
}

fn function_value(v: &Value) -> (r: bool)
    ensures
        r == is_function(v@),
{
    match v {
        Value::Function { .. } | Value::Builtin { .. } => true,
        _ => false,
    }
}

fn fits_first(op: BuiltinOp, v: &Value) -> (r: bool)
    ensures
        r == first_fits(op, v@),
{
    match op {
        BuiltinOp::AddInt32 | BuiltinOp::SubtractInt32 | BuiltinOp::ToString => match v {
            Value::Int32(_) => true,
            _ => false,
        },
        BuiltinOp::ConcatString | BuiltinOp::Print | BuiltinOp::PrintLine => match v {
            Value::String(_) => true,
            _ => false,
        },
        BuiltinOp::Return => true,
        BuiltinOp::Fmap => function_value(v),
        BuiltinOp::Join | BuiltinOp::Bind | BuiltinOp::Then => match v {
            Value::Io { .. } => true,
            _ => false,
        },
    }
}

fn fits_second(op: BuiltinOp, v: &Value) -> (r: bool)
    ensures
        r == second_fits(op, v@),
{
    match op {
        BuiltinOp::ConcatString => match v {
            Value::String(_) => true,
            _ => false,
        },
        BuiltinOp::Fmap | BuiltinOp::Then => match v {
            Value::Io { .. } => true,
            _ => false,
        },
        BuiltinOp::Bind => function_value(v),
        _ => match v {
            Value::Int32(_) => true,
            _ => false,
        },
    }
}

fn error_with_value(before: &str, v: &Value, after: &str) -> (e: FogError)
    ensures
        e@ == runtime_error(before@ + value_text(v@) + after@),
{
    let mut message = string_from(before);
    let t = v.to_text();
    message.append(t.as_str());
    message.append(after);
    FogError::new(ErrorKind::Runtime, message, None)
}

fn runtime(message: &str) -> (e: FogError)
    ensures
        e@ == runtime_error(message@),
{
    FogError::new(ErrorKind::Runtime, string_from(message), None)
}

fn operand_error(op: BuiltinOp, v: &Value, first: bool) -> (e: FogError)
    ensures
        e@ == (if first {
            first_error(op, v@)
        } else {
            second_error(op, v@)
        }),
{
    if first {
        match op {
            BuiltinOp::AddInt32 => runtime("`addInt32`: left operand is not an Int32"),
            BuiltinOp::SubtractInt32 => runtime("`subtractInt32`: left operand is not an Int32"),
            BuiltinOp::ToString => runtime("`toString`: argument cannot be converted to String"),
            BuiltinOp::ConcatString => runtime("`concatString`: left operand is not a String"),
            BuiltinOp::Fmap => runtime("`fmap`: argument is not a function"),
            BuiltinOp::Bind => runtime("`bind`: first argument is not an IO"),
            BuiltinOp::Then => error_with_value("`then`: first argument `", v, "` is not an IO"),
            BuiltinOp::Join => runtime("`join`: argument is not an IO"),
            BuiltinOp::Print => runtime("`print`: argument is not a String"),
            BuiltinOp::PrintLine => runtime("`printLine`: argument is not a String"),
            BuiltinOp::Return => FogError::new(ErrorKind::Runtime, String::new(), None),
        }
    } else {
        match op {
            BuiltinOp::SubtractInt32 => runtime("`subtractInt32`: right operand is not an Int32"),
            BuiltinOp::ConcatString => runtime("`concatString`: right operand is not a String"),
            BuiltinOp::Fmap => runtime("`fmap`: argument is not an IO"),
            BuiltinOp::Bind => runtime("`bind`: second argument is not a function"),
            BuiltinOp::Then => error_with_value("`then`: second argument `", v, "` is not an IO"),
            _ => runtime("`addInt32`: right operand is not an Int32"),
        }
    }
}

fn io_value(kind: IoKind, args: Vec<Value>) -> (r: Value)
    ensures
        r@ == (ValueModel::Io { kind, args: value_views(args@) }),
{
    Value::Io { kind, args }
}

/// The values in a vector, in order, for one or two of them.
proof fn lemma_value_views_small(v: Seq<Value>)
    requires
        1 <= v.len() <= 2,
    ensures
        v.len() == 1 ==> value_views(v) == seq![value_view(v[0])],
        v.len() == 2 ==> value_views(v) == seq![value_view(v[0]), value_view(v[1])],
{
    lemma_value_views(v);
    if v.len() == 1 {
        assert(value_views(v) =~= seq![value_view(v[0])]);
    } else {
        assert(value_views(v) =~= seq![value_view(v[0]), value_view(v[1])]);
    }
}

/// What `op` gives once it has all its operands, which fit.
fn builtin_result_of(op: BuiltinOp, args: Vec<Value>) -> (r: Value)
    requires
        is_unary(op) ==> args.len() == 1 && first_fits(op, args@[0]@),
        !is_unary(op) ==> args.len() == 2 && first_fits(op, args@[0]@) && second_fits(op, args@[1]@),
        builtin_in_range(op, seq![args@[0]@], args@[args.len() - 1]@),
    ensures
        r@ == builtin_result(op, value_views(args@)),
{
    proof {
        lemma_value_views_small(args@);
    }
    match op {
        BuiltinOp::ToString => match &args[0] {
            Value::Int32(i) => Value::String(i32_to_decimal(*i)),
            _ => Value::Int32(0),
        },
        BuiltinOp::AddInt32 | BuiltinOp::SubtractInt32 => match (&args[0], &args[1]) {
            (Value::Int32(l), Value::Int32(r)) => {
                let v = match op {
                    BuiltinOp::SubtractInt32 => *l - *r,
                    _ => *l + *r,
                };
                Value::Int32(v)
            },
            _ => Value::Int32(0),
        },
        BuiltinOp::ConcatString => match (&args[0], &args[1]) {
            (Value::String(l), Value::String(r)) => {
                let mut joined = l.clone();
                joined.append(r.as_str());
                Value::String(joined)
            },
            _ => Value::Int32(0),
        },
        BuiltinOp::Return => io_value(IoKind::Return, args),
        BuiltinOp::Join => io_value(IoKind::Join, args),
        BuiltinOp::Fmap => io_value(IoKind::Fmap, args),
        BuiltinOp::Bind => io_value(IoKind::Bind, args),
        BuiltinOp::Then => io_value(IoKind::Then, args),
        BuiltinOp::Print => io_value(IoKind::Print, args),
        BuiltinOp::PrintLine => io_value(IoKind::PrintLine, args),
    }
}

/// `op`, which has taken `args`, applied to `arg`.
pub fn apply_builtin(op: BuiltinOp, args: &Vec<Value>, arg: Value) -> (r: FogResult<Value>)
    requires
        builtin_in_range(op, value_views(args@), arg@),
    ensures
        agrees(r, spec_apply_builtin(op, value_views(args@), arg@)),
{
    proof {
        lemma_value_views(args@);
    }
    if unary(op) || args.len() == 0 {
        if !fits_first(op, &arg) {
            Err(operand_error(op, &arg, true))
        } else {
            let mut taken: Vec<Value> = Vec::new();
            let ghost a = arg;
            taken.push(arg);
            proof {
                lemma_value_views_small(taken@);
                assert(taken@[0] == a);
            }
            if unary(op) {
                Ok(builtin_result_of(op, taken))
            } else {
                Ok(Value::Builtin { op, args: taken })
            }
        }
    } else if !fits_first(op, &args[0]) {
        Err(operand_error(op, &args[0], true))
    } else if !fits_second(op, &arg) {
        Err(operand_error(op, &arg, false))
    } else {
        let first = copy_value(&args[0]);
        let mut both: Vec<Value> = Vec::new();
        let ghost a = first;
        let ghost b = arg;
        both.push(first);
        both.push(arg);
        proof {
            lemma_value_views_small(both@);
            assert(both@[0] == a);
            assert(both@[1] == b);
        }
        Ok(builtin_result_of(op, both))
    }
}

} // verus!
