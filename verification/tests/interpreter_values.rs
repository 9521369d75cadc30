use lib::error::ErrorKind;
use lib::error::Pos;
use lib::error::Span;
use lib::interpreter::value::apply_builtin;
use lib::interpreter::value::match_pattern;
use lib::interpreter::value::BuiltinOp;
use lib::interpreter::value::IoKind;
use lib::interpreter::value::Value;
use lib::parser::core_expr::CoreMatchArmPattern;
use lib::parser::Literal;

const SPAN: Span = Span { start: Pos { line: 1, column: 1 }, end: Pos { line: 1, column: 2 } };

fn ident(name: &str) -> CoreMatchArmPattern {
    CoreMatchArmPattern::Identifier { name: name.to_string(), span: SPAN }
}

fn int_of(v: &Value) -> Option<i32> {
    match v {
        Value::Int32(i) => Some(*i),
        _ => None,
    }
}

#[test]
fn literal_pattern_matches_equal_integer() {
    let p = CoreMatchArmPattern::Literal { literal: Literal::Int32(3), span: SPAN };
    assert_eq!(match_pattern(&Value::Int32(3), &p).map(|b| b.len()), Some(0));
    assert!(match_pattern(&Value::Int32(4), &p).is_none());
}

#[test]
fn wildcard_binds_nothing_and_name_binds_value() {
    assert_eq!(match_pattern(&Value::Int32(7), &ident("_")).map(|b| b.len()), Some(0));
    let b = match_pattern(&Value::Int32(7), &ident("x")).unwrap();
    assert_eq!(b.len(), 1);
    assert_eq!(b[0].0, "x");
    assert_eq!(int_of(&b[0].1), Some(7));
}

#[test]
fn uppercase_name_is_a_nullary_constructor() {
    let none = Value::Constructor { tag: "None".to_string(), values: vec![] };
    assert_eq!(match_pattern(&none, &ident("None")).map(|b| b.len()), Some(0));
    assert!(match_pattern(&Value::Int32(1), &ident("None")).is_none());
    let other = Value::Constructor { tag: "Nil".to_string(), values: vec![] };
    assert!(match_pattern(&other, &ident("None")).is_none());
}

#[test]
fn tuple_pattern_binds_items_in_order() {
    let p = CoreMatchArmPattern::Tuple { items: vec![ident("a"), ident("_"), ident("b")], span: SPAN };
    let v = Value::Tuple(vec![Value::Int32(1), Value::Int32(2), Value::Int32(3)]);
    let b = match_pattern(&v, &p).unwrap();
    assert_eq!(b.len(), 2);
    assert_eq!((b[0].0.as_str(), int_of(&b[0].1)), ("a", Some(1)));
    assert_eq!((b[1].0.as_str(), int_of(&b[1].1)), ("b", Some(3)));
    let short = Value::Tuple(vec![Value::Int32(1)]);
    assert!(match_pattern(&short, &p).is_none());
}

#[test]
fn constructor_pattern_checks_tag_and_arguments() {
    let p = CoreMatchArmPattern::DataConstructor {
        name: "Some".to_string(),
        args: vec![CoreMatchArmPattern::Literal { literal: Literal::Int32(0), span: SPAN }],
        span: SPAN,
    };
    let zero = Value::Constructor { tag: "Some".to_string(), values: vec![Value::Int32(0)] };
    let one = Value::Constructor { tag: "Some".to_string(), values: vec![Value::Int32(1)] };
    assert_eq!(match_pattern(&zero, &p).map(|b| b.len()), Some(0));
    assert!(match_pattern(&one, &p).is_none());
}

#[test]
fn add_takes_its_operands_one_at_a_time() {
    let partial = apply_builtin(BuiltinOp::AddInt32, &vec![], Value::Int32(40)).unwrap();
    let Value::Builtin { op, args } = partial else { panic!("expected a partial application") };
    assert_eq!(op, BuiltinOp::AddInt32);
    let sum = apply_builtin(op, &args, Value::Int32(2)).unwrap();
    assert_eq!(int_of(&sum), Some(42));
}

#[test]
fn subtract_gives_difference() {
    let r = apply_builtin(BuiltinOp::SubtractInt32, &vec![Value::Int32(10)], Value::Int32(3)).unwrap();
    assert_eq!(int_of(&r), Some(7));
}

#[test]
fn builtin_rejects_non_integer_operands() {
    let left = apply_builtin(BuiltinOp::AddInt32, &vec![], Value::Tuple(vec![])).err().unwrap();
    assert_eq!(left.kind, ErrorKind::Runtime);
    assert_eq!(left.message, "`addInt32`: left operand is not an Int32");
    let right = apply_builtin(BuiltinOp::AddInt32, &vec![Value::Int32(1)], Value::Float32Text("1.5".to_string()))
        .err()
        .unwrap();
    assert_eq!(right.message, "`addInt32`: right operand is not an Int32");
}

fn text_of(v: &Value) -> Option<String> {
    match v {
        Value::String(s) => Some(s.clone()),
        _ => None,
    }
}

#[test]
fn to_string_writes_the_integer() {
    let r = apply_builtin(BuiltinOp::ToString, &vec![], Value::Int32(-15)).unwrap();
    assert_eq!(text_of(&r), Some("-15".to_string()));
    let e = apply_builtin(BuiltinOp::ToString, &vec![], Value::String("x".to_string())).err().unwrap();
    assert_eq!(e.message, "`toString`: argument cannot be converted to String");
}

#[test]
fn concat_string_joins_its_operands() {
    let partial = apply_builtin(BuiltinOp::ConcatString, &vec![], Value::String("ab".to_string())).unwrap();
    let Value::Builtin { op, args } = partial else { panic!("expected a partial application") };
    let r = apply_builtin(op, &args, Value::String("cd".to_string())).unwrap();
    assert_eq!(text_of(&r), Some("abcd".to_string()));
    let e = apply_builtin(BuiltinOp::ConcatString, &vec![], Value::Int32(1)).err().unwrap();
    assert_eq!(e.message, "`concatString`: left operand is not a String");
    let e = apply_builtin(op, &args, Value::Int32(1)).err().unwrap();
    assert_eq!(e.message, "`concatString`: right operand is not a String");
}

#[test]
fn print_wraps_a_string_in_an_action() {
    let r = apply_builtin(BuiltinOp::Print, &vec![], Value::String("hi".to_string())).unwrap();
    match r {
        Value::Io { kind, args } => {
            assert_eq!(kind, IoKind::Print);
            assert_eq!(args.len(), 1);
            assert_eq!(text_of(&args[0]), Some("hi".to_string()));
        },
        _ => panic!("expected an action"),
    }
    let e = apply_builtin(BuiltinOp::PrintLine, &vec![], Value::Int32(1)).err().unwrap();
    assert_eq!(e.message, "`printLine`: argument is not a String");
}

#[test]
fn then_checks_both_actions() {
    let e = apply_builtin(BuiltinOp::Then, &vec![], Value::Int32(7)).err().unwrap();
    assert_eq!(e.message, "`then`: first argument `7` is not an IO");
    let io = Value::Io { kind: IoKind::ReadLine, args: vec![] };
    let partial = apply_builtin(BuiltinOp::Then, &vec![], io).unwrap();
    let Value::Builtin { op, args } = partial else { panic!("expected a partial application") };
    let e = apply_builtin(op, &args, Value::Tuple(vec![Value::Int32(1), Value::Int32(2)])).err().unwrap();
    assert_eq!(e.message, "`then`: second argument `(1, 2)` is not an IO");
    let done = apply_builtin(op, &args, Value::Io { kind: IoKind::ReadLine, args: vec![] }).unwrap();
    assert!(matches!(done, Value::Io { kind: IoKind::Then, .. }));
}

#[test]
fn bind_and_fmap_check_their_operands() {
    let e = apply_builtin(BuiltinOp::Bind, &vec![], Value::Int32(1)).err().unwrap();
    assert_eq!(e.message, "`bind`: first argument is not an IO");
    let io = Value::Io { kind: IoKind::ReadLine, args: vec![] };
    let e = apply_builtin(BuiltinOp::Bind, &vec![io], Value::Int32(1)).err().unwrap();
    assert_eq!(e.message, "`bind`: second argument is not a function");
    let e = apply_builtin(BuiltinOp::Fmap, &vec![], Value::Int32(1)).err().unwrap();
    assert_eq!(e.message, "`fmap`: argument is not a function");
    let f = Value::Builtin { op: BuiltinOp::ToString, args: vec![] };
    let e = apply_builtin(BuiltinOp::Fmap, &vec![f], Value::Int32(1)).err().unwrap();
    assert_eq!(e.message, "`fmap`: argument is not an IO");
    let e = apply_builtin(BuiltinOp::Join, &vec![], Value::Int32(1)).err().unwrap();
    assert_eq!(e.message, "`join`: argument is not an IO");
    let r = apply_builtin(BuiltinOp::Return, &vec![], Value::Int32(3)).unwrap();
    assert!(matches!(r, Value::Io { kind: IoKind::Return, .. }));
}
