use lib::interpreter::kind::Kind;
use lib::interpreter::types::kind_of;
use lib::interpreter::types::nest_function_types;
use lib::interpreter::types::DataConstructor;
use lib::interpreter::types::Type;

fn ctor(tag: &str, types: Vec<Type>) -> DataConstructor {
    DataConstructor { tag: tag.to_string(), types }
}

#[test]
fn test_sum_equality_ignores_constructor_order() {
    let a = Type::Sum(vec![ctor("Yes", vec![Type::Int32]), ctor("No", vec![])]);
    let b = Type::Sum(vec![ctor("No", vec![]), ctor("Yes", vec![Type::Int32])]);
    assert!(a == b);
    assert!(b == a);
}

#[test]
fn test_sum_equality_compares_fields() {
    let a = Type::Sum(vec![ctor("Yes", vec![Type::Int32])]);
    let b = Type::Sum(vec![ctor("Yes", vec![Type::Float32])]);
    let c = Type::Sum(vec![ctor("Yes", vec![Type::Int32]), ctor("No", vec![])]);
    assert!(a != b);
    assert!(a != c);
    assert!(c != a);
}

#[test]
fn test_product_and_function_equality() {
    let p1 = Type::Product(vec![Type::Int32, Type::Float32]);
    let p2 = Type::Product(vec![Type::Int32, Type::Float32]);
    let p3 = Type::Product(vec![Type::Float32, Type::Int32]);
    assert!(p1 == p2);
    assert!(p1 != p3);
    let f1 = Type::function(Type::Int32, p1.copy());
    let f2 = Type::function(Type::Int32, p2.copy());
    assert!(f1 == f2);
    assert!(f1 != p1);
    assert!(Type::Int32 != Type::Float32);
}

#[test]
fn test_nest_function_types() {
    let t = nest_function_types(&vec![Type::Int32, Type::Float32], Type::Product(vec![]));
    let expected = Type::function(
        Type::Int32,
        Type::function(Type::Float32, Type::Product(vec![])),
    );
    assert!(t == expected);
    let u = nest_function_types(&vec![], Type::Int32);
    assert!(u == Type::Int32);
}

#[test]
fn test_kind_of_types() {
    assert_eq!(kind_of(&Type::Int32), Kind::Type);
    assert_eq!(
        kind_of(&Type::function(Type::Int32, Type::Int32)),
        Kind::Function(
            Box::new(Kind::Type),
            Box::new(Kind::Function(Box::new(Kind::Type), Box::new(Kind::Type))),
        )
    );
}
