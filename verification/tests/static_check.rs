use lib::error::Pos;
use lib::error::Span;
use lib::parser::core_expr::CoreAtomicTypeExpr;
use lib::parser::core_expr::CoreDataConstructor;
use lib::parser::core_expr::CoreKindExpr;
use lib::parser::core_expr::CoreTypeExpr;
use lib::static_check::environment::Environment;
use lib::static_check::eval::eval_atomic_type_expr;
use lib::static_check::eval::eval_type_expr;
use lib::static_check::variable::TypeVariable;
use lib::static_check::eval::eval_kind_expr;
use lib::static_check::kind::Kind;
use lib::static_check::types::Monotype;
use lib::static_check::types::Type;

const SPAN: Span = Span {
    start: Pos { line: 0usize, column: 0usize },
    end: Pos { line: 0usize, column: 0usize },
};

#[test]
fn test_eval_kind_expr() {
    let expr_1 = CoreKindExpr::Type { span: SPAN };
    assert!(matches!(eval_kind_expr(&expr_1), Ok(Kind::Type)));

    let expr_2 = CoreKindExpr::Constraint { span: SPAN };
    assert!(matches!(eval_kind_expr(&expr_2), Ok(Kind::Constraint)));

    let expr_3 = CoreKindExpr::Function {
        param_kind: CoreKindExpr::Type { span: SPAN }.into(),
        return_kind: CoreKindExpr::Type { span: SPAN }.into(),
        span: SPAN,
    };
    assert!(matches!(
        eval_kind_expr(&expr_3),
        Ok(Kind::Function(p, r))
            if *p == Kind::Type &&
               *r == Kind::Type
    ));
}

#[test]
fn test_alpha_equivalence() {
    let a = Type {
        vars: vec!["a".to_string()],
        monotype: Monotype::Variable("a".to_string()),
    };
    let b = Type {
        vars: vec!["b".to_string()],
        monotype: Monotype::Variable("b".to_string()),
    };

    assert_eq!(a, b);
}

#[test]
fn renamed_scheme_is_equal() {
    let a = Type {
        vars: vec!["a".to_string()],
        monotype: Monotype::Function(
            Box::new(Monotype::Variable("a".to_string())),
            Box::new(Monotype::Product(vec![Monotype::Int32, Monotype::Variable("a".to_string())])),
        ),
    };
    let b = Type {
        vars: vec!["b".to_string()],
        monotype: Monotype::Function(
            Box::new(Monotype::Variable("b".to_string())),
            Box::new(Monotype::Product(vec![Monotype::Int32, Monotype::Variable("b".to_string())])),
        ),
    };
    let c = Type {
        vars: vec!["b".to_string()],
        monotype: Monotype::Function(
            Box::new(Monotype::Variable("b".to_string())),
            Box::new(Monotype::Product(vec![Monotype::Int32, Monotype::Int32])),
        ),
    };
    assert_eq!(a, b);
    assert!(a != c);
}

fn env_with_int32_and_unit() -> Environment {
    let mut env = Environment::new();
    env.insert_type_var(TypeVariable {
        name: "Int32".to_string(),
        ty: Some(Monotype::Int32),
        kind: Kind::Type,
    });
    env.insert_type_var(TypeVariable {
        name: "Unit".to_string(),
        ty: Some(Monotype::Product(Vec::new())),
        kind: Kind::Type,
    });
    env
}

#[test]
fn test_eval_type_expr() {
    let env = env_with_int32_and_unit();

    // Option a = Some a | None
    let expr_1 = CoreTypeExpr::Sum {
        ctors: vec![
            CoreDataConstructor {
                tag: "Some".to_string(),
                types: vec![CoreAtomicTypeExpr::Identifier {
                    name: "a".to_string(),
                    span: SPAN,
                }],
            },
            CoreDataConstructor {
                tag: "None".to_string(),
                types: vec![],
            },
        ],
        span: SPAN,
    };
    let (_, _, ctors) = eval_type_expr("Option", &vec!["a".to_string()], &expr_1, &env).unwrap();
    assert_eq!(ctors.len(), 2);
    assert_eq!(ctors[0].tag, "Some");
    assert_eq!(ctors[1].tag, "None");
}

#[test]
fn test_eval_type_expr_sum_uses_named_type() {
    let mut env = Environment::new();
    env.insert_type_var(TypeVariable {
        name: "Int32".to_string(),
        ty: Some(Monotype::Int32),
        kind: Kind::Type,
    });

    let expr = CoreTypeExpr::Sum {
        ctors: vec![CoreDataConstructor {
            tag: "Some".to_string(),
            types: vec![CoreAtomicTypeExpr::Identifier {
                name: "a".to_string(),
                span: SPAN,
            }],
        }],
        span: SPAN,
    };

    let (type_constructor, named_type, _) =
        eval_type_expr("Option", &vec!["a".to_string()], &expr, &env).unwrap();

    assert!(matches!(
        type_constructor.monotype,
        Monotype::TypeConstructor(_, _)
    ));

    assert!(matches!(
        named_type.monotype,
        Monotype::Named(ref name, ref args)
            if name == "Option" && args.len() == 1 && args[0] == Monotype::Variable("a".to_string())
    ));
}

#[test]
fn test_eval_atomic_type_expr() {
    let env = env_with_int32_and_unit();

    let expr_1 = CoreAtomicTypeExpr::Identifier {
        name: "Int32".to_string(),
        span: SPAN,
    };
    assert_eq!(
        eval_atomic_type_expr(&expr_1, &env).unwrap(),
        Type::mono(Monotype::Int32)
    );

    let expr_2 = CoreAtomicTypeExpr::Product {
        types: vec![
            CoreAtomicTypeExpr::Identifier {
                name: "Int32".to_string(),
                span: SPAN,
            },
            CoreAtomicTypeExpr::Identifier {
                name: "Unit".to_string(),
                span: SPAN,
            },
        ],
        span: SPAN,
    };
    let t2 = eval_atomic_type_expr(&expr_2, &env).unwrap();
    match t2.monotype {
        Monotype::Product(ref types) => {
            assert_eq!(types[0], Monotype::Int32);
            assert_eq!(types[1], Monotype::Product(Vec::new()));
        }
        _ => panic!(),
    }

    let expr_3 = CoreAtomicTypeExpr::Function {
        param_type: CoreAtomicTypeExpr::Identifier {
            name: "Unit".to_string(),
            span: SPAN,
        }
        .into(),
        return_type: CoreAtomicTypeExpr::Identifier {
            name: "Int32".to_string(),
            span: SPAN,
        }
        .into(),
        span: SPAN,
    };
    let t3 = eval_atomic_type_expr(&expr_3, &env).unwrap();
    match t3.monotype {
        Monotype::Function(ref p, ref r) => {
            assert_eq!(**p, Monotype::Product(Vec::new()));
            assert_eq!(**r, Monotype::Int32);
        }
        _ => panic!(),
    }
}
