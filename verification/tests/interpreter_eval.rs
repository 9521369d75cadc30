use lib::anf::anf::ANFAtomic;
use lib::anf::anf::ANFDeclPattern;
use lib::anf::anf::ANFStatement;
use lib::anf::anf::ANFValue;
use lib::anf::anf::ANFVar;
use lib::error::Pos;
use lib::error::Span;
use lib::interpreter::eval::interpret;
use lib::interpreter::eval::Eval;
use lib::interpreter::value::Value;
use lib::parser::core_expr::CoreMatchArmPattern;
use lib::parser::Literal;

const SPAN: Span = Span { start: Pos { line: 3, column: 5 }, end: Pos { line: 3, column: 9 } };
const FUEL: u64 = 1000;

fn var(name: &str) -> ANFVar {
    ANFVar { id: None, name: name.to_string() }
}

fn name(n: &str) -> ANFAtomic {
    ANFAtomic::Var { var: var(n), span: SPAN }
}

fn lit(i: i32) -> ANFAtomic {
    ANFAtomic::Literal { literal: Literal::Int32(i), span: SPAN }
}

fn appl(f: ANFAtomic, x: ANFAtomic) -> ANFValue {
    ANFValue::FunctionAppl(f, x)
}

fn declare(n: &str, v: ANFValue) -> ANFStatement {
    ANFStatement::Declaration(ANFDeclPattern::Single(var(n)), v)
}

fn result(r: Eval<Option<Value>>) -> Result<Option<Value>, String> {
    match r {
        Eval::Done(v) => Ok(v),
        Eval::Failed(e) => Err(e.message),
        Eval::Overflow => Err("overflow".to_string()),
        Eval::OutOfFuel => Err("out of fuel".to_string()),
    }
}

fn int_result(anfs: &Vec<ANFStatement>) -> Option<i32> {
    match result(interpret(anfs, FUEL)) {
        Ok(Some(Value::Int32(i))) => Some(i),
        _ => None,
    }
}

fn error_message(anfs: &Vec<ANFStatement>) -> String {
    match result(interpret(anfs, FUEL)) {
        Err(m) => m,
        Ok(_) => panic!("expected the program to fail"),
    }
}

#[test]
fn builtin_addition_is_curried() {
    let anfs = vec![
        declare("x", appl(name("addInt32"), lit(40))),
        ANFStatement::Value(appl(name("x"), lit(2))),
    ];
    assert_eq!(int_result(&anfs), Some(42));
}

#[test]
fn lambda_applies_its_body_to_the_argument() {
    let body = ANFValue::Atomic(ANFAtomic::Block {
        anfs: vec![
            declare("t", appl(name("subtractInt32"), name("n"))),
            ANFStatement::Value(appl(name("t"), lit(1))),
        ],
        span: SPAN,
    });
    let lambda = ANFAtomic::Lambda { param: var("n"), body: Box::new(body), span: SPAN };
    let anfs = vec![declare("f", ANFValue::Atomic(lambda)), ANFStatement::Value(appl(name("f"), lit(10)))];
    assert_eq!(int_result(&anfs), Some(9));
}

#[test]
fn lambda_captures_the_bindings_it_was_made_in() {
    let lambda = ANFAtomic::Lambda { param: var("y"), body: Box::new(ANFValue::Atomic(name("k"))), span: SPAN };
    let anfs = vec![
        declare("k", ANFValue::Atomic(lit(7))),
        declare("f", ANFValue::Atomic(lambda)),
        ANFStatement::Value(appl(name("f"), lit(0))),
    ];
    assert_eq!(int_result(&anfs), Some(7));
}

#[test]
fn match_takes_the_first_arm_that_fits() {
    let scrutinee = ANFAtomic::Tuple {
        items: vec![ANFValue::Atomic(lit(1)), ANFValue::Atomic(lit(2))],
        span: SPAN,
    };
    let first = CoreMatchArmPattern::Tuple {
        items: vec![
            CoreMatchArmPattern::Literal { literal: Literal::Int32(0), span: SPAN },
            CoreMatchArmPattern::Identifier { name: "_".to_string(), span: SPAN },
        ],
        span: SPAN,
    };
    let second = CoreMatchArmPattern::Tuple {
        items: vec![
            CoreMatchArmPattern::Identifier { name: "a".to_string(), span: SPAN },
            CoreMatchArmPattern::Identifier { name: "b".to_string(), span: SPAN },
        ],
        span: SPAN,
    };
    let m = ANFAtomic::Match {
        scrutinee: Box::new(scrutinee),
        arms: vec![(first, ANFValue::Atomic(lit(100))), (second, ANFValue::Atomic(name("b")))],
        span: SPAN,
    };
    let anfs = vec![ANFStatement::Value(ANFValue::Atomic(m))];
    assert_eq!(int_result(&anfs), Some(2));
}

#[test]
fn match_without_fitting_arm_fails() {
    let m = ANFAtomic::Match {
        scrutinee: Box::new(lit(3)),
        arms: vec![(
            CoreMatchArmPattern::Literal { literal: Literal::Int32(4), span: SPAN },
            ANFValue::Atomic(lit(0)),
        )],
        span: SPAN,
    };
    let anfs = vec![ANFStatement::Value(ANFValue::Atomic(m))];
    assert_eq!(error_message(&anfs), "match expression not covered");
}

#[test]
fn unknown_variable_fails() {
    let anfs = vec![ANFStatement::Value(ANFValue::Atomic(name("y")))];
    assert_eq!(error_message(&anfs), "variable `y` not found in the current scope");
}

#[test]
fn numbered_variable_is_looked_up_by_its_number() {
    let numbered = ANFVar { id: Some(3), name: "x".to_string() };
    let anfs = vec![
        ANFStatement::Declaration(ANFDeclPattern::Single(numbered), ANFValue::Atomic(lit(5))),
        ANFStatement::Value(ANFValue::Atomic(name("t3"))),
    ];
    assert_eq!(int_result(&anfs), Some(5));
}

#[test]
fn second_declaration_in_a_scope_fails() {
    let anfs = vec![declare("x", ANFValue::Atomic(lit(1))), declare("x", ANFValue::Atomic(lit(2)))];
    assert_eq!(error_message(&anfs), "variable `x` already declared in the current scope");
    let builtin = vec![declare("addInt32", ANFValue::Atomic(lit(1)))];
    assert_eq!(error_message(&builtin), "variable `addInt32` already declared in the current scope");
}

#[test]
fn inner_scope_may_shadow() {
    let block = ANFAtomic::Block {
        anfs: vec![declare("x", ANFValue::Atomic(lit(2))), ANFStatement::Value(ANFValue::Atomic(name("x")))],
        span: SPAN,
    };
    let anfs = vec![declare("x", ANFValue::Atomic(lit(1))), ANFStatement::Value(ANFValue::Atomic(block))];
    assert_eq!(int_result(&anfs), Some(2));
}

#[test]
fn wildcard_declaration_binds_nothing() {
    let anfs = vec![
        declare("_", ANFValue::Atomic(lit(1))),
        declare("_", ANFValue::Atomic(lit(2))),
        ANFStatement::Value(ANFValue::Atomic(lit(3))),
    ];
    assert_eq!(int_result(&anfs), Some(3));
}

#[test]
fn applying_a_number_fails() {
    let anfs = vec![ANFStatement::Value(appl(lit(1), lit(2)))];
    assert_eq!(error_message(&anfs), "cannot apply a non-function value");
}

#[test]
fn builtin_rejects_a_non_integer() {
    let lambda = ANFAtomic::Lambda { param: var("y"), body: Box::new(ANFValue::Atomic(name("y"))), span: SPAN };
    let anfs = vec![declare("f", ANFValue::Atomic(lambda)), ANFStatement::Value(appl(name("addInt32"), name("f")))];
    assert_eq!(error_message(&anfs), "`addInt32`: left operand is not an Int32");
}

#[test]
fn overflowing_addition_is_its_own_outcome() {
    let anfs = vec![
        declare("x", appl(name("addInt32"), lit(2147483647))),
        ANFStatement::Value(appl(name("x"), lit(1))),
    ];
    assert!(matches!(interpret(&anfs, FUEL), Eval::Overflow));
}

#[test]
fn self_application_runs_out_of_fuel() {
    let body = ANFValue::FunctionAppl(name("x"), name("x"));
    let omega = ANFAtomic::Lambda { param: var("x"), body: Box::new(body), span: SPAN };
    let anfs = vec![declare("w", ANFValue::Atomic(omega)), ANFStatement::Value(appl(name("w"), name("w")))];
    assert!(matches!(interpret(&anfs, FUEL), Eval::OutOfFuel));
}

#[test]
fn no_fuel_no_result() {
    let anfs = vec![ANFStatement::Value(ANFValue::Atomic(lit(1)))];
    assert!(matches!(interpret(&anfs, 0), Eval::OutOfFuel));
    assert_eq!(int_result(&anfs), Some(1));
}

#[test]
fn block_without_final_operand_fails_at_its_span() {
    let block = ANFAtomic::Block { anfs: vec![declare("x", ANFValue::Atomic(lit(1)))], span: SPAN };
    let anfs = vec![ANFStatement::Value(ANFValue::Atomic(block))];
    match interpret(&anfs, FUEL) {
        Eval::Failed(e) => {
            assert_eq!(e.message, "final operand not found in block statement");
            assert_eq!(e.span, Some(SPAN));
        },
        _ => panic!("expected the block to fail"),
    }
}

#[test]
fn program_without_value_gives_none() {
    let anfs = vec![declare("x", ANFValue::Atomic(lit(1)))];
    assert!(matches!(interpret(&anfs, FUEL), Eval::Done(None)));
}

#[test]
fn tuple_declaration_binds_each_item() {
    let pattern = ANFDeclPattern::Tuple(vec![ANFDeclPattern::Single(var("a")), ANFDeclPattern::Single(var("b"))]);
    let tuple = ANFAtomic::Tuple { items: vec![ANFValue::Atomic(lit(4)), ANFValue::Atomic(lit(6))], span: SPAN };
    let anfs = vec![
        ANFStatement::Declaration(pattern, ANFValue::Atomic(tuple)),
        ANFStatement::Value(ANFValue::Atomic(name("b"))),
    ];
    assert_eq!(int_result(&anfs), Some(6));
}

#[test]
fn tuple_declaration_checks_the_value() {
    let pattern = || ANFDeclPattern::Tuple(vec![ANFDeclPattern::Single(var("a")), ANFDeclPattern::Single(var("b"))]);
    let single = vec![ANFStatement::Declaration(pattern(), ANFValue::Atomic(lit(5)))];
    assert_eq!(error_message(&single), "cannot declare a non-tuple value `5` to a tuple");
    let triple = ANFAtomic::Tuple {
        items: vec![ANFValue::Atomic(lit(1)), ANFValue::Atomic(lit(2)), ANFValue::Atomic(lit(3))],
        span: SPAN,
    };
    let wrong = vec![ANFStatement::Declaration(pattern(), ANFValue::Atomic(triple))];
    assert_eq!(error_message(&wrong), "tuple declaration size mismatch");
}

#[test]
fn argument_is_evaluated_before_the_call() {
    let constant = ANFAtomic::Lambda { param: var("z"), body: Box::new(ANFValue::Atomic(lit(1))), span: SPAN };
    let anfs = vec![declare("f", ANFValue::Atomic(constant)), ANFStatement::Value(appl(name("f"), name("missing")))];
    assert_eq!(error_message(&anfs), "variable `missing` not found in the current scope");
}

#[test]
fn constructor_collects_its_items() {
    let c = ANFAtomic::Constructor {
        tag: "Pair".to_string(),
        items: vec![ANFValue::Atomic(lit(1)), ANFValue::Atomic(lit(-2))],
        span: SPAN,
    };
    let anfs = vec![ANFStatement::Value(ANFValue::Atomic(c))];
    match result(interpret(&anfs, FUEL)) {
        Ok(Some(v)) => assert_eq!(v.to_text(), "Pair 1 -2"),
        _ => panic!("expected a value"),
    }
}

#[test]
fn more_fuel_gives_the_same_result() {
    let anfs = vec![
        declare("x", appl(name("subtractInt32"), lit(5))),
        ANFStatement::Value(appl(name("x"), lit(8))),
    ];
    let small = result(interpret(&anfs, 100)).ok().flatten().map(|v| v.to_text());
    let large = result(interpret(&anfs, 100000)).ok().flatten().map(|v| v.to_text());
    assert_eq!(small, Some("-3".to_string()));
    assert_eq!(small, large);
}

#[test]
fn to_string_then_concat() {
    let anfs = vec![
        declare("s", appl(name("toString"), lit(12))),
        declare("c", appl(name("concatString"), name("s"))),
        ANFStatement::Value(appl(name("c"), name("s"))),
    ];
    match result(interpret(&anfs, FUEL)) {
        Ok(Some(Value::String(s))) => assert_eq!(s, "1212"),
        _ => panic!("expected a string"),
    }
}

#[test]
fn read_line_then_print_is_an_action() {
    let anfs = vec![
        declare("p", appl(name("printLine"), name("greeting"))),
        declare("greeting", ANFValue::Atomic(ANFAtomic::Literal { literal: Literal::Int32(0), span: SPAN })),
    ];
    assert_eq!(error_message(&anfs), "variable `greeting` not found in the current scope");
    let anfs = vec![
        declare("t", appl(name("then"), name("readLine"))),
        ANFStatement::Value(appl(name("t"), name("readLine"))),
    ];
    match result(interpret(&anfs, FUEL)) {
        Ok(Some(v)) => assert_eq!(v.to_text(), "[IO]"),
        _ => panic!("expected an action"),
    }
}
