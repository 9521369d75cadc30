use lib::interpreter::types::DataConstructor;
use lib::interpreter::types::Type;
use lib::lexer::tokenize;
use lib::parser::parser::parse;
use lib::parser::resolver::resolve;

fn resolved_texts(src: &str) -> Vec<String> {
    let (tokens, lexer_errors) = tokenize(src);
    assert!(lexer_errors.is_empty());
    let (parsed, parse_errors) = parse(&tokens);
    assert!(parse_errors.is_empty());
    let (resolved, errors) = resolve(parsed);
    assert!(errors.is_empty());
    resolved.iter().map(|s| s.to_text()).collect()
}

#[test]
fn resolved_application_is_curried() {
    assert_eq!(resolved_texts("x = f 1 2\n"), vec!["x = (f 1) 2".to_string()]);
}

#[test]
fn resolved_infix_operator_is_an_application() {
    assert_eq!(resolved_texts("x = 1 + 2\n"), vec!["x = (+ 1) 2".to_string()]);
}

#[test]
fn interpreter_types_are_written() {
    let f = Type::function(Type::Int32, Type::Product(vec![Type::Int32, Type::Float32]));
    assert_eq!(f.to_text(), "Int32 -> Int32 * Float32");
    assert_eq!(Type::Product(vec![]).to_text(), "Unit");
    let sum = Type::Sum(vec![
        DataConstructor { tag: "Yes".to_string(), types: vec![Type::Int32] },
        DataConstructor { tag: "No".to_string(), types: vec![] },
    ]);
    assert_eq!(sum.to_text(), "Yes Int32 + No");
}

#[test]
fn minus_after_an_operand_subtracts() {
    assert_eq!(resolved_texts("x = n - 1\n"), vec!["x = (- n) 1".to_string()]);
    assert_eq!(resolved_texts("x = f (n - 1) + f (n - 2)\n"), vec!["x = (+ (f ((- n) 1))) (f ((- n) 2))".to_string()]);
}

#[test]
fn leading_minus_negates() {
    assert_eq!(resolved_texts("x = -1\n"), vec!["x = - 1".to_string()]);
}
