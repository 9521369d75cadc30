use lib::error::ErrorKind;
use lib::error::FogError;
use lib::lexer::tokenize;
use lib::parser::parse_program;
use lib::static_check::static_check;

fn front_end(src: &str) -> (Vec<FogError>, Vec<FogError>, Vec<FogError>) {
    let (tokens, lexer_errors) = tokenize(src);
    let (stmts, parser_errors) = parse_program(&tokens);
    let static_errors = static_check(&stmts);
    (lexer_errors, parser_errors, static_errors)
}

fn messages(errors: &[FogError]) -> Vec<String> {
    errors.iter().map(|e| e.message.clone()).collect()
}

#[test]
fn annotated_declaration_checks() {
    let (lex, parse, check) = front_end("x : Int32\nx = 1\n");
    assert!(lex.is_empty());
    assert!(parse.is_empty(), "{:?}", messages(&parse));
    assert!(check.is_empty(), "{:?}", messages(&check));
}

#[test]
fn builtin_function_application_checks() {
    let (_, parse, check) = front_end("s : String\ns = toString 1\n");
    assert!(parse.is_empty(), "{:?}", messages(&parse));
    assert!(check.is_empty(), "{:?}", messages(&check));
}

#[test]
fn unknown_variable_is_reported() {
    let (_, parse, check) = front_end("y = undefinedVar\n");
    assert!(parse.is_empty(), "{:?}", messages(&parse));
    assert_eq!(
        messages(&check),
        vec!["variable `undefinedVar` not found in the current scope".to_string()]
    );
    assert!(matches!(check[0].kind, ErrorKind::StaticCheck));
}

#[test]
fn declared_type_must_match_annotation() {
    let (_, parse, check) = front_end("x : Int32\nx = toString 1\n");
    assert!(parse.is_empty(), "{:?}", messages(&parse));
    assert_eq!(
        messages(&check),
        vec!["type mismatch when declaring variable `x`\nexpected `Int32`, found `String`".to_string()]
    );
}

#[test]
fn second_annotation_in_a_scope_is_reported() {
    let (_, parse, check) = front_end("x : Int32\nx : Int32\n");
    assert!(parse.is_empty(), "{:?}", messages(&parse));
    assert_eq!(
        messages(&check),
        vec!["variable `x` already annotated its type in the current scope".to_string()]
    );
}

#[test]
fn applying_a_non_function_is_reported() {
    let (_, parse, check) = front_end("n = 1\nm = n 2\n");
    assert!(parse.is_empty(), "{:?}", messages(&parse));
    assert_eq!(messages(&check), vec!["Int32 is not a function type".to_string()]);
}

#[test]
fn argument_type_must_unify_with_parameter() {
    let (_, parse, check) = front_end("s = toString (toString 1)\n");
    assert!(parse.is_empty(), "{:?}", messages(&parse));
    assert_eq!(
        messages(&check),
        vec!["cannot unify type `Int32` and `String`".to_string()]
    );
}

#[test]
fn polymorphic_builtin_is_instantiated() {
    let (_, parse, check) = front_end("io : IO Int32\nio = return 1\n");
    assert!(parse.is_empty(), "{:?}", messages(&parse));
    assert!(check.is_empty(), "{:?}", messages(&check));
}

#[test]
fn tuple_pattern_of_wrong_size_is_reported() {
    let (_, parse, check) = front_end("(a, b) = (1, 2, 3)\n");
    assert!(parse.is_empty(), "{:?}", messages(&parse));
    assert_eq!(check.len(), 1, "{:?}", messages(&check));
    assert!(
        check[0]
            .message
            .ends_with("expected a tuple of 2 element(s), found `Int32 * Int32 * Int32`"),
        "{}",
        check[0].message
    );
}

#[test]
fn sum_type_constructors_are_declared() {
    let (_, parse, check) = front_end("Choice = Yes Int32 + No\nx = Yes 1\ny = No\n");
    assert!(parse.is_empty(), "{:?}", messages(&parse));
    assert!(check.is_empty(), "{:?}", messages(&check));
}

#[test]
fn error_text_names_phase_and_position() {
    let (_, _, check) = front_end("y = undefinedVar\n");
    let text = check[0].to_text();
    assert!(text.starts_with("static check error ("), "{}", text);
    assert!(text.ends_with("): variable `undefinedVar` not found in the current scope"), "{}", text);
}

#[test]
fn constructor_argument_type_is_checked() {
    let (_, parse, check) = front_end("Choice = Yes Int32 + No\nx = Yes (toString 1)\n");
    assert!(parse.is_empty(), "{:?}", messages(&parse));
    assert_eq!(
        messages(&check),
        vec!["cannot unify type `Int32` and `String`".to_string()]
    );
}

#[test]
fn match_arms_must_agree() {
    let src = "Choice = Yes Int32 + No\nc = Yes 1\nr = match c {\n    Yes n => n\n    No => toString 0\n}\n";
    let (_, parse, check) = front_end(src);
    assert!(parse.is_empty(), "{:?}", messages(&parse));
    assert_eq!(
        messages(&check),
        vec!["expected type `Int32`, found `String`".to_string()]
    );
}

#[test]
fn lambda_with_parameter_type_checks() {
    let (_, parse, check) = front_end("f = x: Int32 => toString x\ns : String\ns = f 1\n");
    assert!(parse.is_empty(), "{:?}", messages(&parse));
    assert!(check.is_empty(), "{:?}", messages(&check));
}

#[test]
fn block_without_final_expression_is_reported() {
    let (_, parse, check) = front_end("x = {\n    y = 1\n}\n");
    assert!(parse.is_empty(), "{:?}", messages(&parse));
    assert_eq!(
        messages(&check),
        vec!["final operand not found in block statement".to_string()]
    );
}
