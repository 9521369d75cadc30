use lib::error::Pos;
use lib::error::Span;
use lib::parser::core_expr::CoreAtomicTypeExpr;
use lib::parser::core_expr::CoreStatement;
use lib::parser::desugar::find_fn_clause_param_types;

const SPAN: Span = Span { start: Pos { line: 1, column: 1 }, end: Pos { line: 1, column: 9 } };

fn ident(name: &str) -> CoreAtomicTypeExpr {
    CoreAtomicTypeExpr::Identifier { name: name.to_string(), span: SPAN }
}

fn applied_arrow(a: CoreAtomicTypeExpr, b: CoreAtomicTypeExpr) -> CoreAtomicTypeExpr {
    CoreAtomicTypeExpr::FunctionAppl {
        callee: Box::new(CoreAtomicTypeExpr::FunctionAppl { callee: Box::new(ident("->")), arg: Box::new(a), span: SPAN }),
        arg: Box::new(b),
        span: SPAN,
    }
}

fn annotation(expr: CoreAtomicTypeExpr) -> Vec<CoreStatement> {
    vec![CoreStatement::TypeAnnotation { name: "f".to_string(), expr, span: SPAN }]
}

#[test]
fn applied_arrow_gives_parameter_types() {
    let stmts = annotation(applied_arrow(ident("A"), ident("B")));
    let r = find_fn_clause_param_types(&stmts, "f", 1, SPAN).ok().unwrap();
    assert_eq!(r.len(), 1);
    assert!(matches!(&r[0], CoreAtomicTypeExpr::Identifier { name, .. } if name == "A"));
    let e = find_fn_clause_param_types(&stmts, "f", 2, SPAN).err().unwrap();
    assert_eq!(
        e.message,
        "function `f` is declared with 2 argument(s), but its type signature only accounts for 1"
    );
}

#[test]
fn arrow_node_gives_parameter_types() {
    let t = CoreAtomicTypeExpr::Function { param_type: Box::new(ident("A")), return_type: Box::new(ident("B")), span: SPAN };
    let r = find_fn_clause_param_types(&annotation(t), "f", 1, SPAN).ok().unwrap();
    assert!(matches!(&r[0], CoreAtomicTypeExpr::Identifier { name, .. } if name == "A"));
}

#[test]
fn missing_annotation_is_an_error() {
    let e = find_fn_clause_param_types(&vec![], "f", 1, SPAN).err().unwrap();
    assert_eq!(e.message, "function `f` needs a type annotation to use pattern-matched clauses");
}
