use std::collections::HashMap;
use lib::anf::anf_parser::decl_pattern_to_anf;
use lib::anf::anf_parser::Scope;
use lib::parser::core_expr::CoreDeclPattern;
use lib::parser::core_expr::CoreTupleDeclPattern;
use lib::parser::core_expr::CoreMatchArmPattern;
use lib::anf::anf::ANFAtomic;
use lib::anf::anf::ANFStatement;
use lib::error::Pos;
use lib::error::Span;
use lib::parser::Literal;
use lib::anf::anf_parser::parse_anf;
use lib::anf::scc::tarjan_scc;
use lib::lexer::tokenize;
use lib::parser::parse_program;

fn anf_texts(src: &str) -> Vec<String> {
    let (tokens, lexer_errors) = tokenize(src);
    assert!(lexer_errors.is_empty());
    let (stmts, parser_errors) = parse_program(&tokens);
    assert!(parser_errors.is_empty());
    let (anfs, _) = parse_anf(&stmts);
    anfs.iter().map(ANFStatement::to_text).collect()
}

#[test]
fn applications_get_temporaries() {
    assert_eq!(
        anf_texts("x = toString (addInt32 1 2)\n"),
        vec![
            "t1 = addInt32 1".to_string(),
            "t2 = t1 2".to_string(),
            "t0 = toString t2".to_string(),
        ]
    );
}

#[test]
fn declarations_follow_their_dependencies() {
    assert_eq!(
        anf_texts("a = b\nb = 1\n"),
        vec!["t1 = 1".to_string(), "t0 = t1".to_string()]
    );
}

#[test]
fn main_runs_last() {
    assert_eq!(
        anf_texts("main = return 1\n"),
        vec!["t0 = return 1".to_string(), "t0".to_string()]
    );
}

#[test]
fn lambda_parameter_gets_a_number() {
    assert_eq!(anf_texts("f = x: Int32 => x\n"), vec!["t0 = t1 => t1".to_string()]);
}

#[test]
fn data_constructors_become_functions() {
    assert_eq!(
        anf_texts("Choice = Yes Int32 + No\n"),
        vec!["t0 = t1 => Yes t1".to_string(), "t2 = No".to_string()]
    );
}

#[test]
fn metadata_names_the_numbers() {
    let (tokens, _) = tokenize("a = b\nb = 1\n");
    let (stmts, _) = parse_program(&tokens);
    let (_, metadata) = parse_anf(&stmts);
    assert_eq!(metadata.name_by_id.len(), 2);
    assert_eq!(metadata.name_by_id[&0], "a");
    assert_eq!(metadata.name_by_id[&1], "b");
}

#[test]
fn ids_of_statements() {
    let (tokens, _) = tokenize("a = b\nb = 1\n");
    let (stmts, _) = parse_program(&tokens);
    let (anfs, _) = parse_anf(&stmts);
    assert_eq!(anfs[1].all_ids(), vec![1]);
    assert!(anfs[0].all_ids().is_empty());
}

fn sorted_components(mut sccs: Vec<Vec<usize>>) -> Vec<Vec<usize>> {
    for c in sccs.iter_mut() {
        c.sort();
    }
    sccs.sort();
    sccs
}

#[test]
fn cycle_is_one_component() {
    let sccs = tarjan_scc(HashMap::from([(1, vec![2]), (2, vec![1]), (3, vec![])]));
    assert_eq!(sorted_components(sccs), vec![vec![1, 2], vec![3]]);
}

#[test]
fn components_come_after_what_they_reach() {
    let sccs = tarjan_scc(HashMap::from([(1, vec![2]), (2, vec![3]), (3, vec![])]));
    assert_eq!(sccs, vec![vec![3], vec![2], vec![1]]);
}

#[test]
fn successors_outside_the_list_are_vertices() {
    let sccs = tarjan_scc(HashMap::from([(1, vec![7])]));
    assert_eq!(sorted_components(sccs), vec![vec![1], vec![7]]);
}

#[test]
fn empty_graph_has_no_components() {
    assert!(tarjan_scc(HashMap::new()).is_empty());
}

#[test]
fn successors_lie_in_the_same_or_an_earlier_component() {
    let adj = HashMap::from([
        (1, vec![2]),
        (2, vec![1, 3]),
        (3, vec![4]),
        (4, vec![3]),
        (5, vec![1, 4]),
    ]);
    let sccs = tarjan_scc(adj.clone());
    assert_eq!(sorted_components(sccs.clone()), vec![vec![1, 2], vec![3, 4], vec![5]]);
    let position = |x: usize| sccs.iter().position(|c| c.contains(&x)).unwrap();
    for (u, succ) in &adj {
        for w in succ {
            assert!(position(*w) <= position(*u));
        }
    }
    assert_eq!(position(3), 0);
    assert_eq!(position(5), 2);
}

#[test]
fn chain_of_declarations_is_ordered_from_the_end() {
    assert_eq!(
        anf_texts("a = b\nb = c\nc = 2\n"),
        vec!["t2 = 2".to_string(), "t1 = t2".to_string(), "t0 = t1".to_string()]
    );
}

#[test]
fn atoms_know_their_span() {
    let span = Span { start: Pos { line: 2, column: 4 }, end: Pos { line: 2, column: 6 } };
    let atom = ANFAtomic::Literal { literal: Literal::Int32(12), span };
    let got = atom.span();
    assert_eq!((got.start.line, got.start.column, got.end.column), (2, 4, 6));
}

#[test]
fn tuple_declaration_numbers_follow_its_names() {
    let (tokens, _) = tokenize("(a, (b, c)) = (1, (2, 3))\n");
    let (stmts, errors) = parse_program(&tokens);
    assert!(errors.is_empty());
    let (anfs, metadata) = parse_anf(&stmts);
    let pattern = anfs
        .iter()
        .find_map(|s| match s {
            ANFStatement::Declaration(p @ lib::anf::anf::ANFDeclPattern::Tuple(_), _) => Some(p),
            _ => None,
        })
        .expect("a tuple declaration");
    let names: Vec<String> = pattern.all_ids().iter().map(|id| metadata.name_by_id[id].clone()).collect();
    assert_eq!(names, vec!["a".to_string(), "b".to_string(), "c".to_string()]);
}

#[test]
fn decl_pattern_numbers_are_those_the_scope_gives() {
    let span = Span { start: Pos { line: 1, column: 1 }, end: Pos { line: 1, column: 2 } };
    let mut scope = Scope::new_root();
    scope.register_name("a");
    scope.register_name("b");
    scope.new_child();
    scope.register_name("b");
    let leaf = |n: &str| CoreTupleDeclPattern::Identifier { name: n.to_string(), span };
    let pattern = CoreDeclPattern::Tuple {
        items: vec![leaf("a"), CoreTupleDeclPattern::Tuple { items: vec![leaf("b"), leaf("c")], span }],
        span,
    };
    let anf = decl_pattern_to_anf(&pattern, &scope);
    let expected: Vec<usize> = pattern.all_identifiers().iter().filter_map(|n| scope.get_id(n)).collect();
    assert_eq!(expected, vec![0, 2]);
    assert_eq!(anf.all_ids(), expected);
}

#[test]
fn match_pattern_names_left_to_right() {
    let span = Span { start: Pos { line: 1, column: 1 }, end: Pos { line: 1, column: 2 } };
    let ident = |n: &str| CoreMatchArmPattern::Identifier { name: n.to_string(), span };
    let pattern = CoreMatchArmPattern::Tuple {
        items: vec![
            ident("x"),
            CoreMatchArmPattern::Literal { literal: Literal::Int32(1), span },
            CoreMatchArmPattern::DataConstructor { name: "Some".to_string(), args: vec![ident("y"), ident("_")], span },
        ],
        span,
    };
    assert_eq!(pattern.all_identifiers(), vec!["x".to_string(), "y".to_string(), "_".to_string()]);
}
