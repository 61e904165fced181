use graphviz_parser::ast::{EdgeOP, Statement};
use graphviz_parser::lexer::tokenize;

#[test]
fn statement_enum_node_test() {
    let test_str = "A [color = blue, color = green]";
    let toks = tokenize(test_str);
    let result = Statement::from_tokens(&toks, 0, EdgeOP::Directed).unwrap().0;

    assert!(matches!(result, Statement::Node { .. }));
}

#[test]
fn statement_enum_attributelist_test() {
    let test_str = "graph [color = blue, color = green]";
    let toks = tokenize(test_str);
    let result = Statement::from_tokens(&toks, 0, EdgeOP::Directed).unwrap().0;

    assert!(matches!(result, Statement::Attribute { .. }));
}

#[test]
fn statement_enum_assignment_test() {
    let test_str = "color = blue";
    let toks = tokenize(test_str);
    let result = Statement::from_tokens(&toks, 0, EdgeOP::Directed).unwrap().0;
    assert!(matches!(result, Statement::Assignment { .. }));
}

#[test]
fn statement_enum_edge_test() {
    let toks = tokenize("A -> B");
    let result = Statement::from_tokens(&toks, 0, EdgeOP::Directed).unwrap().0;
    assert!(matches!(result, Statement::Edge { .. }));
}

#[test]
fn statement_enum_subgraph_test() {
    let toks = tokenize("subgraph s { A }");
    let result = Statement::from_tokens(&toks, 0, EdgeOP::Directed).unwrap().0;
    assert!(matches!(result, Statement::Subgraph { .. }));
}
