use graphviz_parser::ast::{EdgeOP, Statement, Subgraph};
use graphviz_parser::lexer::tokenize;

#[test]
fn test_subgraph_sanity1_test() {
    let test_str = "test1 { A, B }";
    let toks = tokenize(test_str);
    let subgraph = Subgraph::from_tokens(&toks, 0, EdgeOP::Directed).unwrap().0;

    assert!(subgraph.id == Some(String::from("test1")));
    assert_eq!(subgraph.statements.len(), 2);
}

#[test]
fn test_subgraph_sanity2_test() {
    let test_str = "{ A, B }";
    let toks = tokenize(test_str);
    let subgraph = Subgraph::from_tokens(&toks, 0, EdgeOP::Directed).unwrap().0;

    assert!(subgraph.id.is_none());
    assert_eq!(subgraph.statements.len(), 2);
}

#[test]
fn test_subgraph_sanity3_test() {
    let test_str = "subgraph g { A, B }";

    let toks = tokenize(test_str);
    let subgraph = Subgraph::from_tokens(&toks, 0, EdgeOP::Directed).unwrap().0;

    assert_eq!(subgraph.id, Some(String::from("g")));
    assert_eq!(subgraph.statements.len(), 2);
}

#[test]
fn test_subgraph_sample3_subset_test() {
    let test_str = "subgraph cluster_R {
            nd_3_l -> nd_3 -> nd_3_r [color=grey, arrowhead=none]
        }";
    let toks = tokenize(test_str);
    let subgraph = Subgraph::from_tokens(&toks, 0, EdgeOP::Directed).unwrap().0;
    assert_eq!(subgraph.id, Some(String::from("cluster_R")));
    assert_eq!(subgraph.statements.len(), 1);
}

#[test]
fn test_subgraph_sample3_commaless_test() {
    let test_str = "subgraph cluster_R {
            nd_3_l -> nd_3 -> nd_3_r [color=grey arrowhead=none]
        }";
    let toks = tokenize(test_str);
    let subgraph = Subgraph::from_tokens(&toks, 0, EdgeOP::Directed).unwrap().0;
    assert_eq!(subgraph.id, Some(String::from("cluster_R")));
    assert_eq!(subgraph.statements.len(), 1);
}

#[test]
fn test_subgraph_anonymous_undelimited_statement_test() {
    let test_str = "{rank=same nd_3_l nd_3 nd_3_r}";
    let toks = tokenize(test_str);
    let subgraph = Subgraph::from_tokens(&toks, 0, EdgeOP::Directed).unwrap().0;
    assert_eq!(subgraph.id, None);
    assert_eq!(subgraph.statements.len(), 4);
}

#[test]
fn test_subgraph_statement_sanity4_test() {
    let test_str = "subgraph cluster_c2 {
                            label = \"Child two\";
                            te;
                        }";
    let toks = tokenize(test_str);
    let subgraph = Subgraph::from_tokens(&toks, 0, EdgeOP::Directed).unwrap().0;
    assert_eq!(subgraph.id, Some(String::from("cluster_c2")));
    assert_eq!(subgraph.statements.len(), 2);
    println!("{:#?}", subgraph);
}

#[test]
fn subgraph_unclosed_fails_test() {
    let toks = tokenize("subgraph g { A, B");
    assert!(Subgraph::from_tokens(&toks, 0, EdgeOP::Directed).is_none());
}

#[test]
fn subgraph_statement_kinds_test() {
    let toks = tokenize("{ x = y; A -> B; node [shape=box] }");
    let subgraph = Subgraph::from_tokens(&toks, 0, EdgeOP::Directed).unwrap().0;
    assert_eq!(subgraph.statements.len(), 3);
    assert!(matches!(subgraph.statements[0], Statement::Assignment { .. }));
    assert!(matches!(subgraph.statements[1], Statement::Edge { .. }));
    assert!(matches!(subgraph.statements[2], Statement::Attribute { .. }));
}
