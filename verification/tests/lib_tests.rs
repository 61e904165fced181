use graphviz_parser::ast::{Assignment, DotGraph, EdgeOP, Graph, Statement};
use graphviz_parser::lexer::tokenize;

#[test]
fn lib_api_sanity_test() {
    // A `->` edge inside an undirected `graph` cannot parse: the edge
    // falls back to a bare node `A`, the stray `->` then stops the
    // statement sequence before the closing brace.
    let test_str = "graph G { A -> { B, D} }";
    assert!(DotGraph::from_str(test_str).is_err());
    // The directed spelling of the same structure is fine.
    let fixed = "digraph G { A -> { B, D} }";
    match DotGraph::from_str(fixed).unwrap() {
        DotGraph::Directed(g) => {
            assert_eq!(g.id, String::from("G"));
        }
        _ => unreachable!(),
    }
}

#[test]
fn or_op_sanity_test1() {
    let test_str = "color = green";
    let toks = tokenize(test_str);
    // Ordered choice at the statement level: the assignment shape wins.
    let result = Statement::from_tokens(&toks, 0, EdgeOP::Directed).unwrap().0;
    if let Statement::Assignment(a) = result {
        assert_eq!(*a, Assignment::new("color", "green"));
    } else {
        unreachable!()
    }
}

#[test]
fn test_ast_build_sanity1() {
    let test_str = "digraph G { subgraph t1 { A [color = green] } }";
    let toks = tokenize(test_str);
    let g = Graph::from_tokens(&toks, 0, EdgeOP::Directed).unwrap().0;
    assert_eq!(g.id, String::from("G"));
    assert_eq!(g.statements.len(), 1);
}

#[test]
fn lib_graph_node_listing_test() {
    let dot_graph = DotGraph::from_str("graph G { a; b; c; }").unwrap();
    let mut node_ids = vec![];
    if let DotGraph::Undirected(graph) = dot_graph {
        for statement in graph.statements {
            if let Statement::Node(n) = statement {
                node_ids.push(n.id);
            }
        }
        assert_eq!(node_ids, vec!["a", "b", "c"]);
    } else {
        unreachable!()
    }
}

#[test]
fn lib_unparseable_inputs_test() {
    assert!(DotGraph::from_str("").is_err());
    assert!(DotGraph::from_str("graph G {").is_err());
    assert!(DotGraph::from_str("squiggle").is_err());
    assert!(DotGraph::from_str("graph G { a -- b").is_err());
}

#[test]
fn lib_trailing_text_ignored_test() {
    // Parsing stops at the graph's closing brace; tokens after it do not
    // fail the parse.
    assert!(DotGraph::from_str("graph G {} afterwards").is_ok());
}

#[test]
fn lib_anonymous_graph_test() {
    // A graph may omit its identifier; the tree then carries the empty
    // one.
    match DotGraph::from_str("digraph {}").unwrap() {
        DotGraph::Directed(g) => {
            assert_eq!(g.id, String::from(""));
            assert_eq!(g.statements.len(), 0);
        }
        _ => unreachable!(),
    }
}
