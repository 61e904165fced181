use graphviz_parser::ast::{DotGraph, EdgeLHS, EdgeOP, EdgeRHS, Node, Statement};
use graphviz_parser::lexer::tokenize;

#[test]
fn strict_undirected_graph_test() {
    let parsed = DotGraph::from_str("strict graph G { a -- b }").unwrap();
    match parsed {
        DotGraph::Undirected(g) => {
            assert!(g.is_strict);
            assert_eq!(g.id, String::from("G"));
            assert_eq!(g.direction, EdgeOP::Undirected);
            assert_eq!(g.statements.len(), 1);
            if let Statement::Edge(e) = &g.statements[0] {
                assert_eq!(e.op, EdgeOP::Undirected);
                if let EdgeLHS::Node(n) = &e.lhs {
                    assert_eq!(n.id, "a");
                } else {
                    unreachable!()
                }
                if let EdgeRHS::Node(n) = &*e.rhs {
                    assert_eq!(n.id, "b");
                } else {
                    unreachable!()
                }
            } else {
                unreachable!()
            }
        }
        _ => unreachable!(),
    }
}

#[test]
fn right_recursive_edge_chain_test() {
    let parsed = DotGraph::from_str("digraph D { A -> B -> C }").unwrap();
    match parsed {
        DotGraph::Directed(g) => {
            assert_eq!(g.id, String::from("D"));
            assert_eq!(g.statements.len(), 1);
            if let Statement::Edge(outer) = &g.statements[0] {
                if let EdgeRHS::Edge(inner) = &*outer.rhs {
                    // Depth two: the innermost right-hand side resolves to C.
                    if let EdgeRHS::Node(n) = &*inner.rhs {
                        assert_eq!(n.id, "C");
                    } else {
                        unreachable!()
                    }
                } else {
                    unreachable!()
                }
            } else {
                unreachable!()
            }
        }
        _ => unreachable!(),
    }
}

#[test]
fn node_two_attribute_groups_test() {
    let toks = tokenize("A [color=red][penwidth=5]");
    let node = Node::from_tokens(&toks, 0).unwrap().0;
    let attrs = node.attribute_list.unwrap();
    assert_eq!(attrs.len(), 2);
    assert_eq!(attrs[0].len(), 1);
    assert_eq!(attrs[1].len(), 1);
    assert_eq!(attrs[0][0].lhs, "color");
    assert_eq!(attrs[0][0].rhs, "red");
    assert_eq!(attrs[1][0].lhs, "penwidth");
    assert_eq!(attrs[1][0].rhs, "5");
}

#[test]
fn chain_attribute_levels_identical_test() {
    // The same bracket after a single hop and after a multi-hop chain:
    // every edge level of the chain carries the same list.
    let single = DotGraph::from_str("digraph { A -> B [color=red] }").unwrap();
    let chain = DotGraph::from_str("digraph { A -> B -> C [color=red] }").unwrap();
    let single_attrs = match single {
        DotGraph::Directed(g) => match g.statements.into_iter().next().unwrap() {
            Statement::Edge(e) => e.attr_list,
            _ => unreachable!(),
        },
        _ => unreachable!(),
    };
    match chain {
        DotGraph::Directed(g) => match g.statements.into_iter().next().unwrap() {
            Statement::Edge(outer) => {
                assert_eq!(outer.attr_list, single_attrs);
                match *outer.rhs {
                    EdgeRHS::Edge(inner) => {
                        assert_eq!(inner.attr_list, single_attrs);
                    }
                    _ => unreachable!(),
                }
            }
            _ => unreachable!(),
        },
        _ => unreachable!(),
    }
}

#[test]
fn unclosed_bracket_fails_whole_parse_test() {
    assert!(DotGraph::from_str("digraph { A [color=red }").is_err());
    assert!(DotGraph::from_str("graph { A [color=red }").is_err());
}

#[test]
fn direction_operator_mismatch_fails_test() {
    // `--` inside a digraph and `->` inside a graph both abort the parse.
    assert!(DotGraph::from_str("digraph D { A -- B }").is_err());
    assert!(DotGraph::from_str("graph G { A -> B }").is_err());
    assert!(DotGraph::from_str("digraph D { A -> B }").is_ok());
    assert!(DotGraph::from_str("graph G { A -- B }").is_ok());
}

#[test]
fn empty_graph_body_test() {
    match DotGraph::from_str("graph G {}").unwrap() {
        DotGraph::Undirected(g) => {
            assert_eq!(g.id, String::from("G"));
            assert_eq!(g.statements.len(), 0);
            assert!(!g.is_strict);
        }
        _ => unreachable!(),
    }
}

#[test]
fn comments_and_spacing_do_not_change_shape_test() {
    // Spaces, tabs, block comments and line comments in statement
    // positions leave the tree identical to the plainly spaced input.
    let plain = DotGraph::from_str("graph G { a -- b; c }").unwrap();
    let spaced = DotGraph::from_str("graph \t G  {  a /* note */ -- b ;\tc }").unwrap();
    let commented = DotGraph::from_str("graph G { a -- b; // trailing words\n c }").unwrap();
    let multiline = DotGraph::from_str("graph G {\n a -- b\n /* block\n comment */ c\n }").unwrap();
    assert_eq!(plain, spaced);
    assert_eq!(plain, commented);
    assert_eq!(plain, multiline);
}

#[test]
fn separators_are_interchangeable_test() {
    let semi = DotGraph::from_str("graph G { a; b; c; }").unwrap();
    let comma = DotGraph::from_str("graph G { a, b, c }").unwrap();
    let newline = DotGraph::from_str("graph G {\na\nb\nc\n}").unwrap();
    assert_eq!(semi, comma);
    assert_eq!(semi, newline);
}

#[test]
fn subgraph_to_subgraph_edge_stays_structural_test() {
    // An edge between two subgraphs is kept structurally; no cross
    // product is expanded.
    let parsed = DotGraph::from_str("digraph { {A B} -> {C D} }").unwrap();
    match parsed {
        DotGraph::Directed(g) => {
            assert_eq!(g.statements.len(), 1);
            if let Statement::Edge(e) = &g.statements[0] {
                assert!(matches!(e.lhs, EdgeLHS::Subgraph(_)));
                assert!(matches!(&*e.rhs, EdgeRHS::Subgraph(_)));
            } else {
                unreachable!()
            }
        }
        _ => unreachable!(),
    }
}
