use graphviz_parser::ast::{Edge, EdgeLHS, EdgeOP, EdgeRHS};
use graphviz_parser::lexer::tokenize;

#[test]
fn edge_directed_statement_sanity_node_test() {
    let test_str = "A -> B";
    let toks = tokenize(test_str);
    let res = Edge::from_tokens(&toks, 0, EdgeOP::Directed).unwrap();
    let rhs_v = *res.0.rhs;
    let edg_lhs = res.0.lhs;
    if let EdgeRHS::Node(node) = rhs_v {
        assert_eq!("B", node.id);
    } else {
        unreachable!()
    };

    if let EdgeLHS::Node(node) = edg_lhs {
        assert_eq!("A", node.id);
    } else {
        unreachable!()
    };
}

#[test]
fn edge_directed_attribute_test() {
    let test_str = "A -> B [color=green, shape=circle]";
    let toks = tokenize(test_str);
    let res = Edge::from_tokens(&toks, 0, EdgeOP::Directed).unwrap().0;
    assert_eq!(res.attr_list[0].len(), 2);
}

#[test]
fn edge_directed_statement_multi_node_test() {
    let test_str = "A -> B -> C -> D -> E";
    let toks = tokenize(test_str);
    let res = Edge::from_tokens(&toks, 0, EdgeOP::Directed).unwrap().0;
    if let EdgeLHS::Node(node) = res.lhs {
        assert_eq!(node.id, "A");
    } else {
        unreachable!()
    }

    if let EdgeRHS::Edge(inner_edg) = *res.rhs {
        if let EdgeLHS::Node(node) = inner_edg.lhs {
            assert_eq!("B", node.id);
        } else {
            unreachable!()
        }

        if let EdgeRHS::Edge(inner_edg2) = *inner_edg.rhs {
            if let EdgeLHS::Node(node) = inner_edg2.lhs {
                assert_eq!("C", node.id);
            } else {
                unreachable!();
            }
        }
    }
}

#[test]
fn edge_statement_subgraph1_test() {
    let test_str = "test1 {A, B} -> {C, D}";
    let toks = tokenize(test_str);
    let edge = Edge::from_tokens(&toks, 0, EdgeOP::Directed).unwrap().0;
    if let EdgeLHS::Subgraph(subgraph) = edge.lhs {
        assert_eq!(subgraph.id, Some(String::from("test1")));
    } else {
        unreachable!()
    }
}

#[test]
fn edge_statement_compass_pt_node_test() {
    let test_str = "\"node0\":f0 -> \"node1\":f0 [
            id = 0
            ];
            ";
    let toks = tokenize(test_str);
    let edge = Edge::from_tokens(&toks, 0, EdgeOP::Directed).unwrap().0;
    if let EdgeLHS::Node(lhs) = edge.lhs {
        // Quoted identifiers carry their text with the quotes stripped.
        assert_eq!(lhs.id, String::from("node0"));
        assert!(lhs.port.is_some());
    } else {
        unreachable!()
    }

    if let EdgeRHS::Node(rhs) = *edge.rhs {
        assert_eq!(rhs.id, String::from("node1"));
        assert!(rhs.port.is_some());
    } else {
        unreachable!()
    }
}

#[test]
fn edge_undirected_operator_required_test() {
    // An undirected edge never parses with the directed operator, nor the
    // other way round.
    let toks = tokenize("A -> B");
    assert!(Edge::from_tokens(&toks, 0, EdgeOP::Undirected).is_none());
    let toks2 = tokenize("A -- B");
    assert!(Edge::from_tokens(&toks2, 0, EdgeOP::Directed).is_none());
    assert!(Edge::from_tokens(&toks2, 0, EdgeOP::Undirected).is_some());
}

#[test]
fn edge_chain_attribute_hoisting_test() {
    // The bracket after the last element of a chain applies to every edge
    // level of that chain.
    let toks = tokenize("A -> B -> C [color=red]");
    let outer = Edge::from_tokens(&toks, 0, EdgeOP::Directed).unwrap().0;
    assert_eq!(outer.attr_list.len(), 1);
    assert_eq!(outer.attr_list[0][0].lhs, "color");
    assert_eq!(outer.attr_list[0][0].rhs, "red");
    if let EdgeRHS::Edge(inner) = *outer.rhs {
        assert_eq!(inner.attr_list, outer.attr_list);
        if let EdgeRHS::Node(last) = *inner.rhs {
            // The list was moved up from the final node.
            assert_eq!(last.id, "C");
            assert!(last.attribute_list.is_none());
        } else {
            unreachable!()
        }
    } else {
        unreachable!()
    }
}

#[test]
fn edge_single_hop_attribute_test() {
    let toks = tokenize("A -> B [color=red]");
    let edge = Edge::from_tokens(&toks, 0, EdgeOP::Directed).unwrap().0;
    assert_eq!(edge.attr_list.len(), 1);
    assert_eq!(edge.attr_list[0].len(), 1);
    assert_eq!(edge.attr_list[0][0].lhs, "color");
    assert_eq!(edge.attr_list[0][0].rhs, "red");
}
