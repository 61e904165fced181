use graphviz_parser::ast::{Assignment, Node, Port};
use graphviz_parser::lexer::tokenize;

#[test]
fn port_statement_sanity_test() {
    let test_str = ":tst:nw";
    let toks = tokenize(test_str);
    let port = Port::from_tokens(&toks, 0).unwrap().0;
    assert_eq!(port.id, String::from("tst"));
    let cmp = port.compass_point.unwrap();
    assert_eq!(cmp, String::from("nw"));
}

#[test]
fn port_statement_no_compass_test() {
    let test_str = ":tst";
    let toks = tokenize(test_str);
    let port = Port::from_tokens(&toks, 0).unwrap().0;
    assert_eq!(port.id, String::from("tst"));
    assert_eq!(port.compass_point, None);
}

#[test]
fn node_statement_sanity1_test() {
    let test_str = "A [color = blue, height = s10][length = long]";
    let toks = tokenize(test_str);
    let node = Node::from_tokens(&toks, 0).unwrap().0;
    let asgng_1 = vec![
        Assignment::new("color", "blue"),
        Assignment::new("height", "s10"),
    ];
    assert_eq!(node.attribute_list.unwrap()[0], asgng_1);
}

#[test]
fn node_statement_basic_node_test() {
    let test_str = "A";
    let toks = tokenize(test_str);
    let node = Node::from_tokens(&toks, 0).unwrap();
    assert_eq!(node.0.id, String::from("A"));
}

#[test]
fn node_statement_underscore_test() {
    let test_str = "nd_1 [label = \"Node 1\"]";
    let toks = tokenize(test_str);
    let node = Node::from_tokens(&toks, 0).unwrap();
    assert_eq!(node.0.id, String::from("nd_1"));
    assert_eq!(node.0.attribute_list.unwrap().len(), 1);
}

#[test]
fn node_statement_port_id_specifier_test() {
    let test_str = "nd_1 [label = \"Node 1\"]";
    let toks = tokenize(test_str);
    let node = Node::from_tokens(&toks, 0).unwrap();
    assert_eq!(node.0.id, String::from("nd_1"));
    assert_eq!(node.0.attribute_list.unwrap().len(), 1);
}

#[test]
fn node_statement_empty_test() {
    let test_str = r##"nd_1 [label = ""]"##;
    let toks = tokenize(test_str);
    let node = Node::from_tokens(&toks, 0).unwrap();
    assert_eq!(node.0.id, String::from("nd_1"));
    assert_eq!(node.0.attribute_list.unwrap().len(), 1);
}

#[test]
fn node_statement_quoting_test() {
    let test_str = r##"nd_1 [label = "\""]"##;
    let toks = tokenize(test_str);
    let node = Node::from_tokens(&toks, 0).unwrap();
    assert_eq!(node.0.id, String::from("nd_1"));
    assert_eq!(node.0.attribute_list.unwrap().len(), 1);
}

#[test]
fn node_with_port_and_attributes_test() {
    let toks = tokenize("A:p:ne [color=red]");
    let node = Node::from_tokens(&toks, 0).unwrap().0;
    assert_eq!(node.id, "A");
    let port = node.port.unwrap();
    assert_eq!(port.id, "p");
    assert_eq!(port.compass_point, Some(String::from("ne")));
    assert_eq!(node.attribute_list.unwrap()[0], vec![Assignment::new("color", "red")]);
}
