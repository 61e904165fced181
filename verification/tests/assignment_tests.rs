use graphviz_parser::ast::Assignment;
use graphviz_parser::lexer::tokenize;
use graphviz_parser::parser::{assignment_group_from_tokens, attribute_list_from_tokens};

#[test]
fn assignment_sanity_test() {
    let test_str = "color = red";
    let toks = tokenize(test_str);
    let assignment = Assignment::from_tokens(&toks, 0).unwrap().0;
    assert_eq!(assignment.lhs, String::from("color"));
    assert_eq!(assignment.rhs, String::from("red"));
}

#[test]
fn assignment_correct_rejection_test() {
    let test_str = "color = {";
    let toks = tokenize(test_str);
    let assignment = Assignment::from_tokens(&toks, 0);
    assert!(assignment.is_none());
}

#[test]
fn assignment_vector_comma_sanity_test() {
    let test_str = "color = red, width = hello";
    let toks = tokenize(test_str);
    let results = assignment_group_from_tokens(&toks, 0).0;
    assert_eq!(results[0].lhs, String::from("color"));
    assert_eq!(results[0].rhs, String::from("red"));
    assert_eq!(
        results[1],
        Assignment { lhs: String::from("width"), rhs: String::from("hello") }
    );
}

#[test]
fn assignment_attribute_list_sanity_test() {
    let test_str = "[ color = red ][ color = red ]";
    let valid = vec![Assignment { lhs: String::from("color"), rhs: String::from("red") }];
    let toks = tokenize(test_str);
    let result = attribute_list_from_tokens(&toks, 0).unwrap().0;
    assert_eq!(result[0], valid);
    assert_eq!(result[1], valid);
}

#[test]
fn assignment_attribute_list_sanity2_test() {
    let test_str = "[ color = red, color = red ][ color = red ]";
    let valid = vec![Assignment { lhs: String::from("color"), rhs: String::from("red") }];
    let toks = tokenize(test_str);
    let result = attribute_list_from_tokens(&toks, 0).unwrap().0;

    assert_eq!(result[0][0], valid[0]);
    assert_eq!(result[0][1], valid[0]);
    assert_eq!(result[1], valid);
}

#[test]
fn assignment_attribute_list_failure1_test() {
    let test_str = "[ color = red, color = red ][ color = { ]";
    let toks = tokenize(test_str);
    let result = attribute_list_from_tokens(&toks, 0);
    assert!(result.is_none());
}

#[test]
fn assignment_attr_test_penwidth() {
    let test_str = "[penwidth=5,arrowhead=none]";
    let toks = tokenize(test_str);
    let result = attribute_list_from_tokens(&toks, 0).unwrap();
    assert!(result.0[0].len() == 2);
}

#[test]
fn assignment_new_test() {
    let a = Assignment::new("key", "value");
    assert_eq!(a.lhs, String::from("key"));
    assert_eq!(a.rhs, String::from("value"));
}
