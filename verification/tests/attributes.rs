use yew_css::parser::attribute::{parse_attribute, Attribute, AttributeOperator, CaseSensitivity};

#[test]
fn simple_attribute() {
    let i = "[yeet]";
    let parsed = parse_attribute(i).expect("Should parse").1;
    let expected = Attribute {
        name: "yeet".to_string(),
        target: None,
        case_sensitivity: CaseSensitivity::Default,
    };
    assert_eq!(parsed, expected)
}

#[test]
fn assign_attribute() {
    let i = "[lorem=ipsum]";
    let parsed = parse_attribute(i).expect("Should parse").1;
    let expected = Attribute {
        name: "lorem".to_string(),
        target: Some((AttributeOperator::Eq, "ipsum".to_string())),
        case_sensitivity: CaseSensitivity::Default,
    };
    assert_eq!(parsed, expected)
}

#[test]
fn pipe_eq_attribute() {
    let i = "[lorem|=ipsum]";
    let parsed = parse_attribute(i).expect("Should parse").1;
    let expected = Attribute {
        name: "lorem".to_string(),
        target: Some((AttributeOperator::PipeEq, "ipsum".to_string())),
        case_sensitivity: CaseSensitivity::Default,
    };
    assert_eq!(parsed, expected)
}

#[test]
fn eq_attribute_insensitive() {
    let i = "[lorem=ipsum i]";
    let parsed = parse_attribute(i).expect("Should parse").1;
    let expected = Attribute {
        name: "lorem".to_string(),
        target: Some((AttributeOperator::Eq, "ipsum".to_string())),
        case_sensitivity: CaseSensitivity::Insensitive,
    };
    assert_eq!(parsed, expected)
}

#[test]
fn attribute_sensitive() {
    let i = "[lorem i]";
    let parsed = parse_attribute(i).expect("Should parse").1;
    let expected = Attribute {
        name: "lorem".to_string(),
        target: None,
        case_sensitivity: CaseSensitivity::Insensitive,
    };
    assert_eq!(parsed, expected)
}

#[test]
fn pipe_eq_attribute_with_spaces() {
    let i = "[lorem |= ipsum]";
    let parsed = parse_attribute(i).expect("Should parse").1;
    let expected = Attribute {
        name: "lorem".to_string(),
        target: Some((AttributeOperator::PipeEq, "ipsum".to_string())),
        case_sensitivity: CaseSensitivity::Default,
    };
    assert_eq!(parsed, expected)
}

#[test]
fn pipe_eq_attribute_with_maximum_whitespace() {
    let i = "[ lorem |= ipsum s]";
    let parsed = parse_attribute(i).expect("Should parse").1;
    let expected = Attribute {
        name: "lorem".to_string(),
        target: Some((AttributeOperator::PipeEq, "ipsum".to_string())),
        case_sensitivity: CaseSensitivity::Sensitive,
    };
    assert_eq!(parsed, expected)
}

#[test]
fn malformed_case_flag_is_rejected() {
    parse_attribute("[lorem x]").expect_err("a flag other than i or s should not parse");
}
