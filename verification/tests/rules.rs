use yew_css::parser::declaration::parse_declarations;
use yew_css::parser::rule;
use yew_css::parser::selector::Selector;
use yew_css::parser::{parse_css_rule, parse_declaration, CssRule, Declaration};

#[test]
fn parser_parse_rule_simple() {
    let i = "body { background-color: blue; }";
    let parsed = parse_css_rule(i).expect("should_parse").1;
    let expected = CssRule {
        selector: Selector::Element {
            name: "body".to_string(),
            combinator: Box::new(None),
            pseudo_classes: None,
            pseudo_element: None,
            attribute: None,
        },
        declarations: vec![Declaration {
            property: "background-color".to_string(),
            value: "blue".to_string(),
        }],
    };
    assert_eq!(parsed, expected);
}

#[test]
fn parser_parse_rule_multi_line() {
    let i = "body { \
            background-color: blue; \
        }";
    let parsed = parse_css_rule(i).expect("should_parse").1;
    let expected = CssRule {
        selector: Selector::Element {
            name: "body".to_string(),
            combinator: Box::new(None),
            pseudo_classes: None,
            pseudo_element: None,
            attribute: None,
        },
        declarations: vec![Declaration {
            property: "background-color".to_string(),
            value: "blue".to_string(),
        }],
    };
    assert_eq!(parsed, expected);
}

#[test]
fn parser_parse_rule_multi_line_multiple_declarations() {
    let i = "body { \
            background-color: blue; \
            width: 32px;
        }";
    let parsed = parse_css_rule(i).expect("should_parse").1;
    let expected = CssRule {
        selector: Selector::Element {
            name: "body".to_string(),
            combinator: Box::new(None),
            pseudo_classes: None,
            pseudo_element: None,
            attribute: None,
        },
        declarations: vec![
            Declaration { property: "background-color".to_string(), value: "blue".to_string() },
            Declaration { property: "width".to_string(), value: "32px".to_string() },
        ],
    };
    assert_eq!(parsed, expected);
}

#[test]
fn parser_parse_rule_multi_line_multiple_declarations_missing_last_semicolon() {
    let i = "body { \
            background-color: blue; \
            width: 32px
        }";
    let (rest, parsed) = parse_css_rule(i).expect("should_parse");
    assert_eq!(rest, "");
    let expected = CssRule {
        selector: Selector::Element {
            name: "body".to_string(),
            combinator: Box::new(None),
            pseudo_classes: None,
            pseudo_element: None,
            attribute: None,
        },
        declarations: vec![
            Declaration { property: "background-color".to_string(), value: "blue".to_string() },
            Declaration { property: "width".to_string(), value: "32px".to_string() },
        ],
    };
    assert_eq!(parsed, expected);
}

#[test]
fn rule_parse_rule_simple() {
    let i = "body { background-color: blue; }";
    let parsed = rule::parse_css_rule(i).expect("should_parse").1;
    let expected = rule::CssRule {
        selector: Selector::Element {
            name: "body".to_string(),
            combinator: Box::new(None),
            pseudo_classes: None,
            pseudo_element: None,
            attribute: None,
        },
        declarations: vec![Declaration {
            property: "background-color".to_string(),
            value: "blue".to_string(),
        }],
    };
    assert_eq!(parsed, expected);
}

#[test]
fn rule_parse_rule_multi_line() {
    let i = "body { \
            background-color: blue; \
        }";
    let parsed = rule::parse_css_rule(i).expect("should_parse").1;
    let expected = rule::CssRule {
        selector: Selector::Element {
            name: "body".to_string(),
            combinator: Box::new(None),
            pseudo_classes: None,
            pseudo_element: None,
            attribute: None,
        },
        declarations: vec![Declaration {
            property: "background-color".to_string(),
            value: "blue".to_string(),
        }],
    };
    assert_eq!(parsed, expected);
}

#[test]
fn rule_parse_rule_multi_line_multiple_declarations() {
    let i = "body { \
            background-color: blue; \
            width: 32px;
        }";
    let parsed = rule::parse_css_rule(i).expect("should_parse").1;
    let expected = rule::CssRule {
        selector: Selector::Element {
            name: "body".to_string(),
            combinator: Box::new(None),
            pseudo_classes: None,
            pseudo_element: None,
            attribute: None,
        },
        declarations: vec![
            Declaration { property: "background-color".to_string(), value: "blue".to_string() },
            Declaration { property: "width".to_string(), value: "32px".to_string() },
        ],
    };
    assert_eq!(parsed, expected);
}

#[test]
fn rule_parse_rule_multi_line_multiple_declarations_missing_last_semicolon() {
    let i = "body { \
            background-color: blue; \
            width: 32px
        }";
    let (rest, parsed) = rule::parse_css_rule(i).expect("should_parse");
    assert_eq!(rest, "");
    let expected = rule::CssRule {
        selector: Selector::Element {
            name: "body".to_string(),
            combinator: Box::new(None),
            pseudo_classes: None,
            pseudo_element: None,
            attribute: None,
        },
        declarations: vec![
            Declaration { property: "background-color".to_string(), value: "blue".to_string() },
            Declaration { property: "width".to_string(), value: "32px".to_string() },
        ],
    };
    assert_eq!(parsed, expected);
}

#[test]
fn declaration_trims_whitespace() {
    let parsed = parse_declaration("  width :  32px  ").expect("should_parse").1;
    assert_eq!(
        parsed,
        Declaration { property: "width".to_string(), value: "32px".to_string() }
    );
}

#[test]
fn declarations_block_may_be_empty() {
    let parsed = parse_declarations("{ }").expect("should_parse").1;
    assert_eq!(parsed, vec![]);
}

#[test]
fn declarations_missing_semicolon_matches_terminated_form() {
    let with = parse_declarations("{ background-color: blue; width: 32px; }")
        .expect("should_parse")
        .1;
    let without = parse_declarations("{ background-color: blue; width: 32px }")
        .expect("should_parse")
        .1;
    assert_eq!(with, without);
}

#[test]
fn declaration_without_colon_is_rejected() {
    parse_declaration("no-colon-here").expect_err("a declaration needs a colon");
}

#[test]
fn declaration_value_may_hold_spaces() {
    let parsed = parse_declaration("a: b c;").expect("should_parse").1;
    assert_eq!(
        parsed,
        Declaration { property: "a".to_string(), value: "b c".to_string() }
    );
}

#[test]
fn rule_with_multi_word_values() {
    let parsed = parse_css_rule("div { border: 1px solid red; margin: 0 auto }")
        .expect("should_parse")
        .1;
    let expected = CssRule {
        selector: Selector::Element {
            name: "div".to_string(),
            combinator: Box::new(None),
            pseudo_classes: None,
            pseudo_element: None,
            attribute: None,
        },
        declarations: vec![
            Declaration { property: "border".to_string(), value: "1px solid red".to_string() },
            Declaration { property: "margin".to_string(), value: "0 auto".to_string() },
        ],
    };
    assert_eq!(parsed, expected);
}
