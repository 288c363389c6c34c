use yew_css::parser::attribute::{Attribute, CaseSensitivity};
use yew_css::parser::pseudo_class::PseudoClass;
use yew_css::parser::pseudo_element::PseudoElement;
use yew_css::parser::selector::{
    parse_selector, pseudo_elements_and_pseudo_classes, switch_pair, Combinator, Selector,
};

#[test]
fn both_pseudo() {
    let i = "::after:active";
    let (parsed_classes, parsed_element) = pseudo_elements_and_pseudo_classes(i).unwrap().1;
    assert_eq!(parsed_classes, Some(vec![PseudoClass::Active]));
    assert_eq!(parsed_element, Some(PseudoElement::After));
}

#[test]
fn both_pseudo2() {
    let i = ":active::after";
    let (parsed_classes, parsed_element) = pseudo_elements_and_pseudo_classes(i).unwrap().1;
    assert_eq!(parsed_classes, Some(vec![PseudoClass::Active]));
    assert_eq!(parsed_element, Some(PseudoElement::After));
}

#[test]
fn class_parse() {
    let i = ".class";
    let parsed = parse_selector(i).expect("should parse").1;
    let expected = Selector::Class {
        name: "class".to_string(),
        combinator: Box::new(None),
        pseudo_classes: None,
        attribute: None,
    };
    assert_eq!(parsed, expected)
}

#[test]
fn element_parse() {
    let i = "div";
    let parsed = parse_selector(i).expect("should parse").1;
    let expected = Selector::Element {
        name: "div".to_string(),
        combinator: Box::new(None),
        pseudo_classes: None,
        pseudo_element: None,
        attribute: None,
    };
    assert_eq!(parsed, expected)
}

#[test]
fn id_parse() {
    let i = "#unique";
    let parsed = parse_selector(i).expect("should parse").1;
    let expected = Selector::Id {
        name: "unique".to_string(),
        combinator: Box::new(None),
        pseudo_classes: None,
        attribute: None,
    };
    assert_eq!(parsed, expected)
}

#[test]
fn full_class() {
    let i = ".class:active[attr] > div";
    let parsed = parse_selector(i).expect("should parse").1;
    let expected = Selector::Class {
        name: "class".to_string(),
        combinator: Box::new(Some((
            Combinator::Child,
            Selector::Element {
                name: "div".to_string(),
                combinator: Box::new(None),
                pseudo_classes: None,
                pseudo_element: None,
                attribute: None,
            },
        ))),
        pseudo_classes: Some(vec![PseudoClass::Active]),
        attribute: Some(Attribute {
            name: "attr".to_string(),
            target: None,
            case_sensitivity: CaseSensitivity::Default,
        }),
    };
    assert_eq!(parsed, expected)
}

#[test]
fn order_doesnt_matter_for_pseudo_classes() {
    let i = "div:active::after";
    let parsed1 = parse_selector(i).expect("should parse").1;

    let i = "div::after:active";
    let (_rest, parsed2) = parse_selector(i).expect("should parse");
    assert_eq!(parsed1, parsed2)
}

#[test]
fn order_doesnt_matter_for_pseudo_classes_with_spaces() {
    let i = "div :active ::after";
    let parsed1 = parse_selector(i).expect("should parse").1;

    let i = "div::after:active";
    let (_rest, parsed2) = parse_selector(i).expect("should parse");
    assert_eq!(parsed1, parsed2)
}

#[test]
fn element_rejects_invalid_element_name_open_brace() {
    let i = "{";
    parse_selector(i).expect_err("should not parse");
}

#[test]
fn switch_pair_swaps() {
    assert_eq!(switch_pair((1, "a")), ("a", 1));
}

#[test]
fn universal_parse() {
    let parsed = parse_selector("*").expect("should parse").1;
    assert_eq!(parsed, Selector::Universal);
}

#[test]
fn descendant_combinator_parse() {
    let parsed = parse_selector("div span").expect("should parse").1;
    let expected = Selector::Element {
        name: "div".to_string(),
        combinator: Box::new(Some((
            Combinator::Descendent,
            Selector::Element {
                name: "span".to_string(),
                combinator: Box::new(None),
                pseudo_classes: None,
                pseudo_element: None,
                attribute: None,
            },
        ))),
        pseudo_classes: None,
        pseudo_element: None,
        attribute: None,
    };
    assert_eq!(parsed, expected);
}

#[test]
fn not_takes_a_nested_selector() {
    let parsed = parse_selector("div:not(.hidden)").expect("should parse").1;
    let expected = Selector::Element {
        name: "div".to_string(),
        combinator: Box::new(None),
        pseudo_classes: Some(vec![PseudoClass::Not(Selector::Class {
            name: "hidden".to_string(),
            combinator: Box::new(None),
            pseudo_classes: None,
            attribute: None,
        })]),
        pseudo_element: None,
        attribute: None,
    };
    assert_eq!(parsed, expected);
}

#[test]
fn keywords_match_case_insensitively() {
    let parsed1 = parse_selector("div:ACTIVE").expect("should parse").1;
    let parsed2 = parse_selector("div:active").expect("should parse").1;
    assert_eq!(parsed1, parsed2);
}

#[test]
fn parse_failure_keeps_the_input() {
    let err = parse_selector("{").unwrap_err();
    assert_eq!(err.remaining, "{".to_string());
}

#[test]
fn empty_selector_rejected() {
    parse_selector("").expect_err("empty input holds no selector");
}

#[test]
fn adjacent_combinator_parse() {
    let parsed = parse_selector("div + span").expect("should parse").1;
    match parsed {
        Selector::Element { combinator, .. } => match *combinator {
            Some((c, _)) => assert_eq!(c, Combinator::Adjacent),
            None => panic!("combinator expected"),
        },
        _ => panic!("element expected"),
    }
}

#[test]
fn general_sibling_combinator_parse() {
    let parsed = parse_selector("div ~ span").expect("should parse").1;
    match parsed {
        Selector::Element { combinator, .. } => match *combinator {
            Some((c, _)) => assert_eq!(c, Combinator::GeneralSibling),
            None => panic!("combinator expected"),
        },
        _ => panic!("element expected"),
    }
}
