use yew_css::parser::pseudo_class::{
    parse_pseudo_classes, parse_pseudo_classes_impl, PseudoClass,
};
use yew_css::parser::pseudo_element::{parse_pseudo_element, PseudoElement};

#[test]
fn impl_active() {
    let i = ":active";
    let parsed = parse_pseudo_classes_impl(i).expect("Should parse").1;
    assert_eq!(parsed, vec![PseudoClass::Active])
}

#[test]
fn active() {
    let i = ":active";
    let parsed = parse_pseudo_classes(i).expect("Should parse").1;
    assert_eq!(parsed, vec![PseudoClass::Active])
}

#[test]
fn other_variant() {
    let i = ":other";
    let parsed = parse_pseudo_classes(i).expect("Should parse").1;
    assert_eq!(parsed, vec![PseudoClass::Other("other".to_string())])
}

#[test]
fn lang() {
    let i = ":lang(fr)";
    let parsed = parse_pseudo_classes(i).expect("Should parse").1;
    assert_eq!(parsed, vec![PseudoClass::Lang("fr".to_string())])
}

#[test]
fn nth_child() {
    let i = ":nth-child(some_garbage)";
    let parsed = parse_pseudo_classes(i).expect("Should parse").1;
    assert_eq!(
        parsed,
        vec![PseudoClass::NthChild("some_garbage".to_string())]
    )
}

#[test]
fn garbage_with_paren() {
    let i = ":aaaah(some_garbage) other";
    let parsed = parse_pseudo_classes(i).expect("Should parse").1;
    assert_eq!(
        parsed,
        vec![PseudoClass::Other("aaaah(some_garbage)".to_string())]
    )
}

#[test]
fn garbage_multiple() {
    let i = ":aaaah:active";
    let parsed = parse_pseudo_classes(i).expect("Should parse").1;
    assert_eq!(
        parsed,
        vec![
            PseudoClass::Other("aaaah".to_string()),
            PseudoClass::Active
        ]
    )
}

#[test]
fn parses_after() {
    let i = "::after";
    let parsed = parse_pseudo_element(i).expect("Should parse").1;
    assert_eq!(parsed, PseudoElement::After)
}

#[test]
fn unknown_pseudo_element_kept_verbatim() {
    let parsed = parse_pseudo_element("::marker").expect("Should parse").1;
    assert_eq!(parsed, PseudoElement::Other("marker".to_string()));
}

#[test]
fn pseudo_element_case_insensitive() {
    let parsed = parse_pseudo_element("::FIRST-LINE").expect("Should parse").1;
    assert_eq!(parsed, PseudoElement::FirstLine);
}

#[test]
fn nth_last_of_type_argument_kept_raw() {
    let parsed = parse_pseudo_classes(":nth-last-of-type(2n+1)").expect("Should parse").1;
    assert_eq!(parsed, vec![PseudoClass::NthLastOfType("2n+1".to_string())]);
}

#[test]
fn pseudo_classes_need_a_colon() {
    parse_pseudo_classes("active").expect_err("a bare name is no pseudo-class");
}

#[test]
fn pseudo_element_extending_a_keyword_is_other() {
    let parsed = parse_pseudo_element("::afterparty").expect("Should parse").1;
    assert_eq!(parsed, PseudoElement::Other("afterparty".to_string()));
}

#[test]
fn pseudo_element_keyword_with_suffix_is_other() {
    let parsed = parse_pseudo_element("::selection2").expect("Should parse").1;
    assert_eq!(parsed, PseudoElement::Other("selection2".to_string()));
}

#[test]
fn pseudo_class_extending_a_keyword_is_other() {
    let parsed = parse_pseudo_classes(":activex").expect("Should parse").1;
    assert_eq!(parsed, vec![PseudoClass::Other("activex".to_string())]);
}

#[test]
fn pseudo_class_keyword_with_suffix_is_other() {
    let parsed = parse_pseudo_classes(":links").expect("Should parse").1;
    assert_eq!(parsed, vec![PseudoClass::Other("links".to_string())]);
}

#[test]
fn pseudo_class_keyword_ends_at_reserved_syntax() {
    let parsed = parse_pseudo_classes(":active:hover").expect("Should parse").1;
    assert_eq!(parsed, vec![PseudoClass::Active, PseudoClass::Hover]);
}
