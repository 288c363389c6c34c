use yew_css::format_mangler;
use yew_css::replacer::{get_class, insert_mangles_impl, mangle_css_string, Section};

#[test]
fn mangle_css() {
    let css = ".class {lorem: ipsum}";
    let mangle_str = "mangle-";
    let (new_css, _mapping_lut) = mangle_css_string(css, mangle_str);
    let expected_css = ".mangle-class {lorem: ipsum}";

    assert_eq!(new_css, expected_css)
}

#[test]
fn mangle_css_lut() {
    let css = ".class {lorem: ipsum}";
    let mangle_str = "mangle-";
    let (_new_css, mapping_lut) = mangle_css_string(css, mangle_str);

    assert_eq!(mapping_lut.len(), 1);
    assert_eq!(mapping_lut.get("class"), Some("mangle-class".to_string()));
}

#[test]
fn can_get_class() {
    let i = ".class";
    let (_, c) = get_class(i).unwrap();
    assert_eq!(
        c,
        Section::Class { dot: ".".to_string(), name: "class".to_string() }
    )
}

#[test]
fn captures_lut() {
    let i = ".yeet {}";
    let (_, (_, lut)) = insert_mangles_impl(i, "mangle-").unwrap();

    assert_eq!(lut.len(), 1);
    assert_eq!(lut.get("yeet"), Some("mangle-yeet".to_string()));
}

#[test]
fn replaces_with_mangles() {
    let i = ".yeet {}";
    let (_, (s, _)) = insert_mangles_impl(i, "mangle-").unwrap();
    let expected = ".mangle-yeet {}";

    assert_eq!(expected, s);
}

#[test]
fn ignores_hash_inside_colon_semi_colon() {
    let i = ".yeet {\n    background-color: #FF00FF;\n}";
    let (_, (s, _)) = insert_mangles_impl(i, "mangle-").unwrap();
    let expected = ".mangle-yeet {\n    background-color: #FF00FF;\n}";
    assert_eq!(expected, s);
}

#[test]
fn ignores_hash_inside_colon_bracket() {
    let i = ".yeet {\n    background-color: #FF00FF\n}";
    let (_, (s, _)) = insert_mangles_impl(i, "mangle-").unwrap();
    let expected = ".mangle-yeet {\n    background-color: #FF00FF\n}";
    assert_eq!(expected, s);
}

#[test]
fn pseudo_classes_arent_broken() {
    let i = ".yeet:hello {}";
    let (_, (s, _)) = insert_mangles_impl(i, "mangle-").unwrap();
    let expected = ".mangle-yeet:hello {}";
    assert_eq!(expected, s);
}

#[test]
fn pseudo_classes_arent_broken_2() {
    let i = ".yeet:hello > .other {}";
    let (_, (s, _)) = insert_mangles_impl(i, "mangle-").unwrap();
    let expected = ".mangle-yeet:hello > .mangle-other {}";
    assert_eq!(expected, s);
}

#[test]
fn mangle_is_deterministic_across_runs() {
    let css = ".one:hover > #two { color: #ABCDEF; } .three {}";
    let (out1, lut1) = mangle_css_string(css, "pfx-");
    let (out2, lut2) = mangle_css_string(css, "pfx-");
    assert_eq!(out1, out2);
    assert_eq!(lut1.len(), lut2.len());
    for name in ["one", "two", "three"] {
        assert_eq!(lut1.get(name), lut2.get(name));
    }
}

#[test]
fn mangles_id_tokens() {
    let (s, lut) = mangle_css_string("#unique { width: 1px; }", "scope-");
    assert_eq!(s, "#scope-unique { width: 1px; }");
    assert_eq!(lut.get("unique"), Some("scope-unique".to_string()));
}

#[test]
fn repeated_name_recorded_once() {
    let (s, lut) = mangle_css_string(".a {} .a {}", "m-");
    assert_eq!(s, ".m-a {} .m-a {}");
    assert_eq!(lut.len(), 1);
    assert_eq!(lut.get("a"), Some("m-a".to_string()));
}

#[test]
fn empty_input_mangles_to_empty() {
    let (s, lut) = mangle_css_string("", "m-");
    assert_eq!(s, "");
    assert_eq!(lut.len(), 0);
}

#[test]
fn absent_name_lookup_is_none() {
    let (_, lut) = mangle_css_string(".present {}", "m-");
    assert_eq!(lut.get("absent"), None);
}

#[test]
fn element_names_are_not_mangled() {
    let (s, lut) = mangle_css_string("body { background-color: blue; }", "m-");
    assert_eq!(s, "body { background-color: blue; }");
    assert_eq!(lut.len(), 0);
}

#[test]
fn format_mangler_first_attachment() {
    assert_eq!(format_mangler("base", 0), "base-");
}

#[test]
fn format_mangler_later_attachment() {
    assert_eq!(format_mangler("base", 12), "base__12-");
}

#[test]
fn can_get_id() {
    let (rest, sec) = yew_css::replacer::get_id("#name rest").unwrap();
    assert_eq!(
        sec,
        Section::Id { hash: "#".to_string(), name: "name".to_string() }
    );
    assert_eq!(rest, " rest");
}

#[test]
fn can_get_element() {
    let (rest, sec) = yew_css::replacer::get_element("body {}").unwrap();
    assert_eq!(sec, Section::Element { name: "body".to_string() });
    assert_eq!(rest, " {}");
}

#[test]
fn can_get_block() {
    let (rest, sec) = yew_css::replacer::get_block("  { color: red; } tail").unwrap();
    assert_eq!(
        sec,
        Section::RulesBlock {
            leading_space: "  ".to_string(),
            open_brace: "{".to_string(),
            content: " color: red; ".to_string(),
            close_brace: "}".to_string(),
        }
    );
    assert_eq!(rest, " tail");
}

#[test]
fn can_get_other() {
    let (rest, sec) = yew_css::replacer::get_other("{} .class").unwrap();
    assert_eq!(sec, Section::Other("{} ".to_string()));
    assert_eq!(rest, ".class");
}

#[test]
fn get_class_rejects_digits_only_name() {
    yew_css::replacer::get_class(".123").expect_err("digits end an identifier run");
}
