//! Selector grammar: a structured model of CSS selectors, with the parsers
//! that build it from text.

pub mod attribute;
pub mod declaration;
pub mod pseudo_class;
pub mod pseudo_element;
pub mod rule;
pub mod selector;
pub mod util;

use vstd::prelude::*;

pub use declaration::{parse_declaration, parse_declarations, Declaration};
pub use rule::{parse_css_rule, CssRule};

verus! {

/// A parser rejected the input; `remaining` holds the text from the point
/// where no grammar alternative matched.
#[derive(Debug, PartialEq)]
pub struct ParseError {
    pub remaining: String,
}

/// A comment's text.
pub struct Comment(pub String);

/// The universal selector, `*`.
pub struct Universal;

/// A raw declaration value.
pub struct Value(pub String);

} // verus!
