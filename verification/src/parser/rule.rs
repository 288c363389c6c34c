//! The rule parser: a selector followed by a `{ }`-delimited declaration
//! block, with surrounding whitespace trimmed.

use vstd::prelude::*;

use crate::parser::declaration::{
    decls_view, parse_declarations_at, spec_parse_declarations, Declaration, DeclarationView,
};
use crate::parser::selector::{
    parse_selector_at, sel_view, spec_parse_selector, Selector, SelectorView,
};
use crate::parser::util::{skip_ws, ws_end};
use crate::parser::ParseError;

verus! {

/// One CSS rule: a selector and its declarations, in source order.
#[derive(Debug, PartialEq)]
pub struct CssRule {
    pub selector: Selector,
    pub declarations: Vec<Declaration>,
}

/// Mathematical model of a [`CssRule`].
pub struct CssRuleView {
    pub selector: SelectorView,
    pub declarations: Seq<DeclarationView>,
}

impl View for CssRule {
    type V = CssRuleView;

    open spec fn view(&self) -> CssRuleView {
        CssRuleView { selector: sel_view(self.selector), declarations: decls_view(self.declarations@) }
    }
}

/// What the rule parser returns at `pos`: a whitespace-trimmed selector,
/// then a whitespace-trimmed declaration block.
pub open spec fn spec_parse_css_rule(s: Seq<char>, pos: int) -> Option<(int, CssRuleView)> {
    let w1 = ws_end(s, pos);
    if 0 <= w1 <= s.len() {
        match spec_parse_selector(s, w1) {
            Some((p1, sel)) => {
                let w2 = ws_end(s, p1);
                match spec_parse_declarations(s, w2) {
                    Some((p2, ds)) => Some(
                        (ws_end(s, p2), CssRuleView { selector: sel, declarations: ds }),
                    ),
                    None => None,
                }
            },
            None => None,
        }
    } else {
        None
    }
}

/// Parses a rule at `pos`.
pub(crate) fn parse_css_rule_at(s: &str, pos: usize) -> (r: Option<(usize, CssRule)>)
    requires
        pos <= s@.len(),
    ensures
        r is None ==> spec_parse_css_rule(s@, pos as int) is None,
        r matches Some((p, rule)) ==> spec_parse_css_rule(s@, pos as int) == Some(
            (p as int, rule@),
        ) && pos <= p <= s@.len(),
{
    let w1 = skip_ws(s, pos);
    match parse_selector_at(s, w1) {
        Some((p1, sel)) => {
            let w2 = skip_ws(s, p1);
            match parse_declarations_at(s, w2) {
                Some((p2, ds)) => {
                    let e = skip_ws(s, p2);
                    Some((e, CssRule { selector: sel, declarations: ds }))
                },
                None => None,
            }
        },
        None => None,
    }
}

/// Parses a `selector { declarations }` rule from the start of `i`,
/// returning the remaining input beside it.
pub fn parse_css_rule(i: &str) -> (r: Result<(&str, CssRule), ParseError>)
    ensures
        r matches Ok((rest, rule)) ==> spec_parse_css_rule(i@, 0) matches Some(t) && t.1 == rule@
            && rest@ == i@.subrange(t.0, i@.len() as int),
        r matches Err(e) ==> spec_parse_css_rule(i@, 0) is None && e.remaining@ == i@,
{
    let n = i.unicode_len();
    match parse_css_rule_at(i, 0) {
        Some((p, rule)) => Ok((i.substring_char(p, n), rule)),
        None => Err(ParseError { remaining: String::from_str(i) }),
    }
}

} // verus!
