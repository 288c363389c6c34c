//! The pseudo-element parser: `::` followed by one of the five named
//! pseudo-elements (matched case-insensitively) or an arbitrary identifier
//! captured verbatim.

use vstd::prelude::*;

use crate::parser::util::{
    ident_end, kw_at, match_keyword_word, skip_ws, take_valid_ident_string, ws_end,
};
use crate::parser::ParseError;

verus! {

/// A pseudo-element, such as `::after`; an unrecognized name is kept
/// verbatim in `Other`.
#[derive(Debug, PartialEq)]
pub enum PseudoElement {
    After,
    Before,
    FirstLetter,
    FirstLine,
    Selection,
    Other(String),
}

/// Mathematical model of a [`PseudoElement`].
pub enum PseudoElementView {
    After,
    Before,
    FirstLetter,
    FirstLine,
    Selection,
    Other(Seq<char>),
}

impl View for PseudoElement {
    type V = PseudoElementView;

    open spec fn view(&self) -> PseudoElementView {
        match self {
            PseudoElement::After => PseudoElementView::After,
            PseudoElement::Before => PseudoElementView::Before,
            PseudoElement::FirstLetter => PseudoElementView::FirstLetter,
            PseudoElement::FirstLine => PseudoElementView::FirstLine,
            PseudoElement::Selection => PseudoElementView::Selection,
            PseudoElement::Other(s) => PseudoElementView::Other(s@),
        }
    }
}

/// What the pseudo-element parser returns on the text at `pos`: surrounding
/// whitespace is skipped, `::` must follow, and the whole identifier run
/// after it resolves case-insensitively against the five known
/// pseudo-elements; any other run — a name extending a keyword included —
/// is captured verbatim.
pub open spec fn spec_parse_pseudo_element(s: Seq<char>, pos: int) -> Option<(
    int,
    PseudoElementView,
)> {
    let w = ws_end(s, pos);
    if w + 2 <= s.len() && s[w] == ':' && s[w + 1] == ':' {
        let p = w + 2;
        let r = if kw_at(s, p, "after"@) {
            (p + "after"@.len(), PseudoElementView::After)
        } else if kw_at(s, p, "before"@) {
            (p + "before"@.len(), PseudoElementView::Before)
        } else if kw_at(s, p, "first-letter"@) {
            (p + "first-letter"@.len(), PseudoElementView::FirstLetter)
        } else if kw_at(s, p, "first-line"@) {
            (p + "first-line"@.len(), PseudoElementView::FirstLine)
        } else if kw_at(s, p, "selection"@) {
            (p + "selection"@.len(), PseudoElementView::Selection)
        } else {
            (ident_end(s, p), PseudoElementView::Other(s.subrange(p, ident_end(s, p))))
        };
        Some((ws_end(s, r.0), r.1))
    } else {
        None
    }
}

/// Parses a pseudo-element from the text at `pos`.
pub(crate) fn parse_pseudo_element_at(s: &str, pos: usize) -> (r: Option<(usize, PseudoElement)>)
    requires
        pos <= s@.len(),
    ensures
        r is None ==> spec_parse_pseudo_element(s@, pos as int) is None,
        r matches Some((p, pe)) ==> spec_parse_pseudo_element(s@, pos as int) == Some(
            (p as int, pe@),
        ) && pos + 2 <= p <= s@.len(),
{
    let n = s.unicode_len();
    let w = skip_ws(s, pos);
    if n - w >= 2 && s.get_char(w) == ':' && s.get_char(w + 1) == ':' {
        let p = w + 2;
        if let Some(q) = match_keyword_word(s, p, "after") {
            let e = skip_ws(s, q);
            Some((e, PseudoElement::After))
        } else if let Some(q) = match_keyword_word(s, p, "before") {
            let e = skip_ws(s, q);
            Some((e, PseudoElement::Before))
        } else if let Some(q) = match_keyword_word(s, p, "first-letter") {
            let e = skip_ws(s, q);
            Some((e, PseudoElement::FirstLetter))
        } else if let Some(q) = match_keyword_word(s, p, "first-line") {
            let e = skip_ws(s, q);
            Some((e, PseudoElement::FirstLine))
        } else if let Some(q) = match_keyword_word(s, p, "selection") {
            let e = skip_ws(s, q);
            Some((e, PseudoElement::Selection))
        } else {
            let (q, name) = take_valid_ident_string(s, p);
            let e = skip_ws(s, q);
            Some((e, PseudoElement::Other(name)))
        }
    } else {
        None
    }
}

/// Parses a pseudo-element from the start of `i`, returning the remaining
/// input beside it.
pub fn parse_pseudo_element(i: &str) -> (r: Result<(&str, PseudoElement), ParseError>)
    ensures
        r matches Ok((rest, pe)) ==> spec_parse_pseudo_element(i@, 0) matches Some(t) && t.1 == pe@
            && rest@ == i@.subrange(t.0, i@.len() as int),
        r matches Err(e) ==> spec_parse_pseudo_element(i@, 0) is None && e.remaining@ == i@,
{
    let n = i.unicode_len();
    match parse_pseudo_element_at(i, 0) {
        Some((p, pe)) => Ok((i.substring_char(p, n), pe)),
        None => Err(ParseError { remaining: String::from_str(i) }),
    }
}

} // verus!
