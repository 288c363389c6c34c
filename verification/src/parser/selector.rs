//! The selector parser: an element, class, id or universal base, optional
//! pseudo-classes and pseudo-element (in either order), an optional
//! attribute matcher, and an optional combinator chaining to another
//! selector.

use vstd::prelude::*;

use crate::parser::attribute::{parse_attribute_at, spec_parse_attribute, Attribute, AttributeView};
use crate::parser::pseudo_class::{
    parse_pseudo_classes_at, pcs_view, spec_parse_pseudo_classes, PseudoClass, PseudoClassView,
};
use crate::parser::pseudo_element::{
    parse_pseudo_element_at, spec_parse_pseudo_element, PseudoElement, PseudoElementView,
};
use crate::parser::util::{clip, ident_end, skip_ws, take_valid_ident_string, ws_end};
use crate::parser::ParseError;

verus! {

/// A selector-chaining operator.
#[derive(Debug, PartialEq, Clone, Copy)]
pub enum Combinator {
    Descendent,
    Child,
    Adjacent,
    GeneralSibling,
}

/// A compound CSS selector. The combinator, when present, owns the next
/// selector of the chain, so a selector is a finite singly linked list of
/// compound selectors.
#[derive(Debug, PartialEq)]
pub enum Selector {
    Element {
        name: String,
        combinator: Box<Option<(Combinator, Selector)>>,
        pseudo_classes: Option<Vec<PseudoClass>>,
        pseudo_element: Option<PseudoElement>,
        attribute: Option<Attribute>,
    },
    Class {
        name: String,
        combinator: Box<Option<(Combinator, Selector)>>,
        pseudo_classes: Option<Vec<PseudoClass>>,
        attribute: Option<Attribute>,
    },
    Id {
        name: String,
        combinator: Box<Option<(Combinator, Selector)>>,
        pseudo_classes: Option<Vec<PseudoClass>>,
        attribute: Option<Attribute>,
    },
    Universal,
}

/// Mathematical model of a [`Selector`].
pub enum SelectorView {
    Element {
        name: Seq<char>,
        combinator: Option<Box<(Combinator, SelectorView)>>,
        pseudo_classes: Option<Seq<PseudoClassView>>,
        pseudo_element: Option<PseudoElementView>,
        attribute: Option<AttributeView>,
    },
    Class {
        name: Seq<char>,
        combinator: Option<Box<(Combinator, SelectorView)>>,
        pseudo_classes: Option<Seq<PseudoClassView>>,
        attribute: Option<AttributeView>,
    },
    Id {
        name: Seq<char>,
        combinator: Option<Box<(Combinator, SelectorView)>>,
        pseudo_classes: Option<Seq<PseudoClassView>>,
        attribute: Option<AttributeView>,
    },
    Universal,
}

/// The model of a selector value.
pub open spec fn sel_view(sel: Selector) -> SelectorView
    decreases sel,
{
    match sel {
        Selector::Element { name, combinator, pseudo_classes, pseudo_element, attribute } => {
            SelectorView::Element {
                name: name@,
                combinator: match *combinator {
                    Some((k, inner)) => Some(Box::new((k, sel_view(inner)))),
                    None => None,
                },
                pseudo_classes: match pseudo_classes {
                    Some(v) => Some(pcs_view(v, 0)),
                    None => None,
                },
                pseudo_element: match pseudo_element {
                    Some(pe) => Some(pe@),
                    None => None,
                },
                attribute: match attribute {
                    Some(a) => Some(a@),
                    None => None,
                },
            }
        },
        Selector::Class { name, combinator, pseudo_classes, attribute } => {
            SelectorView::Class {
                name: name@,
                combinator: match *combinator {
                    Some((k, inner)) => Some(Box::new((k, sel_view(inner)))),
                    None => None,
                },
                pseudo_classes: match pseudo_classes {
                    Some(v) => Some(pcs_view(v, 0)),
                    None => None,
                },
                attribute: match attribute {
                    Some(a) => Some(a@),
                    None => None,
                },
            }
        },
        Selector::Id { name, combinator, pseudo_classes, attribute } => {
            SelectorView::Id {
                name: name@,
                combinator: match *combinator {
                    Some((k, inner)) => Some(Box::new((k, sel_view(inner)))),
                    None => None,
                },
                pseudo_classes: match pseudo_classes {
                    Some(v) => Some(pcs_view(v, 0)),
                    None => None,
                },
                attribute: match attribute {
                    Some(a) => Some(a@),
                    None => None,
                },
            }
        },
        Selector::Universal => SelectorView::Universal,
    }
}

impl View for Selector {
    type V = SelectorView;

    open spec fn view(&self) -> SelectorView {
        sel_view(*self)
    }
}

/// What the combinator parser returns at `pos`: `>`, `+` or `~` surrounded
/// by optional whitespace, or bare whitespace for a descendant, followed by
/// the next selector of the chain.
pub open spec fn spec_parse_combinator(s: Seq<char>, pos: int) -> Option<(
    int,
    (Combinator, SelectorView),
)>
    decreases s.len() - pos, 0int,
{
    let w = ws_end(s, pos);
    if 0 <= w < s.len() && s[w] == '>' {
        match spec_parse_selector(s, clip(ws_end(s, w + 1), pos + 1, s.len() as int)) {
            Some((q, sel)) => Some((q, (Combinator::Child, sel))),
            None => None,
        }
    } else if 0 <= w < s.len() && s[w] == '+' {
        match spec_parse_selector(s, clip(ws_end(s, w + 1), pos + 1, s.len() as int)) {
            Some((q, sel)) => Some((q, (Combinator::Adjacent, sel))),
            None => None,
        }
    } else if 0 <= w < s.len() && s[w] == '~' {
        match spec_parse_selector(s, clip(ws_end(s, w + 1), pos + 1, s.len() as int)) {
            Some((q, sel)) => Some((q, (Combinator::GeneralSibling, sel))),
            None => None,
        }
    } else if w > pos {
        match spec_parse_selector(s, clip(w, pos + 1, s.len() as int)) {
            Some((q, sel)) => Some((q, (Combinator::Descendent, sel))),
            None => None,
        }
    } else {
        None
    }
}

/// What the pseudo-element-and-pseudo-classes parser returns at `pos`: the
/// two may appear in either order, either may be absent, and the result is
/// the same pair whatever the source order. It always succeeds, consuming
/// nothing when neither is present.
pub open spec fn spec_peapc(s: Seq<char>, pos: int) -> (
    int,
    (Option<Seq<PseudoClassView>>, Option<PseudoElementView>),
)
    decreases s.len() - pos, 5int,
{
    match spec_parse_pseudo_element(s, pos) {
        Some((p1, pe)) => {
            if pos < p1 <= s.len() {
                match spec_parse_pseudo_classes(s, p1) {
                    Some((p2, pcs)) => (p2, (Some(pcs), Some(pe))),
                    None => (p1, (None, Some(pe))),
                }
            } else {
                (pos, (None, None))
            }
        },
        None => {
            match spec_parse_pseudo_classes(s, pos) {
                Some((p1, pcs)) => {
                    if pos < p1 <= s.len() {
                        match spec_parse_pseudo_element(s, p1) {
                            Some((p2, pe)) => (p2, (Some(pcs), Some(pe))),
                            None => (p1, (Some(pcs), None)),
                        }
                    } else {
                        (p1, (Some(pcs), None))
                    }
                },
                None => (pos, (None, None)),
            }
        },
    }
}

/// What the selector parser returns at `pos`. The alternatives are tried
/// in order: class (`.`), id (`#`), universal (`*`), then a bare element.
/// A degenerate element — empty name, no pseudo-classes, no pseudo-element
/// and no attribute — is rejected rather than matched.
pub open spec fn spec_parse_selector(s: Seq<char>, pos: int) -> Option<(int, SelectorView)>
    decreases s.len() - pos, 6int,
{
    if !(0 <= pos <= s.len()) {
        None
    } else if pos < s.len() && s[pos] == '.' {
        let ne = ident_end(s, pos + 1);
        let name = s.subrange(pos + 1, ne);
        let (p1, pcs) = match spec_parse_pseudo_classes(s, clip(ne, pos + 1, s.len() as int)) {
            Some((p, l)) => (p, Some(l)),
            None => (ne, Option::<Seq<PseudoClassView>>::None),
        };
        let (p2, attr) = match spec_parse_attribute(s, p1) {
            Some((p, a)) => (p, Some(a)),
            None => (p1, Option::<AttributeView>::None),
        };
        let (p3, comb) = match spec_parse_combinator(s, clip(p2, pos + 1, s.len() as int)) {
            Some((p, c)) => (p, Some(Box::new(c))),
            None => (p2, Option::<Box<(Combinator, SelectorView)>>::None),
        };
        Some(
            (
                p3,
                SelectorView::Class { name, combinator: comb, pseudo_classes: pcs, attribute: attr },
            ),
        )
    } else if pos < s.len() && s[pos] == '#' {
        let ne = ident_end(s, pos + 1);
        let name = s.subrange(pos + 1, ne);
        let (p1, pcs) = match spec_parse_pseudo_classes(s, clip(ne, pos + 1, s.len() as int)) {
            Some((p, l)) => (p, Some(l)),
            None => (ne, Option::<Seq<PseudoClassView>>::None),
        };
        let (p2, attr) = match spec_parse_attribute(s, p1) {
            Some((p, a)) => (p, Some(a)),
            None => (p1, Option::<AttributeView>::None),
        };
        let (p3, comb) = match spec_parse_combinator(s, clip(p2, pos + 1, s.len() as int)) {
            Some((p, c)) => (p, Some(Box::new(c))),
            None => (p2, Option::<Box<(Combinator, SelectorView)>>::None),
        };
        Some(
            (
                p3,
                SelectorView::Id { name, combinator: comb, pseudo_classes: pcs, attribute: attr },
            ),
        )
    } else if pos < s.len() && s[pos] == '*' {
        Some((pos + 1, SelectorView::Universal))
    } else {
        let ne = ident_end(s, pos);
        let name = s.subrange(pos, ne);
        let (p1, pp) = spec_peapc(s, clip(ne, pos, s.len() as int));
        let (p2, attr) = match spec_parse_attribute(s, p1) {
            Some((p, a)) => (p, Some(a)),
            None => (p1, Option::<AttributeView>::None),
        };
        if name.len() == 0 && pp.0 is None && pp.1 is None && attr is None {
            None
        } else {
            let (p3, comb) = match spec_parse_combinator(s, clip(p2, pos + 1, s.len() as int)) {
                Some((p, c)) => (p, Some(Box::new(c))),
                None => (p2, Option::<Box<(Combinator, SelectorView)>>::None),
            };
            Some(
                (
                    p3,
                    SelectorView::Element {
                        name,
                        combinator: comb,
                        pseudo_classes: pp.0,
                        pseudo_element: pp.1,
                        attribute: attr,
                    },
                ),
            )
        }
    }
}

/// Parses the combinator and next selector of a chain at `pos`.
#[verifier::rlimit(100)]
pub(crate) fn parse_combinator_at(s: &str, pos: usize) -> (r: Option<(
    usize,
    (Combinator, Selector),
)>)
    requires
        pos <= s@.len(),
    ensures
        r is None ==> spec_parse_combinator(s@, pos as int) is None,
        r matches Some((p, c)) ==> spec_parse_combinator(s@, pos as int) == Some(
            (p as int, (c.0, sel_view(c.1))),
        ) && pos < p <= s@.len(),
    decreases s@.len() - pos, 0int,
{
    let n = s.unicode_len();
    let w = skip_ws(s, pos);
    if w < n && s.get_char(w) == '>' {
        let a = skip_ws(s, w + 1);
        match parse_selector_at(s, a) {
            Some((q, sel)) => Some((q, (Combinator::Child, sel))),
            None => None,
        }
    } else if w < n && s.get_char(w) == '+' {
        let a = skip_ws(s, w + 1);
        match parse_selector_at(s, a) {
            Some((q, sel)) => Some((q, (Combinator::Adjacent, sel))),
            None => None,
        }
    } else if w < n && s.get_char(w) == '~' {
        let a = skip_ws(s, w + 1);
        match parse_selector_at(s, a) {
            Some((q, sel)) => Some((q, (Combinator::GeneralSibling, sel))),
            None => None,
        }
    } else if w > pos {
        match parse_selector_at(s, w) {
            Some((q, sel)) => Some((q, (Combinator::Descendent, sel))),
            None => None,
        }
    } else {
        None
    }
}

/// Parses the pseudo-element and pseudo-classes of a compound selector at
/// `pos`, in whichever order they appear.
pub(crate) fn peapc_at(s: &str, pos: usize) -> (r: (
    usize,
    (Option<Vec<PseudoClass>>, Option<PseudoElement>),
))
    requires
        pos <= s@.len(),
    ensures
        ({
            let (p, (pcs, pe)) = spec_peapc(s@, pos as int);
            &&& r.0 as int == p
            &&& pcs == match r.1.0 {
                Some(v) => Some(pcs_view(v, 0)),
                None => None,
            }
            &&& pe == match r.1.1 {
                Some(x) => Some(x@),
                None => None,
            }
        }),
        pos <= r.0 <= s@.len(),
        (r.1.0 is Some || r.1.1 is Some) ==> pos < r.0,
        (r.1.0 is None && r.1.1 is None) ==> r.0 == pos,
    decreases s@.len() - pos, 5int,
{
    match parse_pseudo_element_at(s, pos) {
        Some((p1, pe)) => {
            match parse_pseudo_classes_at(s, p1) {
                Some((p2, pcs)) => (p2, (Some(pcs), Some(pe))),
                None => (p1, (None, Some(pe))),
            }
        },
        None => {
            match parse_pseudo_classes_at(s, pos) {
                Some((p1, pcs)) => {
                    match parse_pseudo_element_at(s, p1) {
                        Some((p2, pe)) => (p2, (Some(pcs), Some(pe))),
                        None => (p1, (Some(pcs), None)),
                    }
                },
                None => (pos, (None, None)),
            }
        },
    }
}

/// Parses a selector at `pos`.
#[verifier::rlimit(100)]
pub(crate) fn parse_selector_at(s: &str, pos: usize) -> (r: Option<(usize, Selector)>)
    requires
        pos <= s@.len(),
    ensures
        r is None ==> spec_parse_selector(s@, pos as int) is None,
        r matches Some((p, sel)) ==> spec_parse_selector(s@, pos as int) == Some(
            (p as int, sel_view(sel)),
        ) && pos < p <= s@.len(),
    decreases s@.len() - pos, 6int,
{
    let n = s.unicode_len();
    if pos < n && s.get_char(pos) == '.' {
        let (ne, name) = take_valid_ident_string(s, pos + 1);
        let (p1, pcs) = match parse_pseudo_classes_at(s, ne) {
            Some((p, v)) => (p, Some(v)),
            None => (ne, None),
        };
        let (p2, attr) = match parse_attribute_at(s, p1) {
            Some((p, a)) => (p, Some(a)),
            None => (p1, None),
        };
        let (p3, comb) = match parse_combinator_at(s, p2) {
            Some((p, c)) => (p, Some(c)),
            None => (p2, None),
        };
        Some(
            (
                p3,
                Selector::Class {
                    name,
                    combinator: Box::new(comb),
                    pseudo_classes: pcs,
                    attribute: attr,
                },
            ),
        )
    } else if pos < n && s.get_char(pos) == '#' {
        let (ne, name) = take_valid_ident_string(s, pos + 1);
        let (p1, pcs) = match parse_pseudo_classes_at(s, ne) {
            Some((p, v)) => (p, Some(v)),
            None => (ne, None),
        };
        let (p2, attr) = match parse_attribute_at(s, p1) {
            Some((p, a)) => (p, Some(a)),
            None => (p1, None),
        };
        let (p3, comb) = match parse_combinator_at(s, p2) {
            Some((p, c)) => (p, Some(c)),
            None => (p2, None),
        };
        Some(
            (
                p3,
                Selector::Id {
                    name,
                    combinator: Box::new(comb),
                    pseudo_classes: pcs,
                    attribute: attr,
                },
            ),
        )
    } else if pos < n && s.get_char(pos) == '*' {
        Some((pos + 1, Selector::Universal))
    } else {
        let (ne, name) = take_valid_ident_string(s, pos);
        let (p1, pp) = peapc_at(s, ne);
        let (pcs, pe) = pp;
        let (p2, attr) = match parse_attribute_at(s, p1) {
            Some((p, a)) => (p, Some(a)),
            None => (p1, None),
        };
        if ne == pos && pcs.is_none() && pe.is_none() && attr.is_none() {
            None
        } else {
            let (p3, comb) = match parse_combinator_at(s, p2) {
                Some((p, c)) => (p, Some(c)),
                None => (p2, None),
            };
            Some(
                (
                    p3,
                    Selector::Element {
                        name,
                        combinator: Box::new(comb),
                        pseudo_classes: pcs,
                        pseudo_element: pe,
                        attribute: attr,
                    },
                ),
            )
        }
    }
}

/// Swaps the members of a pair.
pub fn switch_pair<T, U>(pair: (T, U)) -> (r: (U, T))
    ensures
        r.0 == pair.1,
        r.1 == pair.0,
{
    let (t, u) = pair;
    (u, t)
}

/// Parses the pseudo-element and pseudo-classes of a compound selector
/// from the start of `i`, in whichever order they appear; both are
/// optional, so this never fails.
pub fn pseudo_elements_and_pseudo_classes(i: &str) -> (r: Result<
    (&str, (Option<Vec<PseudoClass>>, Option<PseudoElement>)),
    ParseError,
>)
    ensures
        r matches Ok((rest, pp)) ==> ({
            let (p, (pcs, pe)) = spec_peapc(i@, 0);
            &&& pcs == match pp.0 {
                Some(v) => Some(pcs_view(v, 0)),
                None => None,
            }
            &&& pe == match pp.1 {
                Some(x) => Some(x@),
                None => None,
            }
            &&& rest@ == i@.subrange(p, i@.len() as int)
        }),
        r is Ok,
{
    let n = i.unicode_len();
    let (p, pp) = peapc_at(i, 0);
    Ok((i.substring_char(p, n), pp))
}

/// Parses a selector from the start of `i`, returning the remaining input
/// beside it.
pub fn parse_selector(i: &str) -> (r: Result<(&str, Selector), ParseError>)
    ensures
        r matches Ok((rest, sel)) ==> spec_parse_selector(i@, 0) matches Some(t) && t.1 == sel_view(
            sel,
        ) && rest@ == i@.subrange(t.0, i@.len() as int),
        r matches Err(e) ==> spec_parse_selector(i@, 0) is None && e.remaining@ == i@,
{
    let n = i.unicode_len();
    match parse_selector_at(i, 0) {
        Some((p, sel)) => Ok((i.substring_char(p, n), sel)),
        None => Err(ParseError { remaining: String::from_str(i) }),
    }
}

} // verus!
