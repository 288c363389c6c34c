//! The pseudo-class parser: a run of `:`-prefixed names resolved
//! case-insensitively against the fixed CSS pseudo-class vocabulary, with
//! parenthesized arguments for `lang`, `not` and the `nth-*` family, and an
//! escape hatch capturing unrecognized names verbatim.

use vstd::prelude::*;

use crate::parser::selector::{parse_selector_at, sel_view, spec_parse_selector, Selector,
    SelectorView};
use crate::parser::util::{
    clip, ident_end, kw_at, match_keyword_word, scan_until, skip_ws,
    spec_take_until_encountered, take_until_encountered, take_valid_ident_string, until_end,
    ws_end,
};
use crate::parser::ParseError;

verus! {

/// A pseudo-class. Arguments of `lang` and the `nth-*` family are kept as
/// raw text; `not` owns a nested selector; an unrecognized name is kept
/// verbatim in `Other`.
#[derive(Debug, PartialEq)]
pub enum PseudoClass {
    Active,
    Checked,
    Disabled,
    Empty,
    Enabled,
    FirstChild,
    FirstOfType,
    Focus,
    Hover,
    Indeterminate,
    InRange,
    Invalid,
    Lang(String),
    LastChild,
    LastOfType,
    Left,
    Link,
    Not(Selector),
    NthChild(String),
    NthLastChild(String),
    NthLastOfType(String),
    OnlyOfType,
    OnlyChild,
    Optional,
    OutOfRange,
    ReadOnly,
    ReadWrite,
    Required,
    Right,
    Root,
    Target,
    Valid,
    Visited,
    Other(String),
}

/// Mathematical model of a [`PseudoClass`].
pub enum PseudoClassView {
    Active,
    Checked,
    Disabled,
    Empty,
    Enabled,
    FirstChild,
    FirstOfType,
    Focus,
    Hover,
    Indeterminate,
    InRange,
    Invalid,
    Lang(Seq<char>),
    LastChild,
    LastOfType,
    Left,
    Link,
    Not(Box<SelectorView>),
    NthChild(Seq<char>),
    NthLastChild(Seq<char>),
    NthLastOfType(Seq<char>),
    OnlyOfType,
    OnlyChild,
    Optional,
    OutOfRange,
    ReadOnly,
    ReadWrite,
    Required,
    Right,
    Root,
    Target,
    Valid,
    Visited,
    Other(Seq<char>),
}

/// The model of one pseudo-class value.
pub open spec fn pc_view(pc: PseudoClass) -> PseudoClassView
    decreases pc,
{
    match pc {
        PseudoClass::Active => PseudoClassView::Active,
        PseudoClass::Checked => PseudoClassView::Checked,
        PseudoClass::Disabled => PseudoClassView::Disabled,
        PseudoClass::Empty => PseudoClassView::Empty,
        PseudoClass::Enabled => PseudoClassView::Enabled,
        PseudoClass::FirstChild => PseudoClassView::FirstChild,
        PseudoClass::FirstOfType => PseudoClassView::FirstOfType,
        PseudoClass::Focus => PseudoClassView::Focus,
        PseudoClass::Hover => PseudoClassView::Hover,
        PseudoClass::Indeterminate => PseudoClassView::Indeterminate,
        PseudoClass::InRange => PseudoClassView::InRange,
        PseudoClass::Invalid => PseudoClassView::Invalid,
        PseudoClass::Lang(a) => PseudoClassView::Lang(a@),
        PseudoClass::LastChild => PseudoClassView::LastChild,
        PseudoClass::LastOfType => PseudoClassView::LastOfType,
        PseudoClass::Left => PseudoClassView::Left,
        PseudoClass::Link => PseudoClassView::Link,
        PseudoClass::Not(sel) => PseudoClassView::Not(Box::new(sel_view(sel))),
        PseudoClass::NthChild(a) => PseudoClassView::NthChild(a@),
        PseudoClass::NthLastChild(a) => PseudoClassView::NthLastChild(a@),
        PseudoClass::NthLastOfType(a) => PseudoClassView::NthLastOfType(a@),
        PseudoClass::OnlyOfType => PseudoClassView::OnlyOfType,
        PseudoClass::OnlyChild => PseudoClassView::OnlyChild,
        PseudoClass::Optional => PseudoClassView::Optional,
        PseudoClass::OutOfRange => PseudoClassView::OutOfRange,
        PseudoClass::ReadOnly => PseudoClassView::ReadOnly,
        PseudoClass::ReadWrite => PseudoClassView::ReadWrite,
        PseudoClass::Required => PseudoClassView::Required,
        PseudoClass::Right => PseudoClassView::Right,
        PseudoClass::Root => PseudoClassView::Root,
        PseudoClass::Target => PseudoClassView::Target,
        PseudoClass::Valid => PseudoClassView::Valid,
        PseudoClass::Visited => PseudoClassView::Visited,
        PseudoClass::Other(a) => PseudoClassView::Other(a@),
    }
}

impl View for PseudoClass {
    type V = PseudoClassView;

    open spec fn view(&self) -> PseudoClassView {
        pc_view(*self)
    }
}

/// The models of the pseudo-classes a vector holds, from index `i` on.
pub open spec fn pcs_view(v: Vec<PseudoClass>, i: int) -> Seq<PseudoClassView>
    decreases v, v@.len() - i,
{
    if i < 0 || i >= v@.len() {
        Seq::empty()
    } else {
        seq![pc_view(v@[i])] + pcs_view(v, i + 1)
    }
}

/// The models of the pseudo-classes a sequence holds, from index `i` on.
pub open spec fn pcs_seq_view(s: Seq<PseudoClass>, i: int) -> Seq<PseudoClassView>
    decreases s, s.len() - i,
{
    if i < 0 || i >= s.len() {
        Seq::empty()
    } else {
        seq![pc_view(s[i])] + pcs_seq_view(s, i + 1)
    }
}

/// The two forms agree on a vector and its view.
pub proof fn lemma_pcs_views_agree(v: Vec<PseudoClass>, i: int)
    ensures
        pcs_view(v, i) == pcs_seq_view(v@, i),
    decreases v@.len() - i,
{
    if 0 <= i < v@.len() {
        lemma_pcs_views_agree(v, i + 1);
    }
}

/// Dropping a front element shifts the start index of the model.
pub proof fn lemma_pcs_seq_view_shift(x: PseudoClass, s: Seq<PseudoClass>, i: int)
    requires
        0 <= i <= s.len(),
    ensures
        pcs_seq_view(seq![x] + s, i + 1) == pcs_seq_view(s, i),
    decreases s.len() - i,
{
    if i < s.len() {
        lemma_pcs_seq_view_shift(x, s, i + 1);
        assert((seq![x] + s)[i + 1] == s[i]);
    } else {
        assert(pcs_seq_view(seq![x] + s, i + 1) =~= Seq::empty());
    }
}

/// The model of a sequence with a front element prepended.
pub proof fn lemma_pcs_seq_view_cons(x: PseudoClass, s: Seq<PseudoClass>)
    ensures
        pcs_seq_view(seq![x] + s, 0) == seq![pc_view(x)] + pcs_seq_view(s, 0),
{
    assert((seq![x] + s)[0] == x);
    lemma_pcs_seq_view_shift(x, s, 0);
}

/// Result of the `lang` alternative at `pos`: the keyword, then a
/// parenthesized identifier.
pub open spec fn spec_pc_lang(s: Seq<char>, pos: int) -> Option<(int, PseudoClassView)> {
    if kw_at(s, pos, "lang"@) {
        let p = pos + "lang"@.len();
        if p < s.len() && s[p] == '(' {
            let e = ident_end(s, p + 1);
            if e < s.len() && s[e] == ')' {
                Some((e + 1, PseudoClassView::Lang(s.subrange(p + 1, e))))
            } else {
                None
            }
        } else {
            None
        }
    } else {
        None
    }
}

/// Result of a keyword-with-parenthesized-raw-argument alternative at
/// `pos`: the keyword, then everything up to the closing parenthesis.
pub open spec fn spec_pc_paren(s: Seq<char>, pos: int, kw: Seq<char>) -> Option<(int, Seq<char>)> {
    if kw_at(s, pos, kw) {
        let p = pos + kw.len();
        if p < s.len() && s[p] == '(' {
            let e = until_end(s, p + 1, seq![')']);
            if e < s.len() {
                Some((e + 1, s.subrange(p + 1, e)))
            } else {
                None
            }
        } else {
            None
        }
    } else {
        None
    }
}

/// Result of the `not` alternative at `pos`: the keyword, then a
/// parenthesized nested selector.
pub open spec fn spec_pc_not(s: Seq<char>, pos: int) -> Option<(int, PseudoClassView)>
    decreases s.len() - pos, 0int,
{
    if kw_at(s, pos, "not"@) {
        let p = pos + "not"@.len();
        if p < s.len() && s[p] == '(' {
            match spec_parse_selector(s, p + 1) {
                Some((q, sel)) => {
                    if 0 <= q < s.len() && s[q] == ')' {
                        Some((q + 1, PseudoClassView::Not(Box::new(sel))))
                    } else {
                        None
                    }
                },
                None => None,
            }
        } else {
            None
        }
    } else {
        None
    }
}

/// Result of the fallback alternative at `pos`: anything that is not
/// another pseudo-class, captured verbatim up to a space, a closing
/// parenthesis (consumed) or a colon (left in place).
pub open spec fn spec_pc_other(s: Seq<char>, pos: int) -> (int, PseudoClassView) {
    let (e, cap) = spec_take_until_encountered(s, pos, seq![' ', ')'], seq![':']);
    (e, PseudoClassView::Other(cap))
}

/// The named pseudo-class alternatives up to `link`, tried in order; each
/// keyword counts only as a whole word, so a name that merely extends one
/// falls through to the verbatim fallback.
#[verifier::opaque]
pub open spec fn spec_pc_group1a(s: Seq<char>, pos: int) -> Option<(int, PseudoClassView)> {
    if kw_at(s, pos, "active"@) {
        Some((pos + "active"@.len(), PseudoClassView::Active))
    } else if kw_at(s, pos, "checked"@) {
        Some((pos + "checked"@.len(), PseudoClassView::Checked))
    } else if kw_at(s, pos, "disabled"@) {
        Some((pos + "disabled"@.len(), PseudoClassView::Disabled))
    } else if kw_at(s, pos, "empty"@) {
        Some((pos + "empty"@.len(), PseudoClassView::Empty))
    } else if kw_at(s, pos, "enabled"@) {
        Some((pos + "enabled"@.len(), PseudoClassView::Enabled))
    } else if kw_at(s, pos, "first-child"@) {
        Some((pos + "first-child"@.len(), PseudoClassView::FirstChild))
    } else if kw_at(s, pos, "first-of-type"@) {
        Some((pos + "first-of-type"@.len(), PseudoClassView::FirstOfType))
    } else if kw_at(s, pos, "focus"@) {
        Some((pos + "focus"@.len(), PseudoClassView::Focus))
    } else if kw_at(s, pos, "hover"@) {
        Some((pos + "hover"@.len(), PseudoClassView::Hover))
    } else if kw_at(s, pos, "indeterminate"@) {
        Some((pos + "indeterminate"@.len(), PseudoClassView::Indeterminate))
    } else if kw_at(s, pos, "in-range"@) {
        Some((pos + "in-range"@.len(), PseudoClassView::InRange))
    } else if kw_at(s, pos, "invalid"@) {
        Some((pos + "invalid"@.len(), PseudoClassView::Invalid))
    } else if spec_pc_lang(s, pos) is Some {
        spec_pc_lang(s, pos)
    } else if kw_at(s, pos, "last-child"@) {
        Some((pos + "last-child"@.len(), PseudoClassView::LastChild))
    } else if kw_at(s, pos, "last-of-type"@) {
        Some((pos + "last-of-type"@.len(), PseudoClassView::LastOfType))
    } else if kw_at(s, pos, "left"@) {
        Some((pos + "left"@.len(), PseudoClassView::Left))
    } else if kw_at(s, pos, "link"@) {
        Some((pos + "link"@.len(), PseudoClassView::Link))
    } else {
        None
    }
}

/// The `nth-*` alternatives, tried in order.
pub open spec fn spec_pc_nths(s: Seq<char>, pos: int) -> Option<(int, PseudoClassView)> {
    if spec_pc_paren(s, pos, "nth-child"@) is Some {
        match spec_pc_paren(s, pos, "nth-child"@) {
            Some((p, a)) => Some((p, PseudoClassView::NthChild(a))),
            None => None,
        }
    } else if spec_pc_paren(s, pos, "nth-last-child"@) is Some {
        match spec_pc_paren(s, pos, "nth-last-child"@) {
            Some((p, a)) => Some((p, PseudoClassView::NthLastChild(a))),
            None => None,
        }
    } else if spec_pc_paren(s, pos, "nth-last-of-type"@) is Some {
        match spec_pc_paren(s, pos, "nth-last-of-type"@) {
            Some((p, a)) => Some((p, PseudoClassView::NthLastOfType(a))),
            None => None,
        }
    } else {
        None
    }
}

/// The remaining named pseudo-class alternatives, ending in the verbatim
/// fallback.
#[verifier::opaque]
pub open spec fn spec_pc_group2(s: Seq<char>, pos: int) -> Option<(int, PseudoClassView)> {
    if kw_at(s, pos, "only-child"@) {
        Some((pos + "only-child"@.len(), PseudoClassView::OnlyChild))
    } else if kw_at(s, pos, "only-of-type"@) {
        Some((pos + "only-of-type"@.len(), PseudoClassView::OnlyOfType))
    } else if kw_at(s, pos, "optional"@) {
        Some((pos + "optional"@.len(), PseudoClassView::Optional))
    } else if kw_at(s, pos, "out-of-range"@) {
        Some((pos + "out-of-range"@.len(), PseudoClassView::OutOfRange))
    } else if kw_at(s, pos, "read-only"@) {
        Some((pos + "read-only"@.len(), PseudoClassView::ReadOnly))
    } else if kw_at(s, pos, "read-write"@) {
        Some((pos + "read-write"@.len(), PseudoClassView::ReadWrite))
    } else if kw_at(s, pos, "required"@) {
        Some((pos + "required"@.len(), PseudoClassView::Required))
    } else if kw_at(s, pos, "right"@) {
        Some((pos + "right"@.len(), PseudoClassView::Right))
    } else if kw_at(s, pos, "root"@) {
        Some((pos + "root"@.len(), PseudoClassView::Root))
    } else if kw_at(s, pos, "target"@) {
        Some((pos + "target"@.len(), PseudoClassView::Target))
    } else if kw_at(s, pos, "valid"@) {
        Some((pos + "valid"@.len(), PseudoClassView::Valid))
    } else if kw_at(s, pos, "visited"@) {
        Some((pos + "visited"@.len(), PseudoClassView::Visited))
    } else if 0 <= pos < s.len() && s[pos] == ':' {
        None
    } else {
        Some(spec_pc_other(s, pos))
    }
}

/// What the parser of a single pseudo-class name returns at `pos` (the
/// leading `:` already consumed): the alternatives are tried in a fixed
/// order and the first that matches wins; a name followed by `:` falls to
/// the fallback only when no keyword matches.
pub open spec fn spec_parse_pseudo_one(s: Seq<char>, pos: int) -> Option<(int, PseudoClassView)>
    decreases s.len() - pos, 2int,
{
    match spec_pc_group1a(s, pos) {
        Some(r) => Some(r),
        None => match spec_pc_not(s, pos) {
            Some(r) => Some(r),
            None => match spec_pc_nths(s, pos) {
                Some(r) => Some(r),
                None => spec_pc_group2(s, pos),
            },
        },
    }
}

/// What the pseudo-class list parser returns at `pos`: one or more
/// `:`-prefixed pseudo-classes, stopping before the first position where no
/// further one matches.
pub open spec fn spec_parse_pseudo_list(s: Seq<char>, pos: int) -> Option<(
    int,
    Seq<PseudoClassView>,
)>
    decreases s.len() - pos, 3int,
{
    if 0 <= pos < s.len() && s[pos] == ':' {
        match spec_parse_pseudo_one(s, pos + 1) {
            Some((p2, pc)) => {
                match spec_parse_pseudo_list(s, clip(p2, pos + 1, s.len() as int)) {
                    Some((p3, rest)) => Some((p3, seq![pc] + rest)),
                    None => Some((p2, seq![pc])),
                }
            },
            None => None,
        }
    } else {
        None
    }
}

/// What the pseudo-class parser returns at `pos`: the list, with
/// surrounding whitespace skipped.
pub open spec fn spec_parse_pseudo_classes(s: Seq<char>, pos: int) -> Option<(
    int,
    Seq<PseudoClassView>,
)>
    decreases s.len() - pos, 4int,
{
    if !(0 <= pos <= s.len()) {
        None
    } else {
        let w = clip(ws_end(s, pos), pos, s.len() as int);
        match spec_parse_pseudo_list(s, w) {
            Some((p, list)) => Some((ws_end(s, p), list)),
            None => None,
        }
    }
}

fn parse_pc_lang_at(s: &str, pos: usize) -> (r: Option<(usize, PseudoClass)>)
    requires
        pos <= s@.len(),
    ensures
        r is None ==> spec_pc_lang(s@, pos as int) is None,
        r matches Some((p, pc)) ==> spec_pc_lang(s@, pos as int) == Some((p as int, pc@)) && pos
            < p <= s@.len(),
{
    let n = s.unicode_len();
    if let Some(q) = match_keyword_word(s, pos, "lang") {
        if q < n && s.get_char(q) == '(' {
            let (e, arg) = take_valid_ident_string(s, q + 1);
            if e < n && s.get_char(e) == ')' {
                return Some((e + 1, PseudoClass::Lang(arg)));
            }
        }
        None
    } else {
        None
    }
}

fn parse_pc_paren_at(s: &str, pos: usize, kw: &str) -> (r: Option<(usize, String)>)
    requires
        pos <= s@.len(),
    ensures
        r is None ==> spec_pc_paren(s@, pos as int, kw@) is None,
        r matches Some((p, a)) ==> spec_pc_paren(s@, pos as int, kw@) == Some((p as int, a@))
            && pos < p <= s@.len(),
{
    let n = s.unicode_len();
    if let Some(q) = match_keyword_word(s, pos, kw) {
        if q < n && s.get_char(q) == '(' {
            proof {
                reveal_strlit(")");
                assert(")"@ =~= seq![')']);
            }
            let e = scan_until(s, q + 1, ")");
            if e < n {
                let arg = String::from_str(s.substring_char(q + 1, e));
                return Some((e + 1, arg));
            }
        }
        None
    } else {
        None
    }
}

#[verifier::rlimit(100)]
fn parse_pc_not_at(s: &str, pos: usize) -> (r: Option<(usize, PseudoClass)>)
    requires
        pos <= s@.len(),
    ensures
        r is None ==> spec_pc_not(s@, pos as int) is None,
        r matches Some((p, pc)) ==> spec_pc_not(s@, pos as int) == Some((p as int, pc@)) && pos < p
            <= s@.len(),
    decreases s@.len() - pos, 0int,
{
    let n = s.unicode_len();
    if let Some(q) = match_keyword_word(s, pos, "not") {
        if q < n && s.get_char(q) == '(' {
            match parse_selector_at(s, q + 1) {
                Some((e, sel)) => {
                    if e < n && s.get_char(e) == ')' {
                        Some((e + 1, PseudoClass::Not(sel)))
                    } else {
                        None
                    }
                },
                None => None,
            }
        } else {
            None
        }
    } else {
        None
    }
}

/// The named pseudo-class alternatives up to `link`.
#[verifier::rlimit(100)]
fn parse_pc_group1a_at(s: &str, pos: usize) -> (r: Option<(usize, PseudoClass)>)
    requires
        pos <= s@.len(),
    ensures
        r is None ==> spec_pc_group1a(s@, pos as int) is None,
        r matches Some((p, pc)) ==> spec_pc_group1a(s@, pos as int) == Some((p as int, pc@)) && pos
            <= p <= s@.len(),
{
    reveal(spec_pc_group1a);
    if let Some(p) = match_keyword_word(s, pos, "active") {
        Some((p, PseudoClass::Active))
    } else if let Some(p) = match_keyword_word(s, pos, "checked") {
        Some((p, PseudoClass::Checked))
    } else if let Some(p) = match_keyword_word(s, pos, "disabled") {
        Some((p, PseudoClass::Disabled))
    } else if let Some(p) = match_keyword_word(s, pos, "empty") {
        Some((p, PseudoClass::Empty))
    } else if let Some(p) = match_keyword_word(s, pos, "enabled") {
        Some((p, PseudoClass::Enabled))
    } else if let Some(p) = match_keyword_word(s, pos, "first-child") {
        Some((p, PseudoClass::FirstChild))
    } else if let Some(p) = match_keyword_word(s, pos, "first-of-type") {
        Some((p, PseudoClass::FirstOfType))
    } else if let Some(p) = match_keyword_word(s, pos, "focus") {
        Some((p, PseudoClass::Focus))
    } else if let Some(p) = match_keyword_word(s, pos, "hover") {
        Some((p, PseudoClass::Hover))
    } else if let Some(p) = match_keyword_word(s, pos, "indeterminate") {
        Some((p, PseudoClass::Indeterminate))
    } else if let Some(p) = match_keyword_word(s, pos, "in-range") {
        Some((p, PseudoClass::InRange))
    } else if let Some(p) = match_keyword_word(s, pos, "invalid") {
        Some((p, PseudoClass::Invalid))
    } else if let Some((p, pc)) = parse_pc_lang_at(s, pos) {
        Some((p, pc))
    } else if let Some(p) = match_keyword_word(s, pos, "last-child") {
        Some((p, PseudoClass::LastChild))
    } else if let Some(p) = match_keyword_word(s, pos, "last-of-type") {
        Some((p, PseudoClass::LastOfType))
    } else if let Some(p) = match_keyword_word(s, pos, "left") {
        Some((p, PseudoClass::Left))
    } else if let Some(p) = match_keyword_word(s, pos, "link") {
        Some((p, PseudoClass::Link))
    } else {
        None
    }
}

/// The `nth-*` alternatives.
fn parse_pc_nths_at(s: &str, pos: usize) -> (r: Option<(usize, PseudoClass)>)
    requires
        pos <= s@.len(),
    ensures
        r is None ==> spec_pc_nths(s@, pos as int) is None,
        r matches Some((p, pc)) ==> spec_pc_nths(s@, pos as int) == Some((p as int, pc@)) && pos
            <= p <= s@.len(),
{
    if let Some((p, a)) = parse_pc_paren_at(s, pos, "nth-child") {
        Some((p, PseudoClass::NthChild(a)))
    } else if let Some((p, a)) = parse_pc_paren_at(s, pos, "nth-last-child") {
        Some((p, PseudoClass::NthLastChild(a)))
    } else if let Some((p, a)) = parse_pc_paren_at(s, pos, "nth-last-of-type") {
        Some((p, PseudoClass::NthLastOfType(a)))
    } else {
        None
    }
}

/// The remaining named pseudo-class alternatives, ending in the verbatim
/// fallback.
#[verifier::rlimit(100)]
fn parse_pc_group2_at(s: &str, pos: usize) -> (r: Option<(usize, PseudoClass)>)
    requires
        pos <= s@.len(),
    ensures
        r is None ==> spec_pc_group2(s@, pos as int) is None,
        r matches Some((p, pc)) ==> spec_pc_group2(s@, pos as int) == Some((p as int, pc@)) && pos
            <= p <= s@.len(),
{
    reveal(spec_pc_group2);
    let n = s.unicode_len();
    if let Some(p) = match_keyword_word(s, pos, "only-child") {
        Some((p, PseudoClass::OnlyChild))
    } else if let Some(p) = match_keyword_word(s, pos, "only-of-type") {
        Some((p, PseudoClass::OnlyOfType))
    } else if let Some(p) = match_keyword_word(s, pos, "optional") {
        Some((p, PseudoClass::Optional))
    } else if let Some(p) = match_keyword_word(s, pos, "out-of-range") {
        Some((p, PseudoClass::OutOfRange))
    } else if let Some(p) = match_keyword_word(s, pos, "read-only") {
        Some((p, PseudoClass::ReadOnly))
    } else if let Some(p) = match_keyword_word(s, pos, "read-write") {
        Some((p, PseudoClass::ReadWrite))
    } else if let Some(p) = match_keyword_word(s, pos, "required") {
        Some((p, PseudoClass::Required))
    } else if let Some(p) = match_keyword_word(s, pos, "right") {
        Some((p, PseudoClass::Right))
    } else if let Some(p) = match_keyword_word(s, pos, "root") {
        Some((p, PseudoClass::Root))
    } else if let Some(p) = match_keyword_word(s, pos, "target") {
        Some((p, PseudoClass::Target))
    } else if let Some(p) = match_keyword_word(s, pos, "valid") {
        Some((p, PseudoClass::Valid))
    } else if let Some(p) = match_keyword_word(s, pos, "visited") {
        Some((p, PseudoClass::Visited))
    } else if pos < n && s.get_char(pos) == ':' {
        None
    } else {
        proof {
            reveal_strlit(" )");
            reveal_strlit(":");
            assert(" )"@ =~= seq![' ', ')']);
            assert(":"@ =~= seq![':']);
        }
        let (e, cap) = take_until_encountered(s, pos, " )", ":");
        Some((e, PseudoClass::Other(cap)))
    }
}

/// Parses one pseudo-class name at `pos`, the leading `:` already consumed.
pub(crate) fn parse_pseudo_one_at(s: &str, pos: usize) -> (r: Option<(usize, PseudoClass)>)
    requires
        pos <= s@.len(),
    ensures
        r is None ==> spec_parse_pseudo_one(s@, pos as int) is None,
        r matches Some((p, pc)) ==> spec_parse_pseudo_one(s@, pos as int) == Some((p as int, pc@))
            && pos <= p <= s@.len(),
    decreases s@.len() - pos, 2int,
{
    match parse_pc_group1a_at(s, pos) {
        Some(r) => Some(r),
        None => match parse_pc_not_at(s, pos) {
            Some(r) => Some(r),
            None => match parse_pc_nths_at(s, pos) {
                Some(r) => Some(r),
                None => parse_pc_group2_at(s, pos),
            },
        },
    }
}

/// Parses a `:`-prefixed run of pseudo-classes at `pos`.
pub(crate) fn parse_pseudo_list_at(s: &str, pos: usize) -> (r: Option<(usize, Vec<PseudoClass>)>)
    requires
        pos <= s@.len(),
    ensures
        r is None ==> spec_parse_pseudo_list(s@, pos as int) is None,
        r matches Some((p, v)) ==> spec_parse_pseudo_list(s@, pos as int) == Some(
            (p as int, pcs_view(v, 0)),
        ) && pos < p <= s@.len(),
    decreases s@.len() - pos, 3int,
{
    let n = s.unicode_len();
    if pos < n && s.get_char(pos) == ':' {
        match parse_pseudo_one_at(s, pos + 1) {
            Some((p2, pc)) => {
                match parse_pseudo_list_at(s, p2) {
                    Some((p3, mut rest)) => {
                        let ghost old_rest = rest;
                        rest.insert(0, pc);
                        proof {
                            assert(rest@ =~= seq![pc] + old_rest@);
                            lemma_pcs_views_agree(rest, 0);
                            lemma_pcs_views_agree(old_rest, 0);
                            lemma_pcs_seq_view_cons(pc, old_rest@);
                        }
                        Some((p3, rest))
                    },
                    None => {
                        let mut v: Vec<PseudoClass> = Vec::new();
                        v.push(pc);
                        proof {
                            assert(v@ =~= seq![pc] + Seq::<PseudoClass>::empty());
                            lemma_pcs_views_agree(v, 0);
                            lemma_pcs_seq_view_cons(pc, Seq::empty());
                            assert(pcs_seq_view(Seq::empty(), 0) =~= Seq::<
                                PseudoClassView,
                            >::empty());
                            assert(pcs_view(v, 0) =~= seq![pc_view(pc)]);
                        }
                        Some((p2, v))
                    },
                }
            },
            None => None,
        }
    } else {
        None
    }
}

/// Parses a run of pseudo-classes at `pos`, skipping surrounding
/// whitespace.
pub(crate) fn parse_pseudo_classes_at(s: &str, pos: usize) -> (r: Option<(
    usize,
    Vec<PseudoClass>,
)>)
    requires
        pos <= s@.len(),
    ensures
        r is None ==> spec_parse_pseudo_classes(s@, pos as int) is None,
        r matches Some((p, v)) ==> spec_parse_pseudo_classes(s@, pos as int) == Some(
            (p as int, pcs_view(v, 0)),
        ) && pos < p <= s@.len(),
    decreases s@.len() - pos, 4int,
{
    let w = skip_ws(s, pos);
    match parse_pseudo_list_at(s, w) {
        Some((p, v)) => {
            let e = skip_ws(s, p);
            Some((e, v))
        },
        None => None,
    }
}

/// Parses one or more `:`-prefixed pseudo-classes from the start of `i`,
/// without skipping surrounding whitespace.
pub fn parse_pseudo_classes_impl(i: &str) -> (r: Result<(&str, Vec<PseudoClass>), ParseError>)
    ensures
        r matches Ok((rest, v)) ==> spec_parse_pseudo_list(i@, 0) matches Some(t) && t.1
            == pcs_view(v, 0) && rest@ == i@.subrange(t.0, i@.len() as int),
        r matches Err(e) ==> spec_parse_pseudo_list(i@, 0) is None && e.remaining@ == i@,
{
    let n = i.unicode_len();
    match parse_pseudo_list_at(i, 0) {
        Some((p, v)) => Ok((i.substring_char(p, n), v)),
        None => Err(ParseError { remaining: String::from_str(i) }),
    }
}

/// Parses one or more `:`-prefixed pseudo-classes from the start of `i`,
/// skipping surrounding whitespace.
pub fn parse_pseudo_classes(i: &str) -> (r: Result<(&str, Vec<PseudoClass>), ParseError>)
    ensures
        r matches Ok((rest, v)) ==> spec_parse_pseudo_classes(i@, 0) matches Some(t) && t.1
            == pcs_view(v, 0) && rest@ == i@.subrange(t.0, i@.len() as int),
        r matches Err(e) ==> spec_parse_pseudo_classes(i@, 0) is None && e.remaining@ == i@,
{
    let n = i.unicode_len();
    match parse_pseudo_classes_at(i, 0) {
        Some((p, v)) => Ok((i.substring_char(p, n), v)),
        None => Err(ParseError { remaining: String::from_str(i) }),
    }
}

} // verus!
