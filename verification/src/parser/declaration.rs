//! The declaration parser: `property: value` pairs, `;`-separated inside
//! `{ }`, the final semicolon optional.

use vstd::prelude::*;

use crate::parser::util::{clip, rtrim_end, scan_rtrim, scan_until, spec_take_until_encountered,
    skip_ws, take_until_encountered, until_end, ws_end};
use crate::parser::ParseError;

verus! {

/// One `property: value` declaration, both sides trimmed.
#[derive(Debug, PartialEq)]
pub struct Declaration {
    pub property: String,
    pub value: String,
}

/// Mathematical model of a [`Declaration`].
pub struct DeclarationView {
    pub property: Seq<char>,
    pub value: Seq<char>,
}

impl View for Declaration {
    type V = DeclarationView;

    open spec fn view(&self) -> DeclarationView {
        DeclarationView { property: self.property@, value: self.value@ }
    }
}

/// The models of the declarations a sequence holds.
pub open spec fn decls_view(v: Seq<Declaration>) -> Seq<DeclarationView> {
    Seq::new(v.len(), |i: int| v[i]@)
}

/// The delimiters that end a property name.
pub open spec fn property_stops() -> Seq<char> {
    seq![' ', ':']
}

/// The delimiters that end a declaration value; a value may hold spaces.
pub open spec fn value_stops() -> Seq<char> {
    seq![';', '}', '\n', '\t']
}

/// What the declaration parser returns at `pos`: a whitespace-trimmed
/// property run (which ends at a space or the `:`), the `:`, and a value
/// run that ends only at `;`, `}`, a newline or a tab, trimmed of the
/// whitespace around it.
pub open spec fn spec_parse_declaration(s: Seq<char>, pos: int) -> Option<(int, DeclarationView)> {
    let w1 = ws_end(s, pos);
    let (p1, prop) = spec_take_until_encountered(s, w1, Seq::<char>::empty(), property_stops());
    let w2 = ws_end(s, p1);
    if 0 <= w2 < s.len() && s[w2] == ':' {
        let w3 = ws_end(s, w2 + 1);
        let e = until_end(s, w3, value_stops());
        let val = s.subrange(w3, rtrim_end(s, w3, e));
        let w4 = ws_end(s, e);
        Some((w4, DeclarationView { property: prop, value: val }))
    } else {
        None
    }
}

/// What follows the first declaration of a `;`-separated list at `pos`:
/// each further `;` is consumed only when another declaration follows it.
pub open spec fn spec_parse_decl_more(s: Seq<char>, pos: int) -> (int, Seq<DeclarationView>)
    decreases s.len() - pos,
{
    if 0 <= pos < s.len() && s[pos] == ';' {
        match spec_parse_declaration(s, pos + 1) {
            Some((p2, d)) => {
                let (p3, rest) = spec_parse_decl_more(s, clip(p2, pos + 1, s.len() as int));
                (p3, seq![d] + rest)
            },
            None => (pos, Seq::empty()),
        }
    } else {
        (pos, Seq::empty())
    }
}

/// What the declaration-block parser returns at `pos`: `{`, a possibly
/// empty `;`-separated list of declarations, an optional trailing `;`, and
/// `}`.
pub open spec fn spec_parse_declarations(s: Seq<char>, pos: int) -> Option<(
    int,
    Seq<DeclarationView>,
)> {
    if 0 <= pos < s.len() && s[pos] == '{' {
        let w = ws_end(s, pos + 1);
        let (p1, ds) = match spec_parse_declaration(s, w) {
            Some((q, d)) => {
                let (q2, rest) = spec_parse_decl_more(s, clip(q, w, s.len() as int));
                (q2, seq![d] + rest)
            },
            None => (w, Seq::<DeclarationView>::empty()),
        };
        let p2 = ws_end(s, p1);
        let p3 = if 0 <= p2 < s.len() && s[p2] == ';' {
            ws_end(s, p2 + 1)
        } else {
            p2
        };
        if 0 <= p3 < s.len() && s[p3] == '}' {
            Some((p3 + 1, ds))
        } else {
            None
        }
    } else {
        None
    }
}

/// Parses one declaration at `pos`.
pub(crate) fn parse_declaration_at(s: &str, pos: usize) -> (r: Option<(usize, Declaration)>)
    requires
        pos <= s@.len(),
    ensures
        r is None ==> spec_parse_declaration(s@, pos as int) is None,
        r matches Some((p, d)) ==> spec_parse_declaration(s@, pos as int) == Some((p as int, d@))
            && pos <= p <= s@.len(),
{
    proof {
        reveal_strlit("");
        reveal_strlit(" :");
        reveal_strlit(";}\n\t");
        assert(""@ =~= Seq::<char>::empty());
        assert(" :"@ =~= property_stops());
        assert(";}\n\t"@ =~= value_stops());
    }
    let n = s.unicode_len();
    let w1 = skip_ws(s, pos);
    let (p1, prop) = take_until_encountered(s, w1, "", " :");
    let w2 = skip_ws(s, p1);
    if w2 < n && s.get_char(w2) == ':' {
        let w3 = skip_ws(s, w2 + 1);
        let e = scan_until(s, w3, ";}\n\t");
        let t = scan_rtrim(s, w3, e);
        let val = String::from_str(s.substring_char(w3, t));
        let w4 = skip_ws(s, e);
        Some((w4, Declaration { property: prop, value: val }))
    } else {
        None
    }
}

/// Parses the rest of a `;`-separated declaration list at `pos`.
pub(crate) fn parse_decl_more_at(s: &str, pos: usize) -> (r: (usize, Vec<Declaration>))
    requires
        pos <= s@.len(),
    ensures
        ({
            let (p, ds) = spec_parse_decl_more(s@, pos as int);
            p == r.0 as int && ds == decls_view(r.1@)
        }),
        pos <= r.0 <= s@.len(),
    decreases s@.len() - pos,
{
    let n = s.unicode_len();
    if pos < n && s.get_char(pos) == ';' {
        match parse_declaration_at(s, pos + 1) {
            Some((p2, d)) => {
                let (p3, mut rest) = parse_decl_more_at(s, p2);
                let ghost old_rest = rest;
                rest.insert(0, d);
                proof {
                    assert(rest@ =~= seq![d] + old_rest@);
                    assert(decls_view(rest@) =~= seq![d@] + decls_view(old_rest@));
                }
                (p3, rest)
            },
            None => (pos, Vec::new()),
        }
    } else {
        (pos, Vec::new())
    }
}

/// Parses a `{ }`-delimited declaration block at `pos`.
pub(crate) fn parse_declarations_at(s: &str, pos: usize) -> (r: Option<(usize, Vec<Declaration>)>)
    requires
        pos <= s@.len(),
    ensures
        r is None ==> spec_parse_declarations(s@, pos as int) is None,
        r matches Some((p, ds)) ==> spec_parse_declarations(s@, pos as int) == Some(
            (p as int, decls_view(ds@)),
        ) && pos < p <= s@.len(),
{
    let n = s.unicode_len();
    if pos < n && s.get_char(pos) == '{' {
        let w = skip_ws(s, pos + 1);
        let (p1, ds) = match parse_declaration_at(s, w) {
            Some((q, d)) => {
                let (q2, mut rest) = parse_decl_more_at(s, q);
                let ghost old_rest = rest;
                rest.insert(0, d);
                proof {
                    assert(rest@ =~= seq![d] + old_rest@);
                    assert(decls_view(rest@) =~= seq![d@] + decls_view(old_rest@));
                }
                (q2, rest)
            },
            None => (w, Vec::new()),
        };
        let p2 = skip_ws(s, p1);
        let p3 = if p2 < n && s.get_char(p2) == ';' {
            skip_ws(s, p2 + 1)
        } else {
            p2
        };
        if p3 < n && s.get_char(p3) == '}' {
            proof {
                assert(decls_view(Seq::<Declaration>::empty()) =~= Seq::<
                    DeclarationView,
                >::empty());
            }
            Some((p3 + 1, ds))
        } else {
            None
        }
    } else {
        None
    }
}

/// Parses one `property: value` declaration from the start of `i`,
/// returning the remaining input beside it.
pub fn parse_declaration(i: &str) -> (r: Result<(&str, Declaration), ParseError>)
    ensures
        r matches Ok((rest, d)) ==> spec_parse_declaration(i@, 0) matches Some(t) && t.1 == d@
            && rest@ == i@.subrange(t.0, i@.len() as int),
        r matches Err(e) ==> spec_parse_declaration(i@, 0) is None && e.remaining@ == i@,
{
    let n = i.unicode_len();
    match parse_declaration_at(i, 0) {
        Some((p, d)) => Ok((i.substring_char(p, n), d)),
        None => Err(ParseError { remaining: String::from_str(i) }),
    }
}

/// Parses a `{ }`-delimited declaration block from the start of `i`,
/// returning the remaining input beside it.
pub fn parse_declarations(i: &str) -> (r: Result<(&str, Vec<Declaration>), ParseError>)
    ensures
        r matches Ok((rest, ds)) ==> spec_parse_declarations(i@, 0) matches Some(t) && t.1
            == decls_view(ds@) && rest@ == i@.subrange(t.0, i@.len() as int),
        r matches Err(e) ==> spec_parse_declarations(i@, 0) is None && e.remaining@ == i@,
{
    let n = i.unicode_len();
    match parse_declarations_at(i, 0) {
        Some((p, ds)) => Ok((i.substring_char(p, n), ds)),
        None => Err(ParseError { remaining: String::from_str(i) }),
    }
}

} // verus!
