//! The attribute-selector parser: `[name]`, `[name <op> value]`, and an
//! optional trailing case-sensitivity flag (`i` or `s`).

use vstd::prelude::*;

use crate::parser::util::{
    ident_end, skip_ws, spec_take_until_encountered, take_until_encountered,
    take_valid_ident_string, ws_end,
};
use crate::parser::ParseError;

verus! {

/// The comparison operator of an attribute matcher.
#[derive(Debug, PartialEq)]
pub enum AttributeOperator {
    Eq,
    TildeEq,
    PipeEq,
    UpEq,
    DollarEq,
    StarEq,
}

/// Whether an attribute value comparison is case-sensitive; `Default`
/// stands for no explicit flag.
#[derive(Debug, PartialEq)]
pub enum CaseSensitivity {
    Insensitive,
    Sensitive,
    Default,
}

/// An attribute matcher: a name, an optional operator/value pair, and a
/// case-sensitivity flag.
#[derive(Debug, PartialEq)]
pub struct Attribute {
    pub name: String,
    pub target: Option<(AttributeOperator, String)>,
    pub case_sensitivity: CaseSensitivity,
}

/// Mathematical model of an [`Attribute`].
pub struct AttributeView {
    pub name: Seq<char>,
    pub target: Option<(AttributeOperator, Seq<char>)>,
    pub case_sensitivity: CaseSensitivity,
}

impl View for Attribute {
    type V = AttributeView;

    open spec fn view(&self) -> AttributeView {
        AttributeView {
            name: self.name@,
            target: match self.target {
                Some((op, v)) => Some((op, v@)),
                None => None,
            },
            case_sensitivity: self.case_sensitivity,
        }
    }
}

/// What the operator parser returns at `pos`: `=` first, then the
/// two-character operators.
pub open spec fn spec_parse_attribute_operator(s: Seq<char>, pos: int) -> Option<(
    int,
    AttributeOperator,
)> {
    if 0 <= pos < s.len() && s[pos] == '=' {
        Some((pos + 1, AttributeOperator::Eq))
    } else if 0 <= pos && pos + 2 <= s.len() && s[pos] == '~' && s[pos + 1] == '=' {
        Some((pos + 2, AttributeOperator::TildeEq))
    } else if 0 <= pos && pos + 2 <= s.len() && s[pos] == '|' && s[pos + 1] == '=' {
        Some((pos + 2, AttributeOperator::PipeEq))
    } else if 0 <= pos && pos + 2 <= s.len() && s[pos] == '^' && s[pos + 1] == '=' {
        Some((pos + 2, AttributeOperator::UpEq))
    } else if 0 <= pos && pos + 2 <= s.len() && s[pos] == '$' && s[pos + 1] == '=' {
        Some((pos + 2, AttributeOperator::DollarEq))
    } else if 0 <= pos && pos + 2 <= s.len() && s[pos] == '*' && s[pos + 1] == '=' {
        Some((pos + 2, AttributeOperator::StarEq))
    } else {
        None
    }
}

/// The delimiters that end an attribute name.
pub open spec fn attr_name_stops() -> Seq<char> {
    seq![' ', ']', '=', '~', '|', '^', '$', '*']
}

/// What the attribute parser returns at `pos`: `[`, a (whitespace-led) name
/// run, an optional operator and value, an optional `s`/`i` flag, and `]`.
/// Any other character in the flag position fails the parse.
pub open spec fn spec_parse_attribute(s: Seq<char>, pos: int) -> Option<(int, AttributeView)> {
    if 0 <= pos < s.len() && s[pos] == '[' {
        let w1 = ws_end(s, pos + 1);
        let (p1, name) = spec_take_until_encountered(s, w1, Seq::<char>::empty(), attr_name_stops());
        let wo = ws_end(s, p1);
        let (p3, target) = match spec_parse_attribute_operator(s, wo) {
            Some((p2, op)) => {
                let wv = ws_end(s, p2);
                let ve = ident_end(s, wv);
                (ve, Some((op, s.subrange(wv, ve))))
            },
            None => (p1, Option::<(AttributeOperator, Seq<char>)>::None),
        };
        let wf = ws_end(s, p3);
        let (p4, cs) = if wf < s.len() && s[wf] == 's' {
            (wf + 1, CaseSensitivity::Sensitive)
        } else if wf < s.len() && s[wf] == 'i' {
            (wf + 1, CaseSensitivity::Insensitive)
        } else {
            (p3, CaseSensitivity::Default)
        };
        let wc = ws_end(s, p4);
        if wc < s.len() && s[wc] == ']' {
            Some((wc + 1, AttributeView { name, target, case_sensitivity: cs }))
        } else {
            None
        }
    } else {
        None
    }
}

pub(crate) fn parse_attribute_operator_at(s: &str, pos: usize) -> (r: Option<(
    usize,
    AttributeOperator,
)>)
    requires
        pos <= s@.len(),
    ensures
        r is None ==> spec_parse_attribute_operator(s@, pos as int) is None,
        r matches Some((p, op)) ==> spec_parse_attribute_operator(s@, pos as int) == Some(
            (p as int, op),
        ) && pos < p <= s@.len(),
{
    let n = s.unicode_len();
    if pos < n && s.get_char(pos) == '=' {
        Some((pos + 1, AttributeOperator::Eq))
    } else if n - pos >= 2 && s.get_char(pos) == '~' && s.get_char(pos + 1) == '=' {
        Some((pos + 2, AttributeOperator::TildeEq))
    } else if n - pos >= 2 && s.get_char(pos) == '|' && s.get_char(pos + 1) == '=' {
        Some((pos + 2, AttributeOperator::PipeEq))
    } else if n - pos >= 2 && s.get_char(pos) == '^' && s.get_char(pos + 1) == '=' {
        Some((pos + 2, AttributeOperator::UpEq))
    } else if n - pos >= 2 && s.get_char(pos) == '$' && s.get_char(pos + 1) == '=' {
        Some((pos + 2, AttributeOperator::DollarEq))
    } else if n - pos >= 2 && s.get_char(pos) == '*' && s.get_char(pos + 1) == '=' {
        Some((pos + 2, AttributeOperator::StarEq))
    } else {
        None
    }
}

/// Parses an attribute matcher from the text at `pos`.
pub(crate) fn parse_attribute_at(s: &str, pos: usize) -> (r: Option<(usize, Attribute)>)
    requires
        pos <= s@.len(),
    ensures
        r is None ==> spec_parse_attribute(s@, pos as int) is None,
        r matches Some((p, a)) ==> spec_parse_attribute(s@, pos as int) == Some((p as int, a@))
            && pos < p <= s@.len(),
{
    let n = s.unicode_len();
    if pos < n && s.get_char(pos) == '[' {
        proof {
            reveal_strlit("");
            reveal_strlit(" ]=~|^$*");
            assert(""@ =~= Seq::<char>::empty());
            assert(" ]=~|^$*"@ =~= attr_name_stops());
        }
        let w1 = skip_ws(s, pos + 1);
        let (p1, name) = take_until_encountered(s, w1, "", " ]=~|^$*");
        let wo = skip_ws(s, p1);
        let (p3, target) = match parse_attribute_operator_at(s, wo) {
            Some((p2, op)) => {
                let wv = skip_ws(s, p2);
                let (ve, v) = take_valid_ident_string(s, wv);
                (ve, Some((op, v)))
            },
            None => (p1, None),
        };
        let wf = skip_ws(s, p3);
        let (p4, cs) = if wf < n && s.get_char(wf) == 's' {
            (wf + 1, CaseSensitivity::Sensitive)
        } else if wf < n && s.get_char(wf) == 'i' {
            (wf + 1, CaseSensitivity::Insensitive)
        } else {
            (p3, CaseSensitivity::Default)
        };
        let wc = skip_ws(s, p4);
        if wc < n && s.get_char(wc) == ']' {
            Some((wc + 1, Attribute { name, target, case_sensitivity: cs }))
        } else {
            None
        }
    } else {
        None
    }
}

/// Parses an attribute matcher from the start of `i`, returning the
/// remaining input beside it.
pub fn parse_attribute(i: &str) -> (r: Result<(&str, Attribute), ParseError>)
    ensures
        r matches Ok((rest, a)) ==> spec_parse_attribute(i@, 0) matches Some(t) && t.1 == a@
            && rest@ == i@.subrange(t.0, i@.len() as int),
        r matches Err(e) ==> spec_parse_attribute(i@, 0) is None && e.remaining@ == i@,
{
    let n = i.unicode_len();
    match parse_attribute_at(i, 0) {
        Some((p, a)) => Ok((i.substring_char(p, n), a)),
        None => Err(ParseError { remaining: String::from_str(i) }),
    }
}

} // verus!
