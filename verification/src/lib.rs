//! Scope-mangling for CSS text: rewrites class and id names in selector
//! position with a scope prefix and returns a lookup table from original
//! names to their mangled forms, together with a selector-grammar parser
//! that models CSS selectors as a syntax tree.

pub mod parser;
pub mod replacer;

use vstd::prelude::*;

verus! {

/// Errors a style context can signal when a stylesheet is inserted.
pub enum CssError {
    IndexSizeError,
    HierarchyRequestError,
    SyntaxError,
    InvalidStateError,
}

/// The decimal digit character for a value below ten.
pub open spec fn digit_char(d: nat) -> char {
    if d == 0 {
        '0'
    } else if d == 1 {
        '1'
    } else if d == 2 {
        '2'
    } else if d == 3 {
        '3'
    } else if d == 4 {
        '4'
    } else if d == 5 {
        '5'
    } else if d == 6 {
        '6'
    } else if d == 7 {
        '7'
    } else if d == 8 {
        '8'
    } else {
        '9'
    }
}

/// The decimal digit string of a number, most significant digit first.
pub open spec fn dec_digits(n: nat) -> Seq<char>
    decreases n,
{
    if n < 10 {
        seq![digit_char(n)]
    } else {
        dec_digits(n / 10) + seq![digit_char(n % 10)]
    }
}

/// The scope prefix attached to a stylesheet: `"{mangle}-"` for the first
/// attachment (id 0) and `"{mangle}__{id}-"` for later ones.
pub open spec fn spec_format_mangler(mangle: Seq<char>, id: nat) -> Seq<char> {
    if id == 0 {
        mangle + seq!['-']
    } else {
        mangle + seq!['_', '_'] + dec_digits(id) + seq!['-']
    }
}

fn digit_str(d: usize) -> (r: &'static str)
    requires
        d < 10,
    ensures
        r@ == seq![digit_char(d as nat)],
{
    proof {
        reveal_strlit("0");
        reveal_strlit("1");
        reveal_strlit("2");
        reveal_strlit("3");
        reveal_strlit("4");
        reveal_strlit("5");
        reveal_strlit("6");
        reveal_strlit("7");
        reveal_strlit("8");
        reveal_strlit("9");
    }
    let r = match d {
        0 => "0",
        1 => "1",
        2 => "2",
        3 => "3",
        4 => "4",
        5 => "5",
        6 => "6",
        7 => "7",
        8 => "8",
        _ => "9",
    };
    proof {
        assert(r@ =~= seq![digit_char(d as nat)]);
    }
    r
}

fn push_digits(out: &mut String, n: usize)
    ensures
        final(out)@ == old(out)@ + dec_digits(n as nat),
    decreases n,
{
    if n < 10 {
        out.append(digit_str(n));
    } else {
        push_digits(out, n / 10);
        out.append(digit_str(n % 10));
        proof {
            assert(final(out)@ =~= old(out)@ + dec_digits(n as nat));
        }
    }
}

/// Builds the unique scope prefix for one stylesheet attachment out of the
/// base mangler name and the attachment id.
pub fn format_mangler(mangle: &str, id: usize) -> (r: String)
    ensures
        r@ == spec_format_mangler(mangle@, id as nat),
{
    proof {
        reveal_strlit("-");
        reveal_strlit("__");
    }
    let mut out = String::new();
    out.append(mangle);
    if id == 0 {
        out.append("-");
        proof {
            assert(out@ =~= spec_format_mangler(mangle@, id as nat));
        }
    } else {
        out.append("__");
        push_digits(&mut out, id);
        out.append("-");
        proof {
            assert(out@ =~= spec_format_mangler(mangle@, id as nat));
        }
    }
    out
}

} // verus!
