//! Lexical utilities shared by every parser: identifier character classes,
//! whitespace skipping, and bounded scans over the input characters.

use vstd::prelude::*;

verus! {

/// Characters the selector grammar reserves; every other character may
/// appear in an identifier.
pub open spec fn valid_ident_char(c: char) -> bool {
    !(c == ' ' || c == '\n' || c == '\t' || c == ':' || c == '[' || c == ']' || c == '(' || c == ')'
        || c == '{' || c == '}' || c == '<' || c == '>' || c == '&' || c == '*' || c == '$'
        || c == '#' || c == '.' || c == ',' || c == ';')
}

/// Whitespace as the parsers skip it.
pub open spec fn space_char(c: char) -> bool {
    c == ' ' || c == '\t' || c == '\n' || c == '\r'
}

/// Length of the identifier run starting at `pos`.
pub open spec fn ident_len(s: Seq<char>, pos: int) -> nat
    decreases s.len() - pos,
{
    if 0 <= pos < s.len() && valid_ident_char(s[pos]) {
        1 + ident_len(s, pos + 1)
    } else {
        0
    }
}

/// First position at or after `pos` that does not hold an identifier
/// character (the end of the identifier run starting at `pos`).
pub open spec fn ident_end(s: Seq<char>, pos: int) -> int {
    pos + ident_len(s, pos)
}

/// Length of the whitespace run starting at `pos`.
pub open spec fn ws_len(s: Seq<char>, pos: int) -> nat
    decreases s.len() - pos,
{
    if 0 <= pos < s.len() && space_char(s[pos]) {
        1 + ws_len(s, pos + 1)
    } else {
        0
    }
}

/// First position at or after `pos` that does not hold whitespace.
pub open spec fn ws_end(s: Seq<char>, pos: int) -> int {
    pos + ws_len(s, pos)
}

/// Length of the run starting at `pos` free of the characters of `stop`.
pub open spec fn until_len(s: Seq<char>, pos: int, stop: Seq<char>) -> nat
    decreases s.len() - pos,
{
    if 0 <= pos < s.len() && !stop.contains(s[pos]) {
        1 + until_len(s, pos + 1, stop)
    } else {
        0
    }
}

/// First position at or after `pos` holding a character of `stop`
/// (or the end of the input if none follows).
pub open spec fn until_end(s: Seq<char>, pos: int, stop: Seq<char>) -> int {
    pos + until_len(s, pos, stop)
}

/// `p` forced into the range `[lo, hi]`; the grammar functions guard their
/// recursion with it, and it is the identity wherever they reach it.
pub open spec fn clip(p: int, lo: int, hi: int) -> int {
    if (if p < lo {
        lo
    } else {
        p
    }) > hi {
        hi
    } else if p < lo {
        lo
    } else {
        p
    }
}

/// A character is in the concatenation of two sets exactly when it is in
/// one of them.
pub proof fn lemma_contains_concat(a: Seq<char>, b: Seq<char>, c: char)
    ensures
        (a + b).contains(c) <==> a.contains(c) || b.contains(c),
{
    if a.contains(c) {
        let i = choose|i: int| 0 <= i < a.len() && a[i] == c;
        assert((a + b)[i] == c);
    }
    if b.contains(c) {
        let i = choose|i: int| 0 <= i < b.len() && b[i] == c;
        assert((a + b)[a.len() + i] == c);
    }
    if (a + b).contains(c) {
        let i = choose|i: int| 0 <= i < (a + b).len() && (a + b)[i] == c;
        if i < a.len() {
            assert(a[i] == c);
        } else {
            assert(b[i - a.len()] == c);
        }
    }
}

/// ASCII-case-insensitive match of one character against a lowercase one.
pub open spec fn lower_eq(a: char, b: char) -> bool {
    a == b || (65 <= a as u32 <= 90 && a as u32 + 32 == b as u32)
}

/// The (lowercase) keyword stands at `pos`, compared ASCII-case-insensitively.
pub open spec fn kw_matches(s: Seq<char>, pos: int, kw: Seq<char>) -> bool {
    &&& pos >= 0
    &&& pos + kw.len() <= s.len()
    &&& forall|j: int| 0 <= j < kw.len() ==> lower_eq(s[pos + j], #[trigger] kw[j])
}

/// The (lowercase) keyword stands at `pos` as a whole word: matched
/// ASCII-case-insensitively, and not followed by a further identifier
/// character. A name that merely extends a keyword is no match for it.
pub open spec fn kw_at(s: Seq<char>, pos: int, kw: Seq<char>) -> bool {
    &&& kw_matches(s, pos, kw)
    &&& (pos + kw.len() == s.len() || !valid_ident_char(s[pos + kw.len()]))
}

/// End of the run `[lo, hi)` with its trailing whitespace dropped.
pub open spec fn rtrim_end(s: Seq<char>, lo: int, hi: int) -> int
    decreases hi - lo,
{
    if lo < hi && hi <= s.len() && space_char(s[hi - 1]) {
        rtrim_end(s, lo, hi - 1)
    } else {
        hi
    }
}

/// Whether the selector grammar accepts the character inside an identifier.
pub fn is_valid_identifier(c: char) -> (r: bool)
    ensures
        r == valid_ident_char(c),
{
    !(c == ' ' || c == '\n' || c == '\t' || c == ':' || c == '[' || c == ']' || c == '(' || c == ')'
        || c == '{' || c == '}' || c == '<' || c == '>' || c == '&' || c == '*' || c == '$'
        || c == '#' || c == '.' || c == ',' || c == ';')
}

/// Whether the character may stand inside a parenthesized argument.
pub fn is_not_close_paren(c: char) -> (r: bool)
    ensures
        r == (c != ')'),
{
    c != ')'
}

/// Whether the character is anything but a plain space.
pub fn is_not_space(c: char) -> (r: bool)
    ensures
        r == (c != ' '),
{
    c != ' '
}

fn is_space(c: char) -> (r: bool)
    ensures
        r == space_char(c),
{
    c == ' ' || c == '\t' || c == '\n' || c == '\r'
}

fn chars_eq_nocase(a: char, b: char) -> (r: bool)
    ensures
        r == lower_eq(a, b),
{
    a == b || (a as u32 >= 65 && a as u32 <= 90 && a as u32 + 32 == b as u32)
}

/// Position just after the (lowercase) keyword when it stands at `pos`,
/// compared ASCII-case-insensitively; `None` when it does not.
pub(crate) fn match_keyword(s: &str, pos: usize, kw: &str) -> (r: Option<usize>)
    requires
        pos <= s@.len(),
    ensures
        r is Some <==> kw_matches(s@, pos as int, kw@),
        r matches Some(p) ==> p == pos + kw@.len() && pos <= p <= s@.len(),
{
    let kn = kw.unicode_len();
    let n = s.unicode_len();
    if kn > n - pos {
        return None;
    }
    let mut j: usize = 0;
    loop
        invariant
            0 <= j <= kn,
            kn == kw@.len(),
            n == s@.len(),
            pos + kn <= n,
            forall|t: int| 0 <= t < j ==> lower_eq(s@[pos + t], #[trigger] kw@[t]),
        ensures
            pos + kn <= n,
            kn == kw@.len(),
            (j == kn && kw_matches(s@, pos as int, kw@)) || (j < kn && !kw_matches(
                s@,
                pos as int,
                kw@,
            )),
        decreases kn - j,
    {
        if j == kn {
            break;
        }
        if !chars_eq_nocase(s.get_char(pos + j), kw.get_char(j)) {
            break;
        }
        j = j + 1;
    }
    if j == kn {
        Some(pos + kn)
    } else {
        None
    }
}

/// Position just after the (lowercase) keyword when it stands at `pos` as
/// a whole word — matched ASCII-case-insensitively and not followed by a
/// further identifier character; `None` when it does not.
pub(crate) fn match_keyword_word(s: &str, pos: usize, kw: &str) -> (r: Option<usize>)
    requires
        pos <= s@.len(),
    ensures
        r is Some <==> kw_at(s@, pos as int, kw@),
        r matches Some(p) ==> p == pos + kw@.len() && pos <= p <= s@.len(),
{
    let n = s.unicode_len();
    match match_keyword(s, pos, kw) {
        Some(q) => {
            if q == n || !is_valid_identifier(s.get_char(q)) {
                Some(q)
            } else {
                None
            }
        },
        None => None,
    }
}

/// End of the run `[lo, hi)` with its trailing whitespace dropped.
pub(crate) fn scan_rtrim(s: &str, lo: usize, hi: usize) -> (r: usize)
    requires
        lo <= hi <= s@.len(),
    ensures
        r == rtrim_end(s@, lo as int, hi as int),
        lo <= r <= hi,
{
    let mut t = hi;
    loop
        invariant
            lo <= t <= hi,
            hi <= s@.len(),
            rtrim_end(s@, lo as int, hi as int) == rtrim_end(s@, lo as int, t as int),
        ensures
            lo <= t <= hi,
            t == rtrim_end(s@, lo as int, hi as int),
        decreases t,
    {
        if t == lo {
            break;
        }
        if !is_space(s.get_char(t - 1)) {
            break;
        }
        t = t - 1;
    }
    t
}

/// Whether two strings hold the same characters.
pub(crate) fn str_eq(a: &str, b: &str) -> (r: bool)
    ensures
        r == (a@ == b@),
{
    let na = a.unicode_len();
    let nb = b.unicode_len();
    if na != nb {
        return false;
    }
    let mut i: usize = 0;
    loop
        invariant
            0 <= i <= na,
            na == a@.len(),
            na == b@.len(),
            forall|j: int| 0 <= j < i ==> a@[j] == b@[j],
        ensures
            (i < na && a@[i as int] != b@[i as int]) || (i == na && forall|j: int|
                0 <= j < na ==> a@[j] == b@[j]),
        decreases na - i,
    {
        if i == na {
            break;
        }
        if a.get_char(i) != b.get_char(i) {
            break;
        }
        i = i + 1;
    }
    if i == na {
        proof {
            assert(a@ =~= b@);
        }
        true
    } else {
        false
    }
}

/// Whether `set` holds the character.
pub(crate) fn str_contains_char(set: &str, c: char) -> (r: bool)
    ensures
        r == set@.contains(c),
{
    let n = set.unicode_len();
    let mut i: usize = 0;
    loop
        invariant
            0 <= i <= n,
            n == set@.len(),
            forall|j: int| 0 <= j < i ==> set@[j] != c,
        ensures
            (i < n && set@[i as int] == c) || (i == n && !set@.contains(c)),
        decreases n - i,
    {
        if i == n {
            break;
        }
        if set.get_char(i) == c {
            break;
        }
        i = i + 1;
    }
    i < n
}

/// Index of the end of the identifier run starting at `pos`.
pub(crate) fn take_ident_end(s: &str, pos: usize) -> (r: usize)
    requires
        pos <= s@.len(),
    ensures
        r == ident_end(s@, pos as int),
        pos <= r <= s@.len(),
{
    let n = s.unicode_len();
    let mut i = pos;
    loop
        invariant
            pos <= i <= n,
            n == s@.len(),
            ident_end(s@, pos as int) == ident_end(s@, i as int),
        ensures
            pos <= i <= n,
            i == ident_end(s@, pos as int),
        decreases n - i,
    {
        if i == n {
            break;
        }
        if !is_valid_identifier(s.get_char(i)) {
            break;
        }
        i = i + 1;
    }
    i
}

/// Index of the first non-whitespace position at or after `pos`.
pub(crate) fn skip_ws(s: &str, pos: usize) -> (r: usize)
    requires
        pos <= s@.len(),
    ensures
        r == ws_end(s@, pos as int),
        pos <= r <= s@.len(),
{
    let n = s.unicode_len();
    let mut i = pos;
    loop
        invariant
            pos <= i <= n,
            n == s@.len(),
            ws_end(s@, pos as int) == ws_end(s@, i as int),
        ensures
            pos <= i <= n,
            i == ws_end(s@, pos as int),
        decreases n - i,
    {
        if i == n {
            break;
        }
        if !is_space(s.get_char(i)) {
            break;
        }
        i = i + 1;
    }
    i
}

/// Index of the first position at or after `pos` holding a character of
/// `stop`, or the end of the input.
pub(crate) fn scan_until(s: &str, pos: usize, stop: &str) -> (r: usize)
    requires
        pos <= s@.len(),
    ensures
        r == until_end(s@, pos as int, stop@),
        pos <= r <= s@.len(),
{
    let n = s.unicode_len();
    let mut i = pos;
    loop
        invariant
            pos <= i <= n,
            n == s@.len(),
            until_end(s@, pos as int, stop@) == until_end(s@, i as int, stop@),
        ensures
            pos <= i <= n,
            i == until_end(s@, pos as int, stop@),
        decreases n - i,
    {
        if i == n {
            break;
        }
        if str_contains_char(stop, s.get_char(i)) {
            break;
        }
        i = i + 1;
    }
    i
}

/// The identifier run starting at `pos`, as an owned string, with the
/// position just after it.
pub fn take_valid_ident_string(s: &str, pos: usize) -> (r: (usize, String))
    requires
        pos <= s@.len(),
    ensures
        r.0 == ident_end(s@, pos as int),
        pos <= r.0 <= s@.len(),
        r.1@ == s@.subrange(pos as int, r.0 as int),
{
    let end = take_ident_end(s, pos);
    (end, String::from_str(s.substring_char(pos, end)))
}

/// What `take_until_encountered` returns: the characters before the first
/// delimiter, with the delimiter itself appended when it is consumable.
pub open spec fn spec_take_until_encountered(
    s: Seq<char>,
    pos: int,
    consumable: Seq<char>,
    dont_consume: Seq<char>,
) -> (int, Seq<char>) {
    let e = until_end(s, pos, consumable + dont_consume);
    if e < s.len() && consumable.contains(s[e]) {
        (e + 1, s.subrange(pos, e + 1))
    } else {
        (e, s.subrange(pos, e))
    }
}

/// Take characters until one of the two delimiter lists is encountered; a
/// delimiter from `consumable` is consumed and kept, one from
/// `dont_consume` is left in place.
pub fn take_until_encountered(s: &str, pos: usize, consumable: &str, dont_consume: &str) -> (r: (
    usize,
    String,
))
    requires
        pos <= s@.len(),
    ensures
        (r.0 as int, r.1@) == spec_take_until_encountered(
            s@,
            pos as int,
            consumable@,
            dont_consume@,
        ),
        pos <= r.0 <= s@.len(),
{
    let n = s.unicode_len();
    let ghost stop = consumable@ + dont_consume@;
    let mut i = pos;
    loop
        invariant
            pos <= i <= n,
            n == s@.len(),
            until_end(s@, pos as int, stop) == until_end(s@, i as int, stop),
            stop == consumable@ + dont_consume@,
        ensures
            pos <= i <= n,
            i == until_end(s@, pos as int, stop),
        decreases n - i,
    {
        if i == n {
            break;
        }
        let c = s.get_char(i);
        let hit = str_contains_char(consumable, c) || str_contains_char(dont_consume, c);
        proof {
            lemma_contains_concat(consumable@, dont_consume@, s@[i as int]);
        }
        if hit {
            break;
        }
        i = i + 1;
    }
    if i < n {
        let c = s.get_char(i);
        if str_contains_char(consumable, c) {
            return (i + 1, String::from_str(s.substring_char(pos, i + 1)));
        }
    }
    (i, String::from_str(s.substring_char(pos, i)))
}

} // verus!
