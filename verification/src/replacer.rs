//! The scope-mangling transform: segments raw CSS text into typed runs,
//! rewrites id and class runs with the scope prefix, and collects the
//! rename table. The block following a selector-position token is captured
//! opaquely and never re-scanned, which is what keeps hex colors and
//! pseudo-classes inside declaration bodies untouched.

use vstd::prelude::*;

use crate::parser::util::{clip, space_char, str_eq, until_end, ws_end};
use crate::parser::ParseError;

verus! {

/// A character that may stand inside an identifier the transform rewrites;
/// whitespace, digits and the punctuation of the surrounding syntax end
/// the run.
pub open spec fn mident_char(c: char) -> bool {
    !(space_char(c) || c == '.' || c == '#' || c == ',' || c == '$' || c == '@' || c == '%' || c
        == '^' || c == '&' || c == '*' || c == '(' || c == ')' || c == '{' || c == '}' || c == '['
        || c == ']' || c == '<' || c == '>' || (48 <= c as u32 && c as u32 <= 57))
}

/// Length of the identifier run starting at `pos`.
pub open spec fn mident_len(s: Seq<char>, pos: int) -> nat
    decreases s.len() - pos,
{
    if 0 <= pos < s.len() && mident_char(s[pos]) {
        1 + mident_len(s, pos + 1)
    } else {
        0
    }
}

/// First position at or after `pos` that ends an identifier run.
pub open spec fn mident_end(s: Seq<char>, pos: int) -> int {
    pos + mident_len(s, pos)
}

fn is_not_ident_terminator(c: char) -> (r: bool)
    ensures
        r == mident_char(c),
{
    let u = c as u32;
    !(c == ' ' || c == '\t' || c == '\n' || c == '\r' || c == '.' || c == '#' || c == ',' || c
        == '$' || c == '@' || c == '%' || c == '^' || c == '&' || c == '*' || c == '(' || c == ')'
        || c == '{' || c == '}' || c == '[' || c == ']' || c == '<' || c == '>' || (48 <= u && u
        <= 57))
}

fn take_mident_end(s: &str, pos: usize) -> (r: usize)
    requires
        pos <= s@.len(),
    ensures
        r == mident_end(s@, pos as int),
        pos <= r <= s@.len(),
{
    let n = s.unicode_len();
    let mut i = pos;
    loop
        invariant
            pos <= i <= n,
            n == s@.len(),
            mident_end(s@, pos as int) == mident_end(s@, i as int),
        ensures
            pos <= i <= n,
            i == mident_end(s@, pos as int),
        decreases n - i,
    {
        if i == n {
            break;
        }
        if !is_not_ident_terminator(s.get_char(i)) {
            break;
        }
        i = i + 1;
    }
    i
}

/// One typed run of the scanned CSS text.
#[derive(Debug, PartialEq)]
pub enum Section {
    Id { hash: String, name: String },
    Class { dot: String, name: String },
    Element { name: String },
    RulesBlock { leading_space: String, open_brace: String, content: String, close_brace: String },
    Other(String),
}

/// Mathematical model of a [`Section`].
pub enum SectionView {
    Id { hash: Seq<char>, name: Seq<char> },
    Class { dot: Seq<char>, name: Seq<char> },
    Element { name: Seq<char> },
    RulesBlock {
        leading_space: Seq<char>,
        open_brace: Seq<char>,
        content: Seq<char>,
        close_brace: Seq<char>,
    },
    Other(Seq<char>),
}

impl View for Section {
    type V = SectionView;

    open spec fn view(&self) -> SectionView {
        match self {
            Section::Id { hash, name } => SectionView::Id { hash: hash@, name: name@ },
            Section::Class { dot, name } => SectionView::Class { dot: dot@, name: name@ },
            Section::Element { name } => SectionView::Element { name: name@ },
            Section::RulesBlock { leading_space, open_brace, content, close_brace } => {
                SectionView::RulesBlock {
                    leading_space: leading_space@,
                    open_brace: open_brace@,
                    content: content@,
                    close_brace: close_brace@,
                }
            },
            Section::Other(t) => SectionView::Other(t@),
        }
    }
}

/// What the id alternative captures at `pos`: `#` and a nonempty
/// identifier run.
pub open spec fn spec_get_id(s: Seq<char>, pos: int) -> Option<(int, SectionView)> {
    if 0 <= pos < s.len() && s[pos] == '#' {
        let e = mident_end(s, pos + 1);
        if e > pos + 1 {
            Some((e, SectionView::Id { hash: seq!['#'], name: s.subrange(pos + 1, e) }))
        } else {
            None
        }
    } else {
        None
    }
}

/// What the class alternative captures at `pos`: `.` and a nonempty
/// identifier run.
pub open spec fn spec_get_class(s: Seq<char>, pos: int) -> Option<(int, SectionView)> {
    if 0 <= pos < s.len() && s[pos] == '.' {
        let e = mident_end(s, pos + 1);
        if e > pos + 1 {
            Some((e, SectionView::Class { dot: seq!['.'], name: s.subrange(pos + 1, e) }))
        } else {
            None
        }
    } else {
        None
    }
}

/// What the element alternative captures at `pos`: a nonempty identifier
/// run.
pub open spec fn spec_get_element(s: Seq<char>, pos: int) -> Option<(int, SectionView)> {
    if 0 <= pos <= s.len() {
        let e = mident_end(s, pos);
        if e > pos {
            Some((e, SectionView::Element { name: s.subrange(pos, e) }))
        } else {
            None
        }
    } else {
        None
    }
}

/// What the block alternative captures at `pos`: leading whitespace, `{`,
/// everything up to the matching `}`, and the `}` — one opaque run that is
/// never re-scanned.
pub open spec fn spec_get_block(s: Seq<char>, pos: int) -> Option<(int, SectionView)> {
    if 0 <= pos <= s.len() {
        let w = ws_end(s, pos);
        if w < s.len() && s[w] == '{' {
            let e = until_end(s, w + 1, seq!['}']);
            if e < s.len() {
                Some(
                    (
                        e + 1,
                        SectionView::RulesBlock {
                            leading_space: s.subrange(pos, w),
                            open_brace: seq!['{'],
                            content: s.subrange(w + 1, e),
                            close_brace: seq!['}'],
                        },
                    ),
                )
            } else {
                None
            }
        } else {
            None
        }
    } else {
        None
    }
}

/// What the catch-all alternative captures at `pos`: a nonempty run of
/// anything up to the next `.` or `#`.
pub open spec fn spec_get_other(s: Seq<char>, pos: int) -> Option<(int, SectionView)> {
    if 0 <= pos <= s.len() {
        let e = until_end(s, pos, seq!['.', '#']);
        if e > pos {
            Some((e, SectionView::Other(s.subrange(pos, e))))
        } else {
            None
        }
    } else {
        None
    }
}

/// The first token alternative that matches at `pos`: id, class, element,
/// then the catch-all.
pub open spec fn spec_token(s: Seq<char>, pos: int) -> Option<(int, SectionView)> {
    if spec_get_id(s, pos) is Some {
        spec_get_id(s, pos)
    } else if spec_get_class(s, pos) is Some {
        spec_get_class(s, pos)
    } else if spec_get_element(s, pos) is Some {
        spec_get_element(s, pos)
    } else {
        spec_get_other(s, pos)
    }
}

/// One scan step at `pos`: a token, and — after an id, class or element
/// token only — the block that follows it, if one does.
pub open spec fn spec_step(s: Seq<char>, pos: int) -> Option<(int, SectionView, Option<
    SectionView,
>)> {
    match spec_token(s, pos) {
        Some((e, sec)) => {
            if sec is Other {
                Some((e, sec, None))
            } else {
                match spec_get_block(s, e) {
                    Some((e2, blk)) => Some((e2, sec, Some(blk))),
                    None => Some((e, sec, None)),
                }
            }
        },
        None => None,
    }
}

/// The text a section contributes to the output: id and class sections get
/// the scope prefix spliced in front of their name, every other section is
/// emitted verbatim.
pub open spec fn section_out(sec: SectionView, mangle: Seq<char>) -> Seq<char> {
    match sec {
        SectionView::Id { hash, name } => hash + mangle + name,
        SectionView::Class { dot, name } => dot + mangle + name,
        SectionView::Element { name } => name,
        SectionView::RulesBlock { leading_space, open_brace, content, close_brace } => leading_space
            + open_brace + content + close_brace,
        SectionView::Other(t) => t,
    }
}

/// The identifier a section feeds into the rename table, if any.
pub open spec fn section_name(sec: SectionView) -> Option<Seq<char>> {
    match sec {
        SectionView::Id { name, .. } => Some(name),
        SectionView::Class { name, .. } => Some(name),
        _ => None,
    }
}

/// The rewritten text of the whole scan from `pos` on: each step's
/// sections in original order, with any unconsumed tail appended verbatim.
pub open spec fn spec_scan_out(s: Seq<char>, pos: int, mangle: Seq<char>) -> Seq<char>
    decreases s.len() - pos,
{
    if !(0 <= pos < s.len()) {
        Seq::empty()
    } else {
        match spec_step(s, pos) {
            Some((e, sec, blk)) => {
                let emitted = match blk {
                    Some(b) => section_out(sec, mangle) + section_out(b, mangle),
                    None => section_out(sec, mangle),
                };
                emitted + spec_scan_out(s, clip(e, pos + 1, s.len() as int), mangle)
            },
            None => s.subrange(pos, s.len() as int),
        }
    }
}

/// The set of identifiers the scan from `pos` on rewrites.
pub open spec fn spec_scan_names(s: Seq<char>, pos: int) -> Set<Seq<char>>
    decreases s.len() - pos,
{
    if !(0 <= pos < s.len()) {
        Set::empty()
    } else {
        match spec_step(s, pos) {
            Some((e, sec, blk)) => {
                let rest = spec_scan_names(s, clip(e, pos + 1, s.len() as int));
                match section_name(sec) {
                    Some(nm) => rest.insert(nm),
                    None => rest,
                }
            },
            None => Set::empty(),
        }
    }
}

fn get_id_at(s: &str, pos: usize) -> (r: Option<(usize, Section)>)
    requires
        pos <= s@.len(),
    ensures
        r is None ==> spec_get_id(s@, pos as int) is None,
        r matches Some((e, sec)) ==> spec_get_id(s@, pos as int) == Some((e as int, sec@)) && pos
            < e <= s@.len(),
{
    proof {
        reveal_strlit("#");
        assert("#"@ =~= seq!['#']);
    }
    let n = s.unicode_len();
    if pos < n && s.get_char(pos) == '#' {
        let e = take_mident_end(s, pos + 1);
        if e > pos + 1 {
            let name = String::from_str(s.substring_char(pos + 1, e));
            return Some((e, Section::Id { hash: String::from_str("#"), name }));
        }
        None
    } else {
        None
    }
}

fn get_class_at(s: &str, pos: usize) -> (r: Option<(usize, Section)>)
    requires
        pos <= s@.len(),
    ensures
        r is None ==> spec_get_class(s@, pos as int) is None,
        r matches Some((e, sec)) ==> spec_get_class(s@, pos as int) == Some((e as int, sec@))
            && pos < e <= s@.len(),
{
    proof {
        reveal_strlit(".");
        assert("."@ =~= seq!['.']);
    }
    let n = s.unicode_len();
    if pos < n && s.get_char(pos) == '.' {
        let e = take_mident_end(s, pos + 1);
        if e > pos + 1 {
            let name = String::from_str(s.substring_char(pos + 1, e));
            return Some((e, Section::Class { dot: String::from_str("."), name }));
        }
        None
    } else {
        None
    }
}

fn get_element_at(s: &str, pos: usize) -> (r: Option<(usize, Section)>)
    requires
        pos <= s@.len(),
    ensures
        r is None ==> spec_get_element(s@, pos as int) is None,
        r matches Some((e, sec)) ==> spec_get_element(s@, pos as int) == Some((e as int, sec@))
            && pos < e <= s@.len(),
{
    let e = take_mident_end(s, pos);
    if e > pos {
        let name = String::from_str(s.substring_char(pos, e));
        Some((e, Section::Element { name }))
    } else {
        None
    }
}

fn get_block_at(s: &str, pos: usize) -> (r: Option<(usize, Section)>)
    requires
        pos <= s@.len(),
    ensures
        r is None ==> spec_get_block(s@, pos as int) is None,
        r matches Some((e, sec)) ==> spec_get_block(s@, pos as int) == Some((e as int, sec@))
            && pos < e <= s@.len(),
{
    proof {
        reveal_strlit("{");
        reveal_strlit("}");
        assert("{"@ =~= seq!['{']);
        assert("}"@ =~= seq!['}']);
    }
    let n = s.unicode_len();
    let w = crate::parser::util::skip_ws(s, pos);
    if w < n && s.get_char(w) == '{' {
        let e = crate::parser::util::scan_until(s, w + 1, "}");
        if e < n {
            let leading_space = String::from_str(s.substring_char(pos, w));
            let content = String::from_str(s.substring_char(w + 1, e));
            return Some(
                (
                    e + 1,
                    Section::RulesBlock {
                        leading_space,
                        open_brace: String::from_str("{"),
                        content,
                        close_brace: String::from_str("}"),
                    },
                ),
            );
        }
        None
    } else {
        None
    }
}

fn get_other_at(s: &str, pos: usize) -> (r: Option<(usize, Section)>)
    requires
        pos <= s@.len(),
    ensures
        r is None ==> spec_get_other(s@, pos as int) is None,
        r matches Some((e, sec)) ==> spec_get_other(s@, pos as int) == Some((e as int, sec@))
            && pos < e <= s@.len(),
{
    proof {
        reveal_strlit(".#");
        assert(".#"@ =~= seq!['.', '#']);
    }
    let e = crate::parser::util::scan_until(s, pos, ".#");
    if e > pos {
        Some((e, Section::Other(String::from_str(s.substring_char(pos, e)))))
    } else {
        None
    }
}

/// The model of an optional section.
pub open spec fn opt_sec_view(o: Option<Section>) -> Option<SectionView> {
    match o {
        Some(b) => Some(b@),
        None => None,
    }
}

fn step_at(s: &str, pos: usize) -> (r: Option<(usize, Section, Option<Section>)>)
    requires
        pos <= s@.len(),
    ensures
        r is None ==> spec_step(s@, pos as int) is None,
        r matches Some((e, sec, blk)) ==> spec_step(s@, pos as int) == Some(
            (e as int, sec@, opt_sec_view(blk)),
        ) && pos < e <= s@.len(),
{
    let tok = if let Some(t) = get_id_at(s, pos) {
        Some(t)
    } else if let Some(t) = get_class_at(s, pos) {
        Some(t)
    } else if let Some(t) = get_element_at(s, pos) {
        Some(t)
    } else if let Some(t) = get_other_at(s, pos) {
        Some(t)
    } else {
        None
    };
    match tok {
        Some((e, sec)) => {
            let is_other = match &sec {
                Section::Other(_) => true,
                _ => false,
            };
            if is_other {
                Some((e, sec, None))
            } else {
                match get_block_at(s, e) {
                    Some((e2, blk)) => Some((e2, sec, Some(blk))),
                    None => Some((e, sec, None)),
                }
            }
        },
        None => None,
    }
}

/// Appends the output text of one section: the delimiter, the scope prefix
/// and the name for id and class sections, the captured text verbatim for
/// the rest.
fn append_section(out: &mut String, sec: &Section, mangle: &str)
    ensures
        final(out)@ == old(out)@ + section_out(sec@, mangle@),
{
    match sec {
        Section::Id { hash, name } => {
            out.append(hash.as_str());
            out.append(mangle);
            out.append(name.as_str());
            proof {
                assert(final(out)@ =~= old(out)@ + section_out(sec@, mangle@));
            }
        },
        Section::Class { dot, name } => {
            out.append(dot.as_str());
            out.append(mangle);
            out.append(name.as_str());
            proof {
                assert(final(out)@ =~= old(out)@ + section_out(sec@, mangle@));
            }
        },
        Section::Element { name } => {
            out.append(name.as_str());
        },
        Section::RulesBlock { leading_space, open_brace, content, close_brace } => {
            out.append(leading_space.as_str());
            out.append(open_brace.as_str());
            out.append(content.as_str());
            out.append(close_brace.as_str());
            proof {
                assert(final(out)@ =~= old(out)@ + section_out(sec@, mangle@));
            }
        },
        Section::Other(t) => {
            out.append(t.as_str());
        },
    }
}

/// The mapping a list of name pairs holds, later entries shadowing earlier
/// ones.
pub open spec fn entries_map(es: Seq<(String, String)>) -> Map<Seq<char>, Seq<char>>
    decreases es.len(),
{
    if es.len() == 0 {
        Map::empty()
    } else {
        entries_map(es.drop_last()).insert(es.last().0@, es.last().1@)
    }
}

/// No two entries share a key.
pub open spec fn entries_unique(es: Seq<(String, String)>) -> bool {
    forall|i: int, j: int| 0 <= i < j < es.len() ==> es[i].0@ != es[j].0@
}

proof fn lemma_entries_map_props(es: Seq<(String, String)>)
    requires
        entries_unique(es),
    ensures
        forall|k: Seq<char>|
            entries_map(es).contains_key(k) <==> exists|i: int|
                0 <= i < es.len() && es[i].0@ == k,
        forall|i: int|
            0 <= i < es.len() ==> entries_map(es).contains_key(#[trigger] es[i].0@) && entries_map(
                es,
            )[es[i].0@] == es[i].1@,
        entries_map(es).dom().finite(),
        entries_map(es).dom().len() == es.len(),
    decreases es.len(),
{
    if es.len() > 0 {
        let prefix = es.drop_last();
        assert(forall|i: int| 0 <= i < prefix.len() ==> prefix[i] == #[trigger] es[i]);
        assert(entries_unique(prefix)) by {
            assert forall|i: int, j: int| 0 <= i < j < prefix.len() implies #[trigger] prefix[i].0@
                != #[trigger] prefix[j].0@ by {
                assert(prefix[i] == es[i]);
                assert(prefix[j] == es[j]);
            }
        }
        lemma_entries_map_props(prefix);
        assert(forall|i: int| 0 <= i < prefix.len() ==> prefix[i] == es[i]);
        let lastk = es.last().0@;
        assert(!entries_map(prefix).contains_key(lastk)) by {
            assert(forall|i: int| 0 <= i < prefix.len() ==> #[trigger] es[i].0@ != lastk);
        }
        assert(entries_map(es).dom() =~= entries_map(prefix).dom().insert(lastk));
        vstd::set::axiom_set_insert_len(entries_map(prefix).dom(), lastk);
        assert forall|k: Seq<char>| entries_map(es).contains_key(k) implies exists|i: int|
            0 <= i < es.len() && es[i].0@ == k by {
            if k == lastk {
                assert(es[es.len() - 1].0@ == k);
            } else {
                let i = choose|i: int| 0 <= i < prefix.len() && prefix[i].0@ == k;
                assert(es[i].0@ == k);
            }
        }
    }
}

/// The lookup table one mangling call produces: each rewritten identifier
/// paired with its scope-prefixed form.
pub struct RenameTable {
    entries: Vec<(String, String)>,
}

impl View for RenameTable {
    type V = Map<Seq<char>, Seq<char>>;

    closed spec fn view(&self) -> Map<Seq<char>, Seq<char>> {
        entries_map(self.entries@)
    }
}

impl RenameTable {
    /// The table holds each of its keys once.
    pub closed spec fn wf(&self) -> bool {
        entries_unique(self.entries@)
    }

    /// An empty table.
    pub fn new() -> (r: Self)
        ensures
            r@ == Map::<Seq<char>, Seq<char>>::empty(),
            r.wf(),
    {
        let r = RenameTable { entries: Vec::new() };
        proof {
            assert(r.entries@.len() == 0);
        }
        r
    }

    /// The mangled form recorded for an original identifier, if the
    /// identifier was rewritten.
    pub fn get(&self, index: &str) -> (r: Option<String>)
        requires
            self.wf(),
        ensures
            self@.contains_key(index@) ==> (r matches Some(v) && v@ == self@[index@]),
            !self@.contains_key(index@) ==> r is None,
    {
        proof {
            lemma_entries_map_props(self.entries@);
        }
        let n = self.entries.len();
        let mut i: usize = 0;
        loop
            invariant
                0 <= i <= n,
                n == self.entries@.len(),
                self.wf(),
                entries_map(self.entries@) == self@,
                forall|j: int| 0 <= j < i ==> #[trigger] self.entries@[j].0@ != index@,
            ensures
                (i < n && self.entries@[i as int].0@ == index@) || (i == n && forall|j: int|
                    0 <= j < n ==> #[trigger] self.entries@[j].0@ != index@),
            decreases n - i,
        {
            if i == n {
                break;
            }
            if str_eq(self.entries[i].0.as_str(), index) {
                break;
            }
            i = i + 1;
        }
        proof {
            lemma_entries_map_props(self.entries@);
        }
        if i < n {
            Some(self.entries[i].1.clone())
        } else {
            None
        }
    }

    /// Whether an original identifier is in the table.
    pub fn contains(&self, index: &str) -> (r: bool)
        requires
            self.wf(),
        ensures
            r == self@.contains_key(index@),
    {
        self.get(index).is_some()
    }

    /// How many identifiers the table maps.
    pub fn len(&self) -> (r: usize)
        requires
            self.wf(),
        ensures
            r == self@.dom().len(),
    {
        proof {
            lemma_entries_map_props(self.entries@);
        }
        self.entries.len()
    }

    /// The recorded pairs, each original name beside its mangled form.
    pub fn entries(&self) -> (r: &Vec<(String, String)>)
        ensures
            entries_map(r@) == self@,
            entries_unique(r@) == self.wf(),
    {
        &self.entries
    }

    /// Records a new identifier.
    pub(crate) fn insert(&mut self, k: String, v: String)
        requires
            old(self).wf(),
            !old(self)@.contains_key(k@),
        ensures
            final(self)@ == old(self)@.insert(k@, v@),
            final(self).wf(),
    {
        proof {
            lemma_entries_map_props(self.entries@);
        }
        let ghost old_es = self.entries@;
        self.entries.push((k, v));
        proof {
            assert(self.entries@.drop_last() =~= old_es);
            assert(forall|i: int| 0 <= i < old_es.len() ==> #[trigger] old_es[i].0@ != k@);
            assert(forall|i: int|
                0 <= i < old_es.len() ==> self.entries@[i] == old_es[i]);
        }
    }
}

/// Records one rewritten identifier in the table, first occurrence
/// winning.
fn record_name(table: &mut RenameTable, name: &String, mangle: &str)
    requires
        old(table).wf(),
        forall|k: Seq<char>|
            old(table)@.contains_key(k) ==> old(table)@[k] == mangle@ + k,
    ensures
        final(table).wf(),
        forall|k: Seq<char>|
            final(table)@.contains_key(k) == (old(table)@.contains_key(k) || k == name@),
        forall|k: Seq<char>| final(table)@.contains_key(k) ==> final(table)@[k] == mangle@ + k,
{
    if !table.contains(name.as_str()) {
        let mut m = String::new();
        m.append(mangle);
        m.append(name.as_str());
        table.insert(name.clone(), m);
    }
}

/// Scans the CSS text, rewrites every id and class token in selector
/// position with the scope prefix, and collects the rename table; the
/// remaining input is always empty, and the call never fails.
pub fn insert_mangles_impl<'a>(i: &'a str, mangle: &str) -> (r: Result<
    (&'a str, (String, RenameTable)),
    ParseError,
>)
    ensures
        r is Ok,
        r matches Ok((rest, out)) ==> {
            &&& rest@ == Seq::<char>::empty()
            &&& out.0@ == spec_scan_out(i@, 0, mangle@)
            &&& out.1.wf()
            &&& forall|k: Seq<char>| out.1@.contains_key(k) <==> spec_scan_names(i@, 0).contains(k)
            &&& forall|k: Seq<char>| out.1@.contains_key(k) ==> out.1@[k] == mangle@ + k
        },
{
    let n = i.unicode_len();
    let mut out = String::new();
    let mut table = RenameTable::new();
    let mut pos: usize = 0;
    loop
        invariant
            0 <= pos <= n,
            n == i@.len(),
            spec_scan_out(i@, 0, mangle@) == out@ + spec_scan_out(i@, pos as int, mangle@),
            table.wf(),
            forall|k: Seq<char>| #![trigger spec_scan_names(i@, 0).contains(k)]
                (table@.contains_key(k) || spec_scan_names(i@, pos as int).contains(k))
                    <==> spec_scan_names(i@, 0).contains(k),
            forall|k: Seq<char>| table@.contains_key(k) ==> table@[k] == mangle@ + k,
        ensures
            0 <= pos <= n,
            n == i@.len(),
            spec_scan_out(i@, 0, mangle@) == out@ + spec_scan_out(i@, pos as int, mangle@),
            spec_scan_out(i@, pos as int, mangle@) == i@.subrange(pos as int, i@.len() as int),
            spec_scan_names(i@, pos as int) =~= Set::<Seq<char>>::empty(),
            table.wf(),
            forall|k: Seq<char>| #![trigger spec_scan_names(i@, 0).contains(k)]
                table@.contains_key(k) <==> spec_scan_names(i@, 0).contains(k),
            forall|k: Seq<char>| table@.contains_key(k) ==> table@[k] == mangle@ + k,
        decreases n - pos,
    {
        if pos == n {
            proof {
                assert(spec_scan_out(i@, pos as int, mangle@) =~= i@.subrange(
                    pos as int,
                    i@.len() as int,
                ));
            }
            break;
        }
        match step_at(i, pos) {
            None => {
                break;
            },
            Some((e2, sec, blk)) => {
                append_section(&mut out, &sec, mangle);
                match &blk {
                    Some(b) => append_section(&mut out, b, mangle),
                    None => {},
                }
                proof {
                    assert(clip(e2 as int, pos + 1, i@.len() as int) == e2 as int);
                    assert(spec_scan_out(i@, 0, mangle@) =~= out@ + spec_scan_out(
                        i@,
                        e2 as int,
                        mangle@,
                    ));
                }
                match &sec {
                    Section::Id { name, .. } => {
                        record_name(&mut table, name, mangle);
                        proof {
                            assert(section_name(sec@) == Some(name@));
                            assert(spec_scan_names(i@, pos as int) == spec_scan_names(
                                i@,
                                e2 as int,
                            ).insert(name@));
                            assert forall|k: Seq<char>|
                                (table@.contains_key(k) || spec_scan_names(i@, e2 as int).contains(
                                    k,
                                )) <==> spec_scan_names(i@, 0).contains(k) by {
                                assert(spec_scan_names(i@, pos as int).contains(k) == (k == name@
                                    || spec_scan_names(i@, e2 as int).contains(k)));
                            }
                        }
                    },
                    Section::Class { name, .. } => {
                        record_name(&mut table, name, mangle);
                        proof {
                            assert(section_name(sec@) == Some(name@));
                            assert(spec_scan_names(i@, pos as int) == spec_scan_names(
                                i@,
                                e2 as int,
                            ).insert(name@));
                            assert forall|k: Seq<char>|
                                (table@.contains_key(k) || spec_scan_names(i@, e2 as int).contains(
                                    k,
                                )) <==> spec_scan_names(i@, 0).contains(k) by {
                                assert(spec_scan_names(i@, pos as int).contains(k) == (k == name@
                                    || spec_scan_names(i@, e2 as int).contains(k)));
                            }
                        }
                    },
                    _ => {
                        proof {
                            assert(section_name(sec@) is None);
                            assert(spec_scan_names(i@, pos as int) == spec_scan_names(
                                i@,
                                e2 as int,
                            ));
                        }
                    },
                }
                pos = e2;
            },
        }
    }
    if pos < n {
        out.append(i.substring_char(pos, n));
        proof {
            assert(out@ =~= spec_scan_out(i@, 0, mangle@));
        }
    } else {
        proof {
            assert(i@.subrange(pos as int, i@.len() as int) =~= Seq::<char>::empty());
            assert(out@ =~= spec_scan_out(i@, 0, mangle@));
        }
    }
    let rest = i.substring_char(n, n);
    proof {
        assert(rest@ =~= Seq::<char>::empty());
    }
    Ok((rest, (out, table)))
}

/// Rewrites every selector-position id and class name of the CSS text with
/// the scope prefix, and returns the rewritten text with the rename table
/// mapping each original name to its prefixed form.
pub fn mangle_css_string(i: &str, mangle: &str) -> (r: (String, RenameTable))
    ensures
        r.0@ == spec_scan_out(i@, 0, mangle@),
        r.1.wf(),
        forall|k: Seq<char>| r.1@.contains_key(k) <==> spec_scan_names(i@, 0).contains(k),
        forall|k: Seq<char>| r.1@.contains_key(k) ==> r.1@[k] == mangle@ + k,
{
    match insert_mangles_impl(i, mangle) {
        Ok((_, out)) => out,
        Err(_) => {
            proof {
                assert(false);
            }
            (String::new(), RenameTable::new())
        },
    }
}

/// The transform is deterministic: one CSS text and one prefix give one
/// rewritten text, so running it twice on the same input yields the same
/// output.
pub proof fn lemma_mangle_deterministic(
    t: Seq<char>,
    p: Seq<char>,
    out1: Seq<char>,
    out2: Seq<char>,
)
    requires
        out1 == spec_scan_out(t, 0, p),
        out2 == spec_scan_out(t, 0, p),
    ensures
        out1 == out2,
{
}

/// The rename table is determined as well: any two maps that each pair
/// exactly the rewritten identifiers of one text with their prefixed forms
/// are the same map.
pub proof fn lemma_mangle_table_deterministic(
    t: Seq<char>,
    p: Seq<char>,
    m1: Map<Seq<char>, Seq<char>>,
    m2: Map<Seq<char>, Seq<char>>,
)
    requires
        forall|k: Seq<char>| m1.contains_key(k) <==> spec_scan_names(t, 0).contains(k),
        forall|k: Seq<char>| m1.contains_key(k) ==> m1[k] == p + k,
        forall|k: Seq<char>| m2.contains_key(k) <==> spec_scan_names(t, 0).contains(k),
        forall|k: Seq<char>| m2.contains_key(k) ==> m2[k] == p + k,
    ensures
        m1 == m2,
{
    assert(m1 =~= m2);
}

/// Captures an id token (`#` and a nonempty identifier run) from the start
/// of `i`, returning the remaining input beside it.
pub fn get_id(i: &str) -> (r: Result<(&str, Section), ParseError>)
    ensures
        r matches Ok((rest, sec)) ==> spec_get_id(i@, 0) matches Some(t) && t.1 == sec@ && rest@
            == i@.subrange(t.0, i@.len() as int),
        r matches Err(e) ==> spec_get_id(i@, 0) is None && e.remaining@ == i@,
{
    let n = i.unicode_len();
    match get_id_at(i, 0) {
        Some((p, sec)) => Ok((i.substring_char(p, n), sec)),
        None => Err(ParseError { remaining: String::from_str(i) }),
    }
}

/// Captures a class token (`.` and a nonempty identifier run) from the
/// start of `i`, returning the remaining input beside it.
pub fn get_class(i: &str) -> (r: Result<(&str, Section), ParseError>)
    ensures
        r matches Ok((rest, sec)) ==> spec_get_class(i@, 0) matches Some(t) && t.1 == sec@ && rest@
            == i@.subrange(t.0, i@.len() as int),
        r matches Err(e) ==> spec_get_class(i@, 0) is None && e.remaining@ == i@,
{
    let n = i.unicode_len();
    match get_class_at(i, 0) {
        Some((p, sec)) => Ok((i.substring_char(p, n), sec)),
        None => Err(ParseError { remaining: String::from_str(i) }),
    }
}

/// Captures an element token (a nonempty identifier run) from the start of
/// `i`, returning the remaining input beside it.
pub fn get_element(i: &str) -> (r: Result<(&str, Section), ParseError>)
    ensures
        r matches Ok((rest, sec)) ==> spec_get_element(i@, 0) matches Some(t) && t.1 == sec@
            && rest@ == i@.subrange(t.0, i@.len() as int),
        r matches Err(e) ==> spec_get_element(i@, 0) is None && e.remaining@ == i@,
{
    let n = i.unicode_len();
    match get_element_at(i, 0) {
        Some((p, sec)) => Ok((i.substring_char(p, n), sec)),
        None => Err(ParseError { remaining: String::from_str(i) }),
    }
}

/// Captures a brace-delimited rule body (with its leading whitespace) from
/// the start of `i`, returning the remaining input beside it.
pub fn get_block(i: &str) -> (r: Result<(&str, Section), ParseError>)
    ensures
        r matches Ok((rest, sec)) ==> spec_get_block(i@, 0) matches Some(t) && t.1 == sec@ && rest@
            == i@.subrange(t.0, i@.len() as int),
        r matches Err(e) ==> spec_get_block(i@, 0) is None && e.remaining@ == i@,
{
    let n = i.unicode_len();
    match get_block_at(i, 0) {
        Some((p, sec)) => Ok((i.substring_char(p, n), sec)),
        None => Err(ParseError { remaining: String::from_str(i) }),
    }
}

/// Captures a run of text up to the next `.` or `#` from the start of `i`,
/// returning the remaining input beside it.
pub fn get_other(i: &str) -> (r: Result<(&str, Section), ParseError>)
    ensures
        r matches Ok((rest, sec)) ==> spec_get_other(i@, 0) matches Some(t) && t.1 == sec@ && rest@
            == i@.subrange(t.0, i@.len() as int),
        r matches Err(e) ==> spec_get_other(i@, 0) is None && e.remaining@ == i@,
{
    let n = i.unicode_len();
    match get_other_at(i, 0) {
        Some((p, sec)) => Ok((i.substring_char(p, n), sec)),
        None => Err(ParseError { remaining: String::from_str(i) }),
    }
}

} // verus!
