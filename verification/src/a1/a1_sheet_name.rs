//! The sheet name in front of a reference: `Sheet1!A1`, `'My Sheet'!A1`.
//!
//! A name that holds a space or punctuation, or starts with a digit, is
//! written between single quotes, and a single quote inside it is written
//! twice. Names are looked up without regard to the case of their letters.

use vstd::prelude::*;
use vstd::string::StrSliceExecFns;
use crate::a1::a1_error::{A1Error, A1ErrorView};
use crate::a1::a1_text::{ascii_digit, last_index_of, lemma_last_index_is};
use crate::util::{case_fold, chars_of, is_whitespace, lowercase, string_of, whitespace};
use crate::grid::SheetId;

verus! {

/// `c` is a punctuation character of ASCII: any printable ASCII character
/// that is no letter, no digit and no space.
pub open spec fn ascii_punctuation(c: char) -> bool {
    let n = c as u32;
    ||| 0x21 <= n <= 0x2f
    ||| 0x3a <= n <= 0x40
    ||| 0x5b <= n <= 0x60
    ||| 0x7b <= n <= 0x7e
}

/// `c` cannot stand in a name without quotes.
pub open spec fn needs_quotes(c: char) -> bool {
    whitespace(c) || ascii_punctuation(c)
}

/// The name must be written between quotes: it starts with a digit, or holds
/// white space or ASCII punctuation.
pub open spec fn must_be_quoted(name: Seq<char>) -> bool {
    ||| name.len() > 0 && ascii_digit(name[0])
    ||| exists|k: int| 0 <= k < name.len() && needs_quotes(#[trigger] name[k])
}

/// The name with every single quote written twice.
pub open spec fn escaped(name: Seq<char>) -> Seq<char>
    decreases name.len(),
{
    if name.len() == 0 {
        Seq::empty()
    } else if name[0] == '\'' {
        seq!['\'', '\''] + escaped(name.drop_first())
    } else {
        seq![name[0]] + escaped(name.drop_first())
    }
}

/// The text with every pair of single quotes read as one, or `None` where a
/// single quote stands without its partner.
pub open spec fn unescaped(s: Seq<char>) -> Option<Seq<char>>
    decreases s.len(),
{
    if s.len() == 0 {
        Some(Seq::empty())
    } else if s[0] != '\'' {
        match unescaped(s.drop_first()) {
            Some(t) => Some(seq![s[0]] + t),
            None => None,
        }
    } else if s.len() >= 2 && s[1] == '\'' {
        match unescaped(s.subrange(2, s.len() as int)) {
            Some(t) => Some(seq!['\''] + t),
            None => None,
        }
    } else {
        None
    }
}

/// The name as it is written in front of a reference: as it is, or between
/// quotes where it must be.
pub open spec fn quoted(name: Seq<char>) -> Seq<char> {
    if must_be_quoted(name) {
        seq!['\''] + escaped(name) + seq!['\'']
    } else {
        name
    }
}

/// What a reference text says of its sheet: the name, if it gives one, and
/// the text that is left; or the failure.
///
/// The text is cut at its last `!`; without one it gives no name. What stands
/// before the cut is the name. Between a pair of single quotes it is read
/// with every doubled quote as one, and a quote that stands alone inside is
/// a failure. Without the pair of quotes it must hold no space and no `!`,
/// and no single quote.
pub open spec fn parse_sheet_name_text(s: Seq<char>) -> Result<
    (Option<Seq<char>>, Seq<char>),
    A1ErrorView,
> {
    let k = last_index_of(s, '!');
    if k < 0 {
        Ok((None, s))
    } else {
        let left = s.subrange(0, k);
        let rest = s.subrange(k + 1, s.len() as int);
        if left.len() >= 2 && left[0] == '\'' && left.last() == '\'' {
            match unescaped(left.subrange(1, left.len() - 1)) {
                Some(name) => Ok((Some(name), rest)),
                None => Err(A1ErrorView::MismatchedQuotes(left)),
            }
        } else if left.contains(' ') || left.contains('!') {
            Err(A1ErrorView::InvalidSheetNameMissingQuotes(left))
        } else if left.contains('\'') {
            Err(A1ErrorView::MismatchedQuotes(left))
        } else {
            Ok((Some(left), rest))
        }
    }
}

/// The outcome of reading a sheet name, as plain values.
pub open spec fn sheet_name_outcome(r: Result<(Option<String>, &str), A1Error>) -> Result<
    (Option<Seq<char>>, Seq<char>),
    A1ErrorView,
> {
    match r {
        Ok((name, rest)) => Ok(
            (
                match name {
                    Some(n) => Some(n@),
                    None => None,
                },
                rest@,
            ),
        ),
        Err(e) => Err(e@),
    }
}

/// Reading an escaped name gives the name back.
pub proof fn lemma_unescaped_escaped(name: Seq<char>)
    ensures
        unescaped(escaped(name)) == Some(name),
    decreases name.len(),
{
    if name.len() > 0 {
        let tail = name.drop_first();
        lemma_unescaped_escaped(tail);
        let e = escaped(name);
        if name[0] == '\'' {
            assert(e[0] == '\'' && e[1] == '\'');
            assert(e.subrange(2, e.len() as int) =~= escaped(tail));
            assert(seq!['\''] + tail =~= name);
        } else {
            assert(e[0] == name[0]);
            assert(e.drop_first() =~= escaped(tail));
            assert(seq![name[0]] + tail =~= name);
        }
    }
}

/// A name written by [`quote_sheet_name`], then `!` and any text without a
/// `!` in it, reads as that name and that text.
pub proof fn lemma_quoted_name_round_trip(name: Seq<char>, rest: Seq<char>)
    requires
        !rest.contains('!'),
    ensures
        parse_sheet_name_text(quoted(name) + seq!['!'] + rest) == Ok::<
            (Option<Seq<char>>, Seq<char>),
            A1ErrorView,
        >((Some(name), rest)),
{
    let q = quoted(name);
    let s = q + seq!['!'] + rest;
    let k = q.len() as int;
    assert forall|j: int| k < j < s.len() implies s[j] != '!' by {
        assert(s[j] == rest[j - k - 1]);
        assert(rest.contains(rest[j - k - 1]));
    }
    assert(s[k] == '!');
    lemma_last_index_is(s, '!', k);
    let left = s.subrange(0, k);
    assert(left =~= q);
    assert(s.subrange(k + 1, s.len() as int) =~= rest);
    if must_be_quoted(name) {
        let e = escaped(name);
        assert(q.len() == e.len() + 2);
        assert(q[0] == '\'');
        assert(q.last() == '\'');
        assert(q.subrange(1, q.len() - 1) =~= e);
        lemma_unescaped_escaped(name);
    } else {
        assert forall|j: int| 0 <= j < name.len() implies !needs_quotes(#[trigger] name[j]) by {}
        assert(!name.contains(' ')) by {
            if name.contains(' ') {
                let j = choose|j: int| 0 <= j < name.len() && name[j] == ' ';
                assert(needs_quotes(name[j]));
            }
        }
        assert(!name.contains('!')) by {
            if name.contains('!') {
                let j = choose|j: int| 0 <= j < name.len() && name[j] == '!';
                assert(needs_quotes(name[j]));
            }
        }
        assert(!name.contains('\'')) by {
            if name.contains('\'') {
                let j = choose|j: int| 0 <= j < name.len() && name[j] == '\'';
                assert(needs_quotes(name[j]));
            }
        }
        if name.len() >= 2 && name[0] == '\'' {
            assert(needs_quotes(name[0]));
        }
    }
}

/// Whether `c` is a punctuation character of ASCII.
pub(crate) fn is_ascii_punctuation(c: char) -> (r: bool)
    ensures
        r == ascii_punctuation(c),
{
    let n: u32 = c as u32;
    (0x21 <= n && n <= 0x2f) || (0x3a <= n && n <= 0x40) || (0x5b <= n && n <= 0x60) || (0x7b <= n
        && n <= 0x7e)
}

/// Whether `c` stands among the characters of `v` from `from` up to `to`.
fn holds_char(v: &Vec<char>, from: usize, to: usize, c: char) -> (r: bool)
    requires
        from <= to <= v.len(),
    ensures
        r == v@.subrange(from as int, to as int).contains(c),
{
    let ghost s = v@.subrange(from as int, to as int);
    let mut i: usize = from;
    while i < to
        invariant
            from <= i <= to <= v.len(),
            s == v@.subrange(from as int, to as int),
            forall|j: int| 0 <= j < i - from ==> s[j] != c,
        decreases to - i,
    {
        if v[i] == c {
            assert(s[i - from] == c);
            return true;
        }
        i += 1;
    }
    false
}

/// The index of the last `c` in `v`, if there is one.
fn find_last(v: &Vec<char>, c: char) -> (r: Option<usize>)
    ensures
        match r {
            Some(k) => k == last_index_of(v@, c) && k < v.len(),
            None => last_index_of(v@, c) < 0,
        },
{
    let mut k: usize = v.len();
    while k > 0
        invariant
            k <= v.len(),
            forall|j: int| k <= j < v.len() ==> v@[j] != c,
        decreases k,
    {
        k -= 1;
        if v[k] == c {
            proof {
                lemma_last_index_is(v@, c, k as int);
            }
            return Some(k);
        }
    }
    proof {
        lemma_last_index_is(v@, c, -1);
    }
    None
}

/// Reads the characters of `v` from `from` up to `to` with every doubled
/// quote as one.
fn unescape(v: &Vec<char>, from: usize, to: usize) -> (r: Option<String>)
    requires
        from <= to <= v.len(),
    ensures
        match unescaped(v@.subrange(from as int, to as int)) {
            Some(t) => r is Some && r->0@ == t,
            None => r is None,
        },
{
    let ghost s = v@.subrange(from as int, to as int);
    let mut out = String::new();
    let mut i: usize = from;
    proof {
        assert(s.subrange(0, s.len() as int) =~= s);
        if unescaped(s) is Some {
            assert(out@ + unescaped(s)->0 =~= unescaped(s)->0);
        }
    }
    while i < to
        invariant
            from <= i <= to <= v.len(),
            s == v@.subrange(from as int, to as int),
            unescaped(s) == match unescaped(s.subrange(i - from, s.len() as int)) {
                Some(t) => Some(out@ + t),
                None => None,
            },
        decreases to - i,
    {
        let ghost cur = s.subrange(i - from, s.len() as int);
        let c = v[i];
        assert(cur[0] == c);
        if c != '\'' {
            proof {
                assert(cur.drop_first() =~= s.subrange(i + 1 - from, s.len() as int));
                let next = unescaped(cur.drop_first());
                if next is Some {
                    assert(out@.push(c) + next->0 =~= out@ + (seq![c] + next->0));
                }
            }
            out.push(c);
            i += 1;
        } else if i + 1 < to && v[i + 1] == '\'' {
            proof {
                assert(cur[1] == v@[i + 1]);
                assert(cur.subrange(2, cur.len() as int) =~= s.subrange(
                    i + 2 - from,
                    s.len() as int,
                ));
                let next = unescaped(cur.subrange(2, cur.len() as int));
                if next is Some {
                    assert(out@.push('\'') + next->0 =~= out@ + (seq!['\''] + next->0));
                }
            }
            out.push('\'');
            i += 2;
        } else {
            proof {
                if cur.len() >= 2 {
                    assert(cur[1] == v@[i + 1]);
                }
            }
            return None;
        }
    }
    proof {
        assert(s.subrange(to - from, s.len() as int) =~= Seq::<char>::empty());
        assert(out@ + Seq::<char>::empty() =~= out@);
    }
    Some(out)
}

/// Whether a sheet name must be written between quotes.
pub fn sheet_name_must_be_quoted(sheet_name: &str) -> (r: bool)
    ensures
        r == must_be_quoted(sheet_name@),
{
    let v = chars_of(sheet_name);
    if v.len() > 0 && v[0] >= '0' && v[0] <= '9' {
        return true;
    }
    let mut i: usize = 0;
    while i < v.len()
        invariant
            i <= v.len(),
            v@ == sheet_name@,
            forall|j: int| 0 <= j < i ==> !needs_quotes(#[trigger] v@[j]),
        decreases v.len() - i,
    {
        if is_whitespace(v[i]) || is_ascii_punctuation(v[i]) {
            assert(needs_quotes(sheet_name@[i as int]));
            return true;
        }
        i += 1;
    }
    false
}

/// The sheet name as it is written in front of a reference: between quotes
/// if it must be, with every single quote in it written twice, and as it is
/// otherwise.
pub fn quote_sheet_name(sheet_name: &str) -> (r: String)
    ensures
        r@ == quoted(sheet_name@),
{
    if !sheet_name_must_be_quoted(sheet_name) {
        return sheet_name.to_owned();
    }
    let v = chars_of(sheet_name);
    let mut out = String::new();
    out.push('\'');
    let mut i: usize = 0;
    proof {
        assert(v@.subrange(0, v.len() as int) =~= v@);
        assert(out@ =~= seq!['\'']);
    }
    while i < v.len()
        invariant
            i <= v.len(),
            out@ + escaped(v@.subrange(i as int, v.len() as int)) == seq!['\''] + escaped(v@),
        decreases v.len() - i,
    {
        let ghost cur = v@.subrange(i as int, v.len() as int);
        let ghost before = out@;
        let c = v[i];
        assert(cur[0] == c);
        assert(cur.drop_first() =~= v@.subrange(i + 1, v.len() as int));
        if c == '\'' {
            out.push('\'');
            out.push('\'');
            assert(out@ + escaped(cur.drop_first()) =~= before + (seq!['\'', '\''] + escaped(
                cur.drop_first(),
            )));
        } else {
            out.push(c);
            assert(out@ + escaped(cur.drop_first()) =~= before + (seq![c] + escaped(
                cur.drop_first(),
            )));
        }
        i += 1;
    }
    proof {
        assert(v@.subrange(v.len() as int, v.len() as int) =~= Seq::<char>::empty());
        assert(out@ + Seq::<char>::empty() =~= out@);
        assert(v@.subrange(0, v.len() as int) =~= v@);
    }
    out.push('\'');
    out
}

/// Cuts the sheet name off the front of a reference text. Without a `!` the
/// text gives no name and is handed back whole.
pub fn parse_optional_sheet_name(a1: &str) -> (r: Result<(Option<String>, &str), A1Error>)
    ensures
        sheet_name_outcome(r) == parse_sheet_name_text(a1@),
{
    let v = chars_of(a1);
    let k = match find_last(&v, '!') {
        Some(k) => k,
        None => {
            return Ok((None, a1));
        },
    };
    let rest = a1.substring_char(k + 1, v.len());
    let ghost left = v@.subrange(0, k as int);
    if k >= 2 && v[0] == '\'' && v[k - 1] == '\'' {
        assert(left[0] == v@[0] && left.last() == v@[k - 1]);
        assert(left.subrange(1, left.len() - 1) =~= v@.subrange(1, k - 1));
        match unescape(&v, 1, k - 1) {
            Some(name) => Ok((Some(name), rest)),
            None => Err(A1Error::MismatchedQuotes(string_of(&v, 0, k))),
        }
    } else {
        proof {
            if left.len() >= 2 {
                assert(left[0] == v@[0] && left.last() == v@[k - 1]);
            }
        }
        if holds_char(&v, 0, k, ' ') || holds_char(&v, 0, k, '!') {
            Err(A1Error::InvalidSheetNameMissingQuotes(string_of(&v, 0, k)))
        } else if holds_char(&v, 0, k, '\'') {
            Err(A1Error::MismatchedQuotes(string_of(&v, 0, k)))
        } else {
            Ok((Some(string_of(&v, 0, k)), rest))
        }
    }
}

/// One sheet of a [`SheetNameIdMap`].
struct SheetNameEntry {
    folded: String,
    name: String,
    id: SheetId,
}

/// The entries as a map from folded name to name and sheet, filled in the
/// order of the entries.
spec fn entries_map(es: Seq<SheetNameEntry>) -> Map<Seq<char>, (Seq<char>, SheetId)>
    decreases es.len(),
{
    if es.len() == 0 {
        Map::empty()
    } else {
        entries_map(es.drop_last()).insert(es.last().folded@, (es.last().name@, es.last().id))
    }
}

/// The entry at `i` goes by the folded name `key`, and none behind it does.
spec fn last_with_key(es: Seq<SheetNameEntry>, key: Seq<char>, i: int) -> bool {
    &&& 0 <= i < es.len()
    &&& es[i].folded@ == key
    &&& forall|j: int| i < j < es.len() ==> (#[trigger] es[j]).folded@ != key
}

proof fn lemma_entry_found(es: Seq<SheetNameEntry>, key: Seq<char>, i: int)
    requires
        last_with_key(es, key, i),
    ensures
        entries_map(es).contains_key(key),
        entries_map(es)[key] == (es[i].name@, es[i].id),
    decreases es.len(),
{
    if i < es.len() - 1 {
        let front = es.drop_last();
        assert(es[es.len() - 1].folded@ != key);
        assert forall|j: int| i < j < front.len() implies (#[trigger] front[j]).folded@ != key by {
            assert(front[j] == es[j]);
        }
        lemma_entry_found(front, key, i);
    }
}

proof fn lemma_entry_absent(es: Seq<SheetNameEntry>, key: Seq<char>)
    requires
        forall|j: int| 0 <= j < es.len() ==> (#[trigger] es[j]).folded@ != key,
    ensures
        !entries_map(es).contains_key(key),
    decreases es.len(),
{
    if es.len() > 0 {
        let front = es.drop_last();
        assert(es[es.len() - 1].folded@ != key);
        assert forall|j: int| 0 <= j < front.len() implies (#[trigger] front[j]).folded@ != key by {
            assert(front[j] == es[j]);
        }
        lemma_entry_absent(front, key);
    }
}

proof fn lemma_entry_added(es: Seq<SheetNameEntry>, e: SheetNameEntry)
    ensures
        entries_map(es.push(e)) == entries_map(es).insert(e.folded@, (e.name@, e.id)),
{
    assert(es.push(e).drop_last() =~= es);
}

proof fn lemma_entry_replaced(es: Seq<SheetNameEntry>, at: int, e: SheetNameEntry)
    requires
        last_with_key(es, e.folded@, at),
    ensures
        entries_map(es.update(at, e)) == entries_map(es).insert(e.folded@, (e.name@, e.id)),
    decreases es.len(),
{
    let es2 = es.update(at, e);
    let front = es.drop_last();
    if at == es.len() - 1 {
        assert(es2.drop_last() =~= front);
        assert(entries_map(es2) =~= entries_map(es).insert(e.folded@, (e.name@, e.id)));
    } else {
        assert(es[es.len() - 1].folded@ != e.folded@);
        assert forall|j: int| at < j < front.len() implies (#[trigger] front[j]).folded@
            != e.folded@ by {
            assert(front[j] == es[j]);
        }
        lemma_entry_replaced(front, at, e);
        assert(es2.drop_last() =~= front.update(at, e));
        assert(es2.last() == es.last());
        assert(entries_map(es2) =~= entries_map(es).insert(e.folded@, (e.name@, e.id)));
    }
}

/// The sheets of a file by name.
///
/// Names are kept under their folded form, the name in lower case, so that a
/// sheet is found whatever the case in which its name is written. Two names
/// with the same folded form are one name here: the sheet that is put in
/// last under it is the one that stays.
pub struct SheetNameIdMap {
    entries: Vec<SheetNameEntry>,
}

impl View for SheetNameIdMap {
    type V = Map<Seq<char>, (Seq<char>, SheetId)>;

    /// From the folded name of each sheet to its name as given and its
    /// identifier.
    closed spec fn view(&self) -> Map<Seq<char>, (Seq<char>, SheetId)> {
        entries_map(self.entries@)
    }
}

impl SheetNameIdMap {
    /// A map without sheets.
    pub fn new() -> (map: SheetNameIdMap)
        ensures
            map@ == Map::<Seq<char>, (Seq<char>, SheetId)>::empty(),
    {
        let map = SheetNameIdMap { entries: Vec::new() };
        assert(map@ =~= Map::<Seq<char>, (Seq<char>, SheetId)>::empty());
        map
    }

    /// The place of the last entry that goes by the folded name `folded`.
    fn position(&self, folded: &String) -> (r: Option<usize>)
        ensures
            match r {
                Some(i) => last_with_key(self.entries@, folded@, i as int),
                None => forall|j: int|
                    0 <= j < self.entries.len() ==> (#[trigger] self.entries@[j]).folded@
                        != folded@,
            },
    {
        let mut i: usize = self.entries.len();
        while i > 0
            invariant
                i <= self.entries.len(),
                forall|j: int|
                    i <= j < self.entries.len() ==> (#[trigger] self.entries@[j]).folded@
                        != folded@,
            decreases i,
        {
            i -= 1;
            if self.entries[i].folded == *folded {
                return Some(i);
            }
        }
        None
    }

    /// Puts the sheet `id` in the map under the folded name `folded`, with
    /// `name` as the name it was given by. Returns the sheet that went by
    /// that folded name before, if there was one.
    pub fn insert_folded(&mut self, folded: String, name: String, id: SheetId) -> (r: Option<
        SheetId,
    >)
        ensures
            final(self)@ == old(self)@.insert(folded@, (name@, id)),
            r == if old(self)@.contains_key(folded@) {
                Some(old(self)@[folded@].1)
            } else {
                None::<SheetId>
            },
    {
        let entry = SheetNameEntry { folded, name, id };
        match self.position(&entry.folded) {
            Some(i) => {
                proof {
                    lemma_entry_found(self.entries@, entry.folded@, i as int);
                    lemma_entry_replaced(self.entries@, i as int, entry);
                }
                let before = self.entries[i].id;
                self.entries.set(i, entry);
                Some(before)
            },
            None => {
                proof {
                    lemma_entry_absent(self.entries@, entry.folded@);
                    lemma_entry_added(self.entries@, entry);
                }
                self.entries.push(entry);
                None
            },
        }
    }

    /// Puts the sheet `id` in the map under `name`. Returns the sheet that
    /// went by that name before, in whatever case it was written, if there
    /// was one.
    pub fn insert(&mut self, name: String, id: SheetId) -> (r: Option<SheetId>)
        ensures
            final(self)@ == old(self)@.insert(lowercase(name@), (name@, id)),
            r == if old(self)@.contains_key(lowercase(name@)) {
                Some(old(self)@[lowercase(name@)].1)
            } else {
                None::<SheetId>
            },
    {
        let folded = case_fold(name.as_str());
        self.insert_folded(folded, name, id)
    }

    /// The sheet that goes by the folded name `folded`.
    pub fn get_folded(&self, folded: &str) -> (r: Option<SheetId>)
        ensures
            r == if self@.contains_key(folded@) {
                Some(self@[folded@].1)
            } else {
                None::<SheetId>
            },
    {
        let key = folded.to_owned();
        match self.position(&key) {
            Some(i) => {
                proof {
                    lemma_entry_found(self.entries@, key@, i as int);
                }
                Some(self.entries[i].id)
            },
            None => {
                proof {
                    lemma_entry_absent(self.entries@, key@);
                }
                None
            },
        }
    }

    /// The sheet that goes by `name`, in whatever case it is written.
    pub fn get(&self, name: &str) -> (r: Option<SheetId>)
        ensures
            r == if self@.contains_key(lowercase(name@)) {
                Some(self@[lowercase(name@)].1)
            } else {
                None::<SheetId>
            },
    {
        let folded = case_fold(name);
        self.get_folded(folded.as_str())
    }
}

/// The sheet that a reference text names, and the text that is left.
///
/// A text without a sheet name stands for `default_sheet`. A name stands for
/// the sheet that goes by it in `sheets`, in whatever case it is written.
pub open spec fn resolve_sheet_name_text(
    s: Seq<char>,
    default_sheet: SheetId,
    sheets: Map<Seq<char>, (Seq<char>, SheetId)>,
) -> Result<(SheetId, Seq<char>), A1ErrorView> {
    match parse_sheet_name_text(s) {
        Ok((None, rest)) => Ok((default_sheet, rest)),
        Ok((Some(name), rest)) => if sheets.contains_key(lowercase(name)) {
            Ok((sheets[lowercase(name)].1, rest))
        } else {
            Err(A1ErrorView::InvalidSheetName(name))
        },
        Err(e) => Err(e),
    }
}

/// The outcome of resolving a sheet name, as plain values.
pub open spec fn sheet_id_outcome(r: Result<(SheetId, &str), A1Error>) -> Result<
    (SheetId, Seq<char>),
    A1ErrorView,
> {
    match r {
        Ok((id, rest)) => Ok((id, rest@)),
        Err(e) => Err(e@),
    }
}

/// Cuts the sheet name off the front of a reference text and finds the sheet
/// that goes by it. A text without a sheet name stands for `default_sheet_id`.
pub fn parse_optional_sheet_name_to_id<'a>(
    a1: &'a str,
    default_sheet_id: &SheetId,
    sheet_map: &SheetNameIdMap,
) -> (r: Result<(SheetId, &'a str), A1Error>)
    ensures
        sheet_id_outcome(r) == resolve_sheet_name_text(a1@, *default_sheet_id, sheet_map@),
{
    match parse_optional_sheet_name(a1) {
        Ok((Some(name), rest)) => match sheet_map.get(name.as_str()) {
            Some(id) => Ok((id, rest)),
            None => Err(A1Error::InvalidSheetName(name)),
        },
        Ok((None, rest)) => Ok((*default_sheet_id, rest)),
        Err(e) => Err(e),
    }
}

} // verus!
