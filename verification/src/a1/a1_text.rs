//! Characters and numerals of the reference grammar: column letters in
//! bijective base 26, row numbers in decimal, and runs of either in a text.

use vstd::prelude::*;
use crate::util::chars_of;

verus! {

/// `c` is one of `A` to `Z`.
pub open spec fn ascii_upper(c: char) -> bool {
    'A' <= c && c <= 'Z'
}

/// `c` is one of `a` to `z`.
pub open spec fn ascii_lower(c: char) -> bool {
    'a' <= c && c <= 'z'
}

/// `c` is an ASCII letter of either case.
pub open spec fn ascii_letter(c: char) -> bool {
    ascii_upper(c) || ascii_lower(c)
}

/// `c` is one of `0` to `9`.
pub open spec fn ascii_digit(c: char) -> bool {
    '0' <= c && c <= '9'
}

/// The place of a letter in the alphabet, from 1 for `A` or `a` to 26 for `Z`
/// or `z`; 0 for any other character.
pub open spec fn letter_value(c: char) -> int {
    if ascii_upper(c) {
        c as int - 'A' as int + 1
    } else if ascii_lower(c) {
        c as int - 'a' as int + 1
    } else {
        0
    }
}

/// The value of a decimal digit; meaningful for `0` to `9` only.
pub open spec fn digit_value(c: char) -> int {
    c as int - '0' as int
}

/// The upper-case letter at place `v` of the alphabet, for `v` from 1 to 26.
pub open spec fn letter_char(v: int) -> char {
    (64 + v) as u8 as char
}

/// The digit that stands for `d`, for `d` from 0 to 9.
pub open spec fn digit_char(d: int) -> char {
    (48 + d) as u8 as char
}

/// Whether `c` belongs to a run: of digits if `digits`, of letters otherwise.
pub open spec fn in_run(c: char, digits: bool) -> bool {
    if digits {
        ascii_digit(c)
    } else {
        ascii_letter(c)
    }
}

/// The letters that name column `n`: `A` is 1, `Z` is 26, `AA` is 27. Empty
/// for `n` below 1.
pub open spec fn column_letters(n: int) -> Seq<char>
    decreases n,
{
    if n <= 0 {
        Seq::empty()
    } else {
        column_letters((n - 1) / 26).push(letter_char((n - 1) % 26 + 1))
    }
}

/// The number that the letters `s` name, read in bijective base 26.
pub open spec fn column_value(s: Seq<char>) -> int
    decreases s.len(),
{
    if s.len() == 0 {
        0
    } else {
        column_value(s.drop_last()) * 26 + letter_value(s.last())
    }
}

/// The decimal numeral of `n`, without leading zeros, for `n` from 0 up.
pub open spec fn decimal(n: int) -> Seq<char>
    decreases n,
{
    if n < 10 {
        seq![digit_char(n)]
    } else {
        decimal(n / 10).push(digit_char(n % 10))
    }
}

/// The decimal numeral of any integer: a minus sign before the numeral of the
/// magnitude where `n` is negative.
pub open spec fn signed_decimal(n: int) -> Seq<char> {
    if n < 0 {
        seq!['-'] + decimal(-n)
    } else {
        decimal(n)
    }
}

/// The number that the digits `s` stand for; leading zeros count for nothing.
pub open spec fn decimal_value(s: Seq<char>) -> int
    decreases s.len(),
{
    if s.len() == 0 {
        0
    } else {
        decimal_value(s.drop_last()) * 10 + digit_value(s.last())
    }
}

/// Where the run that starts at `i` ends: the first index from `i` on whose
/// character is not in the run, or the length of `s`.
pub open spec fn run_end(s: Seq<char>, i: int, digits: bool) -> int
    decreases s.len() - i,
{
    if 0 <= i < s.len() && in_run(s[i], digits) {
        run_end(s, i + 1, digits)
    } else {
        i
    }
}

/// Every character of `s` is in the run.
pub open spec fn all_in_run(s: Seq<char>, digits: bool) -> bool {
    forall|k: int| 0 <= k < s.len() ==> in_run(#[trigger] s[k], digits)
}

/// The first index at which `c` stands in `s`, or the length of `s` where it
/// does not occur.
pub open spec fn first_index_of(s: Seq<char>, c: char) -> int
    decreases s.len(),
{
    if s.len() == 0 {
        0
    } else if s[0] == c {
        0
    } else {
        1 + first_index_of(s.drop_first(), c)
    }
}

/// The last index at which `c` stands in `s`, or -1 where it does not occur.
pub open spec fn last_index_of(s: Seq<char>, c: char) -> int
    decreases s.len(),
{
    if s.len() == 0 {
        -1
    } else if s.last() == c {
        s.len() - 1
    } else {
        last_index_of(s.drop_last(), c)
    }
}

/// The first index of `c` lies within the text or at its end; `c` stands
/// at it, where it lies within, and nowhere before it.
pub proof fn lemma_first_index_of(s: Seq<char>, c: char)
    ensures
        0 <= first_index_of(s, c) <= s.len(),
        forall|k: int| 0 <= k < first_index_of(s, c) ==> s[k] != c,
        first_index_of(s, c) < s.len() ==> s[first_index_of(s, c)] == c,
    decreases s.len(),
{
    if s.len() > 0 && s[0] != c {
        let t = s.drop_first();
        lemma_first_index_of(t, c);
        assert forall|k: int| 0 <= k < first_index_of(s, c) implies s[k] != c by {
            if k > 0 {
                assert(s[k] == t[k - 1]);
            }
        }
    }
}

/// An index that holds `c` behind a stretch that does not is the first one.
pub proof fn lemma_first_index_is(s: Seq<char>, c: char, i: int)
    requires
        0 <= i <= s.len(),
        forall|k: int| 0 <= k < i ==> s[k] != c,
        i < s.len() ==> s[i] == c,
    ensures
        first_index_of(s, c) == i,
{
    lemma_first_index_of(s, c);
}

/// The last index of `c` lies within the text or is -1; `c` stands at it,
/// where it lies within, and nowhere behind it.
pub proof fn lemma_last_index_of(s: Seq<char>, c: char)
    ensures
        -1 <= last_index_of(s, c) < s.len(),
        forall|k: int| last_index_of(s, c) < k < s.len() ==> s[k] != c,
        0 <= last_index_of(s, c) ==> s[last_index_of(s, c)] == c,
    decreases s.len(),
{
    if s.len() > 0 && s.last() != c {
        let t = s.drop_last();
        lemma_last_index_of(t, c);
        assert forall|k: int| last_index_of(s, c) < k < s.len() implies s[k] != c by {
            if k < s.len() - 1 {
                assert(s[k] == t[k]);
            }
        }
    }
}

/// An index that holds `c` before a stretch that does not is the last one.
pub proof fn lemma_last_index_is(s: Seq<char>, c: char, i: int)
    requires
        -1 <= i < s.len(),
        forall|k: int| i < k < s.len() ==> s[k] != c,
        0 <= i ==> s[i] == c,
    ensures
        last_index_of(s, c) == i,
{
    lemma_last_index_of(s, c);
}

/// A run ends at or behind its start and within the text; every character
/// up to its end is in the run, and the one at its end is not.
pub proof fn lemma_run_end_bounds(s: Seq<char>, i: int, digits: bool)
    requires
        0 <= i <= s.len(),
    ensures
        i <= run_end(s, i, digits) <= s.len(),
        forall|k: int| i <= k < run_end(s, i, digits) ==> in_run(#[trigger] s[k], digits),
        run_end(s, i, digits) < s.len() ==> !in_run(s[run_end(s, i, digits)], digits),
    decreases s.len() - i,
{
    if i < s.len() && in_run(s[i], digits) {
        lemma_run_end_bounds(s, i + 1, digits);
    }
}

/// A stretch of the run that is followed by the end of the text, or by a
/// character outside the run, is the whole run.
pub proof fn lemma_run_end_is(s: Seq<char>, i: int, j: int, digits: bool)
    requires
        0 <= i <= j <= s.len(),
        forall|k: int| i <= k < j ==> in_run(#[trigger] s[k], digits),
        j < s.len() ==> !in_run(s[j], digits),
    ensures
        run_end(s, i, digits) == j,
    decreases j - i,
{
    if i < j {
        lemma_run_end_is(s, i + 1, j, digits);
    }
}

/// The letter at a place of the alphabet is an upper-case letter with that
/// place as its value.
pub proof fn lemma_letter_char(v: int)
    requires
        1 <= v <= 26,
    ensures
        ascii_upper(letter_char(v)),
        letter_value(letter_char(v)) == v,
{
}

/// The digit for a number below ten is a digit with that number as its
/// value.
pub proof fn lemma_digit_char(d: int)
    requires
        0 <= d <= 9,
    ensures
        ascii_digit(digit_char(d)),
        digit_value(digit_char(d)) == d,
{
}

/// A column's name is not empty, is made of upper-case letters, and names
/// that column.
pub proof fn lemma_column_name(n: int)
    requires
        1 <= n,
    ensures
        column_letters(n).len() >= 1,
        forall|k: int| 0 <= k < column_letters(n).len() ==> ascii_upper(#[trigger] column_letters(n)[k]),
        column_value(column_letters(n)) == n,
    decreases n,
{
    let q = (n - 1) / 26;
    let r = (n - 1) % 26;
    lemma_letter_char(r + 1);
    let s = column_letters(n);
    assert(s == column_letters(q).push(letter_char(r + 1)));
    assert(s.drop_last() =~= column_letters(q));
    assert(s.last() == letter_char(r + 1));
    if q >= 1 {
        lemma_column_name(q);
    } else {
        assert(column_letters(q) =~= Seq::<char>::empty());
    }
    assert(column_value(s) == column_value(column_letters(q)) * 26 + (r + 1));
}

/// A numeral is not empty, is made of digits, and stands for its number.
pub proof fn lemma_decimal(n: int)
    requires
        0 <= n,
    ensures
        decimal(n).len() >= 1,
        forall|k: int| 0 <= k < decimal(n).len() ==> ascii_digit(#[trigger] decimal(n)[k]),
        decimal_value(decimal(n)) == n,
    decreases n,
{
    let s = decimal(n);
    if n < 10 {
        lemma_digit_char(n);
        assert(s.drop_last() =~= Seq::<char>::empty());
        assert(decimal_value(s.drop_last()) == 0);
    } else {
        lemma_digit_char(n % 10);
        lemma_decimal(n / 10);
        assert(s.drop_last() =~= decimal(n / 10));
        assert(s.last() == digit_char(n % 10));
    }
}

/// A longer run of letters names a column at least as far out: the value of
/// a prefix never exceeds the value of the whole.
pub proof fn lemma_column_value_prefix(s: Seq<char>, k: int)
    requires
        0 <= k <= s.len(),
    ensures
        0 <= column_value(s.take(k)) <= column_value(s),
    decreases s.len() - k,
{
    if k == s.len() {
        assert(s.take(k) =~= s);
        lemma_column_value_nonneg(s);
    } else {
        lemma_column_value_prefix(s.drop_last(), k);
        assert(s.drop_last().take(k) =~= s.take(k));
        lemma_column_value_nonneg(s.drop_last());
        assert(letter_value(s.last()) >= 0);
        assert(column_value(s) >= column_value(s.drop_last())) by (nonlinear_arith)
            requires
                column_value(s) == column_value(s.drop_last()) * 26 + letter_value(s.last()),
                column_value(s.drop_last()) >= 0,
                letter_value(s.last()) >= 0,
        ;
    }
}

/// No text names a column below 0.
pub proof fn lemma_column_value_nonneg(s: Seq<char>)
    ensures
        0 <= column_value(s),
    decreases s.len(),
{
    if s.len() > 0 {
        lemma_column_value_nonneg(s.drop_last());
    }
}

/// No run of digits stands for a number below 0.
pub proof fn lemma_decimal_value_nonneg(s: Seq<char>)
    requires
        all_in_run(s, true),
    ensures
        0 <= decimal_value(s),
    decreases s.len(),
{
    if s.len() > 0 {
        assert(in_run(s[s.len() - 1], true));
        assert forall|k: int| 0 <= k < s.drop_last().len() implies in_run(
            #[trigger] s.drop_last()[k],
            true,
        ) by {
            assert(s.drop_last()[k] == s[k]);
        }
        lemma_decimal_value_nonneg(s.drop_last());
    }
}

/// The value of a prefix of a run of digits never exceeds the value of the
/// whole.
pub proof fn lemma_decimal_value_prefix(s: Seq<char>, k: int)
    requires
        0 <= k <= s.len(),
        all_in_run(s, true),
    ensures
        0 <= decimal_value(s.take(k)) <= decimal_value(s),
    decreases s.len() - k,
{
    if k == s.len() {
        assert(s.take(k) =~= s);
        lemma_decimal_value_nonneg(s);
    } else {
        let t = s.drop_last();
        assert(in_run(s[s.len() - 1], true));
        assert forall|j: int| 0 <= j < t.len() implies in_run(#[trigger] t[j], true) by {
            assert(t[j] == s[j]);
        }
        lemma_decimal_value_prefix(t, k);
        assert(t.take(k) =~= s.take(k));
        lemma_decimal_value_nonneg(t);
    }
}

/// Whether `c` is an ASCII letter.
pub(crate) fn is_ascii_letter(c: char) -> (r: bool)
    ensures
        r == ascii_letter(c),
{
    (c >= 'A' && c <= 'Z') || (c >= 'a' && c <= 'z')
}

/// Whether `c` is an ASCII digit.
pub(crate) fn is_ascii_digit(c: char) -> (r: bool)
    ensures
        r == ascii_digit(c),
{
    c >= '0' && c <= '9'
}

/// Whether `c` belongs to a run: of digits if `digits`, of letters otherwise.
pub(crate) fn is_in_run(c: char, digits: bool) -> (r: bool)
    ensures
        r == in_run(c, digits),
{
    if digits {
        is_ascii_digit(c)
    } else {
        is_ascii_letter(c)
    }
}

/// The end of the run of letters or digits that starts at `i`.
pub(crate) fn scan_run(v: &Vec<char>, i: usize, digits: bool) -> (j: usize)
    requires
        i <= v.len(),
    ensures
        j == run_end(v@, i as int, digits),
        i <= j <= v.len(),
{
    let mut j: usize = i;
    while j < v.len() && is_in_run(v[j], digits)
        invariant
            i <= j <= v.len(),
            run_end(v@, i as int, digits) == run_end(v@, j as int, digits),
        decreases v.len() - j,
    {
        j += 1;
    }
    proof {
        lemma_run_end_bounds(v@, i as int, digits);
    }
    j
}

/// Appends the name of column `n` to `out`; nothing for `n` below 1.
pub(crate) fn push_column_name(out: &mut String, n: i64)
    ensures
        final(out)@ == old(out)@ + column_letters(n as int),
{
    let mut rev: Vec<char> = Vec::new();
    let mut m: i64 = n;
    while m > 0
        invariant
            column_letters(n as int) == column_letters(m as int) + rev@.reverse(),
        decreases m,
    {
        let r: i64 = (m - 1) % 26;
        let c: char = ((65 + r) as u8) as char;
        let ghost before = rev@;
        rev.push(c);
        proof {
            assert(c == letter_char(r + 1));
            assert(rev@.reverse() =~= seq![c] + before.reverse());
            assert(column_letters(m as int) == column_letters(((m - 1) / 26) as int).push(c));
            assert(column_letters(n as int) =~= column_letters(((m - 1) / 26) as int) + rev@.reverse());
        }
        m = (m - 1) / 26;
    }
    assert(column_letters(n as int) =~= rev@.reverse());
    let mut k: usize = rev.len();
    while k > 0
        invariant
            k <= rev.len(),
            out@ == old(out)@ + rev@.reverse().take(rev.len() - k),
        decreases k,
    {
        k -= 1;
        out.push(rev[k]);
        assert(out@ =~= old(out)@ + rev@.reverse().take(rev.len() - k));
    }
    assert(rev@.reverse().take(rev.len() as int) =~= rev@.reverse());
}

/// Appends the decimal numeral of `n` to `out`.
pub(crate) fn push_signed_decimal(out: &mut String, n: i64)
    ensures
        final(out)@ == old(out)@ + signed_decimal(n as int),
{
    let mut rev: Vec<char> = Vec::new();
    let mag: u64 = if n < 0 {
        out.push('-');
        (-(n + 1)) as u64 + 1
    } else {
        n as u64
    };
    let ghost head = out@;
    let mut m: u64 = mag;
    while m >= 10
        invariant
            decimal(mag as int) == decimal(m as int) + rev@.reverse(),
        decreases m,
    {
        let d: u64 = m % 10;
        let c: char = ((48 + d) as u8) as char;
        let ghost before = rev@;
        rev.push(c);
        proof {
            assert(c == digit_char(d as int));
            assert(rev@.reverse() =~= seq![c] + before.reverse());
            assert(decimal(mag as int) =~= decimal((m / 10) as int) + rev@.reverse());
        }
        m = m / 10;
    }
    let c: char = ((48 + m) as u8) as char;
    out.push(c);
    assert(c == digit_char(m as int));
    assert(decimal(mag as int) =~= seq![c] + rev@.reverse());
    let mut k: usize = rev.len();
    while k > 0
        invariant
            k <= rev.len(),
            out@ == head.push(c) + rev@.reverse().take(rev.len() - k),
        decreases k,
    {
        k -= 1;
        out.push(rev[k]);
        assert(out@ =~= head.push(c) + rev@.reverse().take(rev.len() - k));
    }
    assert(rev@.reverse().take(rev.len() as int) =~= rev@.reverse());
    assert(out@ =~= old(out)@ + signed_decimal(n as int));
}

/// The column that the letters of `v` from `from` up to `to` name, or `None`
/// where that number is `limit` or more.
pub(crate) fn read_column(v: &Vec<char>, from: usize, to: usize, limit: i64) -> (r: Option<i64>)
    requires
        from <= to <= v.len(),
        0 < limit,
    ensures
        match r {
            Some(n) => n == column_value(v@.subrange(from as int, to as int)) && 0 <= n < limit,
            None => column_value(v@.subrange(from as int, to as int)) >= limit,
        },
{
    let ghost s = v@.subrange(from as int, to as int);
    let mut acc: i64 = 0;
    let mut i: usize = from;
    while i < to
        invariant
            from <= i <= to <= v.len(),
            s == v@.subrange(from as int, to as int),
            acc == column_value(s.take(i - from)),
            0 <= acc < limit,
        decreases to - i,
    {
        let c = v[i];
        let lv: i128 = if c >= 'A' && c <= 'Z' {
            (c as u32 - 'A' as u32) as i128 + 1
        } else if c >= 'a' && c <= 'z' {
            (c as u32 - 'a' as u32) as i128 + 1
        } else {
            0
        };
        let next: i128 = (acc as i128) * 26 + lv;
        proof {
            let p = s.take(i + 1 - from);
            assert(p.drop_last() =~= s.take(i - from));
            assert(p.last() == c);
            assert(lv == letter_value(c));
            assert(next == column_value(p));
            lemma_column_value_prefix(s, i + 1 - from);
        }
        if next >= limit as i128 {
            return None;
        }
        acc = next as i64;
        i += 1;
    }
    assert(s.take(to - from) =~= s);
    Some(acc)
}

/// The number that the digits of `v` from `from` up to `to` stand for, or
/// `None` where that number is `limit` or more.
pub(crate) fn read_decimal(v: &Vec<char>, from: usize, to: usize, limit: i64) -> (r: Option<i64>)
    requires
        from <= to <= v.len(),
        0 < limit,
        all_in_run(v@.subrange(from as int, to as int), true),
    ensures
        match r {
            Some(n) => n == decimal_value(v@.subrange(from as int, to as int)) && 0 <= n < limit,
            None => decimal_value(v@.subrange(from as int, to as int)) >= limit,
        },
{
    let ghost s = v@.subrange(from as int, to as int);
    let mut acc: i64 = 0;
    let mut i: usize = from;
    while i < to
        invariant
            from <= i <= to <= v.len(),
            s == v@.subrange(from as int, to as int),
            all_in_run(s, true),
            acc == decimal_value(s.take(i - from)),
            0 <= acc < limit,
        decreases to - i,
    {
        let c = v[i];
        assert(c == s[i - from]);
        assert(in_run(s[i - from], true));
        let d: i128 = (c as u32 - '0' as u32) as i128;
        let next: i128 = (acc as i128) * 10 + d;
        proof {
            let p = s.take(i + 1 - from);
            assert(p.drop_last() =~= s.take(i - from));
            assert(p.last() == c);
            assert(next == decimal_value(p));
            lemma_decimal_value_prefix(s, i + 1 - from);
        }
        if next >= limit as i128 {
            return None;
        }
        acc = next as i64;
        i += 1;
    }
    assert(s.take(to - from) =~= s);
    Some(acc)
}

/// The column that the letters `s` name, if they name a position of the
/// sheet: `s` is a run of ASCII letters, not empty, and the number it names
/// lies below the coordinate that stands for no bound.
pub open spec fn column_of(s: Seq<char>) -> Option<int> {
    if s.len() > 0 && all_in_run(s, false) && column_value(s) < i64::MAX {
        Some(column_value(s))
    } else {
        None
    }
}

/// The name of a column names that column.
pub proof fn lemma_column_of_letters(n: int)
    requires
        1 <= n < i64::MAX,
    ensures
        column_of(column_letters(n)) == Some(n),
{
    lemma_column_name(n);
}

/// The letters that name column `column`: `A` for 1, `Z` for 26, `AA` for 27.
/// Nothing for a column below 1.
pub fn column_name(column: i64) -> (name: String)
    ensures
        name@ == column_letters(column as int),
{
    let mut name = String::new();
    push_column_name(&mut name, column);
    assert(name@ =~= column_letters(column as int));
    name
}

/// The column that `name` names, in letters of either case, or `None` where
/// it names no position of the sheet.
pub fn column_from_name(name: &str) -> (r: Option<i64>)
    ensures
        r is Some == column_of(name@) is Some,
        r is Some ==> r->0 == column_of(name@)->0,
{
    let v = chars_of(name);
    if v.len() == 0 || scan_run(&v, 0, false) != v.len() {
        proof {
            lemma_run_end_bounds(v@, 0, false);
        }
        return None;
    }
    proof {
        lemma_run_end_bounds(v@, 0, false);
        assert(v@.subrange(0, v.len() as int) =~= v@);
    }
    read_column(&v, 0, v.len(), i64::MAX)
}

} // verus!
