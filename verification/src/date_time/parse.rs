//! Reading dates and times of day in the forms in which users type them.

use vstd::prelude::*;
use chrono::{Datelike, Timelike};
use crate::date_time::time_of_day::{Date, Time};
use crate::util::{case_fold, chars_of, is_whitespace, lowercase, whitespace};

verus! {

/// The date that `chrono::NaiveDate::parse_from_str` reads from `value` with
/// the strftime format `format`, if it reads one.
pub uninterp spec fn date_parsed(value: Seq<char>, format: Seq<char>) -> Option<Date>;

/// The time of day that `chrono::NaiveTime::parse_from_str` reads from
/// `value` with the strftime format `format`, if it reads one.
pub uninterp spec fn time_parsed(value: Seq<char>, format: Seq<char>) -> Option<Time>;

/// `chrono::NaiveDate::parse_from_str`: the date that the text stands for
/// under the format, given by its year, month and day, or `None` where the
/// call fails. The outcome depends on the two texts alone.
#[verifier::external_body]
fn date_from_str(value: &str, format: &str) -> (r: Option<Date>)
    ensures
        r == date_parsed(value@, format@),
{
    let date = chrono::NaiveDate::parse_from_str(value, format).ok()?;
    Some(Date { year: date.year(), month: date.month(), day: date.day() })
}

/// `chrono::NaiveTime::parse_from_str`: the time of day that the text stands
/// for under the format, given by its hour, minute, second and nanosecond, or
/// `None` where the call fails. The outcome depends on the two texts alone.
/// The hour of a time of day is below 24, its minute and its second below 60.
#[verifier::external_body]
fn time_from_str(value: &str, format: &str) -> (r: Option<Time>)
    ensures
        r == time_parsed(value@, format@),
        r is Some ==> r->0.wf(),
{
    let time = chrono::NaiveTime::parse_from_str(value, format).ok()?;
    Some(
        Time {
            hour: time.hour(),
            minute: time.minute(),
            second: time.second(),
            nanosecond: time.nanosecond(),
        },
    )
}

/// The formats in which a date is looked for, in the order in which they are
/// tried.
pub open spec fn date_formats() -> Seq<Seq<char>> {
    seq![
        "%Y-%m-%d"@,
        "%m-%d-%Y"@,
        "%d-%m-%Y"@,
        "%Y/%m/%d"@,
        "%m/%d/%Y"@,
        "%d/%m/%Y"@,
        "%Y.%m.%d"@,
        "%m.%d.%Y"@,
        "%d.%m.%Y"@,
        "%Y %m %d"@,
        "%m %d %Y"@,
        "%d %m %Y"@,
        "%Y %b %d"@,
        "%b %d %Y"@,
        "%d %b %Y"@,
        "%Y %B %d"@,
        "%B %d %Y"@,
        "%d %B %Y"@,
        "%b %d, %Y"@,
        "%B %d, %Y"@,
        "%d %b"@,
        "%d %B"@,
        "%b %d"@,
        "%B %d"@,
    ]
}

/// The formats in which a time of day is looked for, in the order in which
/// they are tried.
pub open spec fn time_formats() -> Seq<Seq<char>> {
    seq![
        "%H:%M:%S"@,
        "%I:%M:%S %p"@,
        "%I:%M:%S%p"@,
        "%I:%M %p"@,
        "%I:%M%p"@,
        "%H:%M"@,
        "%I:%M:%S"@,
        "%I:%M"@,
        "%H:%M:%S%.3f"@,
    ]
}

/// The texts of `formats` as plain values.
pub open spec fn format_texts(formats: Seq<&'static str>) -> Seq<Seq<char>> {
    formats.map(|i: int, f: &'static str| f@)
}

/// The formats in which a date is looked for.
fn date_format_list() -> (formats: Vec<&'static str>)
    ensures
        format_texts(formats@) == date_formats(),
{
    let formats = vec![
        "%Y-%m-%d",
        "%m-%d-%Y",
        "%d-%m-%Y",
        "%Y/%m/%d",
        "%m/%d/%Y",
        "%d/%m/%Y",
        "%Y.%m.%d",
        "%m.%d.%Y",
        "%d.%m.%Y",
        "%Y %m %d",
        "%m %d %Y",
        "%d %m %Y",
        "%Y %b %d",
        "%b %d %Y",
        "%d %b %Y",
        "%Y %B %d",
        "%B %d %Y",
        "%d %B %Y",
        "%b %d, %Y",
        "%B %d, %Y",
        "%d %b",
        "%d %B",
        "%b %d",
        "%B %d",
    ];
    assert(format_texts(formats@) =~= date_formats());
    formats
}

/// The formats in which a time of day is looked for.
fn time_format_list() -> (formats: Vec<&'static str>)
    ensures
        format_texts(formats@) == time_formats(),
{
    let formats = vec![
        "%H:%M:%S",
        "%I:%M:%S %p",
        "%I:%M:%S%p",
        "%I:%M %p",
        "%I:%M%p",
        "%H:%M",
        "%I:%M:%S",
        "%I:%M",
        "%H:%M:%S%.3f",
    ];
    assert(format_texts(formats@) =~= time_formats());
    formats
}

/// The date that the first of `formats` to read one from `value` reads.
pub open spec fn first_date_parsed(value: Seq<char>, formats: Seq<Seq<char>>) -> Option<Date>
    decreases formats.len(),
{
    if formats.len() == 0 {
        None
    } else if date_parsed(value, formats[0]) is Some {
        date_parsed(value, formats[0])
    } else {
        first_date_parsed(value, formats.drop_first())
    }
}

/// The time of day that the first of `formats` to read one reads: each
/// format is tried on `value` and then, where there is one, on `other`.
pub open spec fn first_time_parsed(
    value: Seq<char>,
    other: Option<Seq<char>>,
    formats: Seq<Seq<char>>,
) -> Option<Time>
    decreases formats.len(),
{
    if formats.len() == 0 {
        None
    } else if time_parsed(value, formats[0]) is Some {
        time_parsed(value, formats[0])
    } else if other is Some && time_parsed(other->0, formats[0]) is Some {
        time_parsed(other->0, formats[0])
    } else {
        first_time_parsed(value, other, formats.drop_first())
    }
}

/// `a` stands in `s` with `b` right behind it.
pub open spec fn has_pair(s: Seq<char>, a: char, b: char) -> bool {
    exists|i: int| 0 <= i < s.len() - 1 && #[trigger] s[i] == a && s[i + 1] == b
}

/// The text without the pairs of `a` and `b` in it, found from left to
/// right.
pub open spec fn without_pair(s: Seq<char>, a: char, b: char) -> Seq<char>
    decreases s.len(),
{
    if s.len() == 0 {
        s
    } else if s.len() >= 2 && s[0] == a && s[1] == b {
        without_pair(s.subrange(2, s.len() as int), a, b)
    } else {
        seq![s[0]] + without_pair(s.drop_first(), a, b)
    }
}

/// Where the white space that starts at `i` ends.
pub open spec fn leading_end(s: Seq<char>, i: int) -> int
    decreases s.len() - i,
{
    if 0 <= i < s.len() && whitespace(s[i]) {
        leading_end(s, i + 1)
    } else {
        i
    }
}

/// Where the white space that ends just before `j` starts.
pub open spec fn trailing_start(s: Seq<char>, j: int) -> int
    decreases j,
{
    if 0 < j <= s.len() && whitespace(s[j - 1]) {
        trailing_start(s, j - 1)
    } else {
        j
    }
}

/// The text without the white space at its start and at its end.
pub open spec fn trimmed(s: Seq<char>) -> Seq<char> {
    let from = leading_end(s, 0);
    let to = trailing_start(s, s.len() as int);
    if from < to {
        s.subrange(from, to)
    } else {
        Seq::empty()
    }
}

/// A time that is written without minutes, such as `4pm` for `4:00 PM`, in
/// full: the text without its `pm` or `am` and without the white space
/// around what is left, then `:00 PM` or `:00 AM`. `None` where the text,
/// which is taken to be in lower case, holds neither `pm` nor `am`.
pub open spec fn am_pm_text(lower: Seq<char>) -> Option<Seq<char>> {
    if has_pair(lower, 'p', 'm') {
        Some(trimmed(without_pair(lower, 'p', 'm')) + seq![':', '0', '0', ' ', 'P', 'M'])
    } else if has_pair(lower, 'a', 'm') {
        Some(trimmed(without_pair(lower, 'a', 'm')) + seq![':', '0', '0', ' ', 'A', 'M'])
    } else {
        None
    }
}

/// Whether `a` stands in `v` with `b` right behind it.
fn holds_pair(v: &Vec<char>, a: char, b: char) -> (r: bool)
    ensures
        r == has_pair(v@, a, b),
{
    let mut i: usize = 0;
    while i < v.len()
        invariant
            i <= v.len(),
            forall|j: int|
                0 <= j < i && j < v.len() - 1 ==> !(#[trigger] v@[j] == a && v@[j + 1] == b),
        decreases v.len() - i,
    {
        if i + 1 < v.len() && v[i] == a && v[i + 1] == b {
            return true;
        }
        i += 1;
    }
    false
}

/// The characters of `v` without the pairs of `a` and `b`.
fn drop_pairs(v: &Vec<char>, a: char, b: char) -> (w: Vec<char>)
    ensures
        w@ == without_pair(v@, a, b),
{
    let mut w: Vec<char> = Vec::new();
    let mut i: usize = 0;
    proof {
        assert(v@.subrange(0, v.len() as int) =~= v@);
        assert(w@ + without_pair(v@, a, b) =~= without_pair(v@, a, b));
    }
    while i < v.len()
        invariant
            i <= v.len(),
            w@ + without_pair(v@.subrange(i as int, v.len() as int), a, b) == without_pair(
                v@,
                a,
                b,
            ),
        decreases v.len() - i,
    {
        let ghost cur = v@.subrange(i as int, v.len() as int);
        let ghost before = w@;
        assert(cur[0] == v@[i as int]);
        if i + 1 < v.len() && v[i] == a && v[i + 1] == b {
            proof {
                assert(cur[1] == v@[i + 1]);
                assert(cur.subrange(2, cur.len() as int) =~= v@.subrange(i + 2, v.len() as int));
            }
            i += 2;
        } else {
            proof {
                if cur.len() >= 2 {
                    assert(cur[1] == v@[i + 1]);
                }
                assert(cur.drop_first() =~= v@.subrange(i + 1, v.len() as int));
                assert(before.push(cur[0]) + without_pair(cur.drop_first(), a, b) =~= before + (
                seq![cur[0]] + without_pair(cur.drop_first(), a, b)));
            }
            w.push(v[i]);
            i += 1;
        }
    }
    proof {
        assert(v@.subrange(v.len() as int, v.len() as int) =~= Seq::<char>::empty());
        assert(w@ + Seq::<char>::empty() =~= w@);
    }
    w
}

/// Appends to `out` the characters of `v` without the white space at its
/// start and at its end.
fn push_trimmed(out: &mut String, v: &Vec<char>)
    ensures
        final(out)@ == old(out)@ + trimmed(v@),
{
    let mut from: usize = 0;
    while from < v.len() && is_whitespace(v[from])
        invariant
            from <= v.len(),
            leading_end(v@, 0) == leading_end(v@, from as int),
        decreases v.len() - from,
    {
        from += 1;
    }
    let mut to: usize = v.len();
    while to > 0 && is_whitespace(v[to - 1])
        invariant
            to <= v.len(),
            trailing_start(v@, v.len() as int) == trailing_start(v@, to as int),
        decreases to,
    {
        to -= 1;
    }
    proof {
        assert(out@ + Seq::<char>::empty() =~= out@);
    }
    if from >= to {
        return ;
    }
    let mut i: usize = from;
    proof {
        assert(v@.subrange(from as int, from as int) =~= Seq::<char>::empty());
    }
    while i < to
        invariant
            from <= i <= to <= v.len(),
            out@ == old(out)@ + v@.subrange(from as int, i as int),
        decreases to - i,
    {
        out.push(v[i]);
        i += 1;
        assert(out@ =~= old(out)@ + v@.subrange(from as int, i as int));
    }
}

/// A time written without minutes, such as `4pm`, in full: `4:00 PM`. The
/// text is taken to be in lower case already; `None` where it holds neither
/// `pm` nor `am`.
pub fn am_pm_time_text(lower: &str) -> (r: Option<String>)
    ensures
        match am_pm_text(lower@) {
            Some(text) => r is Some && r->0@ == text,
            None => r is None,
        },
{
    let v = chars_of(lower);
    let pm = holds_pair(&v, 'p', 'm');
    if !pm && !holds_pair(&v, 'a', 'm') {
        return None;
    }
    let rest = if pm {
        drop_pairs(&v, 'p', 'm')
    } else {
        drop_pairs(&v, 'a', 'm')
    };
    let mut out = String::new();
    push_trimmed(&mut out, &rest);
    let ghost head = out@;
    assert(head =~= trimmed(rest@));
    out.push(':');
    out.push('0');
    out.push('0');
    out.push(' ');
    out.push(if pm {
        'P'
    } else {
        'A'
    });
    out.push('M');
    proof {
        if pm {
            assert(out@ =~= head + seq![':', '0', '0', ' ', 'P', 'M']);
        } else {
            assert(out@ =~= head + seq![':', '0', '0', ' ', 'A', 'M']);
        }
    }
    Some(out)
}

/// The date that `value` stands for in the first of the formats of
/// [`date_formats`] that reads one from it.
pub fn parse_date(value: &str) -> (r: Option<Date>)
    ensures
        r == first_date_parsed(value@, date_formats()),
{
    let formats = date_format_list();
    let ghost all = format_texts(formats@);
    let mut i: usize = 0;
    proof {
        assert(all.subrange(0, all.len() as int) =~= all);
    }
    while i < formats.len()
        invariant
            i <= formats.len(),
            all == format_texts(formats@),
            all == date_formats(),
            first_date_parsed(value@, all) == first_date_parsed(
                value@,
                all.subrange(i as int, all.len() as int),
            ),
        decreases formats.len() - i,
    {
        let ghost cur = all.subrange(i as int, all.len() as int);
        proof {
            assert(cur[0] == formats@[i as int]@);
            assert(cur.drop_first() =~= all.subrange(i + 1, all.len() as int));
        }
        match date_from_str(value, formats[i]) {
            Some(date) => {
                return Some(date);
            },
            None => {},
        }
        i += 1;
    }
    None
}

/// The time of day that `value` stands for in the first of the formats of
/// [`time_formats`] that reads one. A text with `am` or `pm` in it, in
/// whatever case, is tried a second time under each format with its minutes
/// filled in, as [`am_pm_text`] writes it.
pub fn parse_time(value: &str) -> (r: Option<Time>)
    ensures
        r == first_time_parsed(value@, am_pm_text(lowercase(value@)), time_formats()),
        r is Some ==> r->0.wf(),
{
    let lower = case_fold(value);
    let other = am_pm_time_text(lower.as_str());
    let ghost other_text = am_pm_text(lowercase(value@));
    let formats = time_format_list();
    let ghost all = format_texts(formats@);
    let mut i: usize = 0;
    proof {
        assert(all.subrange(0, all.len() as int) =~= all);
    }
    while i < formats.len()
        invariant
            i <= formats.len(),
            all == format_texts(formats@),
            all == time_formats(),
            other_text == am_pm_text(lowercase(value@)),
            other_text is Some == other is Some,
            other is Some ==> other->0@ == other_text->0,
            first_time_parsed(value@, other_text, all) == first_time_parsed(
                value@,
                other_text,
                all.subrange(i as int, all.len() as int),
            ),
        decreases formats.len() - i,
    {
        let ghost cur = all.subrange(i as int, all.len() as int);
        proof {
            assert(cur[0] == formats@[i as int]@);
            assert(cur.drop_first() =~= all.subrange(i + 1, all.len() as int));
        }
        match time_from_str(value, formats[i]) {
            Some(time) => {
                return Some(time);
            },
            None => {},
        }
        match &other {
            Some(text) => match time_from_str(text.as_str(), formats[i]) {
                Some(time) => {
                    return Some(time);
                },
                None => {},
            },
            None => {},
        }
        i += 1;
    }
    None
}

} // verus!
