//! The items of a strftime format, and which of them a bare date or a bare
//! time of day leaves out.

use vstd::prelude::*;

verus! {

/// A number that a format item stands for.
#[derive(Clone, Copy, Debug, PartialEq, Eq, Hash, Structural)]
pub enum NumericItem {
    Year,
    YearDiv100,
    YearMod100,
    IsoYear,
    IsoYearDiv100,
    IsoYearMod100,
    Quarter,
    Month,
    Day,
    WeekFromSun,
    WeekFromMon,
    IsoWeek,
    NumDaysFromSun,
    WeekdayFromMon,
    Ordinal,
    Hour,
    Hour12,
    Minute,
    Second,
    Nanosecond,
    Timestamp,
    Internal,
}

/// A piece of text of fixed form that a format item stands for.
#[derive(Clone, Copy, Debug, PartialEq, Eq, Hash, Structural)]
pub enum FixedItem {
    ShortMonthName,
    LongMonthName,
    ShortWeekdayName,
    LongWeekdayName,
    LowerAmPm,
    UpperAmPm,
    Nanosecond,
    Nanosecond3,
    Nanosecond6,
    Nanosecond9,
    TimezoneName,
    TimezoneOffsetColon,
    TimezoneOffsetDoubleColon,
    TimezoneOffsetTripleColon,
    TimezoneOffsetColonZ,
    TimezoneOffset,
    TimezoneOffsetZ,
    RFC2822,
    RFC3339,
    Internal,
}

/// One item of a format, as far as its kind goes: the text of a literal or
/// of white space, and the padding of a number, play no part here.
#[derive(Clone, Copy, Debug, PartialEq, Eq, Hash, Structural)]
pub enum FormatItem {
    Literal,
    OwnedLiteral,
    Space,
    OwnedSpace,
    Numeric(NumericItem),
    Fixed(FixedItem),
    Error,
}

/// The item shows a part of a date, or of a time zone.
pub open spec fn date_item(item: FormatItem) -> bool {
    match item {
        FormatItem::Numeric(n) => match n {
            NumericItem::Year
            | NumericItem::YearDiv100
            | NumericItem::YearMod100
            | NumericItem::IsoYear
            | NumericItem::IsoYearDiv100
            | NumericItem::IsoYearMod100
            | NumericItem::Month
            | NumericItem::Day
            | NumericItem::WeekFromSun
            | NumericItem::WeekFromMon
            | NumericItem::IsoWeek
            | NumericItem::NumDaysFromSun
            | NumericItem::WeekdayFromMon
            | NumericItem::Ordinal => true,
            _ => false,
        },
        FormatItem::Fixed(f) => match f {
            FixedItem::ShortMonthName
            | FixedItem::LongMonthName
            | FixedItem::LongWeekdayName
            | FixedItem::ShortWeekdayName
            | FixedItem::TimezoneName
            | FixedItem::TimezoneOffset
            | FixedItem::TimezoneOffsetColon
            | FixedItem::TimezoneOffsetColonZ
            | FixedItem::TimezoneOffsetDoubleColon
            | FixedItem::TimezoneOffsetTripleColon
            | FixedItem::TimezoneOffsetZ => true,
            _ => false,
        },
        _ => false,
    }
}

/// The item shows a part of a time of day, the day of the year, or a part of
/// a time zone.
pub open spec fn time_item(item: FormatItem) -> bool {
    match item {
        FormatItem::Numeric(n) => match n {
            NumericItem::Ordinal
            | NumericItem::Hour
            | NumericItem::Hour12
            | NumericItem::Minute
            | NumericItem::Second
            | NumericItem::Nanosecond
            | NumericItem::Timestamp => true,
            _ => false,
        },
        FormatItem::Fixed(f) => match f {
            FixedItem::LowerAmPm
            | FixedItem::Nanosecond
            | FixedItem::Nanosecond3
            | FixedItem::Nanosecond6
            | FixedItem::Nanosecond9
            | FixedItem::TimezoneName
            | FixedItem::TimezoneOffset
            | FixedItem::TimezoneOffsetColon
            | FixedItem::TimezoneOffsetColonZ
            | FixedItem::TimezoneOffsetDoubleColon
            | FixedItem::TimezoneOffsetTripleColon
            | FixedItem::TimezoneOffsetZ
            | FixedItem::UpperAmPm => true,
            _ => false,
        },
        _ => false,
    }
}

/// The item is white space of the format text itself.
pub open spec fn space_item(item: FormatItem) -> bool {
    item is Space
}

/// The item is of the kind asked for: a time item if `time`, a date item
/// otherwise.
pub open spec fn item_of(item: FormatItem, time: bool) -> bool {
    if time {
        time_item(item)
    } else {
        date_item(item)
    }
}

/// The place of the first item of the kind asked for, if there is one.
pub open spec fn first_item(items: Seq<FormatItem>, time: bool) -> Option<int>
    decreases items.len(),
{
    if items.len() == 0 {
        None
    } else if item_of(items[0], time) {
        Some(0)
    } else {
        match first_item(items.drop_first(), time) {
            Some(i) => Some(i + 1),
            None => None,
        }
    }
}

/// Where the white space that ends just before place `i` starts: `i` itself
/// where the item before it is no white space.
pub open spec fn spaces_start(items: Seq<FormatItem>, i: int) -> int
    decreases i,
{
    if 0 < i <= items.len() && space_item(items[i - 1]) {
        spaces_start(items, i - 1)
    } else {
        i
    }
}

/// What to do with a format to show a value that is only a date, or only a
/// time of day.
#[derive(Clone, Copy, Debug, PartialEq, Eq, Hash, Structural)]
pub enum FormatPlan {
    /// The format has nothing to show of the value: show it in its plain
    /// form.
    Plain,
    /// Show the items of the format but for those from `drain_from` up to
    /// `drain_to`.
    Items { drain_from: usize, drain_to: usize },
}

/// What to do with a format to show a bare date.
///
/// A format with date items and time items loses its time part. Where the
/// first date item comes before the first time item, everything from that
/// time item on goes, and the white space just before it. Where the first
/// time item comes first, everything before the first date item goes, up to
/// and with the item before it; white space just before that item stays in
/// only if nothing stands before it. A format with time items only has
/// nothing to show of a date. Any other format is used whole.
pub open spec fn date_plan(items: Seq<FormatItem>) -> FormatPlan {
    match (first_item(items, true), first_item(items, false)) {
        (Some(t), Some(d)) => if d < t {
            FormatPlan::Items {
                drain_from: spaces_start(items, t) as usize,
                drain_to: items.len() as usize,
            }
        } else if d > t {
            FormatPlan::Items {
                drain_from: 0,
                drain_to: (spaces_start(items, d - 1) + 1) as usize,
            }
        } else {
            FormatPlan::Items { drain_from: 0, drain_to: 0 }
        },
        (Some(_), None) => FormatPlan::Plain,
        _ => FormatPlan::Items { drain_from: 0, drain_to: 0 },
    }
}

/// What to do with a format to show a bare time of day.
///
/// A format with date items and time items loses its date part. Where the
/// first date item comes before the first time item, everything from that
/// date item up to the first time item goes. Where the first time item comes
/// first, everything from the first date item on goes, and the white space
/// just before it. A format with date items only has nothing to show of a
/// time. Any other format is used whole.
pub open spec fn time_plan(items: Seq<FormatItem>) -> FormatPlan {
    match (first_item(items, true), first_item(items, false)) {
        (Some(t), Some(d)) => if t > d {
            FormatPlan::Items { drain_from: d as usize, drain_to: t as usize }
        } else if t < d {
            FormatPlan::Items {
                drain_from: spaces_start(items, d) as usize,
                drain_to: items.len() as usize,
            }
        } else {
            FormatPlan::Items { drain_from: 0, drain_to: 0 }
        },
        (None, Some(_)) => FormatPlan::Plain,
        _ => FormatPlan::Items { drain_from: 0, drain_to: 0 },
    }
}

/// The first item of a kind stands where no item of that kind stands before
/// it; there is none where no item is of that kind.
pub proof fn lemma_first_item(items: Seq<FormatItem>, time: bool)
    ensures
        match first_item(items, time) {
            Some(i) => {
                &&& 0 <= i < items.len()
                &&& item_of(items[i], time)
                &&& forall|j: int| 0 <= j < i ==> !item_of(#[trigger] items[j], time)
            },
            None => forall|j: int| 0 <= j < items.len() ==> !item_of(#[trigger] items[j], time),
        },
    decreases items.len(),
{
    if items.len() > 0 && !item_of(items[0], time) {
        let rest = items.drop_first();
        lemma_first_item(rest, time);
        match first_item(rest, time) {
            Some(i) => {
                assert(items[i + 1] == rest[i]);
                assert forall|j: int| 0 <= j < i + 1 implies !item_of(
                    #[trigger] items[j],
                    time,
                ) by {
                    if j > 0 {
                        assert(items[j] == rest[j - 1]);
                    }
                }
            },
            None => {
                assert forall|j: int| 0 <= j < items.len() implies !item_of(
                    #[trigger] items[j],
                    time,
                ) by {
                    if j > 0 {
                        assert(items[j] == rest[j - 1]);
                    }
                }
            },
        }
    }
}

/// An item of a kind behind a stretch without one is the first of its kind.
pub proof fn lemma_first_item_is(items: Seq<FormatItem>, time: bool, i: int)
    requires
        0 <= i <= items.len(),
        forall|j: int| 0 <= j < i ==> !item_of(#[trigger] items[j], time),
        i < items.len() ==> item_of(items[i], time),
    ensures
        first_item(items, time) == if i < items.len() {
            Some(i)
        } else {
            None::<int>
        },
{
    lemma_first_item(items, time);
}

/// Whether the item shows a part of a date, or of a time zone.
pub fn is_date_item(item: &FormatItem) -> (r: bool)
    ensures
        r == date_item(*item),
{
    match item {
        FormatItem::Numeric(n) => match n {
            NumericItem::Year
            | NumericItem::YearDiv100
            | NumericItem::YearMod100
            | NumericItem::IsoYear
            | NumericItem::IsoYearDiv100
            | NumericItem::IsoYearMod100
            | NumericItem::Month
            | NumericItem::Day
            | NumericItem::WeekFromSun
            | NumericItem::WeekFromMon
            | NumericItem::IsoWeek
            | NumericItem::NumDaysFromSun
            | NumericItem::WeekdayFromMon
            | NumericItem::Ordinal => true,
            _ => false,
        },
        FormatItem::Fixed(f) => match f {
            FixedItem::ShortMonthName
            | FixedItem::LongMonthName
            | FixedItem::LongWeekdayName
            | FixedItem::ShortWeekdayName
            | FixedItem::TimezoneName
            | FixedItem::TimezoneOffset
            | FixedItem::TimezoneOffsetColon
            | FixedItem::TimezoneOffsetColonZ
            | FixedItem::TimezoneOffsetDoubleColon
            | FixedItem::TimezoneOffsetTripleColon
            | FixedItem::TimezoneOffsetZ => true,
            _ => false,
        },
        _ => false,
    }
}

/// Whether the item shows a part of a time of day, the day of the year, or a
/// part of a time zone.
pub fn is_time_item(item: &FormatItem) -> (r: bool)
    ensures
        r == time_item(*item),
{
    match item {
        FormatItem::Numeric(n) => match n {
            NumericItem::Ordinal
            | NumericItem::Hour
            | NumericItem::Hour12
            | NumericItem::Minute
            | NumericItem::Second
            | NumericItem::Nanosecond
            | NumericItem::Timestamp => true,
            _ => false,
        },
        FormatItem::Fixed(f) => match f {
            FixedItem::LowerAmPm
            | FixedItem::Nanosecond
            | FixedItem::Nanosecond3
            | FixedItem::Nanosecond6
            | FixedItem::Nanosecond9
            | FixedItem::TimezoneName
            | FixedItem::TimezoneOffset
            | FixedItem::TimezoneOffsetColon
            | FixedItem::TimezoneOffsetColonZ
            | FixedItem::TimezoneOffsetDoubleColon
            | FixedItem::TimezoneOffsetTripleColon
            | FixedItem::TimezoneOffsetZ
            | FixedItem::UpperAmPm => true,
            _ => false,
        },
        _ => false,
    }
}

/// Whether the item is white space of the format text itself.
pub fn is_space_item(item: &FormatItem) -> (r: bool)
    ensures
        r == space_item(*item),
{
    match item {
        FormatItem::Space => true,
        _ => false,
    }
}

/// The place of the first item of the kind asked for.
fn find_first_item(items: &Vec<FormatItem>, time: bool) -> (r: Option<usize>)
    ensures
        r is Some == first_item(items@, time) is Some,
        r is Some ==> r->0 == first_item(items@, time)->0 && r->0 < items.len(),
{
    let mut i: usize = 0;
    while i < items.len()
        invariant
            i <= items.len(),
            forall|j: int| 0 <= j < i ==> !item_of(#[trigger] items@[j], time),
        decreases items.len() - i,
    {
        let found = if time {
            is_time_item(&items[i])
        } else {
            is_date_item(&items[i])
        };
        if found {
            proof {
                lemma_first_item_is(items@, time, i as int);
            }
            return Some(i);
        }
        i += 1;
    }
    proof {
        lemma_first_item_is(items@, time, i as int);
    }
    None
}

/// The place of the first time item of a format.
pub fn find_items_time_start(items: &Vec<FormatItem>) -> (r: Option<usize>)
    ensures
        r is Some == first_item(items@, true) is Some,
        r is Some ==> r->0 == first_item(items@, true)->0 && r->0 < items.len(),
{
    find_first_item(items, true)
}

/// The place of the first date item of a format.
pub fn find_items_date_start(items: &Vec<FormatItem>) -> (r: Option<usize>)
    ensures
        r is Some == first_item(items@, false) is Some,
        r is Some ==> r->0 == first_item(items@, false)->0 && r->0 < items.len(),
{
    find_first_item(items, false)
}

/// Where the white space that ends just before place `i` starts.
fn find_spaces_start(items: &Vec<FormatItem>, i: usize) -> (r: usize)
    requires
        i <= items.len(),
    ensures
        r == spaces_start(items@, i as int),
        r <= i,
{
    let mut k: usize = i;
    while k > 0 && is_space_item(&items[k - 1])
        invariant
            k <= i <= items.len(),
            spaces_start(items@, i as int) == spaces_start(items@, k as int),
        decreases k,
    {
        k -= 1;
    }
    k
}

/// What to do with the items of a format to show a bare date.
pub fn date_format_plan(items: &Vec<FormatItem>) -> (plan: FormatPlan)
    ensures
        plan == date_plan(items@),
        plan matches FormatPlan::Items { drain_from, drain_to } ==> drain_from <= drain_to
            <= items.len(),
{
    let time_start = find_items_time_start(items);
    let date_start = find_items_date_start(items);
    match (time_start, date_start) {
        (Some(t), Some(d)) => {
            if d < t {
                FormatPlan::Items {
                    drain_from: find_spaces_start(items, t),
                    drain_to: items.len(),
                }
            } else if d > t {
                FormatPlan::Items { drain_from: 0, drain_to: find_spaces_start(items, d - 1) + 1 }
            } else {
                FormatPlan::Items { drain_from: 0, drain_to: 0 }
            }
        },
        (Some(_), None) => FormatPlan::Plain,
        _ => FormatPlan::Items { drain_from: 0, drain_to: 0 },
    }
}

/// What to do with the items of a format to show a bare time of day.
pub fn time_format_plan(items: &Vec<FormatItem>) -> (plan: FormatPlan)
    ensures
        plan == time_plan(items@),
        plan matches FormatPlan::Items { drain_from, drain_to } ==> drain_from <= drain_to
            <= items.len(),
{
    let time_start = find_items_time_start(items);
    let date_start = find_items_date_start(items);
    match (time_start, date_start) {
        (Some(t), Some(d)) => {
            if t > d {
                FormatPlan::Items { drain_from: d, drain_to: t }
            } else if t < d {
                FormatPlan::Items {
                    drain_from: find_spaces_start(items, d),
                    drain_to: items.len(),
                }
            } else {
                FormatPlan::Items { drain_from: 0, drain_to: 0 }
            }
        },
        (None, Some(_)) => FormatPlan::Plain,
        _ => FormatPlan::Items { drain_from: 0, drain_to: 0 },
    }
}

} // verus!
