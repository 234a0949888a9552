use chrono::format::{Fixed, Item, Numeric, StrftimeItems};
use chrono::{NaiveDate, NaiveDateTime, NaiveTime, Timelike};
use quadratic_core::date_time::{
    am_pm_time_text, date_format_plan, find_items_date_start, find_items_time_start,
    i32_to_naive_time, i64_to_naive_date, is_date_item, is_space_item, is_time_item,
    naive_date_time_to_i64, naive_date_to_i64, naive_time_to_i32, parse_date, parse_time,
    time_format_plan, Date, FixedItem, FormatItem, FormatPlan, NumericItem, Time,
    DEFAULT_DATE_FORMAT, DEFAULT_DATE_TIME_FORMAT, DEFAULT_TIME_FORMAT,
};

fn numeric_kind(numeric: &Numeric) -> NumericItem {
    match numeric {
        Numeric::Year => NumericItem::Year,
        Numeric::YearDiv100 => NumericItem::YearDiv100,
        Numeric::YearMod100 => NumericItem::YearMod100,
        Numeric::IsoYear => NumericItem::IsoYear,
        Numeric::IsoYearDiv100 => NumericItem::IsoYearDiv100,
        Numeric::IsoYearMod100 => NumericItem::IsoYearMod100,
        Numeric::Quarter => NumericItem::Quarter,
        Numeric::Month => NumericItem::Month,
        Numeric::Day => NumericItem::Day,
        Numeric::WeekFromSun => NumericItem::WeekFromSun,
        Numeric::WeekFromMon => NumericItem::WeekFromMon,
        Numeric::IsoWeek => NumericItem::IsoWeek,
        Numeric::NumDaysFromSun => NumericItem::NumDaysFromSun,
        Numeric::WeekdayFromMon => NumericItem::WeekdayFromMon,
        Numeric::Ordinal => NumericItem::Ordinal,
        Numeric::Hour => NumericItem::Hour,
        Numeric::Hour12 => NumericItem::Hour12,
        Numeric::Minute => NumericItem::Minute,
        Numeric::Second => NumericItem::Second,
        Numeric::Nanosecond => NumericItem::Nanosecond,
        Numeric::Timestamp => NumericItem::Timestamp,
        _ => NumericItem::Internal,
    }
}

fn fixed_kind(fixed: &Fixed) -> FixedItem {
    match fixed {
        Fixed::ShortMonthName => FixedItem::ShortMonthName,
        Fixed::LongMonthName => FixedItem::LongMonthName,
        Fixed::ShortWeekdayName => FixedItem::ShortWeekdayName,
        Fixed::LongWeekdayName => FixedItem::LongWeekdayName,
        Fixed::LowerAmPm => FixedItem::LowerAmPm,
        Fixed::UpperAmPm => FixedItem::UpperAmPm,
        Fixed::Nanosecond => FixedItem::Nanosecond,
        Fixed::Nanosecond3 => FixedItem::Nanosecond3,
        Fixed::Nanosecond6 => FixedItem::Nanosecond6,
        Fixed::Nanosecond9 => FixedItem::Nanosecond9,
        Fixed::TimezoneName => FixedItem::TimezoneName,
        Fixed::TimezoneOffsetColon => FixedItem::TimezoneOffsetColon,
        Fixed::TimezoneOffsetDoubleColon => FixedItem::TimezoneOffsetDoubleColon,
        Fixed::TimezoneOffsetTripleColon => FixedItem::TimezoneOffsetTripleColon,
        Fixed::TimezoneOffsetColonZ => FixedItem::TimezoneOffsetColonZ,
        Fixed::TimezoneOffset => FixedItem::TimezoneOffset,
        Fixed::TimezoneOffsetZ => FixedItem::TimezoneOffsetZ,
        Fixed::RFC2822 => FixedItem::RFC2822,
        Fixed::RFC3339 => FixedItem::RFC3339,
        _ => FixedItem::Internal,
    }
}

fn item_kind(item: &Item<'_>) -> FormatItem {
    match item {
        Item::Literal(_) => FormatItem::Literal,
        Item::OwnedLiteral(_) => FormatItem::OwnedLiteral,
        Item::Space(_) => FormatItem::Space,
        Item::OwnedSpace(_) => FormatItem::OwnedSpace,
        Item::Numeric(numeric, _) => FormatItem::Numeric(numeric_kind(numeric)),
        Item::Fixed(fixed) => FormatItem::Fixed(fixed_kind(fixed)),
        Item::Error => FormatItem::Error,
    }
}

fn kinds(format: &str) -> Vec<FormatItem> {
    StrftimeItems::new(format).parse().unwrap().iter().map(item_kind).collect()
}

fn date_to_date_string(date: NaiveDate, format: Option<String>) -> String {
    let format = format.map_or(DEFAULT_DATE_TIME_FORMAT.to_string(), |f| f);
    let Ok(mut items) = StrftimeItems::new(&format).parse() else {
        return date.format(DEFAULT_DATE_FORMAT).to_string();
    };
    let kinds: Vec<FormatItem> = items.iter().map(item_kind).collect();
    match date_format_plan(&kinds) {
        FormatPlan::Plain => date.to_string(),
        FormatPlan::Items { drain_from, drain_to } => {
            items.drain(drain_from..drain_to);
            date.format_with_items(items.iter()).to_string()
        }
    }
}

fn time_to_time_string(time: NaiveTime, format: Option<String>) -> String {
    let format = format.map_or(DEFAULT_DATE_TIME_FORMAT.to_string(), |f| f);
    let Ok(mut items) = StrftimeItems::new(&format).parse() else {
        return time.format(DEFAULT_TIME_FORMAT).to_string();
    };
    let kinds: Vec<FormatItem> = items.iter().map(item_kind).collect();
    match time_format_plan(&kinds) {
        FormatPlan::Plain => time.to_string(),
        FormatPlan::Items { drain_from, drain_to } => {
            items.drain(drain_from..drain_to);
            time.format_with_items(items.iter()).to_string()
        }
    }
}

fn date(year: i32, month: u32, day: u32) -> Option<Date> {
    NaiveDate::from_ymd_opt(year, month, day).map(|_| Date::new(year, month, day))
}

#[test]
fn time() {
    let date_time = "12/23/2024 4:45 PM".to_string();
    let format = "%m/%d/%Y %-I:%M %p".to_string();

    let date_time = NaiveDateTime::parse_from_str(&date_time, &format).unwrap();
    assert_eq!(
        time_to_time_string(date_time.time(), Some(format)),
        "4:45 PM".to_string()
    );
}

#[test]
fn naive_time_i32() {
    let time = Time::from_hms_opt(12, 34, 56);
    assert_eq!(naive_time_to_i32(time.unwrap()), 45296);
    assert_eq!(i32_to_naive_time(45296), time);
}

#[test]
fn naive_date_i64() {
    let date = date(2024, 12, 23);
    assert_eq!(naive_date_to_i64(date.unwrap()), Some(1734912000));
    assert_eq!(i64_to_naive_date(1734912000), date);
}

#[test]
fn test_parse_date() {
    let date_text = "12/23/2024".to_string();
    let parsed_date = parse_date(&date_text).unwrap();
    assert_eq!(parsed_date, date(2024, 12, 23).unwrap());
    assert_eq!(parse_date("12/23/2024"), date(2024, 12, 23));
    assert_eq!(parse_date("2024-12-23"), date(2024, 12, 23));
    assert_eq!(parse_date("23 Dec 2024"), date(2024, 12, 23));
    assert_eq!(parse_date("December 23, 2024"), date(2024, 12, 23));
    assert_eq!(parse_date("2024/12/23"), date(2024, 12, 23));
    assert_eq!(parse_date("jan 1,2024"), date(2024, 1, 1));
}

#[test]
fn test_parse_time() {
    let time = "4:45 PM".to_string();
    let parsed_time = parse_time(&time).unwrap();
    assert_eq!(parsed_time, Time::from_hms_opt(16, 45, 0).unwrap());
}

#[test]
fn parse_simple_times() {
    let time = "4pm".to_string();
    let parsed_time = parse_time(&time).unwrap();
    assert_eq!(parsed_time, Time::from_hms_opt(16, 0, 0).unwrap());

    let time = "4 pm".to_string();
    let parsed_time = parse_time(&time).unwrap();
    assert_eq!(parsed_time, Time::from_hms_opt(16, 0, 0).unwrap());
}

#[test]
fn format_date_with_bad_ordering() {
    let date = NaiveDate::from_ymd_opt(2024, 12, 23);
    let format = "%d/%m/%Y %S %m %Y".to_string();
    let formatted_date = date_to_date_string(date.unwrap(), Some(format));
    assert_eq!(formatted_date, "23/12/2024".to_string());
}

#[test]
fn format_time_wrong_order() {
    let time = NaiveTime::from_hms_opt(12, 34, 56).unwrap();
    let format = "%H:%M:%S %A";
    let formatted_time = time_to_time_string(time, Some(format.to_string()));
    assert_eq!(formatted_time, "12:34:56".to_string());
}

#[test]
fn format_time() {
    let time = NaiveTime::from_hms_opt(12, 34, 56).unwrap();
    let format = "%A %H:%M:%S";
    let formatted_time = time_to_time_string(time, Some(format.to_string()));
    assert_eq!(formatted_time, "12:34:56".to_string());
}

#[test]
fn format_date() {
    let date = NaiveDate::from_ymd_opt(2024, 12, 23);
    let format = "%A %d %B %Y %H:%M:%S";
    let formatted_date = date_to_date_string(date.unwrap(), Some(format.to_string()));
    assert_eq!(formatted_date, "Monday 23 December 2024".to_string());
}

#[test]
fn format_date_opposite_order() {
    let date = NaiveDate::from_ymd_opt(2024, 12, 23);
    let format = "%H:%M:%S %Y %B %d %A";
    let formatted_date = date_to_date_string(date.unwrap(), Some(format.to_string()));
    assert_eq!(formatted_date, "2024 December 23 Monday".to_string());
}

#[test]
fn test_format_plans() {
    let items = kinds("%d/%m/%Y %S %m %Y");
    assert_eq!(items.len(), 11);
    assert_eq!(find_items_date_start(&items), Some(0));
    assert_eq!(find_items_time_start(&items), Some(6));
    assert_eq!(date_format_plan(&items), FormatPlan::Items { drain_from: 5, drain_to: 11 });
    assert_eq!(time_format_plan(&items), FormatPlan::Items { drain_from: 0, drain_to: 6 });

    let items = kinds("%H:%M:%S %Y %B %d %A");
    assert_eq!(find_items_date_start(&items), Some(6));
    assert_eq!(find_items_time_start(&items), Some(0));
    assert_eq!(date_format_plan(&items), FormatPlan::Items { drain_from: 0, drain_to: 6 });
    assert_eq!(time_format_plan(&items), FormatPlan::Items { drain_from: 5, drain_to: 13 });

    let items = kinds("%H:%M");
    assert_eq!(find_items_date_start(&items), None);
    assert_eq!(date_format_plan(&items), FormatPlan::Plain);
    assert_eq!(time_format_plan(&items), FormatPlan::Items { drain_from: 0, drain_to: 0 });

    let items = kinds("%Y-%m-%d");
    assert_eq!(find_items_time_start(&items), None);
    assert_eq!(date_format_plan(&items), FormatPlan::Items { drain_from: 0, drain_to: 0 });
    assert_eq!(time_format_plan(&items), FormatPlan::Plain);

    let items = kinds("week %j");
    assert_eq!(find_items_date_start(&items), find_items_time_start(&items));
    assert_eq!(date_format_plan(&items), FormatPlan::Items { drain_from: 0, drain_to: 0 });
    assert_eq!(time_format_plan(&items), FormatPlan::Items { drain_from: 0, drain_to: 0 });

    let items: Vec<FormatItem> = Vec::new();
    assert_eq!(date_format_plan(&items), FormatPlan::Items { drain_from: 0, drain_to: 0 });
    assert_eq!(time_format_plan(&items), FormatPlan::Items { drain_from: 0, drain_to: 0 });

    let space = FormatItem::Space;
    let hour = FormatItem::Numeric(NumericItem::Hour);
    let year = FormatItem::Numeric(NumericItem::Year);
    let items = vec![hour, space, space, year];
    assert_eq!(date_format_plan(&items), FormatPlan::Items { drain_from: 0, drain_to: 2 });
    let items = vec![space, space, year, space, space, hour];
    assert_eq!(date_format_plan(&items), FormatPlan::Items { drain_from: 3, drain_to: 6 });
    assert_eq!(time_format_plan(&items), FormatPlan::Items { drain_from: 2, drain_to: 5 });
    let items = vec![space, hour, FormatItem::OwnedSpace, year];
    assert_eq!(time_format_plan(&items), FormatPlan::Items { drain_from: 3, drain_to: 4 });
    assert_eq!(date_format_plan(&items), FormatPlan::Items { drain_from: 0, drain_to: 3 });
}

#[test]
fn test_item_kinds() {
    assert!(is_date_item(&FormatItem::Numeric(NumericItem::Year)));
    assert!(is_date_item(&FormatItem::Numeric(NumericItem::Ordinal)));
    assert!(is_date_item(&FormatItem::Fixed(FixedItem::LongWeekdayName)));
    assert!(is_date_item(&FormatItem::Fixed(FixedItem::TimezoneOffsetZ)));
    assert!(!is_date_item(&FormatItem::Numeric(NumericItem::Quarter)));
    assert!(!is_date_item(&FormatItem::Numeric(NumericItem::Hour)));
    assert!(!is_date_item(&FormatItem::Fixed(FixedItem::UpperAmPm)));
    assert!(!is_date_item(&FormatItem::Fixed(FixedItem::RFC3339)));
    assert!(!is_date_item(&FormatItem::Literal));
    assert!(is_time_item(&FormatItem::Numeric(NumericItem::Hour12)));
    assert!(is_time_item(&FormatItem::Numeric(NumericItem::Ordinal)));
    assert!(is_time_item(&FormatItem::Numeric(NumericItem::Timestamp)));
    assert!(is_time_item(&FormatItem::Fixed(FixedItem::LowerAmPm)));
    assert!(is_time_item(&FormatItem::Fixed(FixedItem::TimezoneName)));
    assert!(!is_time_item(&FormatItem::Numeric(NumericItem::Day)));
    assert!(!is_time_item(&FormatItem::Fixed(FixedItem::ShortMonthName)));
    assert!(!is_time_item(&FormatItem::Fixed(FixedItem::RFC2822)));
    assert!(!is_time_item(&FormatItem::Space));
    assert!(!is_time_item(&FormatItem::Error));
    assert!(is_space_item(&FormatItem::Space));
    assert!(!is_space_item(&FormatItem::OwnedSpace));
    assert!(!is_space_item(&FormatItem::Literal));
}

#[test]
fn test_seconds_and_back() {
    assert_eq!(i32_to_naive_time(0), Some(Time::midnight()));
    assert_eq!(i32_to_naive_time(86399), Time::from_hms_opt(23, 59, 59));
    assert_eq!(i32_to_naive_time(86400), None);
    assert_eq!(i32_to_naive_time(-1), None);
    assert_eq!(i32_to_naive_time(i32::MIN), None);
    assert_eq!(i32_to_naive_time(i32::MAX), None);
    assert_eq!(i32_to_naive_time(3661), Time::from_hms_opt(1, 1, 1));
    assert_eq!(Time::from_hms_opt(24, 0, 0), None);
    assert_eq!(Time::from_hms_opt(0, 60, 0), None);
    assert_eq!(Time::from_hms_opt(0, 0, 60), None);
    for seconds in [0, 1, 59, 60, 3599, 3600, 45296, 86399] {
        let time = i32_to_naive_time(seconds).unwrap();
        assert!(time.is_valid());
        assert_eq!(naive_time_to_i32(time), seconds);
        let clock = NaiveTime::from_num_seconds_from_midnight_opt(seconds as u32, 0).unwrap();
        assert_eq!((time.hour, time.minute, time.second), (clock.hour(), clock.minute(), clock.second()));
    }
    let with_fraction = Time { hour: 1, minute: 2, second: 3, nanosecond: 500 };
    assert_eq!(naive_time_to_i32(with_fraction), 3723);
}

#[test]
fn test_am_pm_time_text() {
    assert_eq!(am_pm_time_text("4pm"), Some("4:00 PM".to_string()));
    assert_eq!(am_pm_time_text("4 pm"), Some("4:00 PM".to_string()));
    assert_eq!(am_pm_time_text("  11 am  "), Some("11:00 AM".to_string()));
    assert_eq!(am_pm_time_text("pm"), Some(":00 PM".to_string()));
    assert_eq!(am_pm_time_text("ppmm"), Some("pm:00 PM".to_string()));
    assert_eq!(am_pm_time_text("1pm2pm3"), Some("123:00 PM".to_string()));
    assert_eq!(am_pm_time_text("am pm"), Some("am:00 PM".to_string()));
    assert_eq!(am_pm_time_text("4:45 am"), Some("4:45:00 AM".to_string()));
    assert_eq!(am_pm_time_text("4 PM"), None);
    assert_eq!(am_pm_time_text("4"), None);
    assert_eq!(am_pm_time_text(""), None);
    assert_eq!(am_pm_time_text("p m"), None);
    assert_eq!(am_pm_time_text("\u{a0}7\u{2003}pm\t"), Some("7:00 PM".to_string()));
    for text in ["4pm", " 4  pm ", "ppmm", "ampm", "x pm y", "pmpmpm", "\u{3000}9pm"] {
        let rest = if text.contains("pm") { "pm" } else { "am" };
        let full = format!("{}:00 {}", text.replace(rest, "").trim(), rest.to_uppercase());
        assert_eq!(am_pm_time_text(text), Some(full));
    }
}

#[test]
fn test_parse_time_forms() {
    assert_eq!(parse_time("16:45:10"), Some(Time { hour: 16, minute: 45, second: 10, nanosecond: 0 }));
    assert_eq!(parse_time("16:45"), Time::from_hms_opt(16, 45, 0));
    assert_eq!(parse_time("4:45pm"), Time::from_hms_opt(16, 45, 0));
    assert_eq!(parse_time("4:45:10 AM"), Time::from_hms_opt(4, 45, 10));
    assert_eq!(parse_time("4 AM"), Time::from_hms_opt(4, 0, 0));
    assert_eq!(parse_time("12AM"), Time::from_hms_opt(0, 0, 0));
    assert_eq!(
        parse_time("16:45:10.250"),
        Some(Time { hour: 16, minute: 45, second: 10, nanosecond: 250_000_000 })
    );
    assert_eq!(parse_time("25:00"), None);
    assert_eq!(parse_time("noon"), None);
    assert_eq!(parse_time(""), None);
    assert_eq!(parse_time("13pm"), None);
}

#[test]
fn test_parse_date_forms() {
    assert_eq!(parse_date("23.12.2024"), date(2024, 12, 23));
    assert_eq!(parse_date("2024 12 23"), date(2024, 12, 23));
    assert_eq!(parse_date("2024 December 23"), date(2024, 12, 23));
    assert_eq!(parse_date("29-02-2024"), date(2024, 2, 29));
    assert_eq!(parse_date("29-02-2023"), None);
    assert_eq!(parse_date("23 Dec"), None);
    assert_eq!(parse_date("yesterday"), None);
    assert_eq!(parse_date(""), None);
}

#[test]
fn test_timestamps() {
    let epoch = Date::new(1970, 1, 1);
    assert_eq!(naive_date_to_i64(epoch), Some(0));
    assert_eq!(i64_to_naive_date(0), Some(epoch));
    assert_eq!(i64_to_naive_date(-1), Some(Date::new(1969, 12, 31)));
    assert_eq!(i64_to_naive_date(86399), Some(epoch));
    assert_eq!(i64_to_naive_date(86400), Some(Date::new(1970, 1, 2)));
    assert_eq!(i64_to_naive_date(i64::MAX), None);
    assert_eq!(naive_date_to_i64(Date::new(2023, 2, 29)), None);
    assert_eq!(naive_date_to_i64(Date::new(2023, 13, 1)), None);
    assert_eq!(
        naive_date_time_to_i64(Date::new(2024, 12, 23), Time::from_hms_opt(12, 34, 56).unwrap()),
        Some(1734912000 + 45296)
    );
    assert_eq!(
        naive_date_time_to_i64(epoch, Time { hour: 24, minute: 0, second: 0, nanosecond: 0 }),
        None
    );
}
