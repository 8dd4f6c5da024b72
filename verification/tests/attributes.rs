use sitemaps::attribute::date::Date;
use time::format_description::well_known::iso8601::{Config, TimePrecision};
use sitemaps::attribute::priority::{Decimal, DecimalError, PriorityError, PriorityRangeError};
use sitemaps::attribute::{
    Attribute, ChangeFrequency, ChangeFrequencyError, LastModified, LastModifiedError, Location,
    Priority, Timestamp,
};

#[test]
fn frequency_new_reads_each_literal() {
    assert_eq!(ChangeFrequency::new("always"), Ok(ChangeFrequency::Always));
    assert_eq!(ChangeFrequency::new("hourly"), Ok(ChangeFrequency::Hourly));
    assert_eq!(ChangeFrequency::new("daily"), Ok(ChangeFrequency::Daily));
    assert_eq!(ChangeFrequency::new("weekly"), Ok(ChangeFrequency::Weekly));
    assert_eq!(ChangeFrequency::new("monthly"), Ok(ChangeFrequency::Monthly));
    assert_eq!(ChangeFrequency::new("yearly"), Ok(ChangeFrequency::Yearly));
    assert_eq!(ChangeFrequency::new("never"), Ok(ChangeFrequency::Never));
}

#[test]
fn frequency_new_is_exact() {
    assert_eq!(ChangeFrequency::new("Daily"), Err(ChangeFrequencyError));
    assert_eq!(ChangeFrequency::new(" daily"), Err(ChangeFrequencyError));
    assert_eq!(ChangeFrequency::new(""), Err(ChangeFrequencyError));
    assert_eq!(ChangeFrequency::new("fortnightly"), Err(ChangeFrequencyError));
}

#[test]
fn frequency_parse_ignores_case_and_space() {
    assert_eq!(ChangeFrequency::parse("Daily"), Ok(ChangeFrequency::Daily));
    assert_eq!(ChangeFrequency::parse("  WEEKLY\n"), Ok(ChangeFrequency::Weekly));
    assert_eq!(ChangeFrequency::parse("da ily"), Err(ChangeFrequencyError));
}

#[test]
fn frequency_round_trip() {
    let all = [
        ChangeFrequency::Always,
        ChangeFrequency::Hourly,
        ChangeFrequency::Daily,
        ChangeFrequency::Weekly,
        ChangeFrequency::Monthly,
        ChangeFrequency::Yearly,
        ChangeFrequency::Never,
    ];
    let literals = ["always", "hourly", "daily", "weekly", "monthly", "yearly", "never"];
    for (frequency, literal) in all.iter().zip(literals.iter()) {
        assert_eq!(frequency.underlying(), *literal);
        assert_eq!(frequency.to_string(), *literal);
        let parsed = ChangeFrequency::parse(literal).unwrap();
        assert_eq!(parsed, *frequency);
        assert_eq!(ChangeFrequency::parse(parsed.to_string().as_str()), Ok(parsed));
    }
}

fn date(year: i32, month: u8, day: u8) -> Date {
    Date::from_calendar_date(year, month, day).unwrap()
}

#[test]
fn monthly_is_outdated_a_month_later() {
    let anchor = date(2022, 9, 12);
    assert!(ChangeFrequency::Monthly.is_outdated(anchor, date(2022, 10, 12)));
    assert!(!ChangeFrequency::Monthly.is_outdated(anchor, date(2022, 10, 11)));
    assert_eq!(ChangeFrequency::Monthly.next_date(anchor), Some(date(2022, 10, 12)));
}

#[test]
fn always_and_never_ignore_the_dates() {
    let early = date(2000, 1, 1);
    let late = date(2030, 1, 1);
    assert!(ChangeFrequency::Always.is_outdated(late, early));
    assert!(!ChangeFrequency::Never.is_outdated(early, late));
    assert_eq!(ChangeFrequency::Always.next_date(early), None);
    assert_eq!(ChangeFrequency::Never.next_date(early), None);
}

#[test]
fn elapsed_frequencies_keep_whole_days() {
    let anchor = date(2020, 12, 31);
    assert_eq!(ChangeFrequency::Hourly.next_date(anchor), Some(anchor));
    assert_eq!(ChangeFrequency::Daily.next_date(anchor), Some(date(2021, 1, 1)));
    assert_eq!(ChangeFrequency::Weekly.next_date(anchor), Some(date(2021, 1, 7)));
    assert!(ChangeFrequency::Hourly.is_outdated(anchor, anchor));
    assert!(!ChangeFrequency::Daily.is_outdated(anchor, anchor));
    assert!(ChangeFrequency::Weekly.is_outdated(anchor, date(2021, 1, 7)));
    assert!(!ChangeFrequency::Weekly.is_outdated(anchor, date(2021, 1, 6)));
}

#[test]
fn calendar_steps_clamp_to_the_month() {
    assert_eq!(ChangeFrequency::Monthly.next_date(date(2023, 1, 31)), Some(date(2023, 2, 28)));
    assert_eq!(ChangeFrequency::Monthly.next_date(date(2024, 1, 31)), Some(date(2024, 2, 29)));
    assert_eq!(ChangeFrequency::Monthly.next_date(date(2023, 12, 15)), Some(date(2024, 1, 15)));
    assert_eq!(ChangeFrequency::Yearly.next_date(date(2024, 2, 29)), Some(date(2025, 2, 28)));
    assert_eq!(ChangeFrequency::Yearly.next_date(date(2022, 9, 12)), Some(date(2023, 9, 12)));
}

#[test]
fn steps_past_the_last_date_have_no_result() {
    let last = date(9999, 12, 31);
    assert_eq!(ChangeFrequency::Daily.next_date(last), None);
    assert_eq!(ChangeFrequency::Weekly.next_date(last), None);
    assert_eq!(ChangeFrequency::Monthly.next_date(last), None);
    assert_eq!(ChangeFrequency::Yearly.next_date(last), None);
    assert_eq!(ChangeFrequency::Hourly.next_date(last), Some(last));
    assert!(!ChangeFrequency::Daily.is_outdated(last, last));
}

#[test]
fn is_due_follows_the_due_date() {
    let now = date(2022, 10, 12);
    assert!(ChangeFrequency::Daily.is_due(Some(date(2022, 10, 12)), now));
    assert!(ChangeFrequency::Daily.is_due(Some(date(2021, 12, 31)), now));
    assert!(!ChangeFrequency::Daily.is_due(Some(date(2022, 10, 13)), now));
    assert!(!ChangeFrequency::Daily.is_due(Some(date(2022, 11, 1)), now));
    assert!(!ChangeFrequency::Daily.is_due(None, now));
    assert!(ChangeFrequency::Always.is_due(None, now));
    assert!(!ChangeFrequency::Never.is_due(Some(now), now));
}

#[test]
fn dates_are_validated() {
    assert!(Date::from_calendar_date(2019, 2, 29).is_none());
    assert!(Date::from_calendar_date(2020, 2, 29).is_some());
    assert!(Date::from_calendar_date(1900, 2, 29).is_none());
    assert!(Date::from_calendar_date(2000, 2, 29).is_some());
    assert!(Date::from_calendar_date(2019, 13, 1).is_none());
    assert!(Date::from_calendar_date(2019, 0, 1).is_none());
    assert!(Date::from_calendar_date(2019, 4, 31).is_none());
    assert!(Date::from_calendar_date(2019, 4, 0).is_none());
    assert!(Date::from_calendar_date(10000, 1, 1).is_none());
    assert!(Date::from_calendar_date(-4, 2, 29).is_some());
    assert_eq!(date(2019, 4, 30), Date { year: 2019, month: 4, day: 30 });
}

#[test]
fn dates_agree_with_the_calendar_of_time() {
    for year in [-400, -1, 0, 1, 1900, 2000, 2023, 2024, 2100, 9999] {
        for month in 1..=12u8 {
            let length = time::Month::try_from(month).unwrap().length(year);
            assert_eq!(sitemaps::attribute::date::days_in_month(year, month), length);
        }
        assert_eq!(sitemaps::attribute::date::is_leap_year(year), time::util::is_leap_year(year));
    }
}

#[test]
fn location_keeps_the_canonical_form() {
    let location = Location::parse("https://www.google.com/").unwrap();
    assert_eq!(location.to_string(), "https://www.google.com/");
    assert_eq!(location.build(), "https://www.google.com/");
    assert_eq!(location.as_str(), "https://www.google.com/");
    assert_eq!(location.underlying(), "https://www.google.com/");
    let bare = Location::parse("HTTPS://Example.COM").unwrap();
    assert_eq!(bare.to_string(), "https://example.com/");
    let spaced = Location::parse("  https://example.com/a b\n").unwrap();
    assert_eq!(spaced.to_string(), "https://example.com/a%20b");
    assert_eq!(spaced.to_string(), url::Url::parse("  https://example.com/a b\n").unwrap().as_str());
}

#[test]
fn location_round_trip_is_stable() {
    for text in ["https://a.example/", "http://EXAMPLE.com:80/x/../y?q=1&r=2#f", "ftp://h/p"] {
        let first = Location::parse(text).unwrap();
        let again = Location::parse(first.to_string().as_str()).unwrap();
        assert_eq!(first, again);
        assert_eq!(first.clone(), first);
    }
}

#[test]
fn location_rejects_what_is_no_absolute_url() {
    assert_eq!(
        Location::parse("/relative/path").unwrap_err().0,
        url::ParseError::RelativeUrlWithoutBase
    );
    assert_eq!(Location::parse("").unwrap_err().0, url::ParseError::RelativeUrlWithoutBase);
    assert_eq!(Location::parse("https://").unwrap_err().0, url::ParseError::EmptyHost);
    assert!(Location::parse("not a url").is_err());
}

#[test]
fn last_modified_reads_a_complete_timestamp() {
    let raw = "1997-07-16T19:20:30.45+01:00";
    let modified = LastModified::parse(raw).unwrap();
    assert_eq!(
        modified.underlying(),
        Timestamp {
            year: 1997,
            month: 7,
            day: 16,
            hour: 19,
            minute: 20,
            second: 30,
            nanosecond: 450_000_000,
            offset_seconds: 3600,
        }
    );
    assert_eq!(modified.to_string(), raw);
    assert_eq!(LastModified::parse(modified.to_string().as_str()), Ok(modified));
}

#[test]
fn last_modified_reads_a_date() {
    let modified = LastModified::parse("2023-01-10").unwrap();
    assert_eq!(modified.underlying(), Timestamp::midnight(Date { year: 2023, month: 1, day: 10 }));
    assert_eq!(modified.underlying().date(), Date { year: 2023, month: 1, day: 10 });
    assert_eq!(modified.to_string(), "2023-01-10T00:00:00.00Z");
}

#[test]
fn last_modified_writes_hundredths() {
    let modified = LastModified::parse("2023-01-10T22:11:17.000-05:00").unwrap();
    assert_eq!(modified.to_string(), "2023-01-10T22:11:17.00-05:00");
    assert_eq!(modified.underlying().offset_seconds, -5 * 3600);
}

#[test]
fn last_modified_keeps_what_its_text_writes() {
    let modified = LastModified::parse("1997-07-16T19:20:30.456789+01:00").unwrap();
    assert_eq!(modified.underlying().nanosecond, 450_000_000);
    assert_eq!(modified.to_string(), "1997-07-16T19:20:30.45+01:00");
    assert_eq!(LastModified::parse(modified.to_string().as_str()), Ok(modified));
    let stamp = Timestamp {
        year: 2023,
        month: 12,
        day: 31,
        hour: 23,
        minute: 59,
        second: 59,
        nanosecond: 999_999_999,
        offset_seconds: -(12 * 3600 + 30 * 60),
    };
    assert_eq!(stamp.hundredths(), Timestamp { nanosecond: 990_000_000, ..stamp });
    let made = LastModified::new(stamp).unwrap();
    assert_eq!(made.underlying(), stamp.hundredths());
    assert_eq!(made.to_string(), "2023-12-31T23:59:59.99-12:30");
    assert_eq!(LastModified::parse(made.to_string().as_str()), Ok(made));
    assert_eq!(LastModified::new(made.underlying()), Ok(made));
}

#[test]
fn last_modified_format_is_the_encoded_configuration() {
    let config = Config::DEFAULT
        .set_time_precision(TimePrecision::Second { decimal_digits: std::num::NonZeroU8::new(2) })
        .encode();
    assert_eq!(config, sitemaps::attribute::modified::LAST_MODIFIED_FORMAT);
}

#[test]
fn last_modified_tells_the_errors_apart() {
    assert!(matches!(
        LastModified::parse("2023-01-10T25:00:00Z"),
        Err(LastModifiedError::CompleteTimestamp(_))
    ));
    assert!(matches!(
        LastModified::parse("2023-01-10T22:11:17"),
        Err(LastModifiedError::CompleteTimestamp(_))
    ));
    assert!(matches!(
        LastModified::parse("2023-13-10"),
        Err(LastModifiedError::InCompleteTimestamp(_))
    ));
    assert!(matches!(LastModified::parse(""), Err(LastModifiedError::InCompleteTimestamp(_))));
    assert!(matches!(
        LastModified::parse("yesterday"),
        Err(LastModifiedError::InCompleteTimestamp(_))
    ));
    assert!(LastModified::holds_time_part("2023-01-10T22:11:17Z"));
    assert!(!LastModified::holds_time_part("2023-01-10"));
}

#[test]
fn last_modified_new_rejects_what_cannot_be_written() {
    let good = Timestamp {
        year: 2023,
        month: 1,
        day: 10,
        hour: 1,
        minute: 2,
        second: 3,
        nanosecond: 0,
        offset_seconds: 0,
    };
    assert_eq!(LastModified::new(good).unwrap().underlying(), good);
    let no_day = Timestamp { day: 31, month: 2, ..good };
    assert_eq!(LastModified::new(no_day), Err(LastModifiedError::Unwritable(no_day)));
    let odd_offset = Timestamp { offset_seconds: 61, ..good };
    assert_eq!(LastModified::new(odd_offset), Err(LastModifiedError::Unwritable(odd_offset)));
    let no_hour = Timestamp { hour: 24, ..good };
    assert_eq!(LastModified::new(no_hour), Err(LastModifiedError::Unwritable(no_hour)));
}

#[test]
fn priority_parse_reads_decimals() {
    let half = Priority::parse("0.5").unwrap();
    assert_eq!(half.underlying(), 500_000);
    assert_eq!(half.underlying() as f32 / 1_000_000.0, 0.5);
    assert_eq!(Priority::parse("1").unwrap().underlying(), 1_000_000);
    assert_eq!(Priority::parse("1.0").unwrap().underlying(), 1_000_000);
    assert_eq!(Priority::parse("-1").unwrap().underlying(), -1_000_000);
    assert_eq!(Priority::parse("+0.25").unwrap().underlying(), 250_000);
    assert_eq!(Priority::parse(".5").unwrap().underlying(), 500_000);
    assert_eq!(Priority::parse("0.").unwrap().underlying(), 0);
    assert_eq!(Priority::parse("-0").unwrap().underlying(), 0);
    assert_eq!(Priority::parse("0.8").unwrap().underlying(), 800_000);
    assert_eq!(Priority::parse("0.000001").unwrap().underlying(), 1);
    assert_eq!(Priority::parse("0.1234567").unwrap().underlying(), 123_456);
    assert_eq!(Priority::parse("0.9999999").unwrap().underlying(), 999_999);
    assert_eq!(Priority::parse("000.500").unwrap().underlying(), 500_000);
}

#[test]
fn priority_parse_rejects_what_is_out_of_range() {
    assert_eq!(
        Priority::parse("1.5"),
        Err(PriorityError::RangeError(PriorityRangeError(1_500_000)))
    );
    assert_eq!(
        Priority::parse("-1.000001"),
        Err(PriorityError::RangeError(PriorityRangeError(-1_000_001)))
    );
    assert_eq!(
        Priority::parse("2147.483647"),
        Err(PriorityError::RangeError(PriorityRangeError(2_147_483_647)))
    );
    assert_eq!(
        Priority::parse("2147.483648"),
        Err(PriorityError::RangeError(PriorityRangeError(2_147_483_647)))
    );
    assert_eq!(
        Priority::parse("-99999999999999999999999999"),
        Err(PriorityError::RangeError(PriorityRangeError(-2_147_483_647)))
    );
    assert_eq!(
        Priority::parse("2999.5"),
        Err(PriorityError::RangeError(PriorityRangeError(2_147_483_647)))
    );
}

#[test]
fn priority_parse_tests_the_number_with_all_its_digits() {
    assert_eq!(
        Priority::parse("1.0000001"),
        Err(PriorityError::RangeError(PriorityRangeError(1_000_001)))
    );
    assert_eq!(
        Priority::parse("-1.0000001"),
        Err(PriorityError::RangeError(PriorityRangeError(-1_000_001)))
    );
    assert_eq!(
        Priority::parse("1.00000000000000000000000000000000000001"),
        Err(PriorityError::RangeError(PriorityRangeError(1_000_001)))
    );
    assert_eq!(
        Priority::parse("1.5000001"),
        Err(PriorityError::RangeError(PriorityRangeError(1_500_000)))
    );
    assert_eq!(Priority::parse("1.0000000").unwrap().underlying(), 1_000_000);
    assert_eq!(Priority::parse("-1.000000000000").unwrap().underlying(), -1_000_000);
    assert_eq!(Priority::parse("0.9999999").unwrap().underlying(), 999_999);
    assert_eq!(Priority::parse("-0.9999999").unwrap().underlying(), -999_999);
    assert_eq!(Priority::parse("0.0000001").unwrap().underlying(), 0);
    assert_eq!(Priority::parse("-0.0000009").unwrap().underlying(), 0);
    for text in ["1.0000001", "-1.0000001", "1.000001", "2", "-1.5"] {
        let float: f32 = text.parse().unwrap();
        assert!(!(-1.0..=1.0).contains(&float), "{text}");
        assert!(Priority::parse(text).is_err(), "{text}");
    }
}

#[test]
fn decimals_tell_what_was_cut_off() {
    use_decimal("0.5", 500_000, true);
    use_decimal("0.5000000000", 500_000, true);
    use_decimal("0.5000000001", 500_000, false);
    use_decimal("-0.1234567", -123_456, false);
    use_decimal("12.000000", 12_000_000, true);
    use_decimal("12.0000001", 12_000_000, false);
    use_decimal("3000.0000001", 2_147_483_647, false);
    assert_eq!(Priority::from_decimal(Decimal { millionths: 1_000_000, exact: true }).unwrap(), Priority::highest());
    assert_eq!(
        Priority::from_decimal(Decimal { millionths: 1_000_000, exact: false }),
        Err(PriorityRangeError(1_000_001))
    );
    assert_eq!(
        Priority::from_decimal(Decimal { millionths: -1_000_000, exact: false }),
        Err(PriorityRangeError(-1_000_001))
    );
    assert_eq!(
        Priority::from_decimal(Decimal { millionths: 999_999, exact: false }).unwrap().underlying(),
        999_999
    );
    assert_eq!(
        Priority::from_decimal(Decimal { millionths: 2_000_000, exact: false }),
        Err(PriorityRangeError(2_000_000))
    );
}

fn use_decimal(text: &str, millionths: i32, exact: bool) {
    assert_eq!(
        sitemaps::attribute::priority::parse_decimal(text.as_bytes()),
        Ok(Decimal { millionths, exact }),
        "{text}"
    );
}

#[test]
fn priority_parse_rejects_what_is_no_number() {
    assert_eq!(Priority::parse("abc"), Err(PriorityError::ParseError(DecimalError::Invalid)));
    assert_eq!(Priority::parse(""), Err(PriorityError::ParseError(DecimalError::Empty)));
    for text in [
        "+", "-", ".", "+.", "1.2.3", " 0.5", "0.5 ", "0,5", "1e-1", "1e0", "--1", "0x1", "½", "NaN",
        "inf", "-inf", "infinity",
    ] {
        assert_eq!(
            Priority::parse(text),
            Err(PriorityError::ParseError(DecimalError::Invalid)),
            "{text}"
        );
    }
}

#[test]
fn priority_new_checks_the_range() {
    assert_eq!(Priority::new(500_000).unwrap().underlying(), 500_000);
    assert_eq!(Priority::new(1_000_000).unwrap(), Priority::highest());
    assert_eq!(Priority::new(-1_000_000).unwrap(), Priority::lowest());
    assert_eq!(Priority::new(1_000_001), Err(PriorityRangeError(1_000_001)));
    assert_eq!(Priority::new(-1_000_001), Err(PriorityRangeError(-1_000_001)));
    assert_eq!(Priority::new(i32::MIN), Err(PriorityRangeError(i32::MIN)));
    assert!(Priority::lowest() < Priority::new(0).unwrap());
    assert!(Priority::new(0).unwrap() < Priority::highest());
}

#[test]
fn priority_writes_without_trailing_zeros() {
    let cases = [
        (500_000, "0.5"),
        (0, "0"),
        (1_000_000, "1"),
        (-1_000_000, "-1"),
        (-250_000, "-0.25"),
        (800_000, "0.8"),
        (1, "0.000001"),
        (100, "0.0001"),
        (999_999, "0.999999"),
        (-10, "-0.00001"),
        (120_030, "0.12003"),
    ];
    for (millionths, text) in cases {
        let priority = Priority::new(millionths).unwrap();
        assert_eq!(priority.to_string(), text);
        assert_eq!(priority.build(), text);
        assert_eq!(Priority::parse(text), Ok(priority));
    }
}

#[test]
fn priority_round_trip_over_a_grid() {
    let mut millionths = -1_000_000;
    while millionths <= 1_000_000 {
        let priority = Priority::new(millionths).unwrap();
        assert_eq!(Priority::parse(priority.to_string().as_str()), Ok(priority));
        millionths += 7_919;
    }
}

#[test]
fn parse_decimal_agrees_with_the_float_grammar_where_both_apply() {
    for text in ["0.5", "1", "-0.25", ".75", "0.", "+1.0", "0.125"] {
        let ours = sitemaps::attribute::priority::parse_decimal(text.as_bytes()).unwrap();
        let theirs: f64 = text.parse().unwrap();
        assert!(ours.exact);
        assert_eq!(ours.millionths as f64 / 1_000_000.0, theirs, "{text}");
    }
}
