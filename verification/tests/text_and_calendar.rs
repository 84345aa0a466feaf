use chrono::{Datelike, NaiveDate, TimeZone, Utc};
use gasmask_bot::calendar::{
    days_ago_timestamp, midnight_timestamp, profile_log_timestamps, utc_date_display,
    UNIX_EPOCH_CE_DAY,
};
use gasmask_bot::commands::leaderboard::resolve_leaderboard_start;
use gasmask_bot::util::{time_period_bounds, TimePeriod};
use gasmask_bot::text::{
    decimal_text, format_count, format_signed_count, remove_all,
    signed_decimal_text, some_kind_of_uppercase_first_letter, text_precedes, text_starts_with,
};

#[test]
fn decimal_text_renders_digits() {
    assert_eq!(decimal_text(0), "0");
    assert_eq!(decimal_text(7), "7");
    assert_eq!(decimal_text(1234567), "1234567");
    assert_eq!(decimal_text(u64::MAX), u64::MAX.to_string());
}

#[test]
fn signed_decimal_text_renders_sign() {
    assert_eq!(signed_decimal_text(-42), "-42");
    assert_eq!(signed_decimal_text(0), "0");
    assert_eq!(signed_decimal_text(i64::MIN), i64::MIN.to_string());
    assert_eq!(signed_decimal_text(i64::MAX), i64::MAX.to_string());
}

#[test]
fn format_count_groups_thousands() {
    assert_eq!(format_count(0), "0");
    assert_eq!(format_count(999), "999");
    assert_eq!(format_count(1000), "1,000");
    assert_eq!(format_count(1000000), "1,000,000");
    assert_eq!(format_count(1234567), "1,234,567");
    assert_eq!(format_count(u64::MAX), "18,446,744,073,709,551,615");
}

#[test]
fn format_signed_count_groups_thousands() {
    assert_eq!(format_signed_count(-1234567), "-1,234,567");
    assert_eq!(format_signed_count(-999), "-999");
    assert_eq!(format_signed_count(5005), "5,005");
    assert_eq!(format_signed_count(i64::MIN), "-9,223,372,036,854,775,808");
}

#[test]
fn grouping_only_adds_separators() {
    for n in [0u64, 9, 10, 999, 1000, 1001, 65_536, 1_000_000, 987_654_321, u64::MAX] {
        assert_eq!(format_count(n).replace(',', ""), decimal_text(n));
    }
}

#[test]
fn remove_all_takes_out_every_occurrence() {
    assert_eq!(remove_all("2022-07-13UTC", "UTC"), "2022-07-13");
    assert_eq!(remove_all("aZbZZc", "Z"), "abc");
    assert_eq!(remove_all("UUTCTC", "UTC"), "UTC");
    assert_eq!(remove_all("\"Steve\"", "\""), "Steve");
    assert_eq!(remove_all("abc", ""), "abc");
    assert_eq!(remove_all("", "x"), "");
    for (s, p) in [("aaaa", "aa"), ("abcabcab", "cab"), ("héhého", "hé")] {
        assert_eq!(remove_all(s, p), s.replace(p, ""));
    }
}

#[test]
fn text_precedes_follows_string_order() {
    assert!(text_precedes("abc", "abd"));
    assert!(text_precedes("ab", "abc"));
    assert!(!text_precedes("b", "a"));
    assert!(!text_precedes("a", "a"));
    assert!(text_precedes("", "a"));
    let words = ["Zed", "alpha", "Älg", "zulu", "日本", "émile", "", "a"];
    for a in words {
        for b in words {
            assert_eq!(text_precedes(a, b), a.to_string() < b.to_string(), "{a} {b}");
        }
    }
}

#[test]
fn text_starts_with_checks_prefix() {
    assert!(text_starts_with("Corrupted Decrepit Sewers", "Corrupted"));
    assert!(!text_starts_with("Decrepit Sewers", "Corrupted"));
    assert!(!text_starts_with("Corrupt", "Corrupted"));
    assert!(text_starts_with("anything", ""));
}

#[test]
fn uppercase_first_letter_maps_only_the_first() {
    assert_eq!(some_kind_of_uppercase_first_letter("chief"), "Chief");
    assert_eq!(some_kind_of_uppercase_first_letter(""), "");
    assert_eq!(some_kind_of_uppercase_first_letter("recruit member"), "Recruit member");
    assert_eq!(some_kind_of_uppercase_first_letter("ßa"), "SSa");
    assert_eq!(some_kind_of_uppercase_first_letter("1st"), "1st");
}

fn parsed_day(text: &str) -> Option<i32> {
    resolve_leaderboard_start(Some(text), 738_400).ok().map(|start| start.day)
}

#[test]
fn dates_parse_as_year_month_day() {
    let expected = NaiveDate::from_ymd_opt(2022, 7, 13).unwrap().num_days_from_ce();
    assert_eq!(parsed_day("2022-07-13"), Some(expected));
    assert_eq!(parsed_day("2022-07-13"), Some(738_349));
    assert_eq!(parsed_day("13/07/2022"), None);
    assert_eq!(parsed_day("2022-02-30"), None);
    assert_eq!(parsed_day(""), None);
}

#[test]
fn day_numbers_map_to_calendar_dates() {
    let bounds = |a: i32, b: i32| time_period_bounds(&TimePeriod(a, b));
    assert_eq!(bounds(738_349, UNIX_EPOCH_CE_DAY), Some(("2022-07-13".to_string(), "1970-01-01".to_string())));
    assert_eq!(bounds(1, 2), Some(("0001-01-01".to_string(), "0001-01-02".to_string())));
    assert_eq!(bounds(1, i32::MAX), None);
}

#[test]
fn midnight_timestamp_counts_seconds_from_epoch() {
    assert_eq!(midnight_timestamp(UNIX_EPOCH_CE_DAY), 0);
    assert_eq!(midnight_timestamp(738_349), 1_657_670_400);
    #[allow(deprecated)]
    let chrono_value =
        Utc.from_utc_date(&NaiveDate::from_ymd_opt(2022, 7, 13).unwrap()).and_hms(0, 0, 0).timestamp_millis() / 1000;
    assert_eq!(midnight_timestamp(738_349), chrono_value);
    assert_eq!(midnight_timestamp(UNIX_EPOCH_CE_DAY - 1), -86_400);
    assert_eq!(days_ago_timestamp(738_349, 7), midnight_timestamp(738_342));
    assert_eq!(days_ago_timestamp(738_349, 1) + 86_400, midnight_timestamp(738_349));
}

#[test]
fn utc_date_display_matches_chrono() {
    assert_eq!(utc_date_display(2022, 7, 13), "2022-07-13UTC");
    assert_eq!(utc_date_display(5, 1, 2), "0005-01-02UTC");
    assert_eq!(utc_date_display(12345, 1, 2), "+12345-01-02UTC");
    assert_eq!(utc_date_display(-5, 12, 31), "-0005-12-31UTC");
    for (y, m, d) in [(2022, 7, 13), (1, 1, 1), (9999, 12, 31), (10000, 1, 1), (-1, 6, 15), (-300, 2, 29)] {
        if let Some(date) = NaiveDate::from_ymd_opt(y, m, d) {
            #[allow(deprecated)]
            let shown = Utc.from_utc_date(&date).to_string();
            assert_eq!(utc_date_display(y, m, d), shown);
        }
    }
}

#[test]
fn profile_log_timestamps_are_one_and_seven_days_back() {
    let (day_ago, week_ago) = profile_log_timestamps(738_350);
    assert_eq!(day_ago, midnight_timestamp(738_349));
    assert_eq!(day_ago, 1_657_670_400);
    assert_eq!(day_ago - week_ago, 6 * 86_400);
}
