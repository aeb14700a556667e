//! Unit tests of the extraction and rendering pieces.

use ical2rem::datetime::DateTime;
use ical2rem::model::{ConvertError, Property};
use ical2rem::properties::{
    add_timezone, get_property_datetime, get_property_value, parse_recurrance_rule, to_day,
};

fn prop(name: &str, value: &str) -> Property {
    Property { name: name.to_string(), value: Some(value.to_string()), params: vec![] }
}

fn dt(year: u32, month: u32, day: u32, hour: u32, minute: u32, second: u32) -> DateTime {
    DateTime { year, month, day, hour, minute, second }
}

#[test]
fn weekday_codes_map_to_abbreviations() {
    assert_eq!(to_day("MO"), "Mon");
    assert_eq!(to_day("TU"), "Tue");
    assert_eq!(to_day("WE"), "Wed");
    assert_eq!(to_day("TH"), "Thu");
    assert_eq!(to_day("FR"), "Fri");
    assert_eq!(to_day("SA"), "Sat");
    assert_eq!(to_day("SU"), "Sun");
    assert_eq!(to_day("XX"), "");
    assert_eq!(to_day("mo"), "");
}

#[test]
fn weekly_rule_joins_days_with_spaces() {
    let r = parse_recurrance_rule(Some("FREQ=WEEKLY;BYDAY=MO,WE,FR".to_string()));
    assert_eq!(r, Some("Mon Wed Fri".to_string()));
}

#[test]
fn daily_rule_is_no_recurrence() {
    assert_eq!(parse_recurrance_rule(Some("FREQ=DAILY".to_string())), None);
}

#[test]
fn unknown_frequency_is_no_recurrence() {
    assert_eq!(parse_recurrance_rule(Some("FREQ=MONTHLY;BYDAY=MO".to_string())), None);
    assert_eq!(parse_recurrance_rule(Some("COUNT=3".to_string())), None);
    assert_eq!(parse_recurrance_rule(None), None);
}

#[test]
fn unrecognized_day_leaves_dangling_separator() {
    let r = parse_recurrance_rule(Some("FREQ=WEEKLY;BYDAY=MO,XX".to_string()));
    assert_eq!(r, Some("Mon ".to_string()));
}

#[test]
fn duplicate_rule_key_last_wins() {
    let r = parse_recurrance_rule(Some("FREQ=DAILY;FREQ=WEEKLY;BYDAY=TU".to_string()));
    assert_eq!(r, Some("Tue".to_string()));
}

#[test]
fn weekly_without_byday_is_empty_string() {
    assert_eq!(parse_recurrance_rule(Some("FREQ=WEEKLY".to_string())), Some("".to_string()));
}

#[test]
fn lookup_is_case_insensitive_and_first_wins() {
    let props = vec![prop("SUMMARY", "one"), prop("SUMMARY", "two")];
    assert_eq!(get_property_value(&props, "summary"), Some("one".to_string()));
    assert_eq!(get_property_value(&props, "MISSING"), None);
}

#[test]
fn valueless_property_is_passed_over() {
    let props = vec![
        Property { name: "SUMMARY".to_string(), value: None, params: vec![] },
        prop("SUMMARY", "fallback"),
    ];
    assert_eq!(get_property_value(&props, "SUMMARY"), Some("fallback".to_string()));
}

#[test]
fn empty_offset_passes_datetime_through() {
    let d = dt(2024, 1, 1, 9, 0, 0);
    assert_eq!(add_timezone(d, ""), Ok(d));
}

#[test]
fn offset_correction_adds_the_offset_difference() {
    let d = dt(2024, 1, 1, 9, 0, 0);
    assert_eq!(add_timezone(d, "-0500"), Ok(dt(2024, 1, 1, 19, 30, 0)));
    assert_eq!(add_timezone(d, "+0530"), Ok(d));
    assert_eq!(add_timezone(d, "+0100"), Ok(dt(2024, 1, 1, 13, 30, 0)));
}

#[test]
fn offset_correction_can_cross_midnight() {
    let d = dt(2024, 12, 31, 22, 0, 0);
    assert_eq!(add_timezone(d, "-0500"), Ok(dt(2025, 1, 1, 8, 30, 0)));
}

#[test]
fn malformed_offsets_are_rejected() {
    let d = dt(2024, 1, 1, 9, 0, 0);
    assert_eq!(add_timezone(d, "0500"), Err(ConvertError::TimezoneError));
    assert_eq!(add_timezone(d, "+05"), Err(ConvertError::TimezoneError));
    assert_eq!(add_timezone(d, "+2500"), Err(ConvertError::TimezoneError));
    assert_eq!(add_timezone(d, "+0575"), Err(ConvertError::TimezoneError));
    assert_eq!(add_timezone(d, "bogus"), Err(ConvertError::TimezoneError));
}

#[test]
fn tzid_parameter_values_are_concatenated() {
    let p = Property {
        name: "DTSTART".to_string(),
        value: Some("20240101T090000".to_string()),
        params: vec![(
            "TZID".to_string(),
            vec!["America/".to_string(), "New_York".to_string()],
        )],
    };
    let tzmap = vec![("America/New_York".to_string(), "-0500".to_string())];
    let r = get_property_datetime(&vec![p], &tzmap, "DTSTART");
    assert_eq!(r, Ok(dt(2024, 1, 1, 19, 30, 0)));
}

#[test]
fn missing_property_and_bad_value_errors() {
    let props = vec![prop("DTSTART", "20240101T090000")];
    let tzmap: Vec<(String, String)> = vec![];
    assert_eq!(
        get_property_datetime(&props, &tzmap, "DTEND"),
        Err(ConvertError::MissingProperty)
    );
    let bad = vec![prop("DTSTART", "20241301T090000")];
    assert_eq!(
        get_property_datetime(&bad, &tzmap, "DTSTART"),
        Err(ConvertError::InvalidDateFormat)
    );
    let leap = vec![prop("DTSTART", "20230229")];
    assert_eq!(
        get_property_datetime(&leap, &tzmap, "DTSTART"),
        Err(ConvertError::InvalidDateFormat)
    );
    let valid_leap = vec![prop("DTSTART", "20240229")];
    assert_eq!(
        get_property_datetime(&valid_leap, &tzmap, "DTSTART"),
        Ok(dt(2024, 2, 29, 0, 0, 0))
    );
}

#[test]
fn error_descriptions_are_stable() {
    assert_eq!(ConvertError::MissingProperty.describe(), "Unable to find property");
    assert_eq!(ConvertError::InvalidDateFormat.describe(), "Invalid date format");
    assert_eq!(ConvertError::TimezoneError.describe(), "Invalid timezone offset");
}

#[test]
fn offset_correction_can_cross_midnight_backward() {
    let d = dt(2024, 1, 1, 0, 30, 0);
    assert_eq!(add_timezone(d, "+1400"), Ok(dt(2023, 12, 31, 16, 0, 0)));
}

#[test]
fn correction_out_of_the_representable_range_fails() {
    let d = dt(0, 1, 1, 0, 0, 0);
    assert_eq!(add_timezone(d, "+1400"), Err(ConvertError::TimezoneError));
}

#[test]
fn four_digit_years_parse_with_leading_zeros() {
    let props = vec![prop("DTSTART", "00420101T120000")];
    let tzmap: Vec<(String, String)> = vec![];
    assert_eq!(get_property_datetime(&props, &tzmap, "DTSTART"), Ok(dt(42, 1, 1, 12, 0, 0)));
}
