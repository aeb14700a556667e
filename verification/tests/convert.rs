//! End-to-end tests of the calendar-to-reminder conversion pipeline.

use ical2rem::ical2rem;
use ical2rem::model::{
    CalendarDoc, ConvertError, Event, Property, TimezoneDef, TimezoneTransition, TransitionKind,
};

fn prop(name: &str, value: &str) -> Property {
    Property { name: name.to_string(), value: Some(value.to_string()), params: vec![] }
}

fn prop_tz(name: &str, value: &str, tzid: &str) -> Property {
    Property {
        name: name.to_string(),
        value: Some(value.to_string()),
        params: vec![("TZID".to_string(), vec![tzid.to_string()])],
    }
}

fn event(props: Vec<Property>) -> Event {
    Event { properties: props }
}

fn calendar(events: Vec<Event>) -> CalendarDoc {
    CalendarDoc { timezones: vec![], events }
}

fn single_line(cal: &CalendarDoc) -> String {
    let results = ical2rem(cal);
    assert_eq!(results.len(), cal.events.len());
    results[0].clone().expect("conversion should succeed")
}

#[test]
fn duration_under_one_day() {
    let cal = calendar(vec![event(vec![
        prop("SUMMARY", "Standup"),
        prop("DTSTART", "20240101T100000"),
        prop("DTEND", "20240101T104500"),
    ])]);
    assert_eq!(single_line(&cal), "REM 01 Jan 2024 AT 10:00 DURATION 45 MSG Standup");
}

#[test]
fn until_from_two_days() {
    let cal = calendar(vec![event(vec![
        prop("SUMMARY", "Offsite"),
        prop("DTSTART", "20240101T000000"),
        prop("DTEND", "20240103T000000"),
    ])]);
    assert_eq!(single_line(&cal), "REM 01 Jan 2024 AT 00:00 UNTIL 03 Jan 2024 MSG Offsite");
}

#[test]
fn until_at_exactly_one_day() {
    let cal = calendar(vec![event(vec![
        prop("SUMMARY", "Allday"),
        prop("DTSTART", "20240101T000000"),
        prop("DTEND", "20240102T000000"),
    ])]);
    assert_eq!(single_line(&cal), "REM 01 Jan 2024 AT 00:00 UNTIL 02 Jan 2024 MSG Allday");
}

#[test]
fn date_clause_formatting() {
    let cal = calendar(vec![event(vec![
        prop("SUMMARY", "Review"),
        prop("DTSTART", "20240305T143000"),
        prop("DTEND", "20240305T150000"),
    ])]);
    assert_eq!(single_line(&cal), "REM 05 Mar 2024 AT 14:30 DURATION 30 MSG Review");
}

#[test]
fn weekly_recurrence_renders_days() {
    let cal = calendar(vec![event(vec![
        prop("SUMMARY", "Gym"),
        prop("DTSTART", "20240305T143000"),
        prop("DTEND", "20240305T150000"),
        prop("RRULE", "FREQ=WEEKLY;BYDAY=MO,WE,FR"),
    ])]);
    assert_eq!(
        single_line(&cal),
        "REM Mon Wed Fri FROM 05 Mar 2024 AT 14:30 DURATION 30 MSG Gym"
    );
}

#[test]
fn daily_recurrence_renders_plain_date() {
    let cal = calendar(vec![event(vec![
        prop("SUMMARY", "Gym"),
        prop("DTSTART", "20240305T143000"),
        prop("DTEND", "20240305T150000"),
        prop("RRULE", "FREQ=DAILY"),
    ])]);
    assert_eq!(single_line(&cal), "REM 05 Mar 2024 AT 14:30 DURATION 30 MSG Gym");
}

#[test]
fn weekly_without_byday_keeps_empty_token() {
    let cal = calendar(vec![event(vec![
        prop("SUMMARY", "Gym"),
        prop("DTSTART", "20240305T143000"),
        prop("DTEND", "20240305T150000"),
        prop("RRULE", "FREQ=WEEKLY"),
    ])]);
    assert_eq!(single_line(&cal), "REM  FROM 05 Mar 2024 AT 14:30 DURATION 30 MSG Gym");
}

#[test]
fn missing_dtstart_fails_only_that_event() {
    let cal = calendar(vec![
        event(vec![prop("SUMMARY", "Broken"), prop("DTEND", "20240101T110000")]),
        event(vec![
            prop("SUMMARY", "Fine"),
            prop("DTSTART", "20240101T100000"),
            prop("DTEND", "20240101T110000"),
        ]),
    ]);
    let results = ical2rem(&cal);
    assert_eq!(results.len(), 2);
    assert_eq!(results[0], Err(ConvertError::MissingProperty));
    assert_eq!(
        results[1].clone().unwrap(),
        "REM 01 Jan 2024 AT 10:00 DURATION 60 MSG Fine"
    );
}

#[test]
fn timezone_correction_shifts_to_reference_offset() {
    let tz = TimezoneDef {
        properties: vec![prop("TZID", "America/New_York")],
        transitions: vec![TimezoneTransition {
            kind: TransitionKind::Standard,
            properties: vec![prop("TZOFFSETFROM", "-0500")],
        }],
    };
    let cal = CalendarDoc {
        timezones: vec![tz],
        events: vec![event(vec![
            prop("SUMMARY", "Call"),
            prop_tz("DTSTART", "20240101T090000", "America/New_York"),
            prop_tz("DTEND", "20240101T100000", "America/New_York"),
        ])],
    };
    assert_eq!(single_line(&cal), "REM 01 Jan 2024 AT 19:30 DURATION 60 MSG Call");
}

#[test]
fn daylight_transitions_are_skipped() {
    let tz = TimezoneDef {
        properties: vec![prop("TZID", "Zone")],
        transitions: vec![
            TimezoneTransition {
                kind: TransitionKind::Daylight,
                properties: vec![prop("TZOFFSETFROM", "-0400")],
            },
            TimezoneTransition {
                kind: TransitionKind::Standard,
                properties: vec![prop("TZOFFSETFROM", "-0500")],
            },
        ],
    };
    let cal = CalendarDoc {
        timezones: vec![tz],
        events: vec![event(vec![
            prop("SUMMARY", "Call"),
            prop_tz("DTSTART", "20240101T090000", "Zone"),
            prop_tz("DTEND", "20240101T091000", "Zone"),
        ])],
    };
    assert_eq!(single_line(&cal), "REM 01 Jan 2024 AT 19:30 DURATION 10 MSG Call");
}

#[test]
fn unknown_timezone_passes_value_through() {
    let cal = calendar(vec![event(vec![
        prop("SUMMARY", "Call"),
        prop_tz("DTSTART", "20240101T090000", "Nowhere/Unknown"),
        prop_tz("DTEND", "20240101T100000", "Nowhere/Unknown"),
    ])]);
    assert_eq!(single_line(&cal), "REM 01 Jan 2024 AT 09:00 DURATION 60 MSG Call");
}

#[test]
fn malformed_offset_is_a_timezone_error() {
    let tz = TimezoneDef {
        properties: vec![prop("TZID", "Zone")],
        transitions: vec![TimezoneTransition {
            kind: TransitionKind::Standard,
            properties: vec![prop("TZOFFSETFROM", "bogus")],
        }],
    };
    let cal = CalendarDoc {
        timezones: vec![tz],
        events: vec![event(vec![
            prop("SUMMARY", "Call"),
            prop_tz("DTSTART", "20240101T090000", "Zone"),
            prop_tz("DTEND", "20240101T100000", "Zone"),
        ])],
    };
    let results = ical2rem(&cal);
    assert_eq!(results[0], Err(ConvertError::TimezoneError));
}

#[test]
fn empty_meet_link_leaves_no_trailing_space() {
    let cal = calendar(vec![event(vec![
        prop("SUMMARY", "Solo"),
        prop("DTSTART", "20240101T100000"),
        prop("DTEND", "20240101T101500"),
    ])]);
    let line = single_line(&cal);
    assert!(!line.ends_with(' '));
    assert_eq!(line, "REM 01 Jan 2024 AT 10:00 DURATION 15 MSG Solo");
}

#[test]
fn meet_link_is_appended_after_summary() {
    let cal = calendar(vec![event(vec![
        prop("SUMMARY", "Sync"),
        prop("X-GOOGLE-CONFERENCE", "https://meet.example/abc"),
        prop("DTSTART", "20240101T100000"),
        prop("DTEND", "20240101T101500"),
    ])]);
    assert_eq!(
        single_line(&cal),
        "REM 01 Jan 2024 AT 10:00 DURATION 15 MSG Sync https://meet.example/abc"
    );
}

#[test]
fn converting_twice_is_deterministic() {
    let cal = calendar(vec![
        event(vec![
            prop("SUMMARY", "One"),
            prop("DTSTART", "20240101T100000"),
            prop("DTEND", "20240101T110000"),
        ]),
        event(vec![prop("SUMMARY", "Broken")]),
    ]);
    let first = ical2rem(&cal);
    let second = ical2rem(&cal);
    assert_eq!(first, second);
}

#[test]
fn output_preserves_event_order_and_count() {
    let cal = calendar(vec![
        event(vec![
            prop("SUMMARY", "A"),
            prop("DTSTART", "20240101T100000"),
            prop("DTEND", "20240101T101000"),
        ]),
        event(vec![
            prop("SUMMARY", "B"),
            prop("DTSTART", "20240102T100000"),
            prop("DTEND", "20240102T101000"),
        ]),
        event(vec![
            prop("SUMMARY", "C"),
            prop("DTSTART", "20240103T100000"),
            prop("DTEND", "20240103T101000"),
        ]),
    ]);
    let results = ical2rem(&cal);
    assert_eq!(results.len(), 3);
    assert_eq!(results[0].clone().unwrap(), "REM 01 Jan 2024 AT 10:00 DURATION 10 MSG A");
    assert_eq!(results[1].clone().unwrap(), "REM 02 Jan 2024 AT 10:00 DURATION 10 MSG B");
    assert_eq!(results[2].clone().unwrap(), "REM 03 Jan 2024 AT 10:00 DURATION 10 MSG C");
}

#[test]
fn invalid_date_length_is_rejected() {
    let cal = calendar(vec![event(vec![
        prop("SUMMARY", "Bad"),
        prop("DTSTART", "2024"),
        prop("DTEND", "20240101T110000"),
    ])]);
    let results = ical2rem(&cal);
    assert_eq!(results[0], Err(ConvertError::InvalidDateFormat));
}

#[test]
fn malformed_digits_are_rejected() {
    let cal = calendar(vec![event(vec![
        prop("SUMMARY", "Bad"),
        prop("DTSTART", "2024AB01T100000"),
        prop("DTEND", "20240101T110000"),
    ])]);
    let results = ical2rem(&cal);
    assert_eq!(results[0], Err(ConvertError::InvalidDateFormat));
}

#[test]
fn date_only_value_defaults_to_midnight() {
    let cal = calendar(vec![event(vec![
        prop("SUMMARY", "Day"),
        prop("DTSTART", "20240101"),
        prop("DTEND", "20240102"),
    ])]);
    assert_eq!(single_line(&cal), "REM 01 Jan 2024 AT 00:00 UNTIL 02 Jan 2024 MSG Day");
}

#[test]
fn utc_suffixed_value_is_accepted() {
    let cal = calendar(vec![event(vec![
        prop("SUMMARY", "Utc"),
        prop("DTSTART", "20240101T100000Z"),
        prop("DTEND", "20240101T103000Z"),
    ])]);
    assert_eq!(single_line(&cal), "REM 01 Jan 2024 AT 10:00 DURATION 30 MSG Utc");
}

#[test]
fn negative_duration_renders_negative_minutes() {
    let cal = calendar(vec![event(vec![
        prop("SUMMARY", "Backwards"),
        prop("DTSTART", "20240101T100000"),
        prop("DTEND", "20240101T093000"),
    ])]);
    assert_eq!(single_line(&cal), "REM 01 Jan 2024 AT 10:00 DURATION -30 MSG Backwards");
}

#[test]
fn first_summary_wins_among_duplicates() {
    let cal = calendar(vec![event(vec![
        prop("SUMMARY", "First"),
        prop("SUMMARY", "Second"),
        prop("DTSTART", "20240101T100000"),
        prop("DTEND", "20240101T101000"),
    ])]);
    assert_eq!(single_line(&cal), "REM 01 Jan 2024 AT 10:00 DURATION 10 MSG First");
}

#[test]
fn property_names_match_case_insensitively() {
    let cal = calendar(vec![event(vec![
        Property {
            name: "Summary".to_string(),
            value: Some("Mixed".to_string()),
            params: vec![],
        },
        prop("DTSTART", "20240101T100000"),
        prop("DTEND", "20240101T101000"),
    ])]);
    assert_eq!(single_line(&cal), "REM 01 Jan 2024 AT 10:00 DURATION 10 MSG Mixed");
}

#[test]
fn last_timezone_definition_wins() {
    let mk_tz = |offset: &str| TimezoneDef {
        properties: vec![prop("TZID", "Zone")],
        transitions: vec![TimezoneTransition {
            kind: TransitionKind::Standard,
            properties: vec![prop("TZOFFSETFROM", offset)],
        }],
    };
    let cal = CalendarDoc {
        timezones: vec![mk_tz("+0000"), mk_tz("-0500")],
        events: vec![event(vec![
            prop("SUMMARY", "Call"),
            prop_tz("DTSTART", "20240101T090000", "Zone"),
            prop_tz("DTEND", "20240101T091000", "Zone"),
        ])],
    };
    assert_eq!(single_line(&cal), "REM 01 Jan 2024 AT 19:30 DURATION 10 MSG Call");
}
