//! Cross-function laws of the conversion pipeline, stated and proved:
//! conversion is a function of the calendar alone (determinism), and a
//! successful line never ends in white space.

use vstd::prelude::*;

use crate::datetime::{lemma_minutes_injective, minutes_range_end, DateTime};
use crate::model::{CalendarDoc, ConvertError, Event};
use crate::properties::{
    add_tz_rel, datetime_rel, find_property_spec, lookup_last, offset_value_spec, tz_name_spec,
    REFERENCE_OFFSET_MINUTES,
};
use crate::render::lemma_trim_end_no_trailing;
use crate::strutil::is_space_char;
use crate::{event_line_rel, event_witness_rel, tz_map_spec};

verus! {

/// Timezone correction relates each input to at most one outcome.
pub proof fn lemma_add_tz_functional(
    dt: DateTime,
    tz: Seq<char>,
    o1: Result<DateTime, ConvertError>,
    o2: Result<DateTime, ConvertError>,
)
    requires
        add_tz_rel(dt, tz, o1),
        add_tz_rel(dt, tz, o2),
    ensures
        o1 == o2,
{
    if tz.len() != 0 {
        match offset_value_spec(tz) {
            None => {},
            Some(off) => {
                let target = dt.minutes_of() + REFERENCE_OFFSET_MINUTES - off;
                if 0 <= target < minutes_range_end() {
                    match (o1, o2) {
                        (Ok(a), Ok(b)) => {
                            lemma_minutes_injective(a, b);
                            assert(a == b);
                        },
                        (Ok(_), Err(_)) => {
                            assert(false);
                        },
                        (Err(_), Ok(_)) => {
                            assert(false);
                        },
                        (Err(_), Err(_)) => {
                            assert(false);
                        },
                    }
                }
            },
        }
    }
}

/// Date-time resolution relates each property list to at most one outcome.
pub proof fn lemma_datetime_rel_functional(
    props: Seq<crate::model::Property>,
    tzpairs: Seq<(Seq<char>, Seq<char>)>,
    name: Seq<char>,
    o1: Result<DateTime, ConvertError>,
    o2: Result<DateTime, ConvertError>,
)
    requires
        datetime_rel(props, tzpairs, name, o1),
        datetime_rel(props, tzpairs, name, o2),
    ensures
        o1 == o2,
{
    match find_property_spec(props, name) {
        None => {},
        Some(p) => match p.value {
            None => {},
            Some(v) => match crate::properties::date_value_spec(v@) {
                None => {},
                Some(dt) => {
                    let tz = match lookup_last(tzpairs, tz_name_spec(p)) {
                        None => Seq::<char>::empty(),
                        Some(o) => o,
                    };
                    lemma_add_tz_functional(dt, tz, o1, o2);
                },
            },
        },
    }
}

/// One event's conversion relates the event to at most one outcome.
pub proof fn lemma_event_line_functional(
    tzpairs: Seq<(Seq<char>, Seq<char>)>,
    ev: Event,
    o1: Result<Seq<char>, ConvertError>,
    o2: Result<Seq<char>, ConvertError>,
)
    requires
        event_line_rel(tzpairs, ev, o1),
        event_line_rel(tzpairs, ev, o2),
    ensures
        o1 == o2,
{
    let (ds1, de1): (Result<DateTime, ConvertError>, Result<DateTime, ConvertError>) = choose|
        ds: Result<DateTime, ConvertError>,
        de: Result<DateTime, ConvertError>,
    | event_witness_rel(tzpairs, ev, ds, de, o1);
    let (ds2, de2): (Result<DateTime, ConvertError>, Result<DateTime, ConvertError>) = choose|
        ds: Result<DateTime, ConvertError>,
        de: Result<DateTime, ConvertError>,
    | event_witness_rel(tzpairs, ev, ds, de, o2);
    lemma_datetime_rel_functional(ev.properties@, tzpairs, "DTSTART"@, ds1, ds2);
    lemma_datetime_rel_functional(ev.properties@, tzpairs, "DTEND"@, de1, de2);
}

/// Determinism: converting the same calendar twice yields identical
/// outcome sequences. Any two sequences that stand in the conversion
/// relation to the same calendar, element by element, are equal.
pub proof fn lemma_convert_deterministic(
    cal: CalendarDoc,
    r1: Seq<Result<Seq<char>, ConvertError>>,
    r2: Seq<Result<Seq<char>, ConvertError>>,
)
    requires
        r1.len() == cal.events@.len(),
        r2.len() == cal.events@.len(),
        forall|i: int|
            0 <= i < r1.len() ==> event_line_rel(tz_map_spec(cal.timezones@), cal.events@[i], r1[i]),
        forall|i: int|
            0 <= i < r2.len() ==> event_line_rel(tz_map_spec(cal.timezones@), cal.events@[i], r2[i]),
    ensures
        r1 == r2,
{
    assert forall|i: int| 0 <= i < r1.len() implies r1[i] == r2[i] by {
        lemma_event_line_functional(tz_map_spec(cal.timezones@), cal.events@[i], r1[i], r2[i]);
    }
    assert(r1 =~= r2);
}

/// A successful reminder line never ends in white space: an empty meet
/// link leaves no trailing separator behind.
pub proof fn lemma_line_no_trailing_space(
    tzpairs: Seq<(Seq<char>, Seq<char>)>,
    ev: Event,
    out: Result<Seq<char>, ConvertError>,
)
    requires
        event_line_rel(tzpairs, ev, out),
    ensures
        out matches Ok(line) ==> (line.len() > 0 ==> !is_space_char(line.last())),
{
    let (ds, de): (Result<DateTime, ConvertError>, Result<DateTime, ConvertError>) = choose|
        ds: Result<DateTime, ConvertError>,
        de: Result<DateTime, ConvertError>,
    | event_witness_rel(tzpairs, ev, ds, de, out);
    match (ds, de) {
        (Ok(s), Ok(en)) => {
            let raw = "REM "@ + (match crate::properties::recurrence_spec(ev.properties@) {
                Some(r) => r + " FROM "@ + crate::render::format_datetime_spec(s),
                None => crate::render::format_datetime_spec(s),
            }) + seq![' '] + (if en.seconds_of() - s.seconds_of() >= 86400 {
                "UNTIL "@ + crate::render::format_date_spec(en)
            } else {
                "DURATION "@ + crate::strutil::signed_dec_str(
                    crate::datetime::duration_minutes(s, en),
                )
            }) + " MSG "@ + crate::summary_of(ev.properties@) + seq![' '] + crate::meet_link_of(
                ev.properties@,
            );
            lemma_trim_end_no_trailing(raw);
        },
        _ => {},
    }
}

} // verus!
