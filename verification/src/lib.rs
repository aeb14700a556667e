//! Converts parsed iCalendar event records into single-line reminder
//! directives in a plain-text reminder syntax.
//!
//! The pipeline runs in three stages, each a pure function of its inputs:
//! a timezone resolver builds a mapping from timezone identifier to UTC
//! offset string, a property extractor resolves an event's fields with
//! timezone correction, and a line renderer formats the fields into one
//! reminder line per event. Every event converts independently; a failure
//! on one never affects its siblings.

use vstd::prelude::*;

pub mod datetime;
pub mod laws;
pub mod model;
pub mod properties;
pub mod render;
pub mod strutil;

use crate::properties::{
    datetime_rel, get_property_datetime, get_property_recurrance, get_property_value, pair_views,
    property_value_spec, recurrence_spec,
};
use crate::render::{render_line, render_line_spec};

verus! {

/// The character-sequence view of one conversion outcome.
pub open spec fn res_view(x: Result<String, model::ConvertError>) -> Result<
    Seq<char>,
    model::ConvertError,
> {
    match x {
        Ok(s) => Ok(s@),
        Err(e) => Err(e),
    }
}

/// The offset value of a timezone definition: the `TZOFFSETFROM` of its
/// first standard transition that carries one; daylight transitions are
/// passed over.
pub open spec fn standard_offset_spec(ts: Seq<model::TimezoneTransition>) -> Option<Seq<char>>
    decreases ts.len(),
{
    if ts.len() == 0 {
        None
    } else {
        let head: Option<Seq<char>> = match ts[0].kind {
            model::TransitionKind::Standard => property_value_spec(
                ts[0].properties@,
                "TZOFFSETFROM"@,
            ),
            model::TransitionKind::Daylight => None,
        };
        match head {
            Some(v) => Some(v),
            None => standard_offset_spec(ts.skip(1)),
        }
    }
}

/// The mapping entry a timezone definition contributes: its `TZID` paired
/// with its standard offset; a definition missing either is skipped.
pub open spec fn tz_entry_spec(tz: model::TimezoneDef) -> Option<(Seq<char>, Seq<char>)> {
    match property_value_spec(tz.properties@, "TZID"@) {
        None => None,
        Some(id) => match standard_offset_spec(tz.transitions@) {
            None => None,
            Some(off) => Some((id, off)),
        },
    }
}

/// The identifier-to-offset mapping of a calendar's timezone definitions,
/// in order; a repeated `TZID` is resolved by the lookup's
/// last-occurrence-wins rule.
pub open spec fn tz_map_spec(tzs: Seq<model::TimezoneDef>) -> Seq<(Seq<char>, Seq<char>)>
    decreases tzs.len(),
{
    if tzs.len() == 0 {
        Seq::empty()
    } else {
        tz_map_spec(tzs.drop_last()) + match tz_entry_spec(tzs.last()) {
            None => Seq::empty(),
            Some(p) => seq![p],
        }
    }
}

/// An event's summary text: its first valued `SUMMARY` property, or empty.
pub open spec fn summary_of(props: Seq<model::Property>) -> Seq<char> {
    match property_value_spec(props, "SUMMARY"@) {
        None => Seq::empty(),
        Some(v) => v,
    }
}

/// An event's conferencing link: its first valued `X-GOOGLE-CONFERENCE`
/// property, or empty.
pub open spec fn meet_link_of(props: Seq<model::Property>) -> Seq<char> {
    match property_value_spec(props, "X-GOOGLE-CONFERENCE"@) {
        None => Seq::empty(),
        Some(v) => v,
    }
}

/// How one event's conversion outcome may relate to the event: its start
/// and end resolve as date-time properties, a failure of `DTSTART` wins
/// over one of `DTEND`, and with both resolved the outcome is the rendered
/// line.
pub open spec fn event_witness_rel(
    tzpairs: Seq<(Seq<char>, Seq<char>)>,
    ev: model::Event,
    ds: Result<crate::datetime::DateTime, model::ConvertError>,
    de: Result<crate::datetime::DateTime, model::ConvertError>,
    out: Result<Seq<char>, model::ConvertError>,
) -> bool {
    datetime_rel(ev.properties@, tzpairs, "DTSTART"@, ds) && datetime_rel(
        ev.properties@,
        tzpairs,
        "DTEND"@,
        de,
    ) && match ds {
        Err(e) => out == Err::<Seq<char>, model::ConvertError>(e),
        Ok(s) => match de {
            Err(e) => out == Err::<Seq<char>, model::ConvertError>(e),
            Ok(en) => out == Ok::<Seq<char>, model::ConvertError>(
                render_line_spec(
                    summary_of(ev.properties@),
                    meet_link_of(ev.properties@),
                    s,
                    en,
                    recurrence_spec(ev.properties@),
                ),
            ),
        },
    }
}

pub open spec fn event_line_rel(
    tzpairs: Seq<(Seq<char>, Seq<char>)>,
    ev: model::Event,
    out: Result<Seq<char>, model::ConvertError>,
) -> bool {
    exists|ds: Result<crate::datetime::DateTime, model::ConvertError>, de: Result<
        crate::datetime::DateTime,
        model::ConvertError,
    >| #[trigger] event_witness_rel(tzpairs, ev, ds, de, out)
}

/// The standard offset of a timezone definition's transitions.
fn find_standard_offset(transitions: &Vec<model::TimezoneTransition>) -> (r: Option<String>)
    ensures
        match r {
            Some(v) => standard_offset_spec(transitions@) == Some(v@),
            None => standard_offset_spec(transitions@) is None,
        },
{
    let n = transitions.len();
    proof {
        assert(transitions@.skip(0) =~= transitions@);
    }
    let mut i: usize = 0;
    while i < n
        invariant
            0 <= i <= n,
            n == transitions@.len(),
            standard_offset_spec(transitions@) == standard_offset_spec(
                transitions@.skip(i as int),
            ),
        decreases n - i,
    {
        proof {
            assert(transitions@.skip(i as int)[0] == transitions@[i as int]);
            assert(transitions@.skip(i as int).skip(1) =~= transitions@.skip(i + 1));
        }
        match transitions[i].kind {
            model::TransitionKind::Standard => {
                match get_property_value(&transitions[i].properties, "TZOFFSETFROM") {
                    Some(v) => {
                        return Some(v);
                    },
                    None => {},
                }
            },
            model::TransitionKind::Daylight => {},
        }
        i = i + 1;
    }
    proof {
        assert(transitions@.skip(n as int) =~= Seq::<model::TimezoneTransition>::empty());
    }
    None
}

/// Builds the timezone identifier-to-offset mapping of a calendar, called
/// `add_timezone`'s offset source. Definitions missing `TZID` or a
/// standard offset are skipped silently.
pub fn build_timezone_map(timezones: &Vec<model::TimezoneDef>) -> (r: Vec<(String, String)>)
    ensures
        pair_views(r@) == tz_map_spec(timezones@),
{
    let n = timezones.len();
    let mut map: Vec<(String, String)> = Vec::new();
    proof {
        assert(timezones@.take(0) =~= Seq::<model::TimezoneDef>::empty());
        assert(pair_views(map@) =~= tz_map_spec(timezones@.take(0)));
    }
    let mut i: usize = 0;
    while i < n
        invariant
            0 <= i <= n,
            n == timezones@.len(),
            pair_views(map@) == tz_map_spec(timezones@.take(i as int)),
        decreases n - i,
    {
        proof {
            assert(timezones@.take(i + 1).drop_last() =~= timezones@.take(i as int));
            assert(timezones@.take(i + 1).last() == timezones@[i as int]);
        }
        let tzid = get_property_value(&timezones[i].properties, "TZID");
        let offset = find_standard_offset(&timezones[i].transitions);
        match (tzid, offset) {
            (Some(id), Some(off)) => {
                let ghost oldmap = map@;
                map.push((id, off));
                proof {
                    assert(pair_views(map@) =~= pair_views(oldmap) + seq![
                        (map@.last().0@, map@.last().1@),
                    ]);
                    assert(pair_views(map@) =~= tz_map_spec(timezones@.take(i + 1)));
                }
            },
            _ => {
                proof {
                    assert(pair_views(map@) =~= tz_map_spec(timezones@.take(i + 1)));
                }
            },
        }
        i = i + 1;
    }
    proof {
        assert(timezones@.take(n as int) =~= timezones@);
    }
    map
}

/// Converts one event against a resolved timezone mapping.
pub fn convert_event(tzmap: &Vec<(String, String)>, event: &model::Event) -> (r: Result<
    String,
    model::ConvertError,
>)
    ensures
        event_line_rel(pair_views(tzmap@), *event, res_view(r)),
{
    let summary = match get_property_value(&event.properties, "SUMMARY") {
        Some(v) => v,
        None => String::new(),
    };
    let meet_link = match get_property_value(&event.properties, "X-GOOGLE-CONFERENCE") {
        Some(v) => v,
        None => String::new(),
    };
    let start_res = get_property_datetime(&event.properties, tzmap, "DTSTART");
    let end_res = get_property_datetime(&event.properties, tzmap, "DTEND");
    let dt_start = match start_res {
        Err(e) => {
            proof {
                assert(event_witness_rel(
                    pair_views(tzmap@),
                    *event,
                    start_res,
                    end_res,
                    res_view(Err(e)),
                ));
            }
            return Err(e);
        },
        Ok(v) => v,
    };
    let dt_end = match end_res {
        Err(e) => {
            proof {
                assert(event_witness_rel(
                    pair_views(tzmap@),
                    *event,
                    start_res,
                    end_res,
                    res_view(Err(e)),
                ));
            }
            return Err(e);
        },
        Ok(v) => v,
    };
    let rules = get_property_recurrance(&event.properties);
    let line = render_line(
        summary.as_str(),
        meet_link.as_str(),
        &dt_start,
        &dt_end,
        rules.as_ref(),
    );
    proof {
        assert(event_witness_rel(
            pair_views(tzmap@),
            *event,
            start_res,
            end_res,
            res_view(Ok(line)),
        ));
    }
    Ok(line)
}

/// Converts a parsed calendar into one reminder line, or one failure, per
/// event, in event order. Events convert independently: the i-th outcome
/// depends only on the i-th event and the calendar's timezone definitions.
pub fn ical2rem(cal: &model::CalendarDoc) -> (r: Vec<Result<String, model::ConvertError>>)
    ensures
        r@.len() == cal.events@.len(),
        forall|i: int|
            0 <= i < r@.len() ==> event_line_rel(
                tz_map_spec(cal.timezones@),
                cal.events@[i],
                res_view(r@[i]),
            ),
{
    let timezone_map = build_timezone_map(&cal.timezones);
    let n = cal.events.len();
    let mut results: Vec<Result<String, model::ConvertError>> = Vec::new();
    let mut i: usize = 0;
    while i < n
        invariant
            0 <= i <= n,
            n == cal.events@.len(),
            results@.len() == i,
            pair_views(timezone_map@) == tz_map_spec(cal.timezones@),
            forall|j: int|
                0 <= j < i ==> event_line_rel(
                    tz_map_spec(cal.timezones@),
                    cal.events@[j],
                    res_view(results@[j]),
                ),
        decreases n - i,
    {
        let line = convert_event(&timezone_map, &cal.events[i]);
        results.push(line);
        i = i + 1;
    }
    results
}

} // verus!
