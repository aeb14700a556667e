//! Property lookup and extraction: resolving names case-insensitively,
//! reading date values, correcting them by a declared timezone offset, and
//! reading recurrence rules.

use vstd::prelude::*;

use crate::datetime::{shift_minutes, DateTime};
use crate::model::{ConvertError, Property};
use crate::strutil::{all_digits, names_match, num_val, parse_number, str_eq, str_eq_ci};

verus! {

/// The reference offset every timezone-tagged date-time is converted to:
/// +0530, in minutes.
pub const REFERENCE_OFFSET_MINUTES: i64 = 330;

/// The first property whose name matches `name` case-insensitively.
pub open spec fn find_property_spec(props: Seq<Property>, name: Seq<char>) -> Option<Property>
    decreases props.len(),
{
    if props.len() == 0 {
        None
    } else if names_match(props[0].name@, name) {
        Some(props[0])
    } else {
        find_property_spec(props.skip(1), name)
    }
}

/// The value of the first property that matches `name` case-insensitively
/// and carries a value; a matching property without a value is passed over.
pub open spec fn property_value_spec(props: Seq<Property>, name: Seq<char>) -> Option<Seq<char>>
    decreases props.len(),
{
    if props.len() == 0 {
        None
    } else {
        match props[0].value {
            Some(v) => if names_match(props[0].name@, name) {
                Some(v@)
            } else {
                property_value_spec(props.skip(1), name)
            },
            None => property_value_spec(props.skip(1), name),
        }
    }
}

/// Finds the first property whose name matches `name` case-insensitively
/// (ASCII case folding). Duplicate names are resolved by this documented
/// tie-break: the earliest occurrence wins.
pub fn get_property<'a>(properties: &'a Vec<Property>, name: &str) -> (r: Option<&'a Property>)
    ensures
        match r {
            Some(p) => find_property_spec(properties@, name@) == Some(*p),
            None => find_property_spec(properties@, name@) is None,
        },
{
    let n = properties.len();
    proof {
        assert(properties@.skip(0) =~= properties@);
    }
    let mut i: usize = 0;
    while i < n
        invariant
            0 <= i <= n,
            n == properties@.len(),
            find_property_spec(properties@, name@) == find_property_spec(
                properties@.skip(i as int),
                name@,
            ),
        decreases n - i,
    {
        proof {
            assert(properties@.skip(i as int)[0] == properties@[i as int]);
            assert(properties@.skip(i as int).skip(1) =~= properties@.skip(i + 1));
        }
        if str_eq_ci(properties[i].name.as_str(), name) {
            return Some(&properties[i]);
        }
        i = i + 1;
    }
    proof {
        assert(properties@.skip(n as int) =~= Seq::<Property>::empty());
    }
    None
}

/// The value of the first matching property that has one, cloned.
pub fn get_property_value(properties: &Vec<Property>, name: &str) -> (r: Option<String>)
    ensures
        match r {
            Some(v) => property_value_spec(properties@, name@) == Some(v@),
            None => property_value_spec(properties@, name@) is None,
        },
{
    let n = properties.len();
    proof {
        assert(properties@.skip(0) =~= properties@);
    }
    let mut i: usize = 0;
    while i < n
        invariant
            0 <= i <= n,
            n == properties@.len(),
            property_value_spec(properties@, name@) == property_value_spec(
                properties@.skip(i as int),
                name@,
            ),
        decreases n - i,
    {
        proof {
            assert(properties@.skip(i as int)[0] == properties@[i as int]);
            assert(properties@.skip(i as int).skip(1) =~= properties@.skip(i + 1));
        }
        if str_eq_ci(properties[i].name.as_str(), name) {
            match &properties[i].value {
                Some(v) => {
                    return Some(v.clone());
                },
                None => {},
            }
        }
        i = i + 1;
    }
    proof {
        assert(properties@.skip(n as int) =~= Seq::<Property>::empty());
    }
    None
}

/// Last-occurrence-wins lookup in a key/value pair list, the overwrite
/// semantics of collecting the pairs into a map.
pub open spec fn lookup_last(pairs: Seq<(Seq<char>, Seq<char>)>, key: Seq<char>) -> Option<
    Seq<char>,
>
    decreases pairs.len(),
{
    if pairs.len() == 0 {
        None
    } else if pairs.last().0 == key {
        Some(pairs.last().1)
    } else {
        lookup_last(pairs.drop_last(), key)
    }
}

pub open spec fn pair_views(ps: Seq<(String, String)>) -> Seq<(Seq<char>, Seq<char>)> {
    ps.map_values(|p: (String, String)| (p.0@, p.1@))
}

/// Looks `key` up in `pairs`, the last occurrence winning.
pub fn lookup_pair(pairs: &Vec<(String, String)>, key: &str) -> (r: Option<String>)
    ensures
        match r {
            Some(v) => lookup_last(pair_views(pairs@), key@) == Some(v@),
            None => lookup_last(pair_views(pairs@), key@) is None,
        },
{
    let mut i: usize = pairs.len();
    proof {
        assert(pair_views(pairs@).take(i as int) =~= pair_views(pairs@));
    }
    while i > 0
        invariant
            0 <= i <= pairs@.len(),
            lookup_last(pair_views(pairs@), key@) == lookup_last(
                pair_views(pairs@).take(i as int),
                key@,
            ),
        decreases i,
    {
        proof {
            let pv = pair_views(pairs@);
            assert(pv.take(i as int).last() == pv[i - 1]);
            assert(pv.take(i as int).drop_last() =~= pv.take(i - 1));
        }
        if str_eq(pairs[i - 1].0.as_str(), key) {
            return Some(pairs[i - 1].1.clone());
        }
        i = i - 1;
    }
    None
}

/// Last-occurrence-wins lookup among a property's parameters, by exact key.
pub open spec fn param_lookup_spec(params: Seq<(String, Vec<String>)>, key: Seq<char>) -> Option<
    Seq<String>,
>
    decreases params.len(),
{
    if params.len() == 0 {
        None
    } else if params.last().0@ == key {
        Some(params.last().1@)
    } else {
        param_lookup_spec(params.drop_last(), key)
    }
}

/// All the strings of `vs`, concatenated in order.
pub open spec fn concat_all(vs: Seq<String>) -> Seq<char>
    decreases vs.len(),
{
    if vs.len() == 0 {
        Seq::empty()
    } else {
        concat_all(vs.drop_last()) + vs.last()@
    }
}

/// The effective timezone name attached to a property: the concatenation
/// of the values of its `TZID` parameter, or empty when there is none.
pub open spec fn tz_name_spec(p: Property) -> Seq<char> {
    match param_lookup_spec(p.params@, "TZID"@) {
        None => Seq::empty(),
        Some(vs) => concat_all(vs),
    }
}

/// Reads the effective timezone name of `p`: its `TZID` parameter's values
/// concatenated, the last `TZID` occurrence winning.
pub fn tz_param_name(p: &Property) -> (r: String)
    ensures
        r@ == tz_name_spec(*p),
{
    let mut i: usize = p.params.len();
    proof {
        assert(p.params@.take(i as int) =~= p.params@);
    }
    while i > 0
        invariant
            0 <= i <= p.params@.len(),
            param_lookup_spec(p.params@, "TZID"@) == param_lookup_spec(
                p.params@.take(i as int),
                "TZID"@,
            ),
        decreases i,
    {
        proof {
            assert(p.params@.take(i as int).last() == p.params@[i - 1]);
            assert(p.params@.take(i as int).drop_last() =~= p.params@.take(i - 1));
        }
        if str_eq(p.params[i - 1].0.as_str(), "TZID") {
            return concat_strings(&p.params[i - 1].1);
        }
        i = i - 1;
    }
    String::new()
}

/// The date-time written by a value of length 15 or 16
/// (`YYYYMMDDTHHMMSS`, optionally followed by `Z`), if its digits form a
/// real calendar date-time.
pub open spec fn full_fields_spec(s: Seq<char>) -> Option<DateTime> {
    if all_digits(s.subrange(0, 4)) && all_digits(s.subrange(4, 6)) && all_digits(s.subrange(6, 8))
        && all_digits(s.subrange(9, 11)) && all_digits(s.subrange(11, 13)) && all_digits(
        s.subrange(13, 15),
    ) {
        let dt = DateTime {
            year: num_val(s.subrange(0, 4)) as u32,
            month: num_val(s.subrange(4, 6)) as u32,
            day: num_val(s.subrange(6, 8)) as u32,
            hour: num_val(s.subrange(9, 11)) as u32,
            minute: num_val(s.subrange(11, 13)) as u32,
            second: num_val(s.subrange(13, 15)) as u32,
        };
        if dt.valid() {
            Some(dt)
        } else {
            None
        }
    } else {
        None
    }
}

/// The date written by a value of length 8 (`YYYYMMDD`), at midnight, if
/// its digits form a real calendar date.
pub open spec fn date_fields_spec(s: Seq<char>) -> Option<DateTime> {
    if all_digits(s.subrange(0, 4)) && all_digits(s.subrange(4, 6)) && all_digits(
        s.subrange(6, 8),
    ) {
        let dt = DateTime {
            year: num_val(s.subrange(0, 4)) as u32,
            month: num_val(s.subrange(4, 6)) as u32,
            day: num_val(s.subrange(6, 8)) as u32,
            hour: 0,
            minute: 0,
            second: 0,
        };
        if dt.valid() {
            Some(dt)
        } else {
            None
        }
    } else {
        None
    }
}

/// The date-time a property value denotes. The value's length selects the
/// format: 16 is `YYYYMMDDTHHMMSSZ`, 15 is `YYYYMMDDTHHMMSS`, 8 is
/// `YYYYMMDD` at midnight; any other length is invalid.
pub open spec fn date_value_spec(s: Seq<char>) -> Option<DateTime> {
    if s.len() == 16 {
        if s[8] == 'T' && s[15] == 'Z' {
            full_fields_spec(s)
        } else {
            None
        }
    } else if s.len() == 15 {
        if s[8] == 'T' {
            full_fields_spec(s)
        } else {
            None
        }
    } else if s.len() == 8 {
        date_fields_spec(s)
    } else {
        None
    }
}

/// Parses a date value, dispatching on its length.
pub fn parse_date_value(s: &str) -> (r: Result<DateTime, ConvertError>)
    ensures
        match date_value_spec(s@) {
            Some(dt) => r == Ok::<DateTime, ConvertError>(dt),
            None => r == Err::<DateTime, ConvertError>(ConvertError::InvalidDateFormat),
        },
{
    let len = s.unicode_len();
    if len == 16 {
        if s.get_char(8) == 'T' && s.get_char(15) == 'Z' {
            parse_full_fields(s)
        } else {
            Err(ConvertError::InvalidDateFormat)
        }
    } else if len == 15 {
        if s.get_char(8) == 'T' {
            parse_full_fields(s)
        } else {
            Err(ConvertError::InvalidDateFormat)
        }
    } else if len == 8 {
        parse_date_fields(s)
    } else {
        Err(ConvertError::InvalidDateFormat)
    }
}

/// Reads the six numeric fields of a full date-time value.
fn parse_full_fields(s: &str) -> (r: Result<DateTime, ConvertError>)
    requires
        s@.len() >= 15,
    ensures
        match full_fields_spec(s@) {
            Some(dt) => r == Ok::<DateTime, ConvertError>(dt),
            None => r == Err::<DateTime, ConvertError>(ConvertError::InvalidDateFormat),
        },
{
    let year = match parse_number(s, 0, 4) {
        Some(v) => v,
        None => {
            return Err(ConvertError::InvalidDateFormat);
        },
    };
    let month = match parse_number(s, 4, 6) {
        Some(v) => v,
        None => {
            return Err(ConvertError::InvalidDateFormat);
        },
    };
    let day = match parse_number(s, 6, 8) {
        Some(v) => v,
        None => {
            return Err(ConvertError::InvalidDateFormat);
        },
    };
    let hour = match parse_number(s, 9, 11) {
        Some(v) => v,
        None => {
            return Err(ConvertError::InvalidDateFormat);
        },
    };
    let minute = match parse_number(s, 11, 13) {
        Some(v) => v,
        None => {
            return Err(ConvertError::InvalidDateFormat);
        },
    };
    let second = match parse_number(s, 13, 15) {
        Some(v) => v,
        None => {
            return Err(ConvertError::InvalidDateFormat);
        },
    };
    let dt = DateTime { year, month, day, hour, minute, second };
    if check_valid(&dt) {
        Ok(dt)
    } else {
        Err(ConvertError::InvalidDateFormat)
    }
}

/// Reads the three numeric fields of a date-only value.
fn parse_date_fields(s: &str) -> (r: Result<DateTime, ConvertError>)
    requires
        s@.len() >= 8,
    ensures
        match date_fields_spec(s@) {
            Some(dt) => r == Ok::<DateTime, ConvertError>(dt),
            None => r == Err::<DateTime, ConvertError>(ConvertError::InvalidDateFormat),
        },
{
    let year = match parse_number(s, 0, 4) {
        Some(v) => v,
        None => {
            return Err(ConvertError::InvalidDateFormat);
        },
    };
    let month = match parse_number(s, 4, 6) {
        Some(v) => v,
        None => {
            return Err(ConvertError::InvalidDateFormat);
        },
    };
    let day = match parse_number(s, 6, 8) {
        Some(v) => v,
        None => {
            return Err(ConvertError::InvalidDateFormat);
        },
    };
    let dt = DateTime { year, month, day, hour: 0, minute: 0, second: 0 };
    if check_valid(&dt) {
        Ok(dt)
    } else {
        Err(ConvertError::InvalidDateFormat)
    }
}

/// Decides `DateTime::valid` executably.
fn check_valid(dt: &DateTime) -> (r: bool)
    ensures
        r == dt.valid(),
{
    dt.year <= 9999 && 1 <= dt.month && dt.month <= 12 && 1 <= dt.day && dt.day
        <= crate::datetime::days_in_month_exec(dt.year, dt.month) && dt.hour <= 23 && dt.minute
        <= 59 && dt.second <= 59
}

/// The offset in minutes written by a `±HHMM` string, when well formed:
/// a sign, two hour digits at most 23, two minute digits at most 59.
pub open spec fn offset_value_spec(s: Seq<char>) -> Option<int> {
    if s.len() == 5 && (s[0] == '+' || s[0] == '-') && all_digits(s.subrange(1, 3)) && all_digits(
        s.subrange(3, 5),
    ) {
        let hh = num_val(s.subrange(1, 3));
        let mm = num_val(s.subrange(3, 5));
        if hh <= 23 && mm <= 59 {
            if s[0] == '-' {
                Some(-(hh * 60 + mm))
            } else {
                Some(hh * 60 + mm)
            }
        } else {
            None
        }
    } else {
        None
    }
}

/// How a corrected date-time may relate to the uncorrected one. An empty
/// offset string passes the value through; otherwise the value is read as
/// wall-clock time at that offset and re-expressed at the reference offset
/// +0530, which adds `330 - offset` minutes.
pub open spec fn add_tz_rel(dt: DateTime, tz: Seq<char>, out: Result<DateTime, ConvertError>) -> bool {
    if tz.len() == 0 {
        out == Ok::<DateTime, ConvertError>(dt)
    } else {
        match offset_value_spec(tz) {
            None => out == Err::<DateTime, ConvertError>(ConvertError::TimezoneError),
            Some(off) => {
                let target = dt.minutes_of() + REFERENCE_OFFSET_MINUTES - off;
                if 0 <= target < crate::datetime::minutes_range_end() {
                    match out {
                        Ok(d2) => d2.valid() && d2.minutes_of() == target && d2.second == dt.second,
                        Err(_) => false,
                    }
                } else {
                    out == Err::<DateTime, ConvertError>(ConvertError::TimezoneError)
                }
            },
        }
    }
}

/// Interprets `datetime` as wall-clock time at the fixed offset written in
/// `tz` and re-expresses it at the reference offset +0530. An empty `tz`
/// passes the value through unchanged. A malformed offset, or a corrected
/// value outside years 0-9999, fails with `TimezoneError`: the uncorrected
/// value is never substituted silently.
pub fn add_timezone(datetime: DateTime, tz: &str) -> (r: Result<DateTime, ConvertError>)
    requires
        datetime.valid(),
    ensures
        add_tz_rel(datetime, tz@, r),
        r matches Ok(d2) ==> d2.valid(),
{
    let len = tz.unicode_len();
    if len == 0 {
        return Ok(datetime);
    }
    if len != 5 {
        return Err(ConvertError::TimezoneError);
    }
    let sign = tz.get_char(0);
    if sign != '+' && sign != '-' {
        return Err(ConvertError::TimezoneError);
    }
    let hh = match parse_number(tz, 1, 3) {
        Some(v) => v,
        None => {
            return Err(ConvertError::TimezoneError);
        },
    };
    let mm = match parse_number(tz, 3, 5) {
        Some(v) => v,
        None => {
            return Err(ConvertError::TimezoneError);
        },
    };
    if hh > 23 || mm > 59 {
        return Err(ConvertError::TimezoneError);
    }
    let magnitude = (hh * 60 + mm) as i64;
    let off: i64 = if sign == '-' {
        -magnitude
    } else {
        magnitude
    };
    let delta: i64 = REFERENCE_OFFSET_MINUTES - off;
    match shift_minutes(&datetime, delta) {
        Some(d2) => Ok(d2),
        None => Err(ConvertError::TimezoneError),
    }
}

/// How the resolved date-time of the property `name` may relate to an
/// event's property list: the property must be present, its value must
/// parse by length, and the value is corrected by the offset its `TZID`
/// parameter selects in the timezone mapping.
pub open spec fn datetime_rel(
    props: Seq<Property>,
    tzpairs: Seq<(Seq<char>, Seq<char>)>,
    name: Seq<char>,
    out: Result<DateTime, ConvertError>,
) -> bool {
    match find_property_spec(props, name) {
        None => out == Err::<DateTime, ConvertError>(ConvertError::MissingProperty),
        Some(p) => match p.value {
            None => out == Err::<DateTime, ConvertError>(ConvertError::InvalidDateFormat),
            Some(v) => match date_value_spec(v@) {
                None => out == Err::<DateTime, ConvertError>(ConvertError::InvalidDateFormat),
                Some(dt) => add_tz_rel(
                    dt,
                    match lookup_last(tzpairs, tz_name_spec(p)) {
                        None => Seq::empty(),
                        Some(o) => o,
                    },
                    out,
                ),
            },
        },
    }
}

/// Resolves the date-time property `name`: finds the property, parses its
/// value by length, and applies timezone correction through `tzmap`.
pub fn get_property_datetime(
    properties: &Vec<Property>,
    tzmap: &Vec<(String, String)>,
    name: &str,
) -> (r: Result<DateTime, ConvertError>)
    ensures
        datetime_rel(properties@, pair_views(tzmap@), name@, r),
        r matches Ok(dt) ==> dt.valid(),
{
    let p = match get_property(properties, name) {
        None => {
            return Err(ConvertError::MissingProperty);
        },
        Some(p) => p,
    };
    let v = match &p.value {
        None => {
            return Err(ConvertError::InvalidDateFormat);
        },
        Some(v) => v,
    };
    let dt = match parse_date_value(v.as_str()) {
        Err(e) => {
            return Err(e);
        },
        Ok(dt) => dt,
    };
    let tzname = tz_param_name(p);
    let offset = match lookup_pair(tzmap, tzname.as_str()) {
        None => String::new(),
        Some(o) => o,
    };
    add_timezone(dt, offset.as_str())
}

/// The three-letter display abbreviation of a two-letter weekday code; an
/// unrecognized code maps to the empty string, not skipped, which can
/// leave a dangling separator in the joined result.
pub open spec fn weekday_abbrev(code: Seq<char>) -> Seq<char> {
    if code == "MO"@ {
        "Mon"@
    } else if code == "TU"@ {
        "Tue"@
    } else if code == "WE"@ {
        "Wed"@
    } else if code == "TH"@ {
        "Thu"@
    } else if code == "FR"@ {
        "Fri"@
    } else if code == "SA"@ {
        "Sat"@
    } else if code == "SU"@ {
        "Sun"@
    } else {
        Seq::empty()
    }
}

/// Maps a two-letter weekday code to its display abbreviation, and any
/// other string to the empty string.
pub fn to_day<'a>(d: &'a str) -> (r: &'static str)
    ensures
        r@ == weekday_abbrev(d@),
{
    if str_eq(d, "MO") {
        "Mon"
    } else if str_eq(d, "TU") {
        "Tue"
    } else if str_eq(d, "WE") {
        "Wed"
    } else if str_eq(d, "TH") {
        "Thu"
    } else if str_eq(d, "FR") {
        "Fri"
    } else if str_eq(d, "SA") {
        "Sat"
    } else if str_eq(d, "SU") {
        "Sun"
    } else {
        proof {
            reveal_strlit("");
            assert(""@ =~= Seq::<char>::empty());
        }
        ""
    }
}

/// The parts joined with a single space between neighbours.
pub open spec fn join_spaced(parts: Seq<Seq<char>>) -> Seq<char>
    decreases parts.len(),
{
    if parts.len() == 0 {
        Seq::empty()
    } else if parts.len() == 1 {
        parts[0]
    } else {
        join_spaced(parts.drop_last()) + seq![' '] + parts.last()
    }
}

/// The key/value pairs of a rule string's segments: each segment is split
/// at its first `=`; a segment without `=` contributes no pair.
pub open spec fn rrule_pairs_spec(segs: Seq<Seq<char>>) -> Seq<(Seq<char>, Seq<char>)>
    decreases segs.len(),
{
    if segs.len() == 0 {
        Seq::empty()
    } else {
        let rest = rrule_pairs_spec(segs.skip(1));
        match crate::strutil::split_once_spec(segs[0], '=') {
            None => rest,
            Some(p) => seq![p] + rest,
        }
    }
}

/// Each weekday code of `parts` replaced by its display abbreviation.
pub open spec fn abbrevs_of(parts: Seq<Seq<char>>) -> Seq<Seq<char>>
    decreases parts.len(),
{
    if parts.len() == 0 {
        Seq::empty()
    } else {
        abbrevs_of(parts.drop_last()).push(weekday_abbrev(parts.last()))
    }
}

pub proof fn lemma_abbrevs_of(parts: Seq<Seq<char>>)
    ensures
        abbrevs_of(parts).len() == parts.len(),
        forall|i: int| 0 <= i < parts.len() ==> abbrevs_of(parts)[i] == weekday_abbrev(parts[i]),
    decreases parts.len(),
{
    if parts.len() > 0 {
        lemma_abbrevs_of(parts.drop_last());
    }
}

/// The rendered weekday list of a `BYDAY` value: its comma-separated
/// codes, each mapped to its abbreviation, joined with single spaces.
pub open spec fn byday_rendered(byday: Seq<char>) -> Seq<char> {
    join_spaced(abbrevs_of(crate::strutil::split_char_spec(byday, ',')))
}

/// What a recurrence rule value denotes. The rule is a `;`-separated list
/// of `KEY=VALUE` pairs, keys case-sensitive, the last occurrence of a
/// duplicate key winning. A `WEEKLY` frequency renders its `BYDAY` list
/// (an absent `BYDAY` renders as the empty string); `DAILY` or any other
/// frequency denotes no recurrence.
pub open spec fn rrule_value_spec(rule: Seq<char>) -> Option<Seq<char>> {
    let pairs = rrule_pairs_spec(crate::strutil::split_char_spec(rule, ';'));
    match lookup_last(pairs, "FREQ"@) {
        None => None,
        Some(f) => if f == "WEEKLY"@ {
            Some(
                byday_rendered(
                    match lookup_last(pairs, "BYDAY"@) {
                        None => Seq::empty(),
                        Some(b) => b,
                    },
                ),
            )
        } else {
            None
        },
    }
}

/// Parses a recurrence rule value into its rendered weekday list, when the
/// rule is weekly.
pub fn parse_recurrance_rule(rule: Option<String>) -> (r: Option<String>)
    ensures
        match rule {
            None => r is None,
            Some(s) => match r {
                Some(v) => rrule_value_spec(s@) == Some(v@),
                None => rrule_value_spec(s@) is None,
            },
        },
{
    let rule_s = match rule {
        None => {
            return None;
        },
        Some(s) => s,
    };
    let segs = crate::strutil::split_char(rule_s.as_str(), ';');
    let ghost segviews = crate::strutil::split_char_spec(rule_s@, ';');
    let nsegs = segs.len();
    let mut pairs: Vec<(String, String)> = Vec::new();
    proof {
        assert(segviews.skip(0) =~= segviews);
        assert(pair_views(pairs@) =~= Seq::<(Seq<char>, Seq<char>)>::empty());
    }
    let mut i: usize = 0;
    while i < nsegs
        invariant
            0 <= i <= nsegs,
            nsegs == segviews.len(),
            segs@.len() == segviews.len(),
            forall|k: int| 0 <= k < segviews.len() ==> segs@[k]@ == segviews[k],
            rrule_pairs_spec(segviews) == pair_views(pairs@) + rrule_pairs_spec(
                segviews.skip(i as int),
            ),
        decreases nsegs - i,
    {
        proof {
            assert(segviews.skip(i as int)[0] == segviews[i as int]);
            assert(segviews.skip(i as int).skip(1) =~= segviews.skip(i + 1));
        }
        match crate::strutil::split_once(segs[i].as_str(), '=') {
            None => {},
            Some(kv) => {
                let ghost oldpairs = pairs@;
                pairs.push(kv);
                proof {
                    assert(pair_views(pairs@) =~= pair_views(oldpairs).push(
                        (pairs@.last().0@, pairs@.last().1@),
                    ));
                    assert(pair_views(oldpairs) + rrule_pairs_spec(segviews.skip(i + 1)) =~= pair_views(
                        pairs@,
                    ).drop_last() + rrule_pairs_spec(segviews.skip(i + 1)));
                    assert(rrule_pairs_spec(segviews) =~= pair_views(pairs@) + rrule_pairs_spec(
                        segviews.skip(i + 1),
                    ));
                }
            },
        }
        i = i + 1;
    }
    proof {
        assert(segviews.skip(nsegs as int) =~= Seq::<Seq<char>>::empty());
        assert(rrule_pairs_spec(segviews) =~= pair_views(pairs@));
    }
    let freq = match lookup_pair(&pairs, "FREQ") {
        None => {
            return None;
        },
        Some(f) => f,
    };
    if !str_eq(freq.as_str(), "WEEKLY") {
        return None;
    }
    let byday = match lookup_pair(&pairs, "BYDAY") {
        None => String::new(),
        Some(b) => b,
    };
    Some(render_byday(byday.as_str()))
}

/// Renders a `BYDAY` list: splits at commas, maps each code to its
/// abbreviation, joins with single spaces.
fn render_byday(byday: &str) -> (r: String)
    ensures
        r@ == byday_rendered(byday@),
{
    let parts = crate::strutil::split_char(byday, ',');
    let ghost mapped = abbrevs_of(crate::strutil::split_char_spec(byday@, ','));
    let n = parts.len();
    let mut out = String::new();
    proof {
        lemma_abbrevs_of(crate::strutil::split_char_spec(byday@, ','));
        assert(mapped.take(0) =~= Seq::<Seq<char>>::empty());
    }
    let mut i: usize = 0;
    while i < n
        invariant
            0 <= i <= n,
            n == parts@.len(),
            n == mapped.len(),
            n == crate::strutil::split_char_spec(byday@, ',').len(),
            mapped == abbrevs_of(crate::strutil::split_char_spec(byday@, ',')),
            forall|k: int|
                0 <= k < n ==> parts@[k]@ == crate::strutil::split_char_spec(byday@, ',')[k],
            out@ == join_spaced(mapped.take(i as int)),
        decreases n - i,
    {
        proof {
            lemma_abbrevs_of(crate::strutil::split_char_spec(byday@, ','));
            assert(mapped.take(i + 1).drop_last() =~= mapped.take(i as int));
            assert(mapped.take(i + 1).last() == mapped[i as int]);
        }
        if i > 0 {
            out.append(" ");
        }
        let d = to_day(parts[i].as_str());
        proof {
            let sp = crate::strutil::split_char_spec(byday@, ',');
            lemma_abbrevs_of(sp);
            assert(parts@[i as int]@ == sp[i as int]);
            assert(abbrevs_of(sp)[i as int] == weekday_abbrev(sp[i as int]));
            assert(mapped == abbrevs_of(sp));
            assert(d@ == mapped[i as int]);
        }
        out.append(d);
        proof {
            reveal_strlit(" ");
            assert(" "@ =~= seq![' ']);
            if i == 0 {
                assert(mapped.take(1)[0] == mapped[0]);
                assert(join_spaced(mapped.take(1)) == mapped[0]);
                assert(out@ =~= mapped[0]);
            } else {
                assert(join_spaced(mapped.take(i + 1)) == join_spaced(mapped.take(i as int))
                    + seq![' '] + mapped[i as int]);
                assert(out@ =~= join_spaced(mapped.take(i as int)) + seq![' '] + mapped[
                    i as int
                ]);
            }
        }
        i = i + 1;
    }
    proof {
        assert(mapped.take(n as int) =~= mapped);
    }
    out
}

/// The recurrence description of an event: the first `RRULE` property
/// whose value parses to a weekly rule; an `RRULE` denoting no recurrence
/// is passed over and the search continues.
pub open spec fn recurrence_spec(props: Seq<Property>) -> Option<Seq<char>>
    decreases props.len(),
{
    if props.len() == 0 {
        None
    } else {
        let head_result: Option<Seq<char>> = if names_match(props[0].name@, "RRULE"@) {
            match props[0].value {
                Some(v) => rrule_value_spec(v@),
                None => None,
            }
        } else {
            None
        };
        match head_result {
            Some(r) => Some(r),
            None => recurrence_spec(props.skip(1)),
        }
    }
}

/// Resolves an event's recurrence description from its `RRULE` properties.
pub fn get_property_recurrance(properties: &Vec<Property>) -> (r: Option<String>)
    ensures
        match r {
            Some(v) => recurrence_spec(properties@) == Some(v@),
            None => recurrence_spec(properties@) is None,
        },
{
    let n = properties.len();
    proof {
        assert(properties@.skip(0) =~= properties@);
    }
    let mut i: usize = 0;
    while i < n
        invariant
            0 <= i <= n,
            n == properties@.len(),
            recurrence_spec(properties@) == recurrence_spec(properties@.skip(i as int)),
        decreases n - i,
    {
        proof {
            assert(properties@.skip(i as int)[0] == properties@[i as int]);
            assert(properties@.skip(i as int).skip(1) =~= properties@.skip(i + 1));
        }
        if str_eq_ci(properties[i].name.as_str(), "RRULE") {
            let value = match &properties[i].value {
                Some(v) => Some(v.clone()),
                None => None,
            };
            match parse_recurrance_rule(value) {
                Some(r) => {
                    return Some(r);
                },
                None => {},
            }
        }
        i = i + 1;
    }
    proof {
        assert(properties@.skip(n as int) =~= Seq::<Property>::empty());
    }
    None
}

/// Concatenates a list of strings in order.
fn concat_strings(vs: &Vec<String>) -> (r: String)
    ensures
        r@ == concat_all(vs@),
{
    let n = vs.len();
    let mut out = String::new();
    let mut i: usize = 0;
    while i < n
        invariant
            0 <= i <= n,
            n == vs@.len(),
            out@ == concat_all(vs@.take(i as int)),
        decreases n - i,
    {
        proof {
            assert(vs@.take(i + 1).drop_last() =~= vs@.take(i as int));
            assert(vs@.take(i + 1).last() == vs@[i as int]);
        }
        out.append(vs[i].as_str());
        i = i + 1;
    }
    proof {
        assert(vs@.take(n as int) =~= vs@);
    }
    out
}

} // verus!
