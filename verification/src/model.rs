//! The structured calendar data the conversion pipeline consumes, and the
//! per-event failure kinds it reports.

use vstd::prelude::*;

verus! {

/// One named property of a calendar component: a name, an optional value,
/// and named parameters, each carrying a list of values.
#[derive(Clone, Debug)]
pub struct Property {
    pub name: String,
    pub value: Option<String>,
    pub params: Vec<(String, Vec<String>)>,
}

/// One event: an ordered list of properties. Duplicate names may occur;
/// lookups resolve them by documented tie-breaks.
#[derive(Clone, Debug)]
pub struct Event {
    pub properties: Vec<Property>,
}

/// Whether a timezone transition rule describes standard (non-daylight)
/// time or daylight-saving time.
#[derive(Clone, Copy, Debug, PartialEq, Eq, Structural)]
pub enum TransitionKind {
    Standard,
    Daylight,
}

/// One transition rule of a timezone definition.
#[derive(Clone, Debug)]
pub struct TimezoneTransition {
    pub kind: TransitionKind,
    pub properties: Vec<Property>,
}

/// One declared timezone: its own properties (among them `TZID`) and its
/// transition rules.
#[derive(Clone, Debug)]
pub struct TimezoneDef {
    pub properties: Vec<Property>,
    pub transitions: Vec<TimezoneTransition>,
}

/// One parsed calendar: declared timezones and events, in document order.
#[derive(Clone, Debug)]
pub struct CalendarDoc {
    pub timezones: Vec<TimezoneDef>,
    pub events: Vec<Event>,
}

/// Why one event could not be converted. A failure is per event and never
/// aborts the batch.
#[derive(Clone, Copy, Debug, PartialEq, Eq, Structural)]
pub enum ConvertError {
    /// A required date property (`DTSTART` or `DTEND`) is absent.
    MissingProperty,
    /// A date value has an unrecognized length, or does not parse as the
    /// format its length selects.
    InvalidDateFormat,
    /// The resolved offset string is not a valid fixed offset, or the
    /// corrected date-time falls outside the representable range.
    TimezoneError,
}

impl ConvertError {
    /// A short description of the failure, for callers that report it.
    pub fn describe(&self) -> (r: &'static str)
        ensures
            (*self is MissingProperty ==> r@ == "Unable to find property"@) && (*self
                is InvalidDateFormat ==> r@ == "Invalid date format"@) && (*self is TimezoneError
                ==> r@ == "Invalid timezone offset"@),
    {
        match self {
            ConvertError::MissingProperty => "Unable to find property",
            ConvertError::InvalidDateFormat => "Invalid date format",
            ConvertError::TimezoneError => "Invalid timezone offset",
        }
    }
}

} // verus!
