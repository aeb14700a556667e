//! Rendering extracted event fields into one reminder line.

use vstd::prelude::*;

use crate::datetime::{duration_minutes, duration_minutes_exec, seconds_between_exec, DateTime};
use crate::strutil::{
    digit_char, digit_str, i64_to_string, is_space_char, signed_dec_str, trim_end, trim_end_spec,
};

verus! {

/// `n` written with exactly two digits, zero padded; meaningful for
/// `0 <= n <= 99`.
pub open spec fn two_digits(n: int) -> Seq<char> {
    seq![digit_char(n / 10), digit_char(n % 10)]
}

/// `n` written with exactly four digits, zero padded; meaningful for
/// `0 <= n <= 9999`.
pub open spec fn four_digits(n: int) -> Seq<char> {
    seq![
        digit_char(n / 1000),
        digit_char((n / 100) % 10),
        digit_char((n / 10) % 10),
        digit_char(n % 10),
    ]
}

/// The English three-letter abbreviation of month `m`.
pub open spec fn month_abbrev(m: int) -> Seq<char> {
    if m == 1 {
        "Jan"@
    } else if m == 2 {
        "Feb"@
    } else if m == 3 {
        "Mar"@
    } else if m == 4 {
        "Apr"@
    } else if m == 5 {
        "May"@
    } else if m == 6 {
        "Jun"@
    } else if m == 7 {
        "Jul"@
    } else if m == 8 {
        "Aug"@
    } else if m == 9 {
        "Sep"@
    } else if m == 10 {
        "Oct"@
    } else if m == 11 {
        "Nov"@
    } else {
        "Dec"@
    }
}

/// A date formatted `DD Mon YYYY`.
pub open spec fn format_date_spec(dt: DateTime) -> Seq<char> {
    two_digits(dt.day as int) + seq![' '] + month_abbrev(dt.month as int) + seq![' ']
        + four_digits(dt.year as int)
}

/// A date-time formatted `DD Mon YYYY AT HH:MM`.
pub open spec fn format_datetime_spec(dt: DateTime) -> Seq<char> {
    format_date_spec(dt) + " AT "@ + two_digits(dt.hour as int) + seq![':'] + two_digits(
        dt.minute as int,
    )
}

/// The full reminder line for the extracted fields, before any failure
/// handling: the date clause (recurrence first when present, even empty),
/// the end clause (`UNTIL` from one day's difference up, else `DURATION`
/// in whole minutes), the message text, and trailing white space trimmed.
pub open spec fn render_line_spec(
    summary: Seq<char>,
    meet_link: Seq<char>,
    start: DateTime,
    end: DateTime,
    recurrence: Option<Seq<char>>,
) -> Seq<char> {
    let date_clause = match recurrence {
        Some(r) => r + " FROM "@ + format_datetime_spec(start),
        None => format_datetime_spec(start),
    };
    let end_clause = if end.seconds_of() - start.seconds_of() >= 86400 {
        "UNTIL "@ + format_date_spec(end)
    } else {
        "DURATION "@ + signed_dec_str(duration_minutes(start, end))
    };
    trim_end_spec("REM "@ + date_clause + seq![' '] + end_clause + " MSG "@ + summary + seq![' '] + meet_link)
}

/// Appends `n` as two zero-padded digits.
fn push_two_digits(out: &mut String, n: u32)
    requires
        n <= 99,
    ensures
        final(out)@ == old(out)@ + two_digits(n as int),
{
    out.append(digit_str(n / 10));
    out.append(digit_str(n % 10));
    proof {
        assert(out@ =~= old(out)@ + two_digits(n as int));
    }
}

/// Appends `n` as four zero-padded digits.
fn push_four_digits(out: &mut String, n: u32)
    requires
        n <= 9999,
    ensures
        final(out)@ == old(out)@ + four_digits(n as int),
{
    out.append(digit_str(n / 1000));
    out.append(digit_str((n / 100) % 10));
    out.append(digit_str((n / 10) % 10));
    out.append(digit_str(n % 10));
    proof {
        assert(out@ =~= old(out)@ + four_digits(n as int));
    }
}

/// The English three-letter abbreviation of month `m`.
fn month_abbrev_exec(m: u32) -> (r: &'static str)
    requires
        1 <= m <= 12,
    ensures
        r@ == month_abbrev(m as int),
{
    if m == 1 {
        "Jan"
    } else if m == 2 {
        "Feb"
    } else if m == 3 {
        "Mar"
    } else if m == 4 {
        "Apr"
    } else if m == 5 {
        "May"
    } else if m == 6 {
        "Jun"
    } else if m == 7 {
        "Jul"
    } else if m == 8 {
        "Aug"
    } else if m == 9 {
        "Sep"
    } else if m == 10 {
        "Oct"
    } else if m == 11 {
        "Nov"
    } else {
        "Dec"
    }
}

/// Appends a date formatted `DD Mon YYYY`.
fn push_date(out: &mut String, dt: &DateTime)
    requires
        dt.valid(),
    ensures
        final(out)@ == old(out)@ + format_date_spec(*dt),
{
    push_two_digits(out, dt.day);
    out.append(" ");
    out.append(month_abbrev_exec(dt.month));
    out.append(" ");
    push_four_digits(out, dt.year);
    proof {
        reveal_strlit(" ");
        assert(" "@ =~= seq![' ']);
        assert(out@ =~= old(out)@ + format_date_spec(*dt));
    }
}

/// Appends a date-time formatted `DD Mon YYYY AT HH:MM`.
fn push_datetime(out: &mut String, dt: &DateTime)
    requires
        dt.valid(),
    ensures
        final(out)@ == old(out)@ + format_datetime_spec(*dt),
{
    push_date(out, dt);
    out.append(" AT ");
    push_two_digits(out, dt.hour);
    out.append(":");
    push_two_digits(out, dt.minute);
    proof {
        reveal_strlit(":");
        assert(":"@ =~= seq![':']);
        assert(out@ =~= old(out)@ + format_datetime_spec(*dt));
    }
}

/// A trimmed string never ends in white space.
pub proof fn lemma_trim_end_no_trailing(s: Seq<char>)
    ensures
        trim_end_spec(s).len() > 0 ==> !is_space_char(trim_end_spec(s).last()),
    decreases s.len(),
{
    if s.len() > 0 && is_space_char(s.last()) {
        lemma_trim_end_no_trailing(s.drop_last());
    }
}

/// Renders one reminder line from the extracted fields. The line reads
/// `REM <date clause> <end clause> MSG <summary> <meet link>` with
/// trailing white space trimmed, which absorbs the trailing separator an
/// empty meet link would leave.
pub fn render_line(
    summary: &str,
    meet_link: &str,
    start: &DateTime,
    end: &DateTime,
    recurrence: Option<&String>,
) -> (r: String)
    requires
        start.valid(),
        end.valid(),
    ensures
        r@ == render_line_spec(
            summary@,
            meet_link@,
            *start,
            *end,
            match recurrence {
                Some(s) => Some(s@),
                None => None,
            },
        ),
        r@.len() > 0 ==> !is_space_char(r@.last()),
{
    let mut out = String::new();
    out.append("REM ");
    match recurrence {
        Some(rec) => {
            out.append(rec.as_str());
            out.append(" FROM ");
            push_datetime(&mut out, start);
        },
        None => {
            push_datetime(&mut out, start);
        },
    }
    out.append(" ");
    let seconds = seconds_between_exec(start, end);
    if seconds >= 86400 {
        out.append("UNTIL ");
        push_date(&mut out, end);
    } else {
        out.append("DURATION ");
        let minutes = duration_minutes_exec(start, end);
        out.append(i64_to_string(minutes).as_str());
    }
    out.append(" MSG ");
    out.append(summary);
    out.append(" ");
    out.append(meet_link);
    let ghost date_clause = match recurrence {
        Some(s) => s@ + " FROM "@ + format_datetime_spec(*start),
        None => format_datetime_spec(*start),
    };
    let ghost end_clause = if end.seconds_of() - start.seconds_of() >= 86400 {
        "UNTIL "@ + format_date_spec(*end)
    } else {
        "DURATION "@ + signed_dec_str(duration_minutes(*start, *end))
    };
    proof {
        reveal_strlit(" ");
        assert(" "@ =~= seq![' ']);
        assert(out@ =~= "REM "@ + date_clause + seq![' '] + end_clause + " MSG "@ + summary@
            + seq![' '] + meet_link@);
        lemma_trim_end_no_trailing(out@);
    }
    trim_end(out.as_str())
}

} // verus!
