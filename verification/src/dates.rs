//! Days and instants: the calendar arithmetic and formatting are chrono's; what
//! is decided here is which text reads as which day or instant, and how a
//! window of days becomes the half-open span a query runs over and the label a
//! reader is shown.
use vstd::prelude::*;
use chrono::{DateTime, NaiveDate, Utc};
use crate::text::{chars_of, string_of, trim_seq, trim_str};

verus! {

#[verifier::external_type_specification]
#[verifier::external_body]
pub struct ExNaiveDate(chrono::NaiveDate);

/// A point in time, UTC: whole seconds since the Unix epoch and the
/// nanoseconds past that second.
#[derive(Clone, Copy, Debug, PartialEq, Eq, Structural)]
pub struct Instant {
    pub secs: i64,
    pub nanos: u32,
}

/// The day that `NaiveDate::parse_from_str(s, "%Y-%m-%d")` reads from a text,
/// if it reads one; a function of the text alone.
pub uninterp spec fn ymd_date(s: Seq<char>) -> Option<NaiveDate>;

/// The first instant of a day, UTC midnight (`and_hms_opt(0, 0, 0)` then
/// `and_utc`).
pub uninterp spec fn midnight(d: NaiveDate) -> Instant;

/// The calendar day after a day (`NaiveDate::succ_opt`), `None` after the last
/// day chrono can represent.
pub uninterp spec fn day_after(d: NaiveDate) -> Option<NaiveDate>;

/// A day written `YYYY-MM-DD` (`format("%Y-%m-%d")`).
pub uninterp spec fn ymd_text(d: NaiveDate) -> Seq<char>;

/// The instant `DateTime::parse_from_rfc3339` reads from a text, moved to UTC,
/// if it reads one.
pub uninterp spec fn rfc3339_instant(s: Seq<char>) -> Option<Instant>;

/// `NaiveDate::parse_from_str` with the format `%Y-%m-%d`.
#[verifier::external_body]
pub(crate) fn parse_ymd(s: &str) -> (r: Option<NaiveDate>)
    ensures
        r == ymd_date(s@),
{
    NaiveDate::parse_from_str(s, "%Y-%m-%d").ok()
}

/// `NaiveDate::and_hms_opt(0, 0, 0)` and `NaiveDateTime::and_utc`, read back as
/// seconds and nanoseconds; midnight exists on every day, so the `Option` in
/// between is always `Some`.
#[verifier::external_body]
pub(crate) fn midnight_of(d: NaiveDate) -> (r: Instant)
    ensures
        r == midnight(d),
{
    let t = d.and_hms_opt(0, 0, 0).unwrap_or_default().and_utc();
    Instant { secs: t.timestamp(), nanos: t.timestamp_subsec_nanos() }
}

/// `NaiveDate::succ_opt`.
#[verifier::external_body]
fn succ(d: NaiveDate) -> (r: Option<NaiveDate>)
    ensures
        r == day_after(d),
{
    d.succ_opt()
}

/// `NaiveDate::format` with `%Y-%m-%d`, as a string.
#[verifier::external_body]
pub(crate) fn format_ymd(d: NaiveDate) -> (r: String)
    ensures
        r@ == ymd_text(d),
{
    d.format("%Y-%m-%d").to_string()
}

/// `DateTime::parse_from_rfc3339` followed by `with_timezone(&Utc)`, read back
/// as seconds and nanoseconds.
#[verifier::external_body]
fn parse_rfc3339(s: &str) -> (r: Option<Instant>)
    ensures
        r == rfc3339_instant(s@),
{
    DateTime::parse_from_rfc3339(s).ok().map(|t| {
        let u = t.with_timezone(&Utc);
        Instant { secs: u.timestamp(), nanos: u.timestamp_subsec_nanos() }
    })
}

/// The RFC 3339 text `DateTime::<Utc>::to_rfc3339` writes for an instant;
/// `None` when the instant lies outside the range chrono represents. A
/// function of the instant alone.
pub uninterp spec fn rfc3339_of(t: Instant) -> Option<Seq<char>>;

/// `DateTime::from_timestamp`, then `to_rfc3339`.
#[verifier::external_body]
pub(crate) fn format_rfc3339(t: Instant) -> (r: Option<String>)
    ensures
        crate::paging::opt_view(r) == rfc3339_of(t),
{
    DateTime::from_timestamp(t.secs, t.nanos).map(|d| d.to_rfc3339())
}

/// A day named in a tool argument: the trimmed text as `YYYY-MM-DD`.
pub fn day_arg(raw: &str) -> (r: Option<NaiveDate>)
    ensures
        r == ymd_date(trim_seq(raw@)),
{
    let t = trim_str(raw);
    parse_ymd(t.as_str())
}

/// The window a `changes` question runs over: from the first instant of
/// `since` up to, not including, the first instant of the day after `until`
/// (so that the day `until` names is inside), or up to `now` when no end day is
/// given. The label shows the days as asked, never the computed end.
pub open spec fn window_of(since: Option<NaiveDate>, until: Option<NaiveDate>, now: Instant) -> Option<
    (Instant, Instant, Seq<char>),
> {
    match since {
        None => None,
        Some(from) => {
            let end = match until {
                Some(d) => match day_after(d) {
                    Some(n) => midnight(n),
                    None => now,
                },
                None => now,
            };
            let label = ymd_text(from) + " \u{2192} "@ + match until {
                Some(d) => ymd_text(d),
                None => "now"@,
            };
            Some((midnight(from), end, label))
        },
    }
}

pub fn changes_window(
    since: Option<NaiveDate>,
    until: Option<NaiveDate>,
    now: Instant,
) -> (r: Option<(Instant, Instant, String)>)
    ensures
        match (r, window_of(since, until, now)) {
            (None, None) => true,
            (Some((s, e, l)), Some((s2, e2, l2))) => s == s2 && e == e2 && l@ == l2,
            _ => false,
        },
{
    let from = match since {
        None => return None,
        Some(f) => f,
    };
    let start = midnight_of(from);
    let end = match until {
        Some(d) => match succ(d) {
            Some(n) => midnight_of(n),
            None => now,
        },
        None => now,
    };
    let mut label: Vec<char> = chars_of(format_ymd(from).as_str());
    let arrow: Vec<char> = vec![' ', '\u{2192}', ' '];
    let tail: String = match until {
        Some(d) => format_ymd(d),
        None => string_of(&vec!['n', 'o', 'w']),
    };
    let tail_chars = chars_of(tail.as_str());
    let ghost head = label@;
    label.append(&mut arrow.clone());
    let mut t2 = tail_chars.clone();
    label.append(&mut t2);
    proof {
        reveal_strlit(" \u{2192} ");
        reveal_strlit("now");
        assert(label@ =~= head + " \u{2192} "@ + tail_chars@);
        if until is None {
            assert(tail_chars@ =~= "now"@);
        }
    }
    Some((start, end, string_of(&label)))
}

/// A point on a time axis given as a query parameter: blank or absent is no
/// point; a `YYYY-MM-DD` day is its first instant; otherwise the text must be an
/// RFC 3339 instant.
pub open spec fn instant_verdict(raw: Option<Seq<char>>) -> Option<Option<Instant>> {
    match raw {
        None => Some(None),
        Some(s) => {
            let t = trim_seq(s);
            if t.len() == 0 {
                Some(None)
            } else {
                match ymd_date(t) {
                    Some(d) => Some(Some(midnight(d))),
                    None => match rfc3339_instant(t) {
                        Some(i) => Some(Some(i)),
                        None => None,
                    },
                }
            }
        },
    }
}

/// Reads an instant parameter; `Err` carries the sentence naming the field.
pub fn parse_instant(field: &str, raw: Option<&str>) -> (r: Result<Option<Instant>, String>)
    ensures
        match instant_verdict(
            match raw {
                Some(s) => Some(s@),
                None => None,
            },
        ) {
            Some(v) => r == Ok::<Option<Instant>, String>(v),
            None => r matches Err(m) && m@ == "Invalid `"@ + field@
                + "` (expected YYYY-MM-DD or RFC3339)"@,
        },
{
    let s = match raw {
        None => return Ok(None),
        Some(s) => s,
    };
    let t = trim_str(s);
    if t.unicode_len() == 0 {
        return Ok(None);
    }
    if let Some(d) = parse_ymd(t.as_str()) {
        return Ok(Some(midnight_of(d)));
    }
    match parse_rfc3339(t.as_str()) {
        Some(i) => Ok(Some(i)),
        None => {
            let mut m = chars_of("Invalid `");
            let mut f = chars_of(field);
            let mut rest = chars_of("` (expected YYYY-MM-DD or RFC3339)");
            let ghost a = m@;
            let ghost b = f@;
            let ghost c = rest@;
            m.append(&mut f);
            m.append(&mut rest);
            proof {
                assert(m@ =~= a + b + c);
            }
            Err(string_of(&m))
        },
    }
}

} // verus!
