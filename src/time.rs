//! Calendar arithmetic on whole-second UTC instants, and the timestamp and
//! wall-clock parsers and formatter of `chrono`.
use vstd::prelude::*;

verus! {

/// Seconds in one calendar day.
pub const SECONDS_PER_DAY: i64 = 86400;

/// Largest magnitude of an instant that an RFC 3339 string can denote
/// (years 0000 to 9999, offsets below one day), with room to spare.
pub const MAX_PARSED_INSTANT: i64 = 300_000_000_000;

/// Largest magnitude of an instant that the formatter accepts.
pub const MAX_FORMATTED_INSTANT: i64 = 1_000_000_000_000;

/// The calendar day (days since 1970-01-01) on which the UTC instant `t` falls.
pub open spec fn day_of(t: int) -> int {
    t / 86400
}

/// Day of the week of day number `d`, Monday = 1 ... Sunday = 7
/// (1970-01-01 was a Thursday).
pub open spec fn weekday_of(d: int) -> int {
    (d + 3) % 7 + 1
}

/// The calendar day of a UTC instant.
pub fn date_of(t: i64) -> (r: i64)
    ensures
        r == day_of(t as int),
{
    let q = t / SECONDS_PER_DAY;
    let m = t % SECONDS_PER_DAY;
    if m < 0 {
        q - 1
    } else {
        q
    }
}

/// Day of the week of a calendar day, Monday = 1 ... Sunday = 7.
pub fn weekday(day: i64) -> (r: u32)
    ensures
        r as int == weekday_of(day as int),
        1 <= r <= 7,
{
    let m = day % 7;
    let m = if m < 0 {
        m + 7
    } else {
        m
    };
    let w = if m + 3 >= 7 {
        m + 3 - 7
    } else {
        m + 3
    };
    (w + 1) as u32
}

/// What chrono reads from an RFC 3339 timestamp string: the instant in whole
/// UTC seconds and the written offset in seconds, or nothing if it does not parse.
pub uninterp spec fn rfc3339_instant(s: Seq<char>) -> Option<(int, int)>;

/// What chrono writes for the instant `t` (UTC seconds) shown at `offset` seconds
/// east of UTC.
pub uninterp spec fn rfc3339_text(t: int, offset: int) -> Seq<char>;

/// What chrono reads from an `HH:MM` wall-clock string, in seconds after midnight.
pub uninterp spec fn wall_clock_seconds(s: Seq<char>) -> Option<int>;

/// Relies on chrono's `DateTime::parse_from_rfc3339`: a parsed value has a
/// four-digit year and an offset strictly within one day, so its instant is
/// far inside `MAX_PARSED_INSTANT`.
#[verifier::external_body]
pub(crate) fn parse_rfc3339(s: &str) -> (r: Option<(i64, i32)>)
    ensures
        match r {
            Some((t, off)) => {
                &&& rfc3339_instant(s@) == Some((t as int, off as int))
                &&& -MAX_PARSED_INSTANT <= t <= MAX_PARSED_INSTANT
                &&& -86400 < off < 86400
            },
            None => rfc3339_instant(s@) is None,
        },
{
    match chrono::DateTime::parse_from_rfc3339(s) {
        Ok(d) => Some((d.timestamp(), d.offset().local_minus_utc())),
        Err(_) => None,
    }
}

/// Relies on chrono's `DateTime::to_rfc3339` for an instant shown at a fixed
/// offset; `FixedOffset::east_opt` accepts offsets strictly within one day and
/// `DateTime::from_timestamp` accepts instants well beyond `MAX_FORMATTED_INSTANT`.
#[verifier::external_body]
pub(crate) fn format_rfc3339(t: i64, offset: i32) -> (r: String)
    requires
        -MAX_FORMATTED_INSTANT <= t <= MAX_FORMATTED_INSTANT,
        -86400 < offset < 86400,
    ensures
        r@ == rfc3339_text(t as int, offset as int),
{
    let zone = chrono::FixedOffset::east_opt(offset).expect("offset within one day");
    let utc = chrono::DateTime::from_timestamp(t, 0).expect("instant within range");
    utc.with_timezone(&zone).to_rfc3339()
}

/// Relies on chrono's `NaiveTime::parse_from_str` with the format `%H:%M`: the
/// time has no seconds and no leap second, so it lies within one day.
#[verifier::external_body]
pub(crate) fn parse_wall_clock(s: &str) -> (r: Option<u32>)
    ensures
        match r {
            Some(v) => wall_clock_seconds(s@) == Some(v as int) && v < 86400,
            None => wall_clock_seconds(s@) is None,
        },
{
    match chrono::NaiveTime::parse_from_str(s, "%H:%M") {
        Ok(t) => Some(chrono::Timelike::num_seconds_from_midnight(&t)),
        Err(_) => None,
    }
}

} // verus!
