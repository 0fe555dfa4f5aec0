//! Points in time as whole seconds since the Unix epoch (UTC).
use vstd::prelude::*;

verus! {

/// Seconds in a minute.
pub const MINUTE: i64 = 60;

/// Seconds in an hour.
pub const HOUR: i64 = 3600;

/// Seconds in a day.
pub const DAY: i64 = 86400;

/// The earliest second that chrono's `DateTime<Utc>` can hold
/// (January 1st of the year -262143, midnight).
pub const UTC_MIN_SECS: i64 = -8334601228800;

/// The latest second that chrono's `DateTime<Utc>` can hold
/// (December 31st of the year 262142, 23:59:59).
pub const UTC_MAX_SECS: i64 = 8210266876799;

/// A second that names a representable UTC date and time.
pub open spec fn valid_time(t: int) -> bool {
    UTC_MIN_SECS <= t <= UTC_MAX_SECS
}

/// What chrono prints for the UTC time `t` seconds after the epoch.
pub uninterp spec fn utc_text_of(t: int) -> Seq<char>;

/// The second that chrono reads from the text `s`, when it accepts it.
pub uninterp spec fn parsed_utc_of(s: Seq<char>) -> Option<int>;

/// Relies on chrono's `Display` for `DateTime<Utc>` (`2026-02-03 12:00:00 UTC`),
/// which prints a representable time as a function of its value alone.
#[verifier::external_body]
pub(crate) fn utc_text(t: i64) -> (r: String)
    requires
        valid_time(t as int),
    ensures
        r@ == utc_text_of(t as int),
{
    chrono::DateTime::from_timestamp(t, 0).map(|d| d.to_string()).unwrap_or_default()
}

/// Relies on chrono's `FromStr` for `DateTime<Utc>` (relaxed RFC 3339, the
/// format of the serde form of `DateTime<Utc>`), which yields a representable
/// time, of which `timestamp` gives the whole seconds.
#[verifier::external_body]
pub(crate) fn parse_utc(s: &str) -> (r: Option<i64>)
    ensures
        match r {
            Some(t) => parsed_utc_of(s@) == Some(t as int) && valid_time(t as int),
            None => parsed_utc_of(s@) is None,
        },
{
    s.parse::<chrono::DateTime<chrono::Utc>>().ok().map(|d| d.timestamp())
}

} // verus!
