//! Instants in UTC, and what chrono computes of them.

use vstd::prelude::*;

verus! {

/// An instant in UTC: whole seconds since 1970-01-01T00:00:00Z and the
/// nanoseconds past that second (beyond 999,999,999 only in a leap second).
#[derive(Clone, Copy, Debug, PartialEq, Eq, Structural)]
pub struct Timestamp {
    pub secs: i64,
    pub nanos: u32,
}

impl View for Timestamp {
    type V = Timestamp;

    open spec fn view(&self) -> Timestamp {
        *self
    }
}

/// The strftime pattern of the date in a photo's file name.
pub const FILE_STAMP_PATTERN: &'static str = "%Y-%m-%d_%H-%M-%S";

/// The strftime pattern of the older date encoding of the feed.
pub const LEGACY_DATE_PATTERN: &'static str = "%Y-%m-%d %H:%M:%S%.6f";

/// What chrono's RFC 3339 parser makes of `s`: the instant in UTC, or the
/// text of its parse error.
pub uninterp spec fn rfc3339_instant(s: Seq<char>) -> Result<(i64, u32), Seq<char>>;

/// What chrono makes of `s` read with the strftime pattern `fmt` as a date and
/// time without offset, taken as UTC: the instant, or the text of its parse error.
pub uninterp spec fn pattern_instant(s: Seq<char>, fmt: Seq<char>) -> Result<(i64, u32), Seq<char>>;

/// What chrono prints for the UTC instant `(secs, nanos)` with the strftime
/// pattern `fmt`; `None` where chrono cannot represent the instant.
pub uninterp spec fn formatted_instant(secs: i64, nanos: u32, fmt: Seq<char>) -> Option<Seq<char>>;

/// Relies on `chrono::DateTime::parse_from_rfc3339`, and on `timestamp` and
/// `timestamp_subsec_nanos` of its result, which give the instant in UTC.
#[verifier::external_body]
pub(crate) fn parse_rfc3339(s: &str) -> (r: Result<Timestamp, String>)
    ensures
        match r {
            Ok(t) => rfc3339_instant(s@) == Ok::<(i64, u32), Seq<char>>((t.secs, t.nanos)),
            Err(e) => rfc3339_instant(s@) == Err::<(i64, u32), Seq<char>>(e@),
        },
{
    match chrono::DateTime::parse_from_rfc3339(s) {
        Ok(d) => Ok(Timestamp { secs: d.timestamp(), nanos: d.timestamp_subsec_nanos() }),
        Err(e) => Err(e.to_string()),
    }
}

/// Relies on `chrono::NaiveDateTime::parse_from_str` with the pattern `fmt`,
/// and on `and_utc`, which reads the result as UTC.
#[verifier::external_body]
pub(crate) fn parse_utc_pattern(s: &str, fmt: &str) -> (r: Result<Timestamp, String>)
    ensures
        match r {
            Ok(t) => pattern_instant(s@, fmt@) == Ok::<(i64, u32), Seq<char>>((t.secs, t.nanos)),
            Err(e) => pattern_instant(s@, fmt@) == Err::<(i64, u32), Seq<char>>(e@),
        },
{
    match chrono::NaiveDateTime::parse_from_str(s, fmt) {
        Ok(d) => Ok(Timestamp {
            secs: d.and_utc().timestamp(),
            nanos: d.and_utc().timestamp_subsec_nanos(),
        }),
        Err(e) => Err(e.to_string()),
    }
}

/// Relies on `chrono::DateTime::from_timestamp`, which is `None` outside the
/// range chrono represents, and on `format` with the pattern `fmt`. The
/// pattern is the one of photo file names: printing a pattern that chrono
/// rejects would panic.
#[verifier::external_body]
pub(crate) fn format_utc(t: Timestamp, fmt: &str) -> (r: Option<String>)
    requires
        fmt@ == FILE_STAMP_PATTERN@,
    ensures
        match r {
            Some(s) => formatted_instant(t.secs, t.nanos, fmt@) == Some(s@),
            None => formatted_instant(t.secs, t.nanos, fmt@) is None,
        },
{
    chrono::DateTime::from_timestamp(t.secs, t.nanos).map(|d| d.format(fmt).to_string())
}

} // verus!
