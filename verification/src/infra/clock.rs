//! Instants: seconds and nanoseconds since the Unix epoch, in UTC.

use vstd::prelude::*;

verus! {

/// The instant that an RFC 3339 date-and-time text names, as seconds since
/// the Unix epoch and nanoseconds within the second, or `None` where the
/// text is no such date and time.
pub uninterp spec fn rfc3339_instant_spec(text: Seq<char>) -> Option<(int, int)>;

/// `DateTime::parse_from_rfc3339` of chrono, with the result read by
/// `timestamp` and `timestamp_subsec_nanos`: the instant named by
/// `rfc3339_instant_spec`, or `None` where the crate reports a parse error.
#[verifier::external_body]
pub(crate) fn parse_rfc3339(text: &str) -> (r: Option<(i64, u32)>)
    ensures
        r matches Some(t) ==> rfc3339_instant_spec(text@) == Some((t.0 as int, t.1 as int)),
        r is None ==> rfc3339_instant_spec(text@) is None,
{
    chrono::DateTime::parse_from_rfc3339(text).ok().map(|d| (d.timestamp(), d.timestamp_subsec_nanos()))
}

/// `Utc::now` of chrono, read by `timestamp` and `timestamp_subsec_nanos`.
/// Which instant comes is left open.
#[verifier::external_body]
pub(crate) fn utc_now() -> (now: (i64, u32))
{
    let now = chrono::Utc::now();
    (now.timestamp(), now.timestamp_subsec_nanos())
}

/// `DateTime::to_rfc3339` of chrono on `Utc::now`. Which text comes is left
/// open.
#[verifier::external_body]
pub(crate) fn utc_now_rfc3339() -> (text: String)
{
    chrono::Utc::now().to_rfc3339()
}

/// The nanoseconds in a day.
pub open spec fn nanos_per_day() -> int {
    86_400_000_000_000
}

/// The nanoseconds from `earlier` to `later`; negative where `later` comes
/// first.
pub open spec fn nanos_between(earlier: (int, int), later: (int, int)) -> int {
    (later.0 - earlier.0) * 1_000_000_000 + (later.1 - earlier.1)
}

/// The whole days from `earlier` to `later`, rounded towards zero.
pub open spec fn whole_days_between(earlier: (int, int), later: (int, int)) -> int {
    let d = nanos_between(earlier, later);
    if d >= 0 {
        d / nanos_per_day()
    } else {
        -((-d) / nanos_per_day())
    }
}

/// Whether fewer than `days` whole days lie between `earlier` and `later`.
pub fn fewer_days_between(earlier: (i64, u32), later: (i64, u32), days: u64) -> (r: bool)
    ensures
        r == (whole_days_between(
            (earlier.0 as int, earlier.1 as int),
            (later.0 as int, later.1 as int),
        ) < days),
{
    let day: i128 = 86_400_000_000_000;
    let seconds: i128 = later.0 as i128 - earlier.0 as i128;
    let d: i128 = seconds * 1_000_000_000 + (later.1 as i128 - earlier.1 as i128);
    if d >= 0 {
        let whole: i128 = d / day;
        whole < days as i128
    } else {
        let back: i128 = -d;
        let whole: i128 = back / day;
        whole > 0 || days > 0
    }
}

} // verus!
