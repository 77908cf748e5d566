//! Wall-clock timestamps for the records the engine stores.
use vstd::prelude::*;

verus! {

/// `chrono::Utc::now().to_rfc3339()`: the current UTC time as RFC 3339 text.
///
/// The result depends on the clock, so nothing is claimed of it. chrono's
/// `Utc::now` panics when the system clock reads a time before 1970.
#[verifier::external_body]
pub(crate) fn now() -> String {
    chrono::Utc::now().to_rfc3339()
}

/// The RFC 3339 text that chrono's `to_rfc3339` gives for the UTC time
/// `days` days after the instant `secs` seconds and `nanos` nanoseconds past
/// the Unix epoch: a rendering fixed by its arguments, named rather than
/// written out.
pub uninterp spec fn utc_rfc3339_after(secs: int, nanos: int, days: int) -> Seq<char>;

/// Reads the clock once with `chrono::Utc::now()` and returns
/// `(now + chrono::TimeDelta::days(days)).to_rfc3339()` together with that
/// instant's `timestamp()` and `timestamp_subsec_nanos()`.
///
/// Which instant is now depends on the clock and is not claimed; the text
/// is the rendering of that instant moved by `days` days, and the
/// nanoseconds lie within the second (`Utc::now` builds the instant from a
/// `Duration`'s `subsec_nanos`). `TimeDelta::days` panics only beyond about
/// 10^14 days, which `requires` leaves out; the addition panics only when
/// the clock reads a time within `days` days of chrono's last representable
/// date (year 262143).
#[verifier::external_body]
pub(crate) fn rfc3339_days_from_now(days: i64) -> (r: (String, i64, u32))
    requires
        0 <= days <= 36500,
    ensures
        r.0@ == utc_rfc3339_after(r.1 as int, r.2 as int, days as int),
        r.2 < 1_000_000_000,
{
    let now = chrono::Utc::now();
    ((now + chrono::TimeDelta::days(days)).to_rfc3339(), now.timestamp(), now.timestamp_subsec_nanos())
}

} // verus!
