use vstd::prelude::*;

verus! {

/// The Unix timestamp (whole seconds) that a piece of RFC 3339 text stands
/// for, or nothing when the text does not parse. A name for the outcome of
/// chrono's parser, which depends on the characters alone.
pub uninterp spec fn rfc3339_epoch_of(s: Seq<char>) -> Option<i64>;

/// Relies on chrono: `str::parse::<DateTime<FixedOffset>>` parses RFC 3339
/// text (leniently, allowing some padding), and `DateTime::timestamp` is
/// its Unix timestamp in whole seconds. Both depend on the characters
/// alone.
#[verifier::external_body]
pub(crate) fn parse_rfc3339(s: &str) -> (r: Option<i64>)
    ensures
        r == rfc3339_epoch_of(s@),
{
    match s.parse::<chrono::DateTime<chrono::FixedOffset>>() {
        Ok(d) => Some(d.timestamp()),
        Err(_) => None,
    }
}

/// Relies on chrono: `DateTime::from_timestamp` represents any timestamp
/// between the epoch and the end of year 9999, and `to_rfc3339_opts` renders
/// it as RFC 3339 text that chrono parses back to the same timestamp.
#[verifier::external_body]
pub(crate) fn format_rfc3339(t: i64) -> (r: String)
    requires
        0 <= t <= 253402300799,
    ensures
        rfc3339_epoch_of(r@) == Some(t),
{
    match chrono::DateTime::from_timestamp(t, 0) {
        Some(d) => d.to_rfc3339_opts(chrono::SecondsFormat::Secs, false),
        None => String::new(),
    }
}

} // verus!
