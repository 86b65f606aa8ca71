//! Watermark timestamps.
//!
//! A watermark is an instant in UTC, held as nanoseconds since the Unix
//! epoch: a plain `i64`, totally ordered by integer comparison. The persisted
//! form is an RFC 3339 string; `chrono` converts between the two behind the
//! two trusted wrappers below.

use vstd::prelude::*;

verus! {

/// What `chrono`'s RFC 3339 parser yields on a given string: the instant as
/// nanoseconds since the Unix epoch, or `None` where the string is not a
/// valid RFC 3339 date-time or its instant does not fit in `i64` nanoseconds.
pub uninterp spec fn rfc3339_nanos(s: Seq<char>) -> Option<i64>;

/// The RFC 3339 rendering `chrono` gives the UTC instant that lies `nanos`
/// nanoseconds after the Unix epoch.
pub uninterp spec fn rfc3339_string(nanos: i64) -> Seq<char>;

/// Relies on `chrono::DateTime::parse_from_rfc3339` and
/// `DateTime::timestamp_nanos_opt`: what they yield depends on the
/// characters of `s` alone.
#[verifier::external_body]
pub(crate) fn parse_rfc3339(s: &str) -> (r: Option<i64>)
    ensures
        r == rfc3339_nanos(s@),
{
    match chrono::DateTime::parse_from_rfc3339(s) {
        Ok(d) => d.timestamp_nanos_opt(),
        Err(_) => None,
    }
}

/// Relies on `chrono::DateTime::<Utc>::from_timestamp_nanos` (total on `i64`)
/// and `DateTime::to_rfc3339`: the rendering depends on `nanos` alone, and
/// `parse_from_rfc3339` reads the same instant back from it.
#[verifier::external_body]
pub(crate) fn format_rfc3339(nanos: i64) -> (r: String)
    ensures
        r@ == rfc3339_string(nanos),
        rfc3339_nanos(r@) == Some(nanos),
{
    chrono::DateTime::<chrono::Utc>::from_timestamp_nanos(nanos).to_rfc3339()
}

} // verus!
