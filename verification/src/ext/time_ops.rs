//! Dates and the clock from `chrono`.

use vstd::prelude::*;

verus! {

/// `DateTime::parse_from_rfc2822(s)` as Unix milliseconds.
pub uninterp spec fn rfc2822_millis(s: Seq<char>) -> Option<i64>;

/// `chrono::DateTime::parse_from_rfc2822`, then `timestamp_millis`.
#[verifier::external_body]
pub(crate) fn parse_rfc2822_millis(s: &str) -> (r: Option<i64>)
    ensures
        r == rfc2822_millis(s@),
{
    ::chrono::DateTime::parse_from_rfc2822(s).ok().map(|d| d.timestamp_millis())
}

/// `DateTime::parse_from_rfc3339(s)` as Unix milliseconds.
pub uninterp spec fn rfc3339_millis(s: Seq<char>) -> Option<i64>;

/// `chrono::DateTime::parse_from_rfc3339`, then `timestamp_millis`.
#[verifier::external_body]
pub(crate) fn parse_rfc3339_millis(s: &str) -> (r: Option<i64>)
    ensures
        r == rfc3339_millis(s@),
{
    ::chrono::DateTime::parse_from_rfc3339(s).ok().map(|d| d.timestamp_millis())
}

/// The first instant, in Unix milliseconds, of year 0.
pub const RFC2822_MIN_MS: i64 = -62167219200000;

/// The last instant, in Unix milliseconds, of year 9999.
pub const RFC2822_MAX_MS: i64 = 253402300799999;

/// The first instant chrono represents: the start of year -262143.
pub const CHRONO_MIN_MS: i64 = -8334601315200000;

/// The last instant chrono represents: the end of year 262142.
pub const CHRONO_MAX_MS: i64 = 8210266876799999;

/// An instant whose year RFC 2822 can write: 0 through 9999.
pub open spec fn rfc2822_range(ms: i64) -> bool {
    RFC2822_MIN_MS <= ms <= RFC2822_MAX_MS
}

/// An instant chrono can represent.
pub open spec fn chrono_range(ms: i64) -> bool {
    CHRONO_MIN_MS <= ms <= CHRONO_MAX_MS
}

/// `DateTime::<Utc>::from_timestamp_millis(ms)` rendered by `to_rfc2822`.
pub uninterp spec fn rfc2822_of_millis(ms: i64) -> Seq<char>;

/// `chrono::DateTime::from_timestamp_millis`, then `to_rfc2822`.
/// `to_rfc2822` panics outside years 0 to 9999, which `requires` leaves
/// out; inside them `from_timestamp_millis` always gives an instant.
#[verifier::external_body]
pub(crate) fn format_rfc2822(ms: i64) -> (r: String)
    requires
        rfc2822_range(ms),
    ensures
        r@ == rfc2822_of_millis(ms),
{
    ::chrono::DateTime::from_timestamp_millis(ms).map_or(String::new(), |d| d.to_rfc2822())
}

/// `chrono::Utc::now()` as Unix milliseconds. The clock is read, so nothing
/// is promised of the value.
#[verifier::external_body]
pub(crate) fn now_millis() -> i64 {
    ::chrono::Utc::now().timestamp_millis()
}

} // verus!
