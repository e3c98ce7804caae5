//! Points in time as the exchange's history endpoint reads and writes them:
//! seconds since the Unix epoch, together with the UTC offset they were
//! written in. Reading and writing RFC 3339 text is chrono's work.
use vstd::prelude::*;

verus! {

#[verifier::external_type_specification]
#[verifier::external_body]
pub struct ExParseError(chrono::ParseError);

/// A point in time: `seconds` since 1970-01-01T00:00:00Z, shown at a UTC
/// offset of `offset` seconds.
#[derive(Clone, Copy, Debug, PartialEq, Eq, Structural)]
pub struct Instant {
    pub seconds: i64,
    pub offset: i32,
}

/// What chrono reads from an RFC 3339 text, if it accepts it.
pub uninterp spec fn rfc3339_instant(text: Seq<char>) -> Option<Instant>;

/// The RFC 3339 text chrono writes for an instant, if it can represent it.
pub uninterp spec fn rfc3339_text(t: Instant) -> Option<Seq<char>>;

/// Relies on chrono's `DateTime::parse_from_rfc3339`, with `timestamp` and
/// `FixedOffset::local_minus_utc` to take the result apart.
#[verifier::external_body]
fn parse_rfc3339(text: &str) -> (r: Result<Instant, chrono::ParseError>)
    ensures
        r is Ok <==> rfc3339_instant(text@) is Some,
        r is Ok ==> rfc3339_instant(text@) == Some(r->Ok_0),
{
    chrono::DateTime::parse_from_rfc3339(text).map(
        |d| Instant { seconds: d.timestamp(), offset: d.offset().local_minus_utc() },
    )
}

/// Relies on chrono's `DateTime::to_rfc3339`, with `DateTime::from_timestamp`
/// and `FixedOffset::east_opt` to build the value it formats.
#[verifier::external_body]
fn format_rfc3339(t: Instant) -> (r: Option<String>)
    ensures
        r is Some <==> rfc3339_text(t) is Some,
        r is Some ==> rfc3339_text(t) == Some(r->0@),
{
    let offset = chrono::FixedOffset::east_opt(t.offset)?;
    let utc = chrono::DateTime::from_timestamp(t.seconds, 0)?;
    Some(utc.with_timezone(&offset).to_rfc3339())
}

impl Instant {
    /// Reads an RFC 3339 date and time, such as `2020-01-01T00:00:00-04:00`.
    pub fn parse(text: &str) -> (r: Option<Instant>)
        ensures
            r == rfc3339_instant(text@),
    {
        match parse_rfc3339(text) {
            Ok(t) => Some(t),
            Err(_) => None,
        }
    }

    /// Writes the instant as RFC 3339 text at its own offset; `None` where
    /// the instant lies outside the calendar that chrono can represent.
    pub fn to_rfc3339(&self) -> (r: Option<String>)
        ensures
            r is Some <==> rfc3339_text(*self) is Some,
            r is Some ==> rfc3339_text(*self) == Some(r->0@),
    {
        format_rfc3339(*self)
    }
}

} // verus!
