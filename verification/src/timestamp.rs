//! Reading the feed's timestamps.

use crate::model::Timestamp;
use vstd::prelude::*;

verus! {

/// The point in time, in UTC, that the timestamp parser reads from a
/// text, where it reads one.
pub uninterp spec fn iso8601_timestamp(text: Seq<char>) -> Option<Timestamp>;

/// Parses an ISO 8601 timestamp.
///
/// Trusted: this is `iso8601_timestamp::Timestamp::parse`, which applies an
/// offset that the text gives and returns a time in UTC, or nothing. The
/// fields are copied from what it returns. The result depends on the text
/// alone; the contract gives it a name and says nothing more of it.
#[verifier::external_body]
fn parse_timestamp(text: &str) -> (r: Option<Timestamp>)
    ensures
        r == iso8601_timestamp(text@),
{
    iso8601_timestamp::Timestamp::parse(text).map(
        |t| Timestamp {
            year: t.year(),
            month: t.month().into(),
            day: t.day(),
            hour: t.hour(),
            minute: t.minute(),
            second: t.second(),
            nanosecond: t.nanosecond(),
        },
    )
}

impl Timestamp {
    /// The point in time that the timestamp parser reads from `text`, or
    /// nothing where it reads none.
    pub fn parse(text: &str) -> (r: Option<Timestamp>)
        ensures
            r == iso8601_timestamp(text@),
    {
        parse_timestamp(text)
    }
}

} // verus!
