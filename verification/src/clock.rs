//! Points in time as dates.

use vstd::prelude::*;

use crate::models::Timestamp;
use crate::text::text_of;

verus! {

/// The first second of the first date that can be written, the start of the
/// year -262143.
pub const FIRST_SECOND: i64 = -8_334_601_228_800;

/// The last second of the last date that can be written, the end of the year
/// 262142.
pub const LAST_SECOND: i64 = 8_210_266_876_799;

/// Whether the second lies within the dates that can be written.
pub open spec fn representable_second(secs: i64) -> bool {
    FIRST_SECOND <= secs <= LAST_SECOND
}

/// Whether the point in time can be written as a date and a time: its second
/// lies within the dates that can be written, and its nanoseconds are less
/// than a second, or less than two in the last second of a minute, which is
/// how a leap second is told.
pub open spec fn representable(at: Timestamp) -> bool {
    &&& representable_second(at.secs)
    &&& at.nanos < 1_000_000_000 || (at.nanos < 2_000_000_000 && at.secs % 60 == 59)
}

/// `chrono::DateTime::from_timestamp` with no nanoseconds: the point in time
/// at the given second, or nothing where the second lies outside the dates
/// that the library represents, which run from the year -262143 to the year
/// 262142.
#[verifier::external_body]
pub(crate) fn timestamp_at(secs: i64) -> (at: Option<Timestamp>)
    ensures
        at == if representable_second(secs) {
            Some(Timestamp { secs, nanos: 0 })
        } else {
            None
        },
{
    match chrono::DateTime::from_timestamp(secs, 0) {
        Some(at) => Some(Timestamp { secs: at.timestamp(), nanos: at.timestamp_subsec_nanos() }),
        None => None,
    }
}

/// A point in time that can be written, as the date and time of RFC 3339 in
/// UTC.
pub uninterp spec fn rfc3339_text(secs: i64, nanos: u32) -> Seq<char>;

/// `chrono::DateTime::to_rfc3339` of the date that
/// `chrono::DateTime::from_timestamp` makes of the point in time. There is
/// such a date where the second lies within the dates that the library
/// represents and the nanoseconds are below a second, or below two seconds
/// in the last second of a minute.
#[verifier::external_body]
pub(crate) fn rfc3339(at: Timestamp) -> (text: Option<String>)
    ensures
        text_of(text) == if representable(at) {
            Some(rfc3339_text(at.secs, at.nanos))
        } else {
            None
        },
{
    match chrono::DateTime::from_timestamp(at.secs, at.nanos) {
        Some(date) => Some(date.to_rfc3339()),
        None => None,
    }
}

} // verus!
