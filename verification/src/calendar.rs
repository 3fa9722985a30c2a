//! The second half of the pipeline: from a timestamp to a date-time of the
//! calendar, in UTC and at a local offset.

use crate::error::ConvertError;
use chrono::{DateTime, FixedOffset};
use vstd::pervasive::unreached;
use vstd::prelude::*;

verus! {

/// The first second that the calendar can express: the start of the year
/// -262143.
pub const MIN_SECONDS: i64 = -8_334_601_228_800;

/// The last second that the calendar can express: the end of the year
/// 262142.
pub const MAX_SECONDS: i64 = 8_210_266_876_799;

/// Whether `seconds` since the epoch is an instant of the calendar.
pub open spec fn in_calendar_range(seconds: int) -> bool {
    MIN_SECONDS <= seconds <= MAX_SECONDS
}

/// Whether `seconds` east of UTC is an offset that a time zone can have:
/// less than a day either way.
pub open spec fn is_offset(seconds: int) -> bool {
    -86_400 < seconds < 86_400
}

/// The text that chrono writes for the instant `seconds` after the epoch
/// in UTC, such as `2015-05-15 00:00:00 UTC`.
pub uninterp spec fn utc_rendering(seconds: int) -> Seq<char>;

/// The text that chrono writes for the instant `seconds` after the epoch
/// as seen `offset` seconds east of UTC, such as
/// `2015-05-15 02:00:00 +02:00`.
pub uninterp spec fn offset_rendering(seconds: int, offset: int) -> Seq<char>;

/// `chrono::DateTime::from_timestamp` with no nanoseconds, followed by
/// `chrono::DateTime::timestamp` on the instant it made. The first gives
/// an instant exactly for the seconds from the start of the year -262143
/// to the end of the year 262142, and the second reads back the seconds
/// that the instant was made from.
#[verifier::external_body]
fn calendar_seconds(seconds: i64) -> (r: Option<i64>)
    ensures
        r == if in_calendar_range(seconds as int) {
            Some(seconds)
        } else {
            None::<i64>
        },
{
    match DateTime::from_timestamp(seconds, 0) {
        Some(instant) => Some(instant.timestamp()),
        None => None,
    }
}

/// `Display` of a `chrono::DateTime<Utc>` made by
/// `DateTime::from_timestamp` with no nanoseconds. There is an instant to
/// write exactly for the seconds of the calendar, and the text depends on
/// the seconds alone.
#[verifier::external_body]
fn render_utc(seconds: i64) -> (r: Option<String>)
    ensures
        match r {
            Some(text) => in_calendar_range(seconds as int) && text@ == utc_rendering(
                seconds as int,
            ),
            None => !in_calendar_range(seconds as int),
        },
{
    let instant = DateTime::from_timestamp(seconds, 0)?;
    Some(instant.to_string())
}

/// `Display` of a `chrono::DateTime<FixedOffset>`: the instant of
/// `DateTime::from_timestamp`, moved by `DateTime::with_timezone` to the
/// zone of `FixedOffset::east_opt`. That zone exists exactly for offsets
/// of less than a day, and the text depends on the seconds and the offset
/// alone.
#[verifier::external_body]
fn render_at_offset(seconds: i64, offset: i32) -> (r: Option<String>)
    ensures
        match r {
            Some(text) => in_calendar_range(seconds as int) && is_offset(offset as int) && text@
                == offset_rendering(seconds as int, offset as int),
            None => !(in_calendar_range(seconds as int) && is_offset(offset as int)),
        },
{
    let instant = DateTime::from_timestamp(seconds, 0)?;
    let zone = FixedOffset::east_opt(offset)?;
    Some(instant.with_timezone(&zone).to_string())
}

/// How far local time is ahead of UTC, in seconds; less than a day either
/// way.
#[derive(Clone, Copy, Debug)]
pub struct LocalOffset {
    east: i32,
}

impl LocalOffset {
    #[verifier::type_invariant]
    spec fn less_than_a_day(self) -> bool {
        is_offset(self.east as int)
    }

    /// The offset in seconds east of UTC.
    pub closed spec fn view(&self) -> int {
        self.east as int
    }

    /// The offset of UTC itself.
    pub fn utc() -> (r: Self)
        ensures
            r@ == 0,
    {
        LocalOffset { east: 0 }
    }

    /// The offset of `seconds` east of UTC (west, if negative), if that is
    /// less than a day.
    pub fn east(seconds: i32) -> (r: Option<Self>)
        ensures
            r is Some <==> is_offset(seconds as int),
            r matches Some(offset) ==> offset@ == seconds,
    {
        if -86_400 < seconds && seconds < 86_400 {
            Some(LocalOffset { east: seconds })
        } else {
            None
        }
    }

    /// The offset in seconds east of UTC.
    pub fn seconds(&self) -> (r: i32)
        ensures
            r == self@,
            is_offset(r as int),
    {
        proof {
            use_type_invariant(self);
        }
        self.east
    }
}

/// An instant of the calendar, together with the local offset at which it
/// is also shown.
#[derive(Clone, Copy, Debug)]
pub struct ResolvedDateTime {
    seconds: i64,
    offset: LocalOffset,
}

impl ResolvedDateTime {
    #[verifier::type_invariant]
    spec fn on_calendar(self) -> bool {
        in_calendar_range(self.seconds as int)
    }

    /// The instant, in seconds since the epoch.
    pub closed spec fn epoch_seconds(&self) -> int {
        self.seconds as int
    }

    /// The local offset, in seconds east of UTC.
    pub closed spec fn local_offset(&self) -> int {
        self.offset@
    }

    /// The instant, in seconds since the epoch.
    pub fn timestamp(&self) -> (r: i64)
        ensures
            r == self.epoch_seconds(),
            in_calendar_range(r as int),
    {
        proof {
            use_type_invariant(self);
        }
        self.seconds
    }

    /// The local offset at which the instant is also shown.
    pub fn offset(&self) -> (r: LocalOffset)
        ensures
            r@ == self.local_offset(),
    {
        self.offset
    }

    /// The same instant, shown at another local offset.
    pub fn in_zone(&self, offset: LocalOffset) -> (r: Self)
        ensures
            r.epoch_seconds() == self.epoch_seconds(),
            r.local_offset() == offset@,
    {
        proof {
            use_type_invariant(self);
        }
        ResolvedDateTime { seconds: self.seconds, offset }
    }

    /// The instant written out in UTC.
    pub fn utc_text(&self) -> (r: String)
        ensures
            r@ == utc_rendering(self.epoch_seconds()),
    {
        proof {
            use_type_invariant(self);
        }
        match render_utc(self.seconds) {
            Some(text) => text,
            None => unreached(),
        }
    }

    /// The instant written out at its local offset.
    pub fn local_text(&self) -> (r: String)
        ensures
            r@ == offset_rendering(self.epoch_seconds(), self.local_offset()),
    {
        proof {
            use_type_invariant(self);
        }
        match render_at_offset(self.seconds, self.offset.seconds()) {
            Some(text) => text,
            None => unreached(),
        }
    }
}

/// What resolving `timestamp` gives: a date-time of that instant, shown
/// locally as in UTC, or a range error that carries the timestamp.
pub open spec fn is_resolution(
    out: Result<ResolvedDateTime, ConvertError>,
    timestamp: i64,
) -> bool {
    if in_calendar_range(timestamp as int) {
        out matches Ok(datetime) && datetime.epoch_seconds() == timestamp
            && datetime.local_offset() == 0
    } else {
        out == Err::<ResolvedDateTime, ConvertError>(ConvertError::RangeError(timestamp))
    }
}

/// What the second half of the pipeline makes of a result of the first:
/// a timestamp is resolved, an error is handed on as it is.
pub open spec fn is_resolved_step(
    out: Result<ResolvedDateTime, ConvertError>,
    step: Result<i64, ConvertError>,
) -> bool {
    match step {
        Ok(timestamp) => is_resolution(out, timestamp),
        Err(error) => out == Err::<ResolvedDateTime, ConvertError>(error),
    }
}

/// Resolves `timestamp`, in seconds since the epoch, to a date-time of the
/// calendar. A timestamp that the calendar cannot express is a range
/// error.
pub fn get_datetime_from_timestamp(timestamp: i64) -> (r: Result<ResolvedDateTime, ConvertError>)
    ensures
        is_resolution(r, timestamp),
{
    match calendar_seconds(timestamp) {
        Some(seconds) => Ok(ResolvedDateTime { seconds, offset: LocalOffset::utc() }),
        None => Err(ConvertError::RangeError(timestamp)),
    }
}

/// Resolves each timestamp on its own and hands each error on.
pub fn convert_vector_timestamp_to_datetime(v: &[Result<i64, ConvertError>]) -> (r: Vec<
    Result<ResolvedDateTime, ConvertError>,
>)
    ensures
        r@.len() == v@.len(),
        forall|i: int| 0 <= i < v@.len() ==> is_resolved_step(#[trigger] r@[i], v@[i]),
{
    let mut r: Vec<Result<ResolvedDateTime, ConvertError>> = Vec::new();
    let mut i: usize = 0;
    while i < v.len()
        invariant
            i <= v@.len(),
            r@.len() == i,
            forall|j: int| 0 <= j < i ==> is_resolved_step(#[trigger] r@[j], v@[j]),
        decreases v@.len() - i,
    {
        let resolved = match v[i] {
            Ok(timestamp) => get_datetime_from_timestamp(timestamp),
            Err(error) => Err(error),
        };
        r.push(resolved);
        i = i + 1;
    }
    r
}

/// Two date-times of the same instant and the same local offset are the
/// same date-time.
pub proof fn lemma_same_datetime(a: ResolvedDateTime, b: ResolvedDateTime)
    requires
        a.epoch_seconds() == b.epoch_seconds(),
        a.local_offset() == b.local_offset(),
    ensures
        a == b,
{
}

} // verus!
