//! Dates, local times and calendar events as plain values.

use vstd::prelude::*;

verus! {

/// A calendar day, counted in the proleptic Gregorian calendar with the first
/// of January of the year 1 as day 1.
#[derive(Clone, Copy, Debug, PartialEq, Eq, Structural)]
pub struct Date {
    pub days: i32,
}

/// A date and a time of day without a time zone. `seconds` counts the whole
/// seconds since midnight; `nanos` counts the nanoseconds since that second
/// and passes a billion only within a leap second.
#[derive(Clone, Copy, Debug, PartialEq, Eq, Structural)]
pub struct LocalDateTime {
    pub date: Date,
    pub seconds: u32,
    pub nanos: u32,
}

/// How a calendar states the time zone of a date and time.
#[derive(Clone, Copy, Debug, PartialEq, Eq, Structural)]
pub enum ZoneForm {
    /// In UTC.
    Utc,
    /// Without a zone: the local time of whoever reads it.
    Floating,
    /// With a reference to a named time zone.
    Zoned,
}

/// The start or the end of an event: a date with a time, or a date alone.
#[derive(Clone, Copy, Debug, PartialEq, Eq, Structural)]
pub enum EventTime {
    DateTime { at: LocalDateTime, form: ZoneForm },
    Date(Date),
}

/// What a calendar says of one event.
#[derive(Clone, Debug)]
pub struct CalendarEvent {
    pub start: Option<EventTime>,
    pub end: Option<EventTime>,
    pub summary: Option<String>,
}

/// The time span `[start, end)` that a search asks about, on the local clock
/// of whoever asks. `utc_offset` tells that clock: the seconds that it is
/// ahead of UTC, negative where it is behind.
#[derive(Clone, Copy, Debug, PartialEq, Eq, Structural)]
pub struct Window {
    pub start: LocalDateTime,
    pub end: LocalDateTime,
    pub utc_offset: i32,
}

/// A moment on one clock: the day, the second of that day and the
/// nanoseconds since that second, in numbers wide enough for a moment that
/// has been moved from one clock to another.
#[derive(Clone, Copy, Debug, PartialEq, Eq, Structural)]
pub struct LocalInstant {
    pub day: i64,
    pub second: i64,
    pub nanos: u32,
}

/// The seconds of a day.
pub const DAY_SECONDS: i64 = 86_400;

/// Whether `a` is the same moment as `b` or a later one.
pub open spec fn at_or_after(a: LocalDateTime, b: LocalDateTime) -> bool {
    a.date.days > b.date.days || (a.date.days == b.date.days && (a.seconds > b.seconds || (
    a.seconds == b.seconds && a.nanos >= b.nanos)))
}

/// Whether the instant `a` is the same as `b` or a later one.
pub open spec fn not_before(a: LocalInstant, b: LocalInstant) -> bool {
    a.day > b.day || (a.day == b.day && (a.second > b.second || (a.second == b.second && a.nanos
        >= b.nanos)))
}

/// The moment `at`, written in the form `form`, on the local clock that is
/// `utc_offset` seconds ahead of UTC.
///
/// A time in UTC is moved by the offset, into the day before or after where
/// it passes midnight. A time without a zone is local as it stands. A time
/// with a reference to a named zone is taken as it is written: what that
/// zone's offset is, nothing here can tell.
pub open spec fn local_instant(at: LocalDateTime, form: ZoneForm, utc_offset: i32) -> LocalInstant {
    match form {
        ZoneForm::Utc => {
            let total = at.seconds + utc_offset;
            LocalInstant {
                day: (at.date.days + total / (DAY_SECONDS as int)) as i64,
                second: (total % (DAY_SECONDS as int)) as i64,
                nanos: at.nanos,
            }
        },
        _ => LocalInstant { day: at.date.days as i64, second: at.seconds as i64, nanos: at.nanos },
    }
}

/// Computes `not_before`.
pub fn is_not_before(a: &LocalInstant, b: &LocalInstant) -> (res: bool)
    ensures
        res == not_before(*a, *b),
{
    if a.day != b.day {
        a.day > b.day
    } else if a.second != b.second {
        a.second > b.second
    } else {
        a.nanos >= b.nanos
    }
}

/// Computes `local_instant`.
pub fn to_local_instant(at: &LocalDateTime, form: ZoneForm, utc_offset: i32) -> (res: LocalInstant)
    ensures
        res == local_instant(*at, form, utc_offset),
{
    match form {
        ZoneForm::Utc => {
            let total: i64 = at.seconds as i64 + utc_offset as i64;
            // 24856 days are more seconds than any offset, so the sum below is not negative
            let lifted: u64 = (total + 24_856 * 86_400) as u64;
            let days: u64 = lifted / 86_400;
            let second: u64 = lifted % 86_400;
            assert((total + 24_856 * 86_400) / 86_400 == total / 86_400 + 24_856);
            assert((total + 24_856 * 86_400) % 86_400 == total % 86_400);
            LocalInstant {
                day: at.date.days as i64 + days as i64 - 24_856,
                second: second as i64,
                nanos: at.nanos,
            }
        },
        ZoneForm::Floating => LocalInstant {
            day: at.date.days as i64,
            second: at.seconds as i64,
            nanos: at.nanos,
        },
        ZoneForm::Zoned => LocalInstant {
            day: at.date.days as i64,
            second: at.seconds as i64,
            nanos: at.nanos,
        },
    }
}

impl LocalDateTime {
    /// Whether the time of day is one that a clock shows.
    pub open spec fn wf(self) -> bool {
        self.seconds < 86_400 && self.nanos < 2_000_000_000
    }

    /// Whether this moment is `other` or a later one.
    pub fn is_at_or_after(&self, other: &LocalDateTime) -> (res: bool)
        ensures
            res == at_or_after(*self, *other),
    {
        if self.date.days != other.date.days {
            self.date.days > other.date.days
        } else if self.seconds != other.seconds {
            self.seconds > other.seconds
        } else {
            self.nanos >= other.nanos
        }
    }
}

impl EventTime {
    /// The day on which this time falls, whatever its time zone form.
    pub open spec fn day(self) -> Date {
        match self {
            EventTime::DateTime { at, .. } => at.date,
            EventTime::Date(date) => date,
        }
    }

    /// Computes `day`.
    pub fn date(&self) -> (res: Date)
        ensures
            res == self.day(),
    {
        match self {
            EventTime::DateTime { at, .. } => at.date,
            EventTime::Date(date) => *date,
        }
    }
}

impl Window {
    /// Whether the window starts no later than it ends.
    pub open spec fn wf(self) -> bool {
        at_or_after(self.end, self.start)
    }

    /// The window from `start` to `end` on the local clock that is
    /// `utc_offset` seconds ahead of UTC. Where `start` lies after `end`, the
    /// window is the empty one at `end`.
    pub fn new(start: LocalDateTime, end: LocalDateTime, utc_offset: i32) -> (res: Window)
        ensures
            res.wf(),
            res.end == end,
            res.utc_offset == utc_offset,
            res.start == (if at_or_after(end, start) {
                start
            } else {
                end
            }),
    {
        if end.is_at_or_after(&start) {
            Window { start, end, utc_offset }
        } else {
            Window { start: end, end, utc_offset }
        }
    }
}

/// The order of moments is total, and two moments that are each at or after
/// the other are the same moment.
pub proof fn lemma_order_of_moments(a: LocalDateTime, b: LocalDateTime, c: LocalDateTime)
    ensures
        at_or_after(a, b) || at_or_after(b, a),
        at_or_after(a, b) && at_or_after(b, a) ==> a == b,
        at_or_after(a, b) && at_or_after(b, c) ==> at_or_after(a, c),
{
}

/// Moving a time in UTC to the local clock moves it by the offset exactly,
/// and the second of the day that results is one that a day has. A time in
/// another form stays as it is written.
pub proof fn lemma_local_instant(at: LocalDateTime, form: ZoneForm, utc_offset: i32)
    ensures
        form == ZoneForm::Utc ==> {
            let local = local_instant(at, form, utc_offset);
            &&& 0 <= local.second < DAY_SECONDS
            &&& local.day * DAY_SECONDS + local.second == at.date.days * DAY_SECONDS + at.seconds
                + utc_offset
            &&& local.nanos == at.nanos
        },
        form != ZoneForm::Utc ==> local_instant(at, form, utc_offset) == (LocalInstant {
            day: at.date.days as i64,
            second: at.seconds as i64,
            nanos: at.nanos,
        }),
{
}

/// A time in UTC that the offset leaves within its day keeps its date; where
/// the clocks agree, a well-formed time in UTC stays as it is written.
pub proof fn lemma_local_instant_same_day(at: LocalDateTime, utc_offset: i32)
    requires
        0 <= at.seconds + utc_offset < DAY_SECONDS,
    ensures
        local_instant(at, ZoneForm::Utc, utc_offset) == (LocalInstant {
            day: at.date.days as i64,
            second: (at.seconds + utc_offset) as i64,
            nanos: at.nanos,
        }),
{
}

/// The order of instants on one clock is total, and two instants that are
/// each no earlier than the other are the same.
pub proof fn lemma_order_of_instants(a: LocalInstant, b: LocalInstant, c: LocalInstant)
    ensures
        not_before(a, b) || not_before(b, a),
        not_before(a, b) && not_before(b, a) ==> a == b,
        not_before(a, b) && not_before(b, c) ==> not_before(a, c),
{
}

} // verus!
