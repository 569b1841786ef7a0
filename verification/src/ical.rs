//! Reading iCalendar documents into plain calendar events.

use vstd::prelude::*;
use chrono::{Datelike, NaiveDate, NaiveDateTime, Timelike};
use icalendar::{Calendar, CalendarDateTime, Component, DatePerhapsTime};
use crate::calendar::{CalendarEvent, Date, EventTime, LocalDateTime, ZoneForm};

verus! {

/// A parsed iCalendar document of the `icalendar` crate.
#[verifier::external_type_specification]
#[verifier::external_body]
pub struct ExCalendar(icalendar::Calendar);

/// One component of a parsed calendar of the `icalendar` crate. It stands in
/// no signature here, but a `Calendar` dereferences to a slice of these, and
/// Verus takes `Calendar` only where the target of that is declared too.
#[verifier::external_type_specification]
#[verifier::external_body]
pub struct ExCalendarComponent(icalendar::CalendarComponent);

/// The start or end of a component as the `icalendar` crate reads it.
#[verifier::external_type_specification]
#[verifier::external_body]
pub struct ExDatePerhapsTime(icalendar::DatePerhapsTime);

/// A date and time without a time zone of the `chrono` crate.
#[verifier::external_type_specification]
#[verifier::external_body]
pub struct ExNaiveDateTime(chrono::NaiveDateTime);

/// A date of the `chrono` crate.
#[verifier::external_type_specification]
#[verifier::external_body]
pub struct ExNaiveDate(chrono::NaiveDate);

/// What a parsed calendar holds, component by component and in the order of
/// the document: the event, or `None` for a component that is no event.
pub uninterp spec fn components(calendar: Calendar) -> Seq<Option<CalendarEvent>>;

/// What the iCalendar document `text` holds, read as `components` reads a
/// parsed calendar; `None` where the parser reports an error. The parser
/// reports none for a text in which it finds no component: such a text holds
/// nothing.
pub uninterp spec fn document_components(text: Seq<char>) -> Option<Seq<Option<CalendarEvent>>>;

/// A start or end taken apart by its form, the time still as `chrono` has it.
pub enum ParsedTime {
    Utc(NaiveDateTime),
    Floating(NaiveDateTime),
    Zoned(NaiveDateTime),
    Date(NaiveDate),
}

/// The calendar that `icalendar` parses from `text`, or `None` where its
/// parser reports an error: `parser::unfold`, then
/// `parser::read_calendar_simple`, then `Calendar::from` on the components.
/// `Calendar::from_str` takes the same steps with `parser::read_calendar` in
/// the middle, which on an error also writes the error out as text. That
/// text is not wanted here, and writing it can fail on a very long line.
/// What the calendar holds depends on the text alone.
#[verifier::external_body]
fn parse_calendar(text: &str) -> (res: Option<Calendar>)
    ensures
        match res {
            Some(calendar) => document_components(text@) == Some(components(calendar)),
            None => document_components(text@) is None,
        },
{
    icalendar::parser::read_calendar_simple(&icalendar::parser::unfold(text))
        .ok()
        .map(|roots| Calendar::from(roots))
}

/// The length of the public field `components` of a `Calendar`.
#[verifier::external_body]
fn component_count(calendar: &Calendar) -> (n: usize)
    ensures
        n == components(*calendar).len(),
{
    calendar.components.len()
}

/// Whether the component at `index` is an event, as
/// `CalendarComponent::as_event` of `icalendar` tells.
#[verifier::external_body]
fn is_event(calendar: &Calendar, index: usize) -> (res: bool)
    requires
        index < components(*calendar).len(),
    ensures
        res == components(*calendar)[index as int] is Some,
{
    calendar.components[index].as_event().is_some()
}

/// Hands out the start of the event at `index`: what `Component::get_start`
/// of `icalendar` returns for it, converted by `event_time_of`.
#[verifier::external_body]
fn event_start(calendar: &Calendar, index: usize) -> (res: Option<EventTime>)
    requires
        index < components(*calendar).len(),
        components(*calendar)[index as int] is Some,
    ensures
        res == components(*calendar)[index as int].unwrap().start,
{
    calendar.components[index].as_event()?.get_start().map(|time| event_time_of(time))
}

/// Hands out the end of the event at `index`: what `Component::get_end` of
/// `icalendar` returns for it, converted by `event_time_of`.
#[verifier::external_body]
fn event_end(calendar: &Calendar, index: usize) -> (res: Option<EventTime>)
    requires
        index < components(*calendar).len(),
        components(*calendar)[index as int] is Some,
    ensures
        res == components(*calendar)[index as int].unwrap().end,
{
    calendar.components[index].as_event()?.get_end().map(|time| event_time_of(time))
}

/// Hands out the summary of the event at `index`: a copy of what
/// `Component::get_summary` of `icalendar` returns for it.
#[verifier::external_body]
fn event_summary(calendar: &Calendar, index: usize) -> (res: Option<String>)
    requires
        index < components(*calendar).len(),
        components(*calendar)[index as int] is Some,
    ensures
        res == components(*calendar)[index as int].unwrap().summary,
{
    calendar.components[index].as_event()?.get_summary().map(|text| text.to_owned())
}

/// Tells the variants of `DatePerhapsTime` and of `CalendarDateTime` apart
/// and hands on what each holds; the name of a time zone is dropped. A time
/// in UTC is handed on as `DateTime::naive_local` of `chrono` gives it: the
/// date and time without the zone. That call fails only where the offset of
/// the zone takes the time out of the range of `NaiveDateTime`, and the
/// offset of UTC is zero.
#[verifier::external_body]
fn split_time(time: DatePerhapsTime) -> ParsedTime {
    match time {
        DatePerhapsTime::Date(date) => ParsedTime::Date(date),
        DatePerhapsTime::DateTime(CalendarDateTime::Utc(utc)) => ParsedTime::Utc(utc.naive_local()),
        DatePerhapsTime::DateTime(CalendarDateTime::Floating(naive)) => ParsedTime::Floating(naive),
        DatePerhapsTime::DateTime(CalendarDateTime::WithTimezone { date_time, .. }) => {
            ParsedTime::Zoned(date_time)
        },
    }
}

/// `NaiveDateTime::date` of `chrono`: the date part.
#[verifier::external_body]
fn naive_date(naive: &NaiveDateTime) -> NaiveDate {
    naive.date()
}

/// `Datelike::num_days_from_ce` of `chrono` on a date: the days counted from
/// the first of January of the year 1 as day 1.
#[verifier::external_body]
fn days_from_ce(date: &NaiveDate) -> i32 {
    date.num_days_from_ce()
}

/// `Timelike::num_seconds_from_midnight` of `chrono`: the whole seconds since
/// midnight, at most 86399.
#[verifier::external_body]
fn seconds_from_midnight(naive: &NaiveDateTime) -> (seconds: u32)
    ensures
        seconds < 86_400,
{
    naive.num_seconds_from_midnight()
}

/// `Timelike::nanosecond` of `chrono`: the nanoseconds since the whole second,
/// below two billion; a billion or more within a leap second.
#[verifier::external_body]
fn nanosecond(naive: &NaiveDateTime) -> (nanos: u32)
    ensures
        nanos < 2_000_000_000,
{
    naive.nanosecond()
}

/// The day that `date` stands for.
pub fn day_of(date: &NaiveDate) -> Date {
    Date { days: days_from_ce(date) }
}

/// The moment that `naive` stands for.
pub fn moment_of(naive: &NaiveDateTime) -> (res: LocalDateTime)
    ensures
        res.wf(),
{
    let date = naive_date(naive);
    LocalDateTime {
        date: day_of(&date),
        seconds: seconds_from_midnight(naive),
        nanos: nanosecond(naive),
    }
}

/// The start or end `time` of a component as a plain value. A time of day
/// keeps the form of its time zone and is taken as the calendar writes it.
fn event_time_of(time: DatePerhapsTime) -> (res: EventTime)
    ensures
        res matches EventTime::DateTime { at, .. } ==> at.wf(),
{
    match split_time(time) {
        ParsedTime::Utc(naive) => EventTime::DateTime { at: moment_of(&naive), form: ZoneForm::Utc },
        ParsedTime::Floating(naive) => EventTime::DateTime {
            at: moment_of(&naive),
            form: ZoneForm::Floating,
        },
        ParsedTime::Zoned(naive) => EventTime::DateTime {
            at: moment_of(&naive),
            form: ZoneForm::Zoned,
        },
        ParsedTime::Date(date) => EventTime::Date(day_of(&date)),
    }
}

/// The events among the components of a calendar, in their order.
pub open spec fn events_among(components: Seq<Option<CalendarEvent>>) -> Seq<CalendarEvent>
    decreases components.len(),
{
    if components.len() == 0 {
        Seq::empty()
    } else {
        match components.last() {
            Some(event) => events_among(components.drop_last()).push(event),
            None => events_among(components.drop_last()),
        }
    }
}

/// The events of the iCalendar document `text`; `None` where the parser
/// reports an error.
pub open spec fn document_events(text: Seq<char>) -> Option<Seq<CalendarEvent>> {
    match document_components(text) {
        Some(components) => Some(events_among(components)),
        None => None,
    }
}

/// Reads the events of the iCalendar document `text`, in the order of the
/// document. Components that are no events are left out. The result is
/// `None` where the parser reports an error.
pub fn load_events(text: &str) -> (res: Option<Vec<CalendarEvent>>)
    ensures
        match res {
            Some(events) => document_events(text@) == Some(events@),
            None => document_events(text@) is None,
        },
{
    let calendar = match parse_calendar(text) {
        Some(calendar) => calendar,
        None => {
            return None;
        },
    };
    let count = component_count(&calendar);
    let ghost all = components(calendar);
    let mut events: Vec<CalendarEvent> = Vec::new();
    let mut i: usize = 0;
    assert(all.take(0) == Seq::<Option<CalendarEvent>>::empty());
    while i < count
        invariant
            i <= count,
            count == all.len(),
            all == components(calendar),
            events@ == events_among(all.take(i as int)),
        decreases count - i,
    {
        proof {
            let next = all.take(i + 1);
            assert(next.drop_last() == all.take(i as int));
            assert(next.last() == all[i as int]);
        }
        if is_event(&calendar, i) {
            let event = CalendarEvent {
                start: event_start(&calendar, i),
                end: event_end(&calendar, i),
                summary: event_summary(&calendar, i),
            };
            assert(event == all[i as int].unwrap());
            events.push(event);
        }
        i = i + 1;
    }
    assert(all.take(count as int) == all);
    Some(events)
}

} // verus!
