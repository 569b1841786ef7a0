//! Whether a room is free, decided from the events of its calendar.

use vstd::prelude::*;
use crate::text::texts;
use crate::calendar::{
    is_not_before, local_instant, not_before, to_local_instant, CalendarEvent, Date, EventTime,
    LocalDateTime, Window, ZoneForm, DAY_SECONDS,
};

verus! {

/// Whether the event `e` keeps its room busy for a window that starts at `at`
/// on the local clock that is `utc_offset` seconds ahead of UTC.
///
/// An event without a start or without an end keeps no room busy. An event
/// with a time of day at both ends does so if it starts or ends at `at` or
/// later and ends on the day of `at`, its times taken on the local clock: a
/// time in UTC is moved by the offset first, a time without a zone is local
/// already, and a time in a named zone is taken as it is written. An event
/// that starts with a date alone does so if that date is the day of `at`; one
/// that starts with a time of day and ends with a date alone does so if its
/// last date is the day of `at`.
pub open spec fn occupies(e: CalendarEvent, at: LocalDateTime, utc_offset: i32) -> bool {
    match (e.start, e.end) {
        (Some(EventTime::Date(day)), Some(_)) => day == at.date,
        (Some(EventTime::DateTime { .. }), Some(EventTime::Date(day))) => day == at.date,
        (
            Some(EventTime::DateTime { at: start, form: start_form }),
            Some(EventTime::DateTime { at: end, form: end_form }),
        ) => {
            let from = local_instant(start, start_form, utc_offset);
            let to = local_instant(end, end_form, utc_offset);
            let asked = local_instant(at, ZoneForm::Floating, utc_offset);
            (not_before(from, asked) || not_before(to, asked)) && to.day == asked.day
        },
        _ => false,
    }
}

/// Whether none of `events` keeps the room busy for a window that starts at
/// `at` on the local clock that is `utc_offset` seconds ahead of UTC.
pub open spec fn free_at(events: Seq<CalendarEvent>, at: LocalDateTime, utc_offset: i32) -> bool {
    forall|i: int| 0 <= i < events.len() ==> !occupies(#[trigger] events[i], at, utc_offset)
}

/// Whether none of `events` keeps the room busy for `window`.
pub open spec fn free_in(events: Seq<CalendarEvent>, window: Window) -> bool {
    free_at(events, window.start, window.utc_offset)
}

/// Whether the event `e` has a start that falls on `day`.
pub open spec fn starts_on(e: CalendarEvent, day: Date) -> bool {
    e.start matches Some(start) && start.day() == day
}

/// The summary of an event, empty where the calendar gives none.
pub open spec fn summary_text(e: CalendarEvent) -> Seq<char> {
    match e.summary {
        Some(text) => text@,
        None => Seq::empty(),
    }
}

/// The summaries of those of `events` that start on `day`, in their order.
pub open spec fn summaries_on(events: Seq<CalendarEvent>, day: Date) -> Seq<Seq<char>>
    decreases events.len(),
{
    if events.len() == 0 {
        Seq::empty()
    } else if starts_on(events.last(), day) {
        summaries_on(events.drop_last(), day).push(summary_text(events.last()))
    } else {
        summaries_on(events.drop_last(), day)
    }
}

/// Computes `occupies`.
pub fn event_occupies(e: &CalendarEvent, at: &LocalDateTime, utc_offset: i32) -> (res: bool)
    ensures
        res == occupies(*e, *at, utc_offset),
{
    match (&e.start, &e.end) {
        (Some(EventTime::Date(day)), Some(_)) => day.days == at.date.days,
        (Some(EventTime::DateTime { .. }), Some(EventTime::Date(day))) => day.days == at.date.days,
        (
            Some(EventTime::DateTime { at: start, form: start_form }),
            Some(EventTime::DateTime { at: end, form: end_form }),
        ) => {
            let from = to_local_instant(start, *start_form, utc_offset);
            let to = to_local_instant(end, *end_form, utc_offset);
            let asked = to_local_instant(at, ZoneForm::Floating, utc_offset);
            (is_not_before(&from, &asked) || is_not_before(&to, &asked)) && to.day == asked.day
        },
        _ => false,
    }
}

/// Whether the room with the calendar `events` is free for `window`: whether
/// no event keeps it busy at the start of the window, the times of the events
/// taken on the local clock of the window.
pub fn is_free(events: &Vec<CalendarEvent>, window: &Window) -> (free: bool)
    ensures
        free == free_in(events@, *window),
{
    let mut i: usize = 0;
    while i < events.len()
        invariant
            i <= events.len(),
            free_at(events@.take(i as int), window.start, window.utc_offset),
        decreases events.len() - i,
    {
        if event_occupies(&events[i], &window.start, window.utc_offset) {
            return false;
        }
        proof {
            let head = events@.take(i as int);
            let next = events@.take(i + 1);
            assert forall|j: int| 0 <= j < next.len() implies !occupies(
                #[trigger] next[j],
                window.start,
                window.utc_offset,
            ) by {
                if j < i {
                    assert(next[j] == head[j]);
                }
            }
        }
        i = i + 1;
    }
    assert(events@.take(events.len() as int) == events@);
    true
}

/// The summaries of the events that start on `today`, in the order of the
/// calendar; an event without a summary gives the empty string.
pub fn todays_events(events: &Vec<CalendarEvent>, today: Date) -> (res: Vec<String>)
    ensures
        texts(res@) == summaries_on(events@, today),
{
    let mut out: Vec<String> = Vec::new();
    let mut i: usize = 0;
    assert(events@.take(0) == Seq::<CalendarEvent>::empty());
    assert(texts(out@) == Seq::<Seq<char>>::empty());
    while i < events.len()
        invariant
            i <= events.len(),
            texts(out@) == summaries_on(events@.take(i as int), today),
        decreases events.len() - i,
    {
        let event = &events[i];
        let ghost before = out@;
        proof {
            let next = events@.take(i + 1);
            assert(next.drop_last() == events@.take(i as int));
            assert(next.last() == *event);
        }
        let on_day = match &event.start {
            Some(start) => start.date().days == today.days,
            None => false,
        };
        if on_day {
            let text = match &event.summary {
                Some(s) => s.clone(),
                None => String::new(),
            };
            out.push(text);
            assert(texts(out@) == texts(before).push(summary_text(*event)));
        }
        i = i + 1;
    }
    assert(events@.take(events.len() as int) == events@);
    out
}

/// A room without events is free.
pub proof fn lemma_free_without_events(window: Window)
    ensures
        free_in(Seq::empty(), window),
{
}

/// A room is free for two calendars taken together exactly if it is free for
/// each of them, so the order of the events does not matter.
pub proof fn lemma_free_of_both(a: Seq<CalendarEvent>, b: Seq<CalendarEvent>, window: Window)
    ensures
        free_in(a + b, window) == (free_in(a, window) && free_in(b, window)),
        free_in(a + b, window) == free_in(b + a, window),
{
    let at = window.start;
    let offset = window.utc_offset;
    let ab = a + b;
    let ba = b + a;
    if free_in(a, window) && free_in(b, window) {
        assert forall|i: int| 0 <= i < ab.len() implies !occupies(#[trigger] ab[i], at, offset) by {
            if i < a.len() {
                assert(ab[i] == a[i]);
            } else {
                assert(ab[i] == b[i - a.len()]);
            }
        }
        assert forall|i: int| 0 <= i < ba.len() implies !occupies(#[trigger] ba[i], at, offset) by {
            if i < b.len() {
                assert(ba[i] == b[i]);
            } else {
                assert(ba[i] == a[i - b.len()]);
            }
        }
    } else if !free_in(a, window) {
        let i = choose|i: int| 0 <= i < a.len() && occupies(#[trigger] a[i], at, offset);
        assert(ab[i] == a[i]);
        assert(ba[b.len() + i] == a[i]);
    } else {
        let i = choose|i: int| 0 <= i < b.len() && occupies(#[trigger] b[i], at, offset);
        assert(ab[a.len() + i] == b[i]);
        assert(ba[i] == b[i]);
    }
}

/// An event that starts with a date alone and has an end keeps the room busy
/// for every window that starts on that date, whatever the time of day and
/// whatever the local clock.
pub proof fn lemma_all_day_event_occupies(events: Seq<CalendarEvent>, i: int, window: Window)
    requires
        0 <= i < events.len(),
        events[i].start == Some(EventTime::Date(window.start.date)),
        events[i].end is Some,
    ensures
        !free_in(events, window),
{
    assert(occupies(events[i], window.start, window.utc_offset));
}

/// An event with a time of day at both ends leaves the room free exactly if,
/// on the local clock, it ends on another day than the window starts, or has
/// both started and ended before the window starts.
pub proof fn lemma_timed_event(
    start: LocalDateTime,
    start_form: ZoneForm,
    end: LocalDateTime,
    end_form: ZoneForm,
    summary: Option<String>,
    window: Window,
)
    ensures
        !occupies(
            CalendarEvent {
                start: Some(EventTime::DateTime { at: start, form: start_form }),
                end: Some(EventTime::DateTime { at: end, form: end_form }),
                summary,
            },
            window.start,
            window.utc_offset,
        ) <==> {
            let from = local_instant(start, start_form, window.utc_offset);
            let to = local_instant(end, end_form, window.utc_offset);
            let asked = local_instant(window.start, ZoneForm::Floating, window.utc_offset);
            to.day != asked.day || (!not_before(from, asked) && !not_before(to, asked))
        },
{
}

/// An event in UTC that ends on the day of the window, seen on the local
/// clock, after the window has started keeps the room busy, whatever its
/// times read in UTC.
pub proof fn lemma_utc_event_is_moved(
    start: LocalDateTime,
    end: LocalDateTime,
    summary: Option<String>,
    window: Window,
)
    requires
        0 <= end.seconds + window.utc_offset < DAY_SECONDS,
        end.date == window.start.date,
        end.seconds + window.utc_offset > window.start.seconds,
    ensures
        occupies(
            CalendarEvent {
                start: Some(EventTime::DateTime { at: start, form: ZoneForm::Utc }),
                end: Some(EventTime::DateTime { at: end, form: ZoneForm::Utc }),
                summary,
            },
            window.start,
            window.utc_offset,
        ),
{
}

} // verus!
