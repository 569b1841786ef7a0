use chrono::{Duration, NaiveDate, NaiveDateTime, NaiveTime};
use dhbw_roomfinder::calendar::{
    is_not_before, to_local_instant, CalendarEvent, Date, EventTime, LocalDateTime, LocalInstant, Window,
    ZoneForm,
};
use dhbw_roomfinder::free::{event_occupies, is_free, todays_events};
use dhbw_roomfinder::ical::{day_of, load_events, moment_of};

fn naive(year: i32, month: u32, day: u32, hour: u32, minute: u32) -> NaiveDateTime {
    NaiveDate::from_ymd_opt(year, month, day).unwrap().and_hms_opt(hour, minute, 0).unwrap()
}

fn moment(year: i32, month: u32, day: u32, hour: u32, minute: u32) -> LocalDateTime {
    moment_of(&naive(year, month, day, hour, minute))
}

fn day(year: i32, month: u32, day: u32) -> Date {
    day_of(&NaiveDate::from_ymd_opt(year, month, day).unwrap())
}

fn timed(start: LocalDateTime, end: LocalDateTime) -> CalendarEvent {
    CalendarEvent {
        start: Some(EventTime::DateTime { at: start, form: ZoneForm::Floating }),
        end: Some(EventTime::DateTime { at: end, form: ZoneForm::Floating }),
        summary: None,
    }
}

fn all_day(start: Date, end: Date) -> CalendarEvent {
    CalendarEvent { start: Some(EventTime::Date(start)), end: Some(EventTime::Date(end)), summary: None }
}

fn in_utc(start: LocalDateTime, end: LocalDateTime) -> CalendarEvent {
    CalendarEvent {
        start: Some(EventTime::DateTime { at: start, form: ZoneForm::Utc }),
        end: Some(EventTime::DateTime { at: end, form: ZoneForm::Utc }),
        summary: None,
    }
}

fn morning_window() -> Window {
    Window::new(moment(2024, 5, 1, 10, 0), moment(2024, 5, 1, 12, 0), 0)
}

fn window_from(start: LocalDateTime, utc_offset: i32) -> Window {
    Window::new(start, start, utc_offset)
}

#[test]
fn converts_chrono_values() {
    assert_eq!(day(1, 1, 1), Date { days: 1 });
    assert_eq!(day(1970, 1, 1), Date { days: 719_163 });
    assert_eq!(day(2024, 5, 1), Date { days: 739_007 });
    assert_eq!(
        moment(2024, 5, 1, 10, 30),
        LocalDateTime { date: Date { days: 739_007 }, seconds: 37_800, nanos: 0 }
    );
    let late = NaiveDate::from_ymd_opt(2024, 5, 1).unwrap().and_hms_nano_opt(23, 59, 59, 123_456_789).unwrap();
    assert_eq!(
        moment_of(&late),
        LocalDateTime { date: Date { days: 739_007 }, seconds: 86_399, nanos: 123_456_789 }
    );
    let leap = NaiveDate::from_ymd_opt(2016, 12, 31)
        .unwrap()
        .and_time(NaiveTime::from_hms_milli_opt(23, 59, 59, 1_500).unwrap());
    assert_eq!(moment_of(&leap).seconds, 86_399);
    assert_eq!(moment_of(&leap).nanos, 1_500_000_000);
}

#[test]
fn orders_moments_as_chrono_does() {
    let samples = [
        naive(2024, 5, 1, 10, 0),
        naive(2024, 5, 1, 9, 59),
        naive(2024, 4, 30, 23, 59),
        naive(2024, 5, 2, 0, 0),
        NaiveDate::from_ymd_opt(2024, 5, 1).unwrap().and_hms_nano_opt(10, 0, 0, 1).unwrap(),
        naive(-44, 3, 15, 12, 0),
    ];
    for a in samples {
        for b in samples {
            assert_eq!(moment_of(&a).is_at_or_after(&moment_of(&b)), a >= b);
            assert_eq!(moment_of(&a).date == moment_of(&b).date, a.date() == b.date());
            assert_eq!(moment_of(&a) == moment_of(&b), a == b);
        }
    }
}

#[test]
fn a_window_never_ends_before_it_starts() {
    let ten = moment(2024, 5, 1, 10, 0);
    let twelve = moment(2024, 5, 1, 12, 0);
    assert_eq!(Window::new(ten, twelve, 0), Window { start: ten, end: twelve, utc_offset: 0 });
    assert_eq!(Window::new(twelve, ten, 3600), Window { start: ten, end: ten, utc_offset: 3600 });
    assert_eq!(Window::new(ten, ten, -60), Window { start: ten, end: ten, utc_offset: -60 });
}

#[test]
fn an_overlapping_event_makes_the_room_busy() {
    let events = vec![timed(moment(2024, 5, 1, 9, 0), moment(2024, 5, 1, 11, 0))];
    assert!(!is_free(&events, &morning_window()));
}

#[test]
fn an_event_that_has_ended_leaves_the_room_free() {
    let events = vec![timed(moment(2024, 5, 1, 7, 0), moment(2024, 5, 1, 8, 0))];
    assert!(is_free(&events, &morning_window()));
}

#[test]
fn a_later_event_on_the_same_day_makes_the_room_busy() {
    let events = vec![timed(moment(2024, 5, 1, 13, 0), moment(2024, 5, 1, 14, 0))];
    assert!(!is_free(&events, &morning_window()));
}

#[test]
fn an_event_that_ends_at_the_start_of_the_window_makes_the_room_busy() {
    let events = vec![timed(moment(2024, 5, 1, 8, 0), moment(2024, 5, 1, 10, 0))];
    assert!(!is_free(&events, &morning_window()));
}

#[test]
fn events_on_other_days_leave_the_room_free() {
    let events = vec![
        timed(moment(2024, 5, 2, 9, 0), moment(2024, 5, 2, 11, 0)),
        timed(moment(2024, 4, 30, 9, 0), moment(2024, 4, 30, 11, 0)),
        timed(moment(2024, 5, 1, 11, 0), moment(2024, 5, 2, 11, 0)),
        all_day(day(2024, 5, 2), day(2024, 5, 3)),
        all_day(day(2024, 4, 30), day(2024, 5, 1)),
    ];
    assert!(is_free(&events, &morning_window()));
}

#[test]
fn an_event_that_ends_today_but_began_yesterday_counts_only_while_it_lasts() {
    let window = morning_window();
    let lasting = vec![timed(moment(2024, 4, 30, 22, 0), moment(2024, 5, 1, 10, 30))];
    assert!(!is_free(&lasting, &window));
    let over = vec![timed(moment(2024, 4, 30, 22, 0), moment(2024, 5, 1, 9, 0))];
    assert!(is_free(&over, &window));
}

#[test]
fn an_all_day_event_makes_the_room_busy_at_any_time_of_day() {
    let events = vec![all_day(day(2024, 5, 1), day(2024, 5, 2))];
    for (hour, minute) in [(0, 0), (10, 0), (12, 30), (23, 59)] {
        let start = moment(2024, 5, 1, hour, minute);
        for utc_offset in [0, 7_200, -36_000] {
            let window = Window::new(start, moment(2024, 5, 2, 0, 0), utc_offset);
            assert!(!is_free(&events, &window));
        }
    }
    let next_day = Window::new(moment(2024, 5, 2, 0, 0), moment(2024, 5, 2, 1, 0), 0);
    assert!(is_free(&events, &next_day));
}

#[test]
fn an_event_of_mixed_form_goes_by_its_dates() {
    let at = moment(2024, 5, 1, 10, 0);
    let timed_start = Some(EventTime::DateTime { at: moment(2024, 4, 1, 9, 0), form: ZoneForm::Utc });
    let ends_today = CalendarEvent { start: timed_start, end: Some(EventTime::Date(day(2024, 5, 1))), summary: None };
    assert!(event_occupies(&ends_today, &at, 0));
    let ends_later = CalendarEvent { start: timed_start, end: Some(EventTime::Date(day(2024, 5, 2))), summary: None };
    assert!(!event_occupies(&ends_later, &at, 0));
    let starts_today = CalendarEvent {
        start: Some(EventTime::Date(day(2024, 5, 1))),
        end: Some(EventTime::DateTime { at: moment(2024, 5, 1, 8, 0), form: ZoneForm::Zoned }),
        summary: None,
    };
    assert!(event_occupies(&starts_today, &at, 7_200));
}

#[test]
fn an_event_without_start_or_end_keeps_no_room_busy() {
    let at = moment(2024, 5, 1, 10, 0);
    let start = Some(EventTime::DateTime { at, form: ZoneForm::Floating });
    let today = Some(EventTime::Date(day(2024, 5, 1)));
    let events = vec![
        CalendarEvent { start, end: None, summary: None },
        CalendarEvent { start: None, end: start, summary: None },
        CalendarEvent { start: today, end: None, summary: None },
        CalendarEvent { start: None, end: today, summary: None },
        CalendarEvent { start: None, end: None, summary: Some(String::from("nothing")) },
    ];
    for event in &events {
        assert!(!event_occupies(event, &at, 0));
    }
    assert!(is_free(&events, &Window::new(at, at, 0)));
}

#[test]
fn a_room_without_events_is_free() {
    assert!(is_free(&Vec::new(), &morning_window()));
}

#[test]
fn one_busy_event_among_many_is_enough_wherever_it_stands() {
    let busy = timed(moment(2024, 5, 1, 9, 0), moment(2024, 5, 1, 11, 0));
    let idle = timed(moment(2024, 5, 1, 7, 0), moment(2024, 5, 1, 8, 0));
    let window = morning_window();
    assert!(!is_free(&vec![busy.clone(), idle.clone(), idle.clone()], &window));
    assert!(!is_free(&vec![idle.clone(), busy.clone(), idle.clone()], &window));
    assert!(!is_free(&vec![idle.clone(), idle.clone(), busy.clone()], &window));
    assert!(is_free(&vec![idle.clone(), idle.clone(), idle.clone()], &window));
}

#[test]
fn lists_the_summaries_of_todays_events() {
    let today = day(2024, 5, 1);
    let named = |start: Option<EventTime>, summary: Option<&str>| CalendarEvent {
        start,
        end: None,
        summary: summary.map(String::from),
    };
    let events = vec![
        named(Some(EventTime::DateTime { at: moment(2024, 5, 1, 9, 0), form: ZoneForm::Utc }), Some("Analysis")),
        named(Some(EventTime::DateTime { at: moment(2024, 5, 2, 9, 0), form: ZoneForm::Utc }), Some("Tomorrow")),
        named(Some(EventTime::Date(today)), None),
        named(None, Some("Never")),
        named(Some(EventTime::Date(today)), Some("Open day")),
        named(Some(EventTime::DateTime { at: moment(2024, 5, 1, 23, 59), form: ZoneForm::Zoned }), Some("Late")),
    ];
    assert_eq!(todays_events(&events, today), vec!["Analysis", "", "Open day", "Late"]);
    assert_eq!(todays_events(&events, day(2024, 5, 3)), Vec::<String>::new());
    assert_eq!(todays_events(&Vec::new(), today), Vec::<String>::new());
}

#[test]
fn loads_the_events_of_a_document() {
    let text = "BEGIN:VCALENDAR\r\nVERSION:2.0\r\nBEGIN:VEVENT\r\nSUMMARY:Analysis\r\nDTSTART:20240501T090000\r\nDTEND:20240501T110000Z\r\nEND:VEVENT\r\nBEGIN:VTODO\r\nSUMMARY:Homework\r\nEND:VTODO\r\nBEGIN:VEVENT\r\nDTSTART;VALUE=DATE:20240502\r\nDTEND;TZID=Europe/Berlin:20240502T120000\r\nEND:VEVENT\r\nBEGIN:VEVENT\r\nSUMMARY:Open end\r\nDTSTART:20240503T080000Z\r\nEND:VEVENT\r\nEND:VCALENDAR\r\n";
    let events = load_events(text).unwrap();
    assert_eq!(events.len(), 3);
    assert_eq!(events[0].summary.as_deref(), Some("Analysis"));
    assert_eq!(
        events[0].start,
        Some(EventTime::DateTime { at: moment(2024, 5, 1, 9, 0), form: ZoneForm::Floating })
    );
    assert_eq!(
        events[0].end,
        Some(EventTime::DateTime { at: moment(2024, 5, 1, 11, 0), form: ZoneForm::Utc })
    );
    assert_eq!(events[1].summary, None);
    assert_eq!(events[1].start, Some(EventTime::Date(day(2024, 5, 2))));
    assert_eq!(
        events[1].end,
        Some(EventTime::DateTime { at: moment(2024, 5, 2, 12, 0), form: ZoneForm::Zoned })
    );
    assert_eq!(events[2].summary.as_deref(), Some("Open end"));
    assert_eq!(
        events[2].start,
        Some(EventTime::DateTime { at: moment(2024, 5, 3, 8, 0), form: ZoneForm::Utc })
    );
    assert_eq!(events[2].end, None);
}

#[test]
fn loads_a_calendar_without_events() {
    let text = "BEGIN:VCALENDAR\r\nVERSION:2.0\r\nEND:VCALENDAR\r\n";
    assert_eq!(load_events(text).map(|events| events.len()), Some(0));
}

#[test]
fn loads_nothing_from_a_text_that_is_no_calendar() {
    assert!(load_events("BEGIN:VCALENDAR\r\nBEGIN:VEVENT\r\nEND:VCALENDAR\r\n").is_none());
}

#[test]
fn a_loaded_calendar_decides_whether_the_room_is_free() {
    let text = "BEGIN:VCALENDAR\r\nBEGIN:VEVENT\r\nDTSTART:20240501T090000\r\nDTEND:20240501T110000\r\nEND:VEVENT\r\nEND:VCALENDAR\r\n";
    let events = load_events(text).unwrap();
    assert!(!is_free(&events, &morning_window()));
    let afternoon = Window::new(moment(2024, 5, 1, 11, 0), moment(2024, 5, 1, 12, 0), 0);
    assert!(!is_free(&events, &afternoon));
    let later = Window::new(moment(2024, 5, 1, 11, 1), moment(2024, 5, 1, 12, 0), 0);
    assert!(is_free(&events, &later));
}

#[test]
fn an_event_in_utc_is_seen_on_the_local_clock() {
    let events = vec![in_utc(moment(2024, 5, 1, 6, 0), moment(2024, 5, 1, 7, 30))];
    let nine = moment(2024, 5, 1, 9, 0);
    assert!(!is_free(&events, &window_from(nine, 7_200)));
    assert!(is_free(&events, &window_from(nine, 0)));
    assert!(is_free(&events, &window_from(nine, 3_600)));
    assert!(!is_free(&events, &window_from(nine, 5_400)));
    assert!(is_free(&events, &window_from(nine, 5_399)));
    assert!(is_free(&events, &window_from(nine, -7_200)));
}

#[test]
fn an_event_in_utc_may_fall_on_another_local_day() {
    let late = vec![in_utc(moment(2024, 4, 30, 23, 0), moment(2024, 4, 30, 23, 30))];
    let after_midnight = moment(2024, 5, 1, 0, 30);
    assert!(!is_free(&late, &window_from(after_midnight, 7_200)));
    assert!(is_free(&late, &window_from(after_midnight, 0)));
    let early = vec![in_utc(moment(2024, 5, 2, 0, 15), moment(2024, 5, 2, 1, 0))];
    let evening = moment(2024, 5, 1, 18, 0);
    assert!(!is_free(&early, &window_from(evening, -18_000)));
    assert!(is_free(&early, &window_from(evening, 0)));
    assert!(is_free(&early, &window_from(moment(2024, 5, 2, 18, 0), -18_000)));
}

#[test]
fn an_event_with_a_local_or_a_named_time_is_taken_as_written() {
    let nine = moment(2024, 5, 1, 9, 0);
    for form in [ZoneForm::Floating, ZoneForm::Zoned] {
        let event = CalendarEvent {
            start: Some(EventTime::DateTime { at: moment(2024, 5, 1, 6, 0), form }),
            end: Some(EventTime::DateTime { at: moment(2024, 5, 1, 7, 30), form }),
            summary: None,
        };
        for utc_offset in [0, 7_200, -7_200, 86_399, -86_399] {
            assert!(!event_occupies(&event, &nine, utc_offset));
            assert!(event_occupies(&event, &moment(2024, 5, 1, 7, 30), utc_offset));
        }
    }
}

#[test]
fn moves_a_time_in_utc_as_chrono_does() {
    let samples = [
        naive(2024, 5, 1, 0, 0),
        naive(2024, 5, 1, 9, 0),
        naive(2024, 12, 31, 23, 59),
        naive(2024, 2, 29, 12, 0),
        naive(1, 1, 1, 0, 0),
        NaiveDate::from_ymd_opt(2024, 5, 1).unwrap().and_hms_nano_opt(23, 59, 59, 999_999_999).unwrap(),
    ];
    for sample in samples {
        for utc_offset in [0, 1, -1, 3_600, 7_200, -18_000, 50_400, -43_200, 86_399, -86_399, 86_400, 200_000, -200_000] {
            let moved = moment_of(&(sample + Duration::seconds(i64::from(utc_offset))));
            let expected = LocalInstant {
                day: i64::from(moved.date.days),
                second: i64::from(moved.seconds),
                nanos: moved.nanos,
            };
            assert_eq!(to_local_instant(&moment_of(&sample), ZoneForm::Utc, utc_offset), expected);
            let written = moment_of(&sample);
            let as_written = LocalInstant {
                day: i64::from(written.date.days),
                second: i64::from(written.seconds),
                nanos: written.nanos,
            };
            assert_eq!(to_local_instant(&written, ZoneForm::Floating, utc_offset), as_written);
            assert_eq!(to_local_instant(&written, ZoneForm::Zoned, utc_offset), as_written);
        }
    }
    let end_of_range = LocalDateTime { date: Date { days: i32::MAX }, seconds: u32::MAX, nanos: 7 };
    assert_eq!(
        to_local_instant(&end_of_range, ZoneForm::Utc, i32::MAX),
        LocalInstant { day: 2_147_483_647 + 74_565, second: 34_942, nanos: 7 }
    );
    let start_of_range = LocalDateTime { date: Date { days: i32::MIN }, seconds: 0, nanos: 0 };
    assert_eq!(
        to_local_instant(&start_of_range, ZoneForm::Utc, i32::MIN),
        LocalInstant { day: -2_147_483_648 - 24_856, second: 74_752, nanos: 0 }
    );
}

#[test]
fn orders_instants() {
    let at = |day: i64, second: i64, nanos: u32| LocalInstant { day, second, nanos };
    let samples = [at(1, 0, 0), at(1, 0, 1), at(1, 5, 0), at(2, 0, 0), at(-3, 86_399, 5)];
    for a in samples {
        for b in samples {
            let expected = (a.day, a.second, a.nanos) >= (b.day, b.second, b.nanos);
            assert_eq!(is_not_before(&a, &b), expected);
        }
    }
}

#[test]
fn a_document_with_a_mistake_far_into_a_line_gives_no_events() {
    let text = format!("BEGIN:VEVENT{}END:VEVENT", " ".repeat(70_000));
    assert!(load_events(&text).is_none());
    let folded = format!("BEGIN:VCALENDAR\r\nBEGIN:VEVENT\r\nSUMMARY:{}\r\n;\r\nEND:VEVENT\r\nEND:VCALENDAR\r\n", "x".repeat(100_000));
    assert!(load_events(&folded).is_none());
}

#[test]
fn a_document_with_long_lines_is_read() {
    let summary = "x".repeat(100_000);
    let text = format!(
        "BEGIN:VCALENDAR\r\nBEGIN:VEVENT\r\nSUMMARY:{}\r\nDTSTART:20240501T090000\r\nEND:VEVENT\r\nEND:VCALENDAR\r\n",
        summary
    );
    let events = load_events(&text).unwrap();
    assert_eq!(events.len(), 1);
    assert_eq!(events[0].summary.as_deref(), Some(summary.as_str()));
}

#[test]
fn reads_folded_lines_as_one() {
    let text = "BEGIN:VCALENDAR\r\nBEGIN:VEVENT\r\nSUMMARY:Ana\r\n lysis\r\nDTSTART:2024\r\n 0501T090000\r\nEND:VEVENT\r\nEND:VCALENDAR\r\n";
    let events = load_events(text).unwrap();
    assert_eq!(events.len(), 1);
    assert_eq!(events[0].summary.as_deref(), Some("Analysis"));
    assert_eq!(
        events[0].start,
        Some(EventTime::DateTime { at: moment(2024, 5, 1, 9, 0), form: ZoneForm::Floating })
    );
}

#[test]
fn reads_a_document_as_the_calendar_type_does() {
    let samples = [
        "",
        "no calendar at all",
        "BEGIN:VCALENDAR\r\nVERSION:2.0\r\nEND:VCALENDAR\r\n",
        "BEGIN:VCALENDAR\r\nBEGIN:VEVENT\r\nSUMMARY:One\r\nEND:VEVENT\r\nBEGIN:VTODO\r\nSUMMARY:Two\r\nEND:VTODO\r\nBEGIN:VEVENT\r\nEND:VEVENT\r\nEND:VCALENDAR\r\n",
        "BEGIN:VEVENT\r\nSUMMARY:Alone\r\nEND:VEVENT\r\nBEGIN:VEVENT\r\nSUMMARY:Too\r\nEND:VEVENT\r\n",
        "BEGIN:VEVENT\nSUMMARY:Alone\nEND:VEVENT\n",
        "BEGIN:VCALENDAR\r\nBEGIN:VEVENT\r\nEND:VCALENDAR\r\n",
        "BEGIN:VCALENDAR\r\nBEGIN:VEVENT\r\nSUMMARY:Open\r\n",
        "BEGIN:VEVENT    END:VEVENT",
        "BEGIN:VCALENDAR\r\nBEGIN:VEVENT\r\nSUMMARY:Ana\r\n lysis\r\nEND:VEVENT\r\nEND:VCALENDAR\r\nand more",
        "BEGIN:",
    ];
    for sample in samples {
        let expected = sample.parse::<icalendar::Calendar>().ok().map(|calendar| {
            calendar
                .components
                .iter()
                .filter_map(|component| component.as_event())
                .map(|event| icalendar::Component::get_summary(event).map(String::from))
                .collect::<Vec<Option<String>>>()
        });
        let found = load_events(sample)
            .map(|events| events.into_iter().map(|event| event.summary).collect::<Vec<Option<String>>>());
        assert_eq!(found, expected);
    }
}
