use kindle_dashboard::calendar::{
    CalendarEvent, CalendarReply, HaCalendarEvent, HaCalendarTime, agenda, format_calendar_time,
    timed_labels, upcoming_events, whole_day_labels,
};

fn at(date_time: Option<&str>, date: Option<&str>) -> HaCalendarTime {
    HaCalendarTime {
        date_time: date_time.map(str::to_string),
        date: date.map(str::to_string),
    }
}

fn labels(time: HaCalendarTime) -> Option<(i64, String, String)> {
    format_calendar_time(&time)
}

fn expected(seconds: i64, date: &str, time: &str) -> Option<(i64, String, String)> {
    Some((seconds, date.to_string(), time.to_string()))
}

#[test]
fn points_in_time_keep_their_own_offset() {
    assert_eq!(
        labels(at(Some("2026-07-19T18:30:00-04:00"), None)),
        expected(1_784_500_200, "SUN JUL 19", "6:30 PM")
    );
    assert_eq!(
        labels(at(Some("2026-01-02T00:05:00Z"), Some("2026-07-19"))),
        expected(1_767_312_300, "FRI JAN 2", "12:05 AM")
    );
}

#[test]
fn whole_days_begin_at_midnight() {
    assert_eq!(
        labels(at(None, Some("2026-07-19"))),
        expected(1_784_419_200, "SUN JUL 19", "ALL DAY")
    );
    assert_eq!(labels(at(None, Some("1970-01-01"))).unwrap().0, 0);
}

#[test]
fn times_that_cannot_be_read_are_none() {
    assert_eq!(labels(at(None, None)), None);
    assert_eq!(labels(at(Some("tomorrow"), Some("2026-07-19"))), None);
    assert_eq!(labels(at(Some("2026-07-19"), None)), None);
    assert_eq!(labels(at(None, Some("2026-02-30"))), None);
    assert_eq!(labels(at(None, Some("19.07.2026"))), None);
}

#[test]
fn a_date_beside_a_time_changes_nothing() {
    let time = Some("2026-07-19T09:05:00-04:00");
    let alone = labels(at(time, None));
    assert_eq!(alone, labels(at(time, Some("2026-01-01"))));
    assert_eq!(alone, labels(at(time, Some("never"))));
    assert_eq!(alone.unwrap().2, "9:05 AM");
}

#[test]
fn labels_need_all_their_parts() {
    let date = Some("Sun Jul 19".to_string());
    let time = Some("6:30 pm".to_string());
    assert_eq!(timed_labels(Some(5), &date, &time), expected(5, "SUN JUL 19", "6:30 PM"));
    assert_eq!(timed_labels(None, &date, &time), None);
    assert_eq!(timed_labels(Some(5), &None, &time), None);
    assert_eq!(timed_labels(Some(5), &date, &None), None);
    assert_eq!(whole_day_labels(Some(5), &date), expected(5, "SUN JUL 19", "ALL DAY"));
    assert_eq!(whole_day_labels(None, &date), None);
    assert_eq!(whole_day_labels(Some(5), &None), None);
}

fn listed(summary: &str, sort_epoch: i64) -> CalendarEvent {
    CalendarEvent {
        summary: summary.to_string(),
        date: String::new(),
        time: String::new(),
        calendar: String::new(),
        sort_epoch,
    }
}

fn summaries(events: &[CalendarEvent]) -> Vec<&str> {
    events.iter().map(|event| event.summary.as_str()).collect()
}

#[test]
fn the_next_events_come_first_and_ties_keep_their_order() {
    let events = vec![
        listed("c", 3),
        listed("a", 1),
        listed("b1", 2),
        listed("b2", 2),
        listed("z", -9),
        listed("b3", 2),
    ];
    assert_eq!(summaries(&agenda(events)), vec!["z", "a", "b1", "b2", "b3", "c"]);
}

#[test]
fn seven_events_are_listed() {
    let mut events = Vec::new();
    for n in 0..10 {
        events.push(listed(&n.to_string(), 100 - n));
    }
    assert_eq!(summaries(&agenda(events)), vec!["9", "8", "7", "6", "5", "4", "3"]);
    assert_eq!(agenda(Vec::new()), Vec::new());
}

fn told(summary: &str, start: HaCalendarTime) -> HaCalendarEvent {
    HaCalendarEvent { summary: summary.to_string(), start }
}

#[test]
fn calendars_are_merged_and_missing_ones_passed_over() {
    let family = CalendarReply {
        name: "Family".to_string(),
        events: Some(vec![
            told("Dinner", at(Some("2026-07-19T18:30:00-04:00"), None)),
            told("Lost", at(Some("never"), None)),
        ]),
    };
    let broken = CalendarReply { name: "Broken".to_string(), events: None };
    let work = CalendarReply {
        name: "Work".to_string(),
        events: Some(vec![told("Fair", at(None, Some("2026-07-19")))]),
    };
    let events = upcoming_events(&vec![family, broken, work]);
    assert_eq!(summaries(&events), vec!["Fair", "Dinner"]);
    assert_eq!(events[0].calendar, "Work");
    assert_eq!(events[0].time, "ALL DAY");
    assert_eq!(events[1].calendar, "Family");
    assert_eq!(events[1].date, "SUN JUL 19");
    assert_eq!(events[1].time, "6:30 PM");
    assert_eq!(events[1].sort_epoch, 1_784_500_200);
}
