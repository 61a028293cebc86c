//! The calendar: when its events are, and which ones come next.

use vstd::prelude::*;
use vstd::string::*;

use crate::text;
use crate::text::to_uppercase;

verus! {

/// The number of events that are listed.
pub const LISTED_EVENTS: usize = 7;

/// The number of days that are looked ahead.
pub const DAYS_AHEAD: i64 = 30;

// ---------------------------------------------------------------------------
// What a calendar tells
// ---------------------------------------------------------------------------

/// The start of an event: a point in time, or a date for an event that takes the whole day.
#[derive(Debug, PartialEq)]
pub struct HaCalendarTime {
    pub date_time: Option<String>,
    pub date: Option<String>,
}

/// An event as a calendar tells it.
#[derive(Debug, PartialEq)]
pub struct HaCalendarEvent {
    pub summary: String,
    pub start: HaCalendarTime,
}

/// A calendar and its events, unless they could not be had.
#[derive(Debug, PartialEq)]
pub struct CalendarReply {
    pub name: String,
    pub events: Option<Vec<HaCalendarEvent>>,
}

/// An event as it is listed.
#[derive(Debug, PartialEq)]
pub struct CalendarEvent {
    pub summary: String,
    pub date: String,
    pub time: String,
    pub calendar: String,
    pub sort_epoch: i64,
}

/// What is listed of an event.
#[verifier::ext_equal]
pub struct EventModel {
    pub summary: Seq<char>,
    pub date: Seq<char>,
    pub time: Seq<char>,
    pub calendar: Seq<char>,
    pub sort_epoch: i64,
}

impl View for CalendarEvent {
    type V = EventModel;

    open spec fn view(&self) -> EventModel {
        EventModel {
            summary: self.summary@,
            date: self.date@,
            time: self.time@,
            calendar: self.calendar@,
            sort_epoch: self.sort_epoch,
        }
    }
}

impl Clone for CalendarEvent {
    fn clone(&self) -> (r: CalendarEvent)
        ensures
            r@ == self@,
    {
        CalendarEvent {
            summary: self.summary.clone(),
            date: self.date.clone(),
            time: self.time.clone(),
            calendar: self.calendar.clone(),
            sort_epoch: self.sort_epoch,
        }
    }
}

/// What is listed of each event.
pub open spec fn event_models(events: Seq<CalendarEvent>) -> Seq<EventModel> {
    events.map_values(|event: CalendarEvent| event@)
}

// ---------------------------------------------------------------------------
// Reading times
// ---------------------------------------------------------------------------

/// The seconds since the epoch of an RFC 3339 text, as `chrono` reads it.
pub uninterp spec fn rfc3339_seconds(text: Seq<char>) -> Option<i64>;

/// An RFC 3339 text in another notation, as `chrono` reads and writes it.
pub uninterp spec fn rfc3339_written(text: Seq<char>, notation: Seq<char>) -> Option<Seq<char>>;

/// The seconds since the epoch of the midnight (UTC) that begins a date in a notation, as
/// `chrono` reads it.
pub uninterp spec fn date_seconds(text: Seq<char>, notation: Seq<char>) -> Option<i64>;

/// A date in another notation, as `chrono` reads and writes it.
pub uninterp spec fn date_written(
    text: Seq<char>,
    notation: Seq<char>,
    written: Seq<char>,
) -> Option<Seq<char>>;

/// `DateTime::parse_from_rfc3339` and `DateTime::timestamp` of `chrono`: nothing for a text that
/// is not an RFC 3339 time, else its seconds since the epoch. Which texts those are, and the
/// number, is only named.
#[verifier::external_body]
fn parse_rfc3339(text: &str) -> (r: Option<i64>)
    ensures
        r == rfc3339_seconds(text@),
{
    match chrono::DateTime::parse_from_rfc3339(text) {
        Ok(moment) => Some(moment.timestamp()),
        Err(_) => None,
    }
}

/// `DateTime::parse_from_rfc3339` and `DateTime::format` of `chrono`: the time in another
/// notation, for the texts that are RFC 3339 times. What is written is only named, but for this:
/// the time of the day is an ASCII text that begins with a digit of the hour. The notation is one
/// of those for which `chrono` has an answer for every time.
#[verifier::external_body]
pub(crate) fn format_rfc3339(text: &str, notation: &str) -> (r: Option<String>)
    requires
        notation@ == "%a %b %-d"@ || notation@ == "%-I:%M %p"@,
    ensures
        text::text_in(r) == rfc3339_written(text@, notation@),
        r is Some <==> rfc3339_seconds(text@) is Some,
        r matches Some(written) ==> (notation@ == "%-I:%M %p"@ ==> {
            &&& vstd::utf8::is_ascii_chars(written@)
            &&& written@.len() > 0
            &&& text::is_digit(written@[0])
        }),
{
    match chrono::DateTime::parse_from_rfc3339(text) {
        Ok(moment) => Some(moment.format(notation).to_string()),
        Err(_) => None,
    }
}

/// `NaiveDate::parse_from_str`, `NaiveDate::and_hms_opt`, `NaiveDateTime::and_utc` and
/// `DateTime::timestamp` of `chrono`: nothing for a text that is not a date in the notation, else
/// the seconds from the epoch to the midnight at its beginning, a whole number of days. Which
/// texts those are, and the number, is only named.
#[verifier::external_body]
fn parse_date(text: &str, notation: &str) -> (r: Option<i64>)
    ensures
        r == date_seconds(text@, notation@),
        r matches Some(seconds) ==> seconds % 86400 == 0,
{
    match chrono::NaiveDate::parse_from_str(text, notation) {
        Ok(date) => match date.and_hms_opt(0, 0, 0) {
            Some(midnight) => Some(midnight.and_utc().timestamp()),
            None => None,
        },
        Err(_) => None,
    }
}

/// `NaiveDate::parse_from_str` and `NaiveDate::format` of `chrono`: the date in another notation,
/// for the texts that are dates in the first one. What is written is only named. The second
/// notation is one for which `chrono` has an answer for every date.
#[verifier::external_body]
fn format_date(text: &str, notation: &str, written: &str) -> (r: Option<String>)
    requires
        written@ == "%a %b %-d"@,
    ensures
        text::text_in(r) == date_written(text@, notation@, written@),
        r is Some <==> date_seconds(text@, notation@) is Some,
{
    match chrono::NaiveDate::parse_from_str(text, notation) {
        Ok(date) => Some(date.format(written).to_string()),
        Err(_) => None,
    }
}

/// The labels of a time, in upper case; nothing unless all parts are there.
pub open spec fn timed(
    seconds: Option<i64>,
    date: Option<Seq<char>>,
    time: Option<Seq<char>>,
) -> Option<(i64, Seq<char>, Seq<char>)> {
    match (seconds, date, time) {
        (Some(s), Some(d), Some(t)) => Some((s, text::upper_text(d), text::upper_text(t))),
        _ => None,
    }
}

/// The labels of a whole day, the date in upper case; nothing unless all parts are there.
pub open spec fn whole_day(seconds: Option<i64>, date: Option<Seq<char>>) -> Option<
    (i64, Seq<char>, Seq<char>),
> {
    match (seconds, date) {
        (Some(s), Some(d)) => Some((s, text::upper_text(d), "ALL DAY"@)),
        _ => None,
    }
}

/// The start of an event: the point in time if one is given, and nothing if it cannot be read;
/// else the date, if one is given.
pub open spec fn calendar_time(start: HaCalendarTime) -> Option<(i64, Seq<char>, Seq<char>)> {
    if start.date_time is Some {
        let given = start.date_time->0@;
        timed(
            rfc3339_seconds(given),
            rfc3339_written(given, "%a %b %-d"@),
            rfc3339_written(given, "%-I:%M %p"@),
        )
    } else if start.date is Some {
        let given = start.date->0@;
        whole_day(
            date_seconds(given, "%Y-%m-%d"@),
            date_written(given, "%Y-%m-%d"@, "%a %b %-d"@),
        )
    } else {
        None
    }
}

/// The characters of the labels of a time.
pub open spec fn time_model(time: Option<(i64, String, String)>) -> Option<
    (i64, Seq<char>, Seq<char>),
> {
    match time {
        Some((seconds, date, hour)) => Some((seconds, date@, hour@)),
        None => None,
    }
}

/// The labels of a time, in upper case; nothing unless all parts are there.
pub fn timed_labels(seconds: Option<i64>, date: &Option<String>, time: &Option<String>) -> (r: Option<
    (i64, String, String),
>)
    ensures
        time_model(r) == timed(seconds, text::text_in(*date), text::text_in(*time)),
        r matches Some((_, d, t)) ==> {
            &&& vstd::utf8::is_ascii_chars(date->0@) ==> d@ == text::ascii_upper_text(date->0@)
            &&& vstd::utf8::is_ascii_chars(time->0@) ==> t@ == text::ascii_upper_text(time->0@)
        },
{
    match (seconds, date, time) {
        (Some(seconds), Some(date), Some(time)) => Some(
            (seconds, to_uppercase(date), to_uppercase(time)),
        ),
        _ => None,
    }
}

/// The labels of a whole day, the date in upper case; nothing unless all parts are there.
pub fn whole_day_labels(seconds: Option<i64>, date: &Option<String>) -> (r: Option<
    (i64, String, String),
>)
    ensures
        time_model(r) == whole_day(seconds, text::text_in(*date)),
        r matches Some((_, d, _)) ==> (vstd::utf8::is_ascii_chars(date->0@) ==> d@
            == text::ascii_upper_text(date->0@)),
{
    match (seconds, date) {
        (Some(seconds), Some(date)) => Some((seconds, to_uppercase(date), "ALL DAY".to_owned())),
        _ => None,
    }
}

/// The start of an event: its seconds since the epoch, its date and its time of the day.
pub fn format_calendar_time(value: &HaCalendarTime) -> (r: Option<(i64, String, String)>)
    ensures
        time_model(r) == calendar_time(*value),
        value.date_time matches Some(given) ==> (r is Some <==> rfc3339_seconds(given@) is Some),
        value.date_time is None ==> (r is Some <==> (value.date matches Some(given) && date_seconds(
            given@,
            "%Y-%m-%d"@,
        ) is Some)),
        r matches Some((_, _, time)) ==> (time@ == "ALL DAY"@ <==> value.date_time is None),
        value.date_time is None ==> (r matches Some((seconds, _, _)) ==> seconds % 86400 == 0),
{
    if let Some(date_time) = &value.date_time {
        let time = format_rfc3339(date_time, "%-I:%M %p");
        let labels = timed_labels(
            parse_rfc3339(date_time),
            &format_rfc3339(date_time, "%a %b %-d"),
            &time,
        );
        proof {
            reveal_strlit("ALL DAY");
            if let Some((_, _, hour)) = &labels {
                assert(hour@[0] == text::ascii_upper(time->0@[0]));
            }
        }
        return labels;
    }
    match &value.date {
        Some(date) => whole_day_labels(
            parse_date(date, "%Y-%m-%d"),
            &format_date(date, "%Y-%m-%d", "%a %b %-d"),
        ),
        None => None,
    }
}

/// A point in time alone decides the start of an event: a date beside it changes nothing.
pub proof fn a_time_outweighs_a_date(a: HaCalendarTime, b: HaCalendarTime)
    requires
        a.date_time is Some,
        text::text_in(a.date_time) == text::text_in(b.date_time),
    ensures
        calendar_time(a) == calendar_time(b),
{
}

// ---------------------------------------------------------------------------
// The next events
// ---------------------------------------------------------------------------

/// The events of a calendar whose start can be read, as they are listed.
pub open spec fn events_in(name: Seq<char>, events: Seq<HaCalendarEvent>) -> Seq<EventModel>
    decreases events.len(),
{
    if events.len() == 0 {
        seq![]
    } else {
        let rest = events_in(name, events.drop_last());
        match calendar_time(events.last().start) {
            Some((sort_epoch, date, time)) => rest.push(
                EventModel {
                    summary: events.last().summary@,
                    date,
                    time,
                    calendar: name,
                    sort_epoch,
                },
            ),
            None => rest,
        }
    }
}

/// The events of all calendars that could be had, calendar by calendar.
pub open spec fn events_of(replies: Seq<CalendarReply>) -> Seq<EventModel>
    decreases replies.len(),
{
    if replies.len() == 0 {
        seq![]
    } else {
        let rest = events_of(replies.drop_last());
        match replies.last().events {
            Some(events) => rest + events_in(replies.last().name@, events@),
            None => rest,
        }
    }
}

/// The events that start at a point in time, in their order.
pub open spec fn events_at(events: Seq<EventModel>, epoch: i64) -> Seq<EventModel>
    decreases events.len(),
{
    if events.len() == 0 {
        seq![]
    } else {
        let rest = events_at(events.drop_last(), epoch);
        if events.last().sort_epoch == epoch {
            rest.push(events.last())
        } else {
            rest
        }
    }
}

/// No event stands after a later one.
pub open spec fn in_time_order(events: Seq<EventModel>) -> bool {
    forall|i: int, j: int|
        0 <= i <= j < events.len() ==> (#[trigger] events[i]).sort_epoch <= (
        #[trigger] events[j]).sort_epoch
}

/// `sorted` holds the given events in the order of time, and those of one time in the order in
/// which they were given.
pub open spec fn is_stable_sort(given: Seq<EventModel>, sorted: Seq<EventModel>) -> bool {
    &&& in_time_order(sorted)
    &&& forall|epoch: i64| #[trigger] events_at(sorted, epoch) == events_at(given, epoch)
}

/// `listed` is the beginning of the sorted events, as far as it is listed.
pub open spec fn is_agenda(given: Seq<EventModel>, listed: Seq<EventModel>) -> bool {
    exists|sorted: Seq<EventModel>|
        {
            &&& #[trigger] is_stable_sort(given, sorted)
            &&& listed == if sorted.len() <= LISTED_EVENTS {
                sorted
            } else {
                sorted.take(LISTED_EVENTS as int)
            }
        }
}

/// The events at a time of two runs, one after the other.
proof fn lemma_events_at_concat(a: Seq<EventModel>, b: Seq<EventModel>, epoch: i64)
    ensures
        events_at(a + b, epoch) == events_at(a, epoch) + events_at(b, epoch),
    decreases b.len(),
{
    if b.len() == 0 {
        assert(a + b =~= a);
        assert(events_at(a, epoch) + events_at(b, epoch) =~= events_at(a, epoch));
    } else {
        assert((a + b).drop_last() =~= a + b.drop_last());
        lemma_events_at_concat(a, b.drop_last(), epoch);
        assert((a + b).last() == b.last());
        assert(events_at(a + b, epoch) =~= events_at(a, epoch) + events_at(b, epoch));
    }
}

/// A run without events at a time has none.
proof fn lemma_no_events_at(events: Seq<EventModel>, epoch: i64)
    requires
        forall|i: int| 0 <= i < events.len() ==> (#[trigger] events[i]).sort_epoch != epoch,
    ensures
        events_at(events, epoch).len() == 0,
    decreases events.len(),
{
    if events.len() > 0 {
        lemma_no_events_at(events.drop_last(), epoch);
    }
}

/// An event of a run is among those of its time, which are all events of the run.
proof fn lemma_events_at_holds(events: Seq<EventModel>, epoch: i64)
    ensures
        forall|i: int|
            0 <= i < events.len() && (#[trigger] events[i]).sort_epoch == epoch ==> events_at(
                events,
                epoch,
            ).contains(events[i]),
        forall|e: EventModel| #[trigger]
            events_at(events, epoch).contains(e) ==> events.contains(e) && e.sort_epoch == epoch,
    decreases events.len(),
{
    if events.len() > 0 {
        let rest = events.drop_last();
        lemma_events_at_holds(rest, epoch);
        let at = events_at(events, epoch);
        let at_rest = events_at(rest, epoch);
        assert forall|i: int|
            0 <= i < events.len() && (#[trigger] events[i]).sort_epoch == epoch implies at.contains(
            events[i],
        ) by {
            if i < rest.len() {
                assert(events[i] == rest[i]);
                assert(at_rest.contains(rest[i]));
                let k = choose|k: int| 0 <= k < at_rest.len() && at_rest[k] == rest[i];
                assert(at[k] == at_rest[k]);
            } else {
                assert(at.last() == events.last());
            }
        }
        assert forall|e: EventModel| #[trigger] at.contains(e) implies events.contains(e)
            && e.sort_epoch == epoch by {
            let k = choose|k: int| 0 <= k < at.len() && at[k] == e;
            if k < at_rest.len() {
                assert(at_rest[k] == e);
                assert(at_rest.contains(e));
                let m = choose|m: int| 0 <= m < rest.len() && rest[m] == e;
                assert(events[m] == e);
            } else {
                assert(events.last() == e);
                assert(events[events.len() - 1] == e);
            }
        }
    }
}

/// Putting one more event behind those that are not later keeps the events stably sorted.
proof fn lemma_insert(given: Seq<EventModel>, sorted: Seq<EventModel>, at: int, event: EventModel)
    requires
        is_stable_sort(given, sorted),
        0 <= at <= sorted.len(),
        forall|i: int| 0 <= i < at ==> (#[trigger] sorted[i]).sort_epoch <= event.sort_epoch,
        forall|i: int|
            at <= i < sorted.len() ==> event.sort_epoch < (#[trigger] sorted[i]).sort_epoch,
    ensures
        is_stable_sort(given.push(event), sorted.insert(at, event)),
{
    let more = sorted.insert(at, event);
    let front = sorted.take(at);
    let back = sorted.skip(at);
    assert(more =~= front + seq![event] + back);
    assert(sorted =~= front + back);
    assert forall|epoch: i64| #[trigger]
        events_at(more, epoch) == events_at(given.push(event), epoch) by {
        lemma_events_at_concat(front + seq![event], back, epoch);
        lemma_events_at_concat(front, seq![event], epoch);
        lemma_events_at_concat(front, back, epoch);
        assert(given.push(event).drop_last() =~= given);
        assert(seq![event].drop_last() =~= Seq::<EventModel>::empty());
        assert(events_at(sorted, epoch) == events_at(given, epoch));
        reveal_with_fuel(events_at, 2);
        if event.sort_epoch == epoch {
            lemma_no_events_at(back, epoch);
            assert(events_at(more, epoch) =~= events_at(given.push(event), epoch));
        } else {
            assert(events_at(more, epoch) =~= events_at(given.push(event), epoch));
        }
    }
    assert forall|i: int, j: int| 0 <= i <= j < more.len() implies (
    #[trigger] more[i]).sort_epoch <= (#[trigger] more[j]).sort_epoch by {
        if i != at && j != at {
            let si = if i < at {
                i
            } else {
                i - 1
            };
            let sj = if j < at {
                j
            } else {
                j - 1
            };
            assert(more[i] == sorted[si]);
            assert(more[j] == sorted[sj]);
        } else if i == at && j != at {
            assert(more[j] == sorted[j - 1]);
        } else if i != at && j == at {
            assert(more[i] == sorted[i]);
        }
    }
}

/// The events that are listed: the first ones in the order of time, and among those of one time
/// the first ones given.
pub fn agenda(events: Vec<CalendarEvent>) -> (r: Vec<CalendarEvent>)
    ensures
        is_agenda(event_models(events@), event_models(r@)),
{
    let ghost given = event_models(events@);
    let mut waiting = events;
    let mut sorted: Vec<CalendarEvent> = Vec::new();
    let ghost mut taken: int = 0;
    assert(given.take(0) =~= event_models(sorted@));
    assert(event_models(waiting@) =~= given.skip(0));
    while waiting.len() > 0
        invariant
            0 <= taken <= given.len(),
            event_models(waiting@) == given.skip(taken),
            is_stable_sort(given.take(taken), event_models(sorted@)),
        decreases waiting@.len(),
    {
        let ghost before = waiting@;
        let ghost kept = event_models(sorted@);
        let event = waiting.remove(0);
        let mut at: usize = sorted.len();
        while at > 0 && sorted[at - 1].sort_epoch > event.sort_epoch
            invariant
                at <= sorted@.len(),
                kept == event_models(sorted@),
                in_time_order(kept),
                forall|i: int|
                    at <= i < sorted@.len() ==> event.sort_epoch < (
                    #[trigger] sorted@[i]).sort_epoch,
            decreases at,
        {
            at = at - 1;
        }
        proof {
            assert(given.skip(taken).len() == before.len());
            assert(event_models(before)[0] == event@);
            assert(given.skip(taken)[0] == given[taken]);
            assert forall|i: int| 0 <= i < at implies (#[trigger] kept[i]).sort_epoch
                <= event@.sort_epoch by {
                assert(kept[at - 1] == sorted@[at - 1]@);
                assert(kept[i].sort_epoch <= kept[at - 1].sort_epoch);
            }
            assert forall|i: int| at <= i < kept.len() implies event@.sort_epoch < (
            #[trigger] kept[i]).sort_epoch by {
                assert(kept[i] == sorted@[i]@);
            }
            lemma_insert(given.take(taken), kept, at as int, event@);
            assert(given.take(taken).push(event@) =~= given.take(taken + 1));
            assert(event_models(before.remove(0)) =~= given.skip(taken + 1)) by {
                assert forall|i: int| 0 <= i < before.len() - 1 implies event_models(
                    before.remove(0),
                )[i] == given.skip(taken + 1)[i] by {
                    assert(event_models(before)[i + 1] == given.skip(taken)[i + 1]);
                }
            }
        }
        sorted.insert(at, event);
        proof {
            assert(event_models(sorted@) =~= kept.insert(at as int, event@));
            taken = taken + 1;
        }
    }
    proof {
        assert(given.skip(taken).len() == 0);
        assert(given.take(taken) =~= given);
    }
    let ghost all = event_models(sorted@);
    assert(is_stable_sort(given, all));
    if sorted.len() > LISTED_EVENTS {
        sorted.truncate(LISTED_EVENTS);
        assert(event_models(sorted@) =~= all.take(LISTED_EVENTS as int));
    }
    sorted
}

/// The next events of all calendars that could be had.
pub fn upcoming_events(replies: &Vec<CalendarReply>) -> (r: Vec<CalendarEvent>)
    ensures
        is_agenda(events_of(replies@), event_models(r@)),
{
    let mut upcoming: Vec<CalendarEvent> = Vec::new();
    let mut i: usize = 0;
    assert(event_models(upcoming@) =~= events_of(replies@.take(0)));
    while i < replies.len()
        invariant
            i <= replies@.len(),
            event_models(upcoming@) == events_of(replies@.take(i as int)),
        decreases replies@.len() - i,
    {
        let reply = &replies[i];
        let ghost earlier = event_models(upcoming@);
        assert(replies@.take(i + 1).drop_last() =~= replies@.take(i as int));
        if let Some(events) = &reply.events {
            let mut k: usize = 0;
            assert(events_in(reply.name@, events@.take(0)) =~= Seq::<EventModel>::empty());
            assert(event_models(upcoming@) =~= earlier + events_in(reply.name@, events@.take(0)));
            while k < events.len()
                invariant
                    k <= events@.len(),
                    event_models(upcoming@) == earlier + events_in(
                        reply.name@,
                        events@.take(k as int),
                    ),
                decreases events@.len() - k,
            {
                let event = &events[k];
                let ghost so_far = upcoming@;
                assert(events@.take(k + 1).drop_last() =~= events@.take(k as int));
                if let Some((sort_epoch, date, time)) = format_calendar_time(&event.start) {
                    upcoming.push(
                        CalendarEvent {
                            summary: event.summary.clone(),
                            date,
                            time,
                            calendar: reply.name.clone(),
                            sort_epoch,
                        },
                    );
                    assert(event_models(upcoming@) =~= event_models(so_far).push(
                        upcoming@.last()@,
                    ));
                }
                k = k + 1;
                assert(event_models(upcoming@) =~= earlier + events_in(
                    reply.name@,
                    events@.take(k as int),
                ));
            }
            assert(events@.take(k as int) =~= events@);
        }
        i = i + 1;
    }
    assert(replies@.take(i as int) =~= replies@);
    agenda(upcoming)
}

/// Stably sorted events hold what was given, no more and no less.
proof fn lemma_sorted_holds(given: Seq<EventModel>, sorted: Seq<EventModel>, event: EventModel)
    requires
        is_stable_sort(given, sorted),
    ensures
        sorted.contains(event) <==> given.contains(event),
{
    lemma_events_at_holds(given, event.sort_epoch);
    lemma_events_at_holds(sorted, event.sort_epoch);
    assert(events_at(sorted, event.sort_epoch) == events_at(given, event.sort_epoch));
}

/// There is one way only to sort events stably.
pub proof fn stable_sort_is_unique(
    given: Seq<EventModel>,
    one: Seq<EventModel>,
    other: Seq<EventModel>,
)
    requires
        is_stable_sort(given, one),
        is_stable_sort(given, other),
    ensures
        one == other,
{
    assert forall|epoch: i64| events_at(one, epoch) == events_at(other, epoch) by {
        assert(events_at(one, epoch) == events_at(given, epoch));
        assert(events_at(other, epoch) == events_at(given, epoch));
    }
    lemma_same_order(one, other);
}

/// Two runs in the order of time that agree at every time are equal.
proof fn lemma_same_order(one: Seq<EventModel>, other: Seq<EventModel>)
    requires
        in_time_order(one),
        in_time_order(other),
        forall|epoch: i64| #[trigger] events_at(one, epoch) == events_at(other, epoch),
    ensures
        one == other,
    decreases one.len(),
{
    if one.len() == 0 {
        if other.len() > 0 {
            let epoch = other.last().sort_epoch;
            assert(events_at(one, epoch) == events_at(other, epoch));
            lemma_events_at_holds(other, epoch);
            assert(events_at(other, epoch).contains(other[other.len() - 1]));
            assert(events_at(one, epoch).len() == 0);
        }
        assert(one =~= other);
    } else {
        let epoch = one.last().sort_epoch;
        assert(events_at(one, epoch) == events_at(other, epoch));
        lemma_events_at_holds(one, epoch);
        lemma_events_at_holds(other, epoch);
        assert(events_at(one, epoch).contains(one[one.len() - 1]));
        assert(other.contains(one.last()));
        let later = other.last().sort_epoch;
        assert(events_at(one, later) == events_at(other, later));
        lemma_events_at_holds(one, later);
        lemma_events_at_holds(other, later);
        assert(events_at(other, later).contains(other[other.len() - 1]));
        assert(one.contains(other.last()));
        let i = choose|i: int| 0 <= i < other.len() && other[i] == one.last();
        let j = choose|j: int| 0 <= j < one.len() && one[j] == other.last();
        assert(other[i].sort_epoch <= other[other.len() - 1].sort_epoch);
        assert(one[j].sort_epoch <= one[one.len() - 1].sort_epoch);
        assert(later == epoch);
        assert(events_at(one, epoch).last() == one.last());
        assert(events_at(other, epoch).last() == other.last());
        let a = one.drop_last();
        let b = other.drop_last();
        assert forall|time: i64| #[trigger] events_at(a, time) == events_at(b, time) by {
            assert(events_at(one, time) == events_at(other, time));
            if time == epoch {
                assert(events_at(a, time) =~= events_at(one, time).drop_last());
                assert(events_at(b, time) =~= events_at(other, time).drop_last());
            }
        }
        lemma_same_order(a, b);
        assert(one =~= a.push(one.last()));
        assert(other =~= b.push(other.last()));
    }
}

/// The events that are listed are settled by the events that there are.
pub proof fn the_agenda_is_unique(
    given: Seq<EventModel>,
    one: Seq<EventModel>,
    other: Seq<EventModel>,
)
    requires
        is_agenda(given, one),
        is_agenda(given, other),
    ensures
        one == other,
{
    let a = choose|sorted: Seq<EventModel>|
        {
            &&& #[trigger] is_stable_sort(given, sorted)
            &&& one == if sorted.len() <= LISTED_EVENTS {
                sorted
            } else {
                sorted.take(LISTED_EVENTS as int)
            }
        };
    let b = choose|sorted: Seq<EventModel>|
        {
            &&& #[trigger] is_stable_sort(given, sorted)
            &&& other == if sorted.len() <= LISTED_EVENTS {
                sorted
            } else {
                sorted.take(LISTED_EVENTS as int)
            }
        };
    stable_sort_is_unique(given, a, b);
}

/// The number of events at the front of a sorted run that are not later than `epoch`.
spec fn not_later(sorted: Seq<EventModel>, epoch: i64) -> nat
    decreases sorted.len(),
{
    if sorted.len() == 0 || sorted.last().sort_epoch <= epoch {
        sorted.len()
    } else {
        not_later(sorted.drop_last(), epoch)
    }
}

/// The events that are not later are followed by the later ones.
proof fn lemma_not_later(sorted: Seq<EventModel>, epoch: i64)
    requires
        in_time_order(sorted),
    ensures
        not_later(sorted, epoch) <= sorted.len(),
        forall|i: int|
            0 <= i < not_later(sorted, epoch) ==> (#[trigger] sorted[i]).sort_epoch <= epoch,
        forall|i: int|
            not_later(sorted, epoch) <= i < sorted.len() ==> epoch < (
            #[trigger] sorted[i]).sort_epoch,
    decreases sorted.len(),
{
    if sorted.len() == 0 {
    } else if sorted.last().sort_epoch <= epoch {
        assert forall|i: int| 0 <= i < sorted.len() implies (#[trigger] sorted[i]).sort_epoch
            <= epoch by {
            assert(sorted[i].sort_epoch <= sorted[sorted.len() - 1].sort_epoch);
        }
    } else {
        let rest = sorted.drop_last();
        lemma_not_later(rest, epoch);
        assert forall|i: int| 0 <= i < rest.len() implies rest[i] == #[trigger] sorted[i] by {}
    }
}

/// Events can be sorted stably, and sorting loses none of them.
pub proof fn sorting_keeps_every_event(given: Seq<EventModel>) -> (sorted: Seq<EventModel>)
    ensures
        is_stable_sort(given, sorted),
        sorted.len() == given.len(),
    decreases given.len(),
{
    if given.len() == 0 {
        given
    } else {
        let rest = sorting_keeps_every_event(given.drop_last());
        let event = given.last();
        let at = not_later(rest, event.sort_epoch);
        lemma_not_later(rest, event.sort_epoch);
        lemma_insert(given.drop_last(), rest, at as int, event);
        assert(given.drop_last().push(event) =~= given);
        rest.insert(at as int, event)
    }
}

/// Seven events are listed, or all if there are fewer, in the order of time. Each of them was given, and one that is
/// left out is not earlier than any that is listed.
pub proof fn the_agenda_lists_the_next_events(
    given: Seq<EventModel>,
    listed: Seq<EventModel>,
    event: EventModel,
)
    requires
        is_agenda(given, listed),
    ensures
        listed.len() == if given.len() <= LISTED_EVENTS {
            given.len()
        } else {
            LISTED_EVENTS as nat
        },
        in_time_order(listed),
        listed.contains(event) ==> given.contains(event),
        given.contains(event) && !listed.contains(event) ==> given.len() > LISTED_EVENTS
            && listed.len() == LISTED_EVENTS && (forall|i: int|
            0 <= i < listed.len() ==> (#[trigger] listed[i]).sort_epoch <= event.sort_epoch),
{
    let sorted = choose|sorted: Seq<EventModel>|
        {
            &&& #[trigger] is_stable_sort(given, sorted)
            &&& listed == if sorted.len() <= LISTED_EVENTS {
                sorted
            } else {
                sorted.take(LISTED_EVENTS as int)
            }
        };
    lemma_sorted_holds(given, sorted, event);
    let whole = sorting_keeps_every_event(given);
    stable_sort_is_unique(given, sorted, whole);
    assert forall|i: int| 0 <= i < listed.len() implies #[trigger] listed[i] == sorted[i] by {}
    if listed.contains(event) {
        let k = choose|k: int| 0 <= k < listed.len() && listed[k] == event;
        assert(sorted[k] == event);
    }
    if given.contains(event) && !listed.contains(event) {
        let k = choose|k: int| 0 <= k < sorted.len() && sorted[k] == event;
        if k < listed.len() {
            assert(listed[k] == event);
        }
        assert forall|i: int| 0 <= i < listed.len() implies (#[trigger] listed[i]).sort_epoch
            <= event.sort_epoch by {
            assert(listed[i] == sorted[i]);
            assert(sorted[i].sort_epoch <= sorted[k].sort_epoch);
        }
    }
}

/// A calendar that could not be had changes nothing in the list of events.
pub proof fn a_missing_calendar_is_passed_over(replies: Seq<CalendarReply>, reply: CalendarReply)
    requires
        reply.events is None,
    ensures
        events_of(replies.push(reply)) == events_of(replies),
{
    assert(replies.push(reply).drop_last() =~= replies);
}

/// The events of a calendar are all those whose start can be read and no others, in their order,
/// each with its own summary, the labels of its own start and the name of the calendar.
pub proof fn every_readable_event_counts(name: Seq<char>, events: Seq<HaCalendarEvent>)
    ensures
        events_in(name, events) == events.filter(
            |event: HaCalendarEvent| calendar_time(event.start) is Some,
        ).map_values(
            |event: HaCalendarEvent|
                EventModel {
                    summary: event.summary@,
                    date: (calendar_time(event.start)->0).1,
                    time: (calendar_time(event.start)->0).2,
                    calendar: name,
                    sort_epoch: (calendar_time(event.start)->0).0,
                },
        ),
    decreases events.len(),
{
    reveal(Seq::filter);
    let readable = |event: HaCalendarEvent| calendar_time(event.start) is Some;
    let listed = |event: HaCalendarEvent|
        EventModel {
            summary: event.summary@,
            date: (calendar_time(event.start)->0).1,
            time: (calendar_time(event.start)->0).2,
            calendar: name,
            sort_epoch: (calendar_time(event.start)->0).0,
        };
    if events.len() > 0 {
        every_readable_event_counts(name, events.drop_last());
        assert(events_in(name, events) =~= events.filter(readable).map_values(listed));
    } else {
        assert(events_in(name, events) =~= events.filter(readable).map_values(listed));
    }
}

/// Calendars add up: the events of two lists of calendars are those of the one and then those of
/// the other. One calendar has its own events, or none if they could not be had.
pub proof fn calendars_add_up(
    some: Seq<CalendarReply>,
    more: Seq<CalendarReply>,
    reply: CalendarReply,
)
    ensures
        events_of(some + more) == events_of(some) + events_of(more),
        reply.events is None ==> events_of(seq![reply]).len() == 0,
        reply.events matches Some(events) ==> events_of(seq![reply]) == events_in(
            reply.name@,
            events@,
        ),
        events_of(Seq::<CalendarReply>::empty()).len() == 0,
    decreases more.len(),
{
    assert(seq![reply].drop_last() =~= Seq::<CalendarReply>::empty());
    reveal_with_fuel(events_of, 2);
    if reply.events is Some {
        assert(events_of(seq![reply]) =~= events_in(reply.name@, reply.events->0@));
    }
    if more.len() > 0 {
        calendars_add_up(some, more.drop_last(), reply);
        assert((some + more).drop_last() =~= some + more.drop_last());
        assert((some + more).last() == more.last());
        assert(events_of(some + more) =~= events_of(some) + events_of(more));
    } else {
        assert(some + more =~= some);
        assert(events_of(some + more) =~= events_of(some) + events_of(more));
    }
}

/// Every event of every calendar that answered, and whose start can be read, is a candidate for the
/// list; with at most seven candidates each of them is listed.
pub proof fn no_readable_event_is_lost(
    replies: Seq<CalendarReply>,
    listed: Seq<EventModel>,
    i: int,
    k: int,
)
    requires
        0 <= i < replies.len(),
        replies[i].events is Some,
        0 <= k < replies[i].events->0@.len(),
        calendar_time(replies[i].events->0@[k].start) is Some,
        is_agenda(events_of(replies), listed),
    ensures
        ({
            let told = replies[i].events->0@[k];
            let (sort_epoch, date, time) = calendar_time(told.start)->0;
            let event = EventModel {
                summary: told.summary@,
                date,
                time,
                calendar: replies[i].name@,
                sort_epoch,
            };
            &&& events_of(replies).contains(event)
            &&& events_of(replies).len() <= 7 ==> listed.contains(event) && listed.len()
                == events_of(replies).len()
        }),
{
    let events = replies[i].events->0@;
    let told = events[k];
    let (sort_epoch, date, time) = calendar_time(told.start)->0;
    let event = EventModel {
        summary: told.summary@,
        date,
        time,
        calendar: replies[i].name@,
        sort_epoch,
    };
    lemma_event_counts(replies[i].name@, events, k);
    let j = choose|j: int|
        0 <= j < events_in(replies[i].name@, events).len() && events_in(replies[i].name@, events)[j]
            == event;
    let front = replies.take(i);
    let rest = replies.skip(i + 1);
    calendars_add_up(front, seq![replies[i]], replies[i]);
    calendars_add_up(front + seq![replies[i]], rest, replies[i]);
    assert(front + seq![replies[i]] + rest =~= replies);
    assert(events_of(replies)[events_of(front).len() + j] == event);
    the_agenda_lists_the_next_events(events_of(replies), listed, event);
}

/// An event whose start can be read is among the events of its calendar.
proof fn lemma_event_counts(name: Seq<char>, events: Seq<HaCalendarEvent>, k: int)
    requires
        0 <= k < events.len(),
        calendar_time(events[k].start) is Some,
    ensures
        ({
            let (sort_epoch, date, time) = calendar_time(events[k].start)->0;
            events_in(name, events).contains(
                EventModel {
                    summary: events[k].summary@,
                    date,
                    time,
                    calendar: name,
                    sort_epoch,
                },
            )
        }),
    decreases events.len(),
{
    let all = events_in(name, events);
    if k == events.len() - 1 {
        assert(events.last() == events[k]);
        assert(all[all.len() - 1] == all.last());
    } else {
        let front = events.drop_last();
        assert(front[k] == events[k]);
        lemma_event_counts(name, front, k);
        let (sort_epoch, date, time) = calendar_time(events[k].start)->0;
        let event = EventModel {
            summary: events[k].summary@,
            date,
            time,
            calendar: name,
            sort_epoch,
        };
        let j = choose|j: int|
            0 <= j < events_in(name, front).len() && events_in(name, front)[j] == event;
        assert(all[j] == event);
    }
}

/// A list of events is the beginning, seven at most, of the given events put into the order of time:
/// the same events, none earlier than one before it, and those of one time in the order in which
/// they were given.
pub proof fn the_agenda_is_the_stable_order_of_time(
    given: Seq<EventModel>,
    listed: Seq<EventModel>,
    epoch: i64,
) -> (sorted: Seq<EventModel>)
    requires
        is_agenda(given, listed),
    ensures
        sorted.len() == given.len(),
        forall|i: int, j: int|
            0 <= i <= j < sorted.len() ==> (#[trigger] sorted[i]).sort_epoch <= (
            #[trigger] sorted[j]).sort_epoch,
        sorted.filter(|event: EventModel| event.sort_epoch == epoch) == given.filter(
            |event: EventModel| event.sort_epoch == epoch,
        ),
        listed == sorted.take(
            if sorted.len() <= 7 {
                sorted.len() as int
            } else {
                7
            },
        ),
{
    let sorted = choose|sorted: Seq<EventModel>|
        {
            &&& #[trigger] is_stable_sort(given, sorted)
            &&& listed == if sorted.len() <= LISTED_EVENTS {
                sorted
            } else {
                sorted.take(LISTED_EVENTS as int)
            }
        };
    let whole = sorting_keeps_every_event(given);
    stable_sort_is_unique(given, sorted, whole);
    lemma_events_at_is_filter(sorted, epoch);
    lemma_events_at_is_filter(given, epoch);
    assert(events_at(sorted, epoch) == events_at(given, epoch));
    assert(sorted.len() <= 7 ==> sorted.take(sorted.len() as int) =~= sorted);
    sorted
}

/// The events at a time are those that start then.
proof fn lemma_events_at_is_filter(events: Seq<EventModel>, epoch: i64)
    ensures
        events_at(events, epoch) == events.filter(|event: EventModel| event.sort_epoch == epoch),
    decreases events.len(),
{
    reveal(Seq::filter);
    if events.len() > 0 {
        lemma_events_at_is_filter(events.drop_last(), epoch);
    }
}

/// The start of an event is read from its point in time, which gives the seconds, the date and the
/// time of the day. Only without one it is read from the date, and then takes the whole day.
pub proof fn a_start_is_read_from_its_time_or_its_date(start: HaCalendarTime)
    ensures
        start.date_time matches Some(given) ==> (calendar_time(start) matches Some((
            seconds,
            date,
            time,
        )) ==> {
            &&& rfc3339_seconds(given@) == Some(seconds)
            &&& rfc3339_written(given@, "%a %b %-d"@) matches Some(written) && date
                == text::upper_text(written)
            &&& rfc3339_written(given@, "%-I:%M %p"@) matches Some(written) && time
                == text::upper_text(written)
        }),
        start.date_time matches Some(given) ==> (calendar_time(start) is None <==> rfc3339_seconds(
            given@,
        ) is None || rfc3339_written(given@, "%a %b %-d"@) is None || rfc3339_written(
            given@,
            "%-I:%M %p"@,
        ) is None),
        start.date_time is None ==> (start.date matches Some(given) ==> (calendar_time(
            start,
        ) matches Some((seconds, date, time)) ==> {
            &&& date_seconds(given@, "%Y-%m-%d"@) == Some(seconds)
            &&& date_written(given@, "%Y-%m-%d"@, "%a %b %-d"@) matches Some(written) && date
                == text::upper_text(written)
            &&& time == "ALL DAY"@
        })),
        start.date_time is None ==> (start.date matches Some(given) ==> (calendar_time(start)
            is None <==> date_seconds(given@, "%Y-%m-%d"@) is None || date_written(
            given@,
            "%Y-%m-%d"@,
            "%a %b %-d"@,
        ) is None)),
        start.date_time is None && start.date is None ==> calendar_time(start) is None,
{
}

/// What is listed of an event holds all of it.
pub proof fn event_models_leave_nothing_out(events: Seq<CalendarEvent>, i: int)
    requires
        0 <= i < events.len(),
    ensures
        event_models(events).len() == events.len(),
        event_models(events)[i].summary == events[i].summary@,
        event_models(events)[i].date == events[i].date@,
        event_models(events)[i].time == events[i].time@,
        event_models(events)[i].calendar == events[i].calendar@,
        event_models(events)[i].sort_epoch == events[i].sort_epoch,
{
}

/// Labels need all their parts and keep each in its place, the texts in upper case.
pub proof fn labels_keep_their_parts(
    seconds: Option<i64>,
    date: Option<Seq<char>>,
    time: Option<Seq<char>>,
    labels: Option<(i64, String, String)>,
)
    ensures
        timed(seconds, date, time) is Some <==> seconds is Some && date is Some && time is Some,
        timed(seconds, date, time) matches Some((s, d, t)) ==> {
            &&& seconds == Some(s)
            &&& d == text::upper_text(date->0)
            &&& t == text::upper_text(time->0)
        },
        whole_day(seconds, date) is Some <==> seconds is Some && date is Some,
        whole_day(seconds, date) matches Some((s, d, t)) ==> {
            &&& seconds == Some(s)
            &&& d == text::upper_text(date->0)
            &&& t == "ALL DAY"@
        },
        time_model(labels) is Some <==> labels is Some,
        labels matches Some((s, d, t)) ==> time_model(labels) == Some((s, d@, t@)),
{
}

/// A month is looked ahead, and a week's worth of events is listed.
pub proof fn a_month_is_looked_ahead()
    ensures
        DAYS_AHEAD == 30,
        LISTED_EVENTS == 7,
{
}

} // verus!
