//! Fetching a snapshot: what is asked of Home Assistant, in which order, and what is made of the
//! answers.

use vstd::prelude::*;

use crate::calendar;
use crate::calendar::{CalendarEvent, CalendarReply, HaCalendarEvent, upcoming_events};
use crate::home;
use crate::home::{DashboardSnapshot, HaForecast, HaState, daily_high};
use crate::requests;
use crate::requests::{HaClient, HttpRequest};
use crate::snapshot;
use crate::snapshot::{assemble_snapshot, weather_entity};

verus! {

/// A calendar in the list of calendars.
#[derive(Debug, PartialEq)]
pub struct HaCalendar {
    pub entity_id: String,
    pub name: String,
}

/// What a fetch waits for.
#[derive(Clone, Copy, Debug, PartialEq, Eq, Structural)]
pub enum FetchStage {
    /// The states of all entities.
    States,
    /// The forecast for the weather entity.
    Forecast,
    /// The times between which events are listed.
    Window,
    /// The list of calendars.
    Calendars,
    /// The events of the next calendar.
    Events,
    /// Nothing any more.
    Over,
}

/// A fetch, between two requests.
#[derive(Debug, PartialEq)]
pub struct SnapshotFetch<T> {
    pub stage: FetchStage,
    pub client: HaClient,
    /// The states, once they are known.
    pub states: Vec<HaState<T>>,
    /// The temperature that is forecast for today, if it could be had.
    pub high: Option<T>,
    /// The times between which events are listed, once they are known.
    pub start: String,
    pub end: String,
    /// The calendars, once they are known.
    pub calendars: Vec<HaCalendar>,
    /// What the first calendars answered.
    pub replies: Vec<CalendarReply>,
}

/// What came of the last request.
#[derive(Debug, PartialEq)]
pub enum FetchEvent<T> {
    States(Result<Vec<HaState<T>>, String>),
    Forecast(Result<Vec<HaForecast<T>>, String>),
    Window(String, String),
    Calendars(Result<Vec<HaCalendar>, String>),
    Events(Result<Vec<HaCalendarEvent>, String>),
}

/// What a fetch wants done.
#[derive(Debug, PartialEq)]
pub enum FetchAction<T> {
    /// Send a request and read the answer.
    Ask(HttpRequest<T>),
    /// Look at the clock: the time now, and the time up to which events are listed.
    AskWindow,
    /// The fetch is over.
    Done(Result<DashboardSnapshot<T>, String>),
}

/// The action asks for the request.
pub open spec fn asks<T>(action: FetchAction<T>, request: requests::RequestModel<T>) -> bool {
    action matches FetchAction::Ask(asked) && asked@ == request
}

/// The action ends the fetch with an error.
pub open spec fn fails<T>(action: FetchAction<T>, error: Seq<char>) -> bool {
    action matches FetchAction::Done(Err(told)) && told@ == error
}

/// The action ends the fetch with a snapshot.
pub open spec fn succeeds<T>(action: FetchAction<T>, snapshot: home::SnapshotModel<T>) -> bool {
    action matches FetchAction::Done(Ok(fetched)) && fetched@ == snapshot
}

/// The events in the answer of a calendar, unless it could not be had.
pub open spec fn answer_of(name: Seq<char>, answer: Result<Vec<HaCalendarEvent>, String>) -> (
    Seq<char>,
    Option<Seq<HaCalendarEvent>>,
) {
    match answer {
        Ok(events) => (name, Some(events@)),
        Err(_) => (name, None),
    }
}

/// The name of a calendar and its events, unless they could not be had.
pub open spec fn told_in(reply: CalendarReply) -> (Seq<char>, Option<Seq<HaCalendarEvent>>) {
    match reply.events {
        Some(events) => (reply.name@, Some(events@)),
        None => (reply.name@, None),
    }
}

impl<T> SnapshotFetch<T> {
    /// Every stage has what it needs: after the states the weather is known, and the replies are
    /// those of the first calendars, of which one is left to be asked.
    pub open spec fn well_formed(self) -> bool {
        &&& self.stage == FetchStage::Forecast || self.stage == FetchStage::Window || self.stage
            == FetchStage::Calendars || self.stage == FetchStage::Events
            ==> snapshot::weather_state(self.states@) is Some
        &&& self.stage == FetchStage::Events ==> self.replies@.len() < self.calendars@.len()
    }

    /// The fetch waits for such an event.
    pub open spec fn expects(self, event: FetchEvent<T>) -> bool {
        match event {
            FetchEvent::States(_) => self.stage == FetchStage::States,
            FetchEvent::Forecast(_) => self.stage == FetchStage::Forecast,
            FetchEvent::Window(_, _) => self.stage == FetchStage::Window,
            FetchEvent::Calendars(_) => self.stage == FetchStage::Calendars,
            FetchEvent::Events(_) => self.stage == FetchStage::Events,
        }
    }

    /// The entity that tells the weather.
    pub open spec fn weather_id(self) -> Seq<char> {
        snapshot::weather_state(self.states@)->0.entity_id@
    }

    /// The fetch at its end.
    pub open spec fn over(self) -> SnapshotFetch<T> {
        SnapshotFetch { stage: FetchStage::Over, ..self }
    }

    /// How near the fetch is to its end, as far as the stages go.
    pub open spec fn stages_left(self) -> int {
        match self.stage {
            FetchStage::States => 5,
            FetchStage::Forecast => 4,
            FetchStage::Window => 3,
            FetchStage::Calendars => 2,
            FetchStage::Events => 1,
            FetchStage::Over => 0,
        }
    }

    /// The number of calendars that are left to be asked.
    pub open spec fn calendars_left(self) -> int {
        self.calendars@.len() - self.replies@.len()
    }

    /// The request for the events of the calendar that comes next.
    pub open spec fn events_request(self) -> requests::RequestModel<T> {
        let next = self.calendars@[self.replies@.len() as int].entity_id@;
        requests::get_request(
            self.client,
            "/api/calendars/"@ + next,
            seq![("start"@, self.start@), ("end"@, self.end@)],
            next,
        )
    }

    /// What the states lead to: an end without them or without the weather among them, else the
    /// request for the forecast of the weather entity.
    pub open spec fn takes_states(
        self,
        after: SnapshotFetch<T>,
        told: Result<Vec<HaState<T>>, String>,
        action: FetchAction<T>,
    ) -> bool {
        match told {
            Ok(states) => if snapshot::weather_state(states@) is Some {
                &&& after == SnapshotFetch { stage: FetchStage::Forecast, states, ..self }
                &&& asks(
                    action,
                    requests::post_request(
                        self.client,
                        "/api/services/weather/get_forecasts?return_response"@,
                        seq![
                            ("entity_id"@, requests::FieldModel::Text(after.weather_id())),
                            ("type"@, requests::FieldModel::Text("daily"@)),
                        ],
                        "weather.get_forecasts"@,
                    ),
                )
            } else {
                &&& after == self.over()
                &&& fails(action, "weather entity unavailable"@)
            },
            Err(error) => {
                &&& after == self.over()
                &&& fails(action, error@)
            },
        }
    }

    /// What the forecast leads to: the temperature of its first day, or none.
    pub open spec fn takes_forecast(
        self,
        after: SnapshotFetch<T>,
        told: Result<Vec<HaForecast<T>>, String>,
        action: FetchAction<T>,
    ) -> bool {
        let high = match told {
            Ok(forecasts) => home::first_day(home::forecast_of(forecasts@, self.weather_id())),
            Err(_) => None,
        };
        &&& after == SnapshotFetch { stage: FetchStage::Window, high, ..self }
        &&& action is AskWindow
    }

    /// What the times lead to: the request for the calendars.
    pub open spec fn takes_window(
        self,
        after: SnapshotFetch<T>,
        start: String,
        end: String,
        action: FetchAction<T>,
    ) -> bool {
        &&& after == SnapshotFetch { stage: FetchStage::Calendars, start, end, ..self }
        &&& asks(
            action,
            requests::get_request(self.client, "/api/calendars"@, seq![], "calendars"@),
        )
    }

    /// The fetch asks for the events of the calendar that comes next, or ends with a snapshot when
    /// all calendars were asked. That lists the next events of the calendars that answered.
    pub open spec fn goes_on(self, after: SnapshotFetch<T>, action: FetchAction<T>) -> bool {
        if self.replies@.len() < self.calendars@.len() {
            &&& after == SnapshotFetch { stage: FetchStage::Events, ..self }
            &&& asks(action, self.events_request())
        } else {
            &&& after == self.over()
            &&& exists|events: Seq<calendar::EventModel>|
                {
                    &&& calendar::is_agenda(calendar::events_of(self.replies@), events)
                    &&& #[trigger] succeeds(
                        action,
                        snapshot::snapshot_of(self.states@, self.high, events),
                    )
                }
        }
    }

    /// What the list of calendars leads to; without it the snapshot lists no events.
    pub open spec fn takes_calendars(
        self,
        after: SnapshotFetch<T>,
        told: Result<Vec<HaCalendar>, String>,
        action: FetchAction<T>,
    ) -> bool {
        match told {
            Ok(calendars) => {
                &&& after.replies@.len() == 0
                &&& (SnapshotFetch { calendars, replies: after.replies, ..self }).goes_on(
                    after,
                    action,
                )
            },
            Err(_) => {
                &&& after == self.over()
                &&& succeeds(
                    action,
                    snapshot::snapshot_of(self.states@, self.high, seq![]),
                )
            },
        }
    }

    /// What the events of a calendar lead to; one that does not tell them is passed over.
    pub open spec fn takes_events(
        self,
        after: SnapshotFetch<T>,
        told: Result<Vec<HaCalendarEvent>, String>,
        action: FetchAction<T>,
    ) -> bool {
        &&& after.replies@.len() == self.replies@.len() + 1
        &&& after.replies@.drop_last() == self.replies@
        &&& told_in(after.replies@.last()) == answer_of(
            self.calendars@[self.replies@.len() as int].name@,
            told,
        )
        &&& (SnapshotFetch { replies: after.replies, ..self }).goes_on(after, action)
    }

    /// What an event leads to.
    pub open spec fn takes(
        self,
        after: SnapshotFetch<T>,
        event: FetchEvent<T>,
        action: FetchAction<T>,
    ) -> bool {
        match event {
            FetchEvent::States(told) => self.takes_states(after, told, action),
            FetchEvent::Forecast(told) => self.takes_forecast(after, told, action),
            FetchEvent::Window(start, end) => self.takes_window(after, start, end, action),
            FetchEvent::Calendars(told) => self.takes_calendars(after, told, action),
            FetchEvent::Events(told) => self.takes_events(after, told, action),
        }
    }
}

impl<T: Copy> SnapshotFetch<T> {
    /// Begins a fetch with the request for the states.
    pub fn start(client: HaClient) -> (r: (SnapshotFetch<T>, FetchAction<T>))
        ensures
            r.0.stage == FetchStage::States,
            r.0.client == client,
            r.0.high is None,
            r.0.well_formed(),
            asks(r.1, requests::get_request(client, "/api/states"@, seq![], "states"@)),
    {
        let request = client.get_all_states();
        let fetch = SnapshotFetch {
            stage: FetchStage::States,
            client,
            states: Vec::new(),
            high: None,
            start: String::new(),
            end: String::new(),
            calendars: Vec::new(),
            replies: Vec::new(),
        };
        (fetch, FetchAction::Ask(request))
    }

    /// Ends the fetch.
    fn finish(&mut self, events: Result<Vec<CalendarEvent>, String>) -> (r: FetchAction<T>)
        requires
            snapshot::weather_state(old(self).states@) is Some,
        ensures
            *final(self) == old(self).over(),
            succeeds(
                r,
                snapshot::snapshot_of(
                    old(self).states@,
                    old(self).high,
                    snapshot::events_or_none(events),
                ),
            ),
    {
        self.stage = FetchStage::Over;
        FetchAction::Done(assemble_snapshot(&self.states, Ok(self.high), events))
    }

    /// Asks for the events of the calendar that comes next, or ends the fetch.
    fn go_on(&mut self) -> (r: FetchAction<T>)
        requires
            snapshot::weather_state(old(self).states@) is Some,
        ensures
            old(self).goes_on(*final(self), r),
            final(self).well_formed(),
    {
        let place: usize = self.replies.len();
        if place < self.calendars.len() {
            self.stage = FetchStage::Events;
            let request = self.client.get_calendar_events(
                &self.calendars[place].entity_id,
                &self.start,
                &self.end,
            );
            return FetchAction::Ask(request);
        }
        let events = upcoming_events(&self.replies);
        let ghost listed = calendar::event_models(events@);
        let action = self.finish(Ok(events));
        assert(succeeds(action, snapshot::snapshot_of(old(self).states@, old(self).high, listed)));
        action
    }

    /// Takes what came of the last request and says what is to be done next.
    pub fn step(&mut self, event: FetchEvent<T>) -> (r: FetchAction<T>)
        requires
            old(self).well_formed(),
            old(self).expects(event),
        ensures
            old(self).takes(*final(self), event, r),
            final(self).well_formed(),
            final(self).client == old(self).client,
            r is Done <==> final(self).stage == FetchStage::Over,
            final(self).stages_left() < old(self).stages_left() || (final(self).stages_left()
                == old(self).stages_left() && 0 <= final(self).calendars_left() < old(
                self,
            ).calendars_left()),
    {
        match event {
            FetchEvent::States(told) => {
                let states: Vec<HaState<T>> = match told {
                    Ok(states) => states,
                    Err(error) => {
                        self.stage = FetchStage::Over;
                        return FetchAction::Done(Err(error));
                    },
                };
                let request: HttpRequest<T> = match weather_entity(&states) {
                    Ok(weather) => self.client.get_daily_high(&weather.entity_id),
                    Err(error) => {
                        self.stage = FetchStage::Over;
                        return FetchAction::Done(Err(error));
                    },
                };
                self.stage = FetchStage::Forecast;
                self.states = states;
                FetchAction::Ask(request)
            },
            FetchEvent::Forecast(told) => {
                self.high = match told {
                    Ok(forecasts) => match weather_entity(&self.states) {
                        Ok(weather) => daily_high(&forecasts, &weather.entity_id),
                        Err(_) => None,
                    },
                    Err(_) => None,
                };
                self.stage = FetchStage::Window;
                FetchAction::AskWindow
            },
            FetchEvent::Window(start, end) => {
                self.start = start;
                self.end = end;
                self.stage = FetchStage::Calendars;
                FetchAction::Ask(self.client.get_calendars())
            },
            FetchEvent::Calendars(told) => match told {
                Ok(calendars) => {
                    self.calendars = calendars;
                    self.replies = Vec::new();
                    self.go_on()
                },
                Err(error) => self.finish(Err(error)),
            },
            FetchEvent::Events(told) => {
                let place: usize = self.replies.len();
                let name = self.calendars[place].name.clone();
                let events: Option<Vec<HaCalendarEvent>> = match told {
                    Ok(events) => Some(events),
                    Err(_) => None,
                };
                self.replies.push(CalendarReply { name, events });
                assert(self.replies@.drop_last() =~= old(self).replies@);
                self.go_on()
            },
        }
    }
}

/// Only the states can fail a fetch: a forecast, calendars or events that could not be had leave a
/// gap in the snapshot.
pub proof fn only_the_states_fail_a_fetch<T>(
    fetch: SnapshotFetch<T>,
    after: SnapshotFetch<T>,
    event: FetchEvent<T>,
    action: FetchAction<T>,
)
    requires
        fetch.takes(after, event, action),
        action matches FetchAction::Done(result) && result is Err,
    ensures
        event is States,
{
}

/// A snapshot that was fetched is one of this home.
pub proof fn fetched_snapshots_are_consistent<T>(
    fetch: SnapshotFetch<T>,
    after: SnapshotFetch<T>,
    event: FetchEvent<T>,
    action: FetchAction<T>,
)
    requires
        fetch.takes(after, event, action),
        action matches FetchAction::Done(result) && result is Ok,
    ensures
        snapshot::is_consistent((action->Done_0)->Ok_0@),
{
    let fetched = (action->Done_0)->Ok_0@;
    match event {
        FetchEvent::Calendars(Err(_)) => {
            snapshot::assembled_is_consistent(fetch.states@, fetch.high, seq![]);
        },
        _ => {
            let events = choose|events: Seq<calendar::EventModel>|
                #[trigger] succeeds(
                    action,
                    snapshot::snapshot_of(fetch.states@, fetch.high, events),
                );
            snapshot::assembled_is_consistent(fetch.states@, fetch.high, events);
        },
    }
}

/// The states come first. Without them, or without an entity that tells the weather, the fetch
/// fails; else the forecast of that entity is asked for.
pub proof fn the_forecast_is_that_of_the_weather_entity<T>(
    fetch: SnapshotFetch<T>,
    after: SnapshotFetch<T>,
    states: Vec<HaState<T>>,
    error: String,
    action: FetchAction<T>,
)
    ensures
        fetch.takes(after, FetchEvent::States(Err(error)), action) ==> (
        action matches FetchAction::Done(Err(told)) && told@ == error@),
        fetch.takes(after, FetchEvent::States(Ok(states)), action) ==> {
            &&& snapshot::weather_state(states@) is None ==> (
            action matches FetchAction::Done(Err(told)) && told@ == "weather entity unavailable"@)
            &&& snapshot::weather_state(states@) matches Some(weather) ==> {
                &&& after.stage == FetchStage::Forecast
                &&& after.states == states
                &&& after.client == fetch.client
                &&& action matches FetchAction::Ask(asked) && asked@ == requests::post_request(
                    fetch.client,
                    "/api/services/weather/get_forecasts?return_response"@,
                    seq![
                        ("entity_id"@, requests::FieldModel::<T>::Text(weather.entity_id@)),
                        ("type"@, requests::FieldModel::<T>::Text("daily"@)),
                    ],
                    "weather.get_forecasts"@,
                )
            }
        },
{
}

/// The forecast leaves its first day, or nothing; then the clock is asked, and then the calendars.
/// Neither changes what was fetched before.
pub proof fn the_calendars_follow_the_forecast<T>(
    fetch: SnapshotFetch<T>,
    after: SnapshotFetch<T>,
    forecasts: Vec<HaForecast<T>>,
    error: String,
    start: String,
    end: String,
    action: FetchAction<T>,
)
    ensures
        fetch.takes(after, FetchEvent::Forecast(Err(error)), action) ==> action is AskWindow
            && after.high is None && after.states == fetch.states && after.client == fetch.client,
        fetch.takes(after, FetchEvent::Forecast(Ok(forecasts)), action) ==> action is AskWindow
            && after.high == home::first_day(
            home::forecast_of(
                forecasts@,
                snapshot::weather_state(fetch.states@)->0.entity_id@,
            ),
        ) && after.states == fetch.states && after.client == fetch.client,
        fetch.takes(after, FetchEvent::Window(start, end), action) ==> {
            &&& after.stage == FetchStage::Calendars
            &&& after.start == start && after.end == end
            &&& after.states == fetch.states && after.high == fetch.high && after.client
                == fetch.client
            &&& action matches FetchAction::Ask(asked) && asked@ == requests::get_request::<T>(
                fetch.client,
                "/api/calendars"@,
                seq![],
                "calendars"@,
            )
        },
{
}

/// The calendars are asked one after the other for their events between the two times. A calendar
/// that does not tell them is passed over. When all were asked the snapshot is that of the states,
/// the forecast and the next events of all calendars; without the list of calendars it has no
/// events.
pub proof fn every_calendar_is_asked_once<T>(
    fetch: SnapshotFetch<T>,
    after: SnapshotFetch<T>,
    calendars: Vec<HaCalendar>,
    told: Result<Vec<HaCalendarEvent>, String>,
    error: String,
    action: FetchAction<T>,
)
    ensures
        fetch.takes(after, FetchEvent::Calendars(Err(error)), action) ==> (
        action matches FetchAction::Done(Ok(shown)) && shown@ == snapshot::snapshot_of(
            fetch.states@,
            fetch.high,
            seq![],
        )),
        fetch.takes(after, FetchEvent::Calendars(Ok(calendars)), action) ==> {
            &&& after.calendars == calendars && after.replies@.len() == 0
            &&& after.states == fetch.states && after.high == fetch.high
            &&& after.start == fetch.start && after.end == fetch.end
            &&& calendars@.len() > 0 ==> asks_for_events(after, action)
            &&& calendars@.len() == 0 ==> ends_with_the_agenda(after, action)
        },
        fetch.takes(after, FetchEvent::Events(told), action) && fetch.replies@.len()
            < fetch.calendars@.len() ==> {
            &&& after.calendars == fetch.calendars
            &&& after.states == fetch.states && after.high == fetch.high
            &&& after.start == fetch.start && after.end == fetch.end
            &&& after.replies@.len() == fetch.replies@.len() + 1
            &&& forall|i: int|
                0 <= i < fetch.replies@.len() ==> #[trigger] after.replies@[i] == fetch.replies@[i]
            &&& after.replies@.last().name@ == fetch.calendars@[fetch.replies@.len() as int].name@
            &&& after.replies@.last().events is Some <==> told is Ok
            &&& told matches Ok(events) ==> after.replies@.last().events->0@ == events@
            &&& after.replies@.len() < after.calendars@.len() ==> asks_for_events(after, action)
            &&& after.replies@.len() == after.calendars@.len() ==> ends_with_the_agenda(
                after,
                action,
            )
        },
{
    if fetch.takes(after, FetchEvent::Events(told), action) {
        assert(forall|i: int|
            0 <= i < fetch.replies@.len() ==> after.replies@.drop_last()[i]
                == #[trigger] after.replies@[i]);
    }
}

/// The action asks the calendar that comes next for its events between the two times.
pub open spec fn asks_for_events<T>(fetch: SnapshotFetch<T>, action: FetchAction<T>) -> bool {
    let next = fetch.calendars@[fetch.replies@.len() as int].entity_id@;
    fetch.stage == FetchStage::Events && (action matches FetchAction::Ask(asked) && asked@
        == requests::get_request::<T>(
        fetch.client,
        "/api/calendars/"@ + next,
        seq![("start"@, fetch.start@), ("end"@, fetch.end@)],
        next,
    ))
}

/// The action ends the fetch with the next events of the calendars that answered.
pub open spec fn ends_with_the_agenda<T>(fetch: SnapshotFetch<T>, action: FetchAction<T>) -> bool {
    action matches FetchAction::Done(Ok(shown)) && {
        &&& calendar::is_agenda(calendar::events_of(fetch.replies@), shown@.calendar_events)
        &&& shown@ == snapshot::snapshot_of(fetch.states@, fetch.high, shown@.calendar_events)
    }
}

} // verus!
