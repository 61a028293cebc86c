use kindle_dashboard::calendar::{HaCalendarEvent, HaCalendarTime};
use kindle_dashboard::fetch::{FetchAction, FetchEvent, FetchStage, HaCalendar, SnapshotFetch};
use kindle_dashboard::home::{DashboardSnapshot, HaAttributes, HaForecast, HaState};
use kindle_dashboard::requests::{FieldValue, HaClient};

fn entity(entity_id: &str, state: &str) -> HaState<f64> {
    HaState {
        entity_id: entity_id.to_string(),
        state: state.to_string(),
        attributes: HaAttributes {
            current_temperature: None,
            temperature: Some(70.0),
            hvac_action: None,
            hvac_modes: Vec::new(),
            fan_mode: None,
            fan_modes: Vec::new(),
        },
    }
}

fn calendar(entity_id: &str, name: &str) -> HaCalendar {
    HaCalendar { entity_id: entity_id.to_string(), name: name.to_string() }
}

fn event(summary: &str, date: &str) -> HaCalendarEvent {
    HaCalendarEvent {
        summary: summary.to_string(),
        start: HaCalendarTime { date_time: None, date: Some(date.to_string()) },
    }
}

fn down() -> String {
    "down".to_string()
}

fn begin() -> SnapshotFetch<f64> {
    let client =
        HaClient::from_environment(Some("http://ha".to_string()), Some("t".to_string())).unwrap();
    let (fetch, action) = SnapshotFetch::start(client);
    assert_eq!(url(&action), "http://ha/api/states");
    fetch
}

fn url(action: &FetchAction<f64>) -> String {
    match action {
        FetchAction::Ask(request) => request.url.clone(),
        FetchAction::AskWindow => "clock".to_string(),
        FetchAction::Done(_) => "done".to_string(),
    }
}

fn done(action: FetchAction<f64>) -> Result<DashboardSnapshot<f64>, String> {
    match action {
        FetchAction::Done(result) => result,
        other => panic!("not done: {other:?}"),
    }
}

fn window() -> FetchEvent<f64> {
    FetchEvent::Window("now".to_string(), "later".to_string())
}

#[test]
fn a_fetch_asks_for_everything_in_order() {
    let mut fetch = begin();
    let action = fetch.step(FetchEvent::States(Ok(vec![entity("weather.kmco", "sunny")])));
    let FetchAction::Ask(request) = &action else { panic!("a request is due") };
    assert_eq!(request.url, "http://ha/api/services/weather/get_forecasts?return_response");
    assert_eq!(
        request.body,
        Some(vec![
            ("entity_id", FieldValue::Text("weather.kmco".to_string())),
            ("type", FieldValue::Text("daily".to_string())),
        ])
    );
    let forecast = HaForecast {
        entity_id: "weather.kmco".to_string(),
        temperatures: vec![Some(91.0)],
    };
    assert_eq!(url(&fetch.step(FetchEvent::Forecast(Ok(vec![forecast])))), "clock");
    assert_eq!(url(&fetch.step(window())), "http://ha/api/calendars");
    let calendars = vec![
        calendar("calendar.a", "A"),
        calendar("calendar.b", "B"),
        calendar("calendar.c", "C"),
    ];
    let action = fetch.step(FetchEvent::Calendars(Ok(calendars)));
    let FetchAction::Ask(request) = &action else { panic!("a request is due") };
    assert_eq!(request.url, "http://ha/api/calendars/calendar.a");
    assert_eq!(
        request.query,
        vec![("start", "now".to_string()), ("end", "later".to_string())]
    );
    let action = fetch.step(FetchEvent::Events(Ok(vec![event("Fair", "2026-07-19")])));
    assert_eq!(url(&action), "http://ha/api/calendars/calendar.b");
    let action = fetch.step(FetchEvent::Events(Err(down())));
    assert_eq!(url(&action), "http://ha/api/calendars/calendar.c");
    let action = fetch.step(FetchEvent::Events(Ok(vec![event("Trip", "2026-07-18")])));
    assert_eq!(fetch.stage, FetchStage::Over);
    let snapshot = done(action).unwrap();
    assert_eq!(snapshot.outside_high, Some(91.0));
    assert_eq!(snapshot.outside_temperature, Some(70.0));
    assert_eq!(snapshot.weather_kind, "sun");
    let listed: Vec<(&str, &str)> = snapshot
        .calendar_events
        .iter()
        .map(|event| (event.summary.as_str(), event.calendar.as_str()))
        .collect();
    assert_eq!(listed, vec![("Trip", "C"), ("Fair", "A")]);
}

#[test]
fn a_fetch_fails_without_states_or_weather() {
    assert_eq!(done(begin().step(FetchEvent::States(Err(down())))), Err(down()));
    let states = vec![entity("sun.sun", "above_horizon")];
    assert_eq!(
        done(begin().step(FetchEvent::States(Ok(states)))),
        Err("weather entity unavailable".to_string())
    );
}

#[test]
fn gaps_in_the_answers_do_not_fail_a_fetch() {
    let mut fetch = begin();
    fetch.step(FetchEvent::States(Ok(vec![entity("weather.forecast_home", "rainy")])));
    fetch.step(FetchEvent::Forecast(Err(down())));
    fetch.step(window());
    let snapshot = done(fetch.step(FetchEvent::Calendars(Err(down())))).unwrap();
    assert_eq!(snapshot.outside_high, None);
    assert!(snapshot.calendar_events.is_empty());

    let mut fetch = begin();
    fetch.step(FetchEvent::States(Ok(vec![entity("weather.forecast_home", "rainy")])));
    fetch.step(FetchEvent::Forecast(Ok(Vec::new())));
    fetch.step(window());
    let snapshot = done(fetch.step(FetchEvent::Calendars(Ok(Vec::new())))).unwrap();
    assert_eq!(snapshot.outside_high, None);
    assert!(snapshot.calendar_events.is_empty());
    assert_eq!(snapshot.weather_kind, "cloud-rain");
}
