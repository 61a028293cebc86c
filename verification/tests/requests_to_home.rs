use kindle_dashboard::requests::{
    FieldValue, HaClient, HttpRequest, Method, POLL_INTERVAL_SECS, REQUEST_TIMEOUT_SECS,
};

fn client() -> HaClient {
    HaClient::from_environment(Some("http://ha:8123//".to_string()), Some("secret".to_string()))
        .unwrap()
}

fn text(value: &str) -> FieldValue<f64> {
    FieldValue::Text(value.to_string())
}

fn check_headers(request: &HttpRequest<f64>) {
    assert_eq!(
        request.headers,
        vec![
            ("Authorization", "Bearer secret".to_string()),
            ("Accept", "application/json".to_string()),
        ]
    );
}

#[test]
fn the_environment_configures_the_client() {
    assert_eq!(client().base_url, "http://ha:8123");
    assert_eq!(client().token, "secret");
    assert_eq!(client().clone(), client());
    let token = Some("secret".to_string());
    assert_eq!(
        HaClient::from_environment(None, token).unwrap_err(),
        "HASS_URL is not configured"
    );
    assert_eq!(
        HaClient::from_environment(Some(String::new()), None).unwrap_err(),
        "HASS_TOKEN is not configured"
    );
    assert_eq!(
        HaClient::from_environment(None, None).unwrap_err(),
        "HASS_URL is not configured"
    );
    assert_eq!(POLL_INTERVAL_SECS, 120);
    assert_eq!(REQUEST_TIMEOUT_SECS, 12);
}

#[test]
fn states_and_calendars_are_got() {
    let states: HttpRequest<f64> = client().get_all_states();
    assert_eq!(states.method, Method::Get);
    assert_eq!(states.url, "http://ha:8123/api/states");
    assert!(states.query.is_empty() && states.body.is_none());
    check_headers(&states);
    assert_eq!(states.failed("refused"), "states: refused");
    assert_eq!(states.invalid("no json"), "states: invalid response: no json");
    let calendars: HttpRequest<f64> = client().get_calendars();
    assert_eq!(calendars.url, "http://ha:8123/api/calendars");
    assert_eq!(calendars.failed("refused"), "calendars: refused");
}

#[test]
fn events_are_got_between_two_times() {
    let events: HttpRequest<f64> = client().get_calendar_events("calendar.family", "now", "later");
    assert_eq!(events.method, Method::Get);
    assert_eq!(events.url, "http://ha:8123/api/calendars/calendar.family");
    assert_eq!(events.query, vec![("start", "now".to_string()), ("end", "later".to_string())]);
    assert_eq!(events.body, None);
    check_headers(&events);
    assert_eq!(events.failed("refused"), "calendar.family: refused");
}

#[test]
fn the_forecast_is_asked_for_by_a_service_that_answers() {
    let forecast: HttpRequest<f64> = client().get_daily_high("weather.kmco");
    assert_eq!(forecast.method, Method::Post);
    assert_eq!(
        forecast.url,
        "http://ha:8123/api/services/weather/get_forecasts?return_response"
    );
    assert_eq!(
        forecast.body,
        Some(vec![("entity_id", text("weather.kmco")), ("type", text("daily"))])
    );
    check_headers(&forecast);
    assert_eq!(forecast.invalid("eof"), "weather.get_forecasts: invalid response: eof");
}

#[test]
fn services_are_called_with_their_fields() {
    let request = client().set_temperature("climate.office", 71.5);
    assert_eq!(request.method, Method::Post);
    assert_eq!(request.url, "http://ha:8123/api/services/climate/set_temperature");
    assert_eq!(
        request.body,
        Some(vec![("entity_id", text("climate.office")), ("temperature", FieldValue::Number(71.5))])
    );
    check_headers(&request);
    assert_eq!(request.failed("timeout"), "climate.set_temperature: timeout");

    let request: HttpRequest<f64> = client().set_mode("climate.office", "cool");
    assert_eq!(request.url, "http://ha:8123/api/services/climate/set_hvac_mode");
    assert_eq!(
        request.body,
        Some(vec![("entity_id", text("climate.office")), ("hvac_mode", text("cool"))])
    );

    let request: HttpRequest<f64> = client().set_fan_mode("climate.office", "High");
    assert_eq!(request.url, "http://ha:8123/api/services/climate/set_fan_mode");
    assert_eq!(
        request.body,
        Some(vec![("entity_id", text("climate.office")), ("fan_mode", text("High"))])
    );

    let request: HttpRequest<f64> = client().set_fan(true);
    assert_eq!(request.url, "http://ha:8123/api/services/fan/turn_on");
    assert_eq!(request.body, Some(vec![("entity_id", text("fan.living_room"))]));
    let request: HttpRequest<f64> = client().set_light("light.garage", false);
    assert_eq!(request.url, "http://ha:8123/api/services/light/turn_off");
    assert_eq!(request.body, Some(vec![("entity_id", text("light.garage"))]));
    assert_eq!(request.failed("timeout"), "light.turn_off: timeout");

    let request: HttpRequest<f64> = client().call_service("scene", "apply", Vec::new());
    assert_eq!(request.url, "http://ha:8123/api/services/scene/apply");
    assert_eq!(request.body, Some(Vec::new()));
}
