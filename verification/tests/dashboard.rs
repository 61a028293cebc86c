use kindle_dashboard::calendar::CalendarEvent;
use kindle_dashboard::controls::{
    Control, Outcome, saved_status, saving_status, selected_slot,
};
use kindle_dashboard::home::{
    DashboardSnapshot, FanState, HaAttributes, HaForecast, HaState, daily_high, find_state,
};
use kindle_dashboard::refresh::{Refreshed, refresh, same_snapshot, updated_at, updated_text};
use kindle_dashboard::snapshot::{
    assemble_snapshot, fan_from, light_from, lights, thermostat_from, thermostats, weather_entity,
};
use kindle_dashboard::view::{
    LightData, ThermostatData, calendar_model, format_temperature, light_model, lights_summary,
    next_event, selected_view, snapshot_view, thermostat_model,
};

fn degrees(number: i32) -> f64 {
    f64::from(number)
}

fn digits(temperature: f64) -> String {
    format!("{temperature:.0}")
}

fn plus(a: f64, b: f64) -> f64 {
    a + b
}

fn demo() -> DashboardSnapshot<f64> {
    DashboardSnapshot::demo(degrees)
}

fn bare() -> HaAttributes<f64> {
    HaAttributes {
        current_temperature: None,
        temperature: None,
        hvac_action: None,
        hvac_modes: Vec::new(),
        fan_mode: None,
        fan_modes: Vec::new(),
    }
}

fn entity(entity_id: &str, state: &str) -> HaState<f64> {
    HaState { entity_id: entity_id.to_string(), state: state.to_string(), attributes: bare() }
}

fn words(list: &[&str]) -> Vec<String> {
    list.iter().map(|word| word.to_string()).collect()
}

fn event(summary: &str) -> CalendarEvent {
    CalendarEvent {
        summary: summary.to_string(),
        date: "MON JUL 20".to_string(),
        time: "ALL DAY".to_string(),
        calendar: "Family".to_string(),
        sort_epoch: 86_400,
    }
}

#[test]
fn the_last_state_of_an_entity_counts() {
    let states = vec![entity("a", "1"), entity("b", "2"), entity("a", "3")];
    assert_eq!(find_state(&states, "a").unwrap().state, "3");
    assert_eq!(find_state(&states, "b").unwrap().state, "2");
    assert!(find_state(&states, "c").is_none());
}

#[test]
fn the_high_is_that_of_the_first_day() {
    let forecast = |entity_id: &str, temperatures: Vec<Option<f64>>| HaForecast {
        entity_id: entity_id.to_string(),
        temperatures,
    };
    let forecasts = vec![
        forecast("weather.kmco", vec![Some(90.0), Some(80.0)]),
        forecast("weather.none", vec![]),
        forecast("weather.unknown", vec![None, Some(1.0)]),
    ];
    assert_eq!(daily_high(&forecasts, "weather.kmco"), Some(90.0));
    assert_eq!(daily_high(&forecasts, "weather.none"), None);
    assert_eq!(daily_high(&forecasts, "weather.unknown"), None);
    assert_eq!(daily_high(&forecasts, "weather.other"), None);
}

#[test]
fn the_home_has_five_thermostats_and_twenty_lights() {
    assert_eq!(thermostats().len(), 5);
    assert_eq!(thermostats()[1], ("climate.guest_room", "Guest"));
    assert_eq!(lights().len(), 20);
    assert_eq!(lights()[19], ("light.bedroom_fan_light", "Bedroom Fan"));
}

#[test]
fn thermostats_tell_what_they_support() {
    let mut state = entity("climate.office", "cool");
    state.attributes.current_temperature = Some(74.5);
    state.attributes.temperature = Some(72.0);
    state.attributes.hvac_modes = words(&["off", "cool"]);
    state.attributes.fan_modes = words(&["Auto", "High"]);
    let thermostat = thermostat_from("climate.office", "Office", Some(&state));
    assert!(thermostat.available && thermostat.supports_cool && !thermostat.supports_heat);
    assert_eq!(thermostat.current, Some(74.5));
    assert_eq!(thermostat.target, Some(72.0));
    assert_eq!(thermostat.mode, "cool");
    assert_eq!(thermostat.action, "cool");
    assert_eq!(thermostat.fan_mode, "");
    assert_eq!(thermostat.fan_modes, words(&["Auto", "High"]));
    state.attributes.hvac_action = Some("idle".to_string());
    state.attributes.fan_mode = Some("Auto".to_string());
    let thermostat = thermostat_from("climate.office", "Office", Some(&state));
    assert_eq!(thermostat.action, "idle");
    assert_eq!(thermostat.fan_mode, "Auto");
}

#[test]
fn devices_without_a_usable_state_are_unavailable() {
    let unavailable = entity("x", "unavailable");
    let unknown = entity("x", "unknown");
    for found in [None, Some(&unavailable), Some(&unknown)] {
        let thermostat = thermostat_from("climate.office", "Office", found);
        assert!(!thermostat.available);
        assert_eq!(thermostat.mode, "unavailable");
        assert_eq!(thermostat.action, "unavailable");
        let light = light_from("light.garage", "Garage", found);
        assert!(!light.available && !light.on);
        assert_eq!(fan_from(found), FanState { on: false, available: false });
    }
    assert_eq!(fan_from(Some(&entity("x", "on"))), FanState { on: true, available: true });
    assert_eq!(fan_from(Some(&entity("x", "off"))), FanState { on: false, available: true });
    let light = light_from("light.garage", "Garage", Some(&entity("x", "on")));
    assert!(light.available && light.on);
    assert_eq!(light.entity_id, "light.garage");
    assert_eq!(light.name, "Garage");
}

#[test]
fn the_first_snapshot_shows_that_it_is_connecting() {
    let snapshot: DashboardSnapshot<f64> = DashboardSnapshot::loading();
    assert_eq!(snapshot.outside_condition, "Connecting");
    assert_eq!(snapshot.weather_kind, "cloud");
    assert_eq!(snapshot.thermostats.len(), 5);
    assert!(snapshot.thermostats.iter().all(|t| !t.available && t.mode == "unknown"));
    assert_eq!(snapshot.lights.len(), 20);
    assert!(snapshot.lights.iter().all(|l| !l.available && !l.on));
    assert!(snapshot.calendar_events.is_empty());
}

#[test]
fn the_demonstration_is_filled() {
    let snapshot = demo();
    assert_eq!(snapshot.outside_temperature, Some(77.0));
    assert_eq!(snapshot.outside_high, Some(89.0));
    assert_eq!(snapshot.thermostats[0].current, Some(78.0));
    assert_eq!(snapshot.thermostats[4].target, Some(72.0));
    assert_eq!(snapshot.thermostats[3].fan_mode, "High");
    assert_eq!(snapshot.thermostats[0].fan_modes, words(&["Auto", "Low", "Med", "High"]));
    assert!(snapshot.thermostats[4].fan_modes.is_empty());
    let on: Vec<usize> = (0..20).filter(|i| snapshot.lights[*i].on).collect();
    assert_eq!(on, vec![0, 6, 12, 18]);
    assert_eq!(snapshot.living_fan, FanState { on: true, available: true });
    assert_eq!(snapshot.calendar_events[0].summary, "Dinner with friends");
}

#[test]
fn the_weather_comes_from_the_preferred_entity() {
    let both = vec![entity("weather.kmco", "rainy"), entity("weather.forecast_home", "sunny")];
    assert_eq!(weather_entity(&both).unwrap().state, "sunny");
    let airport = vec![entity("weather.kmco", "rainy")];
    assert_eq!(weather_entity(&airport).unwrap().state, "rainy");
    let none: Vec<HaState<f64>> = Vec::new();
    assert_eq!(weather_entity(&none).unwrap_err(), "weather entity unavailable");
}

#[test]
fn a_snapshot_is_made_of_the_states() {
    let mut weather = entity("weather.forecast_home", "partlycloudy");
    weather.attributes.temperature = Some(71.0);
    let states = vec![
        entity("sun.sun", "below_horizon"),
        weather,
        entity("climate.office", "heat"),
        entity("light.garage", "on"),
        entity("light.kitchen", "unavailable"),
        entity("fan.living_room", "on"),
        entity("light.elsewhere", "on"),
    ];
    let snapshot = assemble_snapshot(&states, Ok(Some(80.0)), Ok(vec![event("Fair")])).unwrap();
    assert_eq!(snapshot.outside_temperature, Some(71.0));
    assert_eq!(snapshot.outside_high, Some(80.0));
    assert_eq!(snapshot.outside_condition, "partlycloudy");
    assert_eq!(snapshot.weather_kind, "cloud-moon");
    assert_eq!(snapshot.thermostats[0].mode, "heat");
    assert!(!snapshot.thermostats[1].available);
    assert_eq!(snapshot.living_fan, FanState { on: true, available: true });
    assert_eq!(snapshot.lights.iter().filter(|light| light.on).count(), 1);
    assert_eq!(snapshot.lights.iter().filter(|light| light.available).count(), 1);
    assert_eq!(snapshot.calendar_events, vec![event("Fair")]);
}

#[test]
fn a_snapshot_does_without_forecast_and_events_but_not_without_weather() {
    let states = vec![entity("weather.kmco", "fog")];
    let error = || "states: refused".to_string();
    let snapshot = assemble_snapshot(&states, Err(error()), Err(error())).unwrap();
    assert_eq!(snapshot.outside_high, None);
    assert!(snapshot.calendar_events.is_empty());
    assert_eq!(snapshot.weather_kind, "cloud-fog");
    let nothing: Vec<HaState<f64>> = Vec::new();
    assert_eq!(
        assemble_snapshot(&nothing, Ok(None), Ok(Vec::new())).unwrap_err(),
        "weather entity unavailable"
    );
}

#[test]
fn other_entities_leave_the_snapshot_as_it_is() {
    let mut states = vec![entity("weather.kmco", "fog"), entity("light.garage", "on")];
    let before = assemble_snapshot(&states, Ok(None), Ok(Vec::new())).unwrap();
    states.push(entity("sensor.noise", "12"));
    let after = assemble_snapshot(&states, Ok(None), Ok(Vec::new())).unwrap();
    assert!(same_snapshot(&before, &after));
    states.push(entity("light.garage", "off"));
    let later = assemble_snapshot(&states, Ok(None), Ok(Vec::new())).unwrap();
    assert!(!same_snapshot(&before, &later));
}

#[test]
fn snapshots_differ_in_any_part() {
    let base = demo();
    let changes: Vec<fn(&mut DashboardSnapshot<f64>)> = vec![
        |s| s.outside_temperature = None,
        |s| s.outside_high = Some(88.0),
        |s| s.outside_condition = "fog".to_string(),
        |s| s.weather_kind = "fog".to_string(),
        |s| s.living_fan.on = false,
        |s| s.thermostats[2].current = Some(1.0),
        |s| s.thermostats[2].target = None,
        |s| s.thermostats[2].entity_id = String::new(),
        |s| s.thermostats[2].name = String::new(),
        |s| s.thermostats[2].mode = String::new(),
        |s| s.thermostats[2].action = String::new(),
        |s| s.thermostats[2].available = false,
        |s| s.thermostats[2].supports_heat = false,
        |s| s.thermostats[2].supports_cool = false,
        |s| s.thermostats[2].fan_mode = String::new(),
        |s| s.thermostats[2].fan_modes[1] = String::new(),
        |s| s.thermostats[2].fan_modes.clear(),
        |s| s.thermostats.truncate(4),
        |s| s.lights[7].on = true,
        |s| s.lights[7].available = false,
        |s| s.lights[7].name = String::new(),
        |s| s.lights[7].entity_id = String::new(),
        |s| s.lights.truncate(19),
        |s| s.calendar_events[0].summary = String::new(),
        |s| s.calendar_events[0].date = String::new(),
        |s| s.calendar_events[0].time = String::new(),
        |s| s.calendar_events[0].calendar = String::new(),
        |s| s.calendar_events[0].sort_epoch = 1,
        |s| s.calendar_events.clear(),
    ];
    assert!(same_snapshot(&base, &base.clone()));
    for change in changes {
        let mut other = base.clone();
        change(&mut other);
        assert!(!same_snapshot(&base, &other));
        assert!(base != other);
    }
}

#[test]
fn a_refresh_takes_over_what_changed() {
    let mut current: DashboardSnapshot<f64> = DashboardSnapshot::loading();
    assert_eq!(refresh(&mut current, Ok(demo())), Refreshed::Changed);
    assert_eq!(current, demo());
    assert_eq!(refresh(&mut current, Ok(demo())), Refreshed::Unchanged);
    assert_eq!(current, demo());
    assert_eq!(
        refresh(&mut current, Err("states: down".to_string())),
        Refreshed::Failed("HOME ASSISTANT UNAVAILABLE")
    );
    assert_eq!(current, demo());
    assert_eq!(updated_text("6:30 PM"), "UPDATED 6:30 PM");
    assert_eq!(
        updated_at("2026-07-19T18:30:05.25-04:00"),
        Some("UPDATED 6:30 PM".to_string())
    );
    assert_eq!(updated_at("now"), None);
}

#[test]
fn a_temperature_that_is_no_number_counts_as_changed() {
    let mut current = demo();
    current.outside_high = Some(f64::NAN);
    let again = current.clone();
    assert_eq!(refresh(&mut current, Ok(again)), Refreshed::Changed);
}

#[test]
fn set_points_are_changed_by_degrees() {
    let mut snapshot = demo();
    assert_eq!(
        snapshot.change_target(4, -2, degrees, plus),
        Outcome::Accepted(("climate.upstairs".to_string(), 70.0))
    );
    assert_eq!(snapshot.thermostats[4].target, Some(70.0));
    snapshot.thermostats[4].target = None;
    assert_eq!(
        snapshot.change_target(4, 1, degrees, plus),
        Outcome::Accepted(("climate.upstairs".to_string(), 76.0))
    );
    snapshot.thermostats[4].target = None;
    snapshot.thermostats[4].current = None;
    assert_eq!(
        snapshot.change_target(4, 1, degrees, plus),
        Outcome::Accepted(("climate.upstairs".to_string(), 69.0))
    );
    assert_eq!(snapshot.thermostats[..4], demo().thermostats[..4]);
}

#[test]
fn thermostats_that_cannot_be_used_are_left_alone() {
    let mut snapshot: DashboardSnapshot<f64> = DashboardSnapshot::loading();
    let rejected = "THERMOSTAT UNAVAILABLE";
    assert_eq!(snapshot.change_target(0, 1, degrees, plus), Outcome::Rejected(rejected));
    assert_eq!(snapshot.set_mode(1, "off"), Outcome::Rejected(rejected));
    assert_eq!(snapshot.set_fan_mode(2, "auto"), Outcome::Rejected(rejected));
    assert_eq!(snapshot.change_target(5, 1, degrees, plus), Outcome::Ignored);
    assert_eq!(snapshot.set_mode(5, "off"), Outcome::Ignored);
    assert_eq!(snapshot.set_fan_mode(i32::MAX, "auto"), Outcome::Ignored);
    assert_eq!(snapshot.toggle_living_fan(), Outcome::Rejected("LIVING ROOM FAN UNAVAILABLE"));
    assert_eq!(snapshot.toggle_light(3), Outcome::Ignored);
    assert_eq!(snapshot.toggle_light(20), Outcome::Ignored);
    assert_eq!(snapshot, DashboardSnapshot::loading());
}

#[test]
fn modes_are_set_where_they_are_supported() {
    let mut snapshot = demo();
    snapshot.thermostats[0].supports_heat = false;
    let before = snapshot.clone();
    assert_eq!(snapshot.set_mode(-3, "heat"), Outcome::Rejected("MODE NOT SUPPORTED"));
    assert_eq!(snapshot.set_mode(0, "dry"), Outcome::Rejected("MODE NOT SUPPORTED"));
    assert_eq!(snapshot, before);
    assert_eq!(snapshot.set_mode(0, "off"), Outcome::Accepted("climate.office".to_string()));
    assert_eq!(snapshot.thermostats[0].mode, "off");
    assert_eq!(snapshot.thermostats[0].action, "off");
    assert_eq!(snapshot.set_mode(0, "cool"), Outcome::Accepted("climate.office".to_string()));
    snapshot.thermostats[0].supports_cool = false;
    assert_eq!(snapshot.set_mode(0, "cool"), Outcome::Rejected("MODE NOT SUPPORTED"));
}

#[test]
fn fan_modes_are_found_in_any_case_of_letters() {
    let mut snapshot = demo();
    assert_eq!(
        snapshot.set_fan_mode(1, "lOW"),
        Outcome::Accepted(("climate.guest_room".to_string(), "Low".to_string()))
    );
    assert_eq!(snapshot.thermostats[1].fan_mode, "Low");
    assert_eq!(
        snapshot.set_fan_mode(1, "Low"),
        Outcome::Accepted(("climate.guest_room".to_string(), "Low".to_string()))
    );
    assert_eq!(snapshot.set_fan_mode(1, "turbo"), Outcome::Rejected("FAN SPEED NOT SUPPORTED"));
    assert_eq!(snapshot.set_fan_mode(4, "Auto"), Outcome::Rejected("FAN SPEED NOT SUPPORTED"));
    snapshot.thermostats[0].fan_modes = words(&["AUTO", "auto"]);
    assert_eq!(
        snapshot.set_fan_mode(0, "auto"),
        Outcome::Accepted(("climate.office".to_string(), "AUTO".to_string()))
    );
}

#[test]
fn turning_twice_changes_nothing() {
    let mut snapshot = demo();
    assert_eq!(
        snapshot.toggle_light(6),
        Outcome::Accepted(("light.bedroom_hall".to_string(), false))
    );
    assert_eq!(snapshot.lights.iter().filter(|light| light.on).count(), 3);
    assert_eq!(
        snapshot.toggle_light(6),
        Outcome::Accepted(("light.bedroom_hall".to_string(), true))
    );
    assert_eq!(
        snapshot.toggle_light(-1),
        Outcome::Accepted(("light.office_lamp".to_string(), false))
    );
    snapshot.toggle_light(0);
    assert_eq!(snapshot.toggle_living_fan(), Outcome::Accepted(false));
    assert_eq!(snapshot.toggle_living_fan(), Outcome::Accepted(true));
    assert_eq!(snapshot, demo());
}

#[test]
fn every_control_has_its_statuses() {
    assert_eq!(selected_slot(-1), 0);
    assert_eq!(selected_slot(3), 3);
    let expected = [
        (Control::SetPoint, Some("SAVING SET POINT"), "SET POINT SAVED", "SET POINT FAILED"),
        (Control::Mode, Some("SAVING MODE"), "MODE SAVED", "MODE FAILED"),
        (Control::FanSpeed, Some("SAVING FAN SPEED"), "FAN SPEED SAVED", "FAN SPEED FAILED"),
        (
            Control::LivingFan,
            Some("UPDATING LIVING ROOM FAN"),
            "LIVING ROOM FAN UPDATED",
            "LIVING ROOM FAN FAILED",
        ),
        (Control::Light, None, "LIGHT UPDATED", "LIGHT UPDATE FAILED"),
    ];
    for (control, saving, saved, failed) in expected {
        assert_eq!(saving_status(control), saving);
        assert_eq!(saved_status(control, true), saved);
        assert_eq!(saved_status(control, false), failed);
    }
}

#[test]
fn temperatures_are_shown_in_whole_degrees() {
    assert_eq!(format_temperature(Some(71.6), &digits), "72\u{b0}");
    assert_eq!(format_temperature(None, &digits), "--");
}

#[test]
fn rows_show_the_devices() {
    let mut snapshot = demo();
    snapshot.thermostats[0].action = "fan_only".to_string();
    snapshot.thermostats[1].current = None;
    let rows = thermostat_model(&snapshot, &digits);
    assert_eq!(rows.len(), 5);
    assert_eq!(
        rows[0],
        ThermostatData {
            name: "Office".to_string(),
            current: "78\u{b0}".to_string(),
            target: "66\u{b0}".to_string(),
            state: "FAN ONLY".to_string(),
            available: true,
        }
    );
    assert_eq!(rows[1].current, "--");
    let rows = light_model(&snapshot);
    assert_eq!(rows.len(), 20);
    assert_eq!(
        rows[12],
        LightData { name: "Office".to_string(), on: true, available: true }
    );
    let rows = calendar_model(&snapshot);
    assert_eq!(rows.len(), 1);
    assert_eq!(rows[0].date, "SUN JUL 19");
    assert_eq!(rows[0].time, "6:30 PM");
    assert_eq!(rows[0].summary, "Dinner with friends");
    assert_eq!(rows[0].calendar, "Family");
}

#[test]
fn the_selected_thermostat_is_shown() {
    let snapshot = demo();
    let view = selected_view(&snapshot, 2, &digits).unwrap();
    assert_eq!(view.name, "Living Room");
    assert_eq!(view.target, "66\u{b0}");
    assert_eq!(view.mode, "COOL");
    assert!(view.supports_heat && view.supports_cool && view.supports_fan);
    assert_eq!(view.fan_mode, "HIGH");
    assert!(!selected_view(&snapshot, 4, &digits).unwrap().supports_fan);
    assert_eq!(selected_view(&snapshot, -1, &digits).unwrap().name, "Office");
    assert_eq!(selected_view(&snapshot, 5, &digits), None);
}

#[test]
fn lights_are_summed_up() {
    let mut snapshot = demo();
    assert_eq!(lights_summary(&snapshot), "4 ON / 20 AVAILABLE");
    snapshot.lights[1].available = false;
    assert_eq!(lights_summary(&snapshot), "4 ON / 19 AVAILABLE");
    let nothing: DashboardSnapshot<f64> = DashboardSnapshot::loading();
    assert_eq!(lights_summary(&nothing), "0 ON / 0 AVAILABLE");
}

#[test]
fn the_next_event_is_the_first_one() {
    let mut snapshot = demo();
    snapshot.calendar_events[0].calendar = "Stra\u{df}e".to_string();
    let next = next_event(&snapshot);
    assert_eq!(next.label, "NEXT / SUN JUL 19 / STRASSE");
    assert_eq!(next.title, "Dinner with friends");
    assert_eq!(next.time, "6:30 PM");
    snapshot.calendar_events.clear();
    let next = next_event(&snapshot);
    assert_eq!(next.label, "NEXT EVENT");
    assert_eq!(next.title, "NO UPCOMING EVENTS");
    assert_eq!(next.time, "");
}

#[test]
fn the_window_shows_the_snapshot() {
    let view = snapshot_view(&demo(), 1, Some("MCP DEMO DATA".to_string()), &digits);
    assert_eq!(view.outside_temperature, "77\u{b0}");
    assert_eq!(view.outside_high, "HIGH 89\u{b0}");
    assert_eq!(view.outside_condition, "PARTLY CLOUDY");
    assert_eq!(view.weather_kind, "cloud-sun");
    assert!(view.living_fan_on && view.living_fan_available);
    assert_eq!(view.next_event.label, "NEXT / SUN JUL 19 / FAMILY");
    assert_eq!(view.thermostats.len(), 5);
    assert_eq!(view.lights.len(), 20);
    assert_eq!(view.calendar_events.len(), 1);
    assert_eq!(view.lights_summary, "4 ON / 20 AVAILABLE");
    assert_eq!(view.selected.unwrap().name, "Guest");
    assert_eq!(view.updated_text, Some("MCP DEMO DATA".to_string()));
    let loading: DashboardSnapshot<f64> = DashboardSnapshot::loading();
    let view = snapshot_view(&loading, 9, None, &digits);
    assert_eq!(view.outside_temperature, "--");
    assert_eq!(view.outside_high, "HIGH --");
    assert_eq!(view.outside_condition, "CONNECTING");
    assert_eq!(view.selected, None);
    assert_eq!(view.updated_text, None);
}
