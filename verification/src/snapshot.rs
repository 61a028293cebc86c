//! Snapshots of the home: before the first answer, for a demonstration, and from the states that
//! Home Assistant tells.

use vstd::prelude::*;

use crate::calendar;
use crate::calendar::CalendarEvent;
use crate::home;
use crate::home::{
    ClimateState, DashboardSnapshot, FanState, HaState, LightState, find_state,
};
use crate::labels;
use crate::labels::weather_kind;
use crate::text;
use crate::text::text_eq;

verus! {

// ---------------------------------------------------------------------------
// The devices of the home
// ---------------------------------------------------------------------------

/// The entity of the fan in the living room.
pub const LIVING_ROOM_FAN: &'static str = "fan.living_room";

/// The thermostats: the entity and the name of each.
pub open spec fn thermostat_roster() -> Seq<(Seq<char>, Seq<char>)> {
    seq![
        ("climate.office"@, "Office"@),
        ("climate.guest_room"@, "Guest"@),
        ("climate.living_room"@, "Living Room"@),
        ("climate.bedroom"@, "Bedroom"@),
        ("climate.upstairs"@, "Upstairs"@),
    ]
}

/// The lights: the entity and the name of each.
pub open spec fn light_roster() -> Seq<(Seq<char>, Seq<char>)> {
    seq![
        ("light.office_lamp"@, "Office Lamp"@),
        ("light.backyard_flood"@, "Backyard Flood"@),
        ("light.dining_room"@, "Dining"@),
        ("light.entryway"@, "Entryway"@),
        ("light.garage"@, "Garage"@),
        ("light.front_porch"@, "Front Porch"@),
        ("light.bedroom_hall"@, "Bedroom Hall"@),
        ("light.shower"@, "Shower"@),
        ("light.gallery"@, "Gallery"@),
        ("light.kitchen_island"@, "Kitchen Island"@),
        ("light.kitchen"@, "Kitchen"@),
        ("light.mudroom"@, "Mud Room"@),
        ("light.office"@, "Office"@),
        ("light.laundry"@, "Laundry"@),
        ("light.living_room"@, "Living Room"@),
        ("light.backyard"@, "Backyard"@),
        ("light.garage_outside"@, "Garage Outside"@),
        ("light.living_room_accent"@, "Living Room Accent"@),
        ("light.bathroom_vanity"@, "Bathroom Vanity"@),
        ("light.bedroom_fan_light"@, "Bedroom Fan"@),
    ]
}

/// The characters of a list of entities and names.
pub open spec fn roster_model(roster: Seq<(&'static str, &'static str)>) -> Seq<
    (Seq<char>, Seq<char>),
> {
    roster.map_values(|entry: (&'static str, &'static str)| (entry.0@, entry.1@))
}

/// The thermostats: the entity and the name of each.
pub fn thermostats() -> (r: Vec<(&'static str, &'static str)>)
    ensures
        roster_model(r@) == thermostat_roster(),
{
    let roster: Vec<(&'static str, &'static str)> = vec![
        ("climate.office", "Office"),
        ("climate.guest_room", "Guest"),
        ("climate.living_room", "Living Room"),
        ("climate.bedroom", "Bedroom"),
        ("climate.upstairs", "Upstairs"),
    ];
    assert(roster_model(roster@) =~= thermostat_roster());
    roster
}

/// The lights: the entity and the name of each.
pub fn lights() -> (r: Vec<(&'static str, &'static str)>)
    ensures
        roster_model(r@) == light_roster(),
{
    let roster: Vec<(&'static str, &'static str)> = vec![
        ("light.office_lamp", "Office Lamp"),
        ("light.backyard_flood", "Backyard Flood"),
        ("light.dining_room", "Dining"),
        ("light.entryway", "Entryway"),
        ("light.garage", "Garage"),
        ("light.front_porch", "Front Porch"),
        ("light.bedroom_hall", "Bedroom Hall"),
        ("light.shower", "Shower"),
        ("light.gallery", "Gallery"),
        ("light.kitchen_island", "Kitchen Island"),
        ("light.kitchen", "Kitchen"),
        ("light.mudroom", "Mud Room"),
        ("light.office", "Office"),
        ("light.laundry", "Laundry"),
        ("light.living_room", "Living Room"),
        ("light.backyard", "Backyard"),
        ("light.garage_outside", "Garage Outside"),
        ("light.living_room_accent", "Living Room Accent"),
        ("light.bathroom_vanity", "Bathroom Vanity"),
        ("light.bedroom_fan_light", "Bedroom Fan"),
    ];
    assert(roster_model(roster@) =~= light_roster());
    roster
}

// ---------------------------------------------------------------------------
// Devices
// ---------------------------------------------------------------------------

/// A thermostat that cannot be used, for the reason given.
pub open spec fn absent_climate<T>(
    entry: (Seq<char>, Seq<char>),
    reason: Seq<char>,
) -> home::ClimateModel<T> {
    home::ClimateModel {
        entity_id: entry.0,
        name: entry.1,
        current: None,
        target: None,
        mode: reason,
        action: reason,
        available: false,
        supports_heat: false,
        supports_cool: false,
        fan_mode: seq![],
        fan_modes: seq![],
    }
}

/// A light that cannot be used.
pub open spec fn absent_light(entry: (Seq<char>, Seq<char>)) -> home::LightModel {
    home::LightModel { entity_id: entry.0, name: entry.1, on: false, available: false }
}

/// A device with this state can be used.
pub open spec fn usable(state: Seq<char>) -> bool {
    state != "unavailable"@ && state != "unknown"@
}

/// The text of an optional string, or the default where there is none.
pub open spec fn text_or(value: Option<String>, default: Seq<char>) -> Seq<char> {
    match value {
        Some(s) => s@,
        None => default,
    }
}

/// A thermostat by the state of its entity.
pub open spec fn climate_of<T>(
    entry: (Seq<char>, Seq<char>),
    found: Option<HaState<T>>,
) -> home::ClimateModel<T> {
    if found is Some && usable(found->0.state@) {
        let state = found->0;
        home::ClimateModel {
            entity_id: entry.0,
            name: entry.1,
            current: state.attributes.current_temperature,
            target: state.attributes.temperature,
            mode: state.state@,
            action: text_or(state.attributes.hvac_action, state.state@),
            available: true,
            supports_heat: text::texts(state.attributes.hvac_modes@).contains("heat"@),
            supports_cool: text::texts(state.attributes.hvac_modes@).contains("cool"@),
            fan_mode: text_or(state.attributes.fan_mode, seq![]),
            fan_modes: text::texts(state.attributes.fan_modes@),
        }
    } else {
        absent_climate(entry, "unavailable"@)
    }
}

/// A light by the state of its entity.
pub open spec fn light_of<T>(
    entry: (Seq<char>, Seq<char>),
    found: Option<HaState<T>>,
) -> home::LightModel {
    if found is Some && usable(found->0.state@) {
        home::LightModel {
            entity_id: entry.0,
            name: entry.1,
            on: found->0.state@ == "on"@,
            available: true,
        }
    } else {
        absent_light(entry)
    }
}

/// A fan by the state of its entity.
pub open spec fn fan_of<T>(found: Option<HaState<T>>) -> FanState {
    if found is Some && usable(found->0.state@) {
        FanState { on: found->0.state@ == "on"@, available: true }
    } else {
        FanState { on: false, available: false }
    }
}

/// A thermostat that cannot be used, for the reason given.
fn missing_thermostat<T>(entity_id: &str, name: &str, reason: &str) -> (r: ClimateState<T>)
    ensures
        r@ == absent_climate::<T>((entity_id@, name@), reason@),
{
    let missing = ClimateState {
        entity_id: entity_id.to_owned(),
        name: name.to_owned(),
        current: None,
        target: None,
        mode: reason.to_owned(),
        action: reason.to_owned(),
        available: false,
        supports_heat: false,
        supports_cool: false,
        fan_mode: String::new(),
        fan_modes: Vec::new(),
    };
    assert(missing@.fan_modes =~= Seq::<Seq<char>>::empty());
    missing
}

/// Whether a device with this state can be used.
fn is_usable(state: &str) -> (r: bool)
    ensures
        r == usable(state@),
{
    !text_eq(state, "unavailable") && !text_eq(state, "unknown")
}

/// Whether a word is in a list.
fn lists(words: &Vec<String>, word: &str) -> (r: bool)
    ensures
        r == text::texts(words@).contains(word@),
{
    let mut i: usize = 0;
    while i < words.len()
        invariant
            i <= words@.len(),
            forall|j: int| 0 <= j < i ==> (#[trigger] words@[j])@ != word@,
        decreases words@.len() - i,
    {
        if text_eq(&words[i], word) {
            assert(text::texts(words@)[i as int] == word@);
            return true;
        }
        i = i + 1;
    }
    assert(!text::texts(words@).contains(word@)) by {
        if text::texts(words@).contains(word@) {
            let k = choose|k: int|
                0 <= k < text::texts(words@).len() && text::texts(words@)[k] == word@;
            assert(words@[k]@ == word@);
        }
    }
    false
}

/// A thermostat by the state of its entity.
pub fn thermostat_from<T: Copy>(entity_id: &str, name: &str, found: Option<&HaState<T>>) -> (r:
    ClimateState<T>)
    ensures
        r@ == climate_of(
            (entity_id@, name@),
            match found {
                Some(state) => Some(*state),
                None => None,
            },
        ),
{
    let state: &HaState<T> = match found {
        Some(state) => state,
        None => {
            return missing_thermostat(entity_id, name, "unavailable");
        },
    };
    if !is_usable(&state.state) {
        return missing_thermostat(entity_id, name, "unavailable");
    }
    let action = match &state.attributes.hvac_action {
        Some(action) => action.clone(),
        None => state.state.clone(),
    };
    let fan_mode = match &state.attributes.fan_mode {
        Some(fan_mode) => fan_mode.clone(),
        None => String::new(),
    };
    let fan_modes = state.attributes.fan_modes.clone();
    assert(text::texts(fan_modes@) =~= text::texts(state.attributes.fan_modes@));
    ClimateState {
        entity_id: entity_id.to_owned(),
        name: name.to_owned(),
        current: state.attributes.current_temperature,
        target: state.attributes.temperature,
        mode: state.state.clone(),
        action,
        available: true,
        supports_heat: lists(&state.attributes.hvac_modes, "heat"),
        supports_cool: lists(&state.attributes.hvac_modes, "cool"),
        fan_mode,
        fan_modes,
    }
}

/// A light by the state of its entity.
pub fn light_from<T>(entity_id: &str, name: &str, found: Option<&HaState<T>>) -> (r: LightState)
    ensures
        r@ == light_of(
            (entity_id@, name@),
            match found {
                Some(state) => Some(*state),
                None => None,
            },
        ),
{
    let (on, available) = match found {
        Some(state) => if is_usable(&state.state) {
            (text_eq(&state.state, "on"), true)
        } else {
            (false, false)
        },
        None => (false, false),
    };
    LightState { entity_id: entity_id.to_owned(), name: name.to_owned(), on, available }
}

/// A fan by the state of its entity.
pub fn fan_from<T>(found: Option<&HaState<T>>) -> (r: FanState)
    ensures
        r == fan_of(
            match found {
                Some(state) => Some(*state),
                None => None::<HaState<T>>,
            },
        ),
{
    match found {
        Some(state) => if is_usable(&state.state) {
            FanState { on: text_eq(&state.state, "on"), available: true }
        } else {
            FanState { on: false, available: false }
        },
        None => FanState { on: false, available: false },
    }
}

// ---------------------------------------------------------------------------
// Snapshots
// ---------------------------------------------------------------------------

/// The snapshot that is shown before Home Assistant has answered.
pub open spec fn loading_snapshot<T>() -> home::SnapshotModel<T> {
    home::SnapshotModel {
        outside_temperature: None,
        outside_high: None,
        outside_condition: "Connecting"@,
        weather_kind: "cloud"@,
        thermostats: thermostat_roster().map_values(
            |entry: (Seq<char>, Seq<char>)| absent_climate::<T>(entry, "unknown"@),
        ),
        living_fan: FanState { on: false, available: false },
        lights: light_roster().map_values(|entry: (Seq<char>, Seq<char>)| absent_light(entry)),
        calendar_events: seq![],
    }
}

/// The entity that tells the weather.
pub open spec fn weather_state<T>(states: Seq<HaState<T>>) -> Option<HaState<T>> {
    if home::state_of(states, "weather.forecast_home"@) is Some {
        home::state_of(states, "weather.forecast_home"@)
    } else {
        home::state_of(states, "weather.kmco"@)
    }
}

/// The sun is below the horizon.
pub open spec fn night<T>(states: Seq<HaState<T>>) -> bool {
    home::state_of(states, "sun.sun"@) matches Some(sun) && sun.state@ == "below_horizon"@
}

/// The snapshot of the home in given states, of which one tells the weather.
pub open spec fn snapshot_of<T>(
    states: Seq<HaState<T>>,
    outside_high: Option<T>,
    events: Seq<calendar::EventModel>,
) -> home::SnapshotModel<T> {
    let weather = weather_state(states)->0;
    home::SnapshotModel {
        outside_temperature: weather.attributes.temperature,
        outside_high,
        outside_condition: weather.state@,
        weather_kind: labels::weather_icon(weather.state@, night(states)),
        thermostats: thermostat_roster().map_values(
            |entry: (Seq<char>, Seq<char>)| climate_of(entry, home::state_of(states, entry.0)),
        ),
        living_fan: fan_of(home::state_of(states, LIVING_ROOM_FAN@)),
        lights: light_roster().map_values(
            |entry: (Seq<char>, Seq<char>)| light_of(entry, home::state_of(states, entry.0)),
        ),
        calendar_events: events,
    }
}

/// The entity that tells the weather.
pub fn weather_entity<'a, T>(states: &'a Vec<HaState<T>>) -> (r: Result<&'a HaState<T>, String>)
    ensures
        r is Ok <==> weather_state(states@) is Some,
        r matches Ok(weather) ==> weather_state(states@) == Some(*weather),
        r matches Err(error) ==> error@ == "weather entity unavailable"@,
{
    if let Some(weather) = find_state(states, "weather.forecast_home") {
        return Ok(weather);
    }
    match find_state(states, "weather.kmco") {
        Some(weather) => Ok(weather),
        None => Err("weather entity unavailable".to_owned()),
    }
}

/// The value, or nothing where it could not be had.
pub open spec fn high_or_none<T>(high: Result<Option<T>, String>) -> Option<T> {
    match high {
        Ok(value) => value,
        Err(_) => None,
    }
}

/// The events, or none where they could not be had.
pub open spec fn events_or_none(events: Result<Vec<CalendarEvent>, String>) -> Seq<
    calendar::EventModel,
> {
    match events {
        Ok(list) => calendar::event_models(list@),
        Err(_) => seq![],
    }
}

impl<T: Copy> DashboardSnapshot<T> {
    /// The snapshot that is shown before Home Assistant has answered.
    pub fn loading() -> (r: DashboardSnapshot<T>)
        ensures
            r@ == loading_snapshot::<T>(),
    {
        let roster = thermostats();
        let mut rooms: Vec<ClimateState<T>> = Vec::new();
        let mut i: usize = 0;
        while i < roster.len()
            invariant
                i <= roster@.len(),
                roster_model(roster@) == thermostat_roster(),
                rooms@.len() == i,
                forall|j: int|
                    0 <= j < i ==> (#[trigger] rooms@[j])@ == absent_climate::<T>(
                        thermostat_roster()[j],
                        "unknown"@,
                    ),
            decreases roster@.len() - i,
        {
            let (entity_id, name) = roster[i];
            assert(roster_model(roster@)[i as int] == (entity_id@, name@));
            rooms.push(missing_thermostat(entity_id, name, "unknown"));
            i = i + 1;
        }
        assert(home::climate_models(rooms@) =~= loading_snapshot::<T>().thermostats);

        let fixtures = lights();
        let mut lamps: Vec<LightState> = Vec::new();
        let mut k: usize = 0;
        while k < fixtures.len()
            invariant
                k <= fixtures@.len(),
                roster_model(fixtures@) == light_roster(),
                lamps@.len() == k,
                forall|j: int|
                    0 <= j < k ==> (#[trigger] lamps@[j])@ == absent_light(light_roster()[j]),
            decreases fixtures@.len() - k,
        {
            let (entity_id, name) = fixtures[k];
            assert(roster_model(fixtures@)[k as int] == (entity_id@, name@));
            lamps.push(
                LightState {
                    entity_id: entity_id.to_owned(),
                    name: name.to_owned(),
                    on: false,
                    available: false,
                },
            );
            k = k + 1;
        }
        assert(home::light_models(lamps@) =~= loading_snapshot::<T>().lights);

        let snapshot = DashboardSnapshot {
            outside_temperature: None,
            outside_high: None,
            outside_condition: "Connecting".to_owned(),
            weather_kind: "cloud".to_owned(),
            thermostats: rooms,
            living_fan: FanState { on: false, available: false },
            lights: lamps,
            calendar_events: Vec::new(),
        };
        assert(snapshot@.calendar_events =~= Seq::<calendar::EventModel>::empty());
        snapshot
    }
}

/// The snapshot of the home. Without an entity that tells the weather there is none; a forecast
/// or events that could not be had are left out of it.
pub fn assemble_snapshot<T: Copy>(
    states: &Vec<HaState<T>>,
    outside_high: Result<Option<T>, String>,
    calendar_events: Result<Vec<CalendarEvent>, String>,
) -> (r: Result<DashboardSnapshot<T>, String>)
    ensures
        r is Ok <==> weather_state(states@) is Some,
        r matches Ok(snapshot) ==> snapshot@ == snapshot_of(
            states@,
            high_or_none(outside_high),
            events_or_none(calendar_events),
        ),
        r matches Err(error) ==> error@ == "weather entity unavailable"@,
{
    let weather: &HaState<T> = match weather_entity(states) {
        Ok(weather) => weather,
        Err(error) => {
            return Err(error);
        },
    };
    let is_night = match find_state(states, "sun.sun") {
        Some(sun) => text_eq(&sun.state, "below_horizon"),
        None => false,
    };
    let outside_high: Option<T> = match outside_high {
        Ok(high) => high,
        Err(_) => None,
    };

    let roster = thermostats();
    let mut rooms: Vec<ClimateState<T>> = Vec::new();
    let mut i: usize = 0;
    while i < roster.len()
        invariant
            i <= roster@.len(),
            roster_model(roster@) == thermostat_roster(),
            rooms@.len() == i,
            forall|j: int|
                0 <= j < i ==> (#[trigger] rooms@[j])@ == climate_of(
                    thermostat_roster()[j],
                    home::state_of(states@, thermostat_roster()[j].0),
                ),
        decreases roster@.len() - i,
    {
        let (entity_id, name) = roster[i];
        assert(roster_model(roster@)[i as int] == (entity_id@, name@));
        rooms.push(thermostat_from(entity_id, name, find_state(states, entity_id)));
        i = i + 1;
    }
    assert(home::climate_models(rooms@) =~= snapshot_of(
        states@,
        outside_high,
        seq![],
    ).thermostats);

    let living_fan = fan_from(find_state(states, LIVING_ROOM_FAN));

    let fixtures = lights();
    let mut lamps: Vec<LightState> = Vec::new();
    let mut k: usize = 0;
    while k < fixtures.len()
        invariant
            k <= fixtures@.len(),
            roster_model(fixtures@) == light_roster(),
            lamps@.len() == k,
            forall|j: int|
                0 <= j < k ==> (#[trigger] lamps@[j])@ == light_of(
                    light_roster()[j],
                    home::state_of(states@, light_roster()[j].0),
                ),
        decreases fixtures@.len() - k,
    {
        let (entity_id, name) = fixtures[k];
        assert(roster_model(fixtures@)[k as int] == (entity_id@, name@));
        lamps.push(light_from(entity_id, name, find_state(states, entity_id)));
        k = k + 1;
    }
    assert(home::light_models(lamps@) =~= snapshot_of(states@, outside_high, seq![]).lights);

    let ghost listed = events_or_none(calendar_events);
    let calendar_events: Vec<CalendarEvent> = match calendar_events {
        Ok(events) => events,
        Err(_) => Vec::new(),
    };
    assert(calendar::event_models(calendar_events@) =~= listed);

    Ok(
        DashboardSnapshot {
            outside_temperature: weather.attributes.temperature,
            outside_high,
            outside_condition: weather.state.clone(),
            weather_kind: weather_kind(&weather.state, is_night).to_owned(),
            thermostats: rooms,
            living_fan,
            lights: lamps,
            calendar_events,
        },
    )
}

// ---------------------------------------------------------------------------
// The demonstration
// ---------------------------------------------------------------------------

/// The thermostats of the demonstration: the temperatures, the mode and the fan mode of each.
pub open spec fn demo_climates() -> Seq<(i32, i32, Seq<char>, Seq<char>)> {
    seq![
        (78i32, 66i32, "cool"@, "Auto"@),
        (74i32, 66i32, "cool"@, "High"@),
        (74i32, 66i32, "cool"@, "High"@),
        (73i32, 66i32, "cool"@, "High"@),
        (75i32, 72i32, "cool"@, ""@),
    ]
}

/// `value` is what `degrees` makes of a whole number.
pub open spec fn reads<T, F: Fn(i32) -> T>(degrees: F, number: i32, value: Option<T>) -> bool {
    value is Some && call_ensures(degrees, (number,), value->0)
}

/// The fan modes of a thermostat of the demonstration; one without a fan mode has no fan.
pub open spec fn demo_fan_modes(fan_mode: Seq<char>) -> Seq<Seq<char>> {
    if fan_mode.len() == 0 {
        seq![]
    } else {
        seq!["Auto"@, "Low"@, "Med"@, "High"@]
    }
}

/// `climate` is the thermostat of the demonstration at a place of the list.
pub open spec fn is_demo_climate<T, F: Fn(i32) -> T>(
    degrees: F,
    place: int,
    climate: home::ClimateModel<T>,
) -> bool {
    let (current, target, mode, fan_mode) = demo_climates()[place];
    &&& reads(degrees, current, climate.current)
    &&& reads(degrees, target, climate.target)
    &&& climate == home::ClimateModel {
        entity_id: thermostat_roster()[place].0,
        name: thermostat_roster()[place].1,
        current: climate.current,
        target: climate.target,
        mode,
        action: mode,
        available: true,
        supports_heat: true,
        supports_cool: true,
        fan_mode,
        fan_modes: demo_fan_modes(fan_mode),
    }
}

/// The light of the demonstration at a place of the list: the first and every sixth one is on.
pub open spec fn demo_light(place: int) -> home::LightModel {
    home::LightModel {
        entity_id: light_roster()[place].0,
        name: light_roster()[place].1,
        on: place % 6 == 0,
        available: true,
    }
}

/// The event of the demonstration.
pub open spec fn demo_event() -> calendar::EventModel {
    calendar::EventModel {
        summary: "Dinner with friends"@,
        date: "SUN JUL 19"@,
        time: "6:30 PM"@,
        calendar: "Family"@,
        sort_epoch: 0,
    }
}

/// `snapshot` is the one of the demonstration.
pub open spec fn is_demo_snapshot<T, F: Fn(i32) -> T>(
    degrees: F,
    snapshot: home::SnapshotModel<T>,
) -> bool {
    &&& reads(degrees, 77, snapshot.outside_temperature)
    &&& reads(degrees, 89, snapshot.outside_high)
    &&& snapshot.outside_condition == "partlycloudy"@
    &&& snapshot.weather_kind == "cloud-sun"@
    &&& snapshot.thermostats.len() == thermostat_roster().len()
    &&& forall|i: int|
        0 <= i < snapshot.thermostats.len() ==> is_demo_climate(
            degrees,
            i,
            #[trigger] snapshot.thermostats[i],
        )
    &&& snapshot.living_fan == FanState { on: true, available: true }
    &&& snapshot.lights == Seq::new(light_roster().len(), |i: int| demo_light(i))
    &&& snapshot.calendar_events == seq![demo_event()]
}

/// The fan modes of a thermostat of the demonstration.
fn demo_fan_mode_list(fan_mode: &str) -> (r: Vec<String>)
    ensures
        text::texts(r@) == demo_fan_modes(fan_mode@),
{
    let mut modes: Vec<String> = Vec::new();
    if !fan_mode.is_empty() {
        modes.push("Auto".to_owned());
        modes.push("Low".to_owned());
        modes.push("Med".to_owned());
        modes.push("High".to_owned());
    }
    assert(text::texts(modes@) =~= demo_fan_modes(fan_mode@));
    modes
}

impl<T: Copy> DashboardSnapshot<T> {
    /// The snapshot of the demonstration, with temperatures that `degrees` makes of whole numbers.
    pub fn demo<F: Fn(i32) -> T>(degrees: F) -> (r: DashboardSnapshot<T>)
        requires
            forall|n: i32| #[trigger] call_requires(degrees, (n,)),
        ensures
            is_demo_snapshot(degrees, r@),
    {
        let climates: Vec<(i32, i32, &'static str, &'static str)> = vec![
            (78, 66, "cool", "Auto"),
            (74, 66, "cool", "High"),
            (74, 66, "cool", "High"),
            (73, 66, "cool", "High"),
            (75, 72, "cool", ""),
        ];
        let roster = thermostats();
        assert(roster@.len() == thermostat_roster().len()) by {
            assert(roster_model(roster@).len() == roster@.len());
        }
        let mut rooms: Vec<ClimateState<T>> = Vec::new();
        let mut i: usize = 0;
        while i < roster.len()
            invariant
                i <= roster@.len(),
                roster_model(roster@) == thermostat_roster(),
                climates@.len() == roster@.len(),
                forall|j: int|
                    0 <= j < climates@.len() ==> demo_climates()[j] == (
                        (#[trigger] climates@[j]).0,
                        climates@[j].1,
                        climates@[j].2@,
                        climates@[j].3@,
                    ),
                forall|n: i32| #[trigger] call_requires(degrees, (n,)),
                rooms@.len() == i,
                forall|j: int|
                    0 <= j < i ==> is_demo_climate(degrees, j, (#[trigger] rooms@[j])@),
            decreases roster@.len() - i,
        {
            let (entity_id, name) = roster[i];
            let (current, target, mode, fan_mode) = climates[i];
            assert(roster_model(roster@)[i as int] == (entity_id@, name@));
            rooms.push(
                ClimateState {
                    entity_id: entity_id.to_owned(),
                    name: name.to_owned(),
                    current: Some(degrees(current)),
                    target: Some(degrees(target)),
                    mode: mode.to_owned(),
                    action: mode.to_owned(),
                    available: true,
                    supports_heat: true,
                    supports_cool: true,
                    fan_mode: fan_mode.to_owned(),
                    fan_modes: demo_fan_mode_list(fan_mode),
                },
            );
            i = i + 1;
        }

        let fixtures = lights();
        let mut lamps: Vec<LightState> = Vec::new();
        let mut k: usize = 0;
        while k < fixtures.len()
            invariant
                k <= fixtures@.len(),
                roster_model(fixtures@) == light_roster(),
                lamps@.len() == k,
                forall|j: int| 0 <= j < k ==> (#[trigger] lamps@[j])@ == demo_light(j),
            decreases fixtures@.len() - k,
        {
            let (entity_id, name) = fixtures[k];
            assert(roster_model(fixtures@)[k as int] == (entity_id@, name@));
            lamps.push(
                LightState {
                    entity_id: entity_id.to_owned(),
                    name: name.to_owned(),
                    on: k % 6 == 0,
                    available: true,
                },
            );
            k = k + 1;
        }
        assert(home::light_models(lamps@) =~= Seq::new(light_roster().len(), |j: int| demo_light(j)));

        let mut events: Vec<CalendarEvent> = Vec::new();
        events.push(
            CalendarEvent {
                summary: "Dinner with friends".to_owned(),
                date: "SUN JUL 19".to_owned(),
                time: "6:30 PM".to_owned(),
                calendar: "Family".to_owned(),
                sort_epoch: 0,
            },
        );
        assert(calendar::event_models(events@) =~= seq![demo_event()]);

        DashboardSnapshot {
            outside_temperature: Some(degrees(77)),
            outside_high: Some(degrees(89)),
            outside_condition: "partlycloudy".to_owned(),
            weather_kind: "cloud-sun".to_owned(),
            thermostats: rooms,
            living_fan: FanState { on: true, available: true },
            lights: lamps,
            calendar_events: events,
        }
    }
}

// ---------------------------------------------------------------------------
// Consistency
// ---------------------------------------------------------------------------

/// A thermostat that cannot be used tells nothing and supports nothing.
pub open spec fn climate_is_consistent<T>(climate: home::ClimateModel<T>) -> bool {
    !climate.available ==> {
        &&& climate.current is None
        &&& climate.target is None
        &&& !climate.supports_heat
        &&& !climate.supports_cool
        &&& climate.fan_mode.len() == 0
        &&& climate.fan_modes.len() == 0
    }
}

/// A snapshot of this home: its thermostats and its lights are those of the home, in their order,
/// and what cannot be used is off.
pub open spec fn is_consistent<T>(snapshot: home::SnapshotModel<T>) -> bool {
    &&& snapshot.thermostats.len() == thermostat_roster().len()
    &&& forall|i: int|
        0 <= i < snapshot.thermostats.len() ==> {
            &&& (#[trigger] snapshot.thermostats[i]).entity_id == thermostat_roster()[i].0
            &&& snapshot.thermostats[i].name == thermostat_roster()[i].1
            &&& climate_is_consistent(snapshot.thermostats[i])
        }
    &&& snapshot.lights.len() == light_roster().len()
    &&& forall|i: int|
        0 <= i < snapshot.lights.len() ==> {
            &&& (#[trigger] snapshot.lights[i]).entity_id == light_roster()[i].0
            &&& snapshot.lights[i].name == light_roster()[i].1
            &&& snapshot.lights[i].on ==> snapshot.lights[i].available
        }
    &&& snapshot.living_fan.on ==> snapshot.living_fan.available
}

/// The first snapshot is consistent.
pub proof fn loading_is_consistent<T>()
    ensures
        is_consistent(loading_snapshot::<T>()),
{
}

/// The snapshot of any states is consistent, whatever could be had beside them.
pub proof fn assembled_is_consistent<T>(
    states: Seq<HaState<T>>,
    outside_high: Option<T>,
    events: Seq<calendar::EventModel>,
)
    ensures
        is_consistent(snapshot_of(states, outside_high, events)),
{
}

/// The snapshot of the demonstration is consistent.
pub proof fn demo_is_consistent<T, F: Fn(i32) -> T>(degrees: F, snapshot: home::SnapshotModel<T>)
    requires
        is_demo_snapshot(degrees, snapshot),
    ensures
        is_consistent(snapshot),
{
    assert forall|i: int| 0 <= i < snapshot.thermostats.len() implies {
        &&& (#[trigger] snapshot.thermostats[i]).entity_id == thermostat_roster()[i].0
        &&& snapshot.thermostats[i].name == thermostat_roster()[i].1
        &&& climate_is_consistent(snapshot.thermostats[i])
    } by {
        assert(is_demo_climate(degrees, i, snapshot.thermostats[i]));
    }
}

/// States of entities that the dashboard does not show leave the snapshot as it is.
pub proof fn other_entities_do_not_matter<T>(
    states: Seq<HaState<T>>,
    state: HaState<T>,
    outside_high: Option<T>,
    events: Seq<calendar::EventModel>,
)
    requires
        weather_state(states) is Some,
        state.entity_id@ != "weather.forecast_home"@,
        state.entity_id@ != "weather.kmco"@,
        state.entity_id@ != "sun.sun"@,
        state.entity_id@ != LIVING_ROOM_FAN@,
        forall|i: int|
            0 <= i < thermostat_roster().len() ==> state.entity_id@ != (
            #[trigger] thermostat_roster()[i]).0,
        forall|i: int|
            0 <= i < light_roster().len() ==> state.entity_id@ != (#[trigger] light_roster()[i]).0,
    ensures
        snapshot_of(states.push(state), outside_high, events) == snapshot_of(
            states,
            outside_high,
            events,
        ),
{
    let more = states.push(state);
    assert(more.drop_last() =~= states);
    assert forall|id: Seq<char>| id != state.entity_id@ implies #[trigger] home::state_of(more, id)
        == home::state_of(states, id) by {}
    let a = snapshot_of(more, outside_high, events);
    let b = snapshot_of(states, outside_high, events);
    assert(a.thermostats =~= b.thermostats);
    assert(a.lights =~= b.lights);
}

/// Of two states of an entity the later one counts.
pub proof fn the_later_state_counts<T>(states: Seq<HaState<T>>, state: HaState<T>)
    ensures
        home::state_of(states.push(state), state.entity_id@) == Some(state),
{
}

// ---------------------------------------------------------------------------
// What the states of the devices mean
// ---------------------------------------------------------------------------

/// A light can be used if and only if its entity has a state that is neither `unavailable` nor
/// `unknown`, and is on if and only if that state is `on`. So one that is off can be used.
pub proof fn a_light_that_is_off_can_be_used<T>(entry: (Seq<char>, Seq<char>), state: HaState<T>)
    ensures
        light_of(entry, Some(state)).available <==> state.state@ != "unavailable"@ && state.state@
            != "unknown"@,
        light_of(entry, Some(state)).on <==> state.state@ == "on"@,
        state.state@ == "off"@ ==> light_of(entry, Some(state)).available && !light_of(
            entry,
            Some(state),
        ).on,
        !light_of(entry, None::<HaState<T>>).available,
        !light_of(entry, None::<HaState<T>>).on,
        light_of(entry, Some(state)).entity_id == entry.0,
        light_of(entry, Some(state)).name == entry.1,
        light_of(entry, None::<HaState<T>>).entity_id == entry.0,
        light_of(entry, None::<HaState<T>>).name == entry.1,
{
    lemma_states_differ();
}

/// A fan can be used if and only if its entity has a state that is neither `unavailable` nor
/// `unknown`, and is on if and only if that state is `on`.
pub proof fn a_fan_that_is_off_can_be_used<T>(state: HaState<T>)
    ensures
        fan_of(Some(state)).available <==> state.state@ != "unavailable"@ && state.state@
            != "unknown"@,
        fan_of(Some(state)).on <==> state.state@ == "on"@,
        state.state@ == "off"@ ==> fan_of(Some(state)).available,
        !fan_of(None::<HaState<T>>).available,
        !fan_of(None::<HaState<T>>).on,
{
    lemma_states_differ();
}

/// The words for the states of a device are different words.
proof fn lemma_states_differ()
    ensures
        "on"@ != "unavailable"@,
        "on"@ != "unknown"@,
        "off"@ != "unavailable"@,
        "off"@ != "unknown"@,
        "off"@ != "on"@,
{
    reveal_strlit("on");
    reveal_strlit("off");
    reveal_strlit("unavailable");
    reveal_strlit("unknown");
    assert("on"@.len() == 2 && "off"@.len() == 3);
    assert("unavailable"@.len() == 11 && "unknown"@.len() == 7);
}

/// A thermostat can be used if and only if its entity has a state that is neither `unavailable`
/// nor `unknown`. One that can be used tells what its entity tells: the state is its mode, and its
/// action too unless the entity tells another; it heats or cools if the entity lists the mode.
pub proof fn a_thermostat_tells_what_its_entity_tells<T>(
    entry: (Seq<char>, Seq<char>),
    state: HaState<T>,
)
    ensures
        ({
            let climate = climate_of(entry, Some(state));
            &&& climate.entity_id == entry.0
            &&& climate.name == entry.1
            &&& climate.available <==> state.state@ != "unavailable"@ && state.state@ != "unknown"@
            &&& climate.available ==> {
                &&& climate.current == state.attributes.current_temperature
                &&& climate.target == state.attributes.temperature
                &&& climate.mode == state.state@
                &&& state.attributes.hvac_action is None ==> climate.action == state.state@
                &&& state.attributes.hvac_action matches Some(action) ==> climate.action == action@
                &&& climate.supports_heat <==> exists|i: int|
                    0 <= i < state.attributes.hvac_modes@.len() && (
                    #[trigger] state.attributes.hvac_modes@[i])@ == "heat"@
                &&& climate.supports_cool <==> exists|i: int|
                    0 <= i < state.attributes.hvac_modes@.len() && (
                    #[trigger] state.attributes.hvac_modes@[i])@ == "cool"@
                &&& state.attributes.fan_mode is None ==> climate.fan_mode.len() == 0
                &&& state.attributes.fan_mode matches Some(mode) ==> climate.fan_mode == mode@
                &&& climate.fan_modes.len() == state.attributes.fan_modes@.len()
                &&& forall|i: int|
                    0 <= i < climate.fan_modes.len() ==> #[trigger] climate.fan_modes[i]
                        == state.attributes.fan_modes@[i]@
            }
            &&& !climate.available ==> climate == climate_of(entry, None::<HaState<T>>)
        }),
{
    let modes = state.attributes.hvac_modes@;
    let listed = text::texts(modes);
    assert(forall|i: int| 0 <= i < modes.len() ==> #[trigger] listed[i] == modes[i]@);
    assert(forall|i: int| 0 <= i < modes.len() ==> listed[i] == (#[trigger] modes[i])@);
}

/// A thermostat without a usable state tells nothing, and is said to be unavailable.
pub proof fn a_missing_thermostat_tells_nothing<T>(entry: (Seq<char>, Seq<char>))
    ensures
        ({
            let climate = climate_of(entry, None::<HaState<T>>);
            &&& climate.entity_id == entry.0
            &&& climate.name == entry.1
            &&& !climate.available
            &&& climate.mode == "unavailable"@
            &&& climate.action == "unavailable"@
            &&& climate.current is None && climate.target is None
            &&& !climate.supports_heat && !climate.supports_cool
            &&& climate.fan_mode.len() == 0 && climate.fan_modes.len() == 0
        }),
{
}

/// The weather is told by the preferred entity if it has a state, else by the airport's.
pub proof fn the_preferred_weather_entity_counts<T>(states: Seq<HaState<T>>, state: HaState<T>)
    ensures
        state.entity_id@ == "weather.forecast_home"@ ==> weather_state(states.push(state)) == Some(
            state,
        ),
        state.entity_id@ == "weather.kmco"@ && (forall|i: int|
            0 <= i < states.len() ==> (#[trigger] states[i]).entity_id@ != "weather.forecast_home"@)
            ==> weather_state(states.push(state)) == Some(state),
        state.entity_id@ != "weather.forecast_home"@ && state.entity_id@ != "weather.kmco"@
            ==> weather_state(states.push(state)) == weather_state(states),
        state.entity_id@ == "weather.kmco"@ && (exists|i: int|
            0 <= i < states.len() && (#[trigger] states[i]).entity_id@ == "weather.forecast_home"@)
            ==> weather_state(states.push(state)) == weather_state(states),
        weather_state(Seq::<HaState<T>>::empty()) is None,
{
    reveal_strlit("weather.forecast_home");
    reveal_strlit("weather.kmco");
    assert("weather.forecast_home"@.len() == 21 && "weather.kmco"@.len() == 12);
    assert(states.push(state).drop_last() =~= states);
    home::a_state_is_found_if_there_is_one(states, "weather.forecast_home"@);
}

/// It is night if and only if the last state of the sun is below the horizon.
pub proof fn the_sun_makes_the_night<T>(states: Seq<HaState<T>>, state: HaState<T>)
    ensures
        state.entity_id@ == "sun.sun"@ ==> (night(states.push(state)) <==> state.state@
            == "below_horizon"@),
        state.entity_id@ != "sun.sun"@ ==> night(states.push(state)) == night(states),
        !night(Seq::<HaState<T>>::empty()),
{
    assert(states.push(state).drop_last() =~= states);
}

/// The devices of the home.
pub proof fn the_home_is_this_one()
    ensures
        thermostat_roster().len() == 5,
        thermostat_roster()[0] == ("climate.office"@, "Office"@),
        thermostat_roster()[1] == ("climate.guest_room"@, "Guest"@),
        thermostat_roster()[2] == ("climate.living_room"@, "Living Room"@),
        thermostat_roster()[3] == ("climate.bedroom"@, "Bedroom"@),
        thermostat_roster()[4] == ("climate.upstairs"@, "Upstairs"@),
        light_roster().len() == 20,
        light_roster()[0] == ("light.office_lamp"@, "Office Lamp"@),
        light_roster()[1] == ("light.backyard_flood"@, "Backyard Flood"@),
        light_roster()[2] == ("light.dining_room"@, "Dining"@),
        light_roster()[3] == ("light.entryway"@, "Entryway"@),
        light_roster()[4] == ("light.garage"@, "Garage"@),
        light_roster()[5] == ("light.front_porch"@, "Front Porch"@),
        light_roster()[6] == ("light.bedroom_hall"@, "Bedroom Hall"@),
        light_roster()[7] == ("light.shower"@, "Shower"@),
        light_roster()[8] == ("light.gallery"@, "Gallery"@),
        light_roster()[9] == ("light.kitchen_island"@, "Kitchen Island"@),
        light_roster()[10] == ("light.kitchen"@, "Kitchen"@),
        light_roster()[11] == ("light.mudroom"@, "Mud Room"@),
        light_roster()[12] == ("light.office"@, "Office"@),
        light_roster()[13] == ("light.laundry"@, "Laundry"@),
        light_roster()[14] == ("light.living_room"@, "Living Room"@),
        light_roster()[15] == ("light.backyard"@, "Backyard"@),
        light_roster()[16] == ("light.garage_outside"@, "Garage Outside"@),
        light_roster()[17] == ("light.living_room_accent"@, "Living Room Accent"@),
        light_roster()[18] == ("light.bathroom_vanity"@, "Bathroom Vanity"@),
        light_roster()[19] == ("light.bedroom_fan_light"@, "Bedroom Fan"@),
        LIVING_ROOM_FAN@ == "fan.living_room"@,
{
}

/// A snapshot shows each device by the last state of its entity, and the weather by the entity that
/// tells it.
pub proof fn a_snapshot_shows_the_last_states<T>(
    states: Seq<HaState<T>>,
    outside_high: Option<T>,
    events: Seq<calendar::EventModel>,
)
    requires
        weather_state(states) is Some,
    ensures
        ({
            let shown = snapshot_of(states, outside_high, events);
            let weather = weather_state(states)->0;
            &&& shown.outside_temperature == weather.attributes.temperature
            &&& shown.outside_high == outside_high
            &&& shown.outside_condition == weather.state@
            &&& shown.weather_kind == labels::weather_icon(weather.state@, night(states))
            &&& shown.calendar_events == events
            &&& shown.living_fan == fan_of(home::state_of(states, "fan.living_room"@))
            &&& shown.thermostats.len() == 5
            &&& forall|i: int|
                0 <= i < 5 ==> #[trigger] shown.thermostats[i] == climate_of(
                    thermostat_roster()[i],
                    home::state_of(states, thermostat_roster()[i].0),
                )
            &&& shown.lights.len() == 20
            &&& forall|i: int|
                0 <= i < 20 ==> #[trigger] shown.lights[i] == light_of(
                    light_roster()[i],
                    home::state_of(states, light_roster()[i].0),
                )
        }),
{
}

/// Before Home Assistant has answered, nothing can be used and nothing is known.
pub proof fn nothing_is_known_while_loading<T>()
    ensures
        ({
            let shown = loading_snapshot::<T>();
            &&& shown.outside_temperature is None && shown.outside_high is None
            &&& shown.outside_condition == "Connecting"@
            &&& shown.weather_kind == "cloud"@
            &&& !shown.living_fan.on && !shown.living_fan.available
            &&& shown.calendar_events.len() == 0
            &&& shown.thermostats.len() == 5
            &&& forall|i: int|
                0 <= i < 5 ==> {
                    let climate = #[trigger] shown.thermostats[i];
                    &&& climate.entity_id == thermostat_roster()[i].0
                    &&& climate.name == thermostat_roster()[i].1
                    &&& climate.mode == "unknown"@ && climate.action == "unknown"@
                    &&& !climate.available && !climate.supports_heat && !climate.supports_cool
                    &&& climate.current is None && climate.target is None
                    &&& climate.fan_mode.len() == 0 && climate.fan_modes.len() == 0
                }
            &&& shown.lights.len() == 20
            &&& forall|i: int|
                0 <= i < 20 ==> {
                    let light = #[trigger] shown.lights[i];
                    &&& light.entity_id == light_roster()[i].0
                    &&& light.name == light_roster()[i].1
                    &&& !light.on && !light.available
                }
        }),
{
}

/// What the demonstration shows.
pub proof fn the_demonstration_shows_a_warm_afternoon<T, F: Fn(i32) -> T>(
    degrees: F,
    shown: home::SnapshotModel<T>,
)
    requires
        is_demo_snapshot(degrees, shown),
    ensures
        shown.outside_temperature matches Some(t) && call_ensures(degrees, (77i32,), t),
        shown.outside_high matches Some(t) && call_ensures(degrees, (89i32,), t),
        shown.outside_condition == "partlycloudy"@ && shown.weather_kind == "cloud-sun"@,
        shown.living_fan.on && shown.living_fan.available,
        shown.thermostats.len() == 5,
        forall|i: int|
            0 <= i < 5 ==> {
                let climate = #[trigger] shown.thermostats[i];
                &&& climate.entity_id == thermostat_roster()[i].0
                &&& climate.name == thermostat_roster()[i].1
                &&& climate.mode == "cool"@ && climate.action == "cool"@
                &&& climate.available && climate.supports_heat && climate.supports_cool
                &&& climate.current matches Some(t) && call_ensures(
                    degrees,
                    (if i == 0 {
                        78i32
                    } else if i == 3 {
                        73
                    } else if i == 4 {
                        75
                    } else {
                        74
                    },),
                    t,
                )
                &&& climate.target matches Some(t) && call_ensures(
                    degrees,
                    (if i == 4 {
                        72i32
                    } else {
                        66
                    },),
                    t,
                )
                &&& i == 0 ==> climate.fan_mode == "Auto"@
                &&& 1 <= i <= 3 ==> climate.fan_mode == "High"@
                &&& i <= 3 ==> climate.fan_modes == seq!["Auto"@, "Low"@, "Med"@, "High"@]
                &&& i == 4 ==> climate.fan_mode.len() == 0 && climate.fan_modes.len() == 0
            },
        shown.lights.len() == 20,
        forall|i: int|
            0 <= i < 20 ==> {
                let light = #[trigger] shown.lights[i];
                &&& light.entity_id == light_roster()[i].0
                &&& light.name == light_roster()[i].1
                &&& light.available
                &&& light.on <==> i == 0 || i == 6 || i == 12 || i == 18
            },
        shown.calendar_events.len() == 1,
        shown.calendar_events[0].summary == "Dinner with friends"@,
        shown.calendar_events[0].date == "SUN JUL 19"@,
        shown.calendar_events[0].time == "6:30 PM"@,
        shown.calendar_events[0].calendar == "Family"@,
        shown.calendar_events[0].sort_epoch == 0,
{
    reveal_strlit("");
    reveal_strlit("Auto");
    reveal_strlit("High");
    assert forall|i: int| 0 <= i < 5 implies is_demo_climate(
        degrees,
        i,
        #[trigger] shown.thermostats[i],
    ) by {}
    assert(forall|i: int| 0 <= i < 20 ==> #[trigger] shown.lights[i] == demo_light(i));
}

/// A forecast or events that could not be had are left out.
pub proof fn what_could_not_be_had_is_left_out<T>(
    high: Option<T>,
    events: Vec<CalendarEvent>,
    error: String,
)
    ensures
        high_or_none::<T>(Err(error)) is None,
        high_or_none(Ok::<Option<T>, String>(high)) == high,
        events_or_none(Err(error)).len() == 0,
        events_or_none(Ok(events)).len() == events@.len(),
        forall|i: int|
            0 <= i < events@.len() ==> #[trigger] events_or_none(Ok(events))[i] == events@[i]@,
{
}

/// A list of entities and names holds what it shows.
pub proof fn a_roster_holds_its_entries(roster: Seq<(&'static str, &'static str)>, i: int)
    requires
        0 <= i < roster.len(),
    ensures
        roster_model(roster).len() == roster.len(),
        roster_model(roster)[i] == (roster[i].0@, roster[i].1@),
{
}

} // verus!
