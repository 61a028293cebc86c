//! The state of the home, and the snapshot of it that the dashboard shows.
//!
//! Temperatures are of a type `T` that the library copies and compares and does not look into.

use vstd::prelude::*;

use crate::calendar;
use crate::calendar::CalendarEvent;
use crate::text;
use crate::text::text_eq;

verus! {

// ---------------------------------------------------------------------------
// What Home Assistant tells
// ---------------------------------------------------------------------------

/// The attributes of an entity.
#[derive(Debug, PartialEq)]
pub struct HaAttributes<T> {
    pub current_temperature: Option<T>,
    pub temperature: Option<T>,
    pub hvac_action: Option<String>,
    pub hvac_modes: Vec<String>,
    pub fan_mode: Option<String>,
    pub fan_modes: Vec<String>,
}

/// An entity and its state.
#[derive(Debug, PartialEq)]
pub struct HaState<T> {
    pub entity_id: String,
    pub state: String,
    pub attributes: HaAttributes<T>,
}

/// The daily forecast of a weather entity: the temperature of each day.
#[derive(Debug, PartialEq)]
pub struct HaForecast<T> {
    pub entity_id: String,
    pub temperatures: Vec<Option<T>>,
}

/// The last state of an entity in a list of states.
pub open spec fn state_of<T>(states: Seq<HaState<T>>, entity_id: Seq<char>) -> Option<HaState<T>>
    decreases states.len(),
{
    if states.len() == 0 {
        None
    } else if states.last().entity_id@ == entity_id {
        Some(states.last())
    } else {
        state_of(states.drop_last(), entity_id)
    }
}

/// The last state of an entity in a list of states.
pub fn find_state<'a, T>(states: &'a Vec<HaState<T>>, entity_id: &str) -> (r: Option<&'a HaState<T>>)
    ensures
        r is Some <==> state_of(states@, entity_id@) is Some,
        r matches Some(state) ==> state_of(states@, entity_id@) == Some(*state),
{
    let mut i: usize = states.len();
    assert(states@.take(i as int) =~= states@);
    while i > 0
        invariant
            i <= states@.len(),
            state_of(states@, entity_id@) == state_of(states@.take(i as int), entity_id@),
        decreases i,
    {
        let ghost front = states@.take(i as int);
        assert(front.drop_last() =~= states@.take(i - 1));
        i = i - 1;
        if text_eq(&states[i].entity_id, entity_id) {
            return Some(&states[i]);
        }
    }
    None
}

/// The last forecast for an entity in a list of forecasts.
pub open spec fn forecast_of<T>(forecasts: Seq<HaForecast<T>>, entity_id: Seq<char>) -> Option<
    HaForecast<T>,
>
    decreases forecasts.len(),
{
    if forecasts.len() == 0 {
        None
    } else if forecasts.last().entity_id@ == entity_id {
        Some(forecasts.last())
    } else {
        forecast_of(forecasts.drop_last(), entity_id)
    }
}

/// The temperature that is forecast for the first day.
pub open spec fn first_day<T>(forecast: Option<HaForecast<T>>) -> Option<T> {
    match forecast {
        Some(f) => if f.temperatures@.len() > 0 {
            f.temperatures@[0]
        } else {
            None
        },
        None => None,
    }
}

/// The temperature that is forecast for the first day at an entity.
pub fn daily_high<T: Copy>(forecasts: &Vec<HaForecast<T>>, entity_id: &str) -> (r: Option<T>)
    ensures
        r == first_day(forecast_of(forecasts@, entity_id@)),
{
    let mut i: usize = forecasts.len();
    assert(forecasts@.take(i as int) =~= forecasts@);
    while i > 0
        invariant
            i <= forecasts@.len(),
            forecast_of(forecasts@, entity_id@) == forecast_of(
                forecasts@.take(i as int),
                entity_id@,
            ),
        decreases i,
    {
        let ghost front = forecasts@.take(i as int);
        assert(front.drop_last() =~= forecasts@.take(i - 1));
        i = i - 1;
        let forecast = &forecasts[i];
        if text_eq(&forecast.entity_id, entity_id) {
            if forecast.temperatures.len() > 0 {
                return forecast.temperatures[0];
            }
            return None;
        }
    }
    None
}

// ---------------------------------------------------------------------------
// The snapshot
// ---------------------------------------------------------------------------

/// A thermostat.
#[derive(Debug, PartialEq)]
pub struct ClimateState<T> {
    pub entity_id: String,
    pub name: String,
    pub current: Option<T>,
    pub target: Option<T>,
    pub mode: String,
    pub action: String,
    pub available: bool,
    pub supports_heat: bool,
    pub supports_cool: bool,
    pub fan_mode: String,
    pub fan_modes: Vec<String>,
}

/// A fan.
#[derive(Clone, Copy, Debug, PartialEq, Eq, Structural)]
pub struct FanState {
    pub on: bool,
    pub available: bool,
}

/// A light.
#[derive(Debug, PartialEq)]
pub struct LightState {
    pub entity_id: String,
    pub name: String,
    pub on: bool,
    pub available: bool,
}

/// All that the dashboard shows of the home.
#[derive(Debug, PartialEq)]
pub struct DashboardSnapshot<T> {
    pub outside_temperature: Option<T>,
    pub outside_high: Option<T>,
    pub outside_condition: String,
    pub weather_kind: String,
    pub thermostats: Vec<ClimateState<T>>,
    pub living_fan: FanState,
    pub lights: Vec<LightState>,
    pub calendar_events: Vec<CalendarEvent>,
}

/// What a thermostat is.
#[verifier::ext_equal]
pub struct ClimateModel<T> {
    pub entity_id: Seq<char>,
    pub name: Seq<char>,
    pub current: Option<T>,
    pub target: Option<T>,
    pub mode: Seq<char>,
    pub action: Seq<char>,
    pub available: bool,
    pub supports_heat: bool,
    pub supports_cool: bool,
    pub fan_mode: Seq<char>,
    pub fan_modes: Seq<Seq<char>>,
}

/// What a light is.
#[verifier::ext_equal]
pub struct LightModel {
    pub entity_id: Seq<char>,
    pub name: Seq<char>,
    pub on: bool,
    pub available: bool,
}

/// What a snapshot is.
#[verifier::ext_equal]
pub struct SnapshotModel<T> {
    pub outside_temperature: Option<T>,
    pub outside_high: Option<T>,
    pub outside_condition: Seq<char>,
    pub weather_kind: Seq<char>,
    pub thermostats: Seq<ClimateModel<T>>,
    pub living_fan: FanState,
    pub lights: Seq<LightModel>,
    pub calendar_events: Seq<calendar::EventModel>,
}

impl<T> View for ClimateState<T> {
    type V = ClimateModel<T>;

    open spec fn view(&self) -> ClimateModel<T> {
        ClimateModel {
            entity_id: self.entity_id@,
            name: self.name@,
            current: self.current,
            target: self.target,
            mode: self.mode@,
            action: self.action@,
            available: self.available,
            supports_heat: self.supports_heat,
            supports_cool: self.supports_cool,
            fan_mode: self.fan_mode@,
            fan_modes: text::texts(self.fan_modes@),
        }
    }
}

impl View for LightState {
    type V = LightModel;

    open spec fn view(&self) -> LightModel {
        LightModel {
            entity_id: self.entity_id@,
            name: self.name@,
            on: self.on,
            available: self.available,
        }
    }
}

/// What each thermostat is.
pub open spec fn climate_models<T>(thermostats: Seq<ClimateState<T>>) -> Seq<ClimateModel<T>> {
    thermostats.map_values(|thermostat: ClimateState<T>| thermostat@)
}

/// What each light is.
pub open spec fn light_models(lights: Seq<LightState>) -> Seq<LightModel> {
    lights.map_values(|light: LightState| light@)
}

impl<T> View for DashboardSnapshot<T> {
    type V = SnapshotModel<T>;

    open spec fn view(&self) -> SnapshotModel<T> {
        SnapshotModel {
            outside_temperature: self.outside_temperature,
            outside_high: self.outside_high,
            outside_condition: self.outside_condition@,
            weather_kind: self.weather_kind@,
            thermostats: climate_models(self.thermostats@),
            living_fan: self.living_fan,
            lights: light_models(self.lights@),
            calendar_events: calendar::event_models(self.calendar_events@),
        }
    }
}

/// A copy of a list of strings.
fn copy_strings(strings: &Vec<String>) -> (r: Vec<String>)
    ensures
        text::texts(r@) == text::texts(strings@),
{
    let copy = strings.clone();
    assert(text::texts(copy@) =~= text::texts(strings@));
    copy
}

impl<T: Copy> Clone for ClimateState<T> {
    fn clone(&self) -> (r: ClimateState<T>)
        ensures
            r@ == self@,
    {
        ClimateState {
            entity_id: self.entity_id.clone(),
            name: self.name.clone(),
            current: self.current,
            target: self.target,
            mode: self.mode.clone(),
            action: self.action.clone(),
            available: self.available,
            supports_heat: self.supports_heat,
            supports_cool: self.supports_cool,
            fan_mode: self.fan_mode.clone(),
            fan_modes: copy_strings(&self.fan_modes),
        }
    }
}

impl Clone for LightState {
    fn clone(&self) -> (r: LightState)
        ensures
            r@ == self@,
    {
        LightState {
            entity_id: self.entity_id.clone(),
            name: self.name.clone(),
            on: self.on,
            available: self.available,
        }
    }
}

impl<T: Copy> Clone for DashboardSnapshot<T> {
    fn clone(&self) -> (r: DashboardSnapshot<T>)
        ensures
            r@ == self@,
    {
        let copy = DashboardSnapshot {
            outside_temperature: self.outside_temperature,
            outside_high: self.outside_high,
            outside_condition: self.outside_condition.clone(),
            weather_kind: self.weather_kind.clone(),
            thermostats: self.thermostats.clone(),
            living_fan: self.living_fan,
            lights: self.lights.clone(),
            calendar_events: self.calendar_events.clone(),
        };
        assert(climate_models(copy.thermostats@) =~= climate_models(self.thermostats@));
        assert(light_models(copy.lights@) =~= light_models(self.lights@));
        assert(calendar::event_models(copy.calendar_events@) =~= calendar::event_models(
            self.calendar_events@,
        ));
        copy
    }
}

// ---------------------------------------------------------------------------
// Laws
// ---------------------------------------------------------------------------

/// A state is found if and only if the entity has one.
pub proof fn a_state_is_found_if_there_is_one<T>(states: Seq<HaState<T>>, entity_id: Seq<char>)
    ensures
        state_of(states, entity_id) is Some <==> exists|i: int|
            0 <= i < states.len() && (#[trigger] states[i]).entity_id@ == entity_id,
    decreases states.len(),
{
    if states.len() > 0 {
        let front = states.drop_last();
        a_state_is_found_if_there_is_one(front, entity_id);
        assert(forall|i: int| 0 <= i < front.len() ==> #[trigger] front[i] == states[i]);
        assert(forall|i: int| 0 <= i < front.len() ==> front[i] == #[trigger] states[i]);
        assert(states.last() == states[states.len() - 1]);
    }
}

/// The state of an entity is the last one in the list, and only that entity's states count.
pub proof fn the_last_state_is_found<T>(
    states: Seq<HaState<T>>,
    entity_id: Seq<char>,
    at: int,
)
    requires
        0 <= at < states.len(),
        states[at].entity_id@ == entity_id,
        forall|i: int| at < i < states.len() ==> (#[trigger] states[i]).entity_id@ != entity_id,
    ensures
        state_of(states, entity_id) == Some(states[at]),
    decreases states.len(),
{
    if at < states.len() - 1 {
        let front = states.drop_last();
        assert(states.last() == states[states.len() - 1]);
        assert(forall|i: int| 0 <= i < front.len() ==> #[trigger] front[i] == states[i]);
        the_last_state_is_found(front, entity_id, at);
    }
}

/// The forecast for an entity is the last one in the list; without one there is no temperature, and
/// with one it is that of its first day.
pub proof fn the_first_day_of_the_forecast_counts<T>(
    forecasts: Seq<HaForecast<T>>,
    forecast: HaForecast<T>,
    entity_id: Seq<char>,
)
    ensures
        forecast.entity_id@ == entity_id ==> forecast_of(forecasts.push(forecast), entity_id)
            == Some(forecast),
        forecast.entity_id@ != entity_id ==> forecast_of(forecasts.push(forecast), entity_id)
            == forecast_of(forecasts, entity_id),
        forecast_of(Seq::<HaForecast<T>>::empty(), entity_id) is None,
        first_day(None::<HaForecast<T>>) is None,
        forecast.temperatures@.len() == 0 ==> first_day(Some(forecast)) is None,
        forecast.temperatures@.len() > 0 ==> first_day(Some(forecast)) == forecast.temperatures@[0],
{
    assert(forecasts.push(forecast).drop_last() =~= forecasts);
}

/// What a device is holds all that is known of it.
pub proof fn models_leave_nothing_out<T>(climate: ClimateState<T>, light: LightState)
    ensures
        climate@.entity_id == climate.entity_id@,
        climate@.name == climate.name@,
        climate@.current == climate.current,
        climate@.target == climate.target,
        climate@.mode == climate.mode@,
        climate@.action == climate.action@,
        climate@.available == climate.available,
        climate@.supports_heat == climate.supports_heat,
        climate@.supports_cool == climate.supports_cool,
        climate@.fan_mode == climate.fan_mode@,
        climate@.fan_modes.len() == climate.fan_modes@.len(),
        forall|i: int|
            0 <= i < climate.fan_modes@.len() ==> #[trigger] climate@.fan_modes[i]
                == climate.fan_modes@[i]@,
        light@.entity_id == light.entity_id@,
        light@.name == light.name@,
        light@.on == light.on,
        light@.available == light.available,
{
}

/// What a snapshot is holds all that it shows, each device in its place.
pub proof fn snapshot_models_leave_nothing_out<T>(snapshot: DashboardSnapshot<T>)
    ensures
        snapshot@.outside_temperature == snapshot.outside_temperature,
        snapshot@.outside_high == snapshot.outside_high,
        snapshot@.outside_condition == snapshot.outside_condition@,
        snapshot@.weather_kind == snapshot.weather_kind@,
        snapshot@.living_fan == snapshot.living_fan,
        snapshot@.thermostats.len() == snapshot.thermostats@.len(),
        forall|i: int|
            0 <= i < snapshot.thermostats@.len() ==> #[trigger] snapshot@.thermostats[i]
                == snapshot.thermostats@[i]@,
        snapshot@.lights.len() == snapshot.lights@.len(),
        forall|i: int|
            0 <= i < snapshot.lights@.len() ==> #[trigger] snapshot@.lights[i]
                == snapshot.lights@[i]@,
        snapshot@.calendar_events.len() == snapshot.calendar_events@.len(),
        forall|i: int|
            0 <= i < snapshot.calendar_events@.len() ==> #[trigger] snapshot@.calendar_events[i]
                == snapshot.calendar_events@[i]@,
{
}

} // verus!
