//! What the window shows of a snapshot.

use vstd::prelude::*;

use crate::calendar;
use crate::calendar::CalendarEvent;
use crate::controls;
use crate::controls::selected_slot;
use crate::home;
use crate::home::{ClimateState, DashboardSnapshot, LightState};
use crate::labels;
use crate::labels::pretty_heading;
use crate::snapshot;
use crate::text;
use crate::text::{decimal, join2, join3, to_uppercase};

verus! {

// ---------------------------------------------------------------------------
// Temperatures
// ---------------------------------------------------------------------------

/// `shown` is how a temperature is shown: its digits, which `digits` gives, and the degree sign,
/// or two dashes where there is none.
pub open spec fn shows<T, F: Fn(T) -> String>(
    digits: F,
    value: Option<T>,
    shown: Seq<char>,
) -> bool {
    match value {
        Some(temperature) => exists|written: String|
            {
                &&& #[trigger] call_ensures(digits, (temperature,), written)
                &&& shown == written@ + "°"@
            },
        None => shown == "--"@,
    }
}

/// How a temperature is shown.
pub fn format_temperature<T: Copy, F: Fn(T) -> String>(value: Option<T>, digits: &F) -> (r: String)
    requires
        forall|t: T| #[trigger] call_requires(*digits, (t,)),
    ensures
        shows(*digits, value, r@),
{
    match value {
        Some(temperature) => {
            let written = digits(temperature);
            join2(&written, "°")
        },
        None => "--".to_owned(),
    }
}

// ---------------------------------------------------------------------------
// Rows
// ---------------------------------------------------------------------------

/// A thermostat in the list.
#[derive(Debug, PartialEq)]
pub struct ThermostatData {
    pub name: String,
    pub current: String,
    pub target: String,
    pub state: String,
    pub available: bool,
}

/// A light in the list.
#[derive(Debug, PartialEq)]
pub struct LightData {
    pub name: String,
    pub on: bool,
    pub available: bool,
}

/// An event in the list.
#[derive(Debug, PartialEq)]
pub struct CalendarData {
    pub date: String,
    pub time: String,
    pub summary: String,
    pub calendar: String,
}

/// `row` shows a thermostat.
pub open spec fn shows_thermostat<T, F: Fn(T) -> String>(
    digits: F,
    thermostat: home::ClimateModel<T>,
    row: ThermostatData,
) -> bool {
    &&& row.name@ == thermostat.name
    &&& shows(digits, thermostat.current, row.current@)
    &&& shows(digits, thermostat.target, row.target@)
    &&& labels::heads(thermostat.action, row.state@)
    &&& row.available == thermostat.available
}

/// `row` shows a light.
pub open spec fn shows_light(light: home::LightModel, row: LightData) -> bool {
    row.name@ == light.name && row.on == light.on && row.available == light.available
}

/// `row` shows an event.
pub open spec fn shows_event(event: calendar::EventModel, row: CalendarData) -> bool {
    &&& row.date@ == event.date
    &&& row.time@ == event.time
    &&& row.summary@ == event.summary
    &&& row.calendar@ == event.calendar
}

/// `rows` shows the thermostats, each in a row.
pub open spec fn shows_thermostats<T, F: Fn(T) -> String>(
    digits: F,
    thermostats: Seq<home::ClimateModel<T>>,
    rows: Seq<ThermostatData>,
) -> bool {
    &&& rows.len() == thermostats.len()
    &&& forall|i: int|
        0 <= i < rows.len() ==> shows_thermostat(digits, thermostats[i], #[trigger] rows[i])
}

/// `rows` shows the lights, each in a row.
pub open spec fn shows_lights(lights: Seq<home::LightModel>, rows: Seq<LightData>) -> bool {
    &&& rows.len() == lights.len()
    &&& forall|i: int| 0 <= i < rows.len() ==> shows_light(lights[i], #[trigger] rows[i])
}

/// `rows` shows the events, each in a row.
pub open spec fn shows_events(events: Seq<calendar::EventModel>, rows: Seq<CalendarData>) -> bool {
    &&& rows.len() == events.len()
    &&& forall|i: int| 0 <= i < rows.len() ==> shows_event(events[i], #[trigger] rows[i])
}

/// The rows of the thermostats.
pub fn thermostat_model<T: Copy, F: Fn(T) -> String>(
    snapshot: &DashboardSnapshot<T>,
    digits: &F,
) -> (r: Vec<ThermostatData>)
    requires
        forall|t: T| #[trigger] call_requires(*digits, (t,)),
    ensures
        shows_thermostats(*digits, snapshot@.thermostats, r@),
{
    let mut rows: Vec<ThermostatData> = Vec::new();
    let mut i: usize = 0;
    while i < snapshot.thermostats.len()
        invariant
            forall|t: T| #[trigger] call_requires(*digits, (t,)),
            i <= snapshot.thermostats@.len(),
            rows@.len() == i,
            forall|j: int|
                0 <= j < i ==> shows_thermostat(
                    *digits,
                    snapshot@.thermostats[j],
                    #[trigger] rows@[j],
                ),
        decreases snapshot.thermostats@.len() - i,
    {
        let thermostat: &ClimateState<T> = &snapshot.thermostats[i];
        rows.push(
            ThermostatData {
                name: thermostat.name.clone(),
                current: format_temperature(thermostat.current, digits),
                target: format_temperature(thermostat.target, digits),
                state: pretty_heading(&thermostat.action),
                available: thermostat.available,
            },
        );
        i = i + 1;
    }
    rows
}

/// The rows of the lights.
pub fn light_model<T>(snapshot: &DashboardSnapshot<T>) -> (r: Vec<LightData>)
    ensures
        shows_lights(snapshot@.lights, r@),
{
    let mut rows: Vec<LightData> = Vec::new();
    let mut i: usize = 0;
    while i < snapshot.lights.len()
        invariant
            i <= snapshot.lights@.len(),
            rows@.len() == i,
            forall|j: int| 0 <= j < i ==> shows_light(snapshot@.lights[j], #[trigger] rows@[j]),
        decreases snapshot.lights@.len() - i,
    {
        let light: &LightState = &snapshot.lights[i];
        rows.push(
            LightData { name: light.name.clone(), on: light.on, available: light.available },
        );
        i = i + 1;
    }
    rows
}

/// The rows of the events.
pub fn calendar_model<T>(snapshot: &DashboardSnapshot<T>) -> (r: Vec<CalendarData>)
    ensures
        shows_events(snapshot@.calendar_events, r@),
{
    let mut rows: Vec<CalendarData> = Vec::new();
    let mut i: usize = 0;
    while i < snapshot.calendar_events.len()
        invariant
            i <= snapshot.calendar_events@.len(),
            rows@.len() == i,
            forall|j: int|
                0 <= j < i ==> shows_event(snapshot@.calendar_events[j], #[trigger] rows@[j]),
        decreases snapshot.calendar_events@.len() - i,
    {
        let event: &CalendarEvent = &snapshot.calendar_events[i];
        rows.push(
            CalendarData {
                date: event.date.clone(),
                time: event.time.clone(),
                summary: event.summary.clone(),
                calendar: event.calendar.clone(),
            },
        );
        i = i + 1;
    }
    rows
}

// ---------------------------------------------------------------------------
// The selected thermostat
// ---------------------------------------------------------------------------

/// The thermostat that is selected.
#[derive(Debug, PartialEq)]
pub struct SelectedView {
    pub name: String,
    pub target: String,
    pub mode: String,
    pub supports_heat: bool,
    pub supports_cool: bool,
    pub supports_fan: bool,
    pub fan_mode: String,
}

/// `view` shows the thermostat that is selected.
pub open spec fn shows_selected<T, F: Fn(T) -> String>(
    digits: F,
    thermostat: home::ClimateModel<T>,
    view: SelectedView,
) -> bool {
    &&& view.name@ == thermostat.name
    &&& shows(digits, thermostat.target, view.target@)
    &&& labels::heads(thermostat.mode, view.mode@)
    &&& view.supports_heat == thermostat.supports_heat
    &&& view.supports_cool == thermostat.supports_cool
    &&& view.supports_fan == (thermostat.fan_modes.len() > 0)
    &&& labels::heads(thermostat.fan_mode, view.fan_mode@)
}

/// What is shown of the thermostat at an index of the window. Where there is none, what was shown
/// before stays.
pub fn selected_view<T: Copy, F: Fn(T) -> String>(
    snapshot: &DashboardSnapshot<T>,
    index: i32,
    digits: &F,
) -> (r: Option<SelectedView>)
    requires
        forall|t: T| #[trigger] call_requires(*digits, (t,)),
    ensures
        r is Some <==> controls::slot(index) < snapshot@.thermostats.len(),
        r matches Some(view) ==> shows_selected(
            *digits,
            snapshot@.thermostats[controls::slot(index)],
            view,
        ),
{
    let place = selected_slot(index);
    if place >= snapshot.thermostats.len() {
        return None;
    }
    let thermostat: &ClimateState<T> = &snapshot.thermostats[place];
    assert(snapshot@.thermostats[place as int] == thermostat@);
    Some(
        SelectedView {
            name: thermostat.name.clone(),
            target: format_temperature(thermostat.target, digits),
            mode: pretty_heading(&thermostat.mode),
            supports_heat: thermostat.supports_heat,
            supports_cool: thermostat.supports_cool,
            supports_fan: thermostat.fan_modes.len() > 0,
            fan_mode: pretty_heading(&thermostat.fan_mode),
        },
    )
}

// ---------------------------------------------------------------------------
// Counting the lights
// ---------------------------------------------------------------------------

/// The lights that are on.
pub open spec fn lit(lights: Seq<home::LightModel>) -> Seq<home::LightModel> {
    lights.filter(|light: home::LightModel| light.on)
}

/// The lights that can be used.
pub open spec fn in_use(lights: Seq<home::LightModel>) -> Seq<home::LightModel> {
    lights.filter(|light: home::LightModel| light.available)
}

/// How the lights are summed up.
pub open spec fn summary(lights: Seq<home::LightModel>) -> Seq<char> {
    text::decimal_digits(lit(lights).len()) + " ON / "@ + (text::decimal_digits(
        in_use(lights).len(),
    ) + " AVAILABLE"@)
}

/// The number of lights for which `test` holds.
fn count_lights<F: Fn(&LightState) -> bool>(
    lights: &Vec<LightState>,
    test: F,
    Ghost(counts): Ghost<spec_fn(home::LightModel) -> bool>,
) -> (r: usize)
    requires
        forall|light: &LightState| #[trigger] call_requires(test, (light,)),
        forall|light: &LightState, holds: bool| #[trigger]
            call_ensures(test, (light,), holds) ==> holds == counts(light@),
    ensures
        r == home::light_models(lights@).filter(counts).len(),
{
    let ghost all = home::light_models(lights@);
    let mut count: usize = 0;
    let mut i: usize = 0;
    reveal(Seq::filter);
    while i < lights.len()
        invariant
            forall|light: &LightState| #[trigger] call_requires(test, (light,)),
            forall|light: &LightState, holds: bool| #[trigger]
                call_ensures(test, (light,), holds) ==> holds == counts(light@),
            all == home::light_models(lights@),
            i <= lights.len(),
            count <= i,
            count == all.take(i as int).filter(counts).len(),
        decreases lights@.len() - i,
    {
        reveal(Seq::filter);
        assert(all.take(i + 1).drop_last() =~= all.take(i as int));
        assert(all.take(i + 1).last() == lights@[i as int]@);
        if test(&lights[i]) {
            count = count + 1;
        }
        i = i + 1;
    }
    assert(all.take(i as int) =~= all);
    count
}

/// How the lights are summed up.
pub fn lights_summary<T>(snapshot: &DashboardSnapshot<T>) -> (r: String)
    ensures
        r@ == summary(snapshot@.lights),
{
    let is_on = |light: &LightState| -> (holds: bool)
        ensures
            holds == light.on,
        { light.on };
    let is_available = |light: &LightState| -> (holds: bool)
        ensures
            holds == light.available,
        { light.available };
    let on: usize = count_lights(
        &snapshot.lights,
        is_on,
        Ghost(|light: home::LightModel| light.on),
    );
    let available: usize = count_lights(
        &snapshot.lights,
        is_available,
        Ghost(|light: home::LightModel| light.available),
    );
    join3(&decimal(on as u64), " ON / ", &join2(&decimal(available as u64), " AVAILABLE"))
}

// ---------------------------------------------------------------------------
// The window
// ---------------------------------------------------------------------------

/// The event that comes next: a label, its title and its time.
#[derive(Debug, PartialEq)]
pub struct NextEvent {
    pub label: String,
    pub title: String,
    pub time: String,
}

/// The label of the next event, with the name of its calendar in upper case.
pub open spec fn next_label(date: Seq<char>, calendar: Seq<char>) -> Seq<char> {
    "NEXT / "@ + date + (" / "@ + calendar)
}

/// `next` shows the first of the events, or that there is none.
pub open spec fn shows_next(events: Seq<calendar::EventModel>, next: NextEvent) -> bool {
    if events.len() > 0 {
        &&& next.label@ == next_label(events[0].date, text::upper_text(events[0].calendar))
        &&& vstd::utf8::is_ascii_chars(events[0].calendar) ==> next.label@ == next_label(
            events[0].date,
            text::ascii_upper_text(events[0].calendar),
        )
        &&& next.title@ == events[0].summary
        &&& next.time@ == events[0].time
    } else {
        &&& next.label@ == "NEXT EVENT"@
        &&& next.title@ == "NO UPCOMING EVENTS"@
        &&& next.time@ == ""@
    }
}

/// The event that comes next.
pub fn next_event<T>(snapshot: &DashboardSnapshot<T>) -> (r: NextEvent)
    ensures
        shows_next(snapshot@.calendar_events, r),
{
    if snapshot.calendar_events.len() > 0 {
        let event: &CalendarEvent = &snapshot.calendar_events[0];
        assert(snapshot@.calendar_events[0] == event@);
        let calendar = to_uppercase(&event.calendar);
        NextEvent {
            label: join3("NEXT / ", &event.date, &join2(" / ", &calendar)),
            title: event.summary.clone(),
            time: event.time.clone(),
        }
    } else {
        NextEvent {
            label: "NEXT EVENT".to_owned(),
            title: "NO UPCOMING EVENTS".to_owned(),
            time: "".to_owned(),
        }
    }
}

/// All that the window shows of a snapshot.
#[derive(Debug, PartialEq)]
pub struct DashboardView {
    pub outside_temperature: String,
    pub outside_high: String,
    pub outside_condition: String,
    pub weather_kind: String,
    pub living_fan_on: bool,
    pub living_fan_available: bool,
    pub next_event: NextEvent,
    pub thermostats: Vec<ThermostatData>,
    pub lights: Vec<LightData>,
    pub calendar_events: Vec<CalendarData>,
    pub lights_summary: String,
    /// Nothing where what was selected before stays.
    pub selected: Option<SelectedView>,
    /// The status, and the time of the update; nothing where both stay.
    pub updated_text: Option<String>,
}

/// `view` shows a snapshot.
pub open spec fn shows_snapshot<T, F: Fn(T) -> String>(
    digits: F,
    snapshot: home::SnapshotModel<T>,
    index: i32,
    updated_text: Option<Seq<char>>,
    view: DashboardView,
) -> bool {
    &&& shows(digits, snapshot.outside_temperature, view.outside_temperature@)
    &&& exists|high: Seq<char>|
        {
            &&& #[trigger] shows(digits, snapshot.outside_high, high)
            &&& view.outside_high@ == "HIGH "@ + high
        }
    &&& labels::heads(snapshot.outside_condition, view.outside_condition@)
    &&& view.weather_kind@ == snapshot.weather_kind
    &&& view.living_fan_on == snapshot.living_fan.on
    &&& view.living_fan_available == snapshot.living_fan.available
    &&& shows_next(snapshot.calendar_events, view.next_event)
    &&& shows_thermostats(digits, snapshot.thermostats, view.thermostats@)
    &&& shows_lights(snapshot.lights, view.lights@)
    &&& shows_events(snapshot.calendar_events, view.calendar_events@)
    &&& view.lights_summary@ == summary(snapshot.lights)
    &&& match view.selected {
        Some(selected) => {
            &&& controls::slot(index) < snapshot.thermostats.len()
            &&& shows_selected(digits, snapshot.thermostats[controls::slot(index)], selected)
        },
        None => controls::slot(index) >= snapshot.thermostats.len(),
    }
    &&& text::text_in(view.updated_text) == updated_text
}

/// What the window shows of a snapshot while the thermostat at `index` is selected.
pub fn snapshot_view<T: Copy, F: Fn(T) -> String>(
    snapshot: &DashboardSnapshot<T>,
    index: i32,
    updated_text: Option<String>,
    digits: &F,
) -> (r: DashboardView)
    requires
        forall|t: T| #[trigger] call_requires(*digits, (t,)),
    ensures
        shows_snapshot(*digits, snapshot@, index, text::text_in(updated_text), r),
{
    let high = format_temperature(snapshot.outside_high, digits);
    let outside_high = join2("HIGH ", &high);
    assert(shows(*digits, snapshot@.outside_high, high@));
    DashboardView {
        outside_temperature: format_temperature(snapshot.outside_temperature, digits),
        outside_high,
        outside_condition: pretty_heading(&snapshot.outside_condition),
        weather_kind: snapshot.weather_kind.clone(),
        living_fan_on: snapshot.living_fan.on,
        living_fan_available: snapshot.living_fan.available,
        next_event: next_event(snapshot),
        thermostats: thermostat_model(snapshot, digits),
        lights: light_model(snapshot),
        calendar_events: calendar_model(snapshot),
        lights_summary: lights_summary(snapshot),
        selected: selected_view(snapshot, index, digits),
        updated_text,
    }
}

// ---------------------------------------------------------------------------
// Laws
// ---------------------------------------------------------------------------

/// In a snapshot of this home no more lights are on than can be used, and no more can be used than
/// there are.
pub proof fn no_more_lights_are_on_than_can_be_used<T>(snapshot: home::SnapshotModel<T>)
    requires
        snapshot::is_consistent(snapshot),
    ensures
        lit(snapshot.lights).len() <= in_use(snapshot.lights).len() <= snapshot.lights.len(),
{
    assert forall|i: int|
        0 <= i < snapshot.lights.len() && (#[trigger] snapshot.lights[i]).on implies snapshot.lights[i]
            .available by {
        assert(snapshot.lights[i].entity_id == snapshot::light_roster()[i].0);
    }
    lemma_fewer_lit(snapshot.lights);
}

/// Where only usable lights are on, no more lights are on than can be used.
proof fn lemma_fewer_lit(lights: Seq<home::LightModel>)
    requires
        forall|i: int|
            0 <= i < lights.len() ==> ((#[trigger] lights[i]).on ==> lights[i].available),
    ensures
        lit(lights).len() <= in_use(lights).len() <= lights.len(),
    decreases lights.len(),
{
    reveal(Seq::filter);
    if lights.len() > 0 {
        lemma_fewer_lit(lights.drop_last());
    }
}

/// A temperature is shown by its digits and the degree sign, no temperature by two dashes.
pub proof fn temperatures_are_shown_in_degrees<T, F: Fn(T) -> String>(
    digits: F,
    value: Option<T>,
    written: String,
    shown: Seq<char>,
)
    ensures
        value is None ==> (shows(digits, value, shown) <==> shown == "--"@),
        value is Some && call_ensures(digits, (value->0,), written) ==> shows(
            digits,
            value,
            written@ + "°"@,
        ),
        value is Some && shows(digits, value, shown) ==> exists|told: String|
            {
                &&& #[trigger] call_ensures(digits, (value->0,), told)
                &&& shown == told@ + "°"@
            },
{
    if value is Some && call_ensures(digits, (value->0,), written) {
        let text = written@ + "°"@;
        assert(text == written@ + "°"@);
        assert(shows(digits, value, text));
    }
}

/// Rows show the devices in their order, each with its own name, temperatures and state.
pub proof fn rows_show_their_devices<T, F: Fn(T) -> String>(
    digits: F,
    snapshot: home::SnapshotModel<T>,
    thermostats: Seq<ThermostatData>,
    lights: Seq<LightData>,
    events: Seq<CalendarData>,
    i: int,
)
    requires
        shows_thermostats(digits, snapshot.thermostats, thermostats),
        shows_lights(snapshot.lights, lights),
        shows_events(snapshot.calendar_events, events),
    ensures
        thermostats.len() == snapshot.thermostats.len(),
        0 <= i < thermostats.len() ==> {
            &&& thermostats[i].name@ == snapshot.thermostats[i].name
            &&& shows(digits, snapshot.thermostats[i].current, thermostats[i].current@)
            &&& shows(digits, snapshot.thermostats[i].target, thermostats[i].target@)
            &&& labels::heads(snapshot.thermostats[i].action, thermostats[i].state@)
            &&& thermostats[i].available == snapshot.thermostats[i].available
        },
        lights.len() == snapshot.lights.len(),
        0 <= i < lights.len() ==> {
            &&& lights[i].name@ == snapshot.lights[i].name
            &&& lights[i].on == snapshot.lights[i].on
            &&& lights[i].available == snapshot.lights[i].available
        },
        events.len() == snapshot.calendar_events.len(),
        0 <= i < events.len() ==> {
            &&& events[i].date@ == snapshot.calendar_events[i].date
            &&& events[i].time@ == snapshot.calendar_events[i].time
            &&& events[i].summary@ == snapshot.calendar_events[i].summary
            &&& events[i].calendar@ == snapshot.calendar_events[i].calendar
        },
{
}

/// The selected thermostat shows its own set point, mode and fan mode, and has a fan if and only if
/// it lists a fan mode.
pub proof fn the_selected_thermostat_shows_itself<T, F: Fn(T) -> String>(
    digits: F,
    thermostat: home::ClimateModel<T>,
    view: SelectedView,
)
    requires
        shows_selected(digits, thermostat, view),
    ensures
        view.name@ == thermostat.name,
        shows(digits, thermostat.target, view.target@),
        labels::heads(thermostat.mode, view.mode@),
        labels::heads(thermostat.fan_mode, view.fan_mode@),
        view.supports_heat == thermostat.supports_heat,
        view.supports_cool == thermostat.supports_cool,
        view.supports_fan <==> thermostat.fan_modes.len() != 0,
{
}

/// A further light counts as on if it is on, and as available if it can be used.
pub proof fn each_light_counts_once(lights: Seq<home::LightModel>, light: home::LightModel)
    ensures
        lit(Seq::<home::LightModel>::empty()).len() == 0,
        in_use(Seq::<home::LightModel>::empty()).len() == 0,
        lit(lights.push(light)).len() == lit(lights).len() + if light.on {
            1nat
        } else {
            0
        },
        in_use(lights.push(light)).len() == in_use(lights).len() + if light.available {
            1nat
        } else {
            0
        },
{
    reveal(Seq::filter);
    assert(lights.push(light).drop_last() =~= lights);
}

/// The lights are summed up by the two counts.
pub proof fn the_summary_tells_both_counts(lights: Seq<home::LightModel>)
    ensures
        summary(lights) == text::decimal_digits(lit(lights).len()) + " ON / "@
            + text::decimal_digits(in_use(lights).len()) + " AVAILABLE"@,
{
    assert(summary(lights) =~= text::decimal_digits(lit(lights).len()) + " ON / "@
        + text::decimal_digits(in_use(lights).len()) + " AVAILABLE"@);
}

/// The next event is the first one, with its own date, calendar, title and time; without events the
/// window says so.
pub proof fn the_first_event_is_next(events: Seq<calendar::EventModel>, next: NextEvent)
    requires
        shows_next(events, next),
    ensures
        events.len() == 0 ==> next.label@ == "NEXT EVENT"@ && next.title@ == "NO UPCOMING EVENTS"@
            && next.time@ == ""@,
        events.len() > 0 ==> {
            &&& next.title@ == events[0].summary
            &&& next.time@ == events[0].time
            &&& next.label@ == "NEXT / "@ + events[0].date + " / "@ + text::upper_text(
                events[0].calendar,
            )
            &&& vstd::utf8::is_ascii_chars(events[0].calendar) ==> next.label@ == "NEXT / "@
                + events[0].date + " / "@ + text::ascii_upper_text(events[0].calendar)
        },
{
    if events.len() > 0 {
        let date = events[0].date;
        let upper = text::upper_text(events[0].calendar);
        let plain = text::ascii_upper_text(events[0].calendar);
        assert(next_label(date, upper) =~= "NEXT / "@ + date + " / "@ + upper);
        assert(next_label(date, plain) =~= "NEXT / "@ + date + " / "@ + plain);
    }
}

/// The window shows every part of the snapshot. The selected thermostat is shown if and only if
/// there is one at the index.
pub proof fn the_window_shows_every_part<T, F: Fn(T) -> String>(
    digits: F,
    snapshot: home::SnapshotModel<T>,
    index: i32,
    updated_text: Option<Seq<char>>,
    view: DashboardView,
)
    requires
        shows_snapshot(digits, snapshot, index, updated_text, view),
    ensures
        shows(digits, snapshot.outside_temperature, view.outside_temperature@),
        snapshot.outside_high is None ==> view.outside_high@ == "HIGH "@ + "--"@,
        snapshot.outside_high matches Some(high) ==> exists|written: String| #[trigger]
            call_ensures(digits, (high,), written) && view.outside_high@ == "HIGH "@ + (written@
                + "°"@),
        labels::heads(snapshot.outside_condition, view.outside_condition@),
        view.weather_kind@ == snapshot.weather_kind,
        view.living_fan_on == snapshot.living_fan.on,
        view.living_fan_available == snapshot.living_fan.available,
        shows_next(snapshot.calendar_events, view.next_event),
        shows_thermostats(digits, snapshot.thermostats, view.thermostats@),
        shows_lights(snapshot.lights, view.lights@),
        shows_events(snapshot.calendar_events, view.calendar_events@),
        view.lights_summary@ == summary(snapshot.lights),
        view.selected is Some <==> (if index < 0 {
            0
        } else {
            index as int
        }) < snapshot.thermostats.len(),
        view.selected matches Some(selected) ==> shows_selected(
            digits,
            snapshot.thermostats[if index < 0 {
                0
            } else {
                index as int
            }],
            selected,
        ),
        view.updated_text is Some <==> updated_text is Some,
        view.updated_text matches Some(told) ==> updated_text == Some(told@),
{
}

} // verus!
