//! Taking over a new snapshot: the dashboard is drawn again only when something changed.

use vstd::prelude::*;
use vstd::std_specs::cmp::PartialEqSpec;

use crate::calendar;
use crate::calendar::{CalendarEvent, format_rfc3339};
use crate::home;
use crate::home::{ClimateState, DashboardSnapshot, LightState};
use crate::text;
use crate::text::{join2, text_eq};

verus! {

// ---------------------------------------------------------------------------
// Comparing
// ---------------------------------------------------------------------------

/// The comparison of two temperatures can come out as `same`. The comparison of two values is the
/// one of their type, which need not tell equal ones from others: a float that is not a number is
/// not even equal to itself.
pub open spec fn compares<T: PartialEq>(a: Option<T>, b: Option<T>, same: bool) -> bool {
    match (a, b) {
        (Some(x), Some(y)) => call_ensures(<T as PartialEq>::eq, (&x, &y), same),
        (None, None) => same,
        _ => !same,
    }
}

/// The comparison of the type tells equal values from others.
pub open spec fn compares_faithfully<T: PartialEq>() -> bool {
    &&& <T as PartialEqSpec>::obeys_eq_spec()
    &&& forall|x: T, y: T| #[trigger] x.eq_spec(&y) <==> x == y
}

/// A thermostat without its temperatures.
pub open spec fn bare_climate<T>(climate: home::ClimateModel<T>) -> home::ClimateModel<T> {
    home::ClimateModel { current: None, target: None, ..climate }
}

/// The thermostats without their temperatures.
pub open spec fn bare_climates<T>(climates: Seq<home::ClimateModel<T>>) -> Seq<
    home::ClimateModel<T>,
> {
    climates.map_values(|climate: home::ClimateModel<T>| bare_climate(climate))
}

/// A snapshot without its temperatures.
pub open spec fn bare<T>(snapshot: home::SnapshotModel<T>) -> home::SnapshotModel<T> {
    home::SnapshotModel {
        outside_temperature: None,
        outside_high: None,
        thermostats: bare_climates(snapshot.thermostats),
        ..snapshot
    }
}

/// Two snapshots pass as equal: they are equal but for their temperatures, and each temperature
/// passes as equal.
pub open spec fn passes_as_equal<T: PartialEq>(
    a: home::SnapshotModel<T>,
    b: home::SnapshotModel<T>,
) -> bool {
    &&& bare(a) == bare(b)
    &&& compares(a.outside_temperature, b.outside_temperature, true)
    &&& compares(a.outside_high, b.outside_high, true)
    &&& forall|i: int|
        0 <= i < a.thermostats.len() ==> {
            &&& compares((#[trigger] a.thermostats[i]).current, b.thermostats[i].current, true)
            &&& compares(a.thermostats[i].target, b.thermostats[i].target, true)
        }
}

/// Two snapshots pass as different: they differ beside their temperatures, or a temperature passes
/// as different.
pub open spec fn passes_as_different<T: PartialEq>(
    a: home::SnapshotModel<T>,
    b: home::SnapshotModel<T>,
) -> bool {
    ||| bare(a) != bare(b)
    ||| compares(a.outside_temperature, b.outside_temperature, false)
    ||| compares(a.outside_high, b.outside_high, false)
    ||| exists|i: int|
        0 <= i < a.thermostats.len() && {
            ||| compares((#[trigger] a.thermostats[i]).current, b.thermostats[i].current, false)
            ||| compares(a.thermostats[i].target, b.thermostats[i].target, false)
        }
}

/// Compares two temperatures.
fn same_reading<T: PartialEq>(a: &Option<T>, b: &Option<T>) -> (r: bool)
    ensures
        compares(*a, *b, r),
        compares_faithfully::<T>() ==> r == (*a == *b),
{
    match (a, b) {
        (Some(x), Some(y)) => *x == *y,
        (None, None) => true,
        _ => false,
    }
}

/// Compares two lists of strings.
fn same_strings(a: &Vec<String>, b: &Vec<String>) -> (r: bool)
    ensures
        r == (text::texts(a@) == text::texts(b@)),
{
    if a.len() != b.len() {
        assert(text::texts(a@).len() != text::texts(b@).len());
        return false;
    }
    let mut i: usize = 0;
    while i < a.len()
        invariant
            i <= a@.len(),
            a@.len() == b@.len(),
            forall|j: int| 0 <= j < i ==> (#[trigger] a@[j])@ == b@[j]@,
        decreases a@.len() - i,
    {
        if !text_eq(&a[i], &b[i]) {
            assert(text::texts(a@)[i as int] != text::texts(b@)[i as int]);
            return false;
        }
        i = i + 1;
    }
    assert(text::texts(a@) =~= text::texts(b@));
    true
}

/// Compares two thermostats, except for their temperatures.
fn same_bare_climate<T>(a: &ClimateState<T>, b: &ClimateState<T>) -> (r: bool)
    ensures
        r == (bare_climate(a@) == bare_climate(b@)),
{
    let same = text_eq(&a.entity_id, &b.entity_id) && text_eq(&a.name, &b.name) && text_eq(
        &a.mode,
        &b.mode,
    ) && text_eq(&a.action, &b.action) && a.available == b.available && a.supports_heat
        == b.supports_heat && a.supports_cool == b.supports_cool && text_eq(
        &a.fan_mode,
        &b.fan_mode,
    ) && same_strings(&a.fan_modes, &b.fan_modes);
    same
}

/// Compares two lights.
fn same_light(a: &LightState, b: &LightState) -> (r: bool)
    ensures
        r == (a@ == b@),
{
    text_eq(&a.entity_id, &b.entity_id) && text_eq(&a.name, &b.name) && a.on == b.on && a.available
        == b.available
}

/// Compares two events.
fn same_event(a: &CalendarEvent, b: &CalendarEvent) -> (r: bool)
    ensures
        r == (a@ == b@),
{
    text_eq(&a.summary, &b.summary) && text_eq(&a.date, &b.date) && text_eq(&a.time, &b.time)
        && text_eq(&a.calendar, &b.calendar) && a.sort_epoch == b.sort_epoch
}

/// Compares two lists of lights.
fn same_lights(a: &Vec<LightState>, b: &Vec<LightState>) -> (r: bool)
    ensures
        r == (home::light_models(a@) == home::light_models(b@)),
{
    if a.len() != b.len() {
        assert(home::light_models(a@).len() != home::light_models(b@).len());
        return false;
    }
    let mut i: usize = 0;
    while i < a.len()
        invariant
            i <= a@.len(),
            a@.len() == b@.len(),
            forall|j: int| 0 <= j < i ==> (#[trigger] a@[j])@ == b@[j]@,
        decreases a@.len() - i,
    {
        if !same_light(&a[i], &b[i]) {
            assert(home::light_models(a@)[i as int] != home::light_models(b@)[i as int]);
            return false;
        }
        i = i + 1;
    }
    assert(home::light_models(a@) =~= home::light_models(b@));
    true
}

/// Compares two lists of events.
fn same_events(a: &Vec<CalendarEvent>, b: &Vec<CalendarEvent>) -> (r: bool)
    ensures
        r == (calendar::event_models(a@) == calendar::event_models(b@)),
{
    if a.len() != b.len() {
        assert(calendar::event_models(a@).len() != calendar::event_models(b@).len());
        return false;
    }
    let mut i: usize = 0;
    while i < a.len()
        invariant
            i <= a@.len(),
            a@.len() == b@.len(),
            forall|j: int| 0 <= j < i ==> (#[trigger] a@[j])@ == b@[j]@,
        decreases a@.len() - i,
    {
        if !same_event(&a[i], &b[i]) {
            assert(calendar::event_models(a@)[i as int] != calendar::event_models(b@)[i as int]);
            return false;
        }
        i = i + 1;
    }
    assert(calendar::event_models(a@) =~= calendar::event_models(b@));
    true
}

/// Compares two snapshots.
pub fn same_snapshot<T: PartialEq>(a: &DashboardSnapshot<T>, b: &DashboardSnapshot<T>) -> (r: bool)
    ensures
        r ==> passes_as_equal(a@, b@),
        !r ==> passes_as_different(a@, b@),
        compares_faithfully::<T>() ==> r == (a@ == b@),
{
    if !same_reading(&a.outside_temperature, &b.outside_temperature) || !same_reading(
        &a.outside_high,
        &b.outside_high,
    ) {
        return false;
    }
    let head = text_eq(&a.outside_condition, &b.outside_condition) && text_eq(
        &a.weather_kind,
        &b.weather_kind,
    ) && a.living_fan == b.living_fan && same_lights(&a.lights, &b.lights) && same_events(
        &a.calendar_events,
        &b.calendar_events,
    );
    if !head || a.thermostats.len() != b.thermostats.len() {
        assert(bare(a@) != bare(b@)) by {
            assert(bare(a@).thermostats.len() == a.thermostats@.len());
            assert(bare(b@).thermostats.len() == b.thermostats@.len());
        }
        return false;
    }
    let mut i: usize = 0;
    while i < a.thermostats.len()
        invariant
            i <= a.thermostats@.len(),
            a.thermostats@.len() == b.thermostats@.len(),
            forall|j: int|
                0 <= j < i ==> {
                    &&& bare_climate(#[trigger] a@.thermostats[j]) == bare_climate(
                        b@.thermostats[j],
                    )
                    &&& compares(a@.thermostats[j].current, b@.thermostats[j].current, true)
                    &&& compares(a@.thermostats[j].target, b@.thermostats[j].target, true)
                    &&& compares_faithfully::<T>() ==> a@.thermostats[j] == b@.thermostats[j]
                },
        decreases a.thermostats@.len() - i,
    {
        let x = &a.thermostats[i];
        let y = &b.thermostats[i];
        assert(a@.thermostats[i as int] == x@);
        assert(b@.thermostats[i as int] == y@);
        if !same_bare_climate(x, y) {
            assert(bare(a@).thermostats[i as int] != bare(b@).thermostats[i as int]);
            return false;
        }
        if !same_reading(&x.current, &y.current) || !same_reading(&x.target, &y.target) {
            return false;
        }
        i = i + 1;
    }
    assert(bare_climates(a@.thermostats) =~= bare_climates(b@.thermostats));
    assert(compares_faithfully::<T>() ==> a@.thermostats =~= b@.thermostats);
    true
}

// ---------------------------------------------------------------------------
// Refreshing
// ---------------------------------------------------------------------------

/// What comes of a refresh.
#[derive(Debug, PartialEq)]
pub enum Refreshed {
    /// The home changed: the dashboard has to be drawn.
    Changed,
    /// Nothing changed.
    Unchanged,
    /// Home Assistant could not be asked; the status to show.
    Failed(&'static str),
}

/// Takes over what Home Assistant told, if it could be asked.
pub fn refresh<T: PartialEq>(
    current: &mut DashboardSnapshot<T>,
    fetched: Result<DashboardSnapshot<T>, String>,
) -> (r: Refreshed)
    ensures
        r is Failed <==> fetched is Err,
        r is Failed ==> *final(current) == *old(current) && r->Failed_0@
            == "HOME ASSISTANT UNAVAILABLE"@,
        r is Changed ==> *final(current) == fetched->Ok_0 && passes_as_different(
            old(current)@,
            fetched->Ok_0@,
        ),
        r is Unchanged ==> *final(current) == *old(current) && passes_as_equal(
            old(current)@,
            fetched->Ok_0@,
        ),
        compares_faithfully::<T>() && fetched is Ok ==> {
            &&& r is Changed <==> old(current)@ != fetched->Ok_0@
            &&& final(current)@ == fetched->Ok_0@
        },
{
    match fetched {
        Ok(snapshot) => {
            if same_snapshot(&*current, &snapshot) {
                Refreshed::Unchanged
            } else {
                *current = snapshot;
                Refreshed::Changed
            }
        },
        Err(_) => Refreshed::Failed("HOME ASSISTANT UNAVAILABLE"),
    }
}

/// The status after a refresh that changed something, at a time of the day.
pub fn updated_text(time: &str) -> (r: String)
    ensures
        r@ == "UPDATED "@ + time@,
{
    join2("UPDATED ", time)
}

/// The status after a refresh that changed something, at a point in time given as an RFC 3339 text;
/// nothing for another text.
pub fn updated_at(now: &str) -> (r: Option<String>)
    ensures
        r is Some <==> calendar::rfc3339_seconds(now@) is Some,
        text::text_in(r) == match calendar::rfc3339_written(now@, "%-I:%M %p"@) {
            Some(time) => Some("UPDATED "@ + time),
            None => None,
        },
{
    match format_rfc3339(now, "%-I:%M %p") {
        Some(time) => Some(updated_text(&time)),
        None => None,
    }
}

// ---------------------------------------------------------------------------
// Laws
// ---------------------------------------------------------------------------

/// Where the type of the temperatures tells equal values from others, only equal snapshots pass as
/// equal and only different ones pass as different. So a snapshot that was taken over is not taken
/// over again.
pub proof fn comparing_is_exact<T: PartialEq>(a: home::SnapshotModel<T>, b: home::SnapshotModel<T>)
    requires
        compares_faithfully::<T>(),
    ensures
        passes_as_equal(a, b) ==> a == b,
        passes_as_different(a, b) ==> a != b,
{
    if passes_as_equal(a, b) {
        assert(bare(a).thermostats.len() == bare(b).thermostats.len());
        assert forall|i: int| 0 <= i < a.thermostats.len() implies a.thermostats[i]
            == b.thermostats[i] by {
            assert(bare(a).thermostats[i] == bare(b).thermostats[i]);
        }
        assert(a.thermostats =~= b.thermostats);
        assert(bare(a).outside_condition == bare(b).outside_condition);
    }
}

/// Apart from its temperatures a snapshot is compared in every part.
pub proof fn all_but_temperatures_are_compared<T>(
    a: home::SnapshotModel<T>,
    b: home::SnapshotModel<T>,
)
    ensures
        bare(a) == bare(b) <==> {
            &&& a.outside_condition == b.outside_condition
            &&& a.weather_kind == b.weather_kind
            &&& a.living_fan == b.living_fan
            &&& a.lights == b.lights
            &&& a.calendar_events == b.calendar_events
            &&& a.thermostats.len() == b.thermostats.len()
            &&& forall|i: int|
                0 <= i < a.thermostats.len() ==> {
                    let x = #[trigger] a.thermostats[i];
                    let y = b.thermostats[i];
                    &&& x.entity_id == y.entity_id && x.name == y.name
                    &&& x.mode == y.mode && x.action == y.action
                    &&& x.available == y.available
                    &&& x.supports_heat == y.supports_heat
                    &&& x.supports_cool == y.supports_cool
                    &&& x.fan_mode == y.fan_mode
                    &&& x.fan_modes == y.fan_modes
                }
        },
{
    if bare(a) == bare(b) {
        assert(bare(a).thermostats.len() == a.thermostats.len());
        assert(bare(b).thermostats.len() == b.thermostats.len());
        assert forall|i: int| 0 <= i < a.thermostats.len() implies bare_climate(
            #[trigger] a.thermostats[i],
        ) == bare_climate(b.thermostats[i]) by {
            assert(bare(a).thermostats[i] == bare(b).thermostats[i]);
        }
        assert(bare(a).outside_condition == bare(b).outside_condition);
    }
    if a.thermostats.len() == b.thermostats.len() && (forall|i: int|
        0 <= i < a.thermostats.len() ==> bare_climate(#[trigger] a.thermostats[i]) == bare_climate(
            b.thermostats[i],
        )) {
        assert(bare_climates(a.thermostats) =~= bare_climates(b.thermostats));
    }
}

/// Snapshots that pass as equal are compared equal in every temperature; snapshots that pass as
/// different differ in some part or in some temperature.
pub proof fn every_temperature_is_compared<T: PartialEq>(
    a: home::SnapshotModel<T>,
    b: home::SnapshotModel<T>,
    i: int,
)
    ensures
        passes_as_equal(a, b) ==> {
            &&& bare(a) == bare(b)
            &&& compares(a.outside_temperature, b.outside_temperature, true)
            &&& compares(a.outside_high, b.outside_high, true)
            &&& 0 <= i < a.thermostats.len() ==> compares(
                a.thermostats[i].current,
                b.thermostats[i].current,
                true,
            ) && compares(a.thermostats[i].target, b.thermostats[i].target, true)
        },
        passes_as_different(a, b) && bare(a) == bare(b) ==> {
            ||| compares(a.outside_temperature, b.outside_temperature, false)
            ||| compares(a.outside_high, b.outside_high, false)
            ||| exists|k: int|
                0 <= k < a.thermostats.len() && (compares(
                    (#[trigger] a.thermostats[k]).current,
                    b.thermostats[k].current,
                    false,
                ) || compares(a.thermostats[k].target, b.thermostats[k].target, false))
        },
{
}

/// Two temperatures are compared by their type, one against none is different, and none against
/// none is equal.
pub proof fn temperatures_are_compared_by_their_type<T: PartialEq>(x: T, y: T, same: bool)
    ensures
        compares(Some(x), Some(y), same) <==> call_ensures(<T as PartialEq>::eq, (&x, &y), same),
        compares(None::<T>, None::<T>, same) <==> same,
        compares(Some(x), None, same) <==> !same,
        compares(None, Some(y), same) <==> !same,
{
}

/// Whole numbers tell equal values from others.
pub proof fn whole_numbers_compare_faithfully()
    ensures
        compares_faithfully::<i32>(),
        compares_faithfully::<u64>(),
{
}

} // verus!
