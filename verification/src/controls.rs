//! What the user can do: the change of the snapshot, the status to show, and whether a service of
//! Home Assistant has to be called.

use vstd::prelude::*;

use crate::home;
use crate::home::{DashboardSnapshot, FanState};
use crate::snapshot;
use crate::text;
use crate::text::{eq_ignore_ascii_case, text_eq};

verus! {

/// The set point of a thermostat that tells no temperature, in degrees.
pub const DEFAULT_SET_POINT: i32 = 68;

/// What comes of a control.
#[derive(Debug, PartialEq)]
pub enum Outcome<A> {
    /// Nothing happens.
    Ignored,
    /// Nothing happens; the status tells why.
    Rejected(&'static str),
    /// The snapshot changed, and Home Assistant has to be told.
    Accepted(A),
}

/// The place in a list that an index of the window stands for; a negative one is the first.
pub open spec fn slot(index: i32) -> int {
    if index < 0 {
        0
    } else {
        index as int
    }
}

/// The place in a list that an index of the window stands for; a negative one is the first.
pub fn selected_slot(index: i32) -> (r: usize)
    ensures
        r == slot(index),
{
    if index < 0 {
        0
    } else {
        index as usize
    }
}

/// The snapshot with another thermostat at a place.
pub open spec fn with_thermostat<T>(
    snapshot: home::SnapshotModel<T>,
    place: int,
    thermostat: home::ClimateModel<T>,
) -> home::SnapshotModel<T> {
    home::SnapshotModel {
        thermostats: snapshot.thermostats.update(place, thermostat),
        ..snapshot
    }
}

/// The snapshot with another light at a place.
pub open spec fn with_light<T>(
    snapshot: home::SnapshotModel<T>,
    place: int,
    light: home::LightModel,
) -> home::SnapshotModel<T> {
    home::SnapshotModel { lights: snapshot.lights.update(place, light), ..snapshot }
}

// ---------------------------------------------------------------------------
// Thermostats
// ---------------------------------------------------------------------------

/// Why a thermostat cannot be controlled: there is none at the place, or it cannot be used.
pub open spec fn refusal<T, A>(snapshot: home::SnapshotModel<T>, index: i32, r: Outcome<A>) -> bool {
    &&& slot(index) >= snapshot.thermostats.len() ==> r is Ignored
    &&& slot(index) < snapshot.thermostats.len() && !snapshot.thermostats[slot(index)].available
        ==> r is Rejected && r->Rejected_0@ == "THERMOSTAT UNAVAILABLE"@
}

/// There is a thermostat at the place, and it can be used.
pub open spec fn controllable<T>(snapshot: home::SnapshotModel<T>, index: i32) -> bool {
    slot(index) < snapshot.thermostats.len() && snapshot.thermostats[slot(index)].available
}

/// The temperature from which a set point is changed: the set point, else the temperature of the
/// room.
pub open spec fn known_temperature<T>(thermostat: home::ClimateModel<T>) -> Option<T> {
    if thermostat.target is Some {
        thermostat.target
    } else {
        thermostat.current
    }
}

/// `target` is the set point after a change by `delta` degrees: the sum of the known temperature,
/// or of the default where none is known, and the change.
pub open spec fn is_changed_target<T, D: Fn(i32) -> T, P: Fn(T, T) -> T>(
    degrees: D,
    plus: P,
    thermostat: home::ClimateModel<T>,
    delta: i32,
    target: T,
) -> bool {
    exists|base: T, step: T|
        {
            &&& match known_temperature(thermostat) {
                Some(known) => base == known,
                None => call_ensures(degrees, (DEFAULT_SET_POINT,), base),
            }
            &&& call_ensures(degrees, (delta,), step)
            &&& #[trigger] call_ensures(plus, (base, step), target)
        }
}

/// A thermostat supports a mode: it can be turned off, and heat or cool where it says so.
pub open spec fn supports<T>(thermostat: home::ClimateModel<T>, mode: Seq<char>) -> bool {
    ||| mode == "off"@
    ||| mode == "heat"@ && thermostat.supports_heat
    ||| mode == "cool"@ && thermostat.supports_cool
}

/// The first fan mode that is the requested one when the case of ASCII letters is ignored.
pub open spec fn matching_fan_mode(modes: Seq<Seq<char>>, requested: Seq<char>) -> Option<Seq<char>>
    decreases modes.len(),
{
    if modes.len() == 0 {
        None
    } else if text::ascii_lower_text(modes[0]) == text::ascii_lower_text(requested) {
        Some(modes[0])
    } else {
        matching_fan_mode(modes.drop_first(), requested)
    }
}

/// The place of the first fan mode that is the requested one.
fn find_fan_mode(modes: &Vec<String>, requested: &str) -> (r: Option<usize>)
    ensures
        r is Some <==> matching_fan_mode(text::texts(modes@), requested@) is Some,
        r matches Some(i) ==> i < modes@.len() && matching_fan_mode(
            text::texts(modes@),
            requested@,
        ) == Some(modes@[i as int]@),
{
    let ghost all = text::texts(modes@);
    let mut i: usize = 0;
    assert(all.skip(0) =~= all);
    while i < modes.len()
        invariant
            i <= modes@.len(),
            all == text::texts(modes@),
            matching_fan_mode(all, requested@) == matching_fan_mode(
                all.skip(i as int),
                requested@,
            ),
        decreases modes@.len() - i,
    {
        assert(all.skip(i as int)[0] == modes@[i as int]@);
        assert(all.skip(i as int).drop_first() =~= all.skip(i + 1));
        if eq_ignore_ascii_case(&modes[i], requested) {
            return Some(i);
        }
        i = i + 1;
    }
    None
}

impl<T: Copy> DashboardSnapshot<T> {
    /// Changes the set point of a thermostat by `delta` degrees. `degrees` makes a temperature of
    /// a whole number, and `plus` adds two temperatures. What is accepted is the entity and its
    /// new set point.
    pub fn change_target<D: Fn(i32) -> T, P: Fn(T, T) -> T>(
        &mut self,
        index: i32,
        delta: i32,
        degrees: D,
        plus: P,
    ) -> (r: Outcome<(String, T)>)
        requires
            forall|n: i32| #[trigger] call_requires(degrees, (n,)),
            forall|a: T, b: T| #[trigger] call_requires(plus, (a, b)),
        ensures
            refusal(old(self)@, index, r),
            r is Accepted <==> controllable(old(self)@, index),
            r !is Accepted ==> final(self)@ == old(self)@,
            snapshot::is_consistent(old(self)@) ==> snapshot::is_consistent(final(self)@),
            r matches Outcome::Accepted((entity_id, target)) ==> {
                let before = old(self)@.thermostats[slot(index)];
                &&& entity_id@ == before.entity_id
                &&& is_changed_target(degrees, plus, before, delta, target)
                &&& final(self)@ == with_thermostat(
                    old(self)@,
                    slot(index),
                    (home::ClimateModel { target: Some(target), ..before }),
                )
            },
    {
        let place = selected_slot(index);
        if place >= self.thermostats.len() {
            return Outcome::Ignored;
        }
        if !self.thermostats[place].available {
            return Outcome::Rejected("THERMOSTAT UNAVAILABLE");
        }
        let base: T = match self.thermostats[place].target {
            Some(target) => target,
            None => match self.thermostats[place].current {
                Some(current) => current,
                None => degrees(DEFAULT_SET_POINT),
            },
        };
        let step: T = degrees(delta);
        let target: T = plus(base, step);
        self.thermostats[place].target = Some(target);
        assert(self@.thermostats =~= old(self)@.thermostats.update(
            place as int,
            (home::ClimateModel {
                target: Some(target),
                ..old(self)@.thermostats[place as int]
            }),
        ));
        proof {
            if snapshot::is_consistent(old(self)@) {
                thermostat_controls_keep_the_home(
                    old(self)@,
                    index,
                    self@.thermostats[place as int],
                );
            }
        }
        Outcome::Accepted((self.thermostats[place].entity_id.clone(), target))
    }

    /// Sets the mode of a thermostat. What is accepted is its entity.
    pub fn set_mode(&mut self, index: i32, mode: &str) -> (r: Outcome<String>)
        ensures
            refusal(old(self)@, index, r),
            r is Accepted <==> controllable(old(self)@, index) && supports(
                old(self)@.thermostats[slot(index)],
                mode@,
            ),
            controllable(old(self)@, index) && r !is Accepted ==> r is Rejected && r->Rejected_0@
                == "MODE NOT SUPPORTED"@,
            r !is Accepted ==> final(self)@ == old(self)@,
            snapshot::is_consistent(old(self)@) ==> snapshot::is_consistent(final(self)@),
            r matches Outcome::Accepted(entity_id) ==> {
                let before = old(self)@.thermostats[slot(index)];
                &&& entity_id@ == before.entity_id
                &&& final(self)@ == with_thermostat(
                    old(self)@,
                    slot(index),
                    (home::ClimateModel { mode: mode@, action: mode@, ..before }),
                )
            },
    {
        let place = selected_slot(index);
        if place >= self.thermostats.len() {
            return Outcome::Ignored;
        }
        if !self.thermostats[place].available {
            return Outcome::Rejected("THERMOSTAT UNAVAILABLE");
        }
        let supported = text_eq(mode, "off") || (text_eq(mode, "heat")
            && self.thermostats[place].supports_heat) || (text_eq(mode, "cool")
            && self.thermostats[place].supports_cool);
        if !supported {
            return Outcome::Rejected("MODE NOT SUPPORTED");
        }
        self.thermostats[place].mode = mode.to_owned();
        self.thermostats[place].action = mode.to_owned();
        assert(self@.thermostats =~= old(self)@.thermostats.update(
            place as int,
            (home::ClimateModel {
                mode: mode@,
                action: mode@,
                ..old(self)@.thermostats[place as int]
            }),
        ));
        proof {
            if snapshot::is_consistent(old(self)@) {
                thermostat_controls_keep_the_home(
                    old(self)@,
                    index,
                    self@.thermostats[place as int],
                );
            }
        }
        Outcome::Accepted(self.thermostats[place].entity_id.clone())
    }

    /// Sets the fan mode of a thermostat. What is accepted is its entity and the fan mode as the
    /// thermostat spells it.
    pub fn set_fan_mode(&mut self, index: i32, requested: &str) -> (r: Outcome<(String, String)>)
        ensures
            refusal(old(self)@, index, r),
            r is Accepted <==> controllable(old(self)@, index) && matching_fan_mode(
                old(self)@.thermostats[slot(index)].fan_modes,
                requested@,
            ) is Some,
            controllable(old(self)@, index) && r !is Accepted ==> r is Rejected && r->Rejected_0@
                == "FAN SPEED NOT SUPPORTED"@,
            r !is Accepted ==> final(self)@ == old(self)@,
            snapshot::is_consistent(old(self)@) ==> snapshot::is_consistent(final(self)@),
            r matches Outcome::Accepted((entity_id, fan_mode)) ==> {
                let before = old(self)@.thermostats[slot(index)];
                &&& entity_id@ == before.entity_id
                &&& matching_fan_mode(before.fan_modes, requested@) == Some(fan_mode@)
                &&& final(self)@ == with_thermostat(
                    old(self)@,
                    slot(index),
                    (home::ClimateModel { fan_mode: fan_mode@, ..before }),
                )
            },
    {
        let place = selected_slot(index);
        if place >= self.thermostats.len() {
            return Outcome::Ignored;
        }
        if !self.thermostats[place].available {
            return Outcome::Rejected("THERMOSTAT UNAVAILABLE");
        }
        let fan_mode: String = match find_fan_mode(&self.thermostats[place].fan_modes, requested) {
            Some(i) => self.thermostats[place].fan_modes[i].clone(),
            None => {
                return Outcome::Rejected("FAN SPEED NOT SUPPORTED");
            },
        };
        self.thermostats[place].fan_mode = fan_mode.clone();
        assert(self@.thermostats =~= old(self)@.thermostats.update(
            place as int,
            (home::ClimateModel {
                fan_mode: fan_mode@,
                ..old(self)@.thermostats[place as int]
            }),
        ));
        proof {
            if snapshot::is_consistent(old(self)@) {
                thermostat_controls_keep_the_home(
                    old(self)@,
                    index,
                    self@.thermostats[place as int],
                );
            }
        }
        Outcome::Accepted((self.thermostats[place].entity_id.clone(), fan_mode))
    }

    /// Turns the fan of the living room on or off. What is accepted is whether it is on now.
    pub fn toggle_living_fan(&mut self) -> (r: Outcome<bool>)
        ensures
            r is Accepted <==> old(self)@.living_fan.available,
            r !is Accepted ==> r is Rejected && r->Rejected_0@ == "LIVING ROOM FAN UNAVAILABLE"@
                && final(self)@ == old(self)@,
            snapshot::is_consistent(old(self)@) ==> snapshot::is_consistent(final(self)@),
            r matches Outcome::Accepted(on) ==> {
                &&& on == !old(self)@.living_fan.on
                &&& final(self)@ == (home::SnapshotModel {
                    living_fan: FanState { on, available: true },
                    ..old(self)@
                })
            },
    {
        if !self.living_fan.available {
            return Outcome::Rejected("LIVING ROOM FAN UNAVAILABLE");
        }
        self.living_fan.on = !self.living_fan.on;
        Outcome::Accepted(self.living_fan.on)
    }

    /// Turns a light on or off. What is accepted is its entity and whether it is on now.
    pub fn toggle_light(&mut self, index: i32) -> (r: Outcome<(String, bool)>)
        ensures
            r is Accepted <==> slot(index) < old(self)@.lights.len()
                && old(self)@.lights[slot(index)].available,
            r !is Accepted ==> r is Ignored && final(self)@ == old(self)@,
            snapshot::is_consistent(old(self)@) ==> snapshot::is_consistent(final(self)@),
            r matches Outcome::Accepted((entity_id, on)) ==> {
                let before = old(self)@.lights[slot(index)];
                &&& entity_id@ == before.entity_id
                &&& on == !before.on
                &&& final(self)@ == with_light(
                    old(self)@,
                    slot(index),
                    (home::LightModel { on, ..before }),
                )
            },
    {
        let place = selected_slot(index);
        if place >= self.lights.len() {
            return Outcome::Ignored;
        }
        if !self.lights[place].available {
            return Outcome::Ignored;
        }
        self.lights[place].on = !self.lights[place].on;
        let on = self.lights[place].on;
        assert(self@.lights =~= old(self)@.lights.update(
            place as int,
            (home::LightModel { on, ..old(self)@.lights[place as int] }),
        ));
        proof {
            a_light_turned_twice_is_as_before(old(self)@, index);
        }
        Outcome::Accepted((self.lights[place].entity_id.clone(), on))
    }
}

// ---------------------------------------------------------------------------
// Statuses
// ---------------------------------------------------------------------------

/// What the user can set.
#[derive(Clone, Copy, Debug, PartialEq, Eq, Structural)]
pub enum Control {
    SetPoint,
    Mode,
    FanSpeed,
    LivingFan,
    Light,
}

/// The status while Home Assistant is told; a light has none.
pub open spec fn saving_text(control: Control) -> Option<Seq<char>> {
    match control {
        Control::SetPoint => Some("SAVING SET POINT"@),
        Control::Mode => Some("SAVING MODE"@),
        Control::FanSpeed => Some("SAVING FAN SPEED"@),
        Control::LivingFan => Some("UPDATING LIVING ROOM FAN"@),
        Control::Light => None,
    }
}

/// The status once Home Assistant was told, or could not be told.
pub open spec fn saved_text(control: Control, told: bool) -> Seq<char> {
    match (control, told) {
        (Control::SetPoint, true) => "SET POINT SAVED"@,
        (Control::SetPoint, false) => "SET POINT FAILED"@,
        (Control::Mode, true) => "MODE SAVED"@,
        (Control::Mode, false) => "MODE FAILED"@,
        (Control::FanSpeed, true) => "FAN SPEED SAVED"@,
        (Control::FanSpeed, false) => "FAN SPEED FAILED"@,
        (Control::LivingFan, true) => "LIVING ROOM FAN UPDATED"@,
        (Control::LivingFan, false) => "LIVING ROOM FAN FAILED"@,
        (Control::Light, true) => "LIGHT UPDATED"@,
        (Control::Light, false) => "LIGHT UPDATE FAILED"@,
    }
}

/// The status while Home Assistant is told; a light has none.
pub fn saving_status(control: Control) -> (r: Option<&'static str>)
    ensures
        r is Some <==> saving_text(control) is Some,
        r matches Some(status) ==> saving_text(control) == Some(status@),
{
    match control {
        Control::SetPoint => Some("SAVING SET POINT"),
        Control::Mode => Some("SAVING MODE"),
        Control::FanSpeed => Some("SAVING FAN SPEED"),
        Control::LivingFan => Some("UPDATING LIVING ROOM FAN"),
        Control::Light => None,
    }
}

/// The status once Home Assistant was told, or could not be told.
pub fn saved_status(control: Control, told: bool) -> (r: &'static str)
    ensures
        r@ == saved_text(control, told),
{
    match (control, told) {
        (Control::SetPoint, true) => "SET POINT SAVED",
        (Control::SetPoint, false) => "SET POINT FAILED",
        (Control::Mode, true) => "MODE SAVED",
        (Control::Mode, false) => "MODE FAILED",
        (Control::FanSpeed, true) => "FAN SPEED SAVED",
        (Control::FanSpeed, false) => "FAN SPEED FAILED",
        (Control::LivingFan, true) => "LIVING ROOM FAN UPDATED",
        (Control::LivingFan, false) => "LIVING ROOM FAN FAILED",
        (Control::Light, true) => "LIGHT UPDATED",
        (Control::Light, false) => "LIGHT UPDATE FAILED",
    }
}

// ---------------------------------------------------------------------------
// Laws
// ---------------------------------------------------------------------------

/// A control of a thermostat keeps the snapshot one of this home, and touches no other thermostat.
pub proof fn thermostat_controls_keep_the_home<T>(
    snapshot: home::SnapshotModel<T>,
    index: i32,
    thermostat: home::ClimateModel<T>,
)
    requires
        snapshot::is_consistent(snapshot),
        controllable(snapshot, index),
        thermostat.entity_id == snapshot.thermostats[slot(index)].entity_id,
        thermostat.name == snapshot.thermostats[slot(index)].name,
        thermostat.available,
    ensures
        snapshot::is_consistent(with_thermostat(snapshot, slot(index), thermostat)),
        forall|other: int|
            0 <= other < snapshot.thermostats.len() && other != slot(index) ==> (
            #[trigger] with_thermostat(snapshot, slot(index), thermostat).thermostats[other])
                == snapshot.thermostats[other],
{
    let after = with_thermostat(snapshot, slot(index), thermostat);
    assert forall|i: int| 0 <= i < after.thermostats.len() implies {
        &&& (#[trigger] after.thermostats[i]).entity_id == snapshot::thermostat_roster()[i].0
        &&& after.thermostats[i].name == snapshot::thermostat_roster()[i].1
        &&& snapshot::climate_is_consistent(after.thermostats[i])
    } by {
        assert(snapshot.thermostats[i].entity_id == snapshot::thermostat_roster()[i].0);
    }
}

/// Turning a light keeps the snapshot one of this home, touches no other light, and turning it
/// twice brings the snapshot back.
pub proof fn a_light_turned_twice_is_as_before<T>(snapshot: home::SnapshotModel<T>, index: i32)
    requires
        slot(index) < snapshot.lights.len(),
        snapshot.lights[slot(index)].available,
    ensures
        ({
            let light = snapshot.lights[slot(index)];
            let turned = home::LightModel { on: !light.on, ..light };
            let once = with_light(snapshot, slot(index), turned);
            &&& with_light(once, slot(index), (home::LightModel { on: !turned.on, ..turned }))
                == snapshot
            &&& snapshot::is_consistent(snapshot) ==> snapshot::is_consistent(once)
            &&& forall|other: int|
                0 <= other < snapshot.lights.len() && other != slot(index) ==> (
                #[trigger] once.lights[other]) == snapshot.lights[other]
        }),
{
    let light = snapshot.lights[slot(index)];
    let turned = home::LightModel { on: !light.on, ..light };
    let once = with_light(snapshot, slot(index), turned);
    let twice = with_light(once, slot(index), (home::LightModel { on: !turned.on, ..turned }));
    assert(twice.lights =~= snapshot.lights);
    if snapshot::is_consistent(snapshot) {
        assert forall|i: int| 0 <= i < once.lights.len() implies {
            &&& (#[trigger] once.lights[i]).entity_id == snapshot::light_roster()[i].0
            &&& once.lights[i].name == snapshot::light_roster()[i].1
            &&& once.lights[i].on ==> once.lights[i].available
        } by {
            assert(snapshot.lights[i].entity_id == snapshot::light_roster()[i].0);
        }
    }
}

/// The fan mode that is taken is one of the thermostat's own, and the one asked for when the case
/// of ASCII letters is ignored. Asking for it as the thermostat spells it takes the same one.
pub proof fn fan_modes_are_taken_as_listed(modes: Seq<Seq<char>>, requested: Seq<char>)
    requires
        matching_fan_mode(modes, requested) is Some,
    ensures
        ({
            let taken = matching_fan_mode(modes, requested)->0;
            &&& modes.contains(taken)
            &&& text::ascii_lower_text(taken) == text::ascii_lower_text(requested)
            &&& matching_fan_mode(modes, taken) == Some(taken)
        }),
    decreases modes.len(),
{
    if text::ascii_lower_text(modes[0]) != text::ascii_lower_text(requested) {
        fan_modes_are_taken_as_listed(modes.drop_first(), requested);
        let taken = matching_fan_mode(modes, requested)->0;
        let k = choose|k: int|
            0 <= k < modes.drop_first().len() && modes.drop_first()[k] == taken;
        assert(modes[k + 1] == taken);
    } else {
        assert(modes.contains(modes[0]));
    }
}

/// A thermostat can always be turned off. It takes `heat` if and only if it heats, whether or not it
/// cools, `cool` if and only if it cools, and nothing else.
pub proof fn each_mode_needs_its_own_support<T>(thermostat: home::ClimateModel<T>, mode: Seq<char>)
    ensures
        supports(thermostat, "off"@),
        supports(thermostat, "heat"@) == thermostat.supports_heat,
        supports(thermostat, "cool"@) == thermostat.supports_cool,
        supports(thermostat, mode) ==> mode == "off"@ || mode == "heat"@ || mode == "cool"@,
{
    reveal_strlit("off");
    reveal_strlit("heat");
    reveal_strlit("cool");
    assert("off"@.len() == 3 && "heat"@.len() == 4 && "cool"@.len() == 4);
    assert("heat"@[0] == 'h' && "cool"@[0] == 'c');
}

/// An index of the window stands for its own place, a negative one for the first.
pub proof fn an_index_stands_for_its_place(index: i32)
    ensures
        index >= 0 ==> slot(index) == index,
        index <= 0 ==> slot(index) == 0,
{
}

/// A thermostat can be controlled if and only if there is one at the place that can be used. Where
/// there is none nothing happens; where it cannot be used the user is told.
pub proof fn a_usable_thermostat_is_controlled<T, A>(
    snapshot: home::SnapshotModel<T>,
    index: i32,
    outcome: Outcome<A>,
)
    ensures
        ({
            let place = if index < 0 {
                0
            } else {
                index as int
            };
            &&& place < snapshot.thermostats.len() ==> controllable(snapshot, index)
                == snapshot.thermostats[place].available
            &&& place >= snapshot.thermostats.len() ==> !controllable(snapshot, index)
            &&& place >= snapshot.thermostats.len() ==> (refusal(snapshot, index, outcome)
                <==> outcome is Ignored)
            &&& place < snapshot.thermostats.len() && !snapshot.thermostats[place].available ==> (
            refusal(snapshot, index, outcome) <==> (outcome matches Outcome::Rejected(told) && told@
                == "THERMOSTAT UNAVAILABLE"@))
        }),
        controllable(snapshot, index) ==> refusal(snapshot, index, outcome),
{
}

/// A change starts from the set point, else from the temperature of the room, else from the default,
/// and adds the change to it.
pub proof fn a_set_point_is_changed_from_what_is_known<T, D: Fn(i32) -> T, P: Fn(T, T) -> T>(
    degrees: D,
    plus: P,
    thermostat: home::ClimateModel<T>,
    delta: i32,
    target: T,
)
    requires
        is_changed_target(degrees, plus, thermostat, delta, target),
    ensures
        thermostat.target matches Some(base) ==> exists|step: T|
            call_ensures(degrees, (delta,), step) && #[trigger] call_ensures(
                plus,
                (base, step),
                target,
            ),
        thermostat.target is None ==> (thermostat.current matches Some(base) ==> exists|step: T|
            call_ensures(degrees, (delta,), step) && #[trigger] call_ensures(
                plus,
                (base, step),
                target,
            )),
        thermostat.target is None && thermostat.current is None ==> exists|base: T, step: T|
            call_ensures(degrees, (68i32,), base) && call_ensures(degrees, (delta,), step)
                && #[trigger] call_ensures(plus, (base, step), target),
{
}

/// The fan mode that is taken is the first one in the list that fits; there is none if and only if
/// none fits.
pub proof fn the_first_fitting_fan_mode_is_taken(modes: Seq<Seq<char>>, requested: Seq<char>, at: int)
    ensures
        (forall|i: int|
            0 <= i < modes.len() ==> text::ascii_lower_text(#[trigger] modes[i])
                != text::ascii_lower_text(requested)) ==> matching_fan_mode(modes, requested)
            is None,
        0 <= at < modes.len() && text::ascii_lower_text(modes[at]) == text::ascii_lower_text(
            requested,
        ) && (forall|i: int|
            0 <= i < at ==> text::ascii_lower_text(#[trigger] modes[i]) != text::ascii_lower_text(
                requested,
            )) ==> matching_fan_mode(modes, requested) == Some(modes[at]),
    decreases modes.len(),
{
    if modes.len() > 0 {
        let rest = modes.drop_first();
        assert(forall|i: int| 0 <= i < rest.len() ==> #[trigger] rest[i] == modes[i + 1]);
        the_first_fitting_fan_mode_is_taken(rest, requested, at - 1);
    }
}

/// A control of one device changes that device and nothing else of the snapshot.
pub proof fn a_control_changes_one_device<T>(
    snapshot: home::SnapshotModel<T>,
    place: int,
    thermostat: home::ClimateModel<T>,
    light: home::LightModel,
    other: int,
)
    ensures
        ({
            let after = with_thermostat(snapshot, place, thermostat);
            &&& after.outside_temperature == snapshot.outside_temperature
            &&& after.outside_high == snapshot.outside_high
            &&& after.outside_condition == snapshot.outside_condition
            &&& after.weather_kind == snapshot.weather_kind
            &&& after.living_fan == snapshot.living_fan
            &&& after.lights == snapshot.lights
            &&& after.calendar_events == snapshot.calendar_events
            &&& 0 <= place < snapshot.thermostats.len() ==> {
                &&& after.thermostats.len() == snapshot.thermostats.len()
                &&& after.thermostats[place] == thermostat
                &&& 0 <= other < snapshot.thermostats.len() && other != place
                    ==> after.thermostats[other] == snapshot.thermostats[other]
            }
        }),
        ({
            let after = with_light(snapshot, place, light);
            &&& after.outside_temperature == snapshot.outside_temperature
            &&& after.outside_high == snapshot.outside_high
            &&& after.outside_condition == snapshot.outside_condition
            &&& after.weather_kind == snapshot.weather_kind
            &&& after.living_fan == snapshot.living_fan
            &&& after.thermostats == snapshot.thermostats
            &&& after.calendar_events == snapshot.calendar_events
            &&& 0 <= place < snapshot.lights.len() ==> {
                &&& after.lights.len() == snapshot.lights.len()
                &&& after.lights[place] == light
                &&& 0 <= other < snapshot.lights.len() && other != place ==> after.lights[other]
                    == snapshot.lights[other]
            }
        }),
{
}

/// Every control but a light tells that it is being saved, and each tells whether it was.
pub proof fn every_control_tells_its_status(control: Control)
    ensures
        saving_text(control) is None <==> control == Control::Light,
        saving_text(Control::SetPoint) == Some("SAVING SET POINT"@),
        saving_text(Control::Mode) == Some("SAVING MODE"@),
        saving_text(Control::FanSpeed) == Some("SAVING FAN SPEED"@),
        saving_text(Control::LivingFan) == Some("UPDATING LIVING ROOM FAN"@),
        saved_text(Control::SetPoint, true) == "SET POINT SAVED"@,
        saved_text(Control::SetPoint, false) == "SET POINT FAILED"@,
        saved_text(Control::Mode, true) == "MODE SAVED"@,
        saved_text(Control::Mode, false) == "MODE FAILED"@,
        saved_text(Control::FanSpeed, true) == "FAN SPEED SAVED"@,
        saved_text(Control::FanSpeed, false) == "FAN SPEED FAILED"@,
        saved_text(Control::LivingFan, true) == "LIVING ROOM FAN UPDATED"@,
        saved_text(Control::LivingFan, false) == "LIVING ROOM FAN FAILED"@,
        saved_text(Control::Light, true) == "LIGHT UPDATED"@,
        saved_text(Control::Light, false) == "LIGHT UPDATE FAILED"@,
{
}

} // verus!
