//! The battery indicator: what the Kindle reports about its battery, and how it is shown.

use vstd::prelude::*;

use crate::text;
use crate::text::{
    contains, decimal, eq_ignore_ascii_case, join2, parse_number, text_eq, to_ascii_lowercase, trim,
    trim_end_matches,
};

verus! {

// ---------------------------------------------------------------------------
// Level and icon
// ---------------------------------------------------------------------------

/// The battery level that a capacity text stands for: a number that fits a byte, with white space
/// around it and percent signs after it, and no more than one hundred.
pub open spec fn battery_level(capacity: Seq<char>) -> Option<nat> {
    match text::number_up_to(text::without_trailing(text::trimmed(capacity), '%'), 255) {
        Some(n) => Some(
            if n <= 100 {
                n
            } else {
                100
            },
        ),
        None => None,
    }
}

/// The battery level that a capacity text stands for.
pub fn parse_battery_level(capacity: &str) -> (r: Option<u8>)
    ensures
        r is Some <==> battery_level(capacity@) is Some,
        r matches Some(level) ==> battery_level(capacity@) == Some(level as nat) && level <= 100,
{
    match parse_number(trim_end_matches(trim(capacity), '%'), 255) {
        Some(n) => Some(
            if n <= 100 {
                n as u8
            } else {
                100
            },
        ),
        None => None,
    }
}

/// The icon for a battery.
pub open spec fn battery_icon(level: nat, charging: bool, plugged_full: bool) -> Seq<char> {
    if plugged_full {
        "plug"@
    } else if charging {
        "battery-charging"@
    } else if level >= 80 {
        "battery-full"@
    } else if level >= 40 {
        "battery-medium"@
    } else if level >= 15 {
        "battery-low"@
    } else {
        "battery"@
    }
}

/// The icon for a battery.
pub fn battery_kind(level: u8, charging: bool, plugged_full: bool) -> (r: &'static str)
    ensures
        r@ == battery_icon(level as nat, charging, plugged_full),
{
    if plugged_full {
        "plug"
    } else if charging {
        "battery-charging"
    } else if level >= 80 {
        "battery-full"
    } else if level >= 40 {
        "battery-medium"
    } else if level >= 15 {
        "battery-low"
    } else {
        "battery"
    }
}

// ---------------------------------------------------------------------------
// Sources of battery properties
// ---------------------------------------------------------------------------

/// An entry of the power supply class: its name, the content of its `type` file and the content
/// of the file for the property that is asked for, as far as they could be read.
#[derive(Debug, PartialEq)]
pub struct PowerSupply {
    pub name: String,
    pub kind: Option<String>,
    pub value: Option<String>,
}

/// A power supply is a battery when its name holds the word, in any case of the letters, or when
/// its type is that word.
pub open spec fn is_battery(name: Seq<char>, kind: Option<Seq<char>>) -> bool {
    ||| text::occurs_in(text::ascii_lower_text(name), "battery"@)
    ||| kind matches Some(k) && text::ascii_lower_text(text::trimmed(k)) == text::ascii_lower_text(
        "battery"@,
    )
}

/// Whether a power supply is a battery.
pub fn is_battery_supply(name: &str, kind: &Option<String>) -> (r: bool)
    ensures
        r == is_battery(name@, text::text_in(*kind)),
{
    let name_is_battery = contains(&to_ascii_lowercase(name), "battery");
    let type_is_battery = match kind {
        Some(value) => eq_ignore_ascii_case(trim(value), "battery"),
        None => false,
    };
    name_is_battery || type_is_battery
}

/// The property of the first battery whose property can be read, without the white space
/// around it.
pub open spec fn first_battery_value(supplies: Seq<PowerSupply>) -> Option<Seq<char>>
    decreases supplies.len(),
{
    if supplies.len() == 0 {
        None
    } else if is_battery(supplies[0].name@, text::text_in(supplies[0].kind)) && supplies[0].value is Some {
        Some(text::trimmed(supplies[0].value->0@))
    } else {
        first_battery_value(supplies.drop_first())
    }
}

/// The property of the first battery whose property can be read.
pub fn power_supply_battery_property(supplies: &Vec<PowerSupply>) -> (r: Option<String>)
    ensures
        text::text_in(r) == first_battery_value(supplies@),
{
    let mut i: usize = 0;
    assert(supplies@.skip(0) =~= supplies@);
    while i < supplies.len()
        invariant
            i <= supplies@.len(),
            first_battery_value(supplies@) == first_battery_value(supplies@.skip(i as int)),
        decreases supplies@.len() - i,
    {
        let supply = &supplies[i];
        assert(supplies@.skip(i as int).drop_first() =~= supplies@.skip(i + 1));
        if is_battery_supply(&supply.name, &supply.kind) {
            if let Some(value) = &supply.value {
                return Some(trim(value).to_owned());
            }
        }
        i = i + 1;
    }
    None
}

/// The text that `String::from_utf8_lossy` makes of bytes.
pub uninterp spec fn lossy_text(bytes: Seq<u8>) -> Seq<char>;

/// `String::from_utf8_lossy`: bytes that are UTF-8 are decoded. Of other bytes the library only
/// names the text, in which replacement characters stand for what is not UTF-8.
#[verifier::external_body]
fn decode_lossy(bytes: &[u8]) -> (r: String)
    ensures
        r@ == lossy_text(bytes@),
        vstd::utf8::valid_utf8(bytes@) ==> r@ == vstd::utf8::decode_utf8(bytes@),
{
    String::from_utf8_lossy(bytes).into_owned()
}

/// The answer of the power daemon: what its query tool printed, without the white space around
/// it, or nothing when the tool failed.
pub fn powerd_property(succeeded: bool, output: &[u8]) -> (r: Option<String>)
    ensures
        r is Some <==> succeeded,
        r matches Some(value) ==> value@ == text::trimmed(lossy_text(output@)),
        r matches Some(value) ==> vstd::utf8::valid_utf8(output@) ==> value@ == text::trimmed(
            vstd::utf8::decode_utf8(output@),
        ),
{
    if succeeded {
        Some(trim(&decode_lossy(output)).to_owned())
    } else {
        None
    }
}

// ---------------------------------------------------------------------------
// The state of the battery
// ---------------------------------------------------------------------------

/// What the device tells about its battery, as far as it could be read.
#[derive(Debug, PartialEq)]
pub struct BatteryReadings {
    /// The content of the legacy capacity file.
    pub legacy_capacity: Option<String>,
    /// The `capacity` of the battery in the power supply class.
    pub supply_capacity: Option<String>,
    /// The `battLevel` of the power daemon.
    pub powerd_level: Option<String>,
    /// The `status` of the battery in the power supply class.
    pub supply_status: Option<String>,
    /// The `isCharging` of the power daemon.
    pub powerd_is_charging: Option<String>,
    /// The content of the legacy charger flag.
    pub legacy_charging: Option<String>,
    /// The `status` of the power daemon.
    pub powerd_status: Option<String>,
}

/// What is shown of the battery.
#[derive(Clone, Copy, Debug, PartialEq)]
pub struct BatteryState {
    pub level: u8,
    pub kind: &'static str,
}

impl BatteryReadings {
    /// The first capacity that could be read: the legacy file, the power supply class, the
    /// power daemon.
    pub open spec fn capacity(self) -> Option<Seq<char>> {
        if self.legacy_capacity is Some {
            text::text_in(self.legacy_capacity)
        } else if self.supply_capacity is Some {
            text::text_in(self.supply_capacity)
        } else {
            text::text_in(self.powerd_level)
        }
    }

    /// The power daemon says that the battery charges.
    pub open spec fn powerd_charges(self) -> bool {
        text::text_in(self.powerd_is_charging) == Some("1"@)
    }

    /// The battery is full, by the power supply class or by the power daemon's flag.
    pub open spec fn full(self) -> bool {
        ||| self.supply_status matches Some(status) && text::ascii_lower_text(status@)
            == text::ascii_lower_text("full"@)
        ||| self.powerd_status matches Some(status) && text::occurs_in(status@, "batt_full=1"@)
    }

    /// The battery charges: by the legacy flag, by the power supply class, or by the power
    /// daemon as long as the battery is not full.
    pub open spec fn charges(self) -> bool {
        ||| self.legacy_charging matches Some(flag) && text::trimmed(flag@) == "1"@
        ||| self.supply_status matches Some(status) && text::ascii_lower_text(status@)
            == text::ascii_lower_text("charging"@)
        ||| self.powerd_charges() && !self.full()
    }
}

/// What is shown of the battery: nothing without a capacity that makes sense.
pub fn battery_state(readings: &BatteryReadings) -> (r: Option<BatteryState>)
    ensures
        r is Some <==> readings.capacity() is Some && battery_level(readings.capacity()->0) is Some,
        r matches Some(state) ==> {
            &&& battery_level(readings.capacity()->0) == Some(state.level as nat)
            &&& state.level <= 100
            &&& state.kind@ == battery_icon(
                state.level as nat,
                readings.charges(),
                readings.powerd_charges() && readings.full(),
            )
        },
{
    let capacity: &String = if let Some(value) = &readings.legacy_capacity {
        value
    } else if let Some(value) = &readings.supply_capacity {
        value
    } else if let Some(value) = &readings.powerd_level {
        value
    } else {
        return None;
    };
    let level: u8 = match parse_battery_level(capacity) {
        Some(level) => level,
        None => {
            return None;
        },
    };

    let powerd_charging = match &readings.powerd_is_charging {
        Some(value) => text_eq(value, "1"),
        None => false,
    };
    let legacy_charging = match &readings.legacy_charging {
        Some(value) => text_eq(trim(value), "1"),
        None => false,
    };
    let (status_charging, status_full) = match &readings.supply_status {
        Some(status) => (
            eq_ignore_ascii_case(status, "charging"),
            eq_ignore_ascii_case(status, "full"),
        ),
        None => (false, false),
    };
    // The legacy charger flag goes back to zero when charging completes; the daemon keeps a flag
    // of its own for a full battery, which tells a topped-off device from a charging one.
    let powerd_full = match &readings.powerd_status {
        Some(status) => contains(status, "batt_full=1"),
        None => false,
    };

    let full = status_full || powerd_full;
    let charging = legacy_charging || status_charging || (powerd_charging && !full);
    let kind = battery_kind(level, charging, powerd_charging && full);
    Some(BatteryState { level, kind })
}

/// The text beside the battery icon.
pub fn battery_label(state: &BatteryState) -> (r: String)
    ensures
        r@ == text::decimal_digits(state.level as nat) + "%"@,
{
    join2(&decimal(state.level as u64), "%")
}

/// The two states look the same.
pub open spec fn same_battery(a: BatteryState, b: BatteryState) -> bool {
    a.level == b.level && a.kind@ == b.kind@
}

/// Whether the indicator has to be drawn again: there is a state and it is not the one shown.
pub fn battery_changed(displayed: &Option<BatteryState>, current: &Option<BatteryState>) -> (r: bool)
    ensures
        r == (current is Some && !(displayed is Some && same_battery(displayed->0, current->0))),
{
    match (displayed, current) {
        (_, None) => false,
        (None, Some(_)) => true,
        (Some(shown), Some(now)) => shown.level != now.level || !text_eq(shown.kind, now.kind),
    }
}

/// A device that is on power with a full battery shows the plug, and only such a device does.
pub proof fn plug_means_full_on_power(readings: BatteryReadings, level: nat)
    ensures
        battery_icon(level, readings.charges(), readings.powerd_charges() && readings.full())
            == "plug"@ <==> readings.powerd_charges() && readings.full(),
{
    reveal_strlit("plug");
    reveal_strlit("battery-charging");
    reveal_strlit("battery-full");
    reveal_strlit("battery-medium");
    reveal_strlit("battery-low");
    reveal_strlit("battery");
    assert("plug"@.len() == 4);
    assert("battery-charging"@.len() == 16);
    assert("battery-full"@.len() == 12);
    assert("battery-medium"@.len() == 14);
    assert("battery-low"@.len() == 11);
    assert("battery"@.len() == 7);
}

/// Power by the daemon alone charges the battery until it is full, and never after.
pub proof fn daemon_power_stops_counting_when_full(readings: BatteryReadings)
    requires
        readings.legacy_charging is None,
        readings.supply_status is None,
        readings.powerd_charges(),
    ensures
        readings.charges() == !readings.full(),
{
}

/// A capacity is a number with white space around it and percent signs after it. A number of eight
/// bits gives the level, which is one hundred at most; a larger one gives none.
pub proof fn a_capacity_is_a_number_of_percent(
    front: Seq<char>,
    n: nat,
    signs: nat,
    back: Seq<char>,
)
    requires
        forall|i: int| 0 <= i < front.len() ==> text::white_space(#[trigger] front[i]),
        forall|i: int| 0 <= i < back.len() ==> text::white_space(#[trigger] back[i]),
    ensures
        battery_level(
            front + (text::decimal_digits(n) + Seq::new(signs, |i: int| '%')) + back,
        ) == if n > 255 {
            None
        } else if n > 100 {
            Some(100nat)
        } else {
            Some(n)
        },
{
    let digits = text::decimal_digits(n);
    let core = digits + Seq::new(signs, |i: int| '%');
    text::lemma_decimal_digits(n);
    assert(text::is_digit(digits[0]));
    assert(text::is_digit(digits[digits.len() - 1]));
    assert(core[0] == digits[0]);
    assert(core.last() == if signs == 0 {
        digits[digits.len() - 1]
    } else {
        '%'
    });
    text::trimming_takes_what_stands_around(front, core, back);
    text::trailing_marks_do_not_matter(digits, signs, '%');
    text::decimal_round_trip(n);
}

/// A text gives a level if and only if a number of eight bits is left of it without the white space
/// around it and then the percent signs at its end; and the level is that number, capped.
pub proof fn nothing_but_a_number_is_a_capacity(capacity: Seq<char>)
    ensures
        ({
            let left = text::without_trailing(text::trimmed(capacity), '%');
            match text::spelled_number(left) {
                Some(n) => {
                    &&& n <= 100 ==> battery_level(capacity) == Some(n)
                    &&& 100 <= n <= 255 ==> battery_level(capacity) == Some(100nat)
                    &&& n > 255 ==> battery_level(capacity) is None
                },
                None => battery_level(capacity) is None,
            }
        }),
{
}

/// The plug comes before the charging battery, and that before the level, which has four icons.
pub proof fn each_level_has_its_icon(level: nat, charging: bool)
    ensures
        battery_icon(level, charging, true) == "plug"@,
        battery_icon(level, true, false) == "battery-charging"@,
        80 <= level ==> battery_icon(level, false, false) == "battery-full"@,
        40 <= level < 80 ==> battery_icon(level, false, false) == "battery-medium"@,
        15 <= level < 40 ==> battery_icon(level, false, false) == "battery-low"@,
        level < 15 ==> battery_icon(level, false, false) == "battery"@,
{
}

/// A power supply is a battery by the word in its name, in any case of the letters, or by the word
/// as its type, with white space around it; and by nothing else.
pub proof fn a_battery_is_known_by_name_or_type(
    front: Seq<char>,
    word: Seq<char>,
    back: Seq<char>,
    name: Seq<char>,
    kind: Option<Seq<char>>,
)
    ensures
        text::ascii_lower_text(word) == "battery"@ ==> is_battery(front + word + back, kind),
        kind matches Some(k) && text::ascii_lower_text(text::trimmed(k)) == "battery"@
            ==> is_battery(name, kind),
        !text::occurs_in(text::ascii_lower_text(name), "battery"@) && kind is None ==> !is_battery(
            name,
            kind,
        ),
        !text::occurs_in(text::ascii_lower_text(name), "battery"@) ==> (kind matches Some(k)
            && text::ascii_lower_text(text::trimmed(k)) != "battery"@ ==> !is_battery(name, kind)),
{
    reveal_strlit("battery");
    assert(text::ascii_lower_text("battery"@) =~= "battery"@);
    if text::ascii_lower_text(word) == "battery"@ {
        let low_front = text::ascii_lower_text(front);
        let low_back = text::ascii_lower_text(back);
        text::a_pattern_stands_between_two_parts(low_front, "battery"@, low_front, low_back);
        assert(text::ascii_lower_text(front + word + back) =~= low_front + "battery"@ + low_back);
    }
}

/// The property is that of the first battery which has one, trimmed; without one there is none.
pub proof fn the_first_battery_with_a_property_counts(supplies: Seq<PowerSupply>, at: int)
    ensures
        (forall|i: int|
            0 <= i < supplies.len() ==> !((#[trigger] supplies[i]).value is Some && is_battery(
                supplies[i].name@,
                text::text_in(supplies[i].kind),
            ))) ==> first_battery_value(supplies) is None,
        0 <= at < supplies.len() && supplies[at].value is Some && is_battery(
            supplies[at].name@,
            text::text_in(supplies[at].kind),
        ) && (forall|i: int|
            0 <= i < at ==> !((#[trigger] supplies[i]).value is Some && is_battery(
                supplies[i].name@,
                text::text_in(supplies[i].kind),
            ))) ==> first_battery_value(supplies) == Some(text::trimmed(supplies[at].value->0@)),
    decreases supplies.len(),
{
    if supplies.len() > 0 {
        let rest = supplies.drop_first();
        assert(forall|i: int| 0 <= i < rest.len() ==> #[trigger] rest[i] == supplies[i + 1]);
        the_first_battery_with_a_property_counts(rest, at - 1);
    }
}

/// The capacity is that of the first source that has one. The battery charges, and is full, by what
/// any of the sources says; the daemon's word for charging counts only while none says full.
pub proof fn each_source_has_its_say(readings: BatteryReadings)
    ensures
        readings.legacy_capacity matches Some(c) ==> readings.capacity() == Some(c@),
        readings.legacy_capacity is None ==> (readings.supply_capacity matches Some(c)
            ==> readings.capacity() == Some(c@)),
        readings.legacy_capacity is None && readings.supply_capacity is None ==> (
        readings.powerd_level matches Some(c) ==> readings.capacity() == Some(c@)),
        readings.capacity() is None <==> readings.legacy_capacity is None
            && readings.supply_capacity is None && readings.powerd_level is None,
        readings.powerd_charges() <==> (readings.powerd_is_charging matches Some(v) && v@ == "1"@),
        readings.full() <==> {
            ||| readings.supply_status matches Some(v) && text::ascii_lower_text(v@) == "full"@
            ||| readings.powerd_status matches Some(v) && text::occurs_in(v@, "batt_full=1"@)
        },
        readings.charges() <==> {
            ||| readings.legacy_charging matches Some(v) && text::trimmed(v@) == "1"@
            ||| readings.supply_status matches Some(v) && text::ascii_lower_text(v@) == "charging"@
            ||| (readings.powerd_is_charging matches Some(v) && v@ == "1"@) && !readings.full()
        },
{
    reveal_strlit("full");
    reveal_strlit("charging");
    assert(text::ascii_lower_text("full"@) =~= "full"@);
    assert(text::ascii_lower_text("charging"@) =~= "charging"@);
}

/// Two states look the same if and only if the level and the icon are the same.
pub proof fn the_indicator_is_level_and_icon(a: BatteryState, b: BatteryState)
    ensures
        same_battery(a, a),
        a.level != b.level ==> !same_battery(a, b),
        a.kind@ != b.kind@ ==> !same_battery(a, b),
        a.level == b.level && a.kind@ == b.kind@ ==> same_battery(a, b),
{
}

} // verus!
