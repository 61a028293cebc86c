use kindle_dashboard::battery::{
    BatteryReadings, BatteryState, PowerSupply, battery_changed, battery_kind, battery_label,
    battery_state, is_battery_supply, parse_battery_level, power_supply_battery_property,
    powerd_property,
};

fn nothing_read() -> BatteryReadings {
    BatteryReadings {
        legacy_capacity: None,
        supply_capacity: None,
        powerd_level: None,
        supply_status: None,
        powerd_is_charging: None,
        legacy_charging: None,
        powerd_status: None,
    }
}

fn text(value: &str) -> Option<String> {
    Some(value.to_string())
}

#[test]
fn capacity_is_parsed_and_clamped() {
    assert_eq!(parse_battery_level("87%\n"), Some(87));
    assert_eq!(parse_battery_level("101\n"), Some(100));
}

#[test]
fn a_full_plugged_in_device_uses_the_plug_icon() {
    assert_eq!(battery_kind(100, false, true), "plug");
    assert_eq!(battery_kind(64, true, false), "battery-charging");
}

#[test]
fn a_capacity_is_a_number_of_eight_bits() {
    assert_eq!(parse_battery_level("0"), Some(0));
    assert_eq!(parse_battery_level("+7"), Some(7));
    assert_eq!(parse_battery_level("255"), Some(100));
    assert_eq!(parse_battery_level("256"), None);
    assert_eq!(parse_battery_level(""), None);
    assert_eq!(parse_battery_level("%"), None);
    assert_eq!(parse_battery_level("+"), None);
    assert_eq!(parse_battery_level("-1"), None);
    assert_eq!(parse_battery_level("5 0"), None);
    assert_eq!(parse_battery_level("\u{a0}42%%\u{2003}"), Some(42));
    assert_eq!(parse_battery_level("42% %"), None);
}

#[test]
fn the_icon_follows_the_level() {
    assert_eq!(battery_kind(80, false, false), "battery-full");
    assert_eq!(battery_kind(79, false, false), "battery-medium");
    assert_eq!(battery_kind(40, false, false), "battery-medium");
    assert_eq!(battery_kind(39, false, false), "battery-low");
    assert_eq!(battery_kind(15, false, false), "battery-low");
    assert_eq!(battery_kind(14, false, false), "battery");
    assert_eq!(battery_kind(14, true, true), "plug");
}

#[test]
fn batteries_are_known_by_name_or_type() {
    assert!(is_battery_supply("max77696-BATTERY.0", &None));
    assert!(is_battery_supply("bd71815", &text(" Battery\n")));
    assert!(!is_battery_supply("usb", &text("USB\n")));
    assert!(!is_battery_supply("batter", &text("bat tery")));
}

#[test]
fn the_first_battery_with_a_value_is_read() {
    let supplies = vec![
        PowerSupply { name: "usb".to_string(), kind: text("USB"), value: text("1") },
        PowerSupply { name: "battery0".to_string(), kind: None, value: None },
        PowerSupply { name: "b1".to_string(), kind: text("battery"), value: text(" 55 \n") },
        PowerSupply { name: "battery2".to_string(), kind: None, value: text("56") },
    ];
    assert_eq!(power_supply_battery_property(&supplies), text("55"));
    assert_eq!(power_supply_battery_property(&Vec::new()), None);
}

#[test]
fn output_of_the_daemon_is_decoded_and_trimmed() {
    assert_eq!(powerd_property(true, b" 87\n"), text("87"));
    assert_eq!(powerd_property(false, b"87"), None);
    assert_eq!(powerd_property(true, &[0x20, 0xff, 0x41]), text("\u{fffd}A"));
}

#[test]
fn the_capacity_has_three_sources() {
    let mut readings = nothing_read();
    assert_eq!(battery_state(&readings), None);
    readings.powerd_level = text("30");
    assert_eq!(battery_state(&readings), Some(BatteryState { level: 30, kind: "battery-low" }));
    readings.supply_capacity = text("50");
    assert_eq!(battery_state(&readings), Some(BatteryState { level: 50, kind: "battery-medium" }));
    readings.legacy_capacity = text("90%\n");
    assert_eq!(battery_state(&readings), Some(BatteryState { level: 90, kind: "battery-full" }));
    readings.legacy_capacity = text("unknown");
    assert_eq!(battery_state(&readings), None);
}

#[test]
fn a_full_battery_on_the_daemon_is_plugged_and_not_charging() {
    let mut readings = nothing_read();
    readings.legacy_capacity = text("100%");
    readings.powerd_is_charging = text("1");
    assert_eq!(battery_state(&readings).unwrap().kind, "battery-charging");
    readings.powerd_status = text("power_state=on batt_full=1 x");
    assert_eq!(battery_state(&readings).unwrap().kind, "plug");
    readings.powerd_is_charging = text("0");
    assert_eq!(battery_state(&readings).unwrap().kind, "battery-full");
    readings.legacy_charging = text("1\n");
    assert_eq!(battery_state(&readings).unwrap().kind, "battery-charging");
    readings.legacy_charging = None;
    readings.supply_status = text("CHARGING");
    assert_eq!(battery_state(&readings).unwrap().kind, "battery-charging");
    readings.supply_status = text("Full");
    readings.powerd_status = None;
    readings.powerd_is_charging = text("1");
    assert_eq!(battery_state(&readings).unwrap().kind, "plug");
}

#[test]
fn the_indicator_is_drawn_when_it_changes() {
    let low = BatteryState { level: 20, kind: "battery-low" };
    let lower = BatteryState { level: 19, kind: "battery-low" };
    assert!(battery_changed(&None, &Some(low)));
    assert!(!battery_changed(&Some(low), &Some(low)));
    assert!(battery_changed(&Some(low), &Some(lower)));
    assert!(!battery_changed(&Some(low), &None));
    assert_eq!(battery_label(&lower), "19%");
}
