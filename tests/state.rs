use telegram_alarm_bot::sensors::{
    CommonBatteryState, CommonState, CommonVoltageState, FieldValue, PrevData, PrevSensorsData,
};
use telegram_alarm_bot::telegram::{battery_report, handle_commands, status_report};
use telegram_alarm_bot::text::{i128_text, replace_all, starts_with, u64_text};
use telegram_alarm_bot::time::{LastSeenDuration, Timestamp};
use telegram_alarm_bot::SharedState;

fn s(text: &str) -> String {
    text.to_string()
}

fn ts(seconds: i64) -> Timestamp {
    Timestamp { seconds }
}

fn sensor(name: &str, seen: i64, battery: Option<(i64, u8)>, voltage: Option<(i64, i128)>) -> PrevData {
    PrevData {
        common: CommonState {
            battery: battery.map(|(t, v)| CommonBatteryState { update_timestamp: ts(t), value: v }),
            voltage: voltage.map(|(t, v)| CommonVoltageState { update_timestamp: ts(t), value: v }),
        },
        update_timestamp: ts(seen),
        name: s(name),
        trigger_states: vec![(s("contact"), s("true"))],
    }
}

fn store() -> PrevSensorsData {
    PrevSensorsData(vec![
        (s("z/Door"), sensor("Door", 1000, Some((900, 87)), Some((400, 3012)))),
        (s("z/Lamp"), sensor("Lamp", 50, None, None)),
    ])
}

#[test]
fn snapshot_then_restore_keeps_readings_but_not_triggers() {
    let saved = store();
    let restored = PrevSensorsData::restore(saved.snapshot());
    assert_eq!(restored.0.len(), 2);
    for (topic, before) in &saved.0 {
        let after = restored.get(topic).unwrap();
        assert_eq!(after.name, before.name);
        assert_eq!(after.update_timestamp, before.update_timestamp);
        assert_eq!(after.common.battery, before.common.battery);
        assert_eq!(after.common.voltage, before.common.voltage);
        assert!(after.trigger_states.is_empty());
    }
}

#[test]
fn restore_keeps_the_last_record_of_a_topic() {
    let mut records = store().snapshot();
    let mut again = store().snapshot();
    again[0].name = s("Front door");
    records.push(again.remove(0));
    let restored = PrevSensorsData::restore(records);
    assert_eq!(restored.0.len(), 2);
    assert_eq!(restored.get("z/Door").unwrap().name, "Front door");
    assert!(PrevSensorsData::restore(vec![]).0.is_empty());
}

#[test]
fn durations() {
    assert_eq!(LastSeenDuration::new(&ts(100), &ts(50)).seconds, 0);
    assert_eq!(LastSeenDuration::new(&ts(50), &ts(100)).seconds, 50);
    assert_eq!(LastSeenDuration { seconds: 0 }.to_string(), "0s");
    assert_eq!(LastSeenDuration { seconds: 59 }.to_string(), "59s");
    assert_eq!(LastSeenDuration { seconds: 3661 }.to_string(), "1h1m1s");
    assert_eq!(LastSeenDuration { seconds: 86400 }.to_string(), "1d");
    assert_eq!(LastSeenDuration { seconds: 6000000 }.to_string(), "69d10h40m");
    assert_eq!(LastSeenDuration::new(&ts(i64::MIN), &ts(i64::MAX)).seconds as u64, u64::MAX);
}

#[test]
fn min_and_max_since_update() {
    let data = store();
    let door = &data.0[0].1.common;
    let now = ts(1000);
    assert_eq!(door.time_min_since_last_update(&now).unwrap().seconds, 100);
    assert_eq!(door.time_max_since_last_update(&now).unwrap().seconds, 600);
    assert_eq!(door.time_max_since_last_update_str(&now), "last update 10m ago");
    let lamp = &data.0[1].1.common;
    assert!(lamp.time_min_since_last_update(&now).is_none());
    assert!(lamp.time_max_since_last_update(&now).is_none());
    assert_eq!(lamp.time_max_since_last_update_str(&now), "no data");
    assert_eq!(door.time_min_since_last_update(&ts(0)).unwrap().seconds, 0);
}

#[test]
fn reading_texts() {
    let mut c = CommonState::default();
    assert_eq!(c.battery_value_str(), "unknown percent");
    assert_eq!(c.voltage_value_str(), "unknown voltage");
    c.update_battery(5, &ts(7));
    c.update_voltage(-5, &ts(8));
    assert_eq!(c.battery, Some(CommonBatteryState { update_timestamp: ts(7), value: 5 }));
    assert_eq!(c.voltage, Some(CommonVoltageState { update_timestamp: ts(8), value: -5 }));
    assert_eq!(c.battery_value_str(), "5%");
    assert_eq!(c.voltage_value_str(), "-0.005v");
    c.update_voltage(0, &ts(9));
    assert_eq!(c.voltage_value_str(), "0.000v");
    c.update_voltage(12345, &ts(9));
    assert_eq!(c.voltage_value_str(), "12.345v");
    assert_eq!(c.battery.unwrap().value, 5);
}

#[test]
fn field_value_json_text() {
    assert_eq!(FieldValue::Bool(false).to_state_text(), "false");
    assert_eq!(FieldValue::Null.to_state_text(), "null");
    assert_eq!(FieldValue::Unsigned(42).to_state_text(), "42");
    assert_eq!(FieldValue::Negative(-7).to_state_text(), "-7");
    assert_eq!(FieldValue::Text(s("a\"b")).to_state_text(), "a\"b");
    assert_eq!(FieldValue::Text(s("open")).to_state_text(), "open");
    assert_eq!(FieldValue::Fraction { text: s("3.5"), rounded: 4 }.to_state_text(), "3.5");
    assert_eq!(FieldValue::Composite(s("[1,2]")).to_state_text(), "[1,2]");
    assert_eq!(FieldValue::Unsigned(300).battery(), None);
    assert_eq!(FieldValue::Unsigned(255).battery(), Some(255));
    assert_eq!(FieldValue::Fraction { text: s("3.5"), rounded: 4 }.voltage(), Some(4));
}

#[test]
fn battery_command_report() {
    let mut state = SharedState { prev_sensors_data: store(), notifications_enabled: false };
    let reply = handle_commands(&mut state, "/battery", &ts(1000));
    assert_eq!(
        reply,
        "• <b>Door</b>: 87% / 3.012v (last update 10m ago)\n• <b>Lamp</b>: unknown percent / unknown voltage (no data)"
    );
    assert_eq!(battery_report(&PrevSensorsData::new(), &ts(0)), "No data");
}

#[test]
fn status_command_report() {
    let mut state = SharedState { prev_sensors_data: store(), notifications_enabled: true };
    let reply = handle_commands(&mut state, "/status", &ts(1000));
    assert_eq!(
        reply,
        "Sensors:\n• <b>Door</b>: last seen 0s ago\n• <b>Lamp</b>: last seen 15m50s ago\n\nNotifications are enabled"
    );
    let empty = SharedState::default();
    assert_eq!(status_report(&empty, &ts(0)), "Sensors:\nno sensors seen\n\nNotifications are disabled");
}

#[test]
fn switch_commands() {
    let mut state = SharedState::default();
    assert_eq!(handle_commands(&mut state, "/enable", &ts(0)), "Notifications enabled");
    assert!(state.notifications_enabled);
    assert_eq!(handle_commands(&mut state, "/disable", &ts(0)), "Notifications disabled");
    assert!(!state.notifications_enabled);
    assert_eq!(
        handle_commands(&mut state, "/help", &ts(0)),
        "/enable - enable notifications\n/disable - disable notifications\n/status - display bot and sensors status\n/battery - display latest sensors battery info"
    );
    assert_eq!(
        handle_commands(&mut state, "/Enable", &ts(0)),
        "Invalid command, use /help to display available commands"
    );
    assert!(!state.notifications_enabled);
}

#[test]
fn store_touch_and_triggers() {
    let mut data = PrevSensorsData::new();
    let i = data.touch(&s("a"), &s("A"), &ts(1));
    let j = data.touch(&s("b"), &s("B"), &ts(2));
    let k = data.touch(&s("a"), &s("other"), &ts(3));
    assert_eq!((i, j, k), (0, 1, 0));
    assert_eq!(data.get("a").unwrap().name, "A");
    assert_eq!(data.get("a").unwrap().update_timestamp, ts(3));
    assert_eq!(data.get("b").unwrap().update_timestamp, ts(2));
    assert!(data.is_well_formed());
    assert!(data.get("c").is_none());
    let mut pd = PrevData::new(s("X"), &ts(100));
    assert_eq!(pd.update_timestamp, ts(100));
    pd.set_trigger_state(&s("f"), s("1"));
    pd.set_trigger_state(&s("g"), s("2"));
    pd.set_trigger_state(&s("f"), s("3"));
    assert_eq!(pd.trigger_state("f"), Some(&s("3")));
    assert_eq!(pd.trigger_state("g"), Some(&s("2")));
    assert_eq!(pd.trigger_state("h"), None);
    assert_eq!(pd.trigger_states.len(), 2);
    pd.update_battery(40, &ts(120));
    assert_eq!(pd.common.battery, Some(CommonBatteryState { update_timestamp: ts(120), value: 40 }));
    assert_eq!(pd.update_timestamp, ts(120));
    pd.update_voltage(2900, &ts(130));
    assert_eq!(pd.common.voltage, Some(CommonVoltageState { update_timestamp: ts(130), value: 2900 }));
    assert_eq!(pd.common.battery.unwrap().update_timestamp, ts(120));
    pd.last_seen_now(&ts(140));
    assert_eq!(pd.update_timestamp, ts(140));
    assert_eq!(pd.time_since_last_seen(&ts(pd.update_timestamp.seconds + 5)).seconds, 5);
}

#[test]
fn text_helpers() {
    assert_eq!(u64_text(0), "0");
    assert_eq!(u64_text(u64::MAX), "18446744073709551615");
    assert_eq!(i128_text(i128::MIN), "-170141183460469231731687303715884105728");
    assert_eq!(i128_text(-12), "-12");
    assert!(starts_with("abc", "ab"));
    assert!(!starts_with("ab", "abc"));
    assert!(starts_with("ab", ""));
    assert_eq!(replace_all("aaa", "aa", "b"), "ba");
    assert_eq!(replace_all("héllo", "é", "e"), "hello");
}

#[test]
fn duplicate_topics_are_detected() {
    let dup = PrevSensorsData(vec![
        (s("a"), sensor("A", 0, None, None)),
        (s("b"), sensor("B", 0, None, None)),
        (s("a"), sensor("C", 0, None, None)),
    ]);
    assert!(!dup.is_well_formed());
    assert!(store().is_well_formed());
}
