use telegram_alarm_bot::config::{
    MqttTopics, SensorPayloadFieldNameAndStateMessages, SensorStateMessages, Sensors,
};
use telegram_alarm_bot::mqtt::{
    process_publish_notification, render_message, update_prev_sensor_data,
    PublishNotificationProcessingError,
};
use telegram_alarm_bot::sensors::{FieldValue, PrevSensorsData};
use telegram_alarm_bot::time::Timestamp;
use telegram_alarm_bot::SharedState;

fn at() -> Timestamp {
    Timestamp { seconds: 1_700_000_000 }
}

fn s(text: &str) -> String {
    text.to_string()
}

fn door_fields() -> SensorPayloadFieldNameAndStateMessages {
    SensorPayloadFieldNameAndStateMessages(vec![(
        s("contact"),
        SensorStateMessages(vec![(s("false"), s("opened")), (s("true"), s("closed"))]),
    )])
}

fn door_topics() -> MqttTopics {
    MqttTopics(vec![(s("zigbee2mqtt"), Sensors(vec![(s("Door.*"), door_fields())]))])
}

fn enabled_state() -> SharedState {
    SharedState { prev_sensors_data: PrevSensorsData::new(), notifications_enabled: true }
}

fn contact(value: bool) -> Vec<(String, FieldValue)> {
    vec![(s("contact"), FieldValue::Bool(value))]
}

#[test]
fn door_sensor_fires_on_change_only() {
    let topics = door_topics();
    let topic = s("zigbee2mqtt/Door opening sensor");
    let mut state = enabled_state();
    let first = process_publish_notification(&mut state, &topics, &topic, &contact(false), &at()).unwrap();
    assert_eq!(first, vec![s("opened")]);
    let second = process_publish_notification(&mut state, &topics, &topic, &contact(false), &at()).unwrap();
    assert!(second.is_empty());
    let third = process_publish_notification(&mut state, &topics, &topic, &contact(true), &at()).unwrap();
    assert_eq!(third, vec![s("closed")]);
    let entry = state.prev_sensors_data.get("zigbee2mqtt/Door opening sensor").unwrap();
    assert_eq!(entry.name, "Door opening sensor");
    assert_eq!(entry.trigger_state("contact"), Some(&s("true")));
}

#[test]
fn unknown_topic_is_ignored() {
    let topics = door_topics();
    let mut state = enabled_state();
    let out = process_publish_notification(&mut state, &topics, &s("other/Door"), &contact(false), &at()).unwrap();
    assert!(out.is_empty());
    assert!(state.prev_sensors_data.0.is_empty());
    assert!(state.notifications_enabled);
    let bare = process_publish_notification(&mut state, &topics, &s("zigbee2mqtt"), &contact(false), &at()).unwrap();
    assert!(bare.is_empty());
    assert!(state.prev_sensors_data.0.is_empty());
}

#[test]
fn repeated_event_fires_once() {
    let topics = door_topics();
    let topic = s("zigbee2mqtt/Door hall");
    let mut state = enabled_state();
    let data = contact(true);
    let first = process_publish_notification(&mut state, &topics, &topic, &data, &at()).unwrap();
    let second = process_publish_notification(&mut state, &topics, &topic, &data, &at()).unwrap();
    assert_eq!(first.len(), 1);
    assert!(second.is_empty());
}

#[test]
fn disable_then_enable() {
    let topics = door_topics();
    let topic = s("zigbee2mqtt/Door hall");
    let mut state = enabled_state();
    let now = telegram_alarm_bot::time::Timestamp { seconds: 0 };
    telegram_alarm_bot::telegram::handle_commands(&mut state, "/disable", &now);
    let muted = process_publish_notification(&mut state, &topics, &topic, &contact(false), &at()).unwrap();
    assert!(muted.is_empty());
    let entry = state.prev_sensors_data.get("zigbee2mqtt/Door hall").unwrap();
    assert_eq!(entry.trigger_state("contact"), Some(&s("false")));
    telegram_alarm_bot::telegram::handle_commands(&mut state, "/enable", &now);
    let same = process_publish_notification(&mut state, &topics, &topic, &contact(false), &at()).unwrap();
    assert!(same.is_empty());
    let changed = process_publish_notification(&mut state, &topics, &topic, &contact(true), &at()).unwrap();
    assert_eq!(changed, vec![s("closed")]);
}

#[test]
fn notifications_start_disabled() {
    let topics = door_topics();
    let mut state = SharedState::default();
    assert!(!state.notifications_enabled);
    let out = process_publish_notification(&mut state, &topics, &s("zigbee2mqtt/Door"), &contact(false), &at()).unwrap();
    assert!(out.is_empty());
    assert_eq!(state.prev_sensors_data.0.len(), 1);
}

#[test]
fn change_away_and_back_fires_again() {
    let topics = door_topics();
    let topic = s("zigbee2mqtt/Door");
    let mut state = enabled_state();
    let a = process_publish_notification(&mut state, &topics, &topic, &contact(false), &at()).unwrap();
    let b = process_publish_notification(&mut state, &topics, &topic, &contact(true), &at()).unwrap();
    let c = process_publish_notification(&mut state, &topics, &topic, &contact(false), &at()).unwrap();
    assert_eq!((a.len(), b.len(), c.len()), (1, 1, 1));
}

#[test]
fn value_without_template_is_recorded_but_silent() {
    let topics = door_topics();
    let topic = s("zigbee2mqtt/Door");
    let mut state = enabled_state();
    let data = vec![(s("contact"), FieldValue::Unsigned(3))];
    let out = process_publish_notification(&mut state, &topics, &topic, &data, &at()).unwrap();
    assert!(out.is_empty());
    let entry = state.prev_sensors_data.get("zigbee2mqtt/Door").unwrap();
    assert_eq!(entry.trigger_state("contact"), Some(&s("3")));
}

#[test]
fn template_substitution() {
    let template = s("Motion in {location} (#{id})");
    let both = vec![(s("location"), Some(s("kitchen"))), (s("id"), Some(s("2")))];
    assert_eq!(render_message(&template, &both), "Motion in kitchen (#2)");
    let missing = vec![(s("location"), None), (s("id"), Some(s("2")))];
    assert_eq!(render_message(&template, &missing), "Motion in {location} (#2)");
    let repeated = s("{a}{a}-{b}");
    let caps = vec![(s("a"), Some(s("x"))), (s("b"), Some(s("{a}")))];
    assert_eq!(render_message(&repeated, &caps), "xx-{a}");
}

#[test]
fn rendered_message_uses_topic_captures() {
    let fields = SensorPayloadFieldNameAndStateMessages(vec![(
        s("occupancy"),
        SensorStateMessages(vec![(s("true"), s("Motion in {location} (#{id})"))]),
    )]);
    let topics = MqttTopics(vec![(
        s("z2m"),
        Sensors(vec![(s(r"Motion (?P<location>[a-z]+)?\s*(?P<id>\d+)"), fields)]),
    )]);
    let mut state = enabled_state();
    let data = vec![(s("occupancy"), FieldValue::Bool(true))];
    let out = process_publish_notification(&mut state, &topics, &s("z2m/Motion kitchen 2"), &data, &at()).unwrap();
    assert_eq!(out, vec![s("Motion in kitchen (#2)")]);
    let out = process_publish_notification(&mut state, &topics, &s("z2m/Motion 7"), &data, &at()).unwrap();
    assert_eq!(out, vec![s("Motion in {location} (#7)")]);
}

#[test]
fn several_fields_fire_in_configured_order() {
    let fields = SensorPayloadFieldNameAndStateMessages(vec![
        (s("water_leak"), SensorStateMessages(vec![(s("true"), s("leak"))])),
        (s("tamper"), SensorStateMessages(vec![(s("true"), s("tamper"))])),
    ]);
    let topics = MqttTopics(vec![(s("z"), Sensors(vec![(s(".*"), fields)]))]);
    let mut state = enabled_state();
    let data = vec![(s("tamper"), FieldValue::Bool(true)), (s("water_leak"), FieldValue::Bool(true))];
    let out = process_publish_notification(&mut state, &topics, &s("z/sink"), &data, &at()).unwrap();
    assert_eq!(out, vec![s("leak"), s("tamper")]);
}

#[test]
fn string_value_keys_are_bare_text() {
    let fields = SensorPayloadFieldNameAndStateMessages(vec![(
        s("state"),
        SensorStateMessages(vec![(s("open"), s("window open")), (s("\"open\""), s("never"))]),
    )]);
    let topics = MqttTopics(vec![(s("z"), Sensors(vec![(s("Window"), fields)]))]);
    let mut state = enabled_state();
    let data = vec![(s("state"), FieldValue::Text(s("open")))];
    let out = process_publish_notification(&mut state, &topics, &s("z/Window"), &data, &at()).unwrap();
    assert_eq!(out, vec![s("window open")]);
}

#[test]
fn invalid_pattern_is_an_error_and_changes_nothing() {
    let topics = MqttTopics(vec![(s("z"), Sensors(vec![(s("Door("), door_fields())]))]);
    let mut state = enabled_state();
    let out = process_publish_notification(&mut state, &topics, &s("z/Door"), &contact(true), &at());
    assert!(matches!(out, Err(PublishNotificationProcessingError::RegexError(_))));
    assert!(state.prev_sensors_data.0.is_empty());
}

#[test]
fn battery_and_voltage_are_recorded() {
    let mut store = PrevSensorsData::new();
    let fields = door_fields();
    let topic = s("z/Door");
    let data = vec![
        (s("battery"), FieldValue::Unsigned(87)),
        (s("voltage"), FieldValue::Unsigned(3012)),
        (s("contact"), FieldValue::Bool(true)),
    ];
    update_prev_sensor_data(&mut store, &topic, &s("Door"), &fields, &data, &Timestamp { seconds: 10 });
    let entry = store.get("z/Door").unwrap();
    assert_eq!(entry.common.battery.unwrap().value, 87);
    assert_eq!(entry.common.voltage.unwrap().value, 3012);
    assert_eq!(entry.common.battery.unwrap().update_timestamp.seconds, 10);
    assert_eq!(entry.common.voltage.unwrap().update_timestamp.seconds, 10);
    assert_eq!(entry.update_timestamp.seconds, 10);
    assert_eq!(entry.common.battery_value_str(), "87%");
    assert_eq!(entry.common.voltage_value_str(), "3.012v");
    let bad = vec![
        (s("battery"), FieldValue::Unsigned(300)),
        (s("voltage"), FieldValue::Text(s("high"))),
    ];
    update_prev_sensor_data(&mut store, &topic, &s("Door"), &fields, &bad, &Timestamp { seconds: 20 });
    let entry = store.get("z/Door").unwrap();
    assert_eq!(entry.common.battery.unwrap().value, 87);
    assert_eq!(entry.common.voltage.unwrap().value, 3012);
    assert_eq!(entry.common.battery.unwrap().update_timestamp.seconds, 10);
    assert_eq!(entry.update_timestamp.seconds, 20);
    let more = vec![
        (s("battery"), FieldValue::Negative(-1)),
        (s("voltage"), FieldValue::Fraction { text: s("2999.6"), rounded: 3000 }),
    ];
    update_prev_sensor_data(&mut store, &topic, &s("Door"), &fields, &more, &Timestamp { seconds: 30 });
    let entry = store.get("z/Door").unwrap();
    assert_eq!(entry.common.battery.unwrap().value, 87);
    assert_eq!(entry.common.voltage.unwrap().value, 3000);
    assert_eq!(entry.common.voltage.unwrap().update_timestamp.seconds, 30);
    assert_eq!(entry.update_timestamp.seconds, 30);
    assert_eq!(store.0.len(), 1);
}

#[test]
fn every_event_refreshes_last_seen() {
    let topics = door_topics();
    let topic = s("zigbee2mqtt/Door");
    let mut state = enabled_state();
    let data = contact(true);
    process_publish_notification(&mut state, &topics, &topic, &data, &Timestamp { seconds: 5 }).unwrap();
    process_publish_notification(&mut state, &topics, &topic, &data, &Timestamp { seconds: 9 }).unwrap();
    let entry = state.prev_sensors_data.get("zigbee2mqtt/Door").unwrap();
    assert_eq!(entry.update_timestamp.seconds, 9);
}

#[test]
fn single_field_event_after_enable_sends_one_message() {
    let fields = SensorPayloadFieldNameAndStateMessages(vec![
        (s("contact"), SensorStateMessages(vec![(s("true"), s("closed")), (s("false"), s("opened"))])),
        (s("tamper"), SensorStateMessages(vec![(s("true"), s("tamper"))])),
    ]);
    let topics = MqttTopics(vec![(s("z"), Sensors(vec![(s(".*"), fields)]))]);
    assert!(topics.is_well_formed());
    let mut state = SharedState::default();
    let out = process_publish_notification(&mut state, &topics, &s("z/d"), &contact(false), &at()).unwrap();
    assert!(out.is_empty());
    state.notifications_enabled = true;
    let out = process_publish_notification(&mut state, &topics, &s("z/d"), &contact(true), &at()).unwrap();
    assert_eq!(out, vec![s("closed")]);
}
