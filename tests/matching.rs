use telegram_alarm_bot::config::{
    sensors_data_file_default, Config, MqttTopics, SensorPayloadFieldNameAndStateMessages,
    SensorStateMessages, Sensors, Telegram,
};
use telegram_alarm_bot::log_level::LogLevel;

fn s(text: &str) -> String {
    text.to_string()
}

fn table(field: &str) -> SensorPayloadFieldNameAndStateMessages {
    SensorPayloadFieldNameAndStateMessages(vec![(
        s(field),
        SensorStateMessages(vec![(s("true"), s("on"))]),
    )])
}

fn topics() -> MqttTopics {
    MqttTopics(vec![
        (
            s("home"),
            Sensors(vec![
                (s(r"(?P<room>\w+) motion (?P<id>\d+)"), table("occupancy")),
                (s(r"(\w+) (?P<kind>door|window)"), table("contact")),
                (s(".*"), table("any")),
            ]),
        ),
        (s("home/garden"), Sensors(vec![(s(".*"), table("garden"))])),
        (s("office"), Sensors(vec![(s("^Lamp$"), table("state"))])),
    ])
}

fn config(topics: MqttTopics) -> Config {
    Config {
        log_level: LogLevel::default(),
        sensors_data_file: sensors_data_file_default(),
        mqtt_broker: None,
        telegram: Telegram { token: s("t"), notification_chat_ids: vec![1, 2], admin_chat_ids: Some(vec![3]) },
        mqtt_topics: topics,
    }
}

#[test]
fn topic_captures_equal_direct_regex_captures() {
    let topics = topics();
    let pattern = r"(?P<room>\w+) motion (?P<id>\d+)";
    let name = "kitchen motion 2";
    let (sensor, captures, fields) = topics.match_topic(&format!("home/{name}")).unwrap().unwrap();
    let re = regex::Regex::new(pattern).unwrap();
    let direct = re.captures(name).unwrap();
    assert_eq!(sensor, direct.get(0).unwrap().as_str());
    let expected: Vec<(String, Option<String>)> = re
        .capture_names()
        .flatten()
        .map(|n| (n.to_string(), direct.name(n).map(|m| m.as_str().to_string())))
        .collect();
    assert_eq!(captures, expected);
    assert_eq!(captures, vec![(s("room"), Some(s("kitchen"))), (s("id"), Some(s("2")))]);
    assert_eq!(fields.payload_field_names(), vec![&s("occupancy")]);
}

#[test]
fn first_matching_pattern_wins_and_unnamed_groups_are_left_out() {
    let topics = topics();
    let (sensor, captures, fields) = topics.match_topic(&s("home/hall door")).unwrap().unwrap();
    assert_eq!(sensor, "hall door");
    assert_eq!(captures, vec![(s("kind"), Some(s("door")))]);
    assert_eq!(fields.0[0].0, "contact");
    let (sensor, captures, fields) = topics.match_topic(&s("home/thermometer")).unwrap().unwrap();
    assert_eq!(sensor, "thermometer");
    assert!(captures.is_empty());
    assert_eq!(fields.0[0].0, "any");
}

#[test]
fn whole_match_is_the_sensor_name() {
    let sensors = Sensors(vec![(s(r"Door \d"), table("contact"))]);
    let (name, captures, _) = sensors.match_sensor_name("Front Door 1 left").unwrap().unwrap();
    assert_eq!(name, "Door 1");
    assert!(captures.is_empty());
}

#[test]
fn named_group_that_did_not_take_part_is_absent() {
    let sensors = Sensors(vec![(s(r"(?P<a>x)?y"), table("f"))]);
    let (name, captures, _) = sensors.match_sensor_name("y").unwrap().unwrap();
    assert_eq!(name, "y");
    assert_eq!(captures, vec![(s("a"), None)]);
}

#[test]
fn first_base_wins() {
    let topics = topics();
    let (_, _, fields) = topics.match_topic(&s("home/garden/pond")).unwrap().unwrap();
    assert_eq!(fields.0[0].0, "any");
}

#[test]
fn unmatched_names_and_topics() {
    let topics = topics();
    assert!(topics.match_topic(&s("office/Lamp 2")).unwrap().is_none());
    assert!(topics.match_topic(&s("garage/x")).unwrap().is_none());
    assert!(topics.match_topic(&s("homeless/x")).unwrap().is_none());
    assert!(topics.match_topic(&s("office")).unwrap().is_none());
    assert!(topics.match_topic(&s("office/Lamp")).unwrap().is_some());
}

#[test]
fn invalid_pattern_fails_when_reached() {
    let sensors = Sensors(vec![(s("Lamp"), table("a")), (s("(unclosed"), table("b"))]);
    assert!(sensors.match_sensor_name("Lamp").unwrap().is_some());
    assert!(sensors.match_sensor_name("Door").is_err());
}

#[test]
fn config_check_finds_invalid_patterns() {
    assert!(config(topics()).check());
    let bad = MqttTopics(vec![(s("a"), Sensors(vec![(s("ok"), table("x")), (s("[z-a]"), table("y"))]))]);
    let bad_config = config(bad);
    assert!(!bad_config.check());
    let errors = bad_config.pattern_errors();
    assert_eq!(errors.len(), 1);
    assert_eq!(errors[0].0, "[z-a]");
    assert!(config(topics()).pattern_errors().is_empty());
    assert!(config(MqttTopics(vec![])).check());
}

#[test]
fn subscriptions_and_bases() {
    let c = config(topics());
    assert_eq!(c.mqtt_subscribe_patterns(), vec![s("home/+"), s("home/garden/+"), s("office/+")]);
    assert_eq!(c.mqtt_topics(), vec![&s("home"), &s("home/garden"), &s("office")]);
}

#[test]
fn chat_ids_and_defaults() {
    let c = config(topics());
    assert_eq!(c.telegram.valid_chat_ids(), vec![1, 2, 3]);
    let t = Telegram { token: s("t"), notification_chat_ids: vec![5], admin_chat_ids: None };
    assert_eq!(t.valid_chat_ids(), vec![5]);
    assert_eq!(c.sensors_data_file, "sensors_data.json");
    assert_eq!(c.log_level, LogLevel::Info);
    assert_eq!(LogLevel::Trace.to_string(), "Trace");
    assert_eq!(LogLevel::Off.to_string(), "Off");
}

#[test]
fn state_table_lookup() {
    let t = SensorStateMessages(vec![(s("1"), s("one")), (s("1"), s("uno")), (s("2"), s("two"))]);
    assert_eq!(t.get("1"), Some(&s("one")));
    assert_eq!(t.get("2"), Some(&s("two")));
    assert_eq!(t.get("3"), None);
}

#[test]
fn repeated_fields_or_states_are_detected() {
    assert!(topics().is_well_formed());
    let twice = SensorPayloadFieldNameAndStateMessages(vec![
        (s("contact"), SensorStateMessages(vec![(s("true"), s("a"))])),
        (s("contact"), SensorStateMessages(vec![(s("false"), s("b"))])),
    ]);
    assert!(!twice.is_well_formed());
    let state_twice = SensorPayloadFieldNameAndStateMessages(vec![(
        s("contact"),
        SensorStateMessages(vec![(s("true"), s("a")), (s("true"), s("b"))]),
    )]);
    assert!(!state_twice.is_well_formed());
    let nested = MqttTopics(vec![(s("z"), Sensors(vec![(s(".*"), table("x")), (s("y"), state_twice)]))]);
    assert!(!nested.is_well_formed());
}
