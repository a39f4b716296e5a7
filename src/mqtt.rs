//! Handling of one sensor event: resolving its topic, deciding which field
//! values warrant a notification, rendering the messages, and recording the
//! sensor's new state.

use vstd::prelude::*;
use vstd::string::*;
use crate::SharedState;
use crate::config::{
    keys_unique, lemma_base_index_in_range, lemma_sensor_lookup_in_range, MqttTopics, SensorLookup, SensorPayloadFieldNameAndStateMessages, SensorStateMessages,
    SensorNameCaptures,
};
use crate::sensors::{
    CommonBatteryState, CommonVoltageState, Data, FieldValue, PrevSensorsData, data_get, data_value,
    lemma_replace_entry,
};
use crate::text::{replace_all, replaced, same_text};
use crate::time::Timestamp;

verus! {

#[verifier::external_type_specification]
#[verifier::external_body]
pub struct ExJsonError(serde_json::Error);

/// Why an event could not be handled.
#[derive(Debug)]
pub enum PublishNotificationProcessingError {
    /// A sensor-name pattern does not compile.
    RegexError(regex::Error),
    /// The payload is not a JSON object.
    DeserializationError(serde_json::Error),
}

/// A capture's placeholder in a template: its name in braces.
pub open spec fn placeholder(name: Seq<char>) -> Seq<char> {
    seq!['{'] + name + seq!['}']
}

/// The template with the placeholder of each capture that took part
/// replaced by its text, captures taken in order; the placeholders of
/// captures that did not take part stay as they are.
pub open spec fn rendered(template: Seq<char>, captures: Seq<(Seq<char>, Option<Seq<char>>)>) -> Seq<char>
    decreases captures.len(),
{
    if captures.len() == 0 {
        template
    } else {
        let prev = rendered(template, captures.drop_last());
        match captures.last().1 {
            Some(text) => replaced(prev, placeholder(captures.last().0), text),
            None => prev,
        }
    }
}

/// Renders a message template with the named captures of a sensor match.
pub fn render_message(template: &String, captures: &SensorNameCaptures) -> (r: String)
    ensures
        r@ == rendered(template@, captures.deep_view()),
{
    let mut message = template.clone();
    let mut i: usize = 0;
    while i < captures.len()
        invariant
            i <= captures@.len(),
            message@ == rendered(template@, captures.deep_view().subrange(0, i as int)),
        decreases captures.len() - i,
    {
        let ghost prefix = captures.deep_view().subrange(0, i as int + 1);
        assert(prefix.drop_last() =~= captures.deep_view().subrange(0, i as int));
        match &captures[i].1 {
            Some(text) => {
                let mut pattern = String::from_str("{");
                pattern.append(captures[i].0.as_str());
                pattern.append("}");
                proof {
                    reveal_strlit("{");
                    reveal_strlit("}");
                    assert(pattern@ =~= placeholder(captures[i as int].0@));
                }
                message = replace_all(message.as_str(), pattern.as_str(), text.as_str());
            },
            None => {},
        }
        i += 1;
    }
    assert(captures.deep_view().subrange(0, captures@.len() as int) =~= captures.deep_view());
    message
}

/// The template to send for `field` of this event, if the field fires:
/// notifications are on, the payload has the field, its value has a
/// template, and the value differs from the last one recorded for the
/// field (or none was).
pub open spec fn firing_template(
    state: SharedState,
    topic: Seq<char>,
    data: Seq<(String, FieldValue)>,
    field: Seq<char>,
    table: SensorStateMessages,
) -> Option<Seq<char>> {
    match data_value(data, field) {
        Some(v) => match table.template_for(v.state_text()) {
            Some(t) => if state.notifications_enabled && state.prev_sensors_data.trigger_of(topic, field)
                != Some(v.state_text()) {
                Some(t)
            } else {
                None
            },
            None => None,
        },
        None => None,
    }
}

/// The messages of the first `n` configured fields, in order.
pub open spec fn messages_upto(
    state: SharedState,
    topic: Seq<char>,
    data: Seq<(String, FieldValue)>,
    captures: Seq<(Seq<char>, Option<Seq<char>>)>,
    fields: Seq<(String, SensorStateMessages)>,
    n: int,
) -> Seq<Seq<char>>
    decreases n,
{
    if n <= 0 {
        Seq::empty()
    } else {
        let prev = messages_upto(state, topic, data, captures, fields, n - 1);
        match firing_template(state, topic, data, fields[n - 1].0@, fields[n - 1].1) {
            Some(t) => prev.push(rendered(t, captures)),
            None => prev,
        }
    }
}

/// The field table of the pattern that `topic` resolved to.
pub open spec fn matched_fields(topics: MqttTopics, topic: Seq<char>, entry: int) -> Seq<(String, SensorStateMessages)> {
    topics.0@[topics.base_of(topic)].1.0@[entry].1.0@
}

/// The messages that an event sends from `state`: one per configured
/// field that fires, in configuration order; none for a topic that
/// resolves to no sensor.
pub open spec fn outbound(
    state: SharedState,
    topics: MqttTopics,
    topic: Seq<char>,
    data: Seq<(String, FieldValue)>,
) -> Seq<Seq<char>> {
    match topics.lookup(topic) {
        SensorLookup::Matched { entry, name, captures } => {
            let fields = matched_fields(topics, topic, entry);
            messages_upto(state, topic, data, captures, fields, fields.len() as int)
        },
        _ => Seq::empty(),
    }
}

/// `field` is one of the configured fields.
pub open spec fn listed(fields: Seq<(String, SensorStateMessages)>, field: Seq<char>) -> bool {
    exists|k: int| 0 <= k < fields.len() && fields[k].0@ == field
}

/// The battery reading of a payload, if it has a valid one.
pub open spec fn battery_in(data: Seq<(String, FieldValue)>) -> Option<u8> {
    match data_value(data, "battery"@) {
        Some(v) => v.battery_reading(),
        None => None,
    }
}

/// The voltage reading of a payload, if it has a valid one.
pub open spec fn voltage_in(data: Seq<(String, FieldValue)>) -> Option<i128> {
    match data_value(data, "voltage"@) {
        Some(v) => v.voltage_reading(),
        None => None,
    }
}

pub open spec fn old_battery(store: PrevSensorsData, topic: Seq<char>) -> Option<CommonBatteryState> {
    match store.entry(topic) {
        Some(pd) => pd.common.battery,
        None => None,
    }
}

pub open spec fn old_voltage(store: PrevSensorsData, topic: Seq<char>) -> Option<CommonVoltageState> {
    match store.entry(topic) {
        Some(pd) => pd.common.voltage,
        None => None,
    }
}

/// `after` is the store once an event for `topic`, resolved to sensor
/// `name` with field table `fields`, has been recorded at `now`: the topic
/// has an entry (named `name` if it is new), last seen at `now`; each
/// configured field that the payload has holds the payload's value; a valid
/// battery or voltage reading replaces the old one, stamped `now`; every
/// other topic is as it was.
pub open spec fn store_updated(
    before: PrevSensorsData,
    after: PrevSensorsData,
    topic: Seq<char>,
    name: Seq<char>,
    fields: Seq<(String, SensorStateMessages)>,
    data: Seq<(String, FieldValue)>,
    now: Timestamp,
) -> bool {
    &&& after.wf()
    &&& forall|t: Seq<char>| t != topic ==> #[trigger] after.entry(t) == before.entry(t)
    &&& after.entry(topic) is Some
    &&& after.entry(topic).unwrap().update_timestamp == now
    &&& match before.entry(topic) {
        Some(pd) => after.entry(topic).unwrap().name == pd.name,
        None => after.entry(topic).unwrap().name@ == name,
    }
    &&& forall|f: Seq<char>| #[trigger] after.trigger_of(topic, f) == if listed(fields, f) && data_value(data, f) is Some {
        Some(data_value(data, f).unwrap().state_text())
    } else {
        before.trigger_of(topic, f)
    }
    &&& match battery_in(data) {
        Some(b) => after.entry(topic).unwrap().common.battery == Some(
            CommonBatteryState { update_timestamp: now, value: b },
        ),
        None => after.entry(topic).unwrap().common.battery == old_battery(before, topic),
    }
    &&& match voltage_in(data) {
        Some(v) => after.entry(topic).unwrap().common.voltage == Some(
            CommonVoltageState { update_timestamp: now, value: v },
        ),
        None => after.entry(topic).unwrap().common.voltage == old_voltage(before, topic),
    }
}

/// Records an event for `topic` that came at `now` in the store: see
/// `store_updated`.
pub fn update_prev_sensor_data(
    store: &mut PrevSensorsData,
    topic: &String,
    sensor_name: &String,
    fields: &SensorPayloadFieldNameAndStateMessages,
    data: &Data,
    now: &Timestamp,
)
    requires
        old(store).wf(),
    ensures
        store_updated(*old(store), *final(store), topic@, sensor_name@, fields.0@, data@, *now),
{
    let ghost before = *store;
    let i = store.touch(topic, sensor_name, now);
    let ghost touched = *store;
    proof {
        crate::config::lemma_key_index(store.0@, topic@, 0);
        assert forall|f: Seq<char>| #[trigger] store.0@[i as int].1.trigger_value(f) == before.trigger_of(topic@, f) by {
            crate::config::lemma_key_index(store.0@, topic@, 0);
        }
    }
    let mut k: usize = 0;
    while k < fields.0.len()
        invariant
            before.wf(),
            store.wf(),
            i < store.0@.len(),
            i < touched.0@.len(),
            store.0@[i as int].0@ == topic@,
            i as int == crate::config::key_index(store.0@, topic@, 0),
            forall|t: Seq<char>| t != topic@ ==> #[trigger] store.entry(t) == before.entry(t),
            store.0@[i as int].1.name == touched.0@[i as int].1.name,
            store.0@[i as int].1.common == touched.0@[i as int].1.common,
            store.0@[i as int].1.update_timestamp == *now,
            k <= fields.0@.len(),
            forall|f: Seq<char>| #[trigger] store.0@[i as int].1.trigger_value(f) == if (exists|j: int|
                0 <= j < k && fields.0@[j].0@ == f) && data_value(data@, f) is Some {
                Some(data_value(data@, f).unwrap().state_text())
            } else {
                before.trigger_of(topic@, f)
            },
        decreases fields.0.len() - k,
    {
        let ghost prior = *store;
        let ghost fk = fields.0@[k as int].0@;
        match data_get(data, fields.0[k].0.as_str()) {
            Some(v) => {
                let text = v.to_state_text();
                store.0[i].1.set_trigger_state(&fields.0[k].0, text);
                proof {
                    lemma_replace_entry(prior, *store, i as int, store.0@[i as int].1);
                }
            },
            None => {},
        }
        proof {
            assert forall|f: Seq<char>| #[trigger] store.0@[i as int].1.trigger_value(f) == if (exists|j: int|
                0 <= j < k + 1 && fields.0@[j].0@ == f) && data_value(data@, f) is Some {
                Some(data_value(data@, f).unwrap().state_text())
            } else {
                before.trigger_of(topic@, f)
            } by {
                if f == fk {
                    assert(0 <= k < k + 1 && fields.0@[k as int].0@ == f);
                } else {
                    if exists|j: int| 0 <= j < k + 1 && fields.0@[j].0@ == f {
                        let j = choose|j: int| 0 <= j < k + 1 && fields.0@[j].0@ == f;
                        assert(0 <= j < k && fields.0@[j].0@ == f);
                    }
                }
            }
        }
        k += 1;
    }
    let ghost after_fields = *store;
    match data_get(data, "battery") {
        Some(v) => match v.battery() {
            Some(b) => {
                store.0[i].1.update_battery(b, now);
                proof {
                    lemma_replace_entry(after_fields, *store, i as int, store.0@[i as int].1);
                }
            },
            None => {},
        },
        None => {},
    }
    let ghost after_battery = *store;
    match data_get(data, "voltage") {
        Some(v) => match v.voltage() {
            Some(mv) => {
                store.0[i].1.update_voltage(mv, now);
                proof {
                    lemma_replace_entry(after_battery, *store, i as int, store.0@[i as int].1);
                }
            },
            None => {},
        },
        None => {},
    }
    proof {
        crate::config::lemma_key_index(before.0@, topic@, 0);
        assert(store.entry(topic@) == Some(store.0@[i as int].1));
        assert(store.0@[i as int].1.trigger_states == after_fields.0@[i as int].1.trigger_states);
        assert forall|f: Seq<char>| #[trigger] store.trigger_of(topic@, f) == if listed(fields.0@, f) && data_value(data@, f) is Some {
            Some(data_value(data@, f).unwrap().state_text())
        } else {
            before.trigger_of(topic@, f)
        } by {
            assert(store.trigger_of(topic@, f) == store.0@[i as int].1.trigger_value(f));
            assert(store.0@[i as int].1.trigger_value(f) == after_fields.0@[i as int].1.trigger_value(f));
        }
    }
}

/// Whether `text` differs from the last value recorded for `field` of
/// `topic` (or none was recorded).
fn differs_from_trigger(store: &PrevSensorsData, topic: &String, field: &String, text: &String) -> (r: bool)
    ensures
        r == (store.trigger_of(topic@, field@) != Some(text@)),
{
    match store.get(topic.as_str()) {
        Some(pd) => match pd.trigger_state(field.as_str()) {
            Some(prev) => !same_text(prev.as_str(), text.as_str()),
            None => true,
        },
        None => true,
    }
}

/// `after` is the state once an event for `topic` with payload `data`,
/// come at `now`, has been handled from `before`: the notification switch
/// is untouched; an event that resolves to a sensor is recorded (see
/// `store_updated`), any other leaves the store as it was.
pub open spec fn delivered(
    before: SharedState,
    after: SharedState,
    topics: MqttTopics,
    topic: Seq<char>,
    data: Seq<(String, FieldValue)>,
    now: Timestamp,
) -> bool {
    &&& after.notifications_enabled == before.notifications_enabled
    &&& match topics.lookup(topic) {
        SensorLookup::Matched { entry, name, captures } => store_updated(
            before.prev_sensors_data,
            after.prev_sensors_data,
            topic,
            name,
            matched_fields(topics, topic, entry),
            data,
            now,
        ),
        _ => after.prev_sensors_data == before.prev_sensors_data,
    }
}

/// Handles one event, come at `now`: resolves its topic, returns the
/// messages to send to the notification recipients (see `outbound`), and
/// records the event in the store (see `delivered`). A sensor-name pattern
/// that does not compile, met while resolving, is an error and changes
/// nothing.
pub fn process_publish_notification(
    state: &mut SharedState,
    topics: &MqttTopics,
    topic: &String,
    data: &Data,
    now: &Timestamp,
) -> (r: Result<Vec<String>, PublishNotificationProcessingError>)
    requires
        old(state).prev_sensors_data.wf(),
        topics.wf(),
    ensures
        delivered(*old(state), *final(state), *topics, topic@, data@, *now),
        final(state).prev_sensors_data.wf(),
        match r {
            Ok(messages) => !(topics.lookup(topic@) is Fault) && messages.deep_view() == outbound(
                *old(state),
                *topics,
                topic@,
                data@,
            ),
            Err(e) => topics.lookup(topic@) is Fault && e is RegexError,
        },
{
    let ghost s0 = *state;
    let found = match topics.match_topic(topic) {
        Ok(found) => found,
        Err(e) => return Err(PublishNotificationProcessingError::RegexError(e)),
    };
    match found {
        None => Ok(Vec::new()),
        Some(m) => {
            let (sensor_name, captures, fields) = m;
            let mut messages: Vec<String> = Vec::new();
            let mut k: usize = 0;
            while k < fields.0.len()
                invariant
                    *state == s0,
                    k <= fields.0@.len(),
                    messages.deep_view() == messages_upto(
                        s0,
                        topic@,
                        data@,
                        captures.deep_view(),
                        fields.0@,
                        k as int,
                    ),
                decreases fields.0.len() - k,
            {
                match data_get(data, fields.0[k].0.as_str()) {
                    Some(v) => {
                        let text = v.to_state_text();
                        match fields.0[k].1.get(text.as_str()) {
                            Some(template) => {
                                if state.notifications_enabled && differs_from_trigger(
                                    &state.prev_sensors_data,
                                    topic,
                                    &fields.0[k].0,
                                    &text,
                                ) {
                                    let message = render_message(template, &captures);
                                    messages.push(message);
                                    proof {
                                        assert(messages.deep_view() =~= messages_upto(
                                            s0,
                                            topic@,
                                            data@,
                                            captures.deep_view(),
                                            fields.0@,
                                            k as int,
                                        ).push(message@));
                                    }
                                }
                            },
                            None => {},
                        }
                    },
                    None => {},
                }
                k += 1;
            }
            update_prev_sensor_data(&mut state.prev_sensors_data, topic, &sensor_name, fields, data, now);
            Ok(messages)
        },
    }
}

/// The field table of the sensor that `topic` resolves to; empty when it
/// resolves to none.
pub open spec fn resolved_fields(topics: MqttTopics, topic: Seq<char>) -> Seq<(String, SensorStateMessages)> {
    match topics.lookup(topic) {
        SensorLookup::Matched { entry, name, captures } => matched_fields(topics, topic, entry),
        _ => Seq::empty(),
    }
}

/// The named captures of the sensor match that `topic` resolves to.
pub open spec fn resolved_captures(topics: MqttTopics, topic: Seq<char>) -> Seq<(Seq<char>, Option<Seq<char>>)> {
    match topics.lookup(topic) {
        SensorLookup::Matched { entry, name, captures } => captures,
        _ => Seq::empty(),
    }
}

proof fn lemma_recorded_values_stay_silent(
    state: SharedState,
    topic: Seq<char>,
    data: Seq<(String, FieldValue)>,
    captures: Seq<(Seq<char>, Option<Seq<char>>)>,
    fields: Seq<(String, SensorStateMessages)>,
    n: int,
)
    requires
        0 <= n <= fields.len(),
        forall|f: Seq<char>|
            listed(fields, f) && data_value(data, f) is Some ==> #[trigger] state.prev_sensors_data.trigger_of(topic, f)
                == Some(data_value(data, f).unwrap().state_text()),
    ensures
        messages_upto(state, topic, data, captures, fields, n) == Seq::<Seq<char>>::empty(),
    decreases n,
{
    if n > 0 {
        lemma_recorded_values_stay_silent(state, topic, data, captures, fields, n - 1);
        let f = fields[n - 1].0@;
        assert(listed(fields, f));
    }
}

/// The messages of fewer fields are a prefix of those of more.
proof fn lemma_messages_prefix(
    state: SharedState,
    topic: Seq<char>,
    data: Seq<(String, FieldValue)>,
    captures: Seq<(Seq<char>, Option<Seq<char>>)>,
    fields: Seq<(String, SensorStateMessages)>,
    n: int,
    m: int,
)
    requires
        0 <= n <= m,
    ensures
        ({
            let short = messages_upto(state, topic, data, captures, fields, n);
            let long = messages_upto(state, topic, data, captures, fields, m);
            short.len() <= long.len() && forall|i: int| 0 <= i < short.len() ==> long[i] == short[i]
        }),
    decreases m - n,
{
    if n < m {
        lemma_messages_prefix(state, topic, data, captures, fields, n, m - 1);
    }
}

/// A field that fires in an event puts its rendered template among the
/// event's messages.
pub proof fn lemma_firing_field_is_sent(
    state: SharedState,
    topics: MqttTopics,
    topic: Seq<char>,
    data: Seq<(String, FieldValue)>,
    k: int,
)
    requires
        0 <= k < resolved_fields(topics, topic).len(),
        firing_template(
            state,
            topic,
            data,
            resolved_fields(topics, topic)[k].0@,
            resolved_fields(topics, topic)[k].1,
        ) is Some,
    ensures
        outbound(state, topics, topic, data).contains(
            rendered(
                firing_template(
                    state,
                    topic,
                    data,
                    resolved_fields(topics, topic)[k].0@,
                    resolved_fields(topics, topic)[k].1,
                ).unwrap(),
                resolved_captures(topics, topic),
            ),
        ),
{
    let fields = resolved_fields(topics, topic);
    let captures = resolved_captures(topics, topic);
    let short = messages_upto(state, topic, data, captures, fields, k + 1);
    lemma_messages_prefix(state, topic, data, captures, fields, k + 1, fields.len() as int);
    let long = messages_upto(state, topic, data, captures, fields, fields.len() as int);
    assert(long[short.len() - 1] == short.last());
}

/// Delivering the same event twice in a row sends nothing the second time:
/// the first delivery recorded every configured field value that could
/// fire.
pub proof fn lemma_repeated_event_is_silent(
    first: SharedState,
    second: SharedState,
    topics: MqttTopics,
    topic: Seq<char>,
    data: Seq<(String, FieldValue)>,
    now: Timestamp,
)
    requires
        delivered(first, second, topics, topic, data, now),
    ensures
        outbound(second, topics, topic, data) == Seq::<Seq<char>>::empty(),
{
    match topics.lookup(topic) {
        SensorLookup::Matched { entry, name, captures } => {
            let fields = matched_fields(topics, topic, entry);
            lemma_recorded_values_stay_silent(second, topic, data, captures, fields, fields.len() as int);
        },
        _ => {},
    }
}

/// With notifications off an event sends nothing.
pub proof fn lemma_disabled_is_silent(
    state: SharedState,
    topics: MqttTopics,
    topic: Seq<char>,
    data: Seq<(String, FieldValue)>,
)
    requires
        !state.notifications_enabled,
    ensures
        outbound(state, topics, topic, data) == Seq::<Seq<char>>::empty(),
{
    match topics.lookup(topic) {
        SensorLookup::Matched { entry, name, captures } => {
            let fields = matched_fields(topics, topic, entry);
            lemma_silent_when_disabled(state, topic, data, captures, fields, fields.len() as int);
        },
        _ => {},
    }
}

proof fn lemma_silent_when_disabled(
    state: SharedState,
    topic: Seq<char>,
    data: Seq<(String, FieldValue)>,
    captures: Seq<(Seq<char>, Option<Seq<char>>)>,
    fields: Seq<(String, SensorStateMessages)>,
    n: int,
)
    requires
        !state.notifications_enabled,
    ensures
        messages_upto(state, topic, data, captures, fields, n) == Seq::<Seq<char>>::empty(),
    decreases n,
{
    if n > 0 {
        lemma_silent_when_disabled(state, topic, data, captures, fields, n - 1);
    }
}

proof fn lemma_single_field_messages(
    state: SharedState,
    topic: Seq<char>,
    data: Seq<(String, FieldValue)>,
    captures: Seq<(Seq<char>, Option<Seq<char>>)>,
    fields: Seq<(String, SensorStateMessages)>,
    k: int,
    n: int,
)
    requires
        keys_unique(fields),
        0 <= k < fields.len(),
        0 <= n <= fields.len(),
        forall|g: Seq<char>| #[trigger] data_value(data, g) is Some ==> g == fields[k].0@,
    ensures
        messages_upto(state, topic, data, captures, fields, n) == if n <= k {
            Seq::<Seq<char>>::empty()
        } else {
            match firing_template(state, topic, data, fields[k].0@, fields[k].1) {
                Some(t) => seq![rendered(t, captures)],
                None => Seq::<Seq<char>>::empty(),
            }
        },
    decreases n,
{
    if n > 0 {
        lemma_single_field_messages(state, topic, data, captures, fields, k, n - 1);
        if n - 1 != k {
            assert(fields[n - 1].0@ != fields[k].0@);
            assert(data_value(data, fields[n - 1].0@) is None);
        } else {
            assert(Seq::<Seq<char>>::empty().push(rendered(
                firing_template(state, topic, data, fields[k].0@, fields[k].1)->Some_0,
                captures,
            )) =~= seq![rendered(firing_template(state, topic, data, fields[k].0@, fields[k].1)->Some_0, captures)]);
        }
    }
}

/// The field table that a topic resolves to is one of the configured
/// tables, so it is well formed when they all are.
pub proof fn lemma_resolved_fields_wf(topics: MqttTopics, topic: Seq<char>)
    requires
        topics.wf(),
    ensures
        keys_unique(resolved_fields(topics, topic)),
{
    match topics.lookup(topic) {
        SensorLookup::Matched { entry, name, captures } => {
            let b = topics.base_of(topic);
            lemma_base_index_in_range(topics.0@, topic, 0);
            lemma_sensor_lookup_in_range(topics.0@[b].1.0@, crate::config::sensor_part(topics.0@, topic, b), 0);
            assert(topics.0@[b].1.0@[entry].1.wf());
        },
        _ => {},
    }
}

/// An event whose payload holds one configured field sends exactly that
/// field's message if it fires, and nothing otherwise.
pub proof fn lemma_single_field_event(
    state: SharedState,
    topics: MqttTopics,
    topic: Seq<char>,
    data: Seq<(String, FieldValue)>,
    k: int,
)
    requires
        topics.wf(),
        0 <= k < resolved_fields(topics, topic).len(),
        forall|g: Seq<char>| #[trigger] data_value(data, g) is Some ==> g == resolved_fields(topics, topic)[k].0@,
    ensures
        outbound(state, topics, topic, data) == match firing_template(
            state,
            topic,
            data,
            resolved_fields(topics, topic)[k].0@,
            resolved_fields(topics, topic)[k].1,
        ) {
            Some(t) => seq![rendered(t, resolved_captures(topics, topic))],
            None => Seq::<Seq<char>>::empty(),
        },
{
    lemma_resolved_fields_wf(topics, topic);
    let fields = resolved_fields(topics, topic);
    lemma_single_field_messages(
        state,
        topic,
        data,
        resolved_captures(topics, topic),
        fields,
        k,
        fields.len() as int,
    );
}

} // verus!
