//! Per-sensor state: payload field values, battery and voltage readings,
//! last-seen times and the trigger values used to de-duplicate
//! notifications; and the store that keeps one entry per topic.

use vstd::prelude::*;
use vstd::string::*;
use crate::config::{find_key, has_unique_keys, key_index, lemma_key_index, lemma_key_index_push, lemma_key_index_update};
use crate::text::{decimal, i128_text, push_char, signed_decimal, u64_text};
use crate::time::{LastSeenDuration, Timestamp, dhms_text, elapsed_seconds};

verus! {

/// One value of a decoded payload field.
#[derive(Debug)]
pub enum FieldValue {
    Null,
    Bool(bool),
    /// A non-negative integer.
    Unsigned(u64),
    /// A negative integer.
    Negative(i64),
    /// A number with a fractional part or an exponent: its JSON text, and
    /// the nearest integer.
    Fraction { text: String, rounded: i64 },
    /// A string, as it was decoded.
    Text(String),
    /// An array or an object, as its JSON text.
    Composite(String),
}

impl FieldValue {
    /// The value as configured state tables name it, and as trigger values
    /// keep it: a string by its own text, anything else as its JSON text.
    pub open spec fn state_text(&self) -> Seq<char> {
        match self {
            FieldValue::Null => "null"@,
            FieldValue::Bool(b) => if *b { "true"@ } else { "false"@ },
            FieldValue::Unsigned(n) => decimal(*n as nat),
            FieldValue::Negative(n) => signed_decimal(*n as int),
            FieldValue::Fraction { text, rounded } => text@,
            FieldValue::Text(s) => s@,
            FieldValue::Composite(text) => text@,
        }
    }

    /// The value as configured state tables name it.
    pub fn to_state_text(&self) -> (r: String)
        ensures
            r@ == self.state_text(),
    {
        match self {
            FieldValue::Null => String::from_str("null"),
            FieldValue::Bool(b) => if *b { String::from_str("true") } else { String::from_str("false") },
            FieldValue::Unsigned(n) => u64_text(*n),
            FieldValue::Negative(n) => i128_text(*n as i128),
            FieldValue::Fraction { text, rounded } => text.clone(),
            FieldValue::Text(s) => s.clone(),
            FieldValue::Composite(text) => text.clone(),
        }
    }

    /// A battery percentage: an integer from 0 to 255.
    pub open spec fn battery_reading(&self) -> Option<u8> {
        match self {
            FieldValue::Unsigned(n) => if *n <= 255 { Some(*n as u8) } else { None },
            _ => None,
        }
    }

    /// A voltage, in millivolts: any number, a fraction taken as its
    /// nearest integer.
    pub open spec fn voltage_reading(&self) -> Option<i128> {
        match self {
            FieldValue::Unsigned(n) => Some(*n as i128),
            FieldValue::Negative(n) => Some(*n as i128),
            FieldValue::Fraction { text, rounded } => Some(*rounded as i128),
            _ => None,
        }
    }

    pub fn battery(&self) -> (r: Option<u8>)
        ensures
            r == self.battery_reading(),
    {
        match self {
            FieldValue::Unsigned(n) => if *n <= 255 { Some(*n as u8) } else { None },
            _ => None,
        }
    }

    pub fn voltage(&self) -> (r: Option<i128>)
        ensures
            r == self.voltage_reading(),
    {
        match self {
            FieldValue::Unsigned(n) => Some(*n as i128),
            FieldValue::Negative(n) => Some(*n as i128),
            FieldValue::Fraction { text, rounded } => Some(*rounded as i128),
            _ => None,
        }
    }
}

pub type PayloadFieldName = String;

/// A decoded payload: field names with their values, in payload order.
pub type Data = Vec<(PayloadFieldName, FieldValue)>;

/// The value of `field` in a payload: that of its first entry.
pub open spec fn data_value(data: Seq<(String, FieldValue)>, field: Seq<char>) -> Option<FieldValue> {
    let i = key_index(data, field, 0);
    if i < 0 {
        None
    } else {
        Some(data[i].1)
    }
}

/// The value of `field` in `data`, if the payload has it.
pub fn data_get<'a>(data: &'a Data, field: &str) -> (r: Option<&'a FieldValue>)
    ensures
        match r {
            Some(v) => data_value(data@, field@) == Some(*v),
            None => data_value(data@, field@) is None,
        },
{
    match find_key(data, field) {
        Some(i) => Some(&data[i].1),
        None => None,
    }
}

/// The last battery reading and when it came.
#[derive(Debug, Clone, Copy, PartialEq, Eq, Structural)]
pub struct CommonBatteryState {
    pub update_timestamp: Timestamp,
    /// Percentage.
    pub value: u8,
}

impl CommonBatteryState {
    pub fn time_since_last_update(&self, now: &Timestamp) -> (r: LastSeenDuration)
        ensures
            r.seconds == elapsed_seconds(self.update_timestamp.seconds as int, now.seconds as int),
    {
        LastSeenDuration::new(&self.update_timestamp, now)
    }
}

/// The last voltage reading and when it came.
#[derive(Debug, Clone, Copy, PartialEq, Eq, Structural)]
pub struct CommonVoltageState {
    pub update_timestamp: Timestamp,
    /// Millivolts.
    pub value: i128,
}

impl CommonVoltageState {
    pub fn time_since_last_update(&self, now: &Timestamp) -> (r: LastSeenDuration)
        ensures
            r.seconds == elapsed_seconds(self.update_timestamp.seconds as int, now.seconds as int),
    {
        LastSeenDuration::new(&self.update_timestamp, now)
    }
}

/// Millivolts as volts with three decimals (`3.012`, `-0.005`).
pub open spec fn volts_text(mv: int) -> Seq<char> {
    let a = if mv < 0 { -mv } else { mv };
    let f = a % 1000;
    (if mv < 0 { seq!['-'] } else { Seq::empty() }) + decimal((a / 1000) as nat) + seq![
        '.',
        crate::text::digit_char((f / 100) as nat),
        crate::text::digit_char(((f / 10) % 10) as nat),
        crate::text::digit_char((f % 10) as nat),
    ]
}

/// Elapsed seconds since a reading's time, if there is a reading.
pub open spec fn since(ts: Option<Timestamp>, now: Timestamp) -> Option<int> {
    match ts {
        Some(t) => Some(elapsed_seconds(t.seconds as int, now.seconds as int)),
        None => None,
    }
}

/// Battery and voltage readings, each with its own time.
#[derive(Debug)]
pub struct CommonState {
    pub battery: Option<CommonBatteryState>,
    pub voltage: Option<CommonVoltageState>,
}

impl Default for CommonState {
    fn default() -> (r: CommonState)
        ensures
            r.battery is None,
            r.voltage is None,
    {
        CommonState { battery: None, voltage: None }
    }
}

impl CommonState {
    pub open spec fn battery_time(&self) -> Option<Timestamp> {
        match self.battery {
            Some(b) => Some(b.update_timestamp),
            None => None,
        }
    }

    pub open spec fn voltage_time(&self) -> Option<Timestamp> {
        match self.voltage {
            Some(v) => Some(v.update_timestamp),
            None => None,
        }
    }

    /// Elapsed seconds since the newest reading; none without readings.
    pub open spec fn min_since(&self, now: Timestamp) -> Option<int> {
        match (since(self.battery_time(), now), since(self.voltage_time(), now)) {
            (None, None) => None,
            (Some(b), None) => Some(b),
            (None, Some(v)) => Some(v),
            (Some(b), Some(v)) => Some(if b <= v { b } else { v }),
        }
    }

    /// Elapsed seconds since the oldest reading; none without readings.
    pub open spec fn max_since(&self, now: Timestamp) -> Option<int> {
        match (since(self.battery_time(), now), since(self.voltage_time(), now)) {
            (None, None) => None,
            (Some(b), None) => Some(b),
            (None, Some(v)) => Some(v),
            (Some(b), Some(v)) => Some(if b >= v { b } else { v }),
        }
    }

    /// Records a battery percentage taken at `now`.
    pub fn update_battery(&mut self, battery: u8, now: &Timestamp)
        ensures
            final(self).battery == Some(CommonBatteryState { update_timestamp: *now, value: battery }),
            final(self).voltage == old(self).voltage,
    {
        self.battery = Some(CommonBatteryState { update_timestamp: *now, value: battery });
    }

    /// Records a voltage in millivolts taken at `now`.
    pub fn update_voltage(&mut self, voltage: i128, now: &Timestamp)
        ensures
            final(self).voltage == Some(CommonVoltageState { update_timestamp: *now, value: voltage }),
            final(self).battery == old(self).battery,
    {
        self.voltage = Some(CommonVoltageState { update_timestamp: *now, value: voltage });
    }

    /// Time since the newest of the readings.
    pub fn time_min_since_last_update(&self, now: &Timestamp) -> (r: Option<LastSeenDuration>)
        ensures
            match r {
                Some(d) => self.min_since(*now) == Some(d.seconds as int),
                None => self.min_since(*now) is None,
            },
    {
        match (&self.battery, &self.voltage) {
            (None, None) => None,
            (None, Some(voltage)) => Some(voltage.time_since_last_update(now)),
            (Some(battery), None) => Some(battery.time_since_last_update(now)),
            (Some(battery), Some(voltage)) => {
                let b = battery.time_since_last_update(now);
                let v = voltage.time_since_last_update(now);
                if b.seconds <= v.seconds { Some(b) } else { Some(v) }
            },
        }
    }

    /// Time since the oldest of the readings.
    pub fn time_max_since_last_update(&self, now: &Timestamp) -> (r: Option<LastSeenDuration>)
        ensures
            match r {
                Some(d) => self.max_since(*now) == Some(d.seconds as int),
                None => self.max_since(*now) is None,
            },
    {
        match (&self.battery, &self.voltage) {
            (None, None) => None,
            (None, Some(voltage)) => Some(voltage.time_since_last_update(now)),
            (Some(battery), None) => Some(battery.time_since_last_update(now)),
            (Some(battery), Some(voltage)) => {
                let b = battery.time_since_last_update(now);
                let v = voltage.time_since_last_update(now);
                if b.seconds >= v.seconds { Some(b) } else { Some(v) }
            },
        }
    }

    /// `last update 2h5m ago`, from the oldest reading, or `no data`.
    pub open spec fn update_age_text(&self, now: Timestamp) -> Seq<char> {
        match self.max_since(now) {
            Some(s) => "last update "@ + dhms_text(s as nat) + " ago"@,
            None => "no data"@,
        }
    }

    pub fn time_max_since_last_update_str(&self, now: &Timestamp) -> (r: String)
        ensures
            r@ == self.update_age_text(*now),
    {
        match self.time_max_since_last_update(now) {
            Some(duration) => {
                let mut r = String::from_str("last update ");
                let d = duration.to_string();
                r.append(d.as_str());
                r.append(" ago");
                r
            },
            None => String::from_str("no data"),
        }
    }

    /// `87%`, or `unknown percent`.
    pub open spec fn battery_text(&self) -> Seq<char> {
        match self.battery {
            Some(b) => decimal(b.value as nat) + "%"@,
            None => "unknown percent"@,
        }
    }

    pub fn battery_value_str(&self) -> (r: String)
        ensures
            r@ == self.battery_text(),
    {
        match &self.battery {
            Some(battery_state) => {
                let mut r = u64_text(battery_state.value as u64);
                r.append("%");
                r
            },
            None => String::from_str("unknown percent"),
        }
    }

    /// `3.012v`, or `unknown voltage`.
    pub open spec fn voltage_text(&self) -> Seq<char> {
        match self.voltage {
            Some(v) => volts_text(v.value as int) + "v"@,
            None => "unknown voltage"@,
        }
    }

    pub fn voltage_value_str(&self) -> (r: String)
        ensures
            r@ == self.voltage_text(),
    {
        match &self.voltage {
            Some(voltage_state) => {
                let mut r = volts(voltage_state.value);
                r.append("v");
                r
            },
            None => String::from_str("unknown voltage"),
        }
    }
}

fn volts(mv: i128) -> (r: String)
    ensures
        r@ == volts_text(mv as int),
{
    let a: u128 = if mv == i128::MIN {
        170141183460469231731687303715884105728u128
    } else if mv < 0 {
        (-mv) as u128
    } else {
        mv as u128
    };
    assert(a as int == if mv < 0 { -mv } else { mv as int });
    let f = a % 1000;
    let mut r = String::new();
    if mv < 0 {
        push_char(&mut r, '-');
    }
    let whole = i128_text((a / 1000) as i128);
    r.append(whole.as_str());
    push_char(&mut r, '.');
    push_char(&mut r, crate::text::digit((f / 100) as u64));
    push_char(&mut r, crate::text::digit(((f / 10) % 10) as u64));
    push_char(&mut r, crate::text::digit((f % 10) as u64));
    assert(r@ =~= volts_text(mv as int));
    r
}

pub type SensorName = String;

/// For each payload field evaluated against a state table: its last value,
/// in the form that state tables name it.
pub type TriggerStates = Vec<(String, String)>;

/// What is known of one sensor.
#[derive(Debug)]
pub struct PrevData {
    pub common: CommonState,
    /// When any event last came for the sensor.
    pub update_timestamp: Timestamp,
    pub name: SensorName,
    /// Kept for the life of the process only.
    pub trigger_states: TriggerStates,
}

impl PrevData {
    /// The last value of `field` evaluated for notifications.
    pub open spec fn trigger_value(&self, field: Seq<char>) -> Option<Seq<char>> {
        let i = key_index(self.trigger_states@, field, 0);
        if i < 0 {
            None
        } else {
            Some(self.trigger_states@[i].1@)
        }
    }

    /// A sensor first seen at `now`: no readings, no trigger values.
    pub fn new(sensor_name: SensorName, now: &Timestamp) -> (r: PrevData)
        ensures
            r.name == sensor_name,
            r.update_timestamp == *now,
            r.common.battery is None,
            r.common.voltage is None,
            r.trigger_states@.len() == 0,
    {
        PrevData {
            common: CommonState::default(),
            update_timestamp: *now,
            name: sensor_name,
            trigger_states: Vec::new(),
        }
    }

    pub fn time_since_last_seen(&self, now: &Timestamp) -> (r: LastSeenDuration)
        ensures
            r.seconds == elapsed_seconds(self.update_timestamp.seconds as int, now.seconds as int),
    {
        LastSeenDuration::new(&self.update_timestamp, now)
    }

    /// Marks the sensor as seen at `now`.
    pub fn last_seen_now(&mut self, now: &Timestamp)
        ensures
            final(self).update_timestamp == *now,
            final(self).common == old(self).common,
            final(self).name == old(self).name,
            final(self).trigger_states == old(self).trigger_states,
    {
        self.update_timestamp = *now;
    }

    /// Records a battery percentage taken at `now`; the sensor counts as
    /// seen then.
    pub fn update_battery(&mut self, battery: u8, now: &Timestamp)
        ensures
            final(self).common.battery == Some(CommonBatteryState { update_timestamp: *now, value: battery }),
            final(self).update_timestamp == *now,
            final(self).common.voltage == old(self).common.voltage,
            final(self).name == old(self).name,
            final(self).trigger_states == old(self).trigger_states,
    {
        self.common.update_battery(battery, now);
        self.last_seen_now(now);
    }

    /// Records a voltage in millivolts taken at `now`; the sensor counts as
    /// seen then.
    pub fn update_voltage(&mut self, voltage: i128, now: &Timestamp)
        ensures
            final(self).common.voltage == Some(CommonVoltageState { update_timestamp: *now, value: voltage }),
            final(self).update_timestamp == *now,
            final(self).common.battery == old(self).common.battery,
            final(self).name == old(self).name,
            final(self).trigger_states == old(self).trigger_states,
    {
        self.common.update_voltage(voltage, now);
        self.last_seen_now(now);
    }

    /// The last value of `field`, if one was recorded.
    pub fn trigger_state(&self, field: &str) -> (r: Option<&String>)
        ensures
            r.deep_view() == self.trigger_value(field@),
    {
        match find_key(&self.trigger_states, field) {
            Some(i) => Some(&self.trigger_states[i].1),
            None => None,
        }
    }

    /// Records `value` as the last value of `field`.
    pub fn set_trigger_state(&mut self, field: &String, value: String)
        ensures
            forall|g: Seq<char>| #[trigger] final(self).trigger_value(g) == if g == field@ {
                Some(value@)
            } else {
                old(self).trigger_value(g)
            },
            final(self).common == old(self).common,
            final(self).name == old(self).name,
            final(self).update_timestamp == old(self).update_timestamp,
    {
        let ghost before = self.trigger_states@;
        let ghost prior = *self;
        let e = (field.clone(), value);
        match find_key(&self.trigger_states, field.as_str()) {
            Some(i) => {
                proof {
                    lemma_key_index(before, field@, 0);
                }
                self.trigger_states.set(i, e);
                proof {
                    assert forall|g: Seq<char>| #[trigger] self.trigger_value(g) == if g == field@ {
                        Some(e.1@)
                    } else {
                        prior.trigger_value(g)
                    } by {
                        lemma_key_index_update(before, i as int, e, g, 0);
                        lemma_key_index(before, g, 0);
                    }
                }
            },
            None => {
                self.trigger_states.push(e);
                proof {
                    assert forall|g: Seq<char>| #[trigger] self.trigger_value(g) == if g == field@ {
                        Some(e.1@)
                    } else {
                        prior.trigger_value(g)
                    } by {
                        lemma_key_index_push(before, e, g, 0);
                        lemma_key_index(before, g, 0);
                    }
                }
            },
        }
    }
}

/// A sensor's entry as it is kept between runs: all but its trigger
/// values.
#[derive(Debug)]
pub struct SensorRecord {
    pub topic: String,
    pub name: SensorName,
    pub last_seen: Timestamp,
    pub battery: Option<CommonBatteryState>,
    pub voltage: Option<CommonVoltageState>,
}

impl SensorRecord {
    /// `pd` holds what this record holds, and no trigger values.
    pub open spec fn restored_as(&self, pd: PrevData) -> bool {
        &&& pd.name == self.name
        &&& pd.update_timestamp == self.last_seen
        &&& pd.common.battery == self.battery
        &&& pd.common.voltage == self.voltage
        &&& pd.trigger_states@.len() == 0
    }
}

/// One entry per topic seen, in the order the topics were first seen.
#[derive(Debug)]
pub struct PrevSensorsData(pub Vec<(String, PrevData)>);

impl PrevSensorsData {
    /// No topic has two entries.
    pub open spec fn wf(&self) -> bool {
        forall|i: int, j: int| 0 <= i < j < self.0@.len() ==> self.0@[i].0@ != self.0@[j].0@
    }

    /// The entry of `topic`, if the topic has been seen.
    pub open spec fn entry(&self, topic: Seq<char>) -> Option<PrevData> {
        let i = key_index(self.0@, topic, 0);
        if i < 0 {
            None
        } else {
            Some(self.0@[i].1)
        }
    }

    /// The last value of `field` evaluated for `topic`.
    pub open spec fn trigger_of(&self, topic: Seq<char>, field: Seq<char>) -> Option<Seq<char>> {
        match self.entry(topic) {
            Some(pd) => pd.trigger_value(field),
            None => None,
        }
    }

    /// Whether no topic has two entries.
    pub fn is_well_formed(&self) -> (r: bool)
        ensures
            r == self.wf(),
    {
        has_unique_keys(&self.0)
    }

    /// An empty store.
    pub fn new() -> (r: PrevSensorsData)
        ensures
            r.wf(),
            r.0@.len() == 0,
    {
        PrevSensorsData(Vec::new())
    }

    /// The entry of `topic`.
    pub fn get(&self, topic: &str) -> (r: Option<&PrevData>)
        ensures
            match r {
                Some(pd) => self.entry(topic@) == Some(*pd),
                None => self.entry(topic@) is None,
            },
    {
        match find_key(&self.0, topic) {
            Some(i) => Some(&self.0[i].1),
            None => None,
        }
    }

    /// Makes sure `topic` has an entry, new with `name` if it had none, and
    /// marks it as seen at `now`. Returns the entry's position.
    pub fn touch(&mut self, topic: &String, name: &String, now: &Timestamp) -> (i: usize)
        requires
            old(self).wf(),
        ensures
            final(self).wf(),
            i < final(self).0@.len(),
            i as int == key_index(final(self).0@, topic@, 0),
            final(self).0@[i as int].1.update_timestamp == *now,
            forall|t: Seq<char>| t != topic@ ==> #[trigger] final(self).entry(t) == old(self).entry(t),
            match old(self).entry(topic@) {
                Some(pd) => {
                    &&& final(self).0@[i as int].1.common == pd.common
                    &&& final(self).0@[i as int].1.name == pd.name
                    &&& final(self).0@[i as int].1.trigger_states == pd.trigger_states
                },
                None => {
                    &&& final(self).0@[i as int].1.name@ == name@
                    &&& final(self).0@[i as int].1.common.battery is None
                    &&& final(self).0@[i as int].1.common.voltage is None
                    &&& final(self).0@[i as int].1.trigger_states@.len() == 0
                },
            },
    {
        let ghost before = self.0@;
        let ghost prior = *self;
        match find_key(&self.0, topic.as_str()) {
            Some(i) => {
                proof {
                    lemma_key_index(before, topic@, 0);
                }
                self.0[i].1.last_seen_now(now);
                proof {
                    assert(self.0@ == before.update(i as int, self.0@[i as int]));
                    assert forall|t: Seq<char>| t != topic@ implies #[trigger] self.entry(t) == prior.entry(t) by {
                        lemma_key_index_update(before, i as int, self.0@[i as int], t, 0);
                        lemma_key_index(before, t, 0);
                    }
                    lemma_key_index_update(before, i as int, self.0@[i as int], topic@, 0);
                }
                i
            },
            None => {
                let e = (topic.clone(), PrevData::new(name.clone(), now));
                self.0.push(e);
                proof {
                    lemma_key_index(before, topic@, 0);
                    assert forall|t: Seq<char>| t != topic@ implies #[trigger] self.entry(t) == prior.entry(t) by {
                        lemma_key_index_push(before, e, t, 0);
                        lemma_key_index(before, t, 0);
                    }
                    lemma_key_index_push(before, e, topic@, 0);
                }
                self.0.len() - 1
            },
        }
    }

    /// `records` hold what is kept between runs of this store: one record
    /// per entry, in order.
    pub open spec fn snapshot_is(&self, records: Seq<SensorRecord>) -> bool {
        &&& records.len() == self.0@.len()
        &&& forall|i: int|
            0 <= i < records.len() ==> {
                let pd = self.0@[i].1;
                &&& (#[trigger] records[i]).topic == self.0@[i].0
                &&& records[i].name == pd.name
                &&& records[i].last_seen == pd.update_timestamp
                &&& records[i].battery == pd.common.battery
                &&& records[i].voltage == pd.common.voltage
            }
    }

    /// `self` is what restoring `records` gives: an entry for each topic
    /// that a record names, holding what the last such record holds.
    pub open spec fn restored_from(&self, records: Seq<SensorRecord>) -> bool {
        &&& self.wf()
        &&& forall|t: Seq<char>|
            (#[trigger] self.entry(t) is Some) <==> exists|i: int| 0 <= i < records.len() && records[i].topic@ == t
        &&& forall|i: int|
            0 <= i < records.len() && (forall|j: int| i < j < records.len() ==> records[j].topic@ != records[i].topic@)
                ==> #[trigger] records[i].restored_as(self.entry(records[i].topic@).unwrap())
    }

    /// What is kept between runs: one record per entry, in order.
    pub fn snapshot(&self) -> (r: Vec<SensorRecord>)
        ensures
            self.snapshot_is(r@),
    {
        let mut r: Vec<SensorRecord> = Vec::new();
        let mut i: usize = 0;
        while i < self.0.len()
            invariant
                i <= self.0@.len(),
                r@.len() == i,
                forall|j: int|
                    0 <= j < i ==> {
                        let pd = #[trigger] self.0@[j].1;
                        &&& r@[j].topic == self.0@[j].0
                        &&& r@[j].name == pd.name
                        &&& r@[j].last_seen == pd.update_timestamp
                        &&& r@[j].battery == pd.common.battery
                        &&& r@[j].voltage == pd.common.voltage
                    },
            decreases self.0.len() - i,
        {
            let pd = &self.0[i].1;
            r.push(
                SensorRecord {
                    topic: self.0[i].0.clone(),
                    name: pd.name.clone(),
                    last_seen: pd.update_timestamp,
                    battery: pd.common.battery,
                    voltage: pd.common.voltage,
                },
            );
            i += 1;
        }
        r
    }

    /// A store holding what the records hold, without trigger values. Of
    /// two records with one topic the later wins.
    pub fn restore(records: Vec<SensorRecord>) -> (r: PrevSensorsData)
        ensures
            r.restored_from(records@),
    {
        let mut r = PrevSensorsData::new();
        let mut i: usize = 0;
        while i < records.len()
            invariant
                i <= records@.len(),
                r.wf(),
                forall|t: Seq<char>|
                    (#[trigger] r.entry(t) is Some) <==> exists|k: int| 0 <= k < i && records@[k].topic@ == t,
                forall|k: int|
                    0 <= k < i && (forall|j: int| k < j < i ==> records@[j].topic@ != records@[k].topic@)
                        ==> #[trigger] records@[k].restored_as(r.entry(records@[k].topic@).unwrap()),
            decreases records.len() - i,
        {
            let rec = &records[i];
            let pd = PrevData {
                common: CommonState { battery: rec.battery, voltage: rec.voltage },
                update_timestamp: rec.last_seen,
                name: rec.name.clone(),
                trigger_states: Vec::new(),
            };
            let ghost before = r.0@;
            let ghost old_r = r;
            let ghost t0 = rec.topic@;
            match find_key(&r.0, rec.topic.as_str()) {
                Some(p) => {
                    proof {
                        lemma_key_index(before, t0, 0);
                    }
                    let e = (rec.topic.clone(), pd);
                    r.0.set(p, e);
                    proof {
                        assert forall|t: Seq<char>| t != t0 implies #[trigger] r.entry(t) == old_r.entry(t) by {
                            lemma_key_index_update(before, p as int, e, t, 0);
                            lemma_key_index(before, t, 0);
                        }
                        lemma_key_index_update(before, p as int, e, t0, 0);
                        assert(r.entry(t0) == Some(e.1));
                    }
                },
                None => {
                    let e = (rec.topic.clone(), pd);
                    r.0.push(e);
                    proof {
                        lemma_key_index(before, t0, 0);
                        assert forall|t: Seq<char>| t != t0 implies #[trigger] r.entry(t) == old_r.entry(t) by {
                            lemma_key_index_push(before, e, t, 0);
                            lemma_key_index(before, t, 0);
                        }
                        lemma_key_index_push(before, e, t0, 0);
                        assert(r.entry(t0) == Some(e.1));
                    }
                },
            }
            proof {
                assert forall|t: Seq<char>|
                    (#[trigger] r.entry(t) is Some) <==> exists|k: int| 0 <= k < i + 1 && records@[k].topic@ == t by {
                    if t != t0 {
                        assert(old_r.entry(t) is Some <==> exists|k: int| 0 <= k < i && records@[k].topic@ == t);
                        if exists|k: int| 0 <= k < i + 1 && records@[k].topic@ == t {
                            let k = choose|k: int| 0 <= k < i + 1 && records@[k].topic@ == t;
                            assert(0 <= k < i && records@[k].topic@ == t);
                        }
                    } else {
                        assert(0 <= i < i + 1 && records@[i as int].topic@ == t);
                    }
                }
                assert forall|k: int|
                    0 <= k < i + 1 && (forall|j: int| k < j < i + 1 ==> records@[j].topic@ != records@[k].topic@)
                        implies #[trigger] records@[k].restored_as(r.entry(records@[k].topic@).unwrap()) by {
                    if k < i {
                        let tk = records@[k].topic@;
                        assert(records@[i as int].topic@ != tk);
                                                assert(forall|j: int| k < j < i ==> records@[j].topic@ != records@[k].topic@);
                        assert(records@[k].restored_as(old_r.entry(tk).unwrap()));
                    }
                }
            }
            i += 1;
        }
        r
    }
}

/// Restoring what a snapshot of a store holds gives back, for every topic,
/// the same sensor name, battery and voltage readings and last-seen time,
/// and no trigger values.
pub proof fn lemma_snapshot_restore_round_trip(
    store: PrevSensorsData,
    records: Seq<SensorRecord>,
    restored: PrevSensorsData,
)
    requires
        store.wf(),
        store.snapshot_is(records),
        restored.restored_from(records),
    ensures
        forall|t: Seq<char>| (#[trigger] restored.entry(t) is Some) <==> store.entry(t) is Some,
        forall|t: Seq<char>|
            #[trigger] store.entry(t) is Some ==> {
                let before = store.entry(t).unwrap();
                let after = restored.entry(t).unwrap();
                &&& after.name == before.name
                &&& after.update_timestamp == before.update_timestamp
                &&& after.common == before.common
                &&& after.trigger_states@.len() == 0
            },
{
    assert forall|t: Seq<char>| (#[trigger] restored.entry(t) is Some) <==> store.entry(t) is Some by {
        lemma_key_index(store.0@, t, 0);
        if exists|i: int| 0 <= i < records.len() && records[i].topic@ == t {
            let i = choose|i: int| 0 <= i < records.len() && records[i].topic@ == t;
            assert(store.0@[i].0@ == t);
        }
        if store.entry(t) is Some {
            let i = key_index(store.0@, t, 0);
            assert(records[i].topic == store.0@[i].0);
        }
    }
    assert forall|t: Seq<char>| #[trigger] store.entry(t) is Some implies {
        let before = store.entry(t).unwrap();
        let after = restored.entry(t).unwrap();
        &&& after.name == before.name
        &&& after.update_timestamp == before.update_timestamp
        &&& after.common == before.common
        &&& after.trigger_states@.len() == 0
    } by {
        lemma_key_index(store.0@, t, 0);
        let i = key_index(store.0@, t, 0);
        assert(records[i].topic == store.0@[i].0);
        assert forall|j: int| i < j < records.len() implies records[j].topic@ != records[i].topic@ by {
            assert(records[j].topic == store.0@[j].0);
        }
        assert(records[i].restored_as(restored.entry(records[i].topic@).unwrap()));
    }
}

/// Replacing the sensor data of one entry keeps the store well formed and
/// every other topic's entry.
pub proof fn lemma_replace_entry(store: PrevSensorsData, after: PrevSensorsData, i: int, pd: PrevData)
    requires
        store.wf(),
        0 <= i < store.0@.len(),
        after.0@ == store.0@.update(i, (store.0@[i].0, pd)),
    ensures
        after.wf(),
        forall|t: Seq<char>| t != store.0@[i].0@ ==> #[trigger] after.entry(t) == store.entry(t),
        after.entry(store.0@[i].0@) == Some(pd),
        key_index(after.0@, store.0@[i].0@, 0) == i,
{
    let e = (store.0@[i].0, pd);
    assert forall|t: Seq<char>| t != store.0@[i].0@ implies #[trigger] after.entry(t) == store.entry(t) by {
        lemma_key_index_update(store.0@, i, e, t, 0);
        lemma_key_index(store.0@, t, 0);
    }
    let t0 = store.0@[i].0@;
    lemma_key_index_update(store.0@, i, e, t0, 0);
    lemma_key_index(store.0@, t0, 0);
    if key_index(store.0@, t0, 0) != i {
        assert(store.0@[key_index(store.0@, t0, 0)].0@ == t0);
    }
}

} // verus!
