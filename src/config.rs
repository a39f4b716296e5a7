//! The configuration model: topic bases, their ordered sensor-name
//! patterns, per-field state-to-message tables, and endpoint settings; and
//! the matcher that resolves an event topic to a configured sensor.

use vstd::prelude::*;
use vstd::string::*;
use crate::log_level::LogLevel;
use crate::text::{has_prefix, same_text, starts_with};

verus! {

#[verifier::external_type_specification]
#[verifier::external_body]
pub struct ExRegex(regex::Regex);

#[verifier::external_type_specification]
#[verifier::external_body]
pub struct ExRegexError(regex::Error);

/// Whether `regex::Regex::new` accepts the pattern.
pub uninterp spec fn pattern_compiles(pattern: Seq<char>) -> bool;

/// What `regex::Regex::captures` finds of the pattern in the haystack: the
/// whole match, and for each capture group in order (the whole match first)
/// its name, if any, and the text it matched, if it took part.
pub uninterp spec fn pattern_captures(pattern: Seq<char>, haystack: Seq<char>) -> Option<
    (Seq<char>, Seq<(Option<Seq<char>>, Option<Seq<char>>)>),
>;

/// A compiled sensor-name pattern, with the text it was compiled from.
struct SensorPattern {
    source: String,
    regex: regex::Regex,
}

impl SensorPattern {
    pub closed spec fn source(&self) -> Seq<char> {
        self.source@
    }

    /// Relies on `regex::Regex::new`: compiles the pattern, or gives the
    /// error that says why it is invalid.
    #[verifier::external_body]
    fn compile(source: &str) -> (r: Result<SensorPattern, regex::Error>)
        ensures
            r is Ok <==> pattern_compiles(source@),
            r matches Ok(p) ==> p.source() == source@,
    {
        match regex::Regex::new(source) {
            Ok(regex) => Ok(SensorPattern { source: source.to_string(), regex }),
            Err(error) => Err(error),
        }
    }

    /// Relies on `regex::Regex::captures` (with `Captures::get` and
    /// `Match::as_str` to read what it found) and `Regex::capture_names`:
    /// the leftmost match of the pattern and its capture groups.
    #[verifier::external_body]
    fn captures(&self, haystack: &str) -> (r: Option<(String, Vec<(Option<String>, Option<String>)>)>)
        ensures
            r.deep_view() == pattern_captures(self.source(), haystack@),
    {
        let caps = self.regex.captures(haystack)?;
        let whole = caps.get(0)?.as_str().to_string();
        let groups = self.regex.capture_names().enumerate().map(
            |(i, name)| (name.map(|n| n.to_string()), caps.get(i).map(|m| m.as_str().to_string())),
        ).collect();
        Some((whole, groups))
    }
}

/// The named groups among a match's capture groups, in order, each with the
/// text it matched if it took part.
pub open spec fn named_groups(groups: Seq<(Option<Seq<char>>, Option<Seq<char>>)>) -> Seq<
    (Seq<char>, Option<Seq<char>>),
>
    decreases groups.len(),
{
    if groups.len() == 0 {
        Seq::empty()
    } else {
        let rest = named_groups(groups.drop_last());
        match groups.last().0 {
            Some(name) => rest.push((name, groups.last().1)),
            None => rest,
        }
    }
}

fn collect_named_groups(groups: &Vec<(Option<String>, Option<String>)>) -> (r: Vec<(String, Option<String>)>)
    ensures
        r.deep_view() == named_groups(groups.deep_view()),
{
    let mut r: Vec<(String, Option<String>)> = Vec::new();
    let mut i: usize = 0;
    while i < groups.len()
        invariant
            i <= groups.len(),
            r.deep_view() == named_groups(groups.deep_view().subrange(0, i as int)),
        decreases groups.len() - i,
    {
        let ghost prefix = groups.deep_view().subrange(0, i as int + 1);
        assert(prefix.drop_last() =~= groups.deep_view().subrange(0, i as int));
        match &groups[i].0 {
            Some(name) => {
                let value = match &groups[i].1 {
                    Some(v) => Some(v.clone()),
                    None => None,
                };
                r.push((name.clone(), value));
                assert(r.deep_view() =~= named_groups(prefix));
            },
            None => {},
        }
        i += 1;
    }
    assert(groups.deep_view().subrange(0, groups.len() as int) =~= groups.deep_view());
    r
}

pub type SensorState = String;

pub type SensorStateMessage = String;

pub type SensorNameRegex = String;

pub type PayloadFieldName = String;

pub type SensorName = String;

/// Named capture groups of a sensor-name match: the group's name and the
/// text it matched, absent when the group did not take part.
pub type SensorNameCaptures = Vec<(String, Option<String>)>;

/// Index of the first entry at or after `from` whose key is `key`, or -1.
pub open spec fn key_index<V>(entries: Seq<(String, V)>, key: Seq<char>, from: int) -> int
    decreases entries.len() - from,
{
    if from < 0 || from >= entries.len() {
        -1
    } else if entries[from].0@ == key {
        from
    } else {
        key_index(entries, key, from + 1)
    }
}

/// Position of the first entry whose key is `key`.
pub fn find_key<V>(entries: &Vec<(String, V)>, key: &str) -> (r: Option<usize>)
    ensures
        match r {
            Some(i) => i as int == key_index(entries@, key@, 0) && i < entries@.len(),
            None => key_index(entries@, key@, 0) < 0,
        },
{
    let mut i: usize = 0;
    while i < entries.len()
        invariant
            i <= entries@.len(),
            key_index(entries@, key@, 0) == key_index(entries@, key@, i as int),
        decreases entries.len() - i,
    {
        if same_text(entries[i].0.as_str(), key) {
            return Some(i);
        }
        i += 1;
    }
    None
}

/// No two entries share a key.
pub open spec fn keys_unique<V>(entries: Seq<(String, V)>) -> bool {
    forall|i: int, j: int| 0 <= i < j < entries.len() ==> entries[i].0@ != entries[j].0@
}

/// Whether no two entries share a key.
pub fn has_unique_keys<V>(entries: &Vec<(String, V)>) -> (r: bool)
    ensures
        r == keys_unique(entries@),
{
    let mut j: usize = 0;
    while j < entries.len()
        invariant
            j <= entries@.len(),
            forall|a: int, b: int| 0 <= a < b < j ==> entries@[a].0@ != entries@[b].0@,
        decreases entries.len() - j,
    {
        match find_key(entries, entries[j].0.as_str()) {
            Some(i) => {
                if i < j {
                    proof {
                        lemma_key_index(entries@, entries@[j as int].0@, 0);
                    }
                    return false;
                }
            },
            None => {},
        }
        proof {
            lemma_key_index(entries@, entries@[j as int].0@, 0);
        }
        j += 1;
    }
    true
}

/// Where `key_index` finds a key, the entry there has it and none before
/// does; where it finds none, no entry from `from` on has it.
pub proof fn lemma_key_index<V>(entries: Seq<(String, V)>, key: Seq<char>, from: int)
    requires
        0 <= from,
    ensures
        key_index(entries, key, from) >= 0 ==> {
            let i = key_index(entries, key, from);
            &&& from <= i < entries.len()
            &&& entries[i].0@ == key
            &&& forall|j: int| from <= j < i ==> entries[j].0@ != key
        },
        key_index(entries, key, from) < 0 ==> key_index(entries, key, from) == -1 && forall|j: int|
            from <= j < entries.len() ==> entries[j].0@ != key,
    decreases entries.len() - from,
{
    if from < entries.len() && entries[from].0@ != key {
        lemma_key_index(entries, key, from + 1);
    }
}

/// Replacing an entry by one with the same key leaves every lookup where
/// it was.
pub proof fn lemma_key_index_update<V>(entries: Seq<(String, V)>, i: int, e: (String, V), key: Seq<char>, from: int)
    requires
        0 <= i < entries.len(),
        e.0@ == entries[i].0@,
    ensures
        key_index(entries.update(i, e), key, from) == key_index(entries, key, from),
    decreases entries.len() - from,
{
    if 0 <= from < entries.len() {
        lemma_key_index_update(entries, i, e, key, from + 1);
    }
}

/// Appending an entry changes only the lookup of a key that was absent and
/// that the new entry has.
pub proof fn lemma_key_index_push<V>(entries: Seq<(String, V)>, e: (String, V), key: Seq<char>, from: int)
    requires
        0 <= from <= entries.len(),
    ensures
        key_index(entries.push(e), key, from) == if key_index(entries, key, from) >= 0 {
            key_index(entries, key, from)
        } else if e.0@ == key {
            entries.len() as int
        } else {
            -1
        },
    decreases entries.len() - from,
{
    let pushed = entries.push(e);
    if from < entries.len() {
        assert(pushed[from] == entries[from]);
        lemma_key_index_push(entries, e, key, from + 1);
    } else {
        assert(pushed[from] == e);
        assert(key_index(pushed, key, from + 1) == -1);
    }
}

/// Broker endpoint.
#[derive(Debug)]
pub struct MqttBroker {
    pub hostname: String,
    pub port: u16,
}

/// For one payload field: the message template of each field value, the
/// value written as a state table names it (`true`, `open`, `3`): a string by its
/// own text, anything else as its JSON text.
#[derive(Debug)]
pub struct SensorStateMessages(pub Vec<(SensorState, SensorStateMessage)>);

impl SensorStateMessages {
    /// No state has two templates.
    pub open spec fn wf(&self) -> bool {
        keys_unique(self.0@)
    }

    /// The template configured for `state`, from the first entry with that key.
    pub open spec fn template_for(&self, state: Seq<char>) -> Option<Seq<char>> {
        let i = key_index(self.0@, state, 0);
        if i < 0 {
            None
        } else {
            Some(self.0@[i].1@)
        }
    }

    /// The template configured for `state`, if any.
    pub fn get(&self, state: &str) -> (r: Option<&String>)
        ensures
            r.deep_view() == self.template_for(state@),
    {
        match find_key(&self.0, state) {
            Some(i) => Some(&self.0[i].1),
            None => None,
        }
    }
}

/// For one sensor pattern: the state-message table of each payload field.
#[derive(Debug)]
pub struct SensorPayloadFieldNameAndStateMessages(pub Vec<(PayloadFieldName, SensorStateMessages)>);

impl SensorPayloadFieldNameAndStateMessages {
    /// No field has two state tables, and no state table repeats a state.
    pub open spec fn wf(&self) -> bool {
        &&& keys_unique(self.0@)
        &&& forall|i: int| 0 <= i < self.0@.len() ==> (#[trigger] self.0@[i].1).wf()
    }

    /// Whether the table is well formed.
    pub fn is_well_formed(&self) -> (r: bool)
        ensures
            r == self.wf(),
    {
        if !has_unique_keys(&self.0) {
            return false;
        }
        let mut i: usize = 0;
        while i < self.0.len()
            invariant
                i <= self.0@.len(),
                forall|k: int| 0 <= k < i ==> (#[trigger] self.0@[k].1).wf(),
            decreases self.0.len() - i,
        {
            if !has_unique_keys(&self.0[i].1.0) {
                return false;
            }
            i += 1;
        }
        true
    }

    /// The configured payload field names, in order.
    pub fn payload_field_names(&self) -> (r: Vec<&String>)
        ensures
            r@.len() == self.0@.len(),
            forall|i: int| 0 <= i < r@.len() ==> *r@[i] == self.0@[i].0,
    {
        let mut r: Vec<&String> = Vec::new();
        let mut i: usize = 0;
        while i < self.0.len()
            invariant
                i <= self.0@.len(),
                r@.len() == i,
                forall|j: int| 0 <= j < i ==> *r@[j] == self.0@[j].0,
            decreases self.0.len() - i,
        {
            r.push(&self.0[i].0);
            i += 1;
        }
        r
    }
}

/// What resolving a sensor-name string against an ordered pattern list
/// gives.
pub enum SensorLookup {
    /// A pattern met before any match does not compile.
    Fault,
    /// No pattern matches.
    Unmatched,
    /// The pattern at `entry` is the first that matches: the whole match
    /// and its named groups.
    Matched { entry: int, name: Seq<char>, captures: Seq<(Seq<char>, Option<Seq<char>>)> },
}

/// Resolves `name` against the patterns from index `from` on, in order: the
/// first pattern that matches wins; one that does not compile stops the scan.
pub open spec fn sensor_lookup(
    entries: Seq<(String, SensorPayloadFieldNameAndStateMessages)>,
    name: Seq<char>,
    from: int,
) -> SensorLookup
    decreases entries.len() - from,
{
    if from < 0 || from >= entries.len() {
        SensorLookup::Unmatched
    } else if !pattern_compiles(entries[from].0@) {
        SensorLookup::Fault
    } else {
        match pattern_captures(entries[from].0@, name) {
            Some(found) => SensorLookup::Matched {
                entry: from,
                name: found.0,
                captures: named_groups(found.1),
            },
            None => sensor_lookup(entries, name, from + 1),
        }
    }
}

/// The result of a sensor-name match: the matched name, its named captures,
/// and the field table of the pattern that matched.
pub type SensorMatch<'a> = (SensorName, SensorNameCaptures, &'a SensorPayloadFieldNameAndStateMessages);

/// Ordered sensor-name patterns under one topic base, each with its
/// field table.
#[derive(Debug)]
pub struct Sensors(pub Vec<(SensorNameRegex, SensorPayloadFieldNameAndStateMessages)>);

impl Sensors {
    /// `r` is what resolving `name` against these patterns gives.
    pub open spec fn resolves_to(
        &self,
        name: Seq<char>,
        r: Result<Option<SensorMatch>, regex::Error>,
    ) -> bool {
        match sensor_lookup(self.0@, name, 0) {
            SensorLookup::Fault => r is Err,
            SensorLookup::Unmatched => r matches Ok(None),
            SensorLookup::Matched { entry, name, captures } => match r {
                Ok(Some(m)) => m.0@ == name && m.1.deep_view() == captures && *m.2 == self.0@[entry].1,
                _ => false,
            },
        }
    }

    /// Resolves a sensor-name string: the first pattern, in order, that
    /// matches it gives the whole matched text as the sensor name and the
    /// named captures. A pattern that does not compile, met before any
    /// match, gives its error.
    pub fn match_sensor_name(&self, sensor_name: &str) -> (r: Result<Option<SensorMatch>, regex::Error>)
        ensures
            self.resolves_to(sensor_name@, r),
    {
        let mut i: usize = 0;
        while i < self.0.len()
            invariant
                i <= self.0@.len(),
                sensor_lookup(self.0@, sensor_name@, 0) == sensor_lookup(self.0@, sensor_name@, i as int),
            decreases self.0.len() - i,
        {
            let pattern = match SensorPattern::compile(self.0[i].0.as_str()) {
                Ok(p) => p,
                Err(e) => return Err(e),
            };
            match pattern.captures(sensor_name) {
                Some(found) => {
                    let captures = collect_named_groups(&found.1);
                    return Ok(Some((found.0, captures, &self.0[i].1)));
                },
                None => {},
            }
            i += 1;
        }
        Ok(None)
    }
}

/// Index of the first topic base at or after `from` that, followed by `/`,
/// is a prefix of `topic`; -1 when there is none.
pub open spec fn base_index(topics: Seq<(String, Sensors)>, topic: Seq<char>, from: int) -> int
    decreases topics.len() - from,
{
    if from < 0 || from >= topics.len() {
        -1
    } else if has_prefix(topic, topics[from].0@.push('/')) {
        from
    } else {
        base_index(topics, topic, from + 1)
    }
}

/// The sensor-name string of `topic` under the base at index `b`: what
/// follows the base and its `/`.
pub open spec fn sensor_part(topics: Seq<(String, Sensors)>, topic: Seq<char>, b: int) -> Seq<char> {
    topic.subrange(topics[b].0@.len() as int + 1, topic.len() as int)
}

/// Topic bases, in order, each with its sensor patterns.
#[derive(Debug)]
pub struct MqttTopics(pub Vec<(String, Sensors)>);

impl MqttTopics {
    /// Every field table under every base is well formed.
    pub open spec fn wf(&self) -> bool {
        forall|b: int, e: int|
            0 <= b < self.0@.len() && 0 <= e < self.0@[b].1.0@.len() ==> (#[trigger] self.0@[b].1.0@[e].1).wf()
    }

    /// Whether every field table is well formed.
    pub fn is_well_formed(&self) -> (r: bool)
        ensures
            r == self.wf(),
    {
        let mut b: usize = 0;
        while b < self.0.len()
            invariant
                b <= self.0@.len(),
                forall|bb: int, e: int|
                    0 <= bb < b && 0 <= e < self.0@[bb].1.0@.len() ==> (#[trigger] self.0@[bb].1.0@[e].1).wf(),
            decreases self.0.len() - b,
        {
            let entries = &self.0[b].1.0;
            let mut e: usize = 0;
            while e < entries.len()
                invariant
                    b < self.0@.len(),
                    entries == &self.0@[b as int].1.0,
                    e <= entries@.len(),
                    forall|bb: int, ee: int|
                        0 <= bb < b && 0 <= ee < self.0@[bb].1.0@.len() ==> (#[trigger] self.0@[bb].1.0@[ee].1).wf(),
                    forall|ee: int| 0 <= ee < e ==> (#[trigger] entries@[ee].1).wf(),
                decreases entries.len() - e,
            {
                if !entries[e].1.is_well_formed() {
                    return false;
                }
                e += 1;
            }
            b += 1;
        }
        true
    }

    /// Index of the topic base that `topic` falls under, or -1.
    pub open spec fn base_of(&self, topic: Seq<char>) -> int {
        base_index(self.0@, topic, 0)
    }

    /// What resolving `topic` gives: unmatched when no base covers it, else
    /// the lookup of its sensor-name string under the first base that does.
    pub open spec fn lookup(&self, topic: Seq<char>) -> SensorLookup {
        let b = self.base_of(topic);
        if b < 0 {
            SensorLookup::Unmatched
        } else {
            sensor_lookup(self.0@[b].1.0@, sensor_part(self.0@, topic, b), 0)
        }
    }

    /// Resolves an event topic: the first base that, followed by `/`, is a
    /// prefix of the topic selects the patterns, and the rest of the topic
    /// is matched against them. A topic under no base is no match.
    pub fn match_topic(&self, topic: &String) -> (r: Result<Option<SensorMatch>, regex::Error>)
        ensures
            self.base_of(topic@) < 0 ==> r matches Ok(None),
            self.base_of(topic@) >= 0 ==> self.0@[self.base_of(topic@)].1.resolves_to(
                sensor_part(self.0@, topic@, self.base_of(topic@)),
                r,
            ),
    {
        let mut i: usize = 0;
        while i < self.0.len()
            invariant
                i <= self.0@.len(),
                base_index(self.0@, topic@, 0) == base_index(self.0@, topic@, i as int),
            decreases self.0.len() - i,
        {
            let mut base_slash = self.0[i].0.clone();
            crate::text::push_char(&mut base_slash, '/');
            if starts_with(topic.as_str(), base_slash.as_str()) {
                let len = topic.unicode_len();
                let n = self.0[i].0.unicode_len();
                assert(base_slash@ == self.0@[i as int].0@.push('/'));
                let sensor_name = topic.as_str().substring_char(n + 1, len);
                return self.0[i].1.match_sensor_name(sensor_name);
            }
            i += 1;
        }
        Ok(None)
    }
}

proof fn lemma_base_index_reaches(topics: Seq<(String, Sensors)>, topic: Seq<char>, from: int, b: int)
    requires
        0 <= from <= b < topics.len(),
        has_prefix(topic, topics[b].0@.push('/')),
        forall|j: int| from <= j < b ==> !has_prefix(topic, #[trigger] topics[j].0@.push('/')),
    ensures
        base_index(topics, topic, from) == b,
    decreases b - from,
{
    if from < b {
        lemma_base_index_reaches(topics, topic, from + 1, b);
    }
}

proof fn lemma_sensor_lookup_reaches(
    entries: Seq<(String, SensorPayloadFieldNameAndStateMessages)>,
    name: Seq<char>,
    from: int,
    e: int,
)
    requires
        0 <= from <= e < entries.len(),
        forall|k: int|
            from <= k < e ==> pattern_compiles(#[trigger] entries[k].0@) && pattern_captures(entries[k].0@, name)
                is None,
    ensures
        sensor_lookup(entries, name, from) == sensor_lookup(entries, name, e),
    decreases e - from,
{
    if from < e {
        lemma_sensor_lookup_reaches(entries, name, from + 1, e);
    }
}

/// A topic written as a configured base, `/`, and a string `s` that the
/// base's pattern at `entry` matches, resolves to that pattern's match,
/// with the same whole match and named captures that the pattern gives on
/// `s` itself; provided that no earlier base, followed by `/`, is a prefix
/// of the topic, and that every earlier pattern under the base compiles and
/// does not match `s` (the first to match wins).
pub proof fn lemma_topic_resolves_to_pattern_match(topics: MqttTopics, b: int, entry: int, s: Seq<char>)
    requires
        0 <= b < topics.0@.len(),
        0 <= entry < topics.0@[b].1.0@.len(),
        pattern_compiles(topics.0@[b].1.0@[entry].0@),
        pattern_captures(topics.0@[b].1.0@[entry].0@, s) is Some,
        forall|j: int|
            0 <= j < b ==> !has_prefix(
                topics.0@[b].0@.push('/') + s,
                #[trigger] topics.0@[j].0@.push('/'),
            ),
        forall|k: int|
            0 <= k < entry ==> pattern_compiles(#[trigger] topics.0@[b].1.0@[k].0@) && pattern_captures(
                topics.0@[b].1.0@[k].0@,
                s,
            ) is None,
    ensures
        ({
            let topic = topics.0@[b].0@.push('/') + s;
            let found = pattern_captures(topics.0@[b].1.0@[entry].0@, s).unwrap();
            &&& topics.base_of(topic) == b
            &&& sensor_part(topics.0@, topic, b) == s
            &&& topics.lookup(topic) == (SensorLookup::Matched {
                entry,
                name: found.0,
                captures: named_groups(found.1),
            })
        }),
{
    let topic = topics.0@[b].0@.push('/') + s;
    let prefix = topics.0@[b].0@.push('/');
    assert(topic.subrange(0, prefix.len() as int) =~= prefix);
    lemma_base_index_reaches(topics.0@, topic, 0, b);
    assert(sensor_part(topics.0@, topic, b) =~= s);
    lemma_sensor_lookup_reaches(topics.0@[b].1.0@, s, 0, entry);
}

/// Chat settings: the bot token, the chats that receive notifications, and
/// the chats allowed to send commands besides them.
#[derive(Debug)]
pub struct Telegram {
    pub token: String,
    pub notification_chat_ids: Vec<i64>,
    pub admin_chat_ids: Option<Vec<i64>>,
}

impl Telegram {
    /// The chats whose commands are answered: the notification chats, then
    /// the admin chats.
    pub fn valid_chat_ids(&self) -> (r: Vec<i64>)
        ensures
            r@ == self.notification_chat_ids@ + match self.admin_chat_ids {
                Some(ids) => ids@,
                None => Seq::empty(),
            },
    {
        let mut r = self.notification_chat_ids.clone();
        assert(r@ =~= self.notification_chat_ids@);
        match &self.admin_chat_ids {
            Some(ids) => {
                let mut i: usize = 0;
                while i < ids.len()
                    invariant
                        i <= ids@.len(),
                        r@ == self.notification_chat_ids@ + ids@.subrange(0, i as int),
                    decreases ids.len() - i,
                {
                    r.push(ids[i]);
                    assert(ids@.subrange(0, i as int + 1) =~= ids@.subrange(0, i as int).push(ids@[i as int]));
                    assert(r@ =~= self.notification_chat_ids@ + ids@.subrange(0, i as int + 1));
                    i += 1;
                }
                assert(ids@.subrange(0, ids@.len() as int) =~= ids@);
            },
            None => {
                assert(r@ =~= self.notification_chat_ids@ + Seq::<i64>::empty());
            },
        }
        r
    }
}

/// Where the sensor state is kept between runs when the configuration
/// names no file.
pub fn sensors_data_file_default() -> (r: String)
    ensures
        r@ == "sensors_data.json"@,
{
    String::from_str("sensors_data.json")
}

/// The whole configuration.
#[derive(Debug)]
pub struct Config {
    pub log_level: LogLevel,
    pub sensors_data_file: String,
    pub mqtt_broker: Option<MqttBroker>,
    pub telegram: Telegram,
    pub mqtt_topics: MqttTopics,
}

impl Config {
    /// Every sensor-name pattern under every topic base compiles.
    pub open spec fn patterns_valid(&self) -> bool {
        forall|b: int, e: int|
            0 <= b < self.mqtt_topics.0@.len() && 0 <= e < self.mqtt_topics.0@[b].1.0@.len()
                ==> pattern_compiles(#[trigger] self.mqtt_topics.0@[b].1.0@[e].0@)
    }

    /// The configured topic bases, in order.
    pub fn mqtt_topics(&self) -> (r: Vec<&String>)
        ensures
            r@.len() == self.mqtt_topics.0@.len(),
            forall|i: int| 0 <= i < r@.len() ==> *r@[i] == self.mqtt_topics.0@[i].0,
    {
        let mut r: Vec<&String> = Vec::new();
        let mut i: usize = 0;
        while i < self.mqtt_topics.0.len()
            invariant
                i <= self.mqtt_topics.0@.len(),
                r@.len() == i,
                forall|j: int| 0 <= j < i ==> *r@[j] == self.mqtt_topics.0@[j].0,
            decreases self.mqtt_topics.0.len() - i,
        {
            r.push(&self.mqtt_topics.0[i].0);
            i += 1;
        }
        r
    }

    /// One subscription per topic base: the base followed by `/+`, which
    /// covers every topic one level below it.
    pub fn mqtt_subscribe_patterns(&self) -> (r: Vec<String>)
        ensures
            r@.len() == self.mqtt_topics.0@.len(),
            forall|i: int| 0 <= i < r@.len() ==> r@[i]@ == self.mqtt_topics.0@[i].0@ + "/+"@,
    {
        let mut r: Vec<String> = Vec::new();
        let mut i: usize = 0;
        while i < self.mqtt_topics.0.len()
            invariant
                i <= self.mqtt_topics.0@.len(),
                r@.len() == i,
                forall|j: int| 0 <= j < i ==> r@[j]@ == self.mqtt_topics.0@[j].0@ + "/+"@,
            decreases self.mqtt_topics.0.len() - i,
        {
            let mut pattern = self.mqtt_topics.0[i].0.clone();
            pattern.append("/+");
            r.push(pattern);
            i += 1;
        }
        r
    }

    /// Whether every sensor-name pattern compiles.
    pub fn check(&self) -> (r: bool)
        ensures
            r == self.patterns_valid(),
    {
        let topics = &self.mqtt_topics.0;
        let mut b: usize = 0;
        while b < topics.len()
            invariant
                topics == &self.mqtt_topics.0,
                b <= topics@.len(),
                forall|bb: int, e: int|
                    0 <= bb < b && 0 <= e < topics@[bb].1.0@.len() ==> pattern_compiles(
                        #[trigger] topics@[bb].1.0@[e].0@,
                    ),
            decreases topics.len() - b,
        {
            let entries = &topics[b].1.0;
            let mut e: usize = 0;
            while e < entries.len()
                invariant
                    topics == &self.mqtt_topics.0,
                    b < topics@.len(),
                    entries == &topics@[b as int].1.0,
                    e <= entries@.len(),
                    forall|bb: int, ee: int|
                        0 <= bb < b && 0 <= ee < topics@[bb].1.0@.len() ==> pattern_compiles(
                            #[trigger] topics@[bb].1.0@[ee].0@,
                        ),
                    forall|ee: int| 0 <= ee < e ==> pattern_compiles(#[trigger] entries@[ee].0@),
                decreases entries.len() - e,
            {
                if SensorPattern::compile(entries[e].0.as_str()).is_err() {
                    return false;
                }
                e += 1;
            }
            b += 1;
        }
        true
    }
}

/// The patterns under one base that do not compile, in order.
pub open spec fn invalid_in(entries: Seq<(String, SensorPayloadFieldNameAndStateMessages)>) -> Seq<Seq<char>>
    decreases entries.len(),
{
    if entries.len() == 0 {
        Seq::empty()
    } else {
        invalid_in(entries.drop_last()) + if pattern_compiles(entries.last().0@) {
            Seq::empty()
        } else {
            seq![entries.last().0@]
        }
    }
}

/// The patterns that do not compile, base by base, in order.
pub open spec fn invalid_patterns(topics: Seq<(String, Sensors)>) -> Seq<Seq<char>>
    decreases topics.len(),
{
    if topics.len() == 0 {
        Seq::empty()
    } else {
        invalid_patterns(topics.drop_last()) + invalid_in(topics.last().1.0@)
    }
}

impl Config {
    /// Each sensor-name pattern that does not compile, in order, with the
    /// error that says why.
    pub fn pattern_errors(&self) -> (r: Vec<(String, regex::Error)>)
        ensures
            r@.map_values(|e: (String, regex::Error)| e.0@) == invalid_patterns(self.mqtt_topics.0@),
    {
        let topics = &self.mqtt_topics.0;
        let mut r: Vec<(String, regex::Error)> = Vec::new();
        let mut b: usize = 0;
        while b < topics.len()
            invariant
                topics == &self.mqtt_topics.0,
                b <= topics@.len(),
                r@.map_values(|e: (String, regex::Error)| e.0@) == invalid_patterns(topics@.subrange(0, b as int)),
            decreases topics.len() - b,
        {
            let entries = &topics[b].1.0;
            let ghost done = r@.map_values(|e: (String, regex::Error)| e.0@);
            let mut e: usize = 0;
            while e < entries.len()
                invariant
                    b < topics@.len(),
                    entries == &topics@[b as int].1.0,
                    e <= entries@.len(),
                    r@.map_values(|x: (String, regex::Error)| x.0@) == done + invalid_in(entries@.subrange(0, e as int)),
                decreases entries.len() - e,
            {
                let ghost before = r@.map_values(|x: (String, regex::Error)| x.0@);
                assert(entries@.subrange(0, e as int + 1).drop_last() =~= entries@.subrange(0, e as int));
                match SensorPattern::compile(entries[e].0.as_str()) {
                    Ok(_) => {
                        assert(before + Seq::<Seq<char>>::empty() =~= before);
                    },
                    Err(error) => {
                        r.push((entries[e].0.clone(), error));
                        assert(r@.map_values(|x: (String, regex::Error)| x.0@) =~= before.push(entries@[e as int].0@));
                        assert(done + invalid_in(entries@.subrange(0, e as int + 1)) =~= (done + invalid_in(
                            entries@.subrange(0, e as int),
                        )).push(entries@[e as int].0@));
                    },
                }
                e += 1;
            }
            assert(entries@.subrange(0, entries@.len() as int) =~= entries@);
            assert(topics@.subrange(0, b as int + 1).drop_last() =~= topics@.subrange(0, b as int));
            b += 1;
        }
        assert(topics@.subrange(0, topics@.len() as int) =~= topics@);
        r
    }
}

/// A base found for a topic is one of the configured bases.
pub proof fn lemma_base_index_in_range(topics: Seq<(String, Sensors)>, topic: Seq<char>, from: int)
    requires
        0 <= from,
    ensures
        base_index(topics, topic, from) == -1 || from <= base_index(topics, topic, from) < topics.len(),
    decreases topics.len() - from,
{
    if from < topics.len() {
        lemma_base_index_in_range(topics, topic, from + 1);
    }
}

/// A matched pattern is one of the configured patterns.
pub proof fn lemma_sensor_lookup_in_range(
    entries: Seq<(String, SensorPayloadFieldNameAndStateMessages)>,
    name: Seq<char>,
    from: int,
)
    requires
        0 <= from,
    ensures
        sensor_lookup(entries, name, from) matches SensorLookup::Matched { entry, .. } ==> from <= entry
            < entries.len(),
    decreases entries.len() - from,
{
    if from < entries.len() {
        lemma_sensor_lookup_in_range(entries, name, from + 1);
    }
}

} // verus!
