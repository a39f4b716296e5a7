//! Answers to chat commands: switching notifications on and off, and the
//! battery and status reports built from the sensor store.

use vstd::prelude::*;
use vstd::string::*;
use crate::SharedState;
use crate::config::MqttTopics;
use crate::mqtt::{
    delivered, firing_template, lemma_disabled_is_silent, lemma_single_field_event, listed, outbound, rendered,
    resolved_captures, resolved_fields,
};
use crate::sensors::{FieldValue, PrevData, PrevSensorsData, data_value};
use crate::text::same_text;
use crate::time::{Timestamp, dhms_text, elapsed_seconds};

verus! {

/// Lines joined with newlines between them.
pub open spec fn joined(lines: Seq<Seq<char>>) -> Seq<char>
    decreases lines.len(),
{
    if lines.len() == 0 {
        Seq::empty()
    } else if lines.len() == 1 {
        lines[0]
    } else {
        joined(lines.drop_last()) + seq!['\n'] + lines.last()
    }
}

/// `• <b>Door</b>: 87% / 3.012v (last update 5m ago)`
pub open spec fn battery_line(pd: PrevData, now: Timestamp) -> Seq<char> {
    "• <b>"@ + pd.name@ + "</b>: "@ + pd.common.battery_text() + " / "@ + pd.common.voltage_text() + " ("@
        + pd.common.update_age_text(now) + ")"@
}

/// `• <b>Door</b>: last seen 5m ago`
pub open spec fn status_line(pd: PrevData, now: Timestamp) -> Seq<char> {
    "• <b>"@ + pd.name@ + "</b>: last seen "@ + dhms_text(
        elapsed_seconds(pd.update_timestamp.seconds as int, now.seconds as int) as nat,
    ) + " ago"@
}

pub open spec fn battery_lines(entries: Seq<(String, PrevData)>, now: Timestamp) -> Seq<Seq<char>> {
    entries.map_values(|e: (String, PrevData)| battery_line(e.1, now))
}

pub open spec fn status_lines(entries: Seq<(String, PrevData)>, now: Timestamp) -> Seq<Seq<char>> {
    entries.map_values(|e: (String, PrevData)| status_line(e.1, now))
}

/// One battery line per sensor, or `No data` without sensors.
pub open spec fn battery_report_text(store: PrevSensorsData, now: Timestamp) -> Seq<char> {
    if store.0@.len() == 0 {
        "No data"@
    } else {
        joined(battery_lines(store.0@, now))
    }
}

/// The sensors' last-seen lines (or `no sensors seen`), then whether
/// notifications are on.
pub open spec fn status_report_text(state: SharedState, now: Timestamp) -> Seq<char> {
    "Sensors:\n"@ + (if state.prev_sensors_data.0@.len() == 0 {
        "no sensors seen"@
    } else {
        joined(status_lines(state.prev_sensors_data.0@, now))
    }) + "\n\nNotifications are "@ + (if state.notifications_enabled {
        "enabled"@
    } else {
        "disabled"@
    })
}

pub open spec fn help_text() -> Seq<char> {
    "/enable - enable notifications\n/disable - disable notifications\n/status - display bot and sensors status\n/battery - display latest sensors battery info"@
}

/// The reply to `command` once it has taken effect, given the state after
/// it.
pub open spec fn command_reply(command: Seq<char>, after: SharedState, now: Timestamp) -> Seq<char> {
    if command == "/battery"@ {
        battery_report_text(after.prev_sensors_data, now)
    } else if command == "/enable"@ {
        "Notifications enabled"@
    } else if command == "/disable"@ {
        "Notifications disabled"@
    } else if command == "/status"@ {
        status_report_text(after, now)
    } else if command == "/help"@ {
        help_text()
    } else {
        "Invalid command, use /help to display available commands"@
    }
}

/// `after` is the state once `command` has taken effect on `before`:
/// `/enable` and `/disable` set the notification switch, and nothing else
/// changes.
pub open spec fn command_applied(before: SharedState, command: Seq<char>, after: SharedState) -> bool {
    &&& after.prev_sensors_data == before.prev_sensors_data
    &&& after.notifications_enabled == if command == "/enable"@ {
        true
    } else if command == "/disable"@ {
        false
    } else {
        before.notifications_enabled
    }
}

fn append_joined_line(out: &mut String, line: &String, first: bool)
    ensures
        final(out)@ == if first { old(out)@ + line@ } else { old(out)@ + seq!['\n'] + line@ },
{
    if !first {
        crate::text::push_char(out, '\n');
    }
    out.append(line.as_str());
}

/// The battery report of the store at time `now`.
pub fn battery_report(store: &PrevSensorsData, now: &Timestamp) -> (r: String)
    ensures
        r@ == battery_report_text(*store, *now),
{
    if store.0.len() == 0 {
        return String::from_str("No data");
    }
    let ghost lines = battery_lines(store.0@, *now);
    let mut out = String::new();
    let mut i: usize = 0;
    while i < store.0.len()
        invariant
            lines == battery_lines(store.0@, *now),
            i <= store.0@.len(),
            out@ == joined(lines.subrange(0, i as int)),
        decreases store.0.len() - i,
    {
        let pd = &store.0[i].1;
        let mut line = String::from_str("• <b>");
        line.append(pd.name.as_str());
        line.append("</b>: ");
        let b = pd.common.battery_value_str();
        line.append(b.as_str());
        line.append(" / ");
        let v = pd.common.voltage_value_str();
        line.append(v.as_str());
        line.append(" (");
        let age = pd.common.time_max_since_last_update_str(now);
        line.append(age.as_str());
        line.append(")");
        assert(line@ == lines[i as int]);
        append_joined_line(&mut out, &line, i == 0);
        proof {
            let prefix = lines.subrange(0, i as int + 1);
            assert(prefix.drop_last() =~= lines.subrange(0, i as int));
            if i == 0 {
                assert(lines.subrange(0, 0) =~= Seq::<Seq<char>>::empty());
                assert(out@ =~= joined(prefix));
            }
        }
        i += 1;
    }
    assert(lines.subrange(0, store.0@.len() as int) =~= lines);
    out
}

/// The status report of the state at time `now`.
pub fn status_report(state: &SharedState, now: &Timestamp) -> (r: String)
    ensures
        r@ == status_report_text(*state, *now),
{
    let store = &state.prev_sensors_data;
    let ghost lines = status_lines(store.0@, *now);
    let mut out = String::new();
    let mut i: usize = 0;
    while i < store.0.len()
        invariant
            lines == status_lines(store.0@, *now),
            i <= store.0@.len(),
            out@ == joined(lines.subrange(0, i as int)),
        decreases store.0.len() - i,
    {
        let pd = &store.0[i].1;
        let mut line = String::from_str("• <b>");
        line.append(pd.name.as_str());
        line.append("</b>: last seen ");
        let d = pd.time_since_last_seen(now).to_string();
        line.append(d.as_str());
        line.append(" ago");
        assert(line@ == lines[i as int]);
        append_joined_line(&mut out, &line, i == 0);
        proof {
            let prefix = lines.subrange(0, i as int + 1);
            assert(prefix.drop_last() =~= lines.subrange(0, i as int));
            if i == 0 {
                assert(lines.subrange(0, 0) =~= Seq::<Seq<char>>::empty());
                assert(out@ =~= joined(prefix));
            }
        }
        i += 1;
    }
    assert(lines.subrange(0, store.0@.len() as int) =~= lines);
    let mut r = String::from_str("Sensors:\n");
    if store.0.len() == 0 {
        r.append("no sensors seen");
    } else {
        r.append(out.as_str());
    }
    r.append("\n\nNotifications are ");
    if state.notifications_enabled {
        r.append("enabled");
    } else {
        r.append("disabled");
    }
    r
}

/// Carries out a chat command and returns the reply to send back.
pub fn handle_commands(state: &mut SharedState, command: &str, now: &Timestamp) -> (reply: String)
    ensures
        command_applied(*old(state), command@, *final(state)),
        reply@ == command_reply(command@, *final(state), *now),
{
    proof {
        reveal_strlit("/battery");
        reveal_strlit("/enable");
        reveal_strlit("/disable");
        reveal_strlit("/status");
        reveal_strlit("/help");
        assert("/battery"@[1] != "/disable"@[1]);
        assert("/status"@[1] != "/enable"@[1]);
    }
    if same_text(command, "/battery") {
        battery_report(&state.prev_sensors_data, now)
    } else if same_text(command, "/enable") {
        state.notifications_enabled = true;
        String::from_str("Notifications enabled")
    } else if same_text(command, "/disable") {
        state.notifications_enabled = false;
        String::from_str("Notifications disabled")
    } else if same_text(command, "/status") {
        status_report(state, now)
    } else if same_text(command, "/help") {
        String::from_str(
            "/enable - enable notifications\n/disable - disable notifications\n/status - display bot and sensors status\n/battery - display latest sensors battery info",
        )
    } else {
        String::from_str("Invalid command, use /help to display available commands")
    }
}

/// After `/disable`, an event sends nothing, yet records the values of its
/// configured fields; after a following `/enable`, an event that holds just
/// one configured field, with a value that differs from the one recorded
/// meanwhile and that has a template, sends exactly that field's message.
pub proof fn lemma_toggle_notifications(
    s0: SharedState,
    s1: SharedState,
    s2: SharedState,
    s3: SharedState,
    topics: MqttTopics,
    topic: Seq<char>,
    data: Seq<(String, FieldValue)>,
    next: Seq<(String, FieldValue)>,
    k: int,
    at: Timestamp,
)
    requires
        topics.wf(),
        command_applied(s0, "/disable"@, s1),
        delivered(s1, s2, topics, topic, data, at),
        command_applied(s2, "/enable"@, s3),
        0 <= k < resolved_fields(topics, topic).len(),
        data_value(data, resolved_fields(topics, topic)[k].0@) is Some,
        forall|g: Seq<char>| #[trigger] data_value(next, g) is Some ==> g == resolved_fields(topics, topic)[k].0@,
        data_value(next, resolved_fields(topics, topic)[k].0@) is Some,
        data_value(next, resolved_fields(topics, topic)[k].0@).unwrap().state_text() != data_value(
            data,
            resolved_fields(topics, topic)[k].0@,
        ).unwrap().state_text(),
        resolved_fields(topics, topic)[k].1.template_for(
            data_value(next, resolved_fields(topics, topic)[k].0@).unwrap().state_text(),
        ) is Some,
    ensures
        outbound(s1, topics, topic, data) == Seq::<Seq<char>>::empty(),
        forall|f: Seq<char>|
            listed(resolved_fields(topics, topic), f) && data_value(data, f) is Some
                ==> #[trigger] s2.prev_sensors_data.trigger_of(topic, f) == Some(
                data_value(data, f).unwrap().state_text(),
            ),
        outbound(s3, topics, topic, next) == seq![
            rendered(
                resolved_fields(topics, topic)[k].1.template_for(
                    data_value(next, resolved_fields(topics, topic)[k].0@).unwrap().state_text(),
                ).unwrap(),
                resolved_captures(topics, topic),
            ),
        ],
{
    reveal_strlit("/disable");
    reveal_strlit("/enable");
    assert("/disable"@.len() != "/enable"@.len());
    lemma_disabled_is_silent(s1, topics, topic, data);
    let fields = resolved_fields(topics, topic);
    let f = fields[k].0@;
    assert(listed(fields, f));
    assert(firing_template(s3, topic, next, f, fields[k].1) is Some);
    lemma_single_field_event(s3, topics, topic, next, k);
}

} // verus!
