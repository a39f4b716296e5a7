//! Bridges sensor events published on topic-structured channels to chat
//! notifications: topic resolution, edge-triggered notification decisions,
//! per-sensor state and the status reports built from it.

pub mod text;
pub mod time;
pub mod log_level;
pub mod config;
pub mod sensors;
pub mod mqtt;
pub mod telegram;

use vstd::prelude::*;
use crate::sensors::PrevSensorsData;

verus! {

/// The state that event handling and chat commands share: the sensor store
/// and whether notifications are sent.
#[derive(Debug)]
pub struct SharedState {
    pub prev_sensors_data: PrevSensorsData,
    pub notifications_enabled: bool,
}

impl Default for SharedState {
    /// An empty store, notifications off.
    fn default() -> (r: SharedState)
        ensures
            r.prev_sensors_data.wf(),
            r.prev_sensors_data.0@.len() == 0,
            !r.notifications_enabled,
    {
        SharedState { prev_sensors_data: PrevSensorsData::new(), notifications_enabled: false }
    }
}

} // verus!
