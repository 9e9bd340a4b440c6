//! The semantic model of one remote-control command: a named haptic effect
//! made of timed tracks, each addressing a set of actuator indices.

use vstd::prelude::*;

verus! {

/// How a track's intensity develops over its time span.
#[derive(Clone, Copy, Debug, PartialEq, Eq, Structural)]
pub enum IntensityMode {
    Const,
    Fade,
    FadeInAndOut,
}

/// Which kind of actuator a track drives.
#[derive(Clone, Copy, Debug, PartialEq, Eq, Structural)]
pub enum ActionType {
    Shake,
    Electrical,
}

/// One timed intensity envelope applied to a set of actuator indices.
/// Index values below 100 address the front zone, 100 and above the back zone.
#[derive(Clone, Debug)]
pub struct ControlCommandTrack {
    pub start_time: u16,
    pub end_time: u16,
    pub stop_name: String,
    pub start_intensity: u16,
    pub end_intensity: u16,
    pub intensity_mode: IntensityMode,
    pub action_type: ActionType,
    pub once: bool,
    pub interval: u16,
    pub index: Vec<u8>,
}

/// One playable haptic effect: a named, ordered group of tracks.
/// `keep` asks the device to retain the pattern after playback.
#[derive(Clone, Debug)]
pub struct ControlCommandBody {
    pub name: String,
    pub uuid: String,
    pub keep: bool,
    pub priority: u16,
    pub tracks: Vec<ControlCommandTrack>,
}

/// A full command as the transport hands it over: a method name and an effect.
#[derive(Clone, Debug)]
pub struct ControlCommand {
    pub method: String,
    pub body: ControlCommandBody,
}

} // verus!
