//! The payload that the remote device service understands: an effect made of
//! tracks, wrapped in a method envelope whose body travels as base64 text.
use vstd::prelude::*;

pub mod body_as_base64_string;
pub mod bool_as_string;

verus! {

/// The mechanism a track drives.
#[derive(Debug, Clone, Copy, PartialEq, Eq, Structural)]
pub enum ActionType {
    Shake,
    Electrical,
}

/// How a track's intensity moves between its start and end values.
#[derive(Debug, Clone, Copy, PartialEq, Eq, Structural)]
pub enum IntensityMode {
    Const,
    Fade,
    FadeInAndOut,
}

/// One timed instruction for a set of device dots.
#[derive(Debug, Clone)]
pub struct Track {
    pub start_time: u16,
    pub end_time: u16,
    pub stop_name: String,
    pub start_intensity: u16,
    pub end_intensity: u16,
    pub intensity_mode: IntensityMode,
    pub action_type: ActionType,
    pub once: bool,
    pub interval: u8,
    pub index: Vec<u8>,
}

/// A track as a mathematical value.
pub struct TrackView {
    pub start_time: u16,
    pub end_time: u16,
    pub stop_name: Seq<char>,
    pub start_intensity: u16,
    pub end_intensity: u16,
    pub intensity_mode: IntensityMode,
    pub action_type: ActionType,
    pub once: bool,
    pub interval: u8,
    pub index: Seq<u8>,
}

impl View for Track {
    type V = TrackView;

    open spec fn view(&self) -> TrackView {
        TrackView {
            start_time: self.start_time,
            end_time: self.end_time,
            stop_name: self.stop_name@,
            start_intensity: self.start_intensity,
            end_intensity: self.end_intensity,
            intensity_mode: self.intensity_mode,
            action_type: self.action_type,
            once: self.once,
            interval: self.interval,
            index: self.index@,
        }
    }
}

/// A feedback effect: the tracks to play, and how to play them.
#[derive(Debug, Clone)]
pub struct Effect {
    pub name: String,
    pub uuid: String,
    pub keep: bool,
    pub priority: u16,
    pub tracks: Vec<Track>,
}

/// An effect as a mathematical value.
pub struct EffectView {
    pub name: Seq<char>,
    pub uuid: Seq<char>,
    pub keep: bool,
    pub priority: u16,
    pub tracks: Seq<TrackView>,
}

impl View for Effect {
    type V = EffectView;

    open spec fn view(&self) -> EffectView {
        EffectView {
            name: self.name@,
            uuid: self.uuid@,
            keep: self.keep,
            priority: self.priority,
            tracks: self.tracks@.map_values(|t: Track| t@),
        }
    }
}

/// A request to the device service: a method name and the effect it carries.
#[derive(Debug, Clone)]
pub struct Message {
    pub method: String,
    pub body: Effect,
}

/// The method that plays an effect which was not registered beforehand.
pub open spec fn play_method() -> Seq<char> {
    seq![
        'p', 'l', 'a', 'y', '_', 'n', 'o', '_', 'r', 'e', 'g', 'i', 's', 't', 'e', 'r', 'e', 'd'
    ]
}

impl Message {
    /// The request that plays `body`.
    pub fn play_no_registered(body: Effect) -> (r: Message)
        ensures
            r.method@ == play_method(),
            r.body@ == body@,
    {
        let method = String::from_str("play_no_registered");
        proof {
            reveal_strlit("play_no_registered");
            assert(method@ =~= play_method());
        }
        Message { method, body }
    }
}

} // verus!
