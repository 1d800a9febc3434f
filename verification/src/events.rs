use vstd::prelude::*;

verus! {

/// How a note event designates its channel or key: a specific value, or a
/// wildcard that stands for "any". The voice pool only acts on events whose
/// channel and key are both specific; wildcard note-ons create no voice.
#[derive(Clone, Copy, PartialEq, Eq, Structural, Debug)]
pub enum Match {
    All,
    Specific(u16),
}

/// A note-on event. `velocity_bits` carries the raw bit pattern of the
/// 32-bit float velocity (nominally in 0..1); the synthesis core never
/// interprets it and hands it back untouched with each rendered frame.
#[derive(Clone, Copy, Debug)]
pub struct NoteOnEvent {
    pub channel: Match,
    pub key: Match,
    pub note_id: Option<u32>,
    pub velocity_bits: u32,
}

/// A note-off event, matched by exact equality of channel, key and note id
/// against a live voice. An absent note id matches only voices that were
/// started without one.
#[derive(Clone, Copy, Debug)]
pub struct NoteOffEvent {
    pub channel: Match,
    pub key: Match,
    pub note_id: Option<u32>,
}

/// A parameter-change event. `value_bits` is the raw bit pattern of the new
/// 32-bit float parameter value; `param_id` selects attack (0), decay (1),
/// sustain (2) or release (3). Any other id, or an absent one, is ignored.
#[derive(Clone, Copy, Debug)]
pub struct ParamValueEvent {
    pub param_id: Option<u32>,
    pub value_bits: u32,
}

/// One event of the kinds the synthesis core reacts to.
#[derive(Clone, Copy, Debug)]
pub enum Event {
    NoteOn(NoteOnEvent),
    NoteOff(NoteOffEvent),
    ParamValue(ParamValueEvent),
}

} // verus!
