//! Verified core of a small polyphonic sine synthesizer.
//!
//! The crate turns note-on, note-off and parameter-change events into the
//! per-sample bookkeeping a renderer needs: a shared ADSR parameter set, a
//! per-voice envelope state machine over integer sample counts, and a
//! fixed-capacity voice pool. Gains are exact fixed-point fractions of
//! [`sampling::GAIN_UNIT`]; the floating-point waveform synthesis around
//! them (sine phase, velocity taper, mixing into stereo buffers) is left
//! to the embedding host layer.

pub mod adsr;
pub mod envelope;
pub mod events;
pub mod oscillator;
pub mod sampling;

use vstd::prelude::*;

use crate::envelope::{load_effect, saved_bytes, Envelope, StateError};
use crate::events::Event;
use crate::oscillator::{
    collect_effect, note_off_effect, note_on_effect, process_effect, SineOscillator, VoiceFrame,
};

verus! {

/// The synthesis core as the host boundary sees it: the shared envelope
/// parameter set and the voice pool, driven by plain events.
///
/// The embedding layer applies each batch of events with `handle_event`,
/// then renders the samples up to the next batch: `collect_finished` once
/// per batch, then one `process` call per sample, mixing the returned
/// frames into its float buffers; `is_active` says whether rendering may
/// be suspended, and `save`/`load` move the parameter set to and from its
/// 16-byte persisted image.
pub struct CrabHowler {
    pub envelope: Envelope,
    pub osc: SineOscillator,
}

impl CrabHowler {
    pub open spec fn wf(self) -> bool {
        self.osc.wf()
    }

    /// A fresh core at the given sample rate: default parameters, no voice.
    pub fn new(sample_rate: u32) -> (c: CrabHowler)
        ensures
            c.wf(),
            c.envelope == Envelope::spec_default(),
            c.osc.sample_rate == sample_rate,
            forall|i: int|
                0 <= i < c.osc.voices@.len() ==> (#[trigger] c.osc.voices@[i]) is None,
    {
        CrabHowler { envelope: Envelope::default(), osc: SineOscillator::new(sample_rate) }
    }

    /// Applies one event, exactly as the pool and the parameter set define
    /// it: a note-on snapshots the parameter set of this very moment for
    /// the new voice; a note-off touches only the voice it addresses; a
    /// parameter change touches only the parameter set. Returns the slot a
    /// note-on or note-off acted on, if any.
    pub fn handle_event(&mut self, event: &Event) -> (r: Option<usize>)
        requires
            old(self).wf(),
        ensures
            final(self).wf(),
            match *event {
                Event::NoteOn(ev) => final(self).envelope == old(self).envelope
                    && note_on_effect(
                    old(self).osc,
                    final(self).osc,
                    old(self).envelope,
                    ev,
                    r,
                ),
                Event::NoteOff(ev) => final(self).envelope == old(self).envelope
                    && note_off_effect(old(self).osc, final(self).osc, ev, r),
                Event::ParamValue(ev) => r is None && final(self).osc == old(self).osc
                    && final(self).envelope == match ev.param_id {
                    Some(id) => old(self).envelope.spec_updated(id, ev.value_bits),
                    None => old(self).envelope,
                },
            },
    {
        match event {
            Event::NoteOn(ev) => {
                let snapshot = self.envelope;
                self.osc.handle_note_on(&snapshot, ev)
            },
            Event::NoteOff(ev) => self.osc.handle_note_off(ev),
            Event::ParamValue(ev) => {
                self.envelope.handle_event(ev);
                None
            },
        }
    }

    /// Frees the slots of voices whose envelope has ended; run once per
    /// rendered batch, before its samples.
    pub fn collect_finished(&mut self)
        requires
            old(self).wf(),
        ensures
            final(self).wf(),
            final(self).envelope == old(self).envelope,
            collect_effect(old(self).osc, final(self).osc),
    {
        self.osc.collect_finished();
    }

    /// Advances every live voice by one sample and returns their frames
    /// for mixing, in slot order.
    pub fn process(&mut self) -> (frames: Vec<VoiceFrame>)
        requires
            old(self).wf(),
        ensures
            final(self).wf(),
            final(self).envelope == old(self).envelope,
            process_effect(old(self).osc, final(self).osc, frames@),
    {
        self.osc.process()
    }

    /// Whether any voice is sounding; rendering may sleep when not.
    pub fn is_active(&self) -> (r: bool)
        ensures
            r == exists|i: int|
                0 <= i < self.osc.voices@.len() && (#[trigger] self.osc.voices@[i]) is Some,
    {
        self.osc.is_active()
    }

    /// The 16-byte persisted image of the parameter set.
    pub fn save(&self) -> (out: Vec<u8>)
        ensures
            out@ == saved_bytes(self.envelope),
    {
        self.envelope.save()
    }

    /// Restores the parameter set from a persisted image; voices are
    /// untouched either way, and a short image fails after assigning the
    /// complete leading fields, as [`Envelope::load`] describes.
    pub fn load(&mut self, data: &[u8]) -> (r: Result<(), StateError>)
        ensures
            final(self).osc == old(self).osc,
            r is Ok <==> data@.len() >= 16,
            load_effect(old(self).envelope, final(self).envelope, data@),
    {
        self.envelope.load(data)
    }
}

} // verus!
