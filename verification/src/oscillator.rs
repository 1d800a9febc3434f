use vstd::prelude::*;

use crate::adsr::{ADSR, ADSRState};
use crate::envelope::Envelope;
use crate::events::{Match, NoteOffEvent, NoteOnEvent};

verus! {

/// Number of voice slots: at most this many notes sound at once; a note-on
/// arriving while every slot is occupied is dropped without any effect.
pub const MAX_VOICES: usize = 16;

/// One sounding note: its identity (channel, key, optional note id), the
/// velocity bit pattern it was struck with, and its own envelope generator
/// frozen from the parameter set at creation time.
#[derive(Clone, Copy, Debug)]
pub struct Voice {
    pub channel: u16,
    pub key: u16,
    pub note_id: Option<u32>,
    pub velocity_bits: u32,
    pub adsr: ADSR,
}

/// One voice's contribution to one rendered sample: the slot it occupies,
/// the velocity bit pattern it carries, and its envelope gain for this
/// sample as a fraction of [`crate::sampling::GAIN_UNIT`].
#[derive(Clone, Copy, Debug)]
pub struct VoiceFrame {
    pub slot: usize,
    pub velocity_bits: u32,
    pub gain: u32,
}

impl Voice {
    pub open spec fn wf(self) -> bool {
        self.adsr.wf()
    }

    /// Whether a note-off event addresses this voice: channel and key must
    /// be given specifically and equal this voice's, and the note ids must
    /// agree exactly — both absent, or both present and equal.
    pub open spec fn matches_off(self, ev: NoteOffEvent) -> bool {
        &&& ev.channel == Match::Specific(self.channel)
        &&& ev.key == Match::Specific(self.key)
        &&& ev.note_id == self.note_id
    }

    /// The voice a note-on with specific channel `ch` and key `key` creates.
    pub open spec fn spec_new(
        envelope: Envelope,
        sample_rate: u32,
        ch: u16,
        key: u16,
        note_id: Option<u32>,
        velocity_bits: u32,
    ) -> Voice {
        Voice {
            channel: ch,
            key,
            note_id,
            velocity_bits,
            adsr: ADSR::spec_new(envelope, sample_rate),
        }
    }

    /// This voice with its envelope put into a fresh release.
    pub open spec fn spec_released(self) -> Voice {
        Voice { adsr: ADSR { state: ADSRState::Release(0), ..self.adsr }, ..self }
    }

    /// This voice advanced by one processed sample.
    pub open spec fn spec_stepped(self) -> Voice {
        Voice { adsr: self.adsr.stepped(), ..self }
    }
}

/// The frames the occupied slots among the first `upto` produce for one
/// sample, in slot order.
pub open spec fn spec_frames(vs: Seq<Option<Voice>>, upto: int) -> Seq<VoiceFrame>
    decreases upto,
{
    if upto <= 0 {
        Seq::empty()
    } else {
        let prefix = spec_frames(vs, upto - 1);
        match vs[upto - 1] {
            Some(v) => prefix.push(
                VoiceFrame {
                    slot: (upto - 1) as usize,
                    velocity_bits: v.velocity_bits,
                    gain: v.adsr.spec_gain() as u32,
                },
            ),
            None => prefix,
        }
    }
}

/// What a note-on does to the pool: nothing for a wildcard event or a full
/// pool, otherwise a fresh voice — built from the parameter snapshot at the
/// pool's sample rate — lands in the first free slot, which `r` names.
pub open spec fn note_on_effect(
    pre: SineOscillator,
    post: SineOscillator,
    envelope: Envelope,
    ev: NoteOnEvent,
    r: Option<usize>,
) -> bool {
    &&& post.sample_rate == pre.sample_rate
    &&& (!(ev.channel is Specific && ev.key is Specific) ==> r is None)
    &&& (r is None ==> post == pre)
    &&& (r matches Some(j) ==> {
        &&& ev.channel matches Match::Specific(ch)
        &&& ev.key matches Match::Specific(key)
        &&& j < MAX_VOICES
        &&& pre.voices@[j as int] is None
        &&& (forall|i: int| 0 <= i < j ==> (#[trigger] pre.voices@[i]) is Some)
        &&& post.voices@ == pre.voices@.update(
            j as int,
            Some(
                Voice::spec_new(
                    envelope,
                    pre.sample_rate,
                    ch,
                    key,
                    ev.note_id,
                    ev.velocity_bits,
                ),
            ),
        )
    })
    &&& ((r is None && ev.channel is Specific && ev.key is Specific) ==> forall|i: int|
        0 <= i < MAX_VOICES ==> (#[trigger] pre.voices@[i]) is Some)
}

/// What a note-off does to the pool: the first live voice the event
/// addresses — named by `r` — gets its release restarted; with no live
/// match anywhere, nothing changes.
pub open spec fn note_off_effect(
    pre: SineOscillator,
    post: SineOscillator,
    ev: NoteOffEvent,
    r: Option<usize>,
) -> bool {
    &&& post.sample_rate == pre.sample_rate
    &&& (r matches Some(j) ==> {
        &&& j < MAX_VOICES
        &&& pre.voices@[j as int] matches Some(v) && v.matches_off(ev) && post.voices@
            == pre.voices@.update(j as int, Some(v.spec_released()))
        &&& forall|i: int|
            0 <= i < j ==> ((#[trigger] pre.voices@[i]) matches Some(w) ==> !w.matches_off(
                ev,
            ))
    })
    &&& (r is None ==> post == pre && forall|i: int|
        0 <= i < MAX_VOICES ==> ((#[trigger] pre.voices@[i]) matches Some(w)
            ==> !w.matches_off(ev)))
}

/// What freeing finished voices does to the pool: exactly the slots whose
/// envelope has ended become empty.
pub open spec fn collect_effect(pre: SineOscillator, post: SineOscillator) -> bool {
    &&& post.sample_rate == pre.sample_rate
    &&& post.voices@.len() == pre.voices@.len()
    &&& forall|i: int|
        0 <= i < pre.voices@.len() ==> post.voices@[i] == (if (
        #[trigger] pre.voices@[i]) matches Some(v) && v.adsr.state == ADSRState::Ended {
            None
        } else {
            pre.voices@[i]
        })
}

/// A slot after its voice, if any, advanced by one sample.
pub open spec fn stepped_slot(s: Option<Voice>) -> Option<Voice> {
    match s {
        Some(v) => Some(v.spec_stepped()),
        None => None,
    }
}

/// What one rendered sample does to the pool: every live voice advances by
/// one envelope step, no slot is taken or freed, and the frames are those
/// of the live voices in slot order with this sample's gains.
pub open spec fn process_effect(
    pre: SineOscillator,
    post: SineOscillator,
    frames: Seq<VoiceFrame>,
) -> bool {
    &&& post.sample_rate == pre.sample_rate
    &&& post.voices@.len() == pre.voices@.len()
    &&& frames == spec_frames(pre.voices@, MAX_VOICES as int)
    &&& forall|i: int|
        0 <= i < pre.voices@.len() ==> post.voices@[i] == stepped_slot(
            #[trigger] pre.voices@[i],
        )
}

/// The fixed-capacity pool of sine voices.
///
/// The pool owns allocation (first free slot, or silently dropped when
/// full), note-off matching, per-sample envelope advance and freeing of
/// voices whose envelope has ended. The floating-point waveform itself —
/// sine phase, velocity taper, mixing — is the embedding layer's business;
/// it drives this pool and gets back, per sample, one [`VoiceFrame`] per
/// live voice.
pub struct SineOscillator {
    pub sample_rate: u32,
    pub voices: Vec<Option<Voice>>,
}

impl SineOscillator {
    /// Every slot well formed, and exactly `MAX_VOICES` of them.
    pub open spec fn wf(self) -> bool {
        &&& self.voices@.len() == MAX_VOICES
        &&& forall|i: int|
            0 <= i < self.voices@.len() ==> ((#[trigger] self.voices@[i]) matches Some(v)
                ==> v.wf())
    }

    /// A fresh pool: every slot empty.
    pub fn new(sample_rate: u32) -> (osc: SineOscillator)
        ensures
            osc.wf(),
            osc.sample_rate == sample_rate,
            forall|i: int| 0 <= i < MAX_VOICES ==> (#[trigger] osc.voices@[i]) is None,
    {
        let mut voices: Vec<Option<Voice>> = Vec::new();
        let mut i: usize = 0;
        while i < MAX_VOICES
            invariant
                i <= MAX_VOICES,
                voices@.len() == i,
                forall|j: int| 0 <= j < i ==> (#[trigger] voices@[j]) is None,
            decreases MAX_VOICES - i,
        {
            voices.push(None);
            i = i + 1;
        }
        SineOscillator { sample_rate, voices }
    }

    /// Starts a voice for a note-on event.
    ///
    /// Only an event with a specific channel and a specific key creates a
    /// voice; a wildcard in either place is ignored. The voice goes into
    /// the first free slot, with a copy of the parameter set decoded at
    /// this pool's sample rate; when no slot is free the note is silently
    /// dropped. Returns the slot used, if any.
    pub fn handle_note_on(&mut self, envelope: &Envelope, event: &NoteOnEvent) -> (r: Option<
        usize,
    >)
        requires
            old(self).wf(),
        ensures
            final(self).wf(),
            note_on_effect(*old(self), *final(self), *envelope, *event, r),
    {
        let ch: u16;
        let key: u16;
        match (event.channel, event.key) {
            (Match::Specific(c), Match::Specific(k)) => {
                ch = c;
                key = k;
            },
            _ => {
                return None;
            },
        }
        let mut i: usize = 0;
        while i < MAX_VOICES
            invariant
                old(self).wf(),
                *self == *old(self),
                event.channel == Match::Specific(ch),
                event.key == Match::Specific(key),
                i <= MAX_VOICES,
                forall|j: int| 0 <= j < i ==> (#[trigger] self.voices@[j]) is Some,
            decreases MAX_VOICES - i,
        {
            if self.voices[i].is_none() {
                let voice = Voice {
                    channel: ch,
                    key,
                    note_id: event.note_id,
                    velocity_bits: event.velocity_bits,
                    adsr: ADSR::new(*envelope, self.sample_rate),
                };
                let ghost pre = self.voices@;
                self.voices.set(i, Some(voice));
                proof {
                    lemma_update_slot(pre, i as int, Some(voice));
                    assert forall|j: int|
                        0 <= j < MAX_VOICES implies ((#[trigger] self.voices@[j])
                        matches Some(v) ==> v.wf()) by {
                        if j != i {
                            assert(self.voices@[j] == pre[j]);
                        } else {
                            assert(self.voices@[j] == Some(voice));
                        }
                    }
                }
                return Some(i);
            }
            i = i + 1;
        }
        None
    }

    /// Releases the first live voice a note-off event addresses.
    ///
    /// The scan runs in slot order over occupied slots; a match restarts
    /// that voice's release ramp and nothing else changes. No match — in
    /// particular a note id disagreeing with every live voice's — is a
    /// no-op. Returns the slot released, if any.
    pub fn handle_note_off(&mut self, event: &NoteOffEvent) -> (r: Option<usize>)
        requires
            old(self).wf(),
        ensures
            final(self).wf(),
            note_off_effect(*old(self), *final(self), *event, r),
    {
        let mut i: usize = 0;
        while i < MAX_VOICES
            invariant
                old(self).wf(),
                *self == *old(self),
                i <= MAX_VOICES,
                forall|j: int|
                    0 <= j < i ==> ((#[trigger] self.voices@[j]) matches Some(w)
                        ==> !w.matches_off(*event)),
            decreases MAX_VOICES - i,
        {
            let entry = self.voices[i];
            match entry {
                Some(mut v) => {
                    if off_matches(&v, event) {
                        v.adsr.release();
                        self.voices.set(i, Some(v));
                        return Some(i);
                    }
                },
                None => {},
            }
            i = i + 1;
        }
        None
    }

    /// Frees every slot whose voice's envelope has ended. Run once per
    /// rendered block, before its samples are mixed; a voice that ends
    /// mid-block keeps its slot (and keeps yielding zero envelope gain)
    /// until the next block.
    pub fn collect_finished(&mut self)
        requires
            old(self).wf(),
        ensures
            final(self).wf(),
            collect_effect(*old(self), *final(self)),
    {
        let mut i: usize = 0;
        while i < MAX_VOICES
            invariant
                old(self).wf(),
                self.wf(),
                self.sample_rate == old(self).sample_rate,
                i <= MAX_VOICES,
                forall|j: int|
                    i <= j < MAX_VOICES ==> #[trigger] self.voices@[j] == old(self).voices@[j],
                forall|j: int|
                    0 <= j < i ==> #[trigger] self.voices@[j] == (if old(
                        self,
                    ).voices@[j] matches Some(v) && v.adsr.state == ADSRState::Ended {
                        None
                    } else {
                        old(self).voices@[j]
                    }),
            decreases MAX_VOICES - i,
        {
            let entry = self.voices[i];
            match entry {
                Some(v) => {
                    if v.adsr.state == ADSRState::Ended {
                        self.voices.set(i, None);
                    }
                },
                None => {},
            }
            i = i + 1;
        }
    }

    /// Advances every live voice by exactly one sample.
    ///
    /// Returns, in slot order, one frame per live voice carrying the
    /// envelope gain for this sample; the set of occupied slots itself
    /// never changes here, so the voice line-up is stable across a block.
    pub fn process(&mut self) -> (frames: Vec<VoiceFrame>)
        requires
            old(self).wf(),
        ensures
            final(self).wf(),
            process_effect(*old(self), *final(self), frames@),
    {
        let mut frames: Vec<VoiceFrame> = Vec::new();
        let mut i: usize = 0;
        while i < MAX_VOICES
            invariant
                old(self).wf(),
                self.wf(),
                self.sample_rate == old(self).sample_rate,
                i <= MAX_VOICES,
                frames@ == spec_frames(old(self).voices@, i as int),
                forall|j: int|
                    i <= j < MAX_VOICES ==> #[trigger] self.voices@[j] == old(self).voices@[j],
                forall|j: int|
                    0 <= j < i ==> #[trigger] self.voices@[j] == stepped_slot(
                        old(self).voices@[j],
                    ),
            decreases MAX_VOICES - i,
        {
            let entry = self.voices[i];
            match entry {
                Some(mut v) => {
                    let gain = v.adsr.process();
                    self.voices.set(i, Some(v));
                    frames.push(VoiceFrame { slot: i, velocity_bits: v.velocity_bits, gain });
                },
                None => {},
            }
            i = i + 1;
            proof {
                assert(frames@ =~= spec_frames(old(self).voices@, i as int));
            }
        }
        frames
    }

    /// Whether any slot is occupied: the caller may suspend rendering
    /// exactly when this is false.
    pub fn is_active(&self) -> (r: bool)
        ensures
            r == exists|i: int|
                0 <= i < self.voices@.len() && (#[trigger] self.voices@[i]) is Some,
    {
        let mut i: usize = 0;
        let n = self.voices.len();
        while i < n
            invariant
                n == self.voices@.len(),
                i <= n,
                forall|j: int| 0 <= j < i ==> (#[trigger] self.voices@[j]) is None,
            decreases n - i,
        {
            if self.voices[i].is_some() {
                return true;
            }
            i = i + 1;
        }
        false
    }
}

/// The pointwise reading of one slot update: the written slot holds the
/// new value, every other slot is untouched, and the length is kept.
proof fn lemma_update_slot(s: Seq<Option<Voice>>, i: int, v: Option<Voice>)
    requires
        0 <= i < s.len(),
    ensures
        s.update(i, v).len() == s.len(),
        s.update(i, v)[i] == v,
        forall|j: int| 0 <= j < s.len() && j != i ==> s.update(i, v)[j] == s[j],
{
}

/// Exact note-off matching, executably: specific channel and key equal to
/// the voice's, and note ids that agree exactly.
fn off_matches(v: &Voice, ev: &NoteOffEvent) -> (r: bool)
    ensures
        r == v.matches_off(*ev),
{
    let ch_ok = match ev.channel {
        Match::Specific(c) => c == v.channel,
        Match::All => false,
    };
    let key_ok = match ev.key {
        Match::Specific(k) => k == v.key,
        Match::All => false,
    };
    let id_ok = match (ev.note_id, v.note_id) {
        (None, None) => true,
        (Some(a), Some(b)) => a == b,
        _ => false,
    };
    ch_ok && key_ok && id_ok
}

} // verus!
