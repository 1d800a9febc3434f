use vstd::prelude::*;

use vstd::arithmetic::div_mod::{
    lemma_div_is_ordered, lemma_div_multiples_vanish, lemma_div_pos_is_pos,
};
use vstd::arithmetic::mul::{
    lemma_mul_inequality, lemma_mul_is_commutative, lemma_mul_nonnegative, lemma_mul_upper_bound,
};

use crate::envelope::Envelope;
use crate::sampling::{
    level_units, level_units_spec, stage_samples, stage_samples_spec, GAIN_UNIT,
};

verus! {

/// The phase an envelope is in, with the number of samples already spent in
/// that phase. `Ended` is terminal: it always yields zero gain and never
/// transitions away.
#[derive(Clone, Copy, PartialEq, Eq, Structural, Debug)]
pub enum ADSRState {
    Attack(u32),
    Decay(u32),
    Sustain,
    Release(u32),
    Ended,
}

/// A per-voice ADSR gain generator.
///
/// Stage lengths are integer sample counts (each at least one sample) and
/// the sustain level is a fixed-point fraction of [`GAIN_UNIT`], both frozen
/// from the shared parameter set when the voice is created. Each `process`
/// call advances the state machine by exactly one sample and returns the
/// gain for that sample as a fraction of [`GAIN_UNIT`].
#[derive(Clone, Copy, Debug)]
pub struct ADSR {
    pub attack_samples: u32,
    pub decay_samples: u32,
    pub sustain_level: u32,
    pub release_samples: u32,
    pub state: ADSRState,
}

impl ADSR {
    /// The stage configuration is usable: no stage is empty and the sustain
    /// level is at most full scale.
    pub open spec fn config_wf(self) -> bool {
        &&& 1 <= self.attack_samples
        &&& 1 <= self.decay_samples
        &&& 1 <= self.release_samples
        &&& self.sustain_level <= GAIN_UNIT
    }

    /// A state's elapsed counter never passes the length of its stage.
    pub open spec fn state_wf(self, s: ADSRState) -> bool {
        match s {
            ADSRState::Attack(e) => e <= self.attack_samples,
            ADSRState::Decay(e) => e <= self.decay_samples,
            ADSRState::Sustain => true,
            ADSRState::Release(e) => e <= self.release_samples,
            ADSRState::Ended => true,
        }
    }

    pub open spec fn wf(self) -> bool {
        self.config_wf() && self.state_wf(self.state)
    }

    /// The gain produced while in state `s`, as a fraction of `GAIN_UNIT`:
    /// a linear ramp from 0 to full scale through the attack, a linear ramp
    /// from full scale down to the sustain level through the decay, the
    /// sustain level itself, and a linear ramp from the sustain level to 0
    /// through the release.
    pub open spec fn gain_at(self, s: ADSRState) -> int {
        match s {
            ADSRState::Attack(e) => e * GAIN_UNIT / (self.attack_samples as int),
            ADSRState::Decay(e) => GAIN_UNIT - (GAIN_UNIT - self.sustain_level) * e / (
            self.decay_samples as int),
            ADSRState::Sustain => self.sustain_level as int,
            ADSRState::Release(e) => self.sustain_level * (self.release_samples - e) / (
            self.release_samples as int),
            ADSRState::Ended => 0,
        }
    }

    /// The gain the next `process` call will return.
    pub open spec fn spec_gain(self) -> int {
        self.gain_at(self.state)
    }

    /// One sample step of the state machine: the elapsed counter advances,
    /// and a stage hands over to the next one on the sample at which the
    /// counter has reached the stage length.
    pub open spec fn next_state(self, s: ADSRState) -> ADSRState {
        match s {
            ADSRState::Attack(e) => if e >= self.attack_samples {
                ADSRState::Decay(0)
            } else {
                ADSRState::Attack((e + 1) as u32)
            },
            ADSRState::Decay(e) => if e >= self.decay_samples {
                ADSRState::Sustain
            } else {
                ADSRState::Decay((e + 1) as u32)
            },
            ADSRState::Sustain => ADSRState::Sustain,
            ADSRState::Release(e) => if e >= self.release_samples {
                ADSRState::Ended
            } else {
                ADSRState::Release((e + 1) as u32)
            },
            ADSRState::Ended => ADSRState::Ended,
        }
    }

    /// The generator after one `process` call.
    pub open spec fn stepped(self) -> ADSR {
        ADSR { state: self.next_state(self.state), ..self }
    }

    /// The state reached from `s` after `k` sample steps.
    pub open spec fn advanced_state(self, s: ADSRState, k: nat) -> ADSRState
        decreases k,
    {
        if k == 0 {
            s
        } else {
            self.advanced_state(self.next_state(s), (k - 1) as nat)
        }
    }

    /// The generator a fresh voice starts with: stage lengths and sustain
    /// level decoded from a snapshot of the shared parameter set at `rate`
    /// samples per second, in the attack phase with nothing elapsed.
    pub open spec fn spec_new(envelope: Envelope, sample_rate: u32) -> ADSR {
        ADSR {
            attack_samples: stage_samples_spec(envelope.attack, sample_rate),
            decay_samples: stage_samples_spec(envelope.decay, sample_rate),
            sustain_level: level_units_spec(envelope.sustain),
            release_samples: stage_samples_spec(envelope.release, sample_rate),
            state: ADSRState::Attack(0),
        }
    }

    /// Builds the generator for a new voice from a parameter snapshot.
    pub fn new(envelope: Envelope, sample_rate: u32) -> (a: ADSR)
        ensures
            a == ADSR::spec_new(envelope, sample_rate),
            a.wf(),
    {
        ADSR {
            attack_samples: stage_samples(envelope.attack, sample_rate),
            decay_samples: stage_samples(envelope.decay, sample_rate),
            sustain_level: level_units(envelope.sustain),
            release_samples: stage_samples(envelope.release, sample_rate),
            state: ADSRState::Attack(0),
        }
    }

    /// Unconditionally restarts the release ramp: whatever the current
    /// phase — even a release already under way — the state becomes
    /// `Release(0)`, so the full configured release length runs from here.
    pub fn release(&mut self)
        ensures
            *final(self) == (ADSR { state: ADSRState::Release(0), ..*old(self) }),
    {
        self.state = ADSRState::Release(0);
    }

    /// Advances the envelope by one sample and returns that sample's gain.
    pub fn process(&mut self) -> (gain: u32)
        requires
            old(self).wf(),
        ensures
            gain == old(self).spec_gain(),
            gain <= GAIN_UNIT,
            *final(self) == old(self).stepped(),
            final(self).wf(),
    {
        proof {
            lemma_gain_in_range(*old(self), old(self).state);
        }
        match self.state {
            ADSRState::Attack(e) => {
                let n = self.attack_samples;
                proof {
                    lemma_mul_upper_bound(e as int, u32::MAX as int, GAIN_UNIT as int, GAIN_UNIT as int);
                }
                let gain = ((e as u64) * (GAIN_UNIT as u64) / (n as u64)) as u32;
                self.state = if e >= n {
                    ADSRState::Decay(0)
                } else {
                    ADSRState::Attack(e + 1)
                };
                gain
            },
            ADSRState::Decay(e) => {
                let n = self.decay_samples;
                let span = GAIN_UNIT - self.sustain_level;
                proof {
                    lemma_mul_upper_bound(span as int, GAIN_UNIT as int, e as int, u32::MAX as int);
                    lemma_mul_is_commutative(span as int, e as int);
                }
                let drop = (((span as u64) * (e as u64)) / (n as u64)) as u32;
                self.state = if e >= n {
                    ADSRState::Sustain
                } else {
                    ADSRState::Decay(e + 1)
                };
                GAIN_UNIT - drop
            },
            ADSRState::Sustain => self.sustain_level,
            ADSRState::Release(e) => {
                let n = self.release_samples;
                proof {
                    lemma_mul_upper_bound(
                        self.sustain_level as int,
                        GAIN_UNIT as int,
                        (n - e) as int,
                        u32::MAX as int,
                    );
                }
                let gain = (((self.sustain_level as u64) * ((n - e) as u64)) / (n as u64)) as u32;
                self.state = if e >= n {
                    ADSRState::Ended
                } else {
                    ADSRState::Release(e + 1)
                };
                gain
            },
            ADSRState::Ended => 0,
        }
    }
}

/// `num * unit / den` rounds a fraction `num / den` of `unit` down, so it
/// lands between 0 and `unit` whenever `num <= den`.
proof fn lemma_scaled_frac_bounds(num: int, den: int, unit: int)
    requires
        0 <= num <= den,
        1 <= den,
        0 <= unit,
    ensures
        0 <= num * unit / den <= unit,
{
    lemma_mul_nonnegative(num, unit);
    lemma_div_pos_is_pos(num * unit, den);
    lemma_mul_inequality(num, den, unit);
    lemma_div_is_ordered(num * unit, den * unit, den);
    lemma_mul_is_commutative(den, unit);
    lemma_div_multiples_vanish(unit, den);
}

/// Every state of a well-formed generator yields a gain between silence
/// and full scale.
pub proof fn lemma_gain_in_range(a: ADSR, s: ADSRState)
    requires
        a.config_wf(),
        a.state_wf(s),
    ensures
        0 <= a.gain_at(s) <= GAIN_UNIT,
{
    match s {
        ADSRState::Attack(e) => {
            lemma_scaled_frac_bounds(e as int, a.attack_samples as int, GAIN_UNIT as int);
        },
        ADSRState::Decay(e) => {
            lemma_mul_is_commutative((GAIN_UNIT - a.sustain_level) as int, e as int);
            lemma_scaled_frac_bounds(
                e as int,
                a.decay_samples as int,
                (GAIN_UNIT - a.sustain_level) as int,
            );
        },
        ADSRState::Sustain => {},
        ADSRState::Release(e) => {
            lemma_mul_is_commutative(
                a.sustain_level as int,
                (a.release_samples - e) as int,
            );
            lemma_scaled_frac_bounds(
                (a.release_samples - e) as int,
                a.release_samples as int,
                a.sustain_level as int,
            );
        },
        ADSRState::Ended => {},
    }
}

/// Through the attack the gain never falls: a later elapsed counter gives
/// at least the gain of an earlier one.
pub proof fn lemma_attack_monotone(a: ADSR, e1: u32, e2: u32)
    requires
        a.config_wf(),
        e1 <= e2 <= a.attack_samples,
    ensures
        a.gain_at(ADSRState::Attack(e1)) <= a.gain_at(ADSRState::Attack(e2)),
{
    lemma_mul_inequality(e1 as int, e2 as int, GAIN_UNIT as int);
    lemma_div_is_ordered(
        e1 as int * GAIN_UNIT,
        e2 as int * GAIN_UNIT,
        a.attack_samples as int,
    );
}

/// Through the decay the gain never rises.
pub proof fn lemma_decay_monotone(a: ADSR, e1: u32, e2: u32)
    requires
        a.config_wf(),
        e1 <= e2 <= a.decay_samples,
    ensures
        a.gain_at(ADSRState::Decay(e2)) <= a.gain_at(ADSRState::Decay(e1)),
{
    let span = (GAIN_UNIT - a.sustain_level) as int;
    lemma_mul_is_commutative(span, e1 as int);
    lemma_mul_is_commutative(span, e2 as int);
    lemma_mul_inequality(e1 as int, e2 as int, span);
    lemma_div_is_ordered(e1 as int * span, e2 as int * span, a.decay_samples as int);
}

/// Through the release the gain never rises.
pub proof fn lemma_release_monotone(a: ADSR, e1: u32, e2: u32)
    requires
        a.config_wf(),
        e1 <= e2 <= a.release_samples,
    ensures
        a.gain_at(ADSRState::Release(e2)) <= a.gain_at(ADSRState::Release(e1)),
{
    let s = a.sustain_level as int;
    let n = a.release_samples as int;
    lemma_mul_is_commutative(s, n - e1);
    lemma_mul_is_commutative(s, n - e2);
    lemma_mul_inequality(n - e2, n - e1, s);
    lemma_div_is_ordered((n - e2) * s, (n - e1) * s, n);
}

/// Splitting a walk of the state machine: stepping `j + k` times is
/// stepping `j` times and then `k` more.
pub proof fn lemma_advanced_adds(a: ADSR, s: ADSRState, j: nat, k: nat)
    ensures
        a.advanced_state(s, j + k) == a.advanced_state(a.advanced_state(s, j), k),
    decreases j,
{
    if j > 0 {
        lemma_advanced_adds(a, a.next_state(s), (j - 1) as nat, k);
    }
}

/// A walk of length one is a single step: this ties the walks below to
/// `process`, whose contract advances the state by `next_state` once.
pub proof fn lemma_one_step(a: ADSR, s: ADSRState)
    ensures
        a.advanced_state(s, 1) == a.next_state(s),
{
    assert(a.advanced_state(a.next_state(s), 0) == a.next_state(s));
}

/// Within the attack, each step just advances the elapsed counter.
proof fn lemma_attack_progress(a: ADSR, e: u32, j: nat)
    requires
        a.config_wf(),
        e <= a.attack_samples,
        j <= a.attack_samples - e,
    ensures
        a.advanced_state(ADSRState::Attack(e), j) == ADSRState::Attack((e + j) as u32),
    decreases j,
{
    if j > 0 {
        lemma_attack_progress(a, (e + 1) as u32, (j - 1) as nat);
    }
}

/// Within the decay, each step just advances the elapsed counter.
proof fn lemma_decay_progress(a: ADSR, e: u32, j: nat)
    requires
        a.config_wf(),
        e <= a.decay_samples,
        j <= a.decay_samples - e,
    ensures
        a.advanced_state(ADSRState::Decay(e), j) == ADSRState::Decay((e + j) as u32),
    decreases j,
{
    if j > 0 {
        lemma_decay_progress(a, (e + 1) as u32, (j - 1) as nat);
    }
}

/// Within the release, each step just advances the elapsed counter.
proof fn lemma_release_progress(a: ADSR, e: u32, j: nat)
    requires
        a.config_wf(),
        e <= a.release_samples,
        j <= a.release_samples - e,
    ensures
        a.advanced_state(ADSRState::Release(e), j) == ADSRState::Release((e + j) as u32),
    decreases j,
{
    if j > 0 {
        lemma_release_progress(a, (e + 1) as u32, (j - 1) as nat);
    }
}

/// A fresh generator walks the whole attack, hands over to the decay on
/// the sample after the attack length is exhausted, walks the whole decay
/// the same way, and parks in `Sustain`: one step per sample, one extra
/// step per stage for the handover sample itself.
pub proof fn lemma_reaches_sustain(a: ADSR)
    requires
        a.config_wf(),
        a.state == ADSRState::Attack(0),
    ensures
        a.advanced_state(a.state, (a.attack_samples + a.decay_samples + 2) as nat)
            == ADSRState::Sustain,
{
    let na = a.attack_samples as nat;
    let nd = a.decay_samples as nat;
    lemma_attack_progress(a, 0, na);
    lemma_advanced_adds(a, a.state, na, 1);
    lemma_one_step(a, ADSRState::Attack(a.attack_samples));
    assert(a.advanced_state(a.state, na + 1) == ADSRState::Decay(0));
    lemma_decay_progress(a, 0, nd);
    lemma_advanced_adds(a, a.state, na + 1, nd);
    lemma_advanced_adds(a, a.state, na + 1 + nd, 1);
    lemma_one_step(a, ADSRState::Decay(a.decay_samples));
}

/// Until a release is triggered, `Sustain` holds forever.
pub proof fn lemma_sustain_holds(a: ADSR, k: nat)
    ensures
        a.advanced_state(ADSRState::Sustain, k) == ADSRState::Sustain,
    decreases k,
{
    if k > 0 {
        lemma_sustain_holds(a, (k - 1) as nat);
    }
}

/// A triggered release runs its full configured length from elapsed zero:
/// for the whole release length the generator is still releasing, and on
/// the sample after that length is exhausted it reaches `Ended`.
pub proof fn lemma_release_runs_full(a: ADSR)
    requires
        a.config_wf(),
    ensures
        forall|j: nat|
            j <= a.release_samples ==> a.advanced_state(ADSRState::Release(0), j)
                == ADSRState::Release(j as u32),
        a.advanced_state(ADSRState::Release(0), (a.release_samples + 1) as nat)
            == ADSRState::Ended,
{
    assert forall|j: nat| j <= a.release_samples implies a.advanced_state(
        ADSRState::Release(0),
        j,
    ) == ADSRState::Release(j as u32) by {
        lemma_release_progress(a, 0, j);
    }
    lemma_release_progress(a, 0, a.release_samples as nat);
    lemma_advanced_adds(a, ADSRState::Release(0), a.release_samples as nat, 1);
    lemma_one_step(a, ADSRState::Release(a.release_samples));
}

/// `Ended` is absorbing and silent: however many further samples are
/// processed, the state stays `Ended` and the gain stays zero.
pub proof fn lemma_ended_absorbing(a: ADSR, k: nat)
    ensures
        a.advanced_state(ADSRState::Ended, k) == ADSRState::Ended,
        a.gain_at(ADSRState::Ended) == 0,
    decreases k,
{
    if k > 0 {
        lemma_ended_absorbing(a, (k - 1) as nat);
    }
}

} // verus!
