use crab_howler::adsr::{ADSRState, ADSR};
use crab_howler::envelope::Envelope;
use crab_howler::sampling::{level_units, stage_samples, GAIN_UNIT};

#[test]
fn stage_samples_rounds_the_exact_product_up() {
    // 0.01 s as a 32-bit float is a hair under 0.01, so the exact product
    // at 48 kHz is just below 480 and rounds up to 480.
    assert_eq!(stage_samples(0.01f32.to_bits(), 48000), 480);
    // 0.1 s as a 32-bit float is a hair above 0.1: just above 4800.
    assert_eq!(stage_samples(0.1f32.to_bits(), 48000), 4801);
    // 1.0 s is exact.
    assert_eq!(stage_samples(1.0f32.to_bits(), 48000), 48000);
    assert_eq!(stage_samples(0.5f32.to_bits(), 44100), 22050);
}

#[test]
fn stage_samples_clamps_degenerate_durations_to_one_sample() {
    assert_eq!(stage_samples(0.0f32.to_bits(), 48000), 1);
    assert_eq!(stage_samples((-0.0f32).to_bits(), 48000), 1);
    assert_eq!(stage_samples((-1.0f32).to_bits(), 48000), 1);
    assert_eq!(stage_samples(1e-9f32.to_bits(), 48000), 1);
    assert_eq!(stage_samples(0.25f32.to_bits(), 0), 1);
}

#[test]
fn stage_samples_saturates_huge_durations() {
    assert_eq!(stage_samples(f32::INFINITY.to_bits(), 48000), u32::MAX);
    assert_eq!(stage_samples(f32::NAN.to_bits(), 48000), u32::MAX);
    assert_eq!(stage_samples(1e30f32.to_bits(), 48000), u32::MAX);
    assert_eq!(stage_samples(f32::MAX.to_bits(), u32::MAX), u32::MAX);
}

#[test]
fn level_units_maps_the_nominal_range() {
    assert_eq!(level_units(0.0f32.to_bits()), 0);
    assert_eq!(level_units(0.8f32.to_bits()), 800_000);
    assert_eq!(level_units(0.5f32.to_bits()), 500_000);
    assert_eq!(level_units(1.0f32.to_bits()), GAIN_UNIT);
    assert_eq!(level_units(0.25f32.to_bits()), 250_000);
}

#[test]
fn level_units_clamps_out_of_range_values() {
    assert_eq!(level_units((-0.5f32).to_bits()), 0);
    assert_eq!(level_units((-0.0f32).to_bits()), 0);
    assert_eq!(level_units(1.5f32.to_bits()), GAIN_UNIT);
    assert_eq!(level_units(f32::INFINITY.to_bits()), GAIN_UNIT);
    assert_eq!(level_units(f32::NAN.to_bits()), GAIN_UNIT);
}

#[test]
fn adsr_new_decodes_a_snapshot() {
    let mut env = Envelope::default();
    env.sustain = 0.5f32.to_bits();
    let a = ADSR::new(env, 48000);
    assert_eq!(a.attack_samples, 480);
    assert_eq!(a.decay_samples, 4801);
    assert_eq!(a.sustain_level, 500_000);
    assert_eq!(a.release_samples, 4801);
    assert_eq!(a.state, ADSRState::Attack(0));
}

fn tiny_generator() -> ADSR {
    ADSR {
        attack_samples: 2,
        decay_samples: 2,
        sustain_level: 500_000,
        release_samples: 3,
        state: ADSRState::Attack(0),
    }
}

#[test]
fn process_walks_attack_decay_sustain() {
    let mut a = tiny_generator();
    // Attack: a ramp 0 -> full scale over elapsed 0, 1, 2.
    assert_eq!(a.process(), 0);
    assert_eq!(a.state, ADSRState::Attack(1));
    assert_eq!(a.process(), 500_000);
    assert_eq!(a.process(), 1_000_000);
    assert_eq!(a.state, ADSRState::Decay(0));
    // Decay: full scale down to the sustain level.
    assert_eq!(a.process(), 1_000_000);
    assert_eq!(a.process(), 750_000);
    assert_eq!(a.process(), 500_000);
    assert_eq!(a.state, ADSRState::Sustain);
    // Sustain holds.
    assert_eq!(a.process(), 500_000);
    assert_eq!(a.process(), 500_000);
    assert_eq!(a.state, ADSRState::Sustain);
}

#[test]
fn release_ramps_from_sustain_to_silence_and_ends() {
    let mut a = tiny_generator();
    for _ in 0..6 {
        a.process();
    }
    assert_eq!(a.state, ADSRState::Sustain);
    a.release();
    assert_eq!(a.state, ADSRState::Release(0));
    assert_eq!(a.process(), 500_000);
    assert_eq!(a.process(), 333_333);
    assert_eq!(a.process(), 166_666);
    assert_eq!(a.process(), 0);
    assert_eq!(a.state, ADSRState::Ended);
    // Ended is absorbing and silent.
    assert_eq!(a.process(), 0);
    assert_eq!(a.process(), 0);
    assert_eq!(a.state, ADSRState::Ended);
}

#[test]
fn release_twice_restarts_the_full_ramp() {
    let mut a = tiny_generator();
    a.release();
    assert_eq!(a.state, ADSRState::Release(0));
    a.process();
    a.process();
    assert_eq!(a.state, ADSRState::Release(2));
    // A second release resets elapsed to zero: the full configured length
    // runs again from here, not a continuation of the first ramp.
    a.release();
    assert_eq!(a.state, ADSRState::Release(0));
    assert_eq!(a.process(), 500_000);
    assert_eq!(a.process(), 333_333);
    assert_eq!(a.process(), 166_666);
    assert_eq!(a.process(), 0);
    assert_eq!(a.state, ADSRState::Ended);
}

#[test]
fn release_interrupts_any_phase() {
    let mut a = tiny_generator();
    a.process();
    assert_eq!(a.state, ADSRState::Attack(1));
    a.release();
    assert_eq!(a.state, ADSRState::Release(0));

    let mut b = tiny_generator();
    for _ in 0..4 {
        b.process();
    }
    assert_eq!(b.state, ADSRState::Decay(1));
    b.release();
    assert_eq!(b.state, ADSRState::Release(0));
}

#[test]
fn gains_stay_in_range_and_are_monotone_per_phase() {
    let mut a = ADSR {
        attack_samples: 7,
        decay_samples: 5,
        sustain_level: 730_000,
        release_samples: 11,
        state: ADSRState::Attack(0),
    };
    let mut previous: u32 = 0;
    // Attack: non-decreasing within full scale.
    for step in 0..8 {
        let g = a.process();
        assert!(g <= GAIN_UNIT);
        assert!(step == 0 || g >= previous);
        previous = g;
    }
    assert_eq!(a.state, ADSRState::Decay(0));
    // Decay: non-increasing down to the sustain level.
    for step in 0..6 {
        let g = a.process();
        assert!(g <= GAIN_UNIT && g >= 730_000);
        assert!(step == 0 || g <= previous);
        previous = g;
    }
    assert_eq!(a.state, ADSRState::Sustain);
    a.release();
    // Release: non-increasing down to silence.
    previous = GAIN_UNIT;
    for _ in 0..12 {
        let g = a.process();
        assert!(g <= previous);
        previous = g;
    }
    assert_eq!(a.state, ADSRState::Ended);
    assert_eq!(previous, 0);
}
