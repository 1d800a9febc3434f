use crab_howler::envelope::{Envelope, StateError};
use crab_howler::events::ParamValueEvent;

#[test]
fn default_matches_float_bits() {
    let e = Envelope::default();
    assert_eq!(e.attack, 0.01f32.to_bits());
    assert_eq!(e.decay, 0.1f32.to_bits());
    assert_eq!(e.sustain, 0.8f32.to_bits());
    assert_eq!(e.release, 0.1f32.to_bits());
}

#[test]
fn handle_event_updates_each_field() {
    let mut e = Envelope::default();
    e.handle_event(&ParamValueEvent { param_id: Some(0), value_bits: 0.25f32.to_bits() });
    e.handle_event(&ParamValueEvent { param_id: Some(1), value_bits: 0.5f32.to_bits() });
    e.handle_event(&ParamValueEvent { param_id: Some(2), value_bits: 0.75f32.to_bits() });
    e.handle_event(&ParamValueEvent { param_id: Some(3), value_bits: 1.0f32.to_bits() });
    assert_eq!(e.attack, 0.25f32.to_bits());
    assert_eq!(e.decay, 0.5f32.to_bits());
    assert_eq!(e.sustain, 0.75f32.to_bits());
    assert_eq!(e.release, 1.0f32.to_bits());
}

#[test]
fn handle_event_ignores_unknown_ids() {
    let mut e = Envelope::default();
    let before = e;
    e.handle_event(&ParamValueEvent { param_id: Some(4), value_bits: 0x12345678 });
    e.handle_event(&ParamValueEvent { param_id: Some(u32::MAX), value_bits: 0 });
    e.handle_event(&ParamValueEvent { param_id: None, value_bits: 0xdeadbeef });
    assert_eq!(e, before);
}

#[test]
fn save_writes_little_endian_floats() {
    let e = Envelope::default();
    let bytes = e.save();
    let mut expected = Vec::new();
    expected.extend_from_slice(&0.01f32.to_le_bytes());
    expected.extend_from_slice(&0.1f32.to_le_bytes());
    expected.extend_from_slice(&0.8f32.to_le_bytes());
    expected.extend_from_slice(&0.1f32.to_le_bytes());
    assert_eq!(bytes, expected);
}

#[test]
fn save_load_round_trip_is_bit_identical() {
    let mut saved = Envelope::default();
    saved.attack = 0.307f32.to_bits();
    saved.decay = 0.0001f32.to_bits();
    saved.sustain = 0.9999f32.to_bits();
    saved.release = 2.5f32.to_bits();
    let bytes = saved.save();

    let mut restored = Envelope::default();
    assert_eq!(restored.load(&bytes), Ok(()));
    assert_eq!(restored.attack, saved.attack);
    assert_eq!(restored.decay, saved.decay);
    assert_eq!(restored.sustain, saved.sustain);
    assert_eq!(restored.release, saved.release);
}

#[test]
fn load_truncated_fails_after_partial_assignment() {
    let mut image = Vec::new();
    image.extend_from_slice(&0.11f32.to_le_bytes());
    image.extend_from_slice(&0.22f32.to_le_bytes());
    image.extend_from_slice(&0.33f32.to_le_bytes());
    image.extend_from_slice(&0.44f32.to_le_bytes());

    // Nothing assigned with fewer than four bytes.
    let mut e = Envelope::default();
    assert_eq!(e.load(&image[..3]), Err(StateError::Truncated));
    assert_eq!(e, Envelope::default());

    // One complete group: only attack overwritten.
    let mut e = Envelope::default();
    assert_eq!(e.load(&image[..4]), Err(StateError::Truncated));
    assert_eq!(e.attack, 0.11f32.to_bits());
    assert_eq!(e.decay, 0.1f32.to_bits());

    // Two complete groups and a ragged third: attack and decay overwritten.
    let mut e = Envelope::default();
    assert_eq!(e.load(&image[..11]), Err(StateError::Truncated));
    assert_eq!(e.attack, 0.11f32.to_bits());
    assert_eq!(e.decay, 0.22f32.to_bits());
    assert_eq!(e.sustain, 0.8f32.to_bits());

    // Three complete groups: release still untouched.
    let mut e = Envelope::default();
    assert_eq!(e.load(&image[..12]), Err(StateError::Truncated));
    assert_eq!(e.sustain, 0.33f32.to_bits());
    assert_eq!(e.release, 0.1f32.to_bits());

    // The full image loads.
    let mut e = Envelope::default();
    assert_eq!(e.load(&image), Ok(()));
    assert_eq!(e.release, 0.44f32.to_bits());
}
