use vstd::prelude::*;

use crate::events::ParamValueEvent;

verus! {

/// Error returned when a persisted parameter image is too short.
#[derive(Clone, Copy, PartialEq, Eq, Structural, Debug)]
pub enum StateError {
    Truncated,
}

/// The shared attack/decay/sustain/release parameter set.
///
/// Each field holds the raw bit pattern of the 32-bit float parameter value
/// exactly as the host supplied it: attack, decay and release are durations
/// in seconds, sustain is a gain level in 0..1. Keeping the bit patterns
/// makes persistence exact — `save` followed by `load` restores every field
/// bit for bit. The patterns are turned into sample counts and a fixed-point
/// level only when a voice is created, by `crate::sampling`.
#[derive(Clone, Copy, PartialEq, Eq, Structural, Debug)]
pub struct Envelope {
    pub attack: u32,
    pub decay: u32,
    pub sustain: u32,
    pub release: u32,
}

/// The little-endian byte image of one 32-bit word.
pub open spec fn le_bytes(x: u32) -> Seq<u8> {
    seq![
        (x & 0xff) as u8,
        ((x >> 8) & 0xff) as u8,
        ((x >> 16) & 0xff) as u8,
        ((x >> 24) & 0xff) as u8,
    ]
}

/// The 32-bit word held by four little-endian bytes.
pub open spec fn le_word(b0: u8, b1: u8, b2: u8, b3: u8) -> u32 {
    (b0 as u32) | ((b1 as u32) << 8) | ((b2 as u32) << 16) | ((b3 as u32) << 24)
}

/// The 16-byte persisted image of a parameter set: the four fields as
/// little-endian 32-bit words, in the order attack, decay, sustain, release.
pub open spec fn saved_bytes(e: Envelope) -> Seq<u8> {
    le_bytes(e.attack) + le_bytes(e.decay) + le_bytes(e.sustain) + le_bytes(e.release)
}

/// What loading a persisted image does to a parameter set: each field in
/// the fixed order attack, decay, sustain, release takes the word of its
/// four-byte group when that whole group is present, and keeps its prior
/// value from the first incomplete group on.
pub open spec fn load_effect(pre: Envelope, post: Envelope, data: Seq<u8>) -> bool {
    &&& post.attack == if data.len() >= 4 {
        le_word(data[0], data[1], data[2], data[3])
    } else {
        pre.attack
    }
    &&& post.decay == if data.len() >= 8 {
        le_word(data[4], data[5], data[6], data[7])
    } else {
        pre.decay
    }
    &&& post.sustain == if data.len() >= 12 {
        le_word(data[8], data[9], data[10], data[11])
    } else {
        pre.sustain
    }
    &&& post.release == if data.len() >= 16 {
        le_word(data[12], data[13], data[14], data[15])
    } else {
        pre.release
    }
}

/// Reading back the little-endian image of a word gives the word.
pub proof fn lemma_le_round_trip(x: u32)
    ensures
        le_word(
            le_bytes(x)[0],
            le_bytes(x)[1],
            le_bytes(x)[2],
            le_bytes(x)[3],
        ) == x,
{
    assert(((x & 0xff) as u8 as u32) | ((((x >> 8) & 0xff) as u8 as u32) << 8) | ((((x >> 16)
        & 0xff) as u8 as u32) << 16) | ((((x >> 24) & 0xff) as u8 as u32) << 24) == x)
        by (bit_vector);
}

impl Envelope {
    /// The default parameter set: attack 0.01 s, decay 0.1 s, sustain 0.8,
    /// release 0.1 s, each as the bit pattern of the nearest 32-bit float.
    pub open spec fn spec_default() -> Envelope {
        Envelope {
            attack: 0x3C23D70A,
            decay: 0x3DCCCCCD,
            sustain: 0x3F4CCCCD,
            release: 0x3DCCCCCD,
        }
    }

    /// The parameter set after one change event: the selected field takes
    /// the new bit pattern; ids other than 0..3 leave everything untouched.
    pub open spec fn spec_updated(self, param_id: u32, bits: u32) -> Envelope {
        if param_id == 0 {
            Envelope { attack: bits, ..self }
        } else if param_id == 1 {
            Envelope { decay: bits, ..self }
        } else if param_id == 2 {
            Envelope { sustain: bits, ..self }
        } else if param_id == 3 {
            Envelope { release: bits, ..self }
        } else {
            self
        }
    }

    /// Applies one parameter-change event; events without an id are ignored.
    pub fn handle_event(&mut self, event: &ParamValueEvent)
        ensures
            *final(self) == match event.param_id {
                Some(id) => old(self).spec_updated(id, event.value_bits),
                None => *old(self),
            },
    {
        match event.param_id {
            Some(0u32) => self.attack = event.value_bits,
            Some(1u32) => self.decay = event.value_bits,
            Some(2u32) => self.sustain = event.value_bits,
            Some(3u32) => self.release = event.value_bits,
            _ => {},
        }
    }

    /// Writes the persisted image: 16 bytes, the four fields little endian.
    pub fn save(&self) -> (out: Vec<u8>)
        ensures
            out@ == saved_bytes(*self),
    {
        let mut out: Vec<u8> = Vec::new();
        push_le(&mut out, self.attack);
        push_le(&mut out, self.decay);
        push_le(&mut out, self.sustain);
        push_le(&mut out, self.release);
        proof {
            assert(out@ =~= saved_bytes(*self));
        }
        out
    }

    /// Reads a persisted image back, field by field in the fixed order.
    ///
    /// Every complete four-byte group found in `data` is assigned before a
    /// short image is reported, so a truncated image leaves the set partly
    /// overwritten — exactly one field per complete group, in order. A
    /// caller that wants all-or-nothing behaviour must keep its own copy.
    pub fn load(&mut self, data: &[u8]) -> (r: Result<(), StateError>)
        ensures
            r is Ok <==> data@.len() >= 16,
            load_effect(*old(self), *final(self), data@),
    {
        if data.len() < 4 {
            return Err(StateError::Truncated);
        }
        self.attack = read_le(data, 0);
        if data.len() < 8 {
            return Err(StateError::Truncated);
        }
        self.decay = read_le(data, 4);
        if data.len() < 12 {
            return Err(StateError::Truncated);
        }
        self.sustain = read_le(data, 8);
        if data.len() < 16 {
            return Err(StateError::Truncated);
        }
        self.release = read_le(data, 12);
        Ok(())
    }
}

impl Default for Envelope {
    /// The default parameter set.
    fn default() -> (e: Envelope)
        ensures
            e == Envelope::spec_default(),
    {
        Envelope {
            attack: 0x3C23D70A,
            decay: 0x3DCCCCCD,
            sustain: 0x3F4CCCCD,
            release: 0x3DCCCCCD,
        }
    }
}

/// Appends the little-endian image of one word.
fn push_le(out: &mut Vec<u8>, x: u32)
    ensures
        final(out)@ == old(out)@ + le_bytes(x),
{
    out.push((x & 0xff) as u8);
    out.push(((x >> 8) & 0xff) as u8);
    out.push(((x >> 16) & 0xff) as u8);
    out.push(((x >> 24) & 0xff) as u8);
    proof {
        assert(final(out)@ =~= old(out)@ + le_bytes(x));
    }
}

/// Reads the little-endian word at byte offset `i`.
fn read_le(data: &[u8], i: usize) -> (x: u32)
    requires
        i + 4 <= data@.len(),
    ensures
        x == le_word(data@[i as int], data@[i + 1], data@[i + 2], data@[i + 3]),
{
    (data[i] as u32) | ((data[i + 1] as u32) << 8) | ((data[i + 2] as u32) << 16) | ((data[i
        + 3] as u32) << 24)
}

/// Saving and then loading restores every field bit for bit: the 16-byte
/// image of a parameter set decodes, group by group, to the very fields it
/// was written from, so `load` run on `save`'s output — whatever the prior
/// contents of the target set — succeeds and reproduces the saved set.
pub proof fn lemma_save_load_round_trip(p: Envelope)
    ensures
        saved_bytes(p).len() == 16,
        le_word(saved_bytes(p)[0], saved_bytes(p)[1], saved_bytes(p)[2], saved_bytes(p)[3])
            == p.attack,
        le_word(saved_bytes(p)[4], saved_bytes(p)[5], saved_bytes(p)[6], saved_bytes(p)[7])
            == p.decay,
        le_word(saved_bytes(p)[8], saved_bytes(p)[9], saved_bytes(p)[10], saved_bytes(p)[11])
            == p.sustain,
        le_word(saved_bytes(p)[12], saved_bytes(p)[13], saved_bytes(p)[14], saved_bytes(p)[15])
            == p.release,
{
    lemma_le_round_trip(p.attack);
    lemma_le_round_trip(p.decay);
    lemma_le_round_trip(p.sustain);
    lemma_le_round_trip(p.release);
}

} // verus!
