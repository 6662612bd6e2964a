//! Synthesis parameters of the instrument voices.
//!
//! Every magnitude is held in thousandths of its unit: a frequency of 40 Hz
//! is `40_000`, a decay of a tenth of a second is `100`, a volume of 0.7 is
//! `700`.

use vstd::prelude::*;
use vstd::string::StringSliceAdditionalSpecFns;

pub mod hat;
pub mod kick;
pub mod snare;

verus! {

/// The instrument voices of the machine.
#[derive(Clone, Copy, Debug, PartialEq, Eq, Structural)]
pub enum Instrument {
    Kick,
    Snare,
    Hat,
}

/// The shape of an oscillator's wave.
#[derive(Clone, Copy, Debug, PartialEq, Eq, Structural)]
pub enum Waveform {
    Sine,
    Triangle,
}

/// One parameter set, of whichever instrument.
#[derive(Clone, Copy, Debug, PartialEq, Eq)]
pub enum SoundParams {
    Kick(kick::KickParams),
    Snare(snare::SnareParams),
    Hat(hat::HatParams),
}

impl SoundParams {
    /// The instrument that renders this parameter set.
    pub open spec fn spec_instrument(&self) -> Instrument {
        match self {
            SoundParams::Kick(_) => Instrument::Kick,
            SoundParams::Snare(_) => Instrument::Snare,
            SoundParams::Hat(_) => Instrument::Hat,
        }
    }

    /// The instrument that renders this parameter set.
    #[verifier::when_used_as_spec(spec_instrument)]
    pub fn instrument(&self) -> (which: Instrument)
        ensures
            which == self.spec_instrument(),
    {
        match self {
            SoundParams::Kick(_) => Instrument::Kick,
            SoundParams::Snare(_) => Instrument::Snare,
            SoundParams::Hat(_) => Instrument::Hat,
        }
    }
}

/// Whether two strings hold the same characters.
pub fn str_equal(a: &str, b: &str) -> (same: bool)
    ensures
        same == (a@ == b@),
{
    let x: &[u8] = a.as_bytes();
    let y: &[u8] = b.as_bytes();
    if x.len() != y.len() {
        return false;
    }
    let mut i: usize = 0;
    while i < x.len()
        invariant
            x@ == a.spec_bytes(),
            y@ == b.spec_bytes(),
            x@.len() == y@.len(),
            i <= x@.len(),
            forall|j: int| 0 <= j < i ==> x@[j] == y@[j],
        decreases x@.len() - i,
    {
        if x[i] != y[i] {
            return false;
        }
        i += 1;
    }
    proof {
        assert(x@ =~= y@);
        vstd::utf8::encode_utf8_decode_utf8(a@);
        vstd::utf8::encode_utf8_decode_utf8(b@);
    }
    true
}

/// The waveform that a name stands for: `"triangle"` is the triangle, every
/// other name the sine.
pub open spec fn waveform_named(name: Seq<char>) -> Waveform {
    if name == "triangle"@ {
        Waveform::Triangle
    } else {
        Waveform::Sine
    }
}

/// The instrument that a track name stands for: `"snare"` and `"hat"` are
/// themselves, every other name is the kick.
pub open spec fn instrument_named(name: Seq<char>) -> Instrument {
    if name == "snare"@ {
        Instrument::Snare
    } else if name == "hat"@ {
        Instrument::Hat
    } else {
        Instrument::Kick
    }
}

impl Instrument {
    /// The instrument that a track name stands for.
    pub fn from_name(name: &str) -> (which: Instrument)
        ensures
            which == instrument_named(name@),
    {
        if str_equal(name, "snare") {
            Instrument::Snare
        } else if str_equal(name, "hat") {
            Instrument::Hat
        } else {
            Instrument::Kick
        }
    }
}

/// The waveform that a name stands for.
pub fn wave_string_to_osc(wave: &str) -> (shape: Waveform)
    ensures
        shape == waveform_named(wave@),
{
    if str_equal(wave, "triangle") {
        Waveform::Triangle
    } else {
        Waveform::Sine
    }
}

} // verus!
