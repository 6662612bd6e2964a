//! The kick drum: a pitched oscillator with a falling pitch sweep.

use super::{wave_string_to_osc, waveform_named, SoundParams, Waveform};
use crate::sequencer::{step_type_named, StepType, StepValues};
use vstd::prelude::*;

verus! {

/// Parameters of one kick voice.
#[derive(Clone, Copy, Debug, PartialEq, Eq)]
pub struct KickParams {
    /// Resting frequency of the oscillator.
    pub freq: i32,
    /// Height of the pitch sweep, as a ratio of `freq`.
    pub pitch: i32,
    pub wave: Waveform,
    /// Decay time of the gain envelope.
    pub decay: i32,
    /// How hard the compressor bites.
    pub punch: i32,
    pub volume: i32,
}

/// One step of a kick pattern as an editor describes it.
#[derive(Clone, Debug, PartialEq, Eq)]
pub struct KickValues {
    pub freq: i32,
    pub pitch: i32,
    pub wave: String,
    pub decay: i32,
    pub punch: i32,
    pub volume: i32,
    pub step_type: String,
}

impl KickParams {
    /// The sound of a track that nobody has edited yet.
    pub open spec fn initial() -> KickParams {
        KickParams { freq: 40_000, pitch: 1_000, wave: Waveform::Sine, decay: 100, punch: 0, volume: 700 }
    }
}

impl Default for KickParams {
    fn default() -> (params: KickParams)
        ensures
            params == KickParams::initial(),
    {
        KickParams { freq: 40_000, pitch: 1_000, wave: Waveform::Sine, decay: 100, punch: 0, volume: 700 }
    }
}

impl KickValues {
    /// The parameter set that this step describes.
    pub open spec fn spec_params(&self) -> KickParams {
        KickParams {
            freq: self.freq,
            pitch: self.pitch,
            wave: waveform_named(self.wave@),
            decay: self.decay,
            punch: self.punch,
            volume: self.volume,
        }
    }

    /// The parameter set that this step describes.
    pub fn params(&self) -> (params: KickParams)
        ensures
            params == self.spec_params(),
    {
        KickParams {
            freq: self.freq,
            pitch: self.pitch,
            wave: wave_string_to_osc(self.wave.as_str()),
            decay: self.decay,
            punch: self.punch,
            volume: self.volume,
        }
    }

    /// This step as its track takes it.
    pub open spec fn spec_step(&self) -> StepValues {
        StepValues {
            step_type: step_type_named(self.step_type@),
            params: SoundParams::Kick(self.spec_params()),
        }
    }

    /// This step as its track takes it.
    pub fn step(&self) -> (step: StepValues)
        ensures
            step == self.spec_step(),
    {
        StepValues {
            step_type: StepType::from_name(self.step_type.as_str()),
            params: SoundParams::Kick(self.params()),
        }
    }
}

/// The steps of a pattern as their track takes them.
pub open spec fn kick_steps(steps: Seq<KickValues>) -> Seq<StepValues> {
    Seq::new(steps.len(), |i: int| steps[i].spec_step())
}

} // verus!
