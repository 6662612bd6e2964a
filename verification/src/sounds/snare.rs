//! The snare drum: a tone blended with noise.

use super::SoundParams;
use crate::sequencer::{step_type_named, StepType, StepValues};
use vstd::prelude::*;

verus! {

/// Parameters of one snare voice.
#[derive(Clone, Copy, Debug, PartialEq, Eq)]
pub struct SnareParams {
    /// Frequency of the tonal part.
    pub freq: i32,
    /// Share of noise in the mix; the tone has the rest.
    pub blend: i32,
    /// Decay time of the gain envelope.
    pub decay: i32,
    /// How hard the compressor bites.
    pub punch: i32,
    pub volume: i32,
}

/// One step of a snare pattern as an editor describes it.
#[derive(Clone, Debug, PartialEq, Eq)]
pub struct SnareValues {
    pub freq: i32,
    pub blend: i32,
    pub decay: i32,
    pub punch: i32,
    pub volume: i32,
    pub step_type: String,
}

impl SnareParams {
    /// The sound of a track that nobody has edited yet.
    pub open spec fn initial() -> SnareParams {
        SnareParams { freq: 120_000, blend: 500, decay: 100, punch: 500, volume: 700 }
    }
}

impl Default for SnareParams {
    fn default() -> (params: SnareParams)
        ensures
            params == SnareParams::initial(),
    {
        SnareParams { freq: 120_000, blend: 500, decay: 100, punch: 500, volume: 700 }
    }
}

impl SnareValues {
    /// The parameter set that this step describes.
    pub open spec fn spec_params(&self) -> SnareParams {
        SnareParams {
            freq: self.freq,
            blend: self.blend,
            decay: self.decay,
            punch: self.punch,
            volume: self.volume,
        }
    }

    /// The parameter set that this step describes.
    pub fn params(&self) -> (params: SnareParams)
        ensures
            params == self.spec_params(),
    {
        SnareParams {
            freq: self.freq,
            blend: self.blend,
            decay: self.decay,
            punch: self.punch,
            volume: self.volume,
        }
    }

    /// This step as its track takes it.
    pub open spec fn spec_step(&self) -> StepValues {
        StepValues {
            step_type: step_type_named(self.step_type@),
            params: SoundParams::Snare(self.spec_params()),
        }
    }

    /// This step as its track takes it.
    pub fn step(&self) -> (step: StepValues)
        ensures
            step == self.spec_step(),
    {
        StepValues {
            step_type: StepType::from_name(self.step_type.as_str()),
            params: SoundParams::Snare(self.params()),
        }
    }
}

/// The steps of a pattern as their track takes them.
pub open spec fn snare_steps(steps: Seq<SnareValues>) -> Seq<StepValues> {
    Seq::new(steps.len(), |i: int| steps[i].spec_step())
}

} // verus!
