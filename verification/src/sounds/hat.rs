//! The hi-hat: high-passed noise.

use super::SoundParams;
use crate::sequencer::{step_type_named, StepType, StepValues};
use vstd::prelude::*;

verus! {

/// Parameters of one hi-hat voice.
#[derive(Clone, Copy, Debug, PartialEq, Eq)]
pub struct HatParams {
    /// Cutoff frequency of the high-pass filter.
    pub freq: i32,
    /// Decay time of the gain envelope.
    pub decay: i32,
    /// How hard the compressor bites.
    pub punch: i32,
    pub volume: i32,
}

/// One step of a hi-hat pattern as an editor describes it.
#[derive(Clone, Debug, PartialEq, Eq)]
pub struct HatValues {
    pub freq: i32,
    pub decay: i32,
    pub punch: i32,
    pub volume: i32,
    pub step_type: String,
}

impl HatParams {
    /// The sound of a track that nobody has edited yet.
    pub open spec fn initial() -> HatParams {
        HatParams { freq: 4_000_000, decay: 100, punch: 0, volume: 700 }
    }
}

impl Default for HatParams {
    fn default() -> (params: HatParams)
        ensures
            params == HatParams::initial(),
    {
        HatParams { freq: 4_000_000, decay: 100, punch: 0, volume: 700 }
    }
}

impl HatValues {
    /// The parameter set that this step describes.
    pub open spec fn spec_params(&self) -> HatParams {
        HatParams { freq: self.freq, decay: self.decay, punch: self.punch, volume: self.volume }
    }

    /// The parameter set that this step describes.
    pub fn params(&self) -> (params: HatParams)
        ensures
            params == self.spec_params(),
    {
        HatParams { freq: self.freq, decay: self.decay, punch: self.punch, volume: self.volume }
    }

    /// This step as its track takes it.
    pub open spec fn spec_step(&self) -> StepValues {
        StepValues {
            step_type: step_type_named(self.step_type@),
            params: SoundParams::Hat(self.spec_params()),
        }
    }

    /// This step as its track takes it.
    pub fn step(&self) -> (step: StepValues)
        ensures
            step == self.spec_step(),
    {
        StepValues {
            step_type: StepType::from_name(self.step_type.as_str()),
            params: SoundParams::Hat(self.params()),
        }
    }
}

/// The steps of a pattern as their track takes them.
pub open spec fn hat_steps(steps: Seq<HatValues>) -> Seq<StepValues> {
    Seq::new(steps.len(), |i: int| steps[i].spec_step())
}

} // verus!
