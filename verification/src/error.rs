//! What the engine refuses.

use vstd::prelude::*;

verus! {

/// Why an update was refused. A refused update changes nothing.
#[derive(Clone, Copy, Debug, PartialEq, Eq)]
pub enum SequencerError {
    /// The tempo is zero.
    Tempo,
    /// The track length is not between one and sixteen steps.
    TrackLength,
    /// The pattern does not have exactly sixteen steps.
    PatternLength,
}

} // verus!
