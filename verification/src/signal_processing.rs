//! What remains of audio loading once reading and filtering are left to the
//! caller: its failure, and the shape of the features.

use vstd::prelude::*;

verus! {

/// The number of mel bins in each feature frame.
pub const MEL_BINS: usize = 128;

/// The audio file could not be opened.
#[derive(Clone, Copy, Debug, PartialEq, Eq, Structural)]
pub struct SignalProcessingError {}

impl SignalProcessingError {
    /// The text that the failure is reported with.
    pub fn message(&self) -> (text: String)
        ensures
            text@ == "SuperError is here!"@,
    {
        "SuperError is here!".to_owned()
    }
}

/// The shape of the feature tensor made of `values` mel values: one
/// recording, `MEL_BINS` bins, and as many frames as the values fill.
pub fn mel_shape(values: usize) -> (shape: (usize, usize, usize))
    ensures
        shape == (1usize, MEL_BINS, (values / MEL_BINS) as usize),
{
    (1, MEL_BINS, values / MEL_BINS)
}

} // verus!
