//! What the decoder reads of the model.

use vstd::prelude::*;

verus! {

/// What the decoder reads of the model's dimensions.
#[derive(Clone, Copy, Debug, PartialEq, Eq, Structural)]
pub struct ModelDims {
    /// The number of token ids.
    pub vocab_size: usize,
    /// The longest token sequence that the model takes.
    pub max_target_positions: usize,
    /// The number of positions that the model's encoder yields for a full
    /// window.
    pub max_source_positions: usize,
    /// The number of feature frames in a full window.
    pub window_frame_limit: usize,
}

impl ModelDims {
    /// The number of tokens that are generated for a window at most.
    pub open spec fn sample_len(&self) -> nat {
        (self.max_target_positions / 2) as nat
    }

    /// The number of feature frames that one timestamp step stands for.
    pub open spec fn input_stride(&self) -> nat {
        (self.window_frame_limit / self.max_source_positions) as nat
    }
}

} // verus!
