use vstd::prelude::*;

verus! {

/// Everything that can go wrong in the trainer core.
#[derive(Debug, Clone, PartialEq, Eq)]
pub enum TrainerError {
    /// A layer of size zero, or fewer than two layers.
    InvalidTopology,
    /// A vector whose length does not fit the configured widths.
    ShapeMismatch,
    /// An example was asked of a store that holds none.
    EmptyStore,
    /// The numeric engine failed; the reason is passed on as it came.
    EngineError(String),
}

} // verus!
