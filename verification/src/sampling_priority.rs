//! The keep-or-drop decision attached to a sampled trace.

use vstd::prelude::*;

verus! {

/// Sampling decision propagated to every descendant span of a trace.
#[derive(Clone, Copy, Debug, PartialEq, Eq, Structural)]
pub enum SamplingPriority {
    /// The sampler decided to drop the trace.
    SamplerDrop,
    /// The sampler decided to keep the trace.
    SamplerKeep,
}

} // verus!
