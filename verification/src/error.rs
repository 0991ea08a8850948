//! Error values shared by the arbitration layer and the multiexponentiation
//! engine.

use vstd::prelude::*;

verus! {

/// A failure of the accelerator path: the device is absent or disabled, its
/// platform is unknown, or its results disagree with the CPU. It never aborts
/// a proof; the engine answers it by computing on the CPU.
#[derive(Debug, Clone, PartialEq, Eq)]
pub struct GPUError {
    pub msg: String,
}

/// What can abort a multiexponentiation.
#[derive(Debug, Clone, PartialEq, Eq)]
pub enum SynthesisError {
    /// The base source ran out while active exponents were still waiting
    /// for a base.
    MalformedSource,
    /// A base that had to be accumulated was the group identity.
    UnexpectedIdentity,
    /// The accelerator reported a failure.
    GPUError(GPUError),
}

impl From<GPUError> for SynthesisError {
    fn from(e: GPUError) -> (r: SynthesisError) {
        SynthesisError::GPUError(e)
    }
}

impl vstd::std_specs::convert::FromSpecImpl<GPUError> for SynthesisError {
    open spec fn obeys_from_spec() -> bool {
        true
    }

    open spec fn from_spec(e: GPUError) -> SynthesisError {
        SynthesisError::GPUError(e)
    }
}

} // verus!
