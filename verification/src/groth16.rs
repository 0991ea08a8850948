//! What the proof pipeline decides around its multiexponentiations.

pub mod prover;
pub mod witness;
