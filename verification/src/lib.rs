//! The computational core of a zero-knowledge proof generator: sums of scalar
//! multiples of curve points by the bucket method, and the rules by which
//! processes of different priority share one accelerator.

pub mod bls12_381;
pub mod curve;
pub mod density;
pub mod error;
pub mod exponent;
pub mod gpu;
pub mod groth16;
pub mod lc;
pub mod modular;
pub mod multiexp;
pub mod source;
