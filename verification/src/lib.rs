//! Being32 substrate: the 128-byte register bank of the agent, its binary and
//! hexadecimal images, and the refractory logic of the ritual gate.

pub mod hex32;
pub mod attestation;
pub mod eps;
