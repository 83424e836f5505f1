//! Quantised tensor blocks and the rotation that precedes quantisation.
pub mod q3_k;
pub mod q5_k;
pub mod rotation;
