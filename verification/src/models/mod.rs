//! Model families: their configuration, their tensor keys and how they take
//! images.
pub mod config;
pub mod deepseek;
pub mod gemma3;
pub mod granite;
pub mod laws;
pub mod multimodal;
pub mod synthetic;
pub mod synthetic_families;
pub mod synthetic_laws;
