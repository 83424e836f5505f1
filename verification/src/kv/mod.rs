//! Key-value cache engines: their selection, their windows, and generation.
pub mod cache_run;
pub mod dispatch;
pub mod engine_kind;
pub mod executor_walk;
pub mod generation;
pub mod info;
pub mod laws;
pub mod numbers;
pub mod standard;
pub mod state_laws;
pub mod unlimited_context;
pub mod unlimited_engine;
