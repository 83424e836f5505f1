//! Reading models, keeping key-value caches, and serving indexes.
//!
//! Floating-point numbers are carried as their bit patterns.
pub mod error;
pub mod gguf;
pub mod kv;
pub mod layout;
pub mod models;
pub mod path;
pub mod quant;
pub mod server;
pub mod table;
pub mod tensor;
pub mod text;
pub mod text_laws;
pub mod tool_laws;
pub mod vision;
