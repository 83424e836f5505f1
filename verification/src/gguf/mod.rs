//! The GGUF model file format: values, headers, shards and tensors.
pub mod config;
pub mod constants;
pub mod file_laws;
pub mod keys;
pub mod laws;
pub mod layer_names;
pub mod loader;
pub mod open;
pub mod orient;
pub mod parser;
pub mod reader;
pub mod shards;
pub mod types;
pub mod weight_laws;
pub mod writing;
