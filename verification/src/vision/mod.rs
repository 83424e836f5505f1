//! The weights of vision encoders and of what joins them to a language model.
pub mod laws;
pub mod mlp_connector;
pub mod projector;
pub mod safetensors_file;
pub mod vision_tower;
