//! The configuration of a model.
//!
//! A number with a fraction is held by the bit pattern of its double-precision
//! form.
use vstd::prelude::*;

verus! {

/// How positions are scaled beyond the length that a model was trained for.
#[derive(Debug, Clone)]
pub struct RopeScaling {
    pub scaling_type: String,
    pub factor: u64,
    pub llama3_low_freq_factor: Option<u64>,
    pub llama3_high_freq_factor: Option<u64>,
    pub llama3_original_max_position_embeddings: Option<u64>,
    pub gemma3_global_only: bool,
}

/// The configuration of a model.
#[derive(Debug, Clone)]
pub struct ModelConfig {
    pub model_type: String,
    pub norm_eps: Option<u64>,
    pub num_layers: usize,
    pub hidden_size: usize,
    pub intermediate_size: usize,
    pub head_dim: usize,
    pub num_q_heads: usize,
    pub num_kv_heads: usize,
    pub vocab_size: Option<usize>,
    pub rope_base: u64,
    pub rope_local_base: Option<u64>,
    pub sliding_window: Option<usize>,
    pub num_experts: Option<usize>,
    pub num_experts_per_token: Option<usize>,
    pub num_shared_experts: Option<usize>,
    pub enable_moe_block: bool,
    pub top_k_experts: Option<usize>,
    pub moe_intermediate_size: Option<usize>,
    pub kv_lora_rank: Option<usize>,
    pub q_lora_rank: Option<usize>,
    pub qk_nope_head_dim: Option<usize>,
    pub qk_rope_head_dim: Option<usize>,
    pub v_head_dim: Option<usize>,
    pub rope_scaling: Option<RopeScaling>,
    pub attn_logit_softcapping: Option<u64>,
    pub final_logit_softcapping: Option<u64>,
    pub query_pre_attn_scalar: Option<u64>,
    pub embedding_multiplier: Option<u64>,
    pub residual_multiplier: Option<u64>,
    pub attention_multiplier: Option<u64>,
    pub logits_scaling: Option<u64>,
    pub global_head_dim: Option<usize>,
    pub num_global_kv_heads: Option<usize>,
    pub partial_rotary_factor: Option<u64>,
    pub sliding_window_pattern: Option<usize>,
    pub layer_types: Option<Vec<String>>,
    pub attention_k_eq_v: bool,
    pub per_layer_embed_dim: Option<usize>,
    pub num_kv_shared_layers: Option<usize>,
    pub has_vision_config: bool,
}

/// The activation of a feed-forward network.
#[derive(Debug, Clone, Copy, PartialEq, Eq, Structural)]
pub enum Activation {
    Silu,
    GeluTanh,
}

} // verus!
