//! The DeepSeek family: many experts, of which a router picks some for each
//! token, and compressed keys and values.
use vstd::prelude::*;

use crate::layout::{layer_key, layer_key_string};
use crate::models::config::ModelConfig;
use crate::text::{concat3, decimal, decimal_string};

verus! {

/// A DeepSeek model.
pub struct DeepSeekArch {
    pub config: ModelConfig,
}

/// The key of a tensor of one expert: `part` is `gate`, `up` or `down`.
pub open spec fn expert_key(layer: nat, expert: nat, part: Seq<char>) -> Seq<char> {
    layer_key(layer, "mlp.experts."@ + decimal(expert) + "."@ + part + "_proj.weight"@)
}

/// The key of a tensor of one expert.
fn expert_key_string(layer: usize, expert: usize, part: &str) -> (r: String)
    ensures
        r@ == expert_key(layer as nat, expert as nat, part@),
{
    let number = decimal_string(expert as u64);
    let head = concat3("mlp.experts.", number.as_str(), ".");
    let suffix = concat3(head.as_str(), part, "_proj.weight");
    layer_key_string(layer, suffix.as_str())
}

impl DeepSeekArch {
    /// The model with this configuration.
    pub fn from_config(config: ModelConfig) -> (r: DeepSeekArch)
        ensures
            r.config == config,
    {
        DeepSeekArch { config }
    }

    /// The family's name.
    pub fn family(&self) -> (r: &str)
        ensures
            r@ == "deepseek"@,
    {
        "deepseek"
    }

    /// The configuration.
    pub fn config(&self) -> (r: &ModelConfig)
        ensures
            *r == self.config,
    {
        &self.config
    }

    /// Whether the configuration has experts.
    pub fn is_moe(&self) -> (r: bool)
        ensures
            r == (self.config.num_experts matches Some(n) && n > 0),
    {
        match self.config.num_experts {
            Some(n) => n > 0,
            None => false,
        }
    }

    /// The number of experts that the router picks from.
    pub fn num_experts(&self) -> (r: usize)
        ensures
            r == match self.config.num_experts {
                Some(n) => n,
                None => 64,
            },
    {
        match self.config.num_experts {
            Some(n) => n,
            None => 64,
        }
    }

    /// The number of experts that the router picks for a token.
    pub fn num_experts_per_token(&self) -> (r: usize)
        ensures
            r == match self.config.num_experts_per_token {
                Some(n) => n,
                None => 6,
            },
    {
        match self.config.num_experts_per_token {
            Some(n) => n,
            None => 6,
        }
    }

    /// The number of experts that every token goes to.
    pub fn num_shared_experts(&self) -> (r: usize)
        ensures
            r == match self.config.num_shared_experts {
                Some(n) => n,
                None => 2,
            },
    {
        match self.config.num_shared_experts {
            Some(n) => n,
            None => 2,
        }
    }

    /// The key of a layer's router.
    pub fn moe_router_key(&self, layer: usize) -> (r: Option<String>)
        ensures
            r matches Some(k) && k@ == layer_key(layer as nat, "mlp.gate.weight"@),
    {
        Some(layer_key_string(layer, "mlp.gate.weight"))
    }

    /// The key of an expert's gating projection.
    pub fn expert_ffn_gate_key(&self, layer: usize, expert_id: usize) -> (r: Option<String>)
        ensures
            r matches Some(k) && k@ == expert_key(layer as nat, expert_id as nat, "gate"@),
    {
        Some(expert_key_string(layer, expert_id, "gate"))
    }

    /// The key of an expert's up projection.
    pub fn expert_ffn_up_key(&self, layer: usize, expert_id: usize) -> (r: Option<String>)
        ensures
            r matches Some(k) && k@ == expert_key(layer as nat, expert_id as nat, "up"@),
    {
        Some(expert_key_string(layer, expert_id, "up"))
    }

    /// The key of an expert's down projection.
    pub fn expert_ffn_down_key(&self, layer: usize, expert_id: usize) -> (r: Option<String>)
        ensures
            r matches Some(k) && k@ == expert_key(layer as nat, expert_id as nat, "down"@),
    {
        Some(expert_key_string(layer, expert_id, "down"))
    }

    /// The key of the gating projection of a layer's shared experts.
    pub fn shared_expert_gate_key(&self, layer: usize) -> (r: Option<String>)
        ensures
            r matches Some(k) && k@ == layer_key(layer as nat, "mlp.shared_experts.gate_proj.weight"@),
    {
        Some(layer_key_string(layer, "mlp.shared_experts.gate_proj.weight"))
    }

    /// The key of the up projection of a layer's shared experts.
    pub fn shared_expert_up_key(&self, layer: usize) -> (r: Option<String>)
        ensures
            r matches Some(k) && k@ == layer_key(layer as nat, "mlp.shared_experts.up_proj.weight"@),
    {
        Some(layer_key_string(layer, "mlp.shared_experts.up_proj.weight"))
    }

    /// The key of the down projection of a layer's shared experts.
    pub fn shared_expert_down_key(&self, layer: usize) -> (r: Option<String>)
        ensures
            r matches Some(k) && k@ == layer_key(layer as nat, "mlp.shared_experts.down_proj.weight"@),
    {
        Some(layer_key_string(layer, "mlp.shared_experts.down_proj.weight"))
    }

    /// Whether keys and values are compressed.
    pub fn uses_mla(&self) -> (r: bool)
        ensures
            r == self.config.kv_lora_rank is Some,
    {
        self.config.kv_lora_rank.is_some()
    }

    /// The rank of compressed keys and values.
    pub fn kv_lora_rank(&self) -> (r: usize)
        ensures
            r == match self.config.kv_lora_rank {
                Some(n) => n,
                None => 512,
            },
    {
        match self.config.kv_lora_rank {
            Some(n) => n,
            None => 512,
        }
    }

    /// The rank of compressed queries.
    pub fn q_lora_rank(&self) -> (r: usize)
        ensures
            r == match self.config.q_lora_rank {
                Some(n) => n,
                None => 1536,
            },
    {
        match self.config.q_lora_rank {
            Some(n) => n,
            None => 1536,
        }
    }

    /// The part of a head without rotary positions.
    pub fn mla_qk_nope_head_dim(&self) -> (r: Option<usize>)
        ensures
            r == self.config.qk_nope_head_dim,
    {
        self.config.qk_nope_head_dim
    }

    /// The part of a head with rotary positions.
    pub fn mla_qk_rope_head_dim(&self) -> (r: Option<usize>)
        ensures
            r == self.config.qk_rope_head_dim,
    {
        self.config.qk_rope_head_dim
    }

    /// The width of a head's values.
    pub fn mla_v_head_dim(&self) -> (r: Option<usize>)
        ensures
            r == self.config.v_head_dim,
    {
        self.config.v_head_dim
    }

    /// The key of the projection that compresses keys and values.
    pub fn mla_kv_a_key(&self, layer: usize) -> (r: Option<String>)
        ensures
            r matches Some(k) && k@ == layer_key(layer as nat, "self_attn.kv_a_proj_with_mqa.weight"@),
    {
        Some(layer_key_string(layer, "self_attn.kv_a_proj_with_mqa.weight"))
    }

    /// The key of the projection that expands keys and values.
    pub fn mla_kv_b_key(&self, layer: usize) -> (r: Option<String>)
        ensures
            r matches Some(k) && k@ == layer_key(layer as nat, "self_attn.kv_b_proj.weight"@),
    {
        Some(layer_key_string(layer, "self_attn.kv_b_proj.weight"))
    }

    /// The key of the projection that compresses queries.
    pub fn mla_q_a_key(&self, layer: usize) -> (r: Option<String>)
        ensures
            r matches Some(k) && k@ == layer_key(layer as nat, "self_attn.q_a_proj.weight"@),
    {
        Some(layer_key_string(layer, "self_attn.q_a_proj.weight"))
    }

    /// The key of the projection that expands queries.
    pub fn mla_q_b_key(&self, layer: usize) -> (r: Option<String>)
        ensures
            r matches Some(k) && k@ == layer_key(layer as nat, "self_attn.q_b_proj.weight"@),
    {
        Some(layer_key_string(layer, "self_attn.q_b_proj.weight"))
    }
}

} // verus!
