//! The shape of a model and the keys of its tensors.
use vstd::prelude::*;

use crate::text::{concat, decimal, decimal_string};

verus! {

/// The key of a tensor of layer `n`.
pub open spec fn layer_key(n: nat, suffix: Seq<char>) -> Seq<char> {
    "layers."@ + decimal(n) + "."@ + suffix
}

/// The key of a tensor of layer `n`.
pub fn layer_key_string(n: usize, suffix: &str) -> (r: String)
    ensures
        r@ == layer_key(n as nat, suffix@),
{
    let number = decimal_string(n as u64);
    let mut out = concat("layers.", number.as_str());
    out.append(".");
    out.append(suffix);
    out
}

/// The keys of one expert's feed-forward tensors.
pub struct ExpertKeys {
    pub gate: Option<String>,
    pub up: Option<String>,
    pub down: Option<String>,
}

/// The keys of one layer's tensors.
pub struct LayerKeys {
    pub attn_q: String,
    pub attn_k: String,
    pub attn_v: String,
    pub attn_o: String,
    pub ffn_gate: String,
    pub ffn_up: String,
    pub ffn_down: String,
    pub shared_gate: Option<String>,
    pub shared_up: Option<String>,
    pub shared_down: Option<String>,
    pub experts: Vec<ExpertKeys>,
    /// Set where query, key and value come as one tensor.
    pub fused_qkv: Option<String>,
    pub fused_qkv_bias: Option<String>,
    pub attn_q_bias: Option<String>,
    pub attn_k_bias: Option<String>,
    pub attn_v_bias: Option<String>,
}

impl LayerKeys {
    /// The keys that most architectures use: separate projections, one dense
    /// feed-forward network, no biases.
    pub open spec fn is_standard(&self, n: nat) -> bool {
        &&& self.attn_q@ == layer_key(n, "self_attn.q_proj.weight"@)
        &&& self.attn_k@ == layer_key(n, "self_attn.k_proj.weight"@)
        &&& self.attn_v@ == layer_key(n, "self_attn.v_proj.weight"@)
        &&& self.attn_o@ == layer_key(n, "self_attn.o_proj.weight"@)
        &&& self.ffn_gate@ == layer_key(n, "mlp.gate_proj.weight"@)
        &&& self.ffn_up@ == layer_key(n, "mlp.up_proj.weight"@)
        &&& self.ffn_down@ == layer_key(n, "mlp.down_proj.weight"@)
        &&& self.shared_gate is None && self.shared_up is None && self.shared_down is None
        &&& self.experts@.len() == 0
        &&& self.fused_qkv is None && self.fused_qkv_bias is None
        &&& self.attn_q_bias is None && self.attn_k_bias is None && self.attn_v_bias is None
    }

    /// The keys that most architectures use for layer `n`.
    pub fn standard(n: usize) -> (r: LayerKeys)
        ensures
            r.is_standard(n as nat),
    {
        LayerKeys {
            attn_q: layer_key_string(n, "self_attn.q_proj.weight"),
            attn_k: layer_key_string(n, "self_attn.k_proj.weight"),
            attn_v: layer_key_string(n, "self_attn.v_proj.weight"),
            attn_o: layer_key_string(n, "self_attn.o_proj.weight"),
            ffn_gate: layer_key_string(n, "mlp.gate_proj.weight"),
            ffn_up: layer_key_string(n, "mlp.up_proj.weight"),
            ffn_down: layer_key_string(n, "mlp.down_proj.weight"),
            shared_gate: None,
            shared_up: None,
            shared_down: None,
            experts: Vec::new(),
            fused_qkv: None,
            fused_qkv_bias: None,
            attn_q_bias: None,
            attn_k_bias: None,
            attn_v_bias: None,
        }
    }
}

/// The shape of a model and the keys of its tensors.
pub struct ModelLayout {
    pub hidden_size: usize,
    pub intermediate_size: usize,
    pub head_dim: usize,
    pub num_q_heads: usize,
    pub num_kv_heads: usize,
    pub vocab_size: Option<usize>,
    /// The bit pattern of the base of the rotary embedding.
    pub rope_base: u64,
    /// The width of one expert's feed-forward network, where the model has
    /// experts.
    pub moe_intermediate_size: Option<usize>,
    pub layers: Vec<LayerKeys>,
    pub embed_key: String,
    pub position_embed_key: Option<String>,
    /// Prefixes of tensor keys that say nothing; the first that fits goes.
    pub key_prefixes_to_strip: Vec<String>,
}

impl ModelLayout {
    /// The rows of the query projection.
    pub open spec fn q_dim(&self) -> nat {
        self.num_q_heads as nat * self.head_dim as nat
    }

    /// The rows of the key projection, and of the value projection.
    pub open spec fn kv_dim(&self) -> nat {
        self.num_kv_heads as nat * self.head_dim as nat
    }

    /// The rows of query, key and value together fit in a machine word.
    pub open spec fn dims_fit(&self) -> bool {
        self.q_dim() + 2 * self.kv_dim() <= usize::MAX
    }

    /// The width of one expert's network, if it is positive.
    pub open spec fn expert_width(&self) -> Option<nat> {
        match self.moe_intermediate_size {
            Some(n) => if n > 0 {
                Some(n as nat)
            } else {
                None
            },
            None => None,
        }
    }
}

} // verus!
