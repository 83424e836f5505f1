//! The Gemma 3 family.
use vstd::prelude::*;

use crate::layout::{layer_key, layer_key_string};
use crate::models::config::{Activation, ModelConfig};
use crate::models::multimodal::{
    tiles_go_with_budget, MultiModalProtocol, PlaceholderProtocol, PrecomputedScaling, TokenBudget,
};
use crate::text::{ascii_lowercase, equal_ignoring_case, to_chars};

verus! {

/// Of so many layers in a row the last attends to everything; the others
/// attend to a window.
pub const GEMMA3_SLIDING_WINDOW_PATTERN: usize = 6;

/// The bit pattern of one, in double precision.
pub const ONE_BITS: u64 = 0x3FF0_0000_0000_0000;

/// The bit pattern of one, in single precision.
pub const ONE_BITS_SINGLE: u32 = 0x3F80_0000;

/// What Gemma 3 expects of images, whatever its size.
pub struct Gemma3MultiModal;

impl MultiModalProtocol for Gemma3MultiModal {
    fn vision_encoder(&self) -> (r: Option<&str>)
        ensures
            r matches Some(s) && s@ == "siglip"@,
    {
        Some("siglip")
    }

    fn image_placeholder(&self) -> (r: Option<PlaceholderProtocol>)
        ensures
            r == Some(
                PlaceholderProtocol {
                    start: Some(255_999u32),
                    fill: 262_144,
                    end: Some(256_000u32),
                },
            ),
    {
        Some(PlaceholderProtocol { start: Some(255_999), fill: 262_144, end: Some(256_000) })
    }

    fn image_token_budget(&self) -> (r: TokenBudget)
        ensures
            r == TokenBudget::Fixed(256),
    {
        TokenBudget::Fixed(256)
    }

    fn precomputed_scaling(&self) -> (r: PrecomputedScaling)
        ensures
            r == PrecomputedScaling::Unscaled,
    {
        PrecomputedScaling::Unscaled
    }
}

/// Gemma 3 does not cut images, and has no places for each tile.
pub proof fn gemma3_tiles(p: &Gemma3MultiModal, budget: TokenBudget, counts: &[usize])
    requires
        call_ensures(Gemma3MultiModal::image_token_budget, (p,), budget),
        call_ensures(Gemma3MultiModal::valid_tile_counts, (p,), counts),
    ensures
        tiles_go_with_budget(budget, counts@),
{
}

/// A Gemma 3 model.
pub struct Gemma3Arch {
    pub config: ModelConfig,
}

/// A layer that attends to a window.
pub open spec fn slides(layer: nat) -> bool {
    (layer + 1) % (GEMMA3_SLIDING_WINDOW_PATTERN as nat) != 0
}

/// Of any six layers in a row exactly one attends to everything.
pub proof fn one_full_layer_in_six(first: nat)
    ensures
        exists|k: nat| k < 6 && !slides(#[trigger] (first + k)),
        forall|a: nat, b: nat|
            a < 6 && b < 6 && !slides(#[trigger] (first + a)) && !slides(#[trigger] (first + b))
                ==> a == b,
{
    let k = (5 - first % 6) as nat;
    assert(!slides(first + k));
}

impl Gemma3Arch {
    /// The model with this configuration.
    pub fn from_config(config: ModelConfig) -> (r: Gemma3Arch)
        ensures
            r.config == config,
    {
        Gemma3Arch { config }
    }

    /// The family's name.
    pub fn family(&self) -> (r: &str)
        ensures
            r@ == "gemma3"@,
    {
        "gemma3"
    }

    /// The configuration.
    pub fn config(&self) -> (r: &ModelConfig)
        ensures
            *r == self.config,
    {
        &self.config
    }

    /// The key of a layer's query norm.
    pub fn attn_q_norm_key(&self, layer: usize) -> (r: Option<String>)
        ensures
            r matches Some(k) && k@ == layer_key(layer as nat, "self_attn.q_norm.weight"@),
    {
        Some(layer_key_string(layer, "self_attn.q_norm.weight"))
    }

    /// The key of a layer's key norm.
    pub fn attn_k_norm_key(&self, layer: usize) -> (r: Option<String>)
        ensures
            r matches Some(k) && k@ == layer_key(layer as nat, "self_attn.k_norm.weight"@),
    {
        Some(layer_key_string(layer, "self_attn.k_norm.weight"))
    }

    /// What is added to the weights of the layer norms: one.
    pub fn norm_weight_offset(&self) -> (r: u32)
        ensures
            r == ONE_BITS_SINGLE,
    {
        ONE_BITS_SINGLE
    }

    /// What is added to the weights of the query and key norms: one.
    pub fn qk_norm_weight_offset(&self) -> (r: u32)
        ensures
            r == ONE_BITS_SINGLE,
    {
        ONE_BITS_SINGLE
    }

    /// The activation.
    pub fn activation(&self) -> (r: Activation)
        ensures
            r == Activation::GeluTanh,
    {
        Activation::GeluTanh
    }

    /// Whether there are norms behind attention and feed-forward network.
    pub fn has_post_norms(&self) -> (r: bool)
        ensures
            r,
    {
        true
    }

    /// Whether a layer attends to a window.
    pub fn is_sliding_window_layer(&self, layer: usize) -> (r: bool)
        requires
            layer < usize::MAX,
        ensures
            r == slides(layer as nat),
    {
        (layer + 1) % GEMMA3_SLIDING_WINDOW_PATTERN != 0
    }

    /// The base of a layer's rotary positions: the local one for a layer that
    /// attends to a window, `default_base` if the configuration has none.
    pub fn rope_base_for_layer(&self, layer: usize, default_base: u64) -> (r: u64)
        requires
            layer < usize::MAX,
        ensures
            r == if slides(layer as nat) {
                match self.config.rope_local_base {
                    Some(b) => b,
                    None => default_base,
                }
            } else {
                self.config.rope_base
            },
    {
        if self.is_sliding_window_layer(layer) {
            match self.config.rope_local_base {
                Some(b) => b,
                None => default_base,
            }
        } else {
            self.config.rope_base
        }
    }

    /// What a layer's positions are divided by: the factor of a linear scaling
    /// for a layer that attends to everything, and one otherwise.
    pub fn rope_position_divisor_for_layer(&self, layer: usize) -> (r: u64)
        requires
            layer < usize::MAX,
        ensures
            r == match self.config.rope_scaling {
                Some(rs) => if ascii_lowercase(rs.scaling_type@) == "linear"@ && !slides(
                    layer as nat,
                ) {
                    rs.factor
                } else {
                    ONE_BITS
                },
                None => ONE_BITS,
            },
    {
        match &self.config.rope_scaling {
            None => ONE_BITS,
            Some(rs) => {
                if !equal_ignoring_case(
                    &to_chars(rs.scaling_type.as_str()),
                    &to_chars("linear"),
                ) {
                    return ONE_BITS;
                }
                if self.is_sliding_window_layer(layer) {
                    ONE_BITS
                } else {
                    rs.factor
                }
            },
        }
    }

    /// What the model expects of images.
    pub fn multimodal(&self) -> (r: Option<&Gemma3MultiModal>)
        ensures
            r is Some,
    {
        Some(&Gemma3MultiModal)
    }
}

} // verus!
