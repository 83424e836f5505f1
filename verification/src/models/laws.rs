//! What holds of the model families.
use vstd::arithmetic::power2::{lemma2_to64, lemma_pow2_adds, pow2};
use vstd::prelude::*;

use crate::kv::numbers::number_of;
use crate::layout::LayerKeys;
use crate::models::config::Activation;
use crate::models::deepseek::DeepSeekArch;
use crate::models::gemma3::{Gemma3Arch, Gemma3MultiModal};
use crate::models::granite::{GraniteArch, GraniteVisionMultiModal};
use crate::models::multimodal::{
    MultiModalProtocol, PlaceholderProtocol, PrecomputedScaling, TokenBudget,
};
use crate::text::{ascii_lowercase, decimal};

verus! {

/// A text that may be missing is there, and is this one.
pub open spec fn is_text(t: Option<String>, s: Seq<char>) -> bool {
    t is Some && t->0@ == s
}

/// The keys of the three projections of one expert stand under its layer and
/// its own number.
pub proof fn expert_keys_are(
    a: &DeepSeekArch,
    layer: usize,
    expert: usize,
    gate: Option<String>,
    up: Option<String>,
    down: Option<String>,
)
    requires
        call_ensures(DeepSeekArch::expert_ffn_gate_key, (a, layer, expert), gate),
        call_ensures(DeepSeekArch::expert_ffn_up_key, (a, layer, expert), up),
        call_ensures(DeepSeekArch::expert_ffn_down_key, (a, layer, expert), down),
    ensures
        ({
            let start = "layers."@ + decimal(layer as nat) + ".mlp.experts."@ + decimal(
                expert as nat,
            );
            &&& is_text(gate, start + ".gate_proj.weight"@)
            &&& is_text(up, start + ".up_proj.weight"@)
            &&& is_text(down, start + ".down_proj.weight"@)
        }),
{
    reveal_strlit("layers.");
    reveal_strlit(".");
    reveal_strlit("mlp.experts.");
    reveal_strlit(".mlp.experts.");
    reveal_strlit("_proj.weight");
    reveal_strlit("gate");
    reveal_strlit("up");
    reveal_strlit("down");
    reveal_strlit(".gate_proj.weight");
    reveal_strlit(".up_proj.weight");
    reveal_strlit(".down_proj.weight");
    let start = "layers."@ + decimal(layer as nat) + ".mlp.experts."@ + decimal(expert as nat);
    assert(gate->0@ =~= start + ".gate_proj.weight"@);
    assert(up->0@ =~= start + ".up_proj.weight"@);
    assert(down->0@ =~= start + ".down_proj.weight"@);
}

/// The keys of a layer's router, of its shared experts and of its compressed
/// queries, keys and values.
pub proof fn deepseek_keys_are(
    a: &DeepSeekArch,
    layer: usize,
    router: Option<String>,
    shared_gate: Option<String>,
    shared_up: Option<String>,
    shared_down: Option<String>,
    kv_a: Option<String>,
    kv_b: Option<String>,
    q_a: Option<String>,
    q_b: Option<String>,
)
    requires
        call_ensures(DeepSeekArch::moe_router_key, (a, layer), router),
        call_ensures(DeepSeekArch::shared_expert_gate_key, (a, layer), shared_gate),
        call_ensures(DeepSeekArch::shared_expert_up_key, (a, layer), shared_up),
        call_ensures(DeepSeekArch::shared_expert_down_key, (a, layer), shared_down),
        call_ensures(DeepSeekArch::mla_kv_a_key, (a, layer), kv_a),
        call_ensures(DeepSeekArch::mla_kv_b_key, (a, layer), kv_b),
        call_ensures(DeepSeekArch::mla_q_a_key, (a, layer), q_a),
        call_ensures(DeepSeekArch::mla_q_b_key, (a, layer), q_b),
    ensures
        is_text(router, "layers."@ + decimal(layer as nat) + ".mlp.gate.weight"@),
        is_text(shared_gate, "layers."@ + decimal(layer as nat) + ".mlp.shared_experts.gate_proj.weight"@),
        is_text(shared_up, "layers."@ + decimal(layer as nat) + ".mlp.shared_experts.up_proj.weight"@),
        is_text(shared_down, "layers."@ + decimal(layer as nat) + ".mlp.shared_experts.down_proj.weight"@),
        is_text(kv_a, "layers."@ + decimal(layer as nat) + ".self_attn.kv_a_proj_with_mqa.weight"@),
        is_text(kv_b, "layers."@ + decimal(layer as nat) + ".self_attn.kv_b_proj.weight"@),
        is_text(q_a, "layers."@ + decimal(layer as nat) + ".self_attn.q_a_proj.weight"@),
        is_text(q_b, "layers."@ + decimal(layer as nat) + ".self_attn.q_b_proj.weight"@),
{
    reveal_strlit(".");
    reveal_strlit("mlp.gate.weight");
    reveal_strlit(".mlp.gate.weight");
    reveal_strlit("mlp.shared_experts.gate_proj.weight");
    reveal_strlit(".mlp.shared_experts.gate_proj.weight");
    reveal_strlit("mlp.shared_experts.up_proj.weight");
    reveal_strlit(".mlp.shared_experts.up_proj.weight");
    reveal_strlit("mlp.shared_experts.down_proj.weight");
    reveal_strlit(".mlp.shared_experts.down_proj.weight");
    reveal_strlit("self_attn.kv_a_proj_with_mqa.weight");
    reveal_strlit(".self_attn.kv_a_proj_with_mqa.weight");
    reveal_strlit("self_attn.kv_b_proj.weight");
    reveal_strlit(".self_attn.kv_b_proj.weight");
    reveal_strlit("self_attn.q_a_proj.weight");
    reveal_strlit(".self_attn.q_a_proj.weight");
    reveal_strlit("self_attn.q_b_proj.weight");
    reveal_strlit(".self_attn.q_b_proj.weight");
    assert(router->0@ =~= "layers."@ + decimal(layer as nat) + ".mlp.gate.weight"@);
    assert(shared_gate->0@ =~= "layers."@ + decimal(layer as nat) + ".mlp.shared_experts.gate_proj.weight"@);
    assert(shared_up->0@ =~= "layers."@ + decimal(layer as nat) + ".mlp.shared_experts.up_proj.weight"@);
    assert(shared_down->0@ =~= "layers."@ + decimal(layer as nat) + ".mlp.shared_experts.down_proj.weight"@);
    assert(kv_a->0@ =~= "layers."@ + decimal(layer as nat) + ".self_attn.kv_a_proj_with_mqa.weight"@);
    assert(kv_b->0@ =~= "layers."@ + decimal(layer as nat) + ".self_attn.kv_b_proj.weight"@);
    assert(q_a->0@ =~= "layers."@ + decimal(layer as nat) + ".self_attn.q_a_proj.weight"@);
    assert(q_b->0@ =~= "layers."@ + decimal(layer as nat) + ".self_attn.q_b_proj.weight"@);
}

/// What the configuration says of experts and ranks holds; where it says
/// nothing there are 64 experts, of which 6 work on a token beside 2 shared
/// ones, and the ranks are 512 and 1536.
pub proof fn deepseek_numbers(
    a: &DeepSeekArch,
    num_experts: usize,
    num_experts_per_token: usize,
    num_shared_experts: usize,
    kv_lora_rank: usize,
    q_lora_rank: usize,
)
    requires
        call_ensures(DeepSeekArch::num_experts, (a,), num_experts),
        call_ensures(DeepSeekArch::num_experts_per_token, (a,), num_experts_per_token),
        call_ensures(DeepSeekArch::num_shared_experts, (a,), num_shared_experts),
        call_ensures(DeepSeekArch::kv_lora_rank, (a,), kv_lora_rank),
        call_ensures(DeepSeekArch::q_lora_rank, (a,), q_lora_rank),
    ensures
        a.config.num_experts matches Some(n) ==> num_experts == n,
        a.config.num_experts is None ==> num_experts == 64,
        a.config.num_experts_per_token matches Some(n) ==> num_experts_per_token == n,
        a.config.num_experts_per_token is None ==> num_experts_per_token == 6,
        a.config.num_shared_experts matches Some(n) ==> num_shared_experts == n,
        a.config.num_shared_experts is None ==> num_shared_experts == 2,
        a.config.kv_lora_rank matches Some(n) ==> kv_lora_rank == n,
        a.config.kv_lora_rank is None ==> kv_lora_rank == 512,
        a.config.q_lora_rank matches Some(n) ==> q_lora_rank == n,
        a.config.q_lora_rank is None ==> q_lora_rank == 1536,
{
}

/// A model has experts if the configuration counts at least one, and compressed
/// keys and values if it gives their rank.
pub proof fn deepseek_kind(a: &DeepSeekArch, moe: bool, mla: bool)
    requires
        call_ensures(DeepSeekArch::is_moe, (a,), moe),
        call_ensures(DeepSeekArch::uses_mla, (a,), mla),
    ensures
        a.config.num_experts is None ==> !moe,
        a.config.num_experts matches Some(n) ==> moe == (n >= 1),
        mla <==> a.config.kv_lora_rank is Some,
{
}

/// The widths of the parts of a head are those of the configuration, each its
/// own.
pub proof fn deepseek_head_parts(
    a: &DeepSeekArch,
    nope: Option<usize>,
    rope: Option<usize>,
    value: Option<usize>,
)
    requires
        call_ensures(DeepSeekArch::mla_qk_nope_head_dim, (a,), nope),
        call_ensures(DeepSeekArch::mla_qk_rope_head_dim, (a,), rope),
        call_ensures(DeepSeekArch::mla_v_head_dim, (a,), value),
    ensures
        nope == a.config.qk_nope_head_dim,
        rope == a.config.qk_rope_head_dim,
        value == a.config.v_head_dim,
{
}

/// The layers 5, 11, 17 and so on attend to everything and have the global base
/// and the scaling of the positions, if it is linear; all others attend to a
/// window, have the local base, and their positions are not divided.
pub proof fn every_sixth_layer_is_global(
    a: &Gemma3Arch,
    layer: usize,
    default_base: u64,
    sliding: bool,
    base: u64,
    divisor: u64,
)
    requires
        call_ensures(Gemma3Arch::is_sliding_window_layer, (a, layer), sliding),
        call_ensures(Gemma3Arch::rope_base_for_layer, (a, layer, default_base), base),
        call_ensures(Gemma3Arch::rope_position_divisor_for_layer, (a, layer), divisor),
    ensures
        sliding <==> layer % 6 != 5,
        layer % 6 == 5 ==> base == a.config.rope_base,
        layer % 6 != 5 && a.config.rope_local_base is None ==> base == default_base,
        layer % 6 != 5 ==> (a.config.rope_local_base matches Some(b) ==> base == b),
        layer % 6 == 5 ==> (a.config.rope_scaling matches Some(s) ==> (ascii_lowercase(
            s.scaling_type@,
        ) == "linear"@ ==> divisor == s.factor)),
        a.config.rope_scaling matches Some(s) ==> (ascii_lowercase(s.scaling_type@) != "linear"@
            ==> divisor == 0x3FF0_0000_0000_0000u64),
        a.config.rope_scaling is None ==> divisor == 0x3FF0_0000_0000_0000u64,
        layer % 6 != 5 ==> divisor == 0x3FF0_0000_0000_0000u64,
{
}

/// The keys of a layer's norms of queries and keys.
pub proof fn gemma3_norm_keys(a: &Gemma3Arch, layer: usize, q: Option<String>, k: Option<String>)
    requires
        call_ensures(Gemma3Arch::attn_q_norm_key, (a, layer), q),
        call_ensures(Gemma3Arch::attn_k_norm_key, (a, layer), k),
    ensures
        is_text(q, "layers."@ + decimal(layer as nat) + ".self_attn.q_norm.weight"@),
        is_text(k, "layers."@ + decimal(layer as nat) + ".self_attn.k_norm.weight"@),
{
    reveal_strlit(".");
    reveal_strlit("self_attn.q_norm.weight");
    reveal_strlit(".self_attn.q_norm.weight");
    reveal_strlit("self_attn.k_norm.weight");
    reveal_strlit(".self_attn.k_norm.weight");
    assert(q->0@ =~= "layers."@ + decimal(layer as nat) + ".self_attn.q_norm.weight"@);
    assert(k->0@ =~= "layers."@ + decimal(layer as nat) + ".self_attn.k_norm.weight"@);
}

/// An image takes 256 places between a start and an end for Gemma 3, and 729
/// for each tile, of which there are one to six, for Granite, which marks
/// neither start nor end.
pub proof fn places_for_images(
    g: &Gemma3MultiModal,
    v: &GraniteVisionMultiModal,
    gemma_marks: Option<PlaceholderProtocol>,
    gemma_places: TokenBudget,
    granite_marks: Option<PlaceholderProtocol>,
    granite_places: TokenBudget,
)
    requires
        call_ensures(Gemma3MultiModal::image_placeholder, (g,), gemma_marks),
        call_ensures(Gemma3MultiModal::image_token_budget, (g,), gemma_places),
        call_ensures(GraniteVisionMultiModal::image_placeholder, (v,), granite_marks),
        call_ensures(GraniteVisionMultiModal::image_token_budget, (v,), granite_places),
    ensures
        gemma_marks matches Some(m) && m.start is Some && m.end is Some && m.start != m.end
            && m.start->0 != m.fill && m.end->0 != m.fill,
        gemma_places matches TokenBudget::Fixed(n) && n == 16 * 16,
        granite_marks matches Some(m) && m.start is None && m.end is None,
        granite_places matches TokenBudget::PerTile { tokens_per_tile } && tokens_per_tile
            == 27 * 27,
{
}

/// A Granite model takes images exactly if its configuration has a part for
/// vision, and has the name that the configuration gives.
pub proof fn granite_takes_images(
    a: &GraniteArch,
    name: &str,
    images: Option<&GraniteVisionMultiModal>,
)
    requires
        call_ensures(GraniteArch::family, (a,), name),
        call_ensures(GraniteArch::multimodal, (a,), images),
    ensures
        name@ == a.config.model_type@,
        images is Some <==> a.config.has_vision_config,
{
}

/// The keys of a layer with separate projections and one dense network.
pub proof fn standard_keys_are(n: usize, k: LayerKeys)
    requires
        call_ensures(LayerKeys::standard, (n,), k),
    ensures
        k.attn_q@ == "layers."@ + decimal(n as nat) + ".self_attn.q_proj.weight"@,
        k.attn_k@ == "layers."@ + decimal(n as nat) + ".self_attn.k_proj.weight"@,
        k.attn_v@ == "layers."@ + decimal(n as nat) + ".self_attn.v_proj.weight"@,
        k.attn_o@ == "layers."@ + decimal(n as nat) + ".self_attn.o_proj.weight"@,
        k.ffn_gate@ == "layers."@ + decimal(n as nat) + ".mlp.gate_proj.weight"@,
        k.ffn_up@ == "layers."@ + decimal(n as nat) + ".mlp.up_proj.weight"@,
        k.ffn_down@ == "layers."@ + decimal(n as nat) + ".mlp.down_proj.weight"@,
        k.experts@.len() == 0 && k.fused_qkv is None,
{
    reveal_strlit(".");
    reveal_strlit("self_attn.q_proj.weight");
    reveal_strlit(".self_attn.q_proj.weight");
    reveal_strlit("self_attn.k_proj.weight");
    reveal_strlit(".self_attn.k_proj.weight");
    reveal_strlit("self_attn.v_proj.weight");
    reveal_strlit(".self_attn.v_proj.weight");
    reveal_strlit("self_attn.o_proj.weight");
    reveal_strlit(".self_attn.o_proj.weight");
    reveal_strlit("mlp.gate_proj.weight");
    reveal_strlit(".mlp.gate_proj.weight");
    reveal_strlit("mlp.up_proj.weight");
    reveal_strlit(".mlp.up_proj.weight");
    reveal_strlit("mlp.down_proj.weight");
    reveal_strlit(".mlp.down_proj.weight");
    assert(k.attn_q@ =~= "layers."@ + decimal(n as nat) + ".self_attn.q_proj.weight"@);
    assert(k.attn_k@ =~= "layers."@ + decimal(n as nat) + ".self_attn.k_proj.weight"@);
    assert(k.attn_v@ =~= "layers."@ + decimal(n as nat) + ".self_attn.v_proj.weight"@);
    assert(k.attn_o@ =~= "layers."@ + decimal(n as nat) + ".self_attn.o_proj.weight"@);
    assert(k.ffn_gate@ =~= "layers."@ + decimal(n as nat) + ".mlp.gate_proj.weight"@);
    assert(k.ffn_up@ =~= "layers."@ + decimal(n as nat) + ".mlp.up_proj.weight"@);
    assert(k.ffn_down@ =~= "layers."@ + decimal(n as nat) + ".mlp.down_proj.weight"@);
}

/// Gemma 3 adds one to the weights of its norms, and has norms behind its
/// blocks.
pub proof fn gemma3_norms(a: &Gemma3Arch, layers: u32, heads: u32, behind: bool)
    requires
        call_ensures(Gemma3Arch::norm_weight_offset, (a,), layers),
        call_ensures(Gemma3Arch::qk_norm_weight_offset, (a,), heads),
        call_ensures(Gemma3Arch::has_post_norms, (a,), behind),
    ensures
        number_of(layers) == pow2(149),
        heads == layers,
        behind,
{
    lemma2_to64();
    lemma_pow2_adds(23, 126);
    let one: u32 = 0x3F80_0000;
    assert(one as nat / 0x80_0000 == 127 && one as nat % 0x80_0000 == 0);
    assert(number_of(one) == 0x80_0000 * pow2(126));
}

/// The encoders of images, the marks of their places, and that the embeddings of
/// images are not scaled once more; the activation of Gemma 3 is the smooth one.
pub proof fn images_encoded(
    a: &Gemma3Arch,
    g: &Gemma3MultiModal,
    v: &GraniteVisionMultiModal,
    activation: Activation,
    gemma: Option<&str>,
    granite: Option<&str>,
    gemma_marks: Option<PlaceholderProtocol>,
    granite_marks: Option<PlaceholderProtocol>,
    gemma_scaling: PrecomputedScaling,
    granite_scaling: PrecomputedScaling,
)
    requires
        call_ensures(Gemma3Arch::activation, (a,), activation),
        call_ensures(Gemma3MultiModal::vision_encoder, (g,), gemma),
        call_ensures(GraniteVisionMultiModal::vision_encoder, (v,), granite),
        call_ensures(Gemma3MultiModal::image_placeholder, (g,), gemma_marks),
        call_ensures(GraniteVisionMultiModal::image_placeholder, (v,), granite_marks),
        call_ensures(Gemma3MultiModal::precomputed_scaling, (g,), gemma_scaling),
        call_ensures(GraniteVisionMultiModal::precomputed_scaling, (v,), granite_scaling),
    ensures
        activation == Activation::GeluTanh,
        gemma matches Some(s) && s@ == "siglip"@,
        granite matches Some(s) && s@ == "siglip2"@,
        gemma_marks matches Some(m) && m.start == Some(255999u32) && m.fill == 262144 && m.end
            == Some(256000u32),
        granite_marks matches Some(m) && m.fill == 49152,
        gemma_scaling == PrecomputedScaling::Unscaled,
        granite_scaling == PrecomputedScaling::Unscaled,
{
}

/// The tiles of an image that Granite takes: one to six.
pub proof fn granite_takes_one_to_six_tiles(v: &GraniteVisionMultiModal, counts: &[usize], i: int)
    requires
        call_ensures(GraniteVisionMultiModal::valid_tile_counts, (v,), counts),
    ensures
        counts@.len() == 6,
        0 <= i < 6 ==> counts@[i] == i + 1,
{
}

} // verus!
