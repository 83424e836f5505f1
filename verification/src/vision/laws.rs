//! What holds of the vision encoder's configuration and of what joins it to a
//! language model.
use vstd::prelude::*;

use vstd::arithmetic::div_mod::lemma_fundamental_div_mod;

use crate::error::ModelError;
use crate::gguf::loader::TensorMaps;
use crate::vision::mlp_connector::{
    connector_of, connector_tensors_placed, load_mlp_connector_from_safetensors,
    MlpConnectorWeights,
};
use crate::vision::projector::{
    load_projector_from_safetensors, projector_of, projector_tensors_placed, ProjectorWeights,
    PROJECTOR_PREFIX,
};
use crate::vision::safetensors_file::{is_matrix_of, is_vector_of, last_of_key, Decoded};
use crate::vision::vision_tower::{
    default_hidden_act, default_norm_type, default_num_channels, layer_tensor_name,
    layer_tensors_placed, load_vision_tower_from_safetensors, outer_tensors_placed, VisionConfig,
    VisionWeights, SIGLIP_VISION_TOWER_PREFIX,
};

verus! {

/// The patches of an image stand in a square: as many along each side as fit
/// beside one another.
pub proof fn patches_tile_image(c: &VisionConfig, side: usize, count: usize)
    requires
        c.patch_size > 0,
        call_ensures(VisionConfig::patches_per_side, (c,), side),
        call_ensures(VisionConfig::num_patches, (c,), count),
    ensures
        side * c.patch_size <= c.image_size < (side + 1) * c.patch_size,
        count == side * side,
{
    let p = c.patch_size as int;
    let n = c.image_size as int;
    lemma_fundamental_div_mod(n, p);
    assert(side * p <= n < (side + 1) * p) by (nonlinear_arith)
        requires
            side == n / p,
            n == p * (n / p) + n % p,
            0 <= n % p < p,
    ;
}

/// The heads share the encoder's width evenly, as far as that goes.
pub proof fn heads_share_width(c: &VisionConfig, width: usize)
    requires
        c.num_attention_heads > 0,
        call_ensures(VisionConfig::head_dim, (c,), width),
    ensures
        c.num_attention_heads * width <= c.hidden_size < c.num_attention_heads * (width + 1),
{
    let d = c.num_attention_heads as int;
    let n = c.hidden_size as int;
    lemma_fundamental_div_mod(n, d);
    assert(d * width <= n < d * (width + 1)) by (nonlinear_arith)
        requires
            width == n / d,
            n == d * (n / d) + n % d,
            0 <= n % d < d,
    ;
}

/// An encoder of the first generation has plain layer norms and the activation
/// that is taken if none is named; another norm, or one of two other
/// activations, makes it one of the second.
pub proof fn generations_told_apart(c: &VisionConfig, second: bool)
    requires
        call_ensures(VisionConfig::is_siglip2, (c,), second),
    ensures
        c.norm_type@ == "layer_norm"@ && c.hidden_act@ == "gelu_pytorch_tanh"@ ==> !second,
        c.norm_type@ == "layer_norm"@ && c.hidden_act@ != "gelu"@ && c.hidden_act@ != "silu"@
            ==> !second,
        c.norm_type@ != "layer_norm"@ ==> second,
        c.hidden_act@ == "gelu"@ || c.hidden_act@ == "silu"@ ==> second,
{
    reveal_strlit("gelu_pytorch_tanh");
    reveal_strlit("gelu");
    reveal_strlit("silu");
    assert("gelu_pytorch_tanh"@.len() == 17 && "gelu"@.len() == 4 && "silu"@.len() == 4);
}

/// A layer reads as many numbers as its matrix has columns and gives as many as
/// it has rows: the first layer reads what the encoder gives, the second gives
/// what the language model takes.
pub proof fn connector_widths(
    w: &MlpConnectorWeights,
    from: usize,
    between: usize,
    to: usize,
)
    requires
        call_ensures(MlpConnectorWeights::vision_hidden, (w,), from),
        call_ensures(MlpConnectorWeights::intermediate_size, (w,), between),
        call_ensures(MlpConnectorWeights::text_hidden, (w,), to),
    ensures
        w.fc1_weight.cols == from,
        w.fc1_weight.rows == between,
        w.fc2_weight.rows == to,
{
}

/// The projection has a row for each number of the encoder and a column for
/// each of the language model.
pub proof fn projector_widths(w: &ProjectorWeights, from: usize, to: usize)
    requires
        call_ensures(ProjectorWeights::vision_hidden, (w,), from),
        call_ensures(ProjectorWeights::text_hidden, (w,), to),
    ensures
        w.input_projection.rows == from,
        w.input_projection.cols == to,
{
}

/// The network is there exactly if each of its four tensors is.
pub proof fn connector_complete(m: TensorMaps)
    ensures
        connector_of(m) is Ok <==> m.matrices.dom().contains("linear_1.weight"@)
            && m.vectors.dom().contains("linear_1.bias"@) && m.matrices.dom().contains(
            "linear_2.weight"@,
        ) && m.vectors.dom().contains("linear_2.bias"@),
{
}

/// The projector is there exactly if its matrix and its norm's scale are.
pub proof fn projector_complete(m: TensorMaps)
    ensures
        projector_of(m) is Ok <==> m.matrices.dom().contains("mm_input_projection_weight"@)
            && m.vectors.dom().contains("mm_soft_emb_norm.weight"@),
{
}

/// What the names of the tensors start with.
pub proof fn prefixes_are()
    ensures
        SIGLIP_VISION_TOWER_PREFIX@ == "vision_tower.vision_model."@,
        PROJECTOR_PREFIX@ == "multi_modal_projector."@,
{
}

/// What a configuration that does not say it has: three channels, the smooth
/// activation and plain layer norms.
pub proof fn defaults_are(channels: usize, activation: String, norm: String)
    requires
        call_ensures(default_num_channels, (), channels),
        call_ensures(default_hidden_act, (), activation),
        call_ensures(default_norm_type, (), norm),
    ensures
        channels == 3,
        activation@ == "gelu_pytorch_tanh"@,
        norm@ == "layer_norm"@,
{
}

/// The tensors of the network stand in their places.
pub proof fn connector_loaded(
    tensors: &Vec<Decoded>,
    r: Result<MlpConnectorWeights, ModelError>,
    i: int,
)
    requires
        call_ensures(load_mlp_connector_from_safetensors, (tensors,), r),
        0 <= i < tensors@.len(),
        last_of_key(tensors@, i),
    ensures
        r matches Ok(w) ==> {
            let t = tensors@[i];
            let matrix = t.shape@.len() == 2;
            let vector = t.shape@.len() == 1;
            &&& matrix && t.key@ == "linear_1.weight"@ ==> is_matrix_of(t, w.fc1_weight@)
            &&& vector && t.key@ == "linear_1.bias"@ ==> is_vector_of(t, w.fc1_bias@)
            &&& matrix && t.key@ == "linear_2.weight"@ ==> is_matrix_of(t, w.fc2_weight@)
            &&& vector && t.key@ == "linear_2.bias"@ ==> is_vector_of(t, w.fc2_bias@)
        },
{
    if let Ok(w) = r {
        connector_tensors_placed(tensors@, w@, i);
    }
}

/// The tensors of the projector stand in their places.
pub proof fn projector_loaded(
    tensors: &Vec<Decoded>,
    r: Result<ProjectorWeights, ModelError>,
    i: int,
)
    requires
        call_ensures(load_projector_from_safetensors, (tensors,), r),
        0 <= i < tensors@.len(),
        last_of_key(tensors@, i),
    ensures
        r matches Ok(w) ==> {
            let t = tensors@[i];
            &&& t.shape@.len() == 2 && t.key@ == "mm_input_projection_weight"@ ==> is_matrix_of(
                t,
                w.input_projection@,
            )
            &&& t.shape@.len() == 1 && t.key@ == "mm_soft_emb_norm.weight"@ ==> is_vector_of(
                t,
                w.soft_emb_norm@,
            )
        },
{
    if let Ok(w) = r {
        projector_tensors_placed(tensors@, (w.input_projection@, w.soft_emb_norm@), i);
    }
}

/// The attention tensors of a layer of the encoder stand in their places: each
/// of query, key and value, by its own name.
pub proof fn tower_loaded(
    tensors: &Vec<Decoded>,
    dir: &str,
    c: VisionConfig,
    r: Result<VisionWeights, ModelError>,
    l: int,
    i: int,
)
    requires
        call_ensures(load_vision_tower_from_safetensors, (tensors, dir, c), r),
        0 <= l < c.num_hidden_layers,
        0 <= i < tensors@.len(),
        last_of_key(tensors@, i),
    ensures
        r matches Ok(w) ==> {
            let t = tensors@[i];
            let is = |rest: Seq<char>| t.key@ == layer_tensor_name(l as nat, rest);
            let matrix = t.shape@.len() == 2;
            let vector = t.shape@.len() == 1;
            let y = w@.layers[l];
            &&& matrix && is("self_attn.q_proj.weight"@) ==> is_matrix_of(t, y.q_proj.weight)
            &&& matrix && is("self_attn.k_proj.weight"@) ==> is_matrix_of(t, y.k_proj.weight)
            &&& matrix && is("self_attn.v_proj.weight"@) ==> is_matrix_of(t, y.v_proj.weight)
            &&& matrix && is("self_attn.out_proj.weight"@) ==> is_matrix_of(t, y.out_proj.weight)
            &&& vector && is("self_attn.q_proj.bias"@) ==> is_vector_of(t, y.q_proj.bias)
            &&& vector && is("self_attn.k_proj.bias"@) ==> is_vector_of(t, y.k_proj.bias)
            &&& vector && is("self_attn.v_proj.bias"@) ==> is_vector_of(t, y.v_proj.bias)
            &&& vector && is("self_attn.out_proj.bias"@) ==> is_vector_of(t, y.out_proj.bias)
            &&& matrix && is("mlp.fc1.weight"@) ==> is_matrix_of(t, y.fc1.weight)
            &&& matrix && is("mlp.fc2.weight"@) ==> is_matrix_of(t, y.fc2.weight)
            &&& vector && t.key@ == "post_layernorm.weight"@ ==> is_vector_of(
                t,
                w@.post_layernorm.weight,
            )
        },
{
    if let Ok(w) = r {
        layer_tensors_placed(tensors@, dir@, c, w@, l, i);
        outer_tensors_placed(tensors@, dir@, c, w@, i);
    }
}

} // verus!
