//! A vision encoder: its configuration and its weights.
//!
//! A number with a fraction is held by its bit pattern.
use vstd::arithmetic::div_mod::lemma_fundamental_div_mod;
use vstd::prelude::*;

use crate::error::{Fault, ModelError};
use crate::gguf::loader::{TensorMaps, Tensors};
use crate::gguf::orient::{grids, rows_of};
use crate::tensor::{shape_fault, shaped, Grid, Matrix};
use crate::text::{
    concat, concat3, decimal, decimal_is_digits, decimal_reads_back, decimal_string, has_prefix,
    is_digit, join, joined, same, texts,
};
use crate::vision::safetensors_file::{
    gather, gathered, gathered_under_key, gathering_fault_is_parse, is_matrix_of, is_vector_of,
    last_of_key, nothing, patch_view, Decoded, Gathered, GatheredView,
};

verus! {

/// What the names of the encoder's tensors start with.
pub const SIGLIP_VISION_TOWER_PREFIX: &'static str = "vision_tower.vision_model.";

/// The configuration of a vision encoder.
#[derive(Debug, Clone)]
pub struct VisionConfig {
    pub hidden_size: usize,
    pub intermediate_size: usize,
    pub num_attention_heads: usize,
    pub num_hidden_layers: usize,
    pub patch_size: usize,
    pub image_size: usize,
    pub num_channels: usize,
    pub layer_norm_eps: u64,
    pub hidden_act: String,
    pub norm_type: String,
}

/// The number of channels if the configuration does not say.
pub fn default_num_channels() -> (r: usize)
    ensures
        r == 3,
{
    3
}

/// The activation if the configuration does not say.
pub fn default_hidden_act() -> (r: String)
    ensures
        r@ == "gelu_pytorch_tanh"@,
{
    "gelu_pytorch_tanh".to_owned()
}

/// The kind of norm if the configuration does not say.
pub fn default_norm_type() -> (r: String)
    ensures
        r@ == "layer_norm"@,
{
    "layer_norm".to_owned()
}

impl VisionConfig {
    /// The number of patches along one side of an image.
    pub fn patches_per_side(&self) -> (r: usize)
        requires
            self.patch_size > 0,
        ensures
            r == self.image_size / self.patch_size,
    {
        self.image_size / self.patch_size
    }

    /// The number of patches of an image.
    pub fn num_patches(&self) -> (r: usize)
        requires
            self.patch_size > 0,
            (self.image_size / self.patch_size) * (self.image_size / self.patch_size)
                <= usize::MAX,
        ensures
            r == (self.image_size / self.patch_size) * (self.image_size / self.patch_size),
    {
        let s = self.patches_per_side();
        s * s
    }

    /// The width of one attention head.
    pub fn head_dim(&self) -> (r: usize)
        requires
            self.num_attention_heads > 0,
        ensures
            r == self.hidden_size / self.num_attention_heads,
    {
        self.hidden_size / self.num_attention_heads
    }

    /// Whether the encoder is of the second generation.
    pub fn is_siglip2(&self) -> (r: bool)
        ensures
            r == (self.norm_type@ != "layer_norm"@ || self.hidden_act@ == "gelu"@
                || self.hidden_act@ == "silu"@),
    {
        !same(self.norm_type.as_str(), "layer_norm") || same(self.hidden_act.as_str(), "gelu")
            || same(self.hidden_act.as_str(), "silu")
    }
}

/// A projection with its bias.
#[derive(Debug)]
pub struct ProjWithBias {
    pub weight: Matrix,
    pub bias: Vec<u32>,
}

/// A norm's scale and its bias.
#[derive(Debug)]
pub struct LayerNormWeights {
    pub weight: Vec<u32>,
    pub bias: Vec<u32>,
}

/// The weights of one layer.
#[derive(Debug)]
pub struct VisionLayerWeights {
    pub layer_norm1: LayerNormWeights,
    pub q_proj: ProjWithBias,
    pub k_proj: ProjWithBias,
    pub v_proj: ProjWithBias,
    pub out_proj: ProjWithBias,
    pub layer_norm2: LayerNormWeights,
    pub fc1: ProjWithBias,
    pub fc2: ProjWithBias,
}

/// An array with four extents.
#[derive(Debug)]
pub struct PatchArray {
    pub shape: Vec<usize>,
    pub data: Vec<u32>,
}

/// The weights of a vision encoder.
#[derive(Debug)]
pub struct VisionWeights {
    pub config: VisionConfig,
    pub patch_embed: PatchArray,
    pub patch_embed_bias: Vec<u32>,
    pub position_embed: Matrix,
    pub layers: Vec<VisionLayerWeights>,
    pub post_layernorm: LayerNormWeights,
}

/// A [`ProjWithBias`], as plain values.
pub struct ProjView {
    pub weight: Grid,
    pub bias: Seq<u32>,
}

/// A [`LayerNormWeights`], as plain values.
pub struct NormView {
    pub weight: Seq<u32>,
    pub bias: Seq<u32>,
}

/// A [`VisionLayerWeights`], as plain values.
pub struct LayerView {
    pub layer_norm1: NormView,
    pub q_proj: ProjView,
    pub k_proj: ProjView,
    pub v_proj: ProjView,
    pub out_proj: ProjView,
    pub layer_norm2: NormView,
    pub fc1: ProjView,
    pub fc2: ProjView,
}

/// The weights of a vision encoder, as plain values.
#[verifier::ext_equal]
pub struct TowerView {
    pub config: VisionConfig,
    pub patch_shape: Seq<usize>,
    pub patch_data: Seq<u32>,
    pub patch_embed_bias: Seq<u32>,
    pub position_embed: Grid,
    pub layers: Seq<LayerView>,
    pub post_layernorm: NormView,
}

impl View for ProjWithBias {
    type V = ProjView;

    open spec fn view(&self) -> ProjView {
        ProjView { weight: self.weight@, bias: self.bias@ }
    }
}

impl View for LayerNormWeights {
    type V = NormView;

    open spec fn view(&self) -> NormView {
        NormView { weight: self.weight@, bias: self.bias@ }
    }
}

impl View for VisionLayerWeights {
    type V = LayerView;

    open spec fn view(&self) -> LayerView {
        LayerView {
            layer_norm1: self.layer_norm1@,
            q_proj: self.q_proj@,
            k_proj: self.k_proj@,
            v_proj: self.v_proj@,
            out_proj: self.out_proj@,
            layer_norm2: self.layer_norm2@,
            fc1: self.fc1@,
            fc2: self.fc2@,
        }
    }
}

/// What a list of layers holds.
pub open spec fn layer_views(v: Seq<VisionLayerWeights>) -> Seq<LayerView> {
    v.map_values(|l: VisionLayerWeights| l@)
}

impl View for VisionWeights {
    type V = TowerView;

    open spec fn view(&self) -> TowerView {
        TowerView {
            config: self.config,
            patch_shape: self.patch_embed.shape@,
            patch_data: self.patch_embed.data@,
            patch_embed_bias: self.patch_embed_bias@,
            position_embed: self.position_embed@,
            layers: layer_views(self.layers@),
            post_layernorm: self.post_layernorm@,
        }
    }
}

/// What is said of a matrix that is missing.
pub open spec fn matrix_gap(m: TensorMaps, key: Seq<char>) -> Option<Fault> {
    if m.matrices.dom().contains(key) {
        None
    } else {
        Some(Fault::Parse("missing vision_tower tensor: "@ + key))
    }
}

/// What is said of a vector that is missing.
pub open spec fn vector_gap(m: TensorMaps, key: Seq<char>) -> Option<Fault> {
    if m.vectors.dom().contains(key) {
        None
    } else {
        Some(Fault::Parse("missing vision_tower vector: "@ + key))
    }
}

/// The first of two gaps.
pub open spec fn first_gap(a: Option<Fault>, b: Option<Fault>) -> Option<Fault> {
    match a {
        Some(_) => a,
        None => b,
    }
}

/// What is missing of a norm.
pub open spec fn norm_gap(m: TensorMaps, base: Seq<char>) -> Option<Fault> {
    first_gap(vector_gap(m, base + ".weight"@), vector_gap(m, base + ".bias"@))
}

/// What is missing of a projection.
pub open spec fn proj_gap(m: TensorMaps, base: Seq<char>) -> Option<Fault> {
    first_gap(matrix_gap(m, base + ".weight"@), vector_gap(m, base + ".bias"@))
}

/// The norm under `base`.
pub open spec fn norm_at(m: TensorMaps, base: Seq<char>) -> NormView {
    NormView { weight: m.vectors[base + ".weight"@], bias: m.vectors[base + ".bias"@] }
}

/// The projection under `base`.
pub open spec fn proj_at(m: TensorMaps, base: Seq<char>) -> ProjView {
    ProjView { weight: m.matrices[base + ".weight"@], bias: m.vectors[base + ".bias"@] }
}

/// What the keys of layer `l` start with.
pub open spec fn layer_prefix(l: nat) -> Seq<char> {
    "encoder.layers."@ + decimal(l) + "."@
}

/// What is missing first of layer `l`.
pub open spec fn layer_gap(m: TensorMaps, l: nat) -> Option<Fault> {
    let p = layer_prefix(l);
    first_gap(
        norm_gap(m, p + "layer_norm1"@),
        first_gap(
            proj_gap(m, p + "self_attn.q_proj"@),
            first_gap(
                proj_gap(m, p + "self_attn.k_proj"@),
                first_gap(
                    proj_gap(m, p + "self_attn.v_proj"@),
                    first_gap(
                        proj_gap(m, p + "self_attn.out_proj"@),
                        first_gap(
                            norm_gap(m, p + "layer_norm2"@),
                            first_gap(proj_gap(m, p + "mlp.fc1"@), proj_gap(m, p + "mlp.fc2"@)),
                        ),
                    ),
                ),
            ),
        ),
    )
}

/// Layer `l`, each tensor under its key.
pub open spec fn layer_at(m: TensorMaps, l: nat) -> LayerView {
    let p = layer_prefix(l);
    LayerView {
        layer_norm1: norm_at(m, p + "layer_norm1"@),
        q_proj: proj_at(m, p + "self_attn.q_proj"@),
        k_proj: proj_at(m, p + "self_attn.k_proj"@),
        v_proj: proj_at(m, p + "self_attn.v_proj"@),
        out_proj: proj_at(m, p + "self_attn.out_proj"@),
        layer_norm2: norm_at(m, p + "layer_norm2"@),
        fc1: proj_at(m, p + "mlp.fc1"@),
        fc2: proj_at(m, p + "mlp.fc2"@),
    }
}

/// What is missing first of the first `n` layers.
pub open spec fn layers_gap(m: TensorMaps, n: nat) -> Option<Fault>
    decreases n,
{
    if n == 0 {
        None
    } else {
        first_gap(layers_gap(m, (n - 1) as nat), layer_gap(m, (n - 1) as nat))
    }
}

/// What is wrong with the patch tensor.
pub open spec fn patch_gap(patch: Option<(Seq<u32>, Seq<usize>)>) -> Option<Fault> {
    match patch {
        None => Some(Fault::Parse("missing embeddings.patch_embedding.weight (rank-4)"@)),
        Some((data, shape)) => if shape.len() != 4 {
            Some(
                Fault::Parse(
                    "patch_embedding.weight expected rank 4, got shape "@ + shape_text(shape),
                ),
            )
        } else {
            match shape_fault(shape, data.len()) {
                Some(e) => Some(Fault::Parse(e)),
                None => None,
            }
        },
    }
}

/// A list of extents as text.
pub open spec fn shape_text(shape: Seq<usize>) -> Seq<char> {
    "["@ + joined(shape.map_values(|d: usize| decimal(d as nat)), ", "@) + "]"@
}

/// What is wrong first with the tensors of an encoder with `n` layers.
pub open spec fn tower_gap(g: GatheredView, n: nat) -> Option<Fault> {
    first_gap(
        patch_gap(g.patch),
        first_gap(
            vector_gap(g.maps, "embeddings.patch_embedding.bias"@),
            first_gap(
                matrix_gap(g.maps, "embeddings.position_embedding.weight"@),
                first_gap(norm_gap(g.maps, "post_layernorm"@), layers_gap(g.maps, n)),
            ),
        ),
    )
}

/// The encoder of a configuration, each tensor under its key.
pub open spec fn tower_at(g: GatheredView, c: VisionConfig) -> TowerView {
    TowerView {
        config: c,
        patch_shape: (g.patch->0).1,
        patch_data: (g.patch->0).0,
        patch_embed_bias: g.maps.vectors["embeddings.patch_embedding.bias"@],
        position_embed: g.maps.matrices["embeddings.position_embedding.weight"@],
        layers: Seq::new(c.num_hidden_layers as nat, |l: int| layer_at(g.maps, l as nat)),
        post_layernorm: norm_at(g.maps, "post_layernorm"@),
    }
}

/// The number of patches of an image; none if patches have no size.
pub open spec fn patch_count(c: VisionConfig) -> nat {
    if c.patch_size == 0 {
        0
    } else {
        (c.image_size as nat / c.patch_size as nat) * (c.image_size as nat / c.patch_size as nat)
    }
}

/// The projection has `outputs` rows of `inputs` numbers, and a bias for each
/// row.
pub open spec fn proj_fits(p: ProjView, outputs: nat, inputs: nat) -> bool {
    p.weight.rows == outputs && p.weight.cols == inputs && p.bias.len() == outputs
}

/// The norm has a scale and a bias for each of `n` numbers.
pub open spec fn norm_fits(v: NormView, n: nat) -> bool {
    v.weight.len() == n && v.bias.len() == n
}

/// The layer has the shapes that the configuration asks for.
pub open spec fn layer_fits(v: LayerView, c: VisionConfig) -> bool {
    let h = c.hidden_size as nat;
    let inner = c.intermediate_size as nat;
    &&& norm_fits(v.layer_norm1, h)
    &&& proj_fits(v.q_proj, h, h)
    &&& proj_fits(v.k_proj, h, h)
    &&& proj_fits(v.v_proj, h, h)
    &&& proj_fits(v.out_proj, h, h)
    &&& norm_fits(v.layer_norm2, h)
    &&& proj_fits(v.fc1, inner, h)
    &&& proj_fits(v.fc2, h, inner)
}

/// The shape of the patch tensor that the configuration asks for.
pub open spec fn patch_shape_of(c: VisionConfig) -> Seq<usize> {
    seq![c.hidden_size, c.num_channels, c.patch_size, c.patch_size]
}

/// What stands around the layers has the shapes that the configuration asks
/// for.
pub open spec fn embedding_fits(w: TowerView, c: VisionConfig) -> bool {
    let h = c.hidden_size as nat;
    &&& w.patch_shape == patch_shape_of(c)
    &&& w.patch_embed_bias.len() == h
    &&& w.position_embed.rows == patch_count(c)
    &&& w.position_embed.cols == h
    &&& norm_fits(w.post_layernorm, h)
}

/// Every tensor has the shape that the configuration asks for.
pub open spec fn tower_fits(w: TowerView, c: VisionConfig) -> bool {
    &&& embedding_fits(w, c)
    &&& w.layers.len() == c.num_hidden_layers
    &&& forall|l: int| 0 <= l < w.layers.len() ==> layer_fits(#[trigger] w.layers[l], c)
}

/// What is said of tensors whose shapes are not those of the configuration.
pub open spec fn shape_mismatch() -> Fault {
    Fault::Parse("vision_tower tensor shapes do not match the configuration"@)
}

/// The encoder that the tensors hold, or what is wrong first: a tensor that is
/// missing, then a shape that is not the configuration's.
pub open spec fn tower_of(g: GatheredView, c: VisionConfig) -> Result<TowerView, Fault> {
    let n = c.num_hidden_layers as nat;
    match tower_gap(g, n) {
        Some(e) => Err(e),
        None => if tower_fits(tower_at(g, c), c) {
            Ok(tower_at(g, c))
        } else {
            Err(shape_mismatch())
        },
    }
}

/// The tables hold the same under `k`.
pub open spec fn agree_at(a: TensorMaps, b: TensorMaps, k: Seq<char>) -> bool {
    &&& a.matrices.dom().contains(k) == b.matrices.dom().contains(k)
    &&& a.vectors.dom().contains(k) == b.vectors.dom().contains(k)
    &&& a.matrices.dom().contains(k) ==> a.matrices[k] == b.matrices[k]
    &&& a.vectors.dom().contains(k) ==> a.vectors[k] == b.vectors[k]
}

/// Takes a matrix out of the tables.
fn take_tensor(tables: &mut Tensors, key: &str) -> (r: Result<Matrix, ModelError>)
    requires
        old(tables).wf(),
    ensures
        final(tables).wf(),
        final(tables)@.matrices == old(tables)@.matrices.remove(key@),
        final(tables)@.vectors == old(tables)@.vectors,
        match r {
            Ok(m) => matrix_gap(old(tables)@, key@) is None && m@ == old(tables)@.matrices[key@]
                && m.wf(),
            Err(e) => matrix_gap(old(tables)@, key@) == Some(e@),
        },
{
    let ghost before = tables.matrices@;
    let taken = tables.matrices.remove(key);
    assert(grids(tables.matrices@) =~= grids(before).remove(key@));
    assert(grids(before).dom().contains(key@) == before.dom().contains(key@));
    match taken {
        Some(m) => Ok(m),
        None => Err(ModelError::Parse(concat("missing vision_tower tensor: ", key))),
    }
}

/// Takes a vector out of the tables.
fn take_vec(tables: &mut Tensors, key: &str) -> (r: Result<Vec<u32>, ModelError>)
    requires
        old(tables).wf(),
    ensures
        final(tables).wf(),
        final(tables)@.matrices == old(tables)@.matrices,
        final(tables)@.vectors == old(tables)@.vectors.remove(key@),
        match r {
            Ok(v) => vector_gap(old(tables)@, key@) is None && v@ == old(tables)@.vectors[key@],
            Err(e) => vector_gap(old(tables)@, key@) == Some(e@),
        },
{
    let ghost before = tables.vectors@;
    let taken = tables.vectors.remove(key);
    assert(rows_of(tables.vectors@) =~= rows_of(before).remove(key@));
    assert(rows_of(before).dom().contains(key@) == before.dom().contains(key@));
    match taken {
        Some(v) => Ok(v),
        None => Err(ModelError::Parse(concat("missing vision_tower vector: ", key))),
    }
}

/// The two keys under a base are not the same.
proof fn weight_is_not_bias(base: Seq<char>)
    ensures
        base + ".weight"@ != base + ".bias"@,
{
    reveal_strlit(".weight");
    reveal_strlit(".bias");
    assert((base + ".weight"@).len() != (base + ".bias"@).len());
}

/// Takes a norm out of the tables.
fn take_norm(tables: &mut Tensors, base: &str) -> (r: Result<LayerNormWeights, ModelError>)
    requires
        old(tables).wf(),
    ensures
        final(tables).wf(),
        match r {
            Ok(n) => {
                &&& norm_gap(old(tables)@, base@) is None
                &&& n@ == norm_at(old(tables)@, base@)
                &&& only_under(final(tables)@, old(tables)@, base@)
            },
            Err(e) => norm_gap(old(tables)@, base@) == Some(e@),
        },
{
    proof {
        weight_is_not_bias(base@);
    }
    let weight_key = concat(base, ".weight");
    let bias_key = concat(base, ".bias");
    let weight = take_vec(tables, weight_key.as_str())?;
    let bias = take_vec(tables, bias_key.as_str())?;
    Ok(LayerNormWeights { weight, bias })
}

/// Takes a projection out of the tables.
fn take_proj(tables: &mut Tensors, base: &str) -> (r: Result<ProjWithBias, ModelError>)
    requires
        old(tables).wf(),
    ensures
        final(tables).wf(),
        match r {
            Ok(p) => {
                &&& proj_gap(old(tables)@, base@) is None
                &&& p@ == proj_at(old(tables)@, base@)
                &&& p.weight.wf()
                &&& only_under(final(tables)@, old(tables)@, base@)
            },
            Err(e) => proj_gap(old(tables)@, base@) == Some(e@),
        },
{
    let weight_key = concat(base, ".weight");
    let bias_key = concat(base, ".bias");
    let weight = take_tensor(tables, weight_key.as_str())?;
    let bias = take_vec(tables, bias_key.as_str())?;
    Ok(ProjWithBias { weight, bias })
}

/// The tables hold the same under the two keys of a base.
pub open spec fn agree_under(a: TensorMaps, b: TensorMaps, base: Seq<char>) -> bool {
    agree_at(a, b, base + ".weight"@) && agree_at(a, b, base + ".bias"@)
}

/// Nothing but what stands under the two keys of a base has gone.
pub open spec fn only_under(after: TensorMaps, before: TensorMaps, base: Seq<char>) -> bool {
    forall|k: Seq<char>|
        k != base + ".weight"@ && k != base + ".bias"@ ==> #[trigger] agree_at(after, before, k)
}

/// The parts of a layer, in the order in which they are taken.
pub open spec fn part_name(i: int) -> Seq<char> {
    if i == 0 {
        "layer_norm1"@
    } else if i == 1 {
        "self_attn.q_proj"@
    } else if i == 2 {
        "self_attn.k_proj"@
    } else if i == 3 {
        "self_attn.v_proj"@
    } else if i == 4 {
        "self_attn.out_proj"@
    } else if i == 5 {
        "layer_norm2"@
    } else if i == 6 {
        "mlp.fc1"@
    } else {
        "mlp.fc2"@
    }
}

/// No two parts have the same name.
proof fn part_names_differ(i: int, j: int)
    requires
        0 <= i < j < 8,
    ensures
        part_name(i) != part_name(j),
{
    reveal_strlit("layer_norm1");
    reveal_strlit("self_attn.q_proj");
    reveal_strlit("self_attn.k_proj");
    reveal_strlit("self_attn.v_proj");
    reveal_strlit("self_attn.out_proj");
    reveal_strlit("layer_norm2");
    reveal_strlit("mlp.fc1");
    reveal_strlit("mlp.fc2");
    let a = part_name(i);
    let b = part_name(j);
    if a.len() == b.len() {
        if a.len() == 11 {
            assert(a[10] != b[10]);
        } else if a.len() == 16 {
            assert(a[10] != b[10]);
        } else {
            assert(a[6] != b[6]);
        }
    }
}

/// Keys under different bases are different.
proof fn bases_apart(a: Seq<char>, b: Seq<char>)
    requires
        a != b,
    ensures
        a + ".weight"@ != b + ".weight"@,
        a + ".weight"@ != b + ".bias"@,
        a + ".bias"@ != b + ".weight"@,
        a + ".bias"@ != b + ".bias"@,
{
    reveal_strlit(".weight");
    reveal_strlit(".bias");
    assert((a + ".weight"@).last() == 't');
    assert((b + ".weight"@).last() == 't');
    assert((a + ".bias"@).last() == 's');
    assert((b + ".bias"@).last() == 's');
    if a + ".weight"@ == b + ".weight"@ {
        assert(a =~= (a + ".weight"@).take(a.len() as int));
        assert(b =~= (b + ".weight"@).take(b.len() as int));
        assert((a + ".weight"@).len() == a.len() + 7);
        assert((b + ".weight"@).len() == b.len() + 7);
    }
    if a + ".bias"@ == b + ".bias"@ {
        assert(a =~= (a + ".bias"@).take(a.len() as int));
        assert(b =~= (b + ".bias"@).take(b.len() as int));
        assert((a + ".bias"@).len() == a.len() + 5);
        assert((b + ".bias"@).len() == b.len() + 5);
    }
}

/// Taking part `i` of a layer leaves the parts behind it, and everything
/// outside the layer.
proof fn part_taken(orig: TensorMaps, before: TensorMaps, after: TensorMaps, p: Seq<char>, i: int)
    requires
        0 <= i < 8,
        forall|j: int| i <= j < 8 ==> agree_under(before, orig, p + #[trigger] part_name(j)),
        forall|k: Seq<char>| !has_prefix(k, p) ==> #[trigger] agree_at(before, orig, k),
        only_under(after, before, p + part_name(i)),
    ensures
        forall|j: int| i < j < 8 ==> agree_under(after, orig, p + #[trigger] part_name(j)),
        forall|k: Seq<char>| !has_prefix(k, p) ==> #[trigger] agree_at(after, orig, k),
{
    let base = p + part_name(i);
    assert forall|j: int| i < j < 8 implies agree_under(after, orig, p + #[trigger] part_name(j)) by {
        let other = p + part_name(j);
        part_names_differ(i, j);
        assert(base.skip(p.len() as int) =~= part_name(i));
        assert(other.skip(p.len() as int) =~= part_name(j));
        bases_apart(base, other);
        assert(agree_at(after, before, other + ".weight"@));
        assert(agree_at(after, before, other + ".bias"@));
    }
    assert forall|k: Seq<char>| !has_prefix(k, p) implies #[trigger] agree_at(after, orig, k) by {
        let w = base + ".weight"@;
        let b = base + ".bias"@;
        assert(w.subrange(0, p.len() as int) =~= p);
        assert(b.subrange(0, p.len() as int) =~= p);
        assert(has_prefix(w, p) && has_prefix(b, p));
        assert(agree_at(after, before, k));
        assert(agree_at(before, orig, k));
    }
}

/// Takes layer `l` out of the tables.
fn take_layer(l: usize, tables: &mut Tensors) -> (r: Result<VisionLayerWeights, ModelError>)
    requires
        old(tables).wf(),
    ensures
        final(tables).wf(),
        match r {
            Ok(w) => {
                &&& layer_gap(old(tables)@, l as nat) is None
                &&& w@ == layer_at(old(tables)@, l as nat)
                &&& forall|k: Seq<char>|
                    !has_prefix(k, layer_prefix(l as nat)) ==> #[trigger] agree_at(
                        final(tables)@,
                        old(tables)@,
                        k,
                    )
            },
            Err(e) => layer_gap(old(tables)@, l as nat) == Some(e@),
        },
{
    let ghost orig = tables@;
    let ghost p = layer_prefix(l as nat);
    let number = decimal_string(l as u64);
    let prefix = concat3("encoder.layers.", number.as_str(), ".");
    proof {
        assert forall|k: Seq<char>| !has_prefix(k, p) implies #[trigger] agree_at(orig, orig, k) by {}
    }
    let layer_norm1 = take_norm(tables, concat(prefix.as_str(), "layer_norm1").as_str())?;
    let ghost m1 = tables@;
    proof {
        part_taken(orig, orig, m1, p, 0);
        assert(agree_under(m1, orig, p + part_name(1)));
    }
    let q_proj = take_proj(tables, concat(prefix.as_str(), "self_attn.q_proj").as_str())?;
    let ghost m2 = tables@;
    proof {
        part_taken(orig, m1, m2, p, 1);
        assert(agree_under(m2, orig, p + part_name(2)));
    }
    let k_proj = take_proj(tables, concat(prefix.as_str(), "self_attn.k_proj").as_str())?;
    let ghost m3 = tables@;
    proof {
        part_taken(orig, m2, m3, p, 2);
        assert(agree_under(m3, orig, p + part_name(3)));
    }
    let v_proj = take_proj(tables, concat(prefix.as_str(), "self_attn.v_proj").as_str())?;
    let ghost m4 = tables@;
    proof {
        part_taken(orig, m3, m4, p, 3);
        assert(agree_under(m4, orig, p + part_name(4)));
    }
    let out_proj = take_proj(tables, concat(prefix.as_str(), "self_attn.out_proj").as_str())?;
    let ghost m5 = tables@;
    proof {
        part_taken(orig, m4, m5, p, 4);
        assert(agree_under(m5, orig, p + part_name(5)));
    }
    let layer_norm2 = take_norm(tables, concat(prefix.as_str(), "layer_norm2").as_str())?;
    let ghost m6 = tables@;
    proof {
        part_taken(orig, m5, m6, p, 5);
        assert(agree_under(m6, orig, p + part_name(6)));
    }
    let fc1 = take_proj(tables, concat(prefix.as_str(), "mlp.fc1").as_str())?;
    let ghost m7 = tables@;
    proof {
        part_taken(orig, m6, m7, p, 6);
        assert(agree_under(m7, orig, p + part_name(7)));
    }
    let fc2 = take_proj(tables, concat(prefix.as_str(), "mlp.fc2").as_str())?;
    proof {
        part_taken(orig, m7, tables@, p, 7);
    }
    Ok(
        VisionLayerWeights {
            layer_norm1,
            q_proj,
            k_proj,
            v_proj,
            out_proj,
            layer_norm2,
            fc1,
            fc2,
        },
    )
}

/// No key belongs to two layers.
pub proof fn layers_apart(k: Seq<char>, i: nat, j: nat)
    requires
        has_prefix(k, layer_prefix(i)),
        has_prefix(k, layer_prefix(j)),
    ensures
        i == j,
{
    reveal_strlit("encoder.layers.");
    reveal_strlit(".");
    let (a, b) = (decimal(i), decimal(j));
    decimal_is_digits(i);
    decimal_is_digits(j);
    decimal_reads_back(i);
    decimal_reads_back(j);
    let (pi, pj) = (layer_prefix(i), layer_prefix(j));
    assert(k.subrange(0, pi.len() as int) == pi);
    assert(k.subrange(0, pj.len() as int) == pj);
    if a.len() < b.len() {
        let at = 15 + a.len() as int;
        assert(pi[at] == '.' && pj[at] == b[a.len() as int]);
        assert(k[at] == pi[at] && k[at] == pj[at]);
        assert(is_digit(b[a.len() as int]));
    } else if b.len() < a.len() {
        let at = 15 + b.len() as int;
        assert(pj[at] == '.' && pi[at] == a[b.len() as int]);
        assert(k[at] == pi[at] && k[at] == pj[at]);
        assert(is_digit(a[b.len() as int]));
    } else {
        assert forall|n: int| 0 <= n < a.len() implies a[n] == b[n] by {
            assert(pi[15 + n] == a[n] && pj[15 + n] == b[n]);
            assert(k[15 + n] == pi[15 + n] && k[15 + n] == pj[15 + n]);
        }
        assert(a =~= b);
    }
}

/// The key of a layer's tensor is none of the keys outside the layers.
proof fn outside_layers(k: Seq<char>, l: nat)
    requires
        has_prefix(k, layer_prefix(l)),
    ensures
        k != "embeddings.patch_embedding.bias"@,
        k != "embeddings.position_embedding.weight"@,
        k != "post_layernorm"@ + ".weight"@,
        k != "post_layernorm"@ + ".bias"@,
{
    reveal_strlit("encoder.layers.");
    reveal_strlit("embeddings.patch_embedding.bias");
    reveal_strlit("embeddings.position_embedding.weight");
    reveal_strlit("post_layernorm");
    let p = layer_prefix(l);
    assert(k.subrange(0, p.len() as int) == p);
    assert(p[0] == 'e' && p[1] == 'n');
    assert(k[0] == p[0] && k[1] == p[1]);
    assert(("post_layernorm"@ + ".weight"@)[0] == 'p');
    assert(("post_layernorm"@ + ".bias"@)[0] == 'p');
}

/// The tables hold the same under every key of layer `l`.
pub open spec fn agree_on_layer(a: TensorMaps, b: TensorMaps, l: nat) -> bool {
    forall|k: Seq<char>| has_prefix(k, layer_prefix(l)) ==> #[trigger] agree_at(a, b, k)
}

/// Tables that hold the same under every key of a layer hold the same layer.
proof fn layer_same(a: TensorMaps, b: TensorMaps, l: nat)
    requires
        agree_on_layer(a, b, l),
    ensures
        layer_gap(a, l) == layer_gap(b, l),
        layer_gap(a, l) is None ==> layer_at(a, l) == layer_at(b, l),
{
    let p = layer_prefix(l);
    assert forall|i: int| 0 <= i < 8 implies agree_under(a, b, p + #[trigger] part_name(i)) by {
        let w = p + part_name(i) + ".weight"@;
        let v = p + part_name(i) + ".bias"@;
        assert(w.subrange(0, p.len() as int) =~= p);
        assert(v.subrange(0, p.len() as int) =~= p);
        assert(agree_at(a, b, w));
        assert(agree_at(a, b, v));
    }
    assert(agree_under(a, b, p + part_name(0)));
    assert(agree_under(a, b, p + part_name(1)));
    assert(agree_under(a, b, p + part_name(2)));
    assert(agree_under(a, b, p + part_name(3)));
    assert(agree_under(a, b, p + part_name(4)));
    assert(agree_under(a, b, p + part_name(5)));
    assert(agree_under(a, b, p + part_name(6)));
    assert(agree_under(a, b, p + part_name(7)));
}

/// Layers with a gap leave the gap when there are more of them.
proof fn layers_gap_stays(m: TensorMaps, i: nat, n: nat)
    requires
        i <= n,
        layers_gap(m, i) is Some,
    ensures
        layers_gap(m, n) == layers_gap(m, i),
    decreases n,
{
    if i < n {
        layers_gap_stays(m, i, (n - 1) as nat);
    }
}

/// A list of extents as text.
fn shape_string(shape: &Vec<usize>) -> (r: String)
    ensures
        r@ == shape_text(shape@),
{
    let mut parts: Vec<String> = Vec::new();
    for i in 0..shape.len()
        invariant
            parts@.len() == i,
            forall|k: int| 0 <= k < i ==> (#[trigger] parts@[k])@ == decimal(shape@[k] as nat),
    {
        parts.push(decimal_string(shape[i] as u64));
    }
    assert(texts(parts@) =~= shape@.map_values(|d: usize| decimal(d as nat)));
    let inner = join(&parts, ", ");
    concat3("[", inner.as_str(), "]")
}

/// The patch tensor, if it has rank four and as many numbers as its extents
/// ask for.
fn check_patch(patch: Option<(Vec<u32>, Vec<usize>)>) -> (r: Result<PatchArray, ModelError>)
    ensures
        match r {
            Ok(a) => patch_gap(patch_view(patch)) is None && patch_view(patch) == Some(
                (a.data@, a.shape@),
            ),
            Err(e) => patch_gap(patch_view(patch)) == Some(e@),
        },
{
    match patch {
        None => Err(
            ModelError::Parse("missing embeddings.patch_embedding.weight (rank-4)".to_owned()),
        ),
        Some((data, shape)) => {
            if shape.len() != 4 {
                let text = shape_string(&shape);
                return Err(
                    ModelError::Parse(
                        concat(
                            "patch_embedding.weight expected rank 4, got shape ",
                            text.as_str(),
                        ),
                    ),
                );
            }
            match shaped(&shape, data) {
                Err(e) => Err(ModelError::Parse(e)),
                Ok(kept) => Ok(PatchArray { shape, data: kept }),
            }
        },
    }
}

/// Whether the projection has the given shape.
fn check_proj(p: &ProjWithBias, outputs: usize, inputs: usize) -> (r: bool)
    ensures
        r == proj_fits(p@, outputs as nat, inputs as nat),
{
    p.weight.rows == outputs && p.weight.cols == inputs && p.bias.len() == outputs
}

/// Whether the norm is for `n` numbers.
fn check_norm(v: &LayerNormWeights, n: usize) -> (r: bool)
    ensures
        r == norm_fits(v@, n as nat),
{
    v.weight.len() == n && v.bias.len() == n
}

/// Whether the layer has the shapes that the configuration asks for.
fn check_layer(v: &VisionLayerWeights, c: &VisionConfig) -> (r: bool)
    ensures
        r == layer_fits(v@, *c),
{
    let h: usize = c.hidden_size;
    let inner: usize = c.intermediate_size;
    check_norm(&v.layer_norm1, h) && check_proj(&v.q_proj, h, h) && check_proj(&v.k_proj, h, h)
        && check_proj(&v.v_proj, h, h) && check_proj(&v.out_proj, h, h) && check_norm(
        &v.layer_norm2,
        h,
    ) && check_proj(&v.fc1, inner, h) && check_proj(&v.fc2, h, inner)
}

/// Whether an image has `n` patches.
fn check_patch_count(c: &VisionConfig, n: usize) -> (r: bool)
    ensures
        r == (n == patch_count(*c)),
{
    if c.patch_size == 0 {
        n == 0
    } else {
        let side: usize = c.patches_per_side();
        match side.checked_mul(side) {
            Some(count) => n == count,
            None => false,
        }
    }
}

/// Whether what stands around the layers has the shapes that the configuration
/// asks for.
fn check_embedding(w: &VisionWeights, c: &VisionConfig) -> (r: bool)
    ensures
        r == embedding_fits(w@, *c),
{
    let h: usize = c.hidden_size;
    let shape = &w.patch_embed.shape;
    let patch = shape.len() == 4 && shape[0] == h && shape[1] == c.num_channels && shape[2]
        == c.patch_size && shape[3] == c.patch_size;
    assert(patch ==> shape@ =~= patch_shape_of(*c));
    patch && w.patch_embed_bias.len() == h && check_patch_count(c, w.position_embed.rows)
        && w.position_embed.cols == h && check_norm(&w.post_layernorm, h)
}

/// Whether every tensor has the shape that the configuration asks for.
fn check_tower(w: &VisionWeights, c: &VisionConfig) -> (r: bool)
    ensures
        r == tower_fits(w@, *c),
{
    if !check_embedding(w, c) || w.layers.len() != c.num_hidden_layers {
        return false;
    }
    for l in 0..w.layers.len()
        invariant
            forall|k: int| 0 <= k < l ==> layer_fits(#[trigger] w@.layers[k], *c),
    {
        assert(w@.layers[l as int] == w.layers@[l as int]@);
        if !check_layer(&w.layers[l], c) {
            return false;
        }
    }
    true
}

/// Puts an encoder together from its tensors.
pub fn assemble(config: VisionConfig, parts: Gathered) -> (r: Result<VisionWeights, ModelError>)
    requires
        parts.wf(),
    ensures
        match r {
            Ok(w) => w.config == config && tower_of(parts@, config) == Ok::<TowerView, Fault>(w@),
            Err(e) => tower_of(parts@, config) == Err::<TowerView, Fault>(e@),
        },
{
    let ghost orig = parts@.maps;
    let ghost n = config.num_hidden_layers as nat;
    let mut tables = parts.tables;
    proof {
        reveal_strlit("embeddings.patch_embedding.bias");
        reveal_strlit("embeddings.position_embedding.weight");
        reveal_strlit("post_layernorm");
        assert(("post_layernorm"@ + ".weight"@)[0] == 'p');
        assert(("post_layernorm"@ + ".bias"@)[0] == 'p');
    }
    let patch_embed = check_patch(parts.patch)?;
    let patch_embed_bias = take_vec(&mut tables, "embeddings.patch_embedding.bias")?;
    let position_embed = take_tensor(&mut tables, "embeddings.position_embedding.weight")?;
    let ghost before_norm = tables@;
    let post_layernorm = take_norm(&mut tables, "post_layernorm")?;
    proof {
        assert forall|l: nat| #[trigger] agree_on_layer(tables@, orig, l) by {
            assert forall|k: Seq<char>| has_prefix(k, layer_prefix(l)) implies #[trigger] agree_at(
                tables@,
                orig,
                k,
            ) by {
                outside_layers(k, l);
                assert(agree_at(tables@, before_norm, k));
            }
        }
    }
    let mut layers: Vec<VisionLayerWeights> = Vec::new();
    let count: usize = config.num_hidden_layers;
    for l in 0..count
        invariant
            tables.wf(),
            n == count,
            n == config.num_hidden_layers,
            orig == parts@.maps,
            tower_gap(parts@, n) == layers_gap(orig, n),
            layers_gap(orig, l as nat) is None,
            forall|j: nat| l <= j ==> #[trigger] agree_on_layer(tables@, orig, j),
            layers@.len() == l,
            forall|j: int| 0 <= j < l ==> (#[trigger] layers@[j])@ == layer_at(orig, j as nat),
    {
        let ghost before = tables@;
        proof {
            assert(agree_on_layer(before, orig, l as nat));
            layer_same(before, orig, l as nat);
        }
        match take_layer(l, &mut tables) {
            Ok(layer) => {
                layers.push(layer);
                proof {
                    assert forall|j: nat| l + 1 <= j implies #[trigger] agree_on_layer(
                        tables@,
                        orig,
                        j,
                    ) by {
                        assert(agree_on_layer(before, orig, j));
                        assert forall|k: Seq<char>| has_prefix(
                            k,
                            layer_prefix(j),
                        ) implies #[trigger] agree_at(tables@, orig, k) by {
                            if has_prefix(k, layer_prefix(l as nat)) {
                                layers_apart(k, l as nat, j);
                            }
                            assert(agree_at(tables@, before, k));
                            assert(agree_at(before, orig, k));
                        }
                    }
                }
            },
            Err(e) => {
                proof {
                    layers_gap_stays(orig, (l + 1) as nat, n);
                }
                return Err(e);
            },
        }
    }
    let w = VisionWeights {
        config,
        patch_embed,
        patch_embed_bias,
        position_embed,
        layers,
        post_layernorm,
    };
    assert(w@.layers =~= tower_at(parts@, w.config).layers);
    assert(w@ =~= tower_at(parts@, w.config));
    if !check_tower(&w, &w.config) {
        return Err(
            ModelError::Parse(
                "vision_tower tensor shapes do not match the configuration".to_owned(),
            ),
        );
    }
    Ok(w)
}

/// The key of the patch tensor.
pub const PATCH_KEY: &'static str = "embeddings.patch_embedding.weight";

/// The encoder that a list of tensors holds; `dir` says where they were found.
pub open spec fn tower_from(tensors: Seq<Decoded>, dir: Seq<char>, c: VisionConfig) -> Result<
    TowerView,
    Fault,
> {
    match gathered(tensors, Some(PATCH_KEY@), tensors.len()) {
        Ok(g) => if g == nothing() {
            Err(
                Fault::Parse(
                    "no vision_tower tensors found under "@ + dir
                        + "; is this a multimodal checkpoint?"@,
                ),
            )
        } else {
            tower_of(g, c)
        },
        Err(e) => Err(e),
    }
}

/// What is missing of the layers is said in a parse error.
proof fn layers_gap_is_parse(m: TensorMaps, n: nat)
    ensures
        layers_gap(m, n) matches Some(e) ==> e is Parse,
    decreases n,
{
    if n > 0 {
        layers_gap_is_parse(m, (n - 1) as nat);
    }
}

/// Whatever is wrong with the tensors is said in a parse error.
pub proof fn tower_fault_is_parse(tensors: Seq<Decoded>, dir: Seq<char>, c: VisionConfig)
    ensures
        tower_from(tensors, dir, c) matches Err(e) ==> e is Parse,
{
    gathering_fault_is_parse(tensors, Some(PATCH_KEY@), tensors.len());
    if let Ok(g) = gathered(tensors, Some(PATCH_KEY@), tensors.len()) {
        layers_gap_is_parse(g.maps, c.num_hidden_layers as nat);
    }
}

/// The name of a tensor of layer `l`, without the encoder's prefix.
pub open spec fn layer_tensor_name(l: nat, rest: Seq<char>) -> Seq<char> {
    "encoder.layers."@ + decimal(l) + "."@ + rest
}

/// The names of a layer's tensors, written out.
proof fn layer_names_written(l: nat)
    ensures
        layer_prefix(l) + "layer_norm1"@ + ".weight"@ == layer_tensor_name(l, "layer_norm1.weight"@),
        layer_prefix(l) + "layer_norm1"@ + ".bias"@ == layer_tensor_name(l, "layer_norm1.bias"@),
        layer_prefix(l) + "layer_norm2"@ + ".weight"@ == layer_tensor_name(l, "layer_norm2.weight"@),
        layer_prefix(l) + "layer_norm2"@ + ".bias"@ == layer_tensor_name(l, "layer_norm2.bias"@),
        layer_prefix(l) + "self_attn.q_proj"@ + ".weight"@ == layer_tensor_name(l, "self_attn.q_proj.weight"@),
        layer_prefix(l) + "self_attn.q_proj"@ + ".bias"@ == layer_tensor_name(l, "self_attn.q_proj.bias"@),
        layer_prefix(l) + "self_attn.k_proj"@ + ".weight"@ == layer_tensor_name(l, "self_attn.k_proj.weight"@),
        layer_prefix(l) + "self_attn.k_proj"@ + ".bias"@ == layer_tensor_name(l, "self_attn.k_proj.bias"@),
        layer_prefix(l) + "self_attn.v_proj"@ + ".weight"@ == layer_tensor_name(l, "self_attn.v_proj.weight"@),
        layer_prefix(l) + "self_attn.v_proj"@ + ".bias"@ == layer_tensor_name(l, "self_attn.v_proj.bias"@),
        layer_prefix(l) + "self_attn.out_proj"@ + ".weight"@ == layer_tensor_name(l, "self_attn.out_proj.weight"@),
        layer_prefix(l) + "self_attn.out_proj"@ + ".bias"@ == layer_tensor_name(l, "self_attn.out_proj.bias"@),
        layer_prefix(l) + "mlp.fc1"@ + ".weight"@ == layer_tensor_name(l, "mlp.fc1.weight"@),
        layer_prefix(l) + "mlp.fc1"@ + ".bias"@ == layer_tensor_name(l, "mlp.fc1.bias"@),
        layer_prefix(l) + "mlp.fc2"@ + ".weight"@ == layer_tensor_name(l, "mlp.fc2.weight"@),
        layer_prefix(l) + "mlp.fc2"@ + ".bias"@ == layer_tensor_name(l, "mlp.fc2.bias"@),
{
    reveal_strlit(".weight");
    reveal_strlit(".bias");
    reveal_strlit("layer_norm1");
    reveal_strlit("layer_norm1.weight");
    assert(layer_prefix(l) + "layer_norm1"@ + ".weight"@ =~= layer_tensor_name(l, "layer_norm1.weight"@));
    reveal_strlit("layer_norm1.bias");
    assert(layer_prefix(l) + "layer_norm1"@ + ".bias"@ =~= layer_tensor_name(l, "layer_norm1.bias"@));
    reveal_strlit("layer_norm2");
    reveal_strlit("layer_norm2.weight");
    assert(layer_prefix(l) + "layer_norm2"@ + ".weight"@ =~= layer_tensor_name(l, "layer_norm2.weight"@));
    reveal_strlit("layer_norm2.bias");
    assert(layer_prefix(l) + "layer_norm2"@ + ".bias"@ =~= layer_tensor_name(l, "layer_norm2.bias"@));
    reveal_strlit("self_attn.q_proj");
    reveal_strlit("self_attn.q_proj.weight");
    assert(layer_prefix(l) + "self_attn.q_proj"@ + ".weight"@ =~= layer_tensor_name(l, "self_attn.q_proj.weight"@));
    reveal_strlit("self_attn.q_proj.bias");
    assert(layer_prefix(l) + "self_attn.q_proj"@ + ".bias"@ =~= layer_tensor_name(l, "self_attn.q_proj.bias"@));
    reveal_strlit("self_attn.k_proj");
    reveal_strlit("self_attn.k_proj.weight");
    assert(layer_prefix(l) + "self_attn.k_proj"@ + ".weight"@ =~= layer_tensor_name(l, "self_attn.k_proj.weight"@));
    reveal_strlit("self_attn.k_proj.bias");
    assert(layer_prefix(l) + "self_attn.k_proj"@ + ".bias"@ =~= layer_tensor_name(l, "self_attn.k_proj.bias"@));
    reveal_strlit("self_attn.v_proj");
    reveal_strlit("self_attn.v_proj.weight");
    assert(layer_prefix(l) + "self_attn.v_proj"@ + ".weight"@ =~= layer_tensor_name(l, "self_attn.v_proj.weight"@));
    reveal_strlit("self_attn.v_proj.bias");
    assert(layer_prefix(l) + "self_attn.v_proj"@ + ".bias"@ =~= layer_tensor_name(l, "self_attn.v_proj.bias"@));
    reveal_strlit("self_attn.out_proj");
    reveal_strlit("self_attn.out_proj.weight");
    assert(layer_prefix(l) + "self_attn.out_proj"@ + ".weight"@ =~= layer_tensor_name(l, "self_attn.out_proj.weight"@));
    reveal_strlit("self_attn.out_proj.bias");
    assert(layer_prefix(l) + "self_attn.out_proj"@ + ".bias"@ =~= layer_tensor_name(l, "self_attn.out_proj.bias"@));
    reveal_strlit("mlp.fc1");
    reveal_strlit("mlp.fc1.weight");
    assert(layer_prefix(l) + "mlp.fc1"@ + ".weight"@ =~= layer_tensor_name(l, "mlp.fc1.weight"@));
    reveal_strlit("mlp.fc1.bias");
    assert(layer_prefix(l) + "mlp.fc1"@ + ".bias"@ =~= layer_tensor_name(l, "mlp.fc1.bias"@));
    reveal_strlit("mlp.fc2");
    reveal_strlit("mlp.fc2.weight");
    assert(layer_prefix(l) + "mlp.fc2"@ + ".weight"@ =~= layer_tensor_name(l, "mlp.fc2.weight"@));
    reveal_strlit("mlp.fc2.bias");
    assert(layer_prefix(l) + "mlp.fc2"@ + ".bias"@ =~= layer_tensor_name(l, "mlp.fc2.bias"@));
}

/// The tensors of layer `l` are all there.
pub open spec fn has_layer(m: TensorMaps, l: nat) -> bool {
    &&& m.vectors.dom().contains(layer_tensor_name(l, "layer_norm1.weight"@))
    &&& m.vectors.dom().contains(layer_tensor_name(l, "layer_norm1.bias"@))
    &&& m.vectors.dom().contains(layer_tensor_name(l, "layer_norm2.weight"@))
    &&& m.vectors.dom().contains(layer_tensor_name(l, "layer_norm2.bias"@))
    &&& m.matrices.dom().contains(layer_tensor_name(l, "self_attn.q_proj.weight"@))
    &&& m.vectors.dom().contains(layer_tensor_name(l, "self_attn.q_proj.bias"@))
    &&& m.matrices.dom().contains(layer_tensor_name(l, "self_attn.k_proj.weight"@))
    &&& m.vectors.dom().contains(layer_tensor_name(l, "self_attn.k_proj.bias"@))
    &&& m.matrices.dom().contains(layer_tensor_name(l, "self_attn.v_proj.weight"@))
    &&& m.vectors.dom().contains(layer_tensor_name(l, "self_attn.v_proj.bias"@))
    &&& m.matrices.dom().contains(layer_tensor_name(l, "self_attn.out_proj.weight"@))
    &&& m.vectors.dom().contains(layer_tensor_name(l, "self_attn.out_proj.bias"@))
    &&& m.matrices.dom().contains(layer_tensor_name(l, "mlp.fc1.weight"@))
    &&& m.vectors.dom().contains(layer_tensor_name(l, "mlp.fc1.bias"@))
    &&& m.matrices.dom().contains(layer_tensor_name(l, "mlp.fc2.weight"@))
    &&& m.vectors.dom().contains(layer_tensor_name(l, "mlp.fc2.bias"@))
}

/// Nothing is missing of the layers exactly if all of their tensors are there.
proof fn layers_complete(m: TensorMaps, n: nat)
    ensures
        layers_gap(m, n) is None <==> forall|l: nat| l < n ==> #[trigger] has_layer(m, l),
    decreases n,
{
    if n > 0 {
        layers_complete(m, (n - 1) as nat);
        layer_names_written((n - 1) as nat);
        assert(layer_gap(m, (n - 1) as nat) is None <==> has_layer(m, (n - 1) as nat));
        assert forall|l: nat| layers_gap(m, n) is None && l < n implies #[trigger] has_layer(
            m,
            l,
        ) by {
            if l < n - 1 {
                assert(layers_gap(m, (n - 1) as nat) is None);
            }
        }
    }
}

/// An encoder is given exactly if every tensor is there under its own name, the
/// patch array has four extents and as many numbers as they ask for, and every
/// shape is the configuration's.
pub proof fn encoder_complete(g: GatheredView, c: VisionConfig)
    ensures
        tower_of(g, c) is Ok <==> {
            &&& g.patch matches Some((data, shape)) && shape.len() == 4 && shape_fault(
                shape,
                data.len(),
            ) is None
            &&& g.maps.vectors.dom().contains("embeddings.patch_embedding.bias"@)
            &&& g.maps.matrices.dom().contains("embeddings.position_embedding.weight"@)
            &&& g.maps.vectors.dom().contains("post_layernorm.weight"@)
            &&& g.maps.vectors.dom().contains("post_layernorm.bias"@)
            &&& forall|l: nat| l < c.num_hidden_layers ==> #[trigger] has_layer(g.maps, l)
            &&& tower_fits(tower_at(g, c), c)
        },
{
    layers_complete(g.maps, c.num_hidden_layers as nat);
    reveal_strlit("post_layernorm");
    reveal_strlit(".weight");
    reveal_strlit(".bias");
    reveal_strlit("post_layernorm.weight");
    reveal_strlit("post_layernorm.bias");
    assert("post_layernorm"@ + ".weight"@ =~= "post_layernorm.weight"@);
    assert("post_layernorm"@ + ".bias"@ =~= "post_layernorm.bias"@);
}

/// Every weight and bias of a layer is the tensor that the files hold under
/// its own name.
pub proof fn layer_tensors_placed(
    tensors: Seq<Decoded>,
    dir: Seq<char>,
    c: VisionConfig,
    w: TowerView,
    l: int,
    i: int,
)
    requires
        tower_from(tensors, dir, c) == Ok::<TowerView, Fault>(w),
        0 <= l < c.num_hidden_layers,
        0 <= i < tensors.len(),
        last_of_key(tensors, i),
    ensures
        w.layers.len() == c.num_hidden_layers,
        ({
            let t = tensors[i];
            let is = |rest: Seq<char>| t.key@ == layer_tensor_name(l as nat, rest);
            let matrix = t.shape@.len() == 2;
            let vector = t.shape@.len() == 1;
            let y = w.layers[l];
            &&& vector && is("layer_norm1.weight"@) ==> is_vector_of(t, y.layer_norm1.weight)
            &&& vector && is("layer_norm1.bias"@) ==> is_vector_of(t, y.layer_norm1.bias)
            &&& vector && is("layer_norm2.weight"@) ==> is_vector_of(t, y.layer_norm2.weight)
            &&& vector && is("layer_norm2.bias"@) ==> is_vector_of(t, y.layer_norm2.bias)
            &&& matrix && is("self_attn.q_proj.weight"@) ==> is_matrix_of(t, y.q_proj.weight)
            &&& vector && is("self_attn.q_proj.bias"@) ==> is_vector_of(t, y.q_proj.bias)
            &&& matrix && is("self_attn.k_proj.weight"@) ==> is_matrix_of(t, y.k_proj.weight)
            &&& vector && is("self_attn.k_proj.bias"@) ==> is_vector_of(t, y.k_proj.bias)
            &&& matrix && is("self_attn.v_proj.weight"@) ==> is_matrix_of(t, y.v_proj.weight)
            &&& vector && is("self_attn.v_proj.bias"@) ==> is_vector_of(t, y.v_proj.bias)
            &&& matrix && is("self_attn.out_proj.weight"@) ==> is_matrix_of(t, y.out_proj.weight)
            &&& vector && is("self_attn.out_proj.bias"@) ==> is_vector_of(t, y.out_proj.bias)
            &&& matrix && is("mlp.fc1.weight"@) ==> is_matrix_of(t, y.fc1.weight)
            &&& vector && is("mlp.fc1.bias"@) ==> is_vector_of(t, y.fc1.bias)
            &&& matrix && is("mlp.fc2.weight"@) ==> is_matrix_of(t, y.fc2.weight)
            &&& vector && is("mlp.fc2.bias"@) ==> is_vector_of(t, y.fc2.bias)
        }),
{
    let g = gathered(tensors, Some(PATCH_KEY@), tensors.len())->Ok_0;
    gathered_under_key(tensors, Some(PATCH_KEY@), tensors.len(), i, g);
    layer_names_written(l as nat);
}

/// Every weight and bias outside the layers is the tensor that the files hold
/// under its own name.
pub proof fn outer_tensors_placed(
    tensors: Seq<Decoded>,
    dir: Seq<char>,
    c: VisionConfig,
    w: TowerView,
    i: int,
)
    requires
        tower_from(tensors, dir, c) == Ok::<TowerView, Fault>(w),
        0 <= i < tensors.len(),
        last_of_key(tensors, i),
    ensures
        ({
            let t = tensors[i];
            let matrix = t.shape@.len() == 2;
            let vector = t.shape@.len() == 1;
            &&& w.config == c
            &&& t.shape@.len() == 4 && t.key@ == "embeddings.patch_embedding.weight"@
                ==> w.patch_shape == t.shape@ && (t.numbers matches Ok(v) && w.patch_data == v@)
            &&& vector && t.key@ == "embeddings.patch_embedding.bias"@ ==> is_vector_of(
                t,
                w.patch_embed_bias,
            )
            &&& matrix && t.key@ == "embeddings.position_embedding.weight"@ ==> is_matrix_of(
                t,
                w.position_embed,
            )
            &&& vector && t.key@ == "post_layernorm.weight"@ ==> is_vector_of(
                t,
                w.post_layernorm.weight,
            )
            &&& vector && t.key@ == "post_layernorm.bias"@ ==> is_vector_of(
                t,
                w.post_layernorm.bias,
            )
        }),
{
    let g = gathered(tensors, Some(PATCH_KEY@), tensors.len())->Ok_0;
    gathered_under_key(tensors, Some(PATCH_KEY@), tensors.len(), i, g);
    reveal_strlit("post_layernorm");
    reveal_strlit(".weight");
    reveal_strlit(".bias");
    reveal_strlit("post_layernorm.weight");
    reveal_strlit("post_layernorm.bias");
    assert("post_layernorm"@ + ".weight"@ =~= "post_layernorm.weight"@);
    assert("post_layernorm"@ + ".bias"@ =~= "post_layernorm.bias"@);
}

/// An encoder is given exactly where every tensor is there in the shape that
/// the configuration asks for.  Whatever is loaded has, for a hidden width `h`
/// and an inner width `n`: square attention projections, a first feed-forward
/// projection from `h` to `n` and a second one back, a bias for each row, norms
/// of `h` numbers, a position for each patch and a patch array of `h` filters.
pub proof fn loaded_shapes(
    tensors: Seq<Decoded>,
    dir: Seq<char>,
    c: VisionConfig,
    w: TowerView,
    l: int,
    side: nat,
)
    requires
        tower_from(tensors, dir, c) == Ok::<TowerView, Fault>(w),
        0 <= l < c.num_hidden_layers,
        c.patch_size > 0,
        side * c.patch_size <= c.image_size < (side + 1) * c.patch_size,
    ensures
        ({
            let y = w.layers[l];
            let h = c.hidden_size as nat;
            let n = c.intermediate_size as nat;
            &&& y.q_proj.weight.rows == h && y.q_proj.weight.cols == h && y.q_proj.bias.len() == h
            &&& y.k_proj.weight.rows == h && y.k_proj.weight.cols == h && y.k_proj.bias.len() == h
            &&& y.v_proj.weight.rows == h && y.v_proj.weight.cols == h && y.v_proj.bias.len() == h
            &&& y.out_proj.weight.rows == h && y.out_proj.weight.cols == h
                && y.out_proj.bias.len() == h
            &&& y.fc1.weight.rows == n && y.fc1.weight.cols == h && y.fc1.bias.len() == n
            &&& y.fc2.weight.rows == h && y.fc2.weight.cols == n && y.fc2.bias.len() == h
            &&& y.layer_norm1.weight.len() == h && y.layer_norm1.bias.len() == h
            &&& y.layer_norm2.weight.len() == h && y.layer_norm2.bias.len() == h
            &&& w.post_layernorm.weight.len() == h && w.post_layernorm.bias.len() == h
            &&& w.position_embed.rows == side * side && w.position_embed.cols == h
            &&& w.patch_embed_bias.len() == h
            &&& w.patch_shape.len() == 4 && w.patch_shape[0] == h && w.patch_shape[1]
                == c.num_channels && w.patch_shape[2] == c.patch_size && w.patch_shape[3]
                == c.patch_size
        }),
{
    let p = c.patch_size as int;
    let q = c.image_size as int / p;
    lemma_fundamental_div_mod(c.image_size as int, p);
    assert(q == side) by (nonlinear_arith)
        requires
            side * p <= c.image_size < (side + 1) * p,
            c.image_size == p * q + c.image_size as int % p,
            0 <= c.image_size as int % p < p,
            p > 0,
    ;
    assert(layer_fits(w.layers[l], c));
}

/// The encoder, from the tensors of all files in a directory whose names start
/// with [`SIGLIP_VISION_TOWER_PREFIX`].  Fails if a tensor is missing or has
/// not the shape that the configuration asks for.
pub fn load_vision_tower_from_safetensors(
    tensors: &Vec<Decoded>,
    dir: &str,
    config: VisionConfig,
) -> (r: Result<VisionWeights, ModelError>)
    ensures
        match r {
            Ok(w) => {
                &&& w.config == config
                &&& tower_from(tensors@, dir@, config) == Ok::<TowerView, Fault>(w@)
                &&& tower_fits(w@, config)
            },
            Err(e) => tower_from(tensors@, dir@, config) == Err::<TowerView, Fault>(e@) && e@ is Parse,
        },
{
    proof {
        tower_fault_is_parse(tensors@, dir@, config);
    }
    let parts = gather(tensors, Some(PATCH_KEY))?;
    if parts.is_empty() {
        return Err(
            ModelError::Parse(
                concat3(
                    "no vision_tower tensors found under ",
                    dir,
                    "; is this a multimodal checkpoint?",
                ),
            ),
        );
    }
    assemble(config, parts)
}

} // verus!
