//! The small made-up models, one for each way in which a layer can be made.
use vstd::prelude::*;

use crate::layout::{layer_key, layer_key_string};
use crate::models::synthetic::{
    advanced, blank, blank_matrix, content_fits, copy_matrix, drawn, item_present, item_views, lcg,
    next_state, no_parts, packed_from_item, rand_mat_seeded, skip_draws, with_items, Content,
    DrawnMatrix, DrawnView, Fill, FilledVector, Item, ItemView, PackedRamp, Parts, PartsView, Ramp,
    SeedRule, HALF, HUNDREDTH, ONE, ROPE_BASE, TENTH, TWENTIETH, ZERO,
};
use crate::text::opt_text;

verus! {

/// The keys of one layer.
pub struct LayerNames {
    pub attn_q: String,
    pub attn_k: String,
    pub attn_v: String,
    pub attn_o: String,
    pub ffn_gate: String,
    pub ffn_up: String,
    pub ffn_down: String,
    pub input_norm: String,
    pub post_attention_norm: String,
    pub pre_ffn_norm: Option<String>,
    pub post_ffn_norm: Option<String>,
    pub q_norm: Option<String>,
    pub k_norm: Option<String>,
    pub q_bias: Option<String>,
    pub k_bias: Option<String>,
    pub v_bias: Option<String>,
    pub o_bias: Option<String>,
    pub up_bias: Option<String>,
    pub down_bias: Option<String>,
    pub per_layer_gate: Option<String>,
    pub per_layer_projection: Option<String>,
    pub per_layer_norm: Option<String>,
    pub layer_scalar: Option<String>,
    pub router: Option<String>,
    pub packed_gate_up: Option<String>,
    pub packed_down: Option<String>,
    /// The layer attends to a window.
    pub sliding: bool,
}

/// The keys of a model.
pub struct ModelNames {
    pub embed: String,
    pub final_norm: String,
    pub per_layer_model_projection: Option<String>,
    pub per_layer_embed: Option<String>,
    pub per_layer_projection_norm: Option<String>,
    pub layers: Vec<LayerNames>,
}

/// Which model is made.
#[derive(Debug, Clone, Copy, PartialEq, Eq, Structural)]
pub enum Family {
    /// The plainest one.
    Tiny,
    /// With norms behind the blocks and on queries and keys.
    Gemma3,
    /// With biases and a feed-forward network without a gate.
    Starcoder2,
    /// With embeddings for each layer and heads of two widths.
    E2b,
    /// Wide enough for quantized blocks, with norms behind the blocks.
    Q4k,
    /// Wide enough for quantized blocks, plain.
    Q4kSilu,
    /// With experts beside a dense network.
    Moe,
}

/// The extents of a model.
#[derive(Debug, Clone, Copy, PartialEq, Eq, Structural)]
pub struct Extents {
    pub vocab: usize,
    pub hidden: usize,
    pub inter: usize,
    pub num_q: usize,
    pub num_kv: usize,
    pub head_dim: usize,
    pub num_layers: usize,
}

/// The extents of one layer.
#[derive(Debug, Clone, Copy, PartialEq, Eq, Structural)]
pub struct LayerExtents {
    pub hidden: usize,
    pub inter: usize,
    pub q_dim: usize,
    pub kv_dim: usize,
    pub head_dim: usize,
}

/// The width of the embeddings for each layer.
pub const PER_LAYER_DIM: usize = 4;

/// The width of a head in a layer that attends to everything, where heads
/// have two widths.
pub const GLOBAL_HEAD_DIM: usize = 8;

/// The width of the models for quantized blocks.
pub const Q4K_TEST_HIDDEN: usize = 256;

/// The inner width of the models for quantized blocks.
pub const Q4K_TEST_INTER: usize = 256;

/// The vocabulary of the models for quantized blocks.
pub const Q4K_TEST_VOCAB: usize = 256;

/// The layers of the models for quantized blocks.
pub const Q4K_TEST_NUM_LAYERS: usize = 2;

/// The width of the model with experts.
pub const GEMMA4_MOE_HIDDEN: usize = 256;

/// The inner width of the model with experts.
pub const GEMMA4_MOE_INTER: usize = 256;

/// The number of experts of the model with experts.
pub const GEMMA4_MOE_NUM_EXPERTS: usize = 4;

/// The number of experts for one token in the model with experts.
pub const GEMMA4_MOE_TOP_K: usize = 2;

/// The extents of a family's model.
pub open spec fn extents(f: Family) -> Extents {
    match f {
        Family::Tiny | Family::Gemma3 | Family::Starcoder2 => Extents {
            vocab: 32,
            hidden: 16,
            inter: 32,
            num_q: 2,
            num_kv: 1,
            head_dim: 8,
            num_layers: 2,
        },
        Family::E2b => Extents {
            vocab: 32,
            hidden: 8,
            inter: 16,
            num_q: 2,
            num_kv: 1,
            head_dim: 4,
            num_layers: 4,
        },
        Family::Q4k | Family::Q4kSilu => Extents {
            vocab: Q4K_TEST_VOCAB,
            hidden: Q4K_TEST_HIDDEN,
            inter: Q4K_TEST_INTER,
            num_q: 4,
            num_kv: 2,
            head_dim: 64,
            num_layers: Q4K_TEST_NUM_LAYERS,
        },
        Family::Moe => Extents {
            vocab: GEMMA4_MOE_HIDDEN,
            hidden: GEMMA4_MOE_HIDDEN,
            inter: GEMMA4_MOE_INTER,
            num_q: 4,
            num_kv: 2,
            head_dim: 64,
            num_layers: 2,
        },
    }
}

/// The extents of a family's model.
fn extents_of(f: Family) -> (r: Extents)
    ensures
        r == extents(f),
{
    match f {
        Family::Tiny | Family::Gemma3 | Family::Starcoder2 => Extents {
            vocab: 32,
            hidden: 16,
            inter: 32,
            num_q: 2,
            num_kv: 1,
            head_dim: 8,
            num_layers: 2,
        },
        Family::E2b => Extents {
            vocab: 32,
            hidden: 8,
            inter: 16,
            num_q: 2,
            num_kv: 1,
            head_dim: 4,
            num_layers: 4,
        },
        Family::Q4k | Family::Q4kSilu => Extents {
            vocab: Q4K_TEST_VOCAB,
            hidden: Q4K_TEST_HIDDEN,
            inter: Q4K_TEST_INTER,
            num_q: 4,
            num_kv: 2,
            head_dim: 64,
            num_layers: Q4K_TEST_NUM_LAYERS,
        },
        Family::Moe => Extents {
            vocab: GEMMA4_MOE_HIDDEN,
            hidden: GEMMA4_MOE_HIDDEN,
            inter: GEMMA4_MOE_INTER,
            num_q: 4,
            num_kv: 2,
            head_dim: 64,
            num_layers: 2,
        },
    }
}

/// The extents of one layer.
pub open spec fn layer_extents(f: Family, sliding: bool) -> LayerExtents {
    let e = extents(f);
    let head_dim = if f == Family::E2b && !sliding {
        GLOBAL_HEAD_DIM
    } else {
        e.head_dim
    };
    LayerExtents {
        hidden: e.hidden,
        inter: e.inter,
        q_dim: (e.num_q * head_dim) as usize,
        kv_dim: (e.num_kv * head_dim) as usize,
        head_dim,
    }
}

/// No extent of a layer is greater than 256.
pub open spec fn small(d: LayerExtents) -> bool {
    d.hidden <= 256 && d.inter <= 256 && d.q_dim <= 256 && d.kv_dim <= 256 && d.head_dim <= 256
}

/// Every matrix of `items` has a number of numbers that fits in a machine
/// word.
pub open spec fn all_fit(items: Seq<ItemView>) -> bool {
    forall|i: int| 0 <= i < items.len() ==> content_fits((#[trigger] items[i]).content)
}

/// A matrix with extents no greater than 256 fits.
proof fn small_product(a: usize, b: usize)
    requires
        a <= 256,
        b <= 256,
    ensures
        a * b <= usize::MAX,
{
    assert(a * b <= 65536) by (nonlinear_arith)
        requires
            a <= 256,
            b <= 256,
    ;
}

/// A matrix under a key: drawn, or blank.
pub open spec fn matrix_item(
    key: Option<Seq<char>>,
    rows: usize,
    cols: usize,
    is_blank: bool,
) -> ItemView {
    ItemView {
        key,
        content: if is_blank {
            Content::Blank { rows, cols }
        } else {
            Content::Drawn { rows, cols }
        },
    }
}

/// A vector of equal numbers under a key.
pub open spec fn vector_item(key: Option<Seq<char>>, len: usize, number: u32) -> ItemView {
    ItemView { key, content: Content::Vector(FilledVector { len, fill: Fill::Same(number) }) }
}

/// The projections of attention.
pub open spec fn attention(k: LayerNames, d: LayerExtents, is_blank: bool) -> Seq<ItemView> {
    seq![
        matrix_item(Some(k.attn_q@), d.q_dim, d.hidden, is_blank),
        matrix_item(Some(k.attn_k@), d.kv_dim, d.hidden, is_blank),
        matrix_item(Some(k.attn_v@), d.kv_dim, d.hidden, is_blank),
        matrix_item(Some(k.attn_o@), d.hidden, d.q_dim, is_blank),
    ]
}

/// The feed-forward network: gate, up, down.
pub open spec fn feed_forward(k: LayerNames, d: LayerExtents, is_blank: bool) -> Seq<ItemView> {
    seq![
        matrix_item(Some(k.ffn_gate@), d.inter, d.hidden, is_blank),
        matrix_item(Some(k.ffn_up@), d.inter, d.hidden, is_blank),
        matrix_item(Some(k.ffn_down@), d.hidden, d.inter, is_blank),
    ]
}

/// The norms before attention and before the feed-forward network.
pub open spec fn norms(k: LayerNames, d: LayerExtents, number: u32) -> Seq<ItemView> {
    seq![
        vector_item(Some(k.input_norm@), d.hidden, number),
        vector_item(Some(k.post_attention_norm@), d.hidden, number),
    ]
}

/// The norms around the feed-forward network.
pub open spec fn outer_norms(k: LayerNames, d: LayerExtents, number: u32) -> Seq<ItemView> {
    seq![
        vector_item(opt_text(k.pre_ffn_norm), d.hidden, number),
        vector_item(opt_text(k.post_ffn_norm), d.hidden, number),
    ]
}

/// The norms of queries and keys.
pub open spec fn qk_norms(k: LayerNames, d: LayerExtents, number: u32) -> Seq<ItemView> {
    seq![
        vector_item(opt_text(k.q_norm), d.head_dim, number),
        vector_item(opt_text(k.k_norm), d.head_dim, number),
    ]
}

/// The biases of attention, and the feed-forward network in the order up,
/// down, gate, with its biases.
pub open spec fn biased(k: LayerNames, d: LayerExtents) -> Seq<ItemView> {
    seq![
        vector_item(opt_text(k.q_bias), d.q_dim, HUNDREDTH),
        vector_item(opt_text(k.k_bias), d.kv_dim, HUNDREDTH),
        vector_item(opt_text(k.v_bias), d.kv_dim, HUNDREDTH),
        vector_item(opt_text(k.o_bias), d.hidden, HUNDREDTH),
        matrix_item(Some(k.ffn_up@), d.inter, d.hidden, false),
        matrix_item(Some(k.ffn_down@), d.hidden, d.inter, false),
        matrix_item(Some(k.ffn_gate@), d.inter, d.hidden, false),
        vector_item(opt_text(k.up_bias), d.inter, HUNDREDTH),
        vector_item(opt_text(k.down_bias), d.hidden, HUNDREDTH),
    ]
}

/// What a layer has for the embeddings of its own.
pub open spec fn per_layer(k: LayerNames, d: LayerExtents) -> Seq<ItemView> {
    seq![
        matrix_item(opt_text(k.per_layer_gate), PER_LAYER_DIM, d.hidden, true),
        matrix_item(opt_text(k.per_layer_projection), d.hidden, PER_LAYER_DIM, true),
        vector_item(opt_text(k.per_layer_norm), d.hidden, ONE),
    ]
}

/// What a layer has for its experts: a scalar, the router and the packed
/// experts.
pub open spec fn experts(k: LayerNames) -> Seq<ItemView> {
    seq![
        vector_item(opt_text(k.layer_scalar), 1, ONE),
        ItemView {
            key: opt_text(k.router),
            content: Content::Vector(FilledVector { len: 1024, fill: Fill::Wave }),
        },
        ItemView {
            key: opt_text(k.packed_gate_up),
            content: Content::Packed(PackedRamp { count: 524288, ramp: Ramp::GateUp }),
        },
        ItemView {
            key: opt_text(k.packed_down),
            content: Content::Packed(PackedRamp { count: 262144, ramp: Ramp::Down }),
        },
    ]
}

/// What one layer has.
pub open spec fn layer_items(f: Family, k: LayerNames) -> Seq<ItemView> {
    let d = layer_extents(f, k.sliding);
    match f {
        Family::Tiny | Family::Q4kSilu => attention(k, d, false) + feed_forward(k, d, false)
            + norms(k, d, ONE),
        Family::Gemma3 => attention(k, d, false) + feed_forward(k, d, false) + norms(k, d, ZERO)
            + outer_norms(k, d, ZERO) + qk_norms(k, d, ZERO),
        Family::Starcoder2 => attention(k, d, false) + biased(k, d) + norms(k, d, ONE),
        Family::E2b => attention(k, d, true) + feed_forward(k, d, true) + norms(k, d, ONE)
            + per_layer(k, d),
        Family::Q4k => attention(k, d, false) + feed_forward(k, d, false) + norms(k, d, HALF)
            + outer_norms(k, d, HALF),
        Family::Moe => attention(k, d, false) + feed_forward(k, d, false) + norms(k, d, HALF)
            + outer_norms(k, d, HALF) + qk_norms(k, d, HALF) + experts(k),
    }
}

/// What the first `n` layers have.
pub open spec fn layers_items(f: Family, layers: Seq<LayerNames>, n: nat) -> Seq<ItemView>
    decreases n,
{
    if n == 0 {
        Seq::empty()
    } else {
        layers_items(f, layers, (n - 1) as nat) + layer_items(f, layers[n - 1])
    }
}

/// What a model has outside its layers, besides the embedding.
pub open spec fn outer_items(f: Family, k: ModelNames) -> Seq<ItemView> {
    let e = extents(f);
    let number = if f == Family::Gemma3 {
        ZERO
    } else {
        ONE
    };
    let last = seq![vector_item(Some(k.final_norm@), e.hidden, number)];
    if f == Family::E2b {
        last + seq![
            matrix_item(opt_text(k.per_layer_model_projection), 16, e.hidden, true),
            matrix_item(opt_text(k.per_layer_embed), e.vocab, 16, true),
            vector_item(opt_text(k.per_layer_projection_norm), PER_LAYER_DIM, ONE),
        ]
    } else {
        last
    }
}

/// Where a family's seeds come from.
pub open spec fn rule_of(f: Family) -> SeedRule {
    match f {
        Family::Tiny => SeedRule::Stream,
        Family::Gemma3 | Family::Starcoder2 | Family::E2b => SeedRule::Counted,
        Family::Q4k | Family::Q4kSilu | Family::Moe => SeedRule::Chained,
    }
}

/// The scale of a family's numbers.
pub open spec fn scale_of(f: Family) -> u32 {
    match f {
        Family::Tiny | Family::Gemma3 | Family::Starcoder2 => TENTH,
        Family::E2b => ZERO,
        Family::Q4k | Family::Q4kSilu | Family::Moe => TWENTIETH,
    }
}

/// The first seed of the families that draw their embedding from it.
pub open spec fn first_seed(f: Family) -> u64 {
    match f {
        Family::Tiny => 0xdeadbeef,
        Family::Gemma3 => 0xdeadbeef,
        Family::Starcoder2 => 0xfeedbabe,
        Family::E2b => 0,
        Family::Q4k => 0xc0ffee,
        Family::Q4kSilu => 0xdeadc0de,
        Family::Moe => 0xb000_1eef,
    }
}

/// The embedding, the output matrix, and the seed state behind them.
pub open spec fn ends(f: Family) -> (DrawnView, DrawnView, u64) {
    let e = extents(f);
    let (rows, cols, scale) = (e.vocab as nat, e.hidden as nat, scale_of(f));
    let s = first_seed(f);
    match f {
        Family::Tiny => {
            let t = advanced(s, rows * cols);
            (
                drawn(rows, cols, scale, s),
                drawn(rows, cols, scale, t),
                advanced(t, rows * cols),
            )
        },
        Family::Gemma3 => (
            drawn(rows, cols, scale, 0x9e37_79b9),
            drawn(rows, cols, scale, 0xa1b2_c3d4),
            s,
        ),
        Family::Starcoder2 => (
            drawn(rows, cols, scale, 0x1234_5678),
            drawn(rows, cols, scale, 0x8765_4321),
            s,
        ),
        Family::E2b => (blank(rows, cols), blank(rows, cols), s),
        Family::Q4k | Family::Q4kSilu | Family::Moe => (
            drawn(rows, cols, scale, lcg(s)),
            drawn(rows, cols, scale, lcg(s)),
            lcg(s),
        ),
    }
}

/// A made-up model.
pub struct SyntheticWeights {
    pub parts: Parts,
    pub embed: DrawnMatrix,
    pub lm_head: DrawnMatrix,
    pub num_layers: usize,
    pub hidden_size: usize,
    pub intermediate_size: usize,
    pub vocab_size: usize,
    pub head_dim: usize,
    pub num_q_heads: usize,
    pub num_kv_heads: usize,
    pub rope_base: u64,
    /// What the model's configuration says of its experts, if it has any.
    pub experts: Option<ExpertConfig>,
}

/// What a configuration says of a model's experts.
#[derive(Debug, Clone, Copy, PartialEq, Eq, Structural)]
pub struct ExpertConfig {
    /// Whether the experts stand beside a dense network.
    pub enable_moe_block: bool,
    pub num_experts: usize,
    pub top_k_experts: usize,
    pub moe_intermediate_size: usize,
}

/// What a family's configuration says of its experts.
pub open spec fn experts_of(f: Family) -> Option<ExpertConfig> {
    if f == Family::Moe {
        Some(
            ExpertConfig {
                enable_moe_block: true,
                num_experts: GEMMA4_MOE_NUM_EXPERTS,
                top_k_experts: GEMMA4_MOE_TOP_K,
                moe_intermediate_size: GEMMA4_MOE_INTER,
            },
        )
    } else {
        None
    }
}

impl SyntheticWeights {
    /// The model has experts beside a dense network.
    pub open spec fn hybrid_moe(&self) -> bool {
        self.experts matches Some(e) && e.enable_moe_block
    }

    /// Whether the model has experts beside a dense network.
    pub fn is_hybrid_moe(&self) -> (r: bool)
        ensures
            r == self.hybrid_moe(),
    {
        match &self.experts {
            Some(e) => e.enable_moe_block,
            None => false,
        }
    }
}

/// The tensors of a family's model: the embedding first, then everything else.
pub open spec fn parts_of(f: Family, k: ModelNames) -> PartsView {
    let (embed, _, state) = ends(f);
    let start = PartsView { tensors: Map::empty().insert(k.embed@, embed), ..no_parts() };
    let items = outer_items(f, k) + layers_items(f, k.layers@, k.layers@.len());
    with_items(start, state, items, rule_of(f), scale_of(f)).0
}

/// `w` is the family's model under the keys `k`.
pub open spec fn is_model(w: SyntheticWeights, f: Family, k: ModelNames) -> bool {
    let e = extents(f);
    &&& w.parts.wf()
    &&& w.parts@ == parts_of(f, k)
    &&& w.embed@ == ends(f).0
    &&& w.lm_head@ == ends(f).1
    &&& w.num_layers == e.num_layers
    &&& w.hidden_size == e.hidden
    &&& w.intermediate_size == e.inter
    &&& w.vocab_size == e.vocab
    &&& w.head_dim == e.head_dim
    &&& w.num_q_heads == e.num_q
    &&& w.num_kv_heads == e.num_kv
    &&& w.rope_base == ROPE_BASE
    &&& w.experts == experts_of(f)
}

/// An item that is a matrix.
fn put_matrix(items: &mut Vec<Item>, key: Option<String>, rows: usize, cols: usize, is_blank: bool)
    requires
        all_fit(item_views(old(items)@)),
        rows * cols <= usize::MAX,
    ensures
        all_fit(item_views(final(items)@)),
        item_views(final(items)@) == item_views(old(items)@).push(
            matrix_item(opt_text(key), rows, cols, is_blank),
        ),
{
    let ghost before = items@;
    let content = if is_blank {
        Content::Blank { rows, cols }
    } else {
        Content::Drawn { rows, cols }
    };
    let ghost view = matrix_item(opt_text(key), rows, cols, is_blank);
    items.push(Item { key, content });
    assert(item_views(items@) =~= item_views(before).push(view));
}

/// An item that is a vector of equal numbers.
fn put_vector(items: &mut Vec<Item>, key: Option<String>, len: usize, number: u32)
    requires
        all_fit(item_views(old(items)@)),
    ensures
        all_fit(item_views(final(items)@)),
        item_views(final(items)@) == item_views(old(items)@).push(
            vector_item(opt_text(key), len, number),
        ),
{
    let ghost before = items@;
    let ghost view = vector_item(opt_text(key), len, number);
    items.push(
        Item { key, content: Content::Vector(FilledVector { len, fill: Fill::Same(number) }) },
    );
    assert(item_views(items@) =~= item_views(before).push(view));
}

/// A copy of a key that may be missing.
fn copy_key(k: &Option<String>) -> (r: Option<String>)
    ensures
        opt_text(r) == opt_text(*k),
{
    match k {
        Some(s) => Some(s.clone()),
        None => None,
    }
}

/// Puts the projections of attention.
fn put_attention(items: &mut Vec<Item>, k: &LayerNames, d: LayerExtents, is_blank: bool)
    requires
        all_fit(item_views(old(items)@)),
        small(d),
    ensures
        all_fit(item_views(final(items)@)),
        item_views(final(items)@) == item_views(old(items)@) + attention(*k, d, is_blank),
{
    let ghost before = item_views(items@);
    proof {
        small_product(d.q_dim, d.hidden);
        small_product(d.kv_dim, d.hidden);
        small_product(d.hidden, d.q_dim);
    }
    put_matrix(items, Some(k.attn_q.clone()), d.q_dim, d.hidden, is_blank);
    put_matrix(items, Some(k.attn_k.clone()), d.kv_dim, d.hidden, is_blank);
    put_matrix(items, Some(k.attn_v.clone()), d.kv_dim, d.hidden, is_blank);
    put_matrix(items, Some(k.attn_o.clone()), d.hidden, d.q_dim, is_blank);
    assert(item_views(items@) =~= before + attention(*k, d, is_blank));
}

/// Puts the feed-forward network.
fn put_feed_forward(items: &mut Vec<Item>, k: &LayerNames, d: LayerExtents, is_blank: bool)
    requires
        all_fit(item_views(old(items)@)),
        small(d),
    ensures
        all_fit(item_views(final(items)@)),
        item_views(final(items)@) == item_views(old(items)@) + feed_forward(*k, d, is_blank),
{
    let ghost before = item_views(items@);
    proof {
        small_product(d.inter, d.hidden);
        small_product(d.hidden, d.inter);
    }
    put_matrix(items, Some(k.ffn_gate.clone()), d.inter, d.hidden, is_blank);
    put_matrix(items, Some(k.ffn_up.clone()), d.inter, d.hidden, is_blank);
    put_matrix(items, Some(k.ffn_down.clone()), d.hidden, d.inter, is_blank);
    assert(item_views(items@) =~= before + feed_forward(*k, d, is_blank));
}

/// Puts the norms before attention and before the feed-forward network.
fn put_norms(items: &mut Vec<Item>, k: &LayerNames, d: LayerExtents, number: u32)
    requires
        all_fit(item_views(old(items)@)),
    ensures
        all_fit(item_views(final(items)@)),
        item_views(final(items)@) == item_views(old(items)@) + norms(*k, d, number),
{
    let ghost before = item_views(items@);
    put_vector(items, Some(k.input_norm.clone()), d.hidden, number);
    put_vector(items, Some(k.post_attention_norm.clone()), d.hidden, number);
    assert(item_views(items@) =~= before + norms(*k, d, number));
}

/// Puts the norms around the feed-forward network.
fn put_outer_norms(items: &mut Vec<Item>, k: &LayerNames, d: LayerExtents, number: u32)
    requires
        all_fit(item_views(old(items)@)),
    ensures
        all_fit(item_views(final(items)@)),
        item_views(final(items)@) == item_views(old(items)@) + outer_norms(*k, d, number),
{
    let ghost before = item_views(items@);
    put_vector(items, copy_key(&k.pre_ffn_norm), d.hidden, number);
    put_vector(items, copy_key(&k.post_ffn_norm), d.hidden, number);
    assert(item_views(items@) =~= before + outer_norms(*k, d, number));
}

/// Puts the norms of queries and keys.
fn put_qk_norms(items: &mut Vec<Item>, k: &LayerNames, d: LayerExtents, number: u32)
    requires
        all_fit(item_views(old(items)@)),
    ensures
        all_fit(item_views(final(items)@)),
        item_views(final(items)@) == item_views(old(items)@) + qk_norms(*k, d, number),
{
    let ghost before = item_views(items@);
    put_vector(items, copy_key(&k.q_norm), d.head_dim, number);
    put_vector(items, copy_key(&k.k_norm), d.head_dim, number);
    assert(item_views(items@) =~= before + qk_norms(*k, d, number));
}

/// Puts the biases and the feed-forward network with its biases.
fn put_biased(items: &mut Vec<Item>, k: &LayerNames, d: LayerExtents)
    requires
        all_fit(item_views(old(items)@)),
        small(d),
    ensures
        all_fit(item_views(final(items)@)),
        item_views(final(items)@) == item_views(old(items)@) + biased(*k, d),
{
    let ghost before = item_views(items@);
    proof {
        small_product(d.inter, d.hidden);
        small_product(d.hidden, d.inter);
    }
    put_vector(items, copy_key(&k.q_bias), d.q_dim, HUNDREDTH);
    put_vector(items, copy_key(&k.k_bias), d.kv_dim, HUNDREDTH);
    put_vector(items, copy_key(&k.v_bias), d.kv_dim, HUNDREDTH);
    put_vector(items, copy_key(&k.o_bias), d.hidden, HUNDREDTH);
    put_matrix(items, Some(k.ffn_up.clone()), d.inter, d.hidden, false);
    put_matrix(items, Some(k.ffn_down.clone()), d.hidden, d.inter, false);
    put_matrix(items, Some(k.ffn_gate.clone()), d.inter, d.hidden, false);
    put_vector(items, copy_key(&k.up_bias), d.inter, HUNDREDTH);
    put_vector(items, copy_key(&k.down_bias), d.hidden, HUNDREDTH);
    assert(item_views(items@) =~= before + biased(*k, d));
}

/// Puts what a layer has for the embeddings of its own.
fn put_per_layer(items: &mut Vec<Item>, k: &LayerNames, d: LayerExtents)
    requires
        all_fit(item_views(old(items)@)),
        small(d),
    ensures
        all_fit(item_views(final(items)@)),
        item_views(final(items)@) == item_views(old(items)@) + per_layer(*k, d),
{
    let ghost before = item_views(items@);
    proof {
        small_product(PER_LAYER_DIM, d.hidden);
        small_product(d.hidden, PER_LAYER_DIM);
    }
    put_matrix(items, copy_key(&k.per_layer_gate), PER_LAYER_DIM, d.hidden, true);
    put_matrix(items, copy_key(&k.per_layer_projection), d.hidden, PER_LAYER_DIM, true);
    put_vector(items, copy_key(&k.per_layer_norm), d.hidden, ONE);
    assert(item_views(items@) =~= before + per_layer(*k, d));
}

/// Puts what a layer has for its experts.
fn put_experts(items: &mut Vec<Item>, k: &LayerNames)
    requires
        all_fit(item_views(old(items)@)),
    ensures
        all_fit(item_views(final(items)@)),
        item_views(final(items)@) == item_views(old(items)@) + experts(*k),
{
    let ghost before = item_views(items@);
    put_vector(items, copy_key(&k.layer_scalar), 1, ONE);
    let router: usize = GEMMA4_MOE_NUM_EXPERTS * GEMMA4_MOE_HIDDEN;
    let gate_up: usize = GEMMA4_MOE_NUM_EXPERTS * (2 * GEMMA4_MOE_INTER * GEMMA4_MOE_HIDDEN);
    let down: usize = GEMMA4_MOE_NUM_EXPERTS * (GEMMA4_MOE_HIDDEN * GEMMA4_MOE_INTER);
    let ghost after_scalar = item_views(items@);
    items.push(
        Item {
            key: copy_key(&k.router),
            content: Content::Vector(FilledVector { len: router, fill: Fill::Wave }),
        },
    );
    items.push(
        Item {
            key: copy_key(&k.packed_gate_up),
            content: Content::Packed(PackedRamp { count: gate_up, ramp: Ramp::GateUp }),
        },
    );
    items.push(
        Item {
            key: copy_key(&k.packed_down),
            content: Content::Packed(PackedRamp { count: down, ramp: Ramp::Down }),
        },
    );
    assert(router == 1024 && gate_up == 524288 && down == 262144);
    assert(item_views(items@) =~= after_scalar + experts(*k).skip(1));
    assert(item_views(items@) =~= before + experts(*k));
}

/// The extents of one layer.
fn layer_extents_of(f: Family, sliding: bool) -> (r: LayerExtents)
    ensures
        r == layer_extents(f, sliding),
        small(r),
{
    let e = extents_of(f);
    let head_dim: usize = match f {
        Family::E2b => if sliding {
            e.head_dim
        } else {
            GLOBAL_HEAD_DIM
        },
        _ => e.head_dim,
    };
    assert(e.num_q * head_dim <= 256 && e.num_kv * head_dim <= 256) by (nonlinear_arith)
        requires
            e.num_q == 2 && head_dim <= 8 || e.num_q == 4 && head_dim == 64,
            e.num_kv <= 2,
            head_dim <= 64,
    ;
    LayerExtents {
        hidden: e.hidden,
        inter: e.inter,
        q_dim: e.num_q * head_dim,
        kv_dim: e.num_kv * head_dim,
        head_dim,
    }
}

/// Puts what one layer has.
fn put_layer(items: &mut Vec<Item>, f: Family, k: &LayerNames)
    requires
        all_fit(item_views(old(items)@)),
    ensures
        all_fit(item_views(final(items)@)),
        item_views(final(items)@) == item_views(old(items)@) + layer_items(f, *k),
{
    let ghost before = item_views(items@);
    let d = layer_extents_of(f, k.sliding);
    match f {
        Family::Tiny | Family::Q4kSilu => {
            put_attention(items, k, d, false);
            put_feed_forward(items, k, d, false);
            put_norms(items, k, d, ONE);
        },
        Family::Gemma3 => {
            put_attention(items, k, d, false);
            put_feed_forward(items, k, d, false);
            put_norms(items, k, d, ZERO);
            put_outer_norms(items, k, d, ZERO);
            put_qk_norms(items, k, d, ZERO);
        },
        Family::Starcoder2 => {
            put_attention(items, k, d, false);
            put_biased(items, k, d);
            put_norms(items, k, d, ONE);
        },
        Family::E2b => {
            put_attention(items, k, d, true);
            put_feed_forward(items, k, d, true);
            put_norms(items, k, d, ONE);
            put_per_layer(items, k, d);
        },
        Family::Q4k => {
            put_attention(items, k, d, false);
            put_feed_forward(items, k, d, false);
            put_norms(items, k, d, HALF);
            put_outer_norms(items, k, d, HALF);
        },
        Family::Moe => {
            put_attention(items, k, d, false);
            put_feed_forward(items, k, d, false);
            put_norms(items, k, d, HALF);
            put_outer_norms(items, k, d, HALF);
            put_qk_norms(items, k, d, HALF);
            put_experts(items, k);
        },
    }
    assert(item_views(items@) =~= before + layer_items(f, *k));
}

/// Puts what a model has outside its layers.
fn put_outer(items: &mut Vec<Item>, f: Family, k: &ModelNames)
    requires
        all_fit(item_views(old(items)@)),
    ensures
        all_fit(item_views(final(items)@)),
        item_views(final(items)@) == item_views(old(items)@) + outer_items(f, *k),
{
    let ghost before = item_views(items@);
    let e = extents_of(f);
    let number: u32 = match f {
        Family::Gemma3 => ZERO,
        _ => ONE,
    };
    put_vector(items, Some(k.final_norm.clone()), e.hidden, number);
    match f {
        Family::E2b => {
            let width: usize = e.num_layers * PER_LAYER_DIM;
            put_matrix(items, copy_key(&k.per_layer_model_projection), width, e.hidden, true);
            put_matrix(items, copy_key(&k.per_layer_embed), e.vocab, width, true);
            put_vector(items, copy_key(&k.per_layer_projection_norm), PER_LAYER_DIM, ONE);
        },
        _ => {},
    }
    assert(item_views(items@) =~= before + outer_items(f, *k));
}

/// The embedding, the output matrix, and the seed state behind them.
fn make_ends(f: Family) -> (r: (DrawnMatrix, DrawnMatrix, u64))
    ensures
        (r.0@, r.1@, r.2) == ends(f),
{
    let e = extents_of(f);
    proof {
        small_product(e.vocab, e.hidden);
    }
    match f {
        Family::Tiny => {
            let seed: u64 = 0xdeadbeef;
            let embed = rand_mat_seeded(e.vocab, e.hidden, TENTH, seed);
            let middle = skip_draws(seed, e.vocab * e.hidden);
            let lm_head = rand_mat_seeded(e.vocab, e.hidden, TENTH, middle);
            (embed, lm_head, skip_draws(middle, e.vocab * e.hidden))
        },
        Family::Gemma3 => (
            rand_mat_seeded(e.vocab, e.hidden, TENTH, 0x9e37_79b9),
            rand_mat_seeded(e.vocab, e.hidden, TENTH, 0xa1b2_c3d4),
            0xdeadbeef,
        ),
        Family::Starcoder2 => (
            rand_mat_seeded(e.vocab, e.hidden, TENTH, 0x1234_5678),
            rand_mat_seeded(e.vocab, e.hidden, TENTH, 0x8765_4321),
            0xfeedbabe,
        ),
        Family::E2b => (blank_matrix(e.vocab, e.hidden), blank_matrix(e.vocab, e.hidden), 0),
        Family::Q4k | Family::Q4kSilu | Family::Moe => {
            let first: u64 = match f {
                Family::Q4k => 0xc0ffee,
                Family::Q4kSilu => 0xdeadc0de,
                _ => 0xb000_1eef,
            };
            let seed = next_state(first);
            let embed = rand_mat_seeded(e.vocab, e.hidden, TWENTIETH, seed);
            let lm_head = copy_matrix(&embed);
            (embed, lm_head, seed)
        },
    }
}

/// Makes a family's model.
fn make(f: Family, k: &ModelNames) -> (r: SyntheticWeights)
    requires
        k.layers@.len() == extents(f).num_layers,
    ensures
        is_model(r, f, *k),
{
    let e = extents_of(f);
    let (embed, lm_head, state) = make_ends(f);
    let mut parts = Parts::new();
    let copy = copy_matrix(&embed);
    parts.put_tensor(k.embed.clone(), copy);
    let mut items: Vec<Item> = Vec::new();
    assert(item_views(items@) =~= Seq::<ItemView>::empty());
    put_outer(&mut items, f, k);
    assert(item_views(items@) =~= outer_items(f, *k) + layers_items(f, k.layers@, 0));
    for l in 0..k.layers.len()
        invariant
            all_fit(item_views(items@)),
            item_views(items@) == outer_items(f, *k) + layers_items(f, k.layers@, l as nat),
    {
        put_layer(&mut items, f, &k.layers[l]);
        assert(item_views(items@) =~= outer_items(f, *k) + layers_items(
            f,
            k.layers@,
            (l + 1) as nat,
        ));
    }
    let rule = match f {
        Family::Tiny => SeedRule::Stream,
        Family::Gemma3 | Family::Starcoder2 | Family::E2b => SeedRule::Counted,
        Family::Q4k | Family::Q4kSilu | Family::Moe => SeedRule::Chained,
    };
    let scale: u32 = match f {
        Family::Tiny | Family::Gemma3 | Family::Starcoder2 => TENTH,
        Family::E2b => ZERO,
        Family::Q4k | Family::Q4kSilu | Family::Moe => TWENTIETH,
    };
    proof {
        assert forall|i: int| 0 <= i < items@.len() implies content_fits(
            (#[trigger] items@[i]).content,
        ) by {
            assert(content_fits(item_views(items@)[i].content));
        }
    }
    parts.add_all(state, &items, rule, scale);
    SyntheticWeights {
        parts,
        embed,
        lm_head,
        num_layers: e.num_layers,
        hidden_size: e.hidden,
        intermediate_size: e.inter,
        vocab_size: e.vocab,
        head_dim: e.head_dim,
        num_q_heads: e.num_q,
        num_kv_heads: e.num_kv,
        rope_base: ROPE_BASE,
        experts: match f {
            Family::Moe => Some(
                ExpertConfig {
                    enable_moe_block: true,
                    num_experts: GEMMA4_MOE_NUM_EXPERTS,
                    top_k_experts: GEMMA4_MOE_TOP_K,
                    moe_intermediate_size: GEMMA4_MOE_INTER,
                },
            ),
            _ => None,
        },
    }
}

/// The plainest model.
pub fn make_test_weights(k: &ModelNames) -> (r: SyntheticWeights)
    requires
        k.layers@.len() == 2,
    ensures
        is_model(r, Family::Tiny, *k),
{
    make(Family::Tiny, k)
}

/// The model with norms behind the blocks and on queries and keys.
pub fn make_gemma3_test_weights(k: &ModelNames) -> (r: SyntheticWeights)
    requires
        k.layers@.len() == 2,
    ensures
        is_model(r, Family::Gemma3, *k),
{
    make(Family::Gemma3, k)
}

/// The model with biases.
pub fn make_starcoder2_test_weights(k: &ModelNames) -> (r: SyntheticWeights)
    requires
        k.layers@.len() == 2,
    ensures
        is_model(r, Family::Starcoder2, *k),
{
    make(Family::Starcoder2, k)
}

/// The model with embeddings for each layer.
pub fn make_synthetic_e2b_like_weights(k: &ModelNames) -> (r: SyntheticWeights)
    requires
        k.layers@.len() == 4,
    ensures
        is_model(r, Family::E2b, *k),
{
    make(Family::E2b, k)
}

/// The model for quantized blocks with norms behind the blocks.
pub fn make_test_q4k_weights(k: &ModelNames) -> (r: SyntheticWeights)
    requires
        k.layers@.len() == 2,
    ensures
        is_model(r, Family::Q4k, *k),
{
    make(Family::Q4k, k)
}

/// The plain model for quantized blocks.
pub fn make_test_q4k_weights_silu(k: &ModelNames) -> (r: SyntheticWeights)
    requires
        k.layers@.len() == 2,
    ensures
        is_model(r, Family::Q4kSilu, *k),
{
    make(Family::Q4kSilu, k)
}

/// The model with experts.  Every layer has keys for the router and for the
/// packed experts.
pub fn make_test_gemma4_moe_weights(k: &ModelNames) -> (r: SyntheticWeights)
    requires
        k.layers@.len() == 2,
        forall|l: int|
            0 <= l < 2 ==> (#[trigger] k.layers@[l]).router is Some
                && k.layers@[l].packed_gate_up is Some && k.layers@[l].packed_down is Some,
    ensures
        is_model(r, Family::Moe, *k),
{
    make(Family::Moe, k)
}

/// What layer `l` has is among what all layers have.
proof fn layer_among(f: Family, layers: Seq<LayerNames>, n: nat, l: int, i: int) -> (j: int)
    requires
        0 <= l < n <= layers.len(),
        0 <= i < layer_items(f, layers[l]).len(),
    ensures
        0 <= j < layers_items(f, layers, n).len(),
        layers_items(f, layers, n)[j] == layer_items(f, layers[l])[i],
    decreases n,
{
    if l == n - 1 {
        layers_items(f, layers, (n - 1) as nat).len() + i
    } else {
        layer_among(f, layers, (n - 1) as nat, l, i)
    }
}

/// Whatever a layer has under a key is in the model: no layer misses a tensor.
pub proof fn layer_tensor_present(w: SyntheticWeights, f: Family, k: ModelNames, l: int, i: int)
    requires
        is_model(w, f, k),
        0 <= l < k.layers@.len(),
        0 <= i < layer_items(f, k.layers@[l]).len(),
        layer_items(f, k.layers@[l])[i].key is Some,
    ensures
        ({
            let key = layer_items(f, k.layers@[l])[i].key->0;
            match layer_items(f, k.layers@[l])[i].content {
                Content::Drawn { .. } => w.parts@.tensors.dom().contains(key),
                Content::Blank { .. } => w.parts@.tensors.dom().contains(key),
                Content::Vector(_) => w.parts@.vectors.dom().contains(key),
                Content::Packed(_) => w.parts@.raw_bytes.dom().contains(key),
            }
        }),
{
    let (embed, _, state) = ends(f);
    let start = PartsView { tensors: Map::empty().insert(k.embed@, embed), ..no_parts() };
    let outer = outer_items(f, k);
    let items = outer + layers_items(f, k.layers@, k.layers@.len());
    let j = layer_among(f, k.layers@, k.layers@.len(), l, i);
    assert(items[outer.len() + j] == layer_items(f, k.layers@[l])[i]);
    item_present(start, state, items, rule_of(f), scale_of(f), outer.len() + j);
}

/// A packed tensor of a layer with experts is one of its two.
pub open spec fn is_packed_of(item: ItemView, k: LayerNames) -> bool {
    ||| item.key == opt_text(k.packed_gate_up) && item.content == Content::Packed(
        PackedRamp { count: 524288, ramp: Ramp::GateUp },
    )
    ||| item.key == opt_text(k.packed_down) && item.content == Content::Packed(
        PackedRamp { count: 262144, ramp: Ramp::Down },
    )
}

/// Every packed tensor of the layers is one of a layer's two.
proof fn packed_items(layers: Seq<LayerNames>, n: nat, i: int)
    requires
        n <= layers.len(),
        0 <= i < layers_items(Family::Moe, layers, n).len(),
        layers_items(Family::Moe, layers, n)[i].content is Packed,
    ensures
        exists|l: int|
            0 <= l < n && is_packed_of(
                layers_items(Family::Moe, layers, n)[i],
                #[trigger] layers[l],
            ),
    decreases n,
{
    let before = layers_items(Family::Moe, layers, (n - 1) as nat);
    let k = layers[n - 1];
    if i < before.len() {
        packed_items(layers, (n - 1) as nat, i);
        let l = choose|l: int|
            0 <= l < n - 1 && is_packed_of(before[i], #[trigger] layers[l]);
        assert(is_packed_of(layers_items(Family::Moe, layers, n)[i], layers[l]));
    } else {
        let own = layer_items(Family::Moe, k);
        let item = own[i - before.len()];
        assert(layers_items(Family::Moe, layers, n)[i] == item);
        let e = experts(k);
        let at = i - before.len() - (own.len() - e.len());
        if at >= 0 {
            assert(item == e[at]);
        }
        assert(is_packed_of(item, layers[n - 1]));
    }
}

/// No layer's packed gate and up tensor has the key of a packed down tensor.
pub open spec fn packed_keys_apart(layers: Seq<LayerNames>) -> bool {
    forall|i: int, j: int|
        0 <= i < layers.len() && 0 <= j < layers.len() && opt_text(
            (#[trigger] layers[i]).packed_gate_up,
        ) is Some ==> opt_text(layers[i].packed_gate_up) != opt_text(
            (#[trigger] layers[j]).packed_down,
        )
}

/// The packed tensor under a key of the model with experts is one of a layer's
/// two.
proof fn packed_under(w: SyntheticWeights, k: ModelNames, key: Seq<char>)
    requires
        is_model(w, Family::Moe, k),
        w.parts@.raw_bytes.dom().contains(key),
    ensures
        exists|l: int|
            0 <= l < k.layers@.len() && is_packed_of(
                (ItemView { key: Some(key), content: Content::Packed(w.parts@.raw_bytes[key]) }),
                #[trigger] k.layers@[l],
            ),
{
    let f = Family::Moe;
    let (embed, _, state) = ends(f);
    let start = PartsView { tensors: Map::empty().insert(k.embed@, embed), ..no_parts() };
    let outer = outer_items(f, k);
    let inner = layers_items(f, k.layers@, k.layers@.len());
    let items = outer + inner;
    packed_from_item(start, state, items, rule_of(f), scale_of(f), key);
    let i = choose|i: int|
        0 <= i < items.len() && (#[trigger] items[i]).key == Some(key) && items[i].content
            == Content::Packed(w.parts@.raw_bytes[key]);
    assert(i >= outer.len());
    assert(items[i] == inner[i - outer.len()]);
    packed_items(k.layers@, k.layers@.len(), i - outer.len());
}

/// The model with experts: two of them under the same keys are the same; its
/// experts stand beside a dense network; the output matrix is the embedding; every layer has its router and its packed
/// experts, and the packed gate and up tensor is twice as long as the packed
/// down tensor.
pub proof fn expert_model_facts(
    w: SyntheticWeights,
    other: SyntheticWeights,
    k: ModelNames,
    l: int,
)
    requires
        is_model(w, Family::Moe, k),
        is_model(other, Family::Moe, k),
        0 <= l < k.layers@.len(),
        k.layers@[l].router is Some,
        k.layers@[l].packed_gate_up is Some,
        k.layers@[l].packed_down is Some,
        packed_keys_apart(k.layers@),
    ensures
        w.parts@ == other.parts@ && w.embed@ == other.embed@ && w.lm_head@ == other.lm_head@,
        w.hybrid_moe(),
        w.lm_head@ == w.embed@,
        w.parts@.vectors.dom().contains(opt_text(k.layers@[l].router)->0),
        ({
            let up = opt_text(k.layers@[l].packed_gate_up)->0;
            let down = opt_text(k.layers@[l].packed_down)->0;
            &&& w.parts@.raw_bytes.dom().contains(up)
            &&& w.parts@.raw_bytes.dom().contains(down)
            &&& w.parts@.raw_bytes[up].count == 2 * w.parts@.raw_bytes[down].count
        }),
{
    let names = k.layers@[l];
    let own = layer_items(Family::Moe, names);
    let first = own.len() - 4;
    assert(own[first + 1] == experts(names)[1]);
    assert(own[first + 2] == experts(names)[2]);
    assert(own[first + 3] == experts(names)[3]);
    layer_tensor_present(w, Family::Moe, k, l, first + 1);
    layer_tensor_present(w, Family::Moe, k, l, first + 2);
    layer_tensor_present(w, Family::Moe, k, l, first + 3);
    let up = opt_text(names.packed_gate_up)->0;
    let down = opt_text(names.packed_down)->0;
    packed_under(w, k, up);
    packed_under(w, k, down);
    assert(w.parts@.raw_bytes[up].count == 524288) by {
        let at = choose|at: int|
            0 <= at < k.layers@.len() && is_packed_of(
                (ItemView { key: Some(up), content: Content::Packed(w.parts@.raw_bytes[up]) }),
                #[trigger] k.layers@[at],
            );
        assert(opt_text(k.layers@[l].packed_gate_up) != opt_text(k.layers@[at].packed_down));
    }
    assert(w.parts@.raw_bytes[down].count == 262144) by {
        let at = choose|at: int|
            0 <= at < k.layers@.len() && is_packed_of(
                (ItemView { key: Some(down), content: Content::Packed(w.parts@.raw_bytes[down]) }),
                #[trigger] k.layers@[at],
            );
        if opt_text(k.layers@[at].packed_gate_up) is Some {
            assert(opt_text(k.layers@[at].packed_gate_up) != opt_text(k.layers@[l].packed_down));
        }
    }
}

/// The layer has the keys for experts that the family uses.
pub open spec fn has_expert_names(k: LayerNames, layer: nat) -> bool {
    &&& opt_text(k.router) == Some(layer_key(layer, "router.proj.weight"@))
    &&& opt_text(k.packed_gate_up) == Some(layer_key(layer, "experts.gate_up_proj"@))
    &&& opt_text(k.packed_down) == Some(layer_key(layer, "experts.down_proj"@))
}

impl LayerNames {
    /// The layer with the keys for experts that the family uses.
    pub fn with_expert_names(self, layer: usize) -> (r: LayerNames)
        ensures
            has_expert_names(r, layer as nat),
            r == (LayerNames {
                router: r.router,
                packed_gate_up: r.packed_gate_up,
                packed_down: r.packed_down,
                ..self
            }),
    {
        let mut names = self;
        names.router = Some(layer_key_string(layer, "router.proj.weight"));
        names.packed_gate_up = Some(layer_key_string(layer, "experts.gate_up_proj"));
        names.packed_down = Some(layer_key_string(layer, "experts.down_proj"));
        names
    }
}

/// The keys of the packed gate and up tensors are none of the packed down
/// tensors'.
proof fn expert_names_apart(i: nat, j: nat)
    ensures
        layer_key(i, "experts.gate_up_proj"@) != layer_key(j, "experts.down_proj"@),
{
    reveal_strlit("experts.gate_up_proj");
    reveal_strlit("experts.down_proj");
    let a = layer_key(i, "experts.gate_up_proj"@);
    let b = layer_key(j, "experts.down_proj"@);
    assert(a[a.len() - 6] == 'p');
    assert(b[b.len() - 6] == 'n');
}

/// The model with experts under the keys that the family uses: every layer has
/// its router under `router.proj.weight` and its packed experts under
/// `experts.gate_up_proj` and `experts.down_proj`, the first twice as long as
/// the second; two such models are the same; the experts stand beside a dense
/// network; the output matrix is the embedding.
pub proof fn named_expert_model_facts(
    w: SyntheticWeights,
    other: SyntheticWeights,
    k: ModelNames,
    l: int,
)
    requires
        is_model(w, Family::Moe, k),
        is_model(other, Family::Moe, k),
        forall|i: int|
            0 <= i < k.layers@.len() ==> has_expert_names(#[trigger] k.layers@[i], i as nat),
        0 <= l < k.layers@.len(),
    ensures
        w.parts@ == other.parts@ && w.embed@ == other.embed@ && w.lm_head@ == other.lm_head@,
        w.hybrid_moe(),
        w.lm_head@ == w.embed@,
        w.parts@.vectors.dom().contains(layer_key(l as nat, "router.proj.weight"@)),
        ({
            let up = layer_key(l as nat, "experts.gate_up_proj"@);
            let down = layer_key(l as nat, "experts.down_proj"@);
            &&& w.parts@.raw_bytes.dom().contains(up)
            &&& w.parts@.raw_bytes.dom().contains(down)
            &&& w.parts@.raw_bytes[up].count == 2 * w.parts@.raw_bytes[down].count
        }),
{
    assert forall|i: int, j: int|
        0 <= i < k.layers@.len() && 0 <= j < k.layers@.len() && opt_text(
            (#[trigger] k.layers@[i]).packed_gate_up,
        ) is Some implies opt_text(k.layers@[i].packed_gate_up) != opt_text(
        (#[trigger] k.layers@[j]).packed_down,
    ) by {
        expert_names_apart(i as nat, j as nat);
    }
    assert(has_expert_names(k.layers@[l], l as nat));
    expert_model_facts(w, other, k, l);
}

/// The bytes of a packed tensor: the high half of each number's bit pattern,
/// the lower byte first.
pub open spec fn packed_bytes(numbers: Seq<u32>, count: nat) -> Seq<u8> {
    Seq::new(
        2 * count,
        |i: int|
            {
                let v = numbers[(i / 2) % 256];
                if i % 2 == 0 {
                    (v as nat / 0x1_0000 % 256) as u8
                } else {
                    (v as nat / 0x100_0000) as u8
                }
            },
    )
}

/// Packs `count` numbers that repeat after 256.
pub fn pack_numbers(numbers: &Vec<u32>, count: usize) -> (r: Vec<u8>)
    requires
        numbers@.len() == 256,
        2 * count <= usize::MAX,
    ensures
        r@ == packed_bytes(numbers@, count as nat),
{
    let mut out: Vec<u8> = Vec::new();
    for i in 0..count
        invariant
            numbers@.len() == 256,
            out@ == packed_bytes(numbers@, i as nat),
    {
        let v: u32 = numbers[i % 256];
        let low: u8 = ((v / 0x1_0000) % 256) as u8;
        let high: u8 = (v / 0x100_0000) as u8;
        out.push(low);
        out.push(high);
        proof {
            let next = packed_bytes(numbers@, (i + 1) as nat);
            assert((2 * i) / 2 == i && (2 * i + 1) / 2 == i);
            assert(next[2 * i] == low && next[2 * i + 1] == high);
            assert(out@ =~= next);
        }
    }
    out
}

} // verus!
