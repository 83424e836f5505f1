//! What holds of the shapes of the small made-up models.
use vstd::prelude::*;

use vstd::arithmetic::div_mod::{lemma_add_mod_noop, lemma_small_mod};
use vstd::arithmetic::power2::{lemma2_to64, lemma_pow2_adds, pow2};

use crate::kv::numbers::number_of;
use crate::models::synthetic::{
    advanced, draws, lcg, no_parts, seed_of, state_behind, with_item, with_items, Content,
    ItemView, PartsView, SeedRule, HALF, HUNDREDTH, ONE, TENTH, TWENTIETH, ZERO,
};
use crate::models::synthetic_families::{
    attention, biased, ends, feed_forward, is_model, layer_extents, layer_items, layers_items,
    make_gemma3_test_weights, make_starcoder2_test_weights, make_synthetic_e2b_like_weights,
    make_test_gemma4_moe_weights, make_test_q4k_weights, make_test_q4k_weights_silu,
    make_test_weights, norms, outer_items, packed_bytes, per_layer, rule_of, scale_of, Family,
    LayerNames, ModelNames, SyntheticWeights,
};
use crate::text::opt_text;

verus! {

/// An item that is a matrix with these extents.
pub open spec fn is_matrix(item: ItemView, rows: nat, cols: nat) -> bool {
    match item.content {
        Content::Drawn { rows: r, cols: c } => r == rows && c == cols,
        Content::Blank { rows: r, cols: c } => r == rows && c == cols,
        _ => false,
    }
}

/// An item that is no matrix.
pub open spec fn is_no_matrix(item: ItemView) -> bool {
    item.content is Vector || item.content is Packed
}

/// A matrix that all items under its key agree on has its shape in the end.
proof fn shape_kept(
    parts: PartsView,
    state: u64,
    items: Seq<ItemView>,
    rule: SeedRule,
    scale: u32,
    key: Seq<char>,
    i: int,
    rows: nat,
    cols: nat,
)
    requires
        0 <= i < items.len(),
        items[i].key == Some(key),
        is_matrix(items[i], rows, cols),
        forall|j: int|
            0 <= j < items.len() && (#[trigger] items[j]).key == Some(key) ==> is_no_matrix(
                items[j],
            ) || is_matrix(items[j], rows, cols),
    ensures
        ({
            let end = with_items(parts, state, items, rule, scale).0;
            &&& end.tensors.dom().contains(key)
            &&& end.tensors[key].rows == rows
            &&& end.tensors[key].cols == cols
        }),
    decreases items.len(),
{
    let init = items.drop_last();
    let last = items[items.len() - 1];
    assert(items.last() == last);
    if last.key == Some(key) && !is_no_matrix(last) {
        assert(is_matrix(last, rows, cols));
    } else {
        assert(i < init.len());
        assert(init[i] == items[i]);
        assert forall|j: int|
            0 <= j < init.len() && (#[trigger] init[j]).key == Some(key) implies is_no_matrix(
            init[j],
        ) || is_matrix(init[j], rows, cols) by {
            assert(init[j] == items[j]);
        }
        shape_kept(parts, state, init, rule, scale, key, i, rows, cols);
    }
}

/// The key of a layer's matrix `m`: query, key, value, output, gate, up, down,
/// and the two for the embeddings of its own.
pub open spec fn matrix_key(k: LayerNames, m: int) -> Option<Seq<char>> {
    if m == 0 {
        Some(k.attn_q@)
    } else if m == 1 {
        Some(k.attn_k@)
    } else if m == 2 {
        Some(k.attn_v@)
    } else if m == 3 {
        Some(k.attn_o@)
    } else if m == 4 {
        Some(k.ffn_gate@)
    } else if m == 5 {
        Some(k.ffn_up@)
    } else if m == 6 {
        Some(k.ffn_down@)
    } else if m == 7 {
        opt_text(k.per_layer_gate)
    } else {
        opt_text(k.per_layer_projection)
    }
}

/// The width of a layer's heads: twice that of the model where heads have two
/// widths and the layer attends to everything.
pub open spec fn head_width(w: SyntheticWeights, f: Family, sliding: bool) -> nat {
    if f == Family::E2b && !sliding {
        2 * w.head_dim as nat
    } else {
        w.head_dim as nat
    }
}

/// The extents of a layer's matrix `m`, by what it reads and what it gives.
pub open spec fn matrix_shape(w: SyntheticWeights, width: nat, m: int) -> (nat, nat) {
    let (hidden, inter) = (w.hidden_size as nat, w.intermediate_size as nat);
    if m == 0 {
        (w.num_q_heads as nat * width, hidden)
    } else if m == 1 || m == 2 {
        (w.num_kv_heads as nat * width, hidden)
    } else if m == 3 {
        (hidden, w.num_q_heads as nat * width)
    } else if m == 4 || m == 5 {
        (inter, hidden)
    } else if m == 6 {
        (hidden, inter)
    } else if m == 7 {
        (4, hidden)
    } else {
        (hidden, 4)
    }
}

/// The item is matrix `m` of the layer.
pub open spec fn is_layer_matrix(
    item: ItemView,
    w: SyntheticWeights,
    f: Family,
    k: LayerNames,
    m: int,
) -> bool {
    let shape = matrix_shape(w, head_width(w, f, k.sliding), m);
    &&& 0 <= m < 9
    &&& item.key == matrix_key(k, m)
    &&& is_matrix(item, shape.0, shape.1)
}

/// Where matrix `m` stands among what a layer has.
spec fn place_of(f: Family, m: int) -> int {
    if f == Family::Starcoder2 && m == 4 {
        10
    } else if f == Family::Starcoder2 && m == 5 {
        8
    } else if f == Family::Starcoder2 && m == 6 {
        9
    } else if m >= 7 {
        m + 2
    } else {
        m
    }
}

/// Which matrix stands at a place among what a layer has.
spec fn matrix_at(f: Family, i: int) -> int {
    if f == Family::Starcoder2 && i == 10 {
        4
    } else if f == Family::Starcoder2 && i == 8 {
        5
    } else if f == Family::Starcoder2 && i == 9 {
        6
    } else if f == Family::Starcoder2 && i >= 4 {
        -1
    } else if i < 7 {
        i
    } else if f == Family::E2b && (i == 9 || i == 10) {
        i - 2
    } else {
        -1
    }
}

/// The extents of a layer are those of the model.
proof fn layer_extents_are(w: SyntheticWeights, f: Family, k: ModelNames, sliding: bool)
    requires
        is_model(w, f, k),
    ensures
        ({
            let d = layer_extents(f, sliding);
            let width = head_width(w, f, sliding);
            &&& d.hidden == w.hidden_size && d.inter == w.intermediate_size && d.head_dim == width
            &&& d.q_dim == w.num_q_heads as nat * width
            &&& d.kv_dim == w.num_kv_heads as nat * width
        }),
{
    let width = head_width(w, f, sliding);
    assert(w.num_q_heads as nat * width <= 256 && w.num_kv_heads as nat * width <= 256)
        by (nonlinear_arith)
        requires
            w.num_q_heads <= 2 && width <= 8 || w.num_q_heads <= 4 && width <= 64,
            w.num_kv_heads <= 2,
            width <= 64,
    ;
}

/// Every matrix of a layer is one of the nine, with its own key and shape.
#[verifier::rlimit(40)]
proof fn layer_item_is(w: SyntheticWeights, f: Family, k: ModelNames, n: LayerNames, i: int)
    requires
        is_model(w, f, k),
        0 <= i < layer_items(f, n).len(),
    ensures
        matrix_at(f, i) >= 0 ==> is_layer_matrix(layer_items(f, n)[i], w, f, n, matrix_at(f, i)),
        matrix_at(f, i) < 0 ==> is_no_matrix(layer_items(f, n)[i]),
{
    layer_extents_are(w, f, k, n.sliding);
    let d = layer_extents(f, n.sliding);
    let own = layer_items(f, n);
    if f == Family::Starcoder2 {
        if i < 4 {
            assert(own[i] == attention(n, d, false)[i]);
        } else if i < 13 {
            assert(own[i] == biased(n, d)[i - 4]);
        } else {
            assert(own[i] == norms(n, d, ONE)[i - 13]);
        }
    } else if f == Family::E2b {
        if i < 4 {
            assert(own[i] == attention(n, d, true)[i]);
        } else if i < 7 {
            assert(own[i] == feed_forward(n, d, true)[i - 4]);
        } else if i < 9 {
            assert(own[i] == norms(n, d, ONE)[i - 7]);
        } else {
            assert(own[i] == per_layer(n, d)[i - 9]);
        }
    } else {
        if i < 4 {
            assert(own[i] == attention(n, d, false)[i]);
        } else if i < 7 {
            assert(own[i] == feed_forward(n, d, false)[i - 4]);
        } else {
            assert(is_no_matrix(own[i]));
        }
    }
}

/// Every matrix of the layers is one of a layer's nine.
proof fn layers_item_is(w: SyntheticWeights, f: Family, k: ModelNames, n: nat, j: int) -> (l: int)
    requires
        is_model(w, f, k),
        n <= k.layers@.len(),
        0 <= j < layers_items(f, k.layers@, n).len(),
        !is_no_matrix(layers_items(f, k.layers@, n)[j]),
    ensures
        0 <= l < n,
        exists|m: int| #[trigger]
            is_layer_matrix(layers_items(f, k.layers@, n)[j], w, f, k.layers@[l], m),
    decreases n,
{
    let before = layers_items(f, k.layers@, (n - 1) as nat);
    let names = k.layers@[n - 1];
    let item = layers_items(f, k.layers@, n)[j];
    if j < before.len() {
        assert(item == before[j]);
        layers_item_is(w, f, k, (n - 1) as nat, j)
    } else {
        let i = j - before.len();
        assert(item == layer_items(f, names)[i]);
        layer_item_is(w, f, k, names, i);
        assert(is_layer_matrix(item, w, f, names, matrix_at(f, i)));
        n - 1
    }
}

/// What layer `l` has is among what all layers have.
proof fn among_layers(f: Family, layers: Seq<LayerNames>, n: nat, l: int, i: int) -> (j: int)
    requires
        0 <= l < n <= layers.len(),
        0 <= i < layer_items(f, layers[l]).len(),
    ensures
        0 <= j < layers_items(f, layers, n).len(),
        layers_items(f, layers, n)[j] == layer_items(f, layers[l])[i],
    decreases n,
{
    if l == n - 1 {
        layers_items(f, layers, (n - 1) as nat).len() + i
    } else {
        among_layers(f, layers, (n - 1) as nat, l, i)
    }
}

/// No two matrices of a model have the same key.
pub open spec fn matrices_apart(k: ModelNames) -> bool {
    &&& forall|a: int, m: int, b: int, n: int|
        0 <= a < k.layers@.len() && 0 <= b < k.layers@.len() && 0 <= m < 9 && 0 <= n < 9
            && #[trigger] matrix_key(k.layers@[a], m) == #[trigger] matrix_key(k.layers@[b], n)
            && matrix_key(k.layers@[a], m) is Some ==> a == b && m == n
    &&& forall|a: int, m: int|
        0 <= a < k.layers@.len() && 0 <= m < 9 && #[trigger] matrix_key(k.layers@[a], m) is Some
            ==> matrix_key(k.layers@[a], m) != opt_text(k.per_layer_model_projection)
            && matrix_key(k.layers@[a], m) != opt_text(k.per_layer_embed)
}

/// Each layer's matrices stand under their own keys with the shapes that the
/// model's dimensions ask for: query, key and value projections read the
/// model's width and give their heads' numbers, the output projection goes the
/// other way; gate and up read the model's width and give the inner one, and
/// down goes back.
pub proof fn layer_matrices_have_model_shape(
    w: SyntheticWeights,
    f: Family,
    k: ModelNames,
    l: int,
    m: int,
)
    requires
        is_model(w, f, k),
        matrices_apart(k),
        0 <= l < k.layers@.len(),
        0 <= m < 7 || f == Family::E2b && 7 <= m < 9,
        matrix_key(k.layers@[l], m) is Some,
    ensures
        ({
            let key = matrix_key(k.layers@[l], m)->0;
            let shape = matrix_shape(w, head_width(w, f, k.layers@[l].sliding), m);
            &&& w.parts@.tensors.dom().contains(key)
            &&& w.parts@.tensors[key].rows == shape.0
            &&& w.parts@.tensors[key].cols == shape.1
        }),
{
    let names = k.layers@[l];
    let key = matrix_key(names, m)->0;
    let shape = matrix_shape(w, head_width(w, f, names.sliding), m);
    let (embed, _, state) = ends(f);
    let start = PartsView { tensors: Map::empty().insert(k.embed@, embed), ..no_parts() };
    let outer = outer_items(f, k);
    let inner = layers_items(f, k.layers@, k.layers@.len());
    let items = outer + inner;
    let i = place_of(f, m);
    assert(layer_items(f, names).len() > i);
    layer_item_is(w, f, k, names, i);
    assert(matrix_at(f, i) == m);
    let j = among_layers(f, k.layers@, k.layers@.len(), l, i);
    assert(items[outer.len() + j] == layer_items(f, names)[i]);
    assert forall|x: int|
        0 <= x < items.len() && (#[trigger] items[x]).key == Some(key) implies is_no_matrix(
        items[x],
    ) || is_matrix(items[x], shape.0, shape.1) by {
        if x < outer.len() {
            assert(items[x] == outer[x]);
            assert(matrix_key(k.layers@[l], m) != opt_text(k.per_layer_model_projection));
        } else {
            assert(items[x] == inner[x - outer.len()]);
            if !is_no_matrix(items[x]) {
                let a = layers_item_is(w, f, k, k.layers@.len(), x - outer.len());
                let n = choose|n: int| #[trigger]
                    is_layer_matrix(items[x], w, f, k.layers@[a], n);
                assert(matrix_key(k.layers@[a], n) == matrix_key(k.layers@[l], m));
            }
        }
    }
    shape_kept(
        start,
        state,
        items,
        rule_of(f),
        scale_of(f),
        key,
        outer.len() + j,
        shape.0,
        shape.1,
    );
}

/// The embedding and the output matrix have a row for each token and a column
/// for each number of the model's width; the heads make up that width, and the
/// query heads share the key heads evenly.
pub proof fn ends_have_model_shape(w: SyntheticWeights, f: Family, k: ModelNames)
    requires
        is_model(w, f, k),
    ensures
        w.embed@.rows == w.vocab_size && w.embed@.cols == w.hidden_size,
        w.lm_head@.rows == w.vocab_size && w.lm_head@.cols == w.hidden_size,
        w.num_q_heads * w.head_dim == w.hidden_size,
        w.num_q_heads == 2 * w.num_kv_heads,
        w.num_layers == 2 || w.num_layers == 4 && f == Family::E2b,
{
}

/// The generator's next state, as one multiplication and one addition.
#[verifier::spinoff_prover]
proof fn next_state_is(s: u64)
    ensures
        lcg(s) == (s * 6364136223846793005 + 1442695040888963407) % 0x1_0000_0000_0000_0000,
{
    let m: int = s * 6364136223846793005;
    let c: int = 1442695040888963407;
    let k: int = 0x1_0000_0000_0000_0000;
    lemma_small_mod(c as nat, k as nat);
    lemma_add_mod_noop(m, c, k);
    assert(s.wrapping_mul(6364136223846793005) == m % k);
}

/// A draw is the low half of the generator's state: the state before it times
/// 6364136223846793005 plus 1442695040888963407, in 64 bits.
#[verifier::spinoff_prover]
pub proof fn draws_follow_states(seed: u64, n: nat)
    ensures
        draws(seed, n).len() == n,
        advanced(seed, 0) == seed,
        advanced(seed, n + 1) == (advanced(seed, n) * 6364136223846793005 + 1442695040888963407)
            % 0x1_0000_0000_0000_0000,
        draws(seed, n + 1).last() == advanced(seed, n + 1) % 0x1_0000_0000,
        draws(seed, n + 1).drop_last() == draws(seed, n),
{
    assert((n + 1 - 1) as nat == n);
    next_state_is(advanced(seed, n));
    assert(draws(seed, n + 1).drop_last() =~= draws(seed, n));
}

/// A packed tensor holds the upper half of each number's bits, the lower byte
/// first, and its numbers repeat after 256.
pub proof fn packed_numbers_read_back(numbers: Seq<u32>, count: nat, i: int)
    requires
        numbers.len() == 256,
        0 <= i < count,
    ensures
        packed_bytes(numbers, count).len() == 2 * count,
        packed_bytes(numbers, count)[2 * i] + 256 * packed_bytes(numbers, count)[2 * i + 1]
            == numbers[i % 256] / 65536,
{
    assert((2 * i) / 2 == i && (2 * i + 1) / 2 == i);
    assert((2 * i) % 2 == 0 && (2 * i + 1) % 2 == 1);
}

/// The inner width and the vocabulary of a model, and its experts: the models
/// for quantized blocks fill whole blocks of 256 numbers, the others are twice
/// as wide inside and know 32 tokens; only the model with experts has any, four,
/// of which two work on a token.  Positions turn with a base of ten thousand.
pub proof fn models_are_small(w: SyntheticWeights, f: Family, k: ModelNames)
    requires
        is_model(w, f, k),
    ensures
        ({
            let blocks = f == Family::Q4k || f == Family::Q4kSilu || f == Family::Moe;
            &&& blocks ==> w.hidden_size == 256 && w.intermediate_size == 256 && w.vocab_size == 256
            &&& !blocks ==> w.intermediate_size == 2 * w.hidden_size && w.vocab_size == 32
            &&& !blocks ==> w.hidden_size == (if f == Family::E2b {
                8int
            } else {
                16
            })
            &&& f != Family::Moe ==> w.experts is None
            &&& f == Family::Moe ==> (w.experts matches Some(e) && e.enable_moe_block
                && e.num_experts == 4 && e.top_k_experts == 2 && e.moe_intermediate_size
                == w.intermediate_size)
        }),
        w.rope_base as int / 0x10_0000_0000_0000 == 1023 + 13,
        0x10_0000_0000_0000 + w.rope_base as int % 0x10_0000_0000_0000 == 10000 * 0x80_0000_0000,
{
}

/// Where the numbers of the embedding and of the output matrix are drawn from,
/// and how large they are at most.
pub proof fn ends_drawn(w: SyntheticWeights, f: Family, k: ModelNames)
    requires
        is_model(w, f, k),
    ensures
        ({
            let (a, b) = (w.embed@, w.lm_head@);
            &&& f == Family::Tiny ==> a.draws == draws(0xdead_beef, 512) && b.draws == draws(
                advanced(0xdead_beef, 512),
                512,
            )
            &&& f == Family::Gemma3 ==> a.draws == draws(0x9e37_79b9, 512) && b.draws == draws(
                0xa1b2_c3d4,
                512,
            )
            &&& f == Family::Starcoder2 ==> a.draws == draws(0x1234_5678, 512) && b.draws == draws(
                0x8765_4321,
                512,
            )
            &&& f == Family::Q4k ==> a.draws == draws(lcg(0xc0_ffee), 65536)
            &&& f == Family::Q4kSilu ==> a.draws == draws(lcg(0xdead_c0de), 65536)
            &&& f == Family::Moe ==> a.draws == draws(lcg(0xb000_1eef), 65536)
            &&& f == Family::Q4k || f == Family::Q4kSilu || f == Family::Moe ==> a == b && a.scale
                == 0x3D4C_CCCD
            &&& f == Family::Tiny || f == Family::Gemma3 || f == Family::Starcoder2 ==> a.scale
                == 0x3DCC_CCCD && b.scale == 0x3DCC_CCCD
            &&& f == Family::E2b ==> a.scale == 0 && b.scale == 0
        }),
{
    assert(32nat * 16nat == 512 && 256nat * 256nat == 65536) by (nonlinear_arith);
}

/// The scales of the numbers: one half, one, and the nearest numbers to one
/// tenth, one twentieth and one hundredth.
pub proof fn scales_are()
    ensures
        number_of(ZERO) == 0,
        number_of(ONE) == pow2(149),
        2 * number_of(HALF) == pow2(149),
        10 * number_of(TENTH) == pow2(149) + pow2(123),
        20 * number_of(TWENTIETH) == pow2(149) + pow2(123),
        100 * number_of(HUNDREDTH) == pow2(149) - 24 * pow2(119),
{
    lemma2_to64();
    lemma_pow2_adds(23, 126);
    lemma_pow2_adds(1, 125);
    lemma_pow2_adds(27, 122);
    lemma_pow2_adds(1, 122);
    lemma_pow2_adds(28, 121);
    lemma_pow2_adds(2, 121);
    lemma_pow2_adds(30, 119);
    assert(number_of(ONE) == 0x80_0000 * pow2(126));
    assert(number_of(HALF) == 0x80_0000 * pow2(125));
    assert(number_of(TENTH) == 0xCC_CCCD * pow2(122));
    assert(number_of(TWENTIETH) == 0xCC_CCCD * pow2(121));
    assert(number_of(HUNDREDTH) == 0xA3_D70A * pow2(119));
}

/// The widths of the models that are made: those for quantized blocks fill whole
/// blocks, the others are small.
pub proof fn models_made(
    k: &ModelNames,
    tiny: SyntheticWeights,
    gemma: SyntheticWeights,
    star: SyntheticWeights,
    e2b: SyntheticWeights,
    q4k: SyntheticWeights,
    silu: SyntheticWeights,
)
    requires
        call_ensures(make_test_weights, (k,), tiny),
        call_ensures(make_gemma3_test_weights, (k,), gemma),
        call_ensures(make_starcoder2_test_weights, (k,), star),
        call_ensures(make_synthetic_e2b_like_weights, (k,), e2b),
        call_ensures(make_test_q4k_weights, (k,), q4k),
        call_ensures(make_test_q4k_weights_silu, (k,), silu),
    ensures
        tiny.hidden_size == 16 && gemma.hidden_size == 16 && star.hidden_size == 16,
        e2b.hidden_size == 8,
        q4k.hidden_size == 256 && silu.hidden_size == 256,
        tiny.vocab_size == 32 && gemma.vocab_size == 32 && star.vocab_size == 32,
        q4k.vocab_size == 256 && silu.vocab_size == 256,
        tiny.embed@.draws == draws(0xdead_beef, 512),
        gemma.embed@.draws == draws(0x9e37_79b9, 512),
        star.embed@.draws == draws(0x1234_5678, 512),
        q4k.embed@.draws == draws(lcg(0xc0_ffee), 65536),
        silu.embed@.draws == draws(lcg(0xdead_c0de), 65536),
        tiny.experts is None && gemma.experts is None && star.experts is None && e2b.experts is None
            && q4k.experts is None && silu.experts is None,
{
    models_are_small(tiny, Family::Tiny, *k);
    models_are_small(gemma, Family::Gemma3, *k);
    models_are_small(star, Family::Starcoder2, *k);
    models_are_small(e2b, Family::E2b, *k);
    models_are_small(q4k, Family::Q4k, *k);
    models_are_small(silu, Family::Q4kSilu, *k);
    ends_drawn(tiny, Family::Tiny, *k);
    ends_drawn(gemma, Family::Gemma3, *k);
    ends_drawn(star, Family::Starcoder2, *k);
    ends_drawn(q4k, Family::Q4k, *k);
    ends_drawn(silu, Family::Q4kSilu, *k);
}

/// Only the model with experts has any: four, of which two work on a token.
pub proof fn expert_model_made(k: &ModelNames, r: SyntheticWeights)
    requires
        call_ensures(make_test_gemma4_moe_weights, (k,), r),
    ensures
        r.hidden_size == 256 && r.vocab_size == 256,
        r.experts matches Some(e) && e.enable_moe_block && e.num_experts == 4 && e.top_k_experts
            == 2,
        r.embed@.draws == draws(lcg(0xb000_1eef), 65536),
{
    models_are_small(r, Family::Moe, *k);
    ends_drawn(r, Family::Moe, *k);
}

/// Where each matrix of a layer is drawn from: in the first family the draws of
/// all matrices follow one another; in the next three each seed is a fixed step
/// behind the one before; in those for quantized blocks each seed is the next
/// state.
pub proof fn seeds_follow(f: Family, s: u64, count: nat)
    ensures
        f == Family::Tiny ==> seed_of(rule_of(f), s) == s && state_behind(rule_of(f), s, count)
            == advanced(s, count),
        f == Family::Gemma3 || f == Family::Starcoder2 || f == Family::E2b ==> {
            &&& seed_of(rule_of(f), s) == (s + 0x9e37_79b9_7f4a_7c15) % 0x1_0000_0000_0000_0000
            &&& state_behind(rule_of(f), s, count) == seed_of(rule_of(f), s)
        },
        f == Family::Q4k || f == Family::Q4kSilu || f == Family::Moe ==> {
            &&& seed_of(rule_of(f), s) == (s * 6364136223846793005 + 1442695040888963407)
                % 0x1_0000_0000_0000_0000
            &&& state_behind(rule_of(f), s, count) == seed_of(rule_of(f), s)
        },
        f == Family::Gemma3 ==> ends(f).2 == 0xdead_beef,
        f == Family::Starcoder2 ==> ends(f).2 == 0xfeed_babe,
{
    next_state_is(s);
}

/// A matrix that is drawn stands under its key with its extents, and with as
/// many draws as it has numbers, from its own seed; whatever has another key
/// stays.
pub proof fn matrix_drawn(
    p: PartsView,
    state: u64,
    key: Seq<char>,
    other: Seq<char>,
    rows: usize,
    cols: usize,
    rule: SeedRule,
    scale: u32,
)
    ensures
        ({
            let item = ItemView { key: Some(key), content: Content::Drawn { rows, cols } };
            let (after, next) = with_item(p, state, item, rule, scale);
            &&& after.tensors.dom().contains(key)
            &&& after.tensors[key].rows == rows && after.tensors[key].cols == cols
            &&& after.tensors[key].draws == draws(
                seed_of(rule, state),
                rows as nat * cols as nat,
            )
            &&& after.tensors[key].scale == scale
            &&& other != key && p.tensors.dom().contains(other) ==> after.tensors.dom().contains(
                other,
            ) && after.tensors[other] == p.tensors[other]
            &&& after.vectors == p.vectors && after.raw_bytes == p.raw_bytes
            &&& next == state_behind(rule, state, rows as nat * cols as nat)
            &&& with_item(p, state, ItemView { key: None, ..item }, rule, scale) == (p, state)
        }),
{
}

} // verus!
