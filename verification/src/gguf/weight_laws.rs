//! What holds of the matrices of loaded weights.
use vstd::prelude::*;

use crate::error::ModelError;
use crate::gguf::keys::gguf_key;
use crate::gguf::loader::{canonical, store_tensor, TensorMaps, Tensors};
use crate::gguf::orient::{
    all_oriented, all_weights_split, attention_matrices_oriented, attention_shapes,
    dense_matrices_oriented, ffn_shapes, fused_apart, fused_projection_parts, grids,
    has_extents, is_inward_key, is_outward_key, is_reading_key, is_rows_from, is_writing_key,
    lies_as, matrices_outside_attention_stay, not_of_layer, orient_attention_tensors,
    orient_ffn_tensors, orient_in_place, other_matrices_stay, parts_apart, split_fused_qkv,
};
use crate::gguf::types::GgufTensorInfo;
use crate::layout::ModelLayout;
use crate::table::TextMap;
use crate::tensor::{Grid, Matrix};

verus! {

/// A matrix that is no layer's projection is not touched by cutting.
proof fn cutting_leaves(m: Map<Seq<char>, Grid>, l: &ModelLayout, n: nat, key: Seq<char>)
    requires
        n <= l.layers@.len(),
        m.dom().contains(key),
        forall|i: int| 0 <= i < n ==> not_of_layer(key, #[trigger] l.layers@[i]),
    ensures
        all_weights_split(m, l, n).dom().contains(key),
        all_weights_split(m, l, n)[key] == m[key],
    decreases n,
{
    if n > 0 {
        cutting_leaves(m, l, (n - 1) as nat, key);
        assert(not_of_layer(key, l.layers@[n - 1]));
    }
}

/// Without fused projections nothing is cut.
proof fn nothing_to_cut(m: Map<Seq<char>, Grid>, l: &ModelLayout, n: nat)
    requires
        n <= l.layers@.len(),
        forall|i: int| 0 <= i < n ==> (#[trigger] l.layers@[i]).fused_qkv is None,
    ensures
        all_weights_split(m, l, n) == m,
    decreases n,
{
    if n > 0 {
        nothing_to_cut(m, l, (n - 1) as nat);
        assert(l.layers@[n - 1].fused_qkv is None);
    }
}

/// In the weights a gate or up projection has a row for each inner number and a
/// column for each number of the hidden state, a down projection the other way
/// round, whichever way the file had it.
pub proof fn dense_weights_lie(m: TensorMaps, l: &ModelLayout, layer: int, key: Seq<char>)
    requires
        0 <= layer < l.layers@.len(),
        l.intermediate_size > 0,
        l.hidden_size > 0,
        l.intermediate_size != l.hidden_size,
        m.matrices.dom().contains(key),
        has_extents(m.matrices[key], l.intermediate_size as nat, l.hidden_size as nat),
        forall|i: int| 0 <= i < l.layers@.len() ==> not_of_layer(key, #[trigger] l.layers@[i]),
        !is_writing_key(l, key),
    ensures
        ({
            let k = l.layers@[layer];
            let end = canonical(m, l).matrices;
            &&& (key == k.ffn_gate@ || key == k.ffn_up@) && !is_outward_key(l, key)
                ==> end.dom().contains(key) && lies_as(
                m.matrices[key],
                end[key],
                l.intermediate_size as nat,
                l.hidden_size as nat,
            )
            &&& key == k.ffn_down@ && !is_inward_key(l, key) ==> end.dom().contains(key) && lies_as(
                m.matrices[key],
                end[key],
                l.hidden_size as nat,
                l.intermediate_size as nat,
            )
        }),
{
    let n = l.layers@.len();
    dense_matrices_oriented(m.matrices, l, layer, key);
    let a = all_oriented(m.matrices, ffn_shapes(l, n));
    if is_reading_key(l, key) {
        let i = choose|i: int|
            0 <= i < l.layers@.len() && ((#[trigger] l.layers@[i]).attn_q@ == key
                || l.layers@[i].attn_k@ == key || l.layers@[i].attn_v@ == key
                || crate::gguf::orient::is_key(l.layers@[i].fused_qkv, key));
        assert(not_of_layer(key, l.layers@[i]));
    }
    if a.dom().contains(key) {
        matrices_outside_attention_stay(a, l, key);
        cutting_leaves(all_oriented(a, attention_shapes(l, n)), l, n, key);
    }
}

/// In the weights of a model without fused projections the query, key and value
/// projections have a column for each number of the hidden state, and the output
/// projection has a row for each.
pub proof fn attention_weights_lie(m: TensorMaps, l: &ModelLayout, layer: int, key: Seq<char>)
    requires
        0 <= layer < l.layers@.len(),
        l.hidden_size > 0,
        l.head_dim > 0,
        m.matrices.dom().contains(key),
        forall|i: int| 0 <= i < l.layers@.len() ==> (#[trigger] l.layers@[i]).fused_qkv is None,
        !is_inward_key(l, key),
        !is_outward_key(l, key),
    ensures
        ({
            let k = l.layers@[layer];
            let end = canonical(m, l).matrices;
            let g = m.matrices[key];
            let hidden = l.hidden_size as nat;
            let q = l.num_q_heads as nat * l.head_dim as nat;
            let kv = l.num_kv_heads as nat * l.head_dim as nat;
            &&& key == k.attn_q@ && q > 0 && q != hidden && has_extents(g, q, hidden)
                && !is_writing_key(l, key) ==> end.dom().contains(key) && lies_as(
                g,
                end[key],
                q,
                hidden,
            )
            &&& (key == k.attn_k@ || key == k.attn_v@) && kv > 0 && kv != hidden && has_extents(
                g,
                kv,
                hidden,
            ) && !is_writing_key(l, key) ==> end.dom().contains(key) && lies_as(
                g,
                end[key],
                kv,
                hidden,
            )
            &&& key == k.attn_o@ && q > 0 && q != hidden && has_extents(g, q, hidden)
                && !is_reading_key(l, key) ==> end.dom().contains(key) && lies_as(
                g,
                end[key],
                hidden,
                q,
            )
        }),
{
    let n = l.layers@.len();
    let a = all_oriented(m.matrices, ffn_shapes(l, n));
    other_matrices_stay(m.matrices, l, key);
    attention_matrices_oriented(a, l, layer, key);
    nothing_to_cut(all_oriented(a, attention_shapes(l, n)), l, n);
}

/// The feed-forward matrices of a table are turned where they lie.
pub proof fn dense_matrices_turned_in_place(
    tensors: &mut TextMap<Matrix>,
    l: &ModelLayout,
    layer: int,
    key: Seq<char>,
)
    requires
        call_ensures(orient_ffn_tensors, (tensors, l), ()),
        0 <= layer < l.layers@.len(),
        l.intermediate_size > 0,
        l.hidden_size > 0,
        l.intermediate_size != l.hidden_size,
        grids(old(tensors)@).dom().contains(key),
        has_extents(
            grids(old(tensors)@)[key],
            l.intermediate_size as nat,
            l.hidden_size as nat,
        ),
    ensures
        ({
            let k = l.layers@[layer];
            let (before, after) = (grids(old(tensors)@), grids(final(tensors)@));
            &&& (key == k.ffn_gate@ || key == k.ffn_up@) && !is_outward_key(l, key) ==> lies_as(
                before[key],
                after[key],
                l.intermediate_size as nat,
                l.hidden_size as nat,
            )
            &&& key == k.ffn_down@ && !is_inward_key(l, key) ==> lies_as(
                before[key],
                after[key],
                l.hidden_size as nat,
                l.intermediate_size as nat,
            )
        }),
{
    dense_matrices_oriented(grids(old(tensors)@), l, layer, key);
}

/// The attention matrices of a table are turned where they lie.
pub proof fn attention_matrices_turned_in_place(
    tensors: &mut TextMap<Matrix>,
    l: &ModelLayout,
    layer: int,
    key: Seq<char>,
)
    requires
        call_ensures(orient_attention_tensors, (tensors, l), ()),
        0 <= layer < l.layers@.len(),
        l.hidden_size > 0,
        l.head_dim > 0,
        grids(old(tensors)@).dom().contains(key),
    ensures
        ({
            let k = l.layers@[layer];
            let (before, after) = (grids(old(tensors)@), grids(final(tensors)@));
            let hidden = l.hidden_size as nat;
            let q = l.num_q_heads as nat * l.head_dim as nat;
            let kv = l.num_kv_heads as nat * l.head_dim as nat;
            &&& key == k.attn_q@ && q > 0 && q != hidden && has_extents(before[key], q, hidden)
                && !is_writing_key(l, key) ==> lies_as(before[key], after[key], q, hidden)
            &&& (key == k.attn_k@ || key == k.attn_v@) && kv > 0 && kv != hidden && has_extents(
                before[key],
                kv,
                hidden,
            ) && !is_writing_key(l, key) ==> lies_as(before[key], after[key], kv, hidden)
            &&& key == k.attn_o@ && q > 0 && q != hidden && has_extents(before[key], q, hidden)
                && !is_reading_key(l, key) ==> lies_as(before[key], after[key], hidden, q)
        }),
{
    attention_matrices_oriented(grids(old(tensors)@), l, layer, key);
}

/// A fused projection of a table is cut into the query's rows, the key's and the
/// value's.
pub proof fn fused_projection_cut_in_place(
    tensors: &mut TextMap<Matrix>,
    vectors: &mut TextMap<Vec<u32>>,
    l: &ModelLayout,
    layer: int,
)
    requires
        call_ensures(split_fused_qkv, (tensors, vectors, l), ()),
        0 <= layer < l.layers@.len(),
        fused_apart(l),
        parts_apart(l, layer),
        l.hidden_size > 0,
        l.head_dim > 0,
        l.num_q_heads > 0,
        l.num_kv_heads > 0,
        l.layers@[layer].fused_qkv matches Some(k) && grids(old(tensors)@).dom().contains(k@)
            && grids(old(tensors)@)[k@].wf() && grids(old(tensors)@)[k@].rows == (l.num_q_heads + 2
            * l.num_kv_heads) * l.head_dim && grids(old(tensors)@)[k@].cols == l.hidden_size,
    ensures
        ({
            let k = l.layers@[layer];
            let whole = grids(old(tensors)@)[k.fused_qkv->0@];
            let after = grids(final(tensors)@);
            let q = (l.num_q_heads * l.head_dim) as nat;
            let kv = (l.num_kv_heads * l.head_dim) as nat;
            &&& is_rows_from(after[k.attn_q@], whole, 0, q)
            &&& is_rows_from(after[k.attn_k@], whole, q, kv)
            &&& is_rows_from(after[k.attn_v@], whole, q + kv, kv)
        }),
{
    fused_projection_parts(grids(old(tensors)@), l, l.layers@.len(), layer);
}

/// One matrix of a table is turned if it has its two extents in the other order.
pub proof fn matrix_turned_in_place(
    tensors: &mut TextMap<Matrix>,
    key: &str,
    rows: usize,
    cols: usize,
)
    requires
        call_ensures(orient_in_place, (tensors, key, rows, cols), ()),
        rows > 0,
        cols > 0,
        rows != cols,
        grids(old(tensors)@).dom().contains(key@),
        has_extents(grids(old(tensors)@)[key@], rows as nat, cols as nat),
    ensures
        lies_as(
            grids(old(tensors)@)[key@],
            grids(final(tensors)@)[key@],
            rows as nat,
            cols as nat,
        ),
{
}

/// A tensor is stored under its key, with its first extent as columns and its
/// second as rows; one that cannot be changes nothing under other keys.
pub proof fn tensor_stored(
    tensors: &mut Tensors,
    info: &GgufTensorInfo,
    numbers: Vec<u32>,
    r: Result<(), ModelError>,
)
    requires
        call_ensures(store_tensor, (tensors, info, numbers), r),
        r is Ok,
    ensures
        ({
            let key = gguf_key(info.name@);
            let after = final(tensors)@;
            &&& info.n_dims == 2 ==> after.matrices.dom().contains(key) && after.matrices[key].cols
                == info.dims@[0] && after.matrices[key].rows == info.dims@[1]
                && after.matrices[key].data == numbers@
            &&& info.n_dims == 1 ==> after.vectors.dom().contains(key) && after.vectors[key]
                == numbers@
            &&& info.n_dims != 1 && info.n_dims != 2 ==> after == old(tensors)@
        }),
{
}

} // verus!
