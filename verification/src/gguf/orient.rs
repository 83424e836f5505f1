//! Bringing loaded tensors into the orientation that the rest of the program
//! expects: one row for each output.
use vstd::prelude::*;

use crate::layout::{ExpertKeys, LayerKeys, ModelLayout};
use crate::table::TextMap;
use crate::tensor::{row_ranges_join, Grid, Matrix};

verus! {

/// What a table of matrices holds.
pub open spec fn grids(m: Map<Seq<char>, Matrix>) -> Map<Seq<char>, Grid> {
    m.map_values(|x: Matrix| x@)
}

/// What a table of vectors holds.
pub open spec fn rows_of(m: Map<Seq<char>, Vec<u32>>) -> Map<Seq<char>, Seq<u32>> {
    m.map_values(|x: Vec<u32>| x@)
}

/// Every matrix has one number for each row and column.
pub open spec fn grids_wf(m: Map<Seq<char>, Grid>) -> bool {
    forall|k: Seq<char>| #[trigger] m.dom().contains(k) ==> m[k].wf()
}

/// The shape that the tensor under a key should have.
pub struct Expected {
    pub key: String,
    pub rows: usize,
    pub cols: usize,
}

/// What an [`Expected`] says, as plain values.
pub struct Shape {
    pub key: Seq<char>,
    pub rows: nat,
    pub cols: nat,
}

impl View for Expected {
    type V = Shape;

    open spec fn view(&self) -> Shape {
        Shape { key: self.key@, rows: self.rows as nat, cols: self.cols as nat }
    }
}

/// What a list of expectations says.
pub open spec fn shapes(v: Seq<Expected>) -> Seq<Shape> {
    v.map_values(|e: Expected| e@)
}

/// The table with the tensor under `s.key` turned, if it lies the other way
/// round.  A square shape does not tell which way a tensor lies.
pub open spec fn oriented(m: Map<Seq<char>, Grid>, s: Shape) -> Map<Seq<char>, Grid> {
    if s.rows > 0 && s.cols > 0 && s.rows != s.cols && m.dom().contains(s.key) && m[s.key].rows
        == s.cols && m[s.key].cols == s.rows {
        m.insert(s.key, m[s.key].transposed())
    } else {
        m
    }
}

/// The table after each of `ss` in turn.
pub open spec fn all_oriented(m: Map<Seq<char>, Grid>, ss: Seq<Shape>) -> Map<Seq<char>, Grid>
    decreases ss.len(),
{
    if ss.len() == 0 {
        m
    } else {
        oriented(all_oriented(m, ss.drop_last()), ss.last())
    }
}

/// After a tensor has been brought into its shape once, doing so again changes
/// nothing.
pub proof fn oriented_twice(m: Map<Seq<char>, Grid>, s: Shape)
    ensures
        oriented(oriented(m, s), s) == oriented(m, s),
{
}

/// A tensor whose key is not spoken of stays as it is.
pub proof fn others_untouched(m: Map<Seq<char>, Grid>, ss: Seq<Shape>, k: Seq<char>)
    requires
        forall|i: int| 0 <= i < ss.len() ==> (#[trigger] ss[i]).key != k,
    ensures
        all_oriented(m, ss).dom().contains(k) == m.dom().contains(k),
        m.dom().contains(k) ==> all_oriented(m, ss)[k] == m[k],
    decreases ss.len(),
{
    if ss.len() > 0 {
        assert(ss.last() == ss[ss.len() - 1]);
        assert forall|i: int| 0 <= i < ss.drop_last().len() implies (#[trigger] ss.drop_last()[i]).key
            != k by {
            assert(ss[i].key != k);
        }
        others_untouched(m, ss.drop_last(), k);
    }
}

/// The matrix under `key` turned, if `s` speaks of it and it lies the other way
/// round.
pub open spec fn turned(g: Grid, key: Seq<char>, s: Shape) -> Grid {
    if s.key == key && s.rows > 0 && s.cols > 0 && s.rows != s.cols && g.rows == s.cols && g.cols
        == s.rows {
        g.transposed()
    } else {
        g
    }
}

/// The matrix under `key` after each of `ss` in turn.
pub open spec fn all_turned(g: Grid, key: Seq<char>, ss: Seq<Shape>) -> Grid
    decreases ss.len(),
{
    if ss.len() == 0 {
        g
    } else {
        turned(all_turned(g, key, ss.drop_last()), key, ss.last())
    }
}

/// Each matrix is turned by what is said of its key, and by nothing else.
pub proof fn oriented_one_by_one(m: Map<Seq<char>, Grid>, ss: Seq<Shape>)
    ensures
        all_oriented(m, ss).dom() == m.dom(),
        forall|k: Seq<char>| #[trigger]
            m.dom().contains(k) ==> all_oriented(m, ss)[k] == all_turned(m[k], k, ss),
    decreases ss.len(),
{
    if ss.len() > 0 {
        oriented_one_by_one(m, ss.drop_last());
        assert(all_oriented(m, ss).dom() =~= m.dom());
    }
}

/// The matrix may have the shape `s`, or lies the other way round.
spec fn speaks_of(s: Shape, key: Seq<char>, g: Grid) -> bool {
    &&& s.key == key && s.rows > 0 && s.cols > 0 && s.rows != s.cols
    &&& (g.rows == s.rows && g.cols == s.cols) || (g.rows == s.cols && g.cols == s.rows)
}

/// A matrix stays or is turned.
proof fn turned_or_not(g: Grid, key: Seq<char>, ss: Seq<Shape>)
    requires
        g.wf(),
    ensures
        all_turned(g, key, ss) == g || all_turned(g, key, ss) == g.transposed(),
        all_turned(g, key, ss).wf(),
        all_turned(g.transposed(), key, ss) == g || all_turned(g.transposed(), key, ss)
            == g.transposed(),
    decreases ss.len(),
{
    crate::tensor::transposed_twice(g);
    if ss.len() > 0 {
        turned_or_not(g, key, ss.drop_last());
    }
}

/// Where one of the shapes may be the matrix's, it ends up the same way round
/// whichever way it lay; where none may be, it stays as it is.
proof fn settles(g: Grid, key: Seq<char>, ss: Seq<Shape>)
    requires
        g.wf(),
    ensures
        (exists|i: int| 0 <= i < ss.len() && #[trigger] speaks_of(ss[i], key, g)) ==> all_turned(
            g,
            key,
            ss,
        ) == all_turned(g.transposed(), key, ss),
        !(exists|i: int| 0 <= i < ss.len() && #[trigger] speaks_of(ss[i], key, g)) ==> all_turned(
            g,
            key,
            ss,
        ) == g,
    decreases ss.len(),
{
    if ss.len() > 0 {
        let init = ss.drop_last();
        let s = ss.last();
        settles(g, key, init);
        turned_or_not(g, key, init);
        crate::tensor::transposed_twice(g);
        assert(ss[ss.len() - 1] == s);
        if speaks_of(s, key, g) {
        } else if exists|i: int| 0 <= i < ss.len() && #[trigger] speaks_of(ss[i], key, g) {
            let i = choose|i: int| 0 <= i < ss.len() && #[trigger] speaks_of(ss[i], key, g);
            assert(speaks_of(init[i], key, g));
        } else {
            assert forall|i: int| 0 <= i < init.len() implies !#[trigger] speaks_of(
                init[i],
                key,
                g,
            ) by {
                assert(!speaks_of(ss[i], key, g));
            }
        }
    }
}

/// After tensors have been brought into their shapes once, doing so again
/// changes nothing.
pub proof fn all_oriented_twice(m: Map<Seq<char>, Grid>, ss: Seq<Shape>)
    requires
        grids_wf(m),
    ensures
        all_oriented(all_oriented(m, ss), ss) == all_oriented(m, ss),
{
    let once = all_oriented(m, ss);
    let twice = all_oriented(once, ss);
    oriented_one_by_one(m, ss);
    oriented_one_by_one(once, ss);
    assert forall|k: Seq<char>| #[trigger] once.dom().contains(k) implies twice[k] == once[k] by {
        assert(m.dom().contains(k));
        settles(m[k], k, ss);
        turned_or_not(m[k], k, ss);
    }
    assert(twice =~= once);
}

/// Bringing the attention tensors, and those of the feed-forward networks, into
/// their shapes a second time changes nothing.
pub proof fn layers_oriented_twice(m: Map<Seq<char>, Grid>, l: &ModelLayout)
    requires
        grids_wf(m),
    ensures
        ({
            let ss = attention_shapes(l, l.layers@.len());
            all_oriented(all_oriented(m, ss), ss) == all_oriented(m, ss)
        }),
        ({
            let ss = ffn_shapes(l, l.layers@.len());
            all_oriented(all_oriented(m, ss), ss) == all_oriented(m, ss)
        }),
{
    all_oriented_twice(m, attention_shapes(l, l.layers@.len()));
    all_oriented_twice(m, ffn_shapes(l, l.layers@.len()));
}

/// A tensor whose key is spoken of in one way only is turned if it lies the
/// other way round, and stays otherwise.
proof fn turned_once(g: Grid, key: Seq<char>, ss: Seq<Shape>, s: Shape)
    requires
        s.key == key,
        ss.contains(s),
        forall|i: int| 0 <= i < ss.len() ==> ((#[trigger] ss[i]).key == key ==> ss[i] == s),
    ensures
        all_turned(g, key, ss) == turned(g, key, s),
    decreases ss.len(),
{
    let init = ss.drop_last();
    assert(ss.last() == ss[ss.len() - 1]);
    assert forall|i: int| 0 <= i < init.len() implies ((#[trigger] init[i]).key == key ==> init[i]
        == s) by {
        assert(init[i] == ss[i]);
    }
    if init.contains(s) {
        turned_once(g, key, init, s);
    } else {
        let at = choose|i: int| 0 <= i < ss.len() && ss[i] == s;
        if at < ss.len() - 1 {
            assert(init[at] == s);
        }
        assert forall|i: int| 0 <= i < init.len() implies (#[trigger] init[i]).key != key by {
            assert(init.contains(init[i]));
        }
        stays_unspoken(g, key, init);
    }
}

/// A tensor whose key is not spoken of is not turned.
proof fn stays_unspoken(g: Grid, key: Seq<char>, ss: Seq<Shape>)
    requires
        forall|i: int| 0 <= i < ss.len() ==> (#[trigger] ss[i]).key != key,
    ensures
        all_turned(g, key, ss) == g,
    decreases ss.len(),
{
    if ss.len() > 0 {
        assert(ss.last() == ss[ss.len() - 1]);
        assert forall|i: int| 0 <= i < ss.drop_last().len() implies (
        #[trigger] ss.drop_last()[i]).key != key by {
            assert(ss[i].key != key);
        }
        stays_unspoken(g, key, ss.drop_last());
    }
}

/// What is said of a layer's attention tensors is among what is said of those
/// of all layers.
proof fn layer_shapes_among(l: &ModelLayout, n: nat, layer: int, s: Shape)
    requires
        0 <= layer < n,
        l.hidden_size > 0,
        l.head_dim > 0,
        layer_attention_shapes(
            l.layers@[layer],
            l.q_dim(),
            l.kv_dim(),
            l.hidden_size as nat,
        ).contains(s),
    ensures
        attention_shapes(l, n).contains(s),
    decreases n,
{
    let before = attention_shapes(l, (n - 1) as nat);
    let own = layer_attention_shapes(
        l.layers@[n - 1],
        l.q_dim(),
        l.kv_dim(),
        l.hidden_size as nat,
    );
    if layer == n - 1 {
        let i = choose|i: int| 0 <= i < own.len() && own[i] == s;
        assert((before + own)[before.len() + i] == s);
    } else {
        layer_shapes_among(l, (n - 1) as nat, layer, s);
        let i = choose|i: int| 0 <= i < before.len() && before[i] == s;
        assert((before + own)[i] == s);
    }
}

/// An attention tensor that lies the other way round is turned into its shape,
/// unless it is square; one that has its shape stays.  This holds where its key
/// belongs to no tensor of another shape.
pub proof fn attention_tensor_oriented(
    m: Map<Seq<char>, Grid>,
    l: &ModelLayout,
    layer: int,
    s: Shape,
)
    requires
        0 <= layer < l.layers@.len(),
        l.hidden_size > 0,
        l.head_dim > 0,
        layer_attention_shapes(
            l.layers@[layer],
            l.q_dim(),
            l.kv_dim(),
            l.hidden_size as nat,
        ).contains(s),
        forall|i: int|
            0 <= i < attention_shapes(l, l.layers@.len()).len() ==> ((#[trigger] attention_shapes(
                l,
                l.layers@.len(),
            )[i]).key == s.key ==> attention_shapes(l, l.layers@.len())[i] == s),
        m.dom().contains(s.key),
    ensures
        ({
            let after = all_oriented(m, attention_shapes(l, l.layers@.len()))[s.key];
            let g = m[s.key];
            &&& s.rows > 0 && s.cols > 0 && s.rows != s.cols && g.rows == s.cols && g.cols == s.rows
                ==> after == g.transposed() && after.rows == s.rows && after.cols == s.cols
            &&& s.rows == s.cols || g.rows != s.cols || g.cols != s.rows ==> after == g
        }),
{
    let ss = attention_shapes(l, l.layers@.len());
    layer_shapes_among(l, l.layers@.len(), layer, s);
    oriented_one_by_one(m, ss);
    turned_once(m[s.key], s.key, ss, s);
}

/// Without a width of the hidden state, without a width of the heads, or
/// without layers, no attention tensor is turned.
pub proof fn nothing_to_orient(m: Map<Seq<char>, Grid>, l: &ModelLayout)
    requires
        l.hidden_size == 0 || l.head_dim == 0 || l.layers@.len() == 0,
    ensures
        all_oriented(m, attention_shapes(l, l.layers@.len())) == m,
{
}

/// The matrices that are kept keep one number for each row and column.
proof fn oriented_wf(m: Map<Seq<char>, Grid>, s: Shape)
    requires
        grids_wf(m),
    ensures
        grids_wf(oriented(m, s)),
{
    if m.dom().contains(s.key) {
        crate::tensor::transposed_twice(m[s.key]);
    }
}

/// Turns the tensor under `key` if it has `expected_cols` rows and
/// `expected_rows` columns.  Leaves it as it is if it is missing, if it has
/// another shape, or if the two numbers are equal.
pub fn orient_in_place(
    tensors: &mut TextMap<Matrix>,
    key: &str,
    expected_rows: usize,
    expected_cols: usize,
)
    requires
        old(tensors).wf(),
        grids_wf(grids(old(tensors)@)),
    ensures
        final(tensors).wf(),
        grids_wf(grids(final(tensors)@)),
        grids(final(tensors)@) == oriented(
            grids(old(tensors)@),
            (Shape { key: key@, rows: expected_rows as nat, cols: expected_cols as nat }),
        ),
{
    let ghost s = Shape { key: key@, rows: expected_rows as nat, cols: expected_cols as nat };
    let ghost before = tensors@;
    if expected_rows == 0 || expected_cols == 0 || expected_rows == expected_cols {
        return;
    }
    let turned = match tensors.get(key) {
        None => return,
        Some(m) => {
            if m.rows != expected_cols || m.cols != expected_rows {
                return;
            }
            assert(grids(before).dom().contains(key@));
            assert(grids(before)[key@] == m@);
            m.transpose()
        },
    };
    let ghost view = turned@;
    tensors.insert(key.to_owned(), turned);
    proof {
        assert(grids(tensors@) =~= grids(before).insert(key@, view));
        oriented_wf(grids(before), s);
    }
}

/// Brings each tensor that is spoken of into its shape.
fn orient_all(tensors: &mut TextMap<Matrix>, expected: &Vec<Expected>)
    requires
        old(tensors).wf(),
        grids_wf(grids(old(tensors)@)),
    ensures
        final(tensors).wf(),
        grids_wf(grids(final(tensors)@)),
        grids(final(tensors)@) == all_oriented(grids(old(tensors)@), shapes(expected@)),
{
    let ghost start = grids(tensors@);
    let mut i: usize = 0;
    assert(shapes(expected@).take(0) =~= Seq::empty());
    while i < expected.len()
        invariant
            0 <= i <= expected.len(),
            tensors.wf(),
            grids_wf(grids(tensors@)),
            grids(tensors@) == all_oriented(start, shapes(expected@).take(i as int)),
        decreases expected.len() - i,
    {
        assert(shapes(expected@).take(i + 1).drop_last() =~= shapes(expected@).take(i as int));
        let e = &expected[i];
        orient_in_place(tensors, e.key.as_str(), e.rows, e.cols);
        i += 1;
    }
    assert(shapes(expected@).take(i as int) =~= shapes(expected@));
}

/// The shape of the tensor under `key`.
pub open spec fn shape(key: Seq<char>, rows: nat, cols: nat) -> Shape {
    Shape { key, rows, cols }
}

/// The shape of the tensor under `key`, if there is such a key.
pub open spec fn opt_shape(key: Option<String>, rows: nat, cols: nat) -> Seq<Shape> {
    match key {
        Some(k) => seq![shape(k@, rows, cols)],
        None => Seq::empty(),
    }
}

/// The shapes of the first `n` experts' tensors.
pub open spec fn expert_shapes(experts: Seq<ExpertKeys>, n: nat, width: nat, hidden: nat) -> Seq<
    Shape,
>
    decreases n,
{
    if n == 0 {
        Seq::empty()
    } else {
        let e = experts[n - 1];
        expert_shapes(experts, (n - 1) as nat, width, hidden) + opt_shape(e.gate, width, hidden)
            + opt_shape(e.up, width, hidden) + opt_shape(e.down, hidden, width)
    }
}

/// The shapes of one layer's feed-forward tensors: gate and up have a row for
/// each inner number, down has a row for each outer one.
pub open spec fn layer_ffn_shapes(
    k: LayerKeys,
    inter: nat,
    hidden: nat,
    expert_width: Option<nat>,
) -> Seq<Shape> {
    let dense = if inter > 0 {
        seq![
            shape(k.ffn_gate@, inter, hidden),
            shape(k.ffn_up@, inter, hidden),
            shape(k.ffn_down@, hidden, inter),
        ] + opt_shape(k.shared_gate, inter, hidden) + opt_shape(k.shared_up, inter, hidden)
            + opt_shape(k.shared_down, hidden, inter)
    } else {
        Seq::empty()
    };
    match expert_width {
        Some(w) => dense + expert_shapes(k.experts@, k.experts@.len(), w, hidden),
        None => dense,
    }
}

/// The shapes of the feed-forward tensors of the first `n` layers.
pub open spec fn ffn_shapes(l: &ModelLayout, n: nat) -> Seq<Shape>
    decreases n,
{
    if n == 0 || l.hidden_size == 0 {
        Seq::empty()
    } else {
        ffn_shapes(l, (n - 1) as nat) + layer_ffn_shapes(
            l.layers@[n - 1],
            l.intermediate_size as nat,
            l.hidden_size as nat,
            l.expert_width(),
        )
    }
}

/// The shapes of one layer's attention tensors: the query, key, value and
/// fused projections have a row for each of their outputs, the output
/// projection has one for each number of the hidden state.
pub open spec fn layer_attention_shapes(k: LayerKeys, q: nat, kv: nat, hidden: nat) -> Seq<Shape> {
    let query = if q > 0 {
        seq![shape(k.attn_q@, q, hidden), shape(k.attn_o@, hidden, q)]
    } else {
        Seq::empty()
    };
    let key_value = if kv > 0 {
        seq![shape(k.attn_k@, kv, hidden), shape(k.attn_v@, kv, hidden)]
    } else {
        Seq::empty()
    };
    let fused = if q + 2 * kv > 0 {
        opt_shape(k.fused_qkv, q + 2 * kv, hidden)
    } else {
        Seq::empty()
    };
    query + key_value + fused
}

/// The shapes of the attention tensors of the first `n` layers.
pub open spec fn attention_shapes(l: &ModelLayout, n: nat) -> Seq<Shape>
    decreases n,
{
    if n == 0 || l.hidden_size == 0 || l.head_dim == 0 {
        Seq::empty()
    } else {
        attention_shapes(l, (n - 1) as nat) + layer_attention_shapes(
            l.layers@[n - 1],
            l.q_dim(),
            l.kv_dim(),
            l.hidden_size as nat,
        )
    }
}

/// An optional key is `key`.
pub open spec fn is_key(k: Option<String>, key: Seq<char>) -> bool {
    k matches Some(s) && s@ == key
}

/// `key` is that of a matrix with a row for each number of an inner layer: the
/// gate or the up projection of a dense, a shared or an expert network.
pub open spec fn is_inward_key(l: &ModelLayout, key: Seq<char>) -> bool {
    exists|i: int| 0 <= i < l.layers@.len() && layer_inward_key(#[trigger] l.layers@[i], key)
}

/// `key` is that of a gate or up projection of the layer.
pub open spec fn layer_inward_key(k: LayerKeys, key: Seq<char>) -> bool {
    ||| k.ffn_gate@ == key
    ||| k.ffn_up@ == key
    ||| is_key(k.shared_gate, key)
    ||| is_key(k.shared_up, key)
    ||| exists|e: int|
        0 <= e < k.experts@.len() && (is_key((#[trigger] k.experts@[e]).gate, key) || is_key(
            k.experts@[e].up,
            key,
        ))
}

/// `key` is that of a matrix with a row for each number of the hidden state:
/// the down projection of a dense, a shared or an expert network.
pub open spec fn is_outward_key(l: &ModelLayout, key: Seq<char>) -> bool {
    exists|i: int| 0 <= i < l.layers@.len() && layer_outward_key(#[trigger] l.layers@[i], key)
}

/// `key` is that of a down projection of the layer.
pub open spec fn layer_outward_key(k: LayerKeys, key: Seq<char>) -> bool {
    ||| k.ffn_down@ == key
    ||| is_key(k.shared_down, key)
    ||| exists|e: int| 0 <= e < k.experts@.len() && is_key((#[trigger] k.experts@[e]).down, key)
}

/// The matrix has these two extents, in one order or the other.
pub open spec fn has_extents(g: Grid, a: nat, b: nat) -> bool {
    (g.rows == a && g.cols == b) || (g.rows == b && g.cols == a)
}

/// `after` is `before` with `rows` rows and `cols` columns: as it was if it lay
/// that way, else turned.
pub open spec fn lies_as(before: Grid, after: Grid, rows: nat, cols: nat) -> bool {
    &&& after.rows == rows
    &&& after.cols == cols
    &&& before.rows == rows ==> after == before
    &&& before.rows != rows ==> after == before.transposed()
}

/// A matrix of which all that is said agrees ends up as it is said.
proof fn turned_as_said(g: Grid, key: Seq<char>, ss: Seq<Shape>, rows: nat, cols: nat)
    requires
        rows > 0,
        cols > 0,
        rows != cols,
        has_extents(g, rows, cols),
        exists|i: int| 0 <= i < ss.len() && #[trigger] ss[i] == shape(key, rows, cols),
        forall|i: int|
            0 <= i < ss.len() && (#[trigger] ss[i]).key == key && has_extents(
                g,
                ss[i].rows,
                ss[i].cols,
            ) ==> ss[i].rows == rows && ss[i].cols == cols,
    ensures
        lies_as(g, all_turned(g, key, ss), rows, cols),
    decreases ss.len(),
{
    let init = ss.drop_last();
    let s = ss.last();
    assert(ss[ss.len() - 1] == s);
    assert forall|i: int|
        0 <= i < init.len() && (#[trigger] init[i]).key == key && has_extents(
            g,
            init[i].rows,
            init[i].cols,
        ) implies init[i].rows == rows && init[i].cols == cols by {
        assert(init[i] == ss[i]);
    }
    if exists|i: int| 0 <= i < init.len() && #[trigger] init[i] == shape(key, rows, cols) {
        turned_as_said(g, key, init, rows, cols);
        let h = all_turned(g, key, init);
        assert(has_extents(g, s.rows, s.cols) == has_extents(h, s.rows, s.cols));
    } else {
        let at = choose|i: int| 0 <= i < ss.len() && #[trigger] ss[i] == shape(key, rows, cols);
        if at < init.len() {
            assert(init[at] == ss[at]);
        }
        still_unsaid(g, key, init, rows, cols);
    }
}

/// A matrix of whose extents nothing is said stays.
proof fn still_unsaid(g: Grid, key: Seq<char>, ss: Seq<Shape>, rows: nat, cols: nat)
    requires
        rows > 0,
        cols > 0,
        has_extents(g, rows, cols),
        forall|i: int| 0 <= i < ss.len() ==> #[trigger] ss[i] != shape(key, rows, cols),
        forall|i: int|
            0 <= i < ss.len() && (#[trigger] ss[i]).key == key && has_extents(
                g,
                ss[i].rows,
                ss[i].cols,
            ) ==> ss[i].rows == rows && ss[i].cols == cols,
    ensures
        all_turned(g, key, ss) == g,
    decreases ss.len(),
{
    if ss.len() > 0 {
        let init = ss.drop_last();
        assert(ss[ss.len() - 1] == ss.last());
        assert forall|i: int| 0 <= i < init.len() implies #[trigger] init[i] != shape(
            key,
            rows,
            cols,
        ) && (init[i].key == key && has_extents(g, init[i].rows, init[i].cols) ==> init[i].rows
            == rows && init[i].cols == cols) by {
            assert(init[i] == ss[i]);
        }
        still_unsaid(g, key, init, rows, cols);
    }
}

/// What is said of experts' matrices: gate and up have a column for each number
/// of the hidden state, down has a row for each.
proof fn expert_shapes_are(k: LayerKeys, n: nat, width: nat, hidden: nat, i: int)
    requires
        n <= k.experts@.len(),
        0 <= i < expert_shapes(k.experts@, n, width, hidden).len(),
    ensures
        ({
            let s = expert_shapes(k.experts@, n, width, hidden)[i];
            ||| layer_inward_key(k, s.key) && s.rows == width && s.cols == hidden
            ||| layer_outward_key(k, s.key) && s.rows == hidden && s.cols == width
        }),
    decreases n,
{
    let before = expert_shapes(k.experts@, (n - 1) as nat, width, hidden);
    let e = k.experts@[n - 1];
    if i < before.len() {
        expert_shapes_are(k, (n - 1) as nat, width, hidden, i);
    } else {
        let gate = opt_shape(e.gate, width, hidden);
        let up = opt_shape(e.up, width, hidden);
        let down = opt_shape(e.down, hidden, width);
        let at = i - before.len();
        let s = expert_shapes(k.experts@, n, width, hidden)[i];
        if at < gate.len() {
            assert(s == gate[at]);
        } else if at < gate.len() + up.len() {
            assert(s == up[at - gate.len()]);
        } else {
            assert(s == down[at - gate.len() - up.len()]);
        }
    }
}

/// What is said of an expert is among what is said of all.
proof fn expert_shapes_hold(k: LayerKeys, n: nat, width: nat, hidden: nat, e: int, s: Shape)
    requires
        0 <= e < n <= k.experts@.len(),
        (is_key(k.experts@[e].gate, s.key) || is_key(k.experts@[e].up, s.key)) && s.rows == width
            && s.cols == hidden || is_key(k.experts@[e].down, s.key) && s.rows == hidden && s.cols
            == width,
    ensures
        expert_shapes(k.experts@, n, width, hidden).contains(s),
    decreases n,
{
    let before = expert_shapes(k.experts@, (n - 1) as nat, width, hidden);
    let all = expert_shapes(k.experts@, n, width, hidden);
    if e < n - 1 {
        expert_shapes_hold(k, (n - 1) as nat, width, hidden, e, s);
        let i = choose|i: int| 0 <= i < before.len() && before[i] == s;
        assert(all[i] == s);
    } else {
        let x = k.experts@[n - 1];
        let gate = opt_shape(x.gate, width, hidden);
        let up = opt_shape(x.up, width, hidden);
        let b = before.len() as int;
        if is_key(x.gate, s.key) && s.rows == width && s.cols == hidden {
            assert(gate[0] == s);
            assert(all[b] == s);
        } else if is_key(x.up, s.key) && s.rows == width && s.cols == hidden {
            assert(up[0] == s);
            assert(all[b + gate.len()] == s);
        } else {
            assert(opt_shape(x.down, hidden, width)[0] == s);
            assert(all[b + gate.len() + up.len()] == s);
        }
    }
}

/// What is said of a layer's feed-forward matrices: gate and up have a column
/// for each number of the hidden state, down has a row for each.
proof fn layer_ffn_shapes_are(
    k: LayerKeys,
    inter: nat,
    hidden: nat,
    width: Option<nat>,
    i: int,
)
    requires
        0 <= i < layer_ffn_shapes(k, inter, hidden, width).len(),
    ensures
        ({
            let s = layer_ffn_shapes(k, inter, hidden, width)[i];
            ||| layer_inward_key(k, s.key) && s.cols == hidden
            ||| layer_outward_key(k, s.key) && s.rows == hidden
        }),
{
    let all = layer_ffn_shapes(k, inter, hidden, width);
    let dense = layer_ffn_shapes(k, inter, hidden, None);
    if i < dense.len() {
        let s = dense[i];
        assert(all[i] == s);
        let a = opt_shape(k.shared_gate, inter, hidden);
        let b = opt_shape(k.shared_up, inter, hidden);
        let c = opt_shape(k.shared_down, hidden, inter);
        if i >= 3 {
            if i - 3 < a.len() {
                assert(s == a[i - 3]);
            } else if i - 3 < a.len() + b.len() {
                assert(s == b[i - 3 - a.len()]);
            } else {
                assert(s == c[i - 3 - a.len() - b.len()]);
            }
        }
    } else {
        let n = k.experts@.len();
        let at = i - dense.len();
        assert(all[i] == expert_shapes(k.experts@, n, width->0, hidden)[at]);
        expert_shapes_are(k, n, width->0, hidden, at);
    }
}

/// What is said of all layers' feed-forward matrices.
proof fn ffn_shapes_are(l: &ModelLayout, n: nat, i: int)
    requires
        n <= l.layers@.len(),
        0 <= i < ffn_shapes(l, n).len(),
    ensures
        ({
            let s = ffn_shapes(l, n)[i];
            ||| is_inward_key(l, s.key) && s.cols == l.hidden_size
            ||| is_outward_key(l, s.key) && s.rows == l.hidden_size
        }),
    decreases n,
{
    let before = ffn_shapes(l, (n - 1) as nat);
    if i < before.len() {
        ffn_shapes_are(l, (n - 1) as nat, i);
    } else {
        let k = l.layers@[n - 1];
        let (inter, hidden) = (l.intermediate_size as nat, l.hidden_size as nat);
        let at = i - before.len();
        let own = layer_ffn_shapes(k, inter, hidden, l.expert_width());
        assert(ffn_shapes(l, n)[i] == own[at]);
        layer_ffn_shapes_are(k, inter, hidden, l.expert_width(), at);
    }
}

/// What is said of a layer is among what is said of all.
proof fn ffn_shapes_hold(l: &ModelLayout, n: nat, layer: int, s: Shape)
    requires
        0 <= layer < n <= l.layers@.len(),
        l.hidden_size > 0,
        layer_ffn_shapes(
            l.layers@[layer],
            l.intermediate_size as nat,
            l.hidden_size as nat,
            l.expert_width(),
        ).contains(s),
    ensures
        ffn_shapes(l, n).contains(s),
    decreases n,
{
    let before = ffn_shapes(l, (n - 1) as nat);
    let own = layer_ffn_shapes(
        l.layers@[n - 1],
        l.intermediate_size as nat,
        l.hidden_size as nat,
        l.expert_width(),
    );
    if layer == n - 1 {
        let i = choose|i: int| 0 <= i < own.len() && own[i] == s;
        assert((before + own)[before.len() + i] == s);
    } else {
        ffn_shapes_hold(l, (n - 1) as nat, layer, s);
        let i = choose|i: int| 0 <= i < before.len() && before[i] == s;
        assert((before + own)[i] == s);
    }
}

/// A feed-forward matrix ends up in the shape that is said of it, where no
/// gate or up projection has the key of a down projection.
proof fn ffn_matrix_turned(m: Map<Seq<char>, Grid>, l: &ModelLayout, layer: int, s: Shape)
    requires
        0 <= layer < l.layers@.len(),
        l.hidden_size > 0,
        layer_ffn_shapes(
            l.layers@[layer],
            l.intermediate_size as nat,
            l.hidden_size as nat,
            l.expert_width(),
        ).contains(s),
        s.rows > 0,
        s.cols > 0,
        s.rows != s.cols,
        s.cols == l.hidden_size && !is_outward_key(l, s.key) || s.rows == l.hidden_size
            && !is_inward_key(l, s.key),
        m.dom().contains(s.key),
        has_extents(m[s.key], s.rows, s.cols),
    ensures
        ({
            let after = all_oriented(m, ffn_shapes(l, l.layers@.len()));
            after.dom().contains(s.key) && lies_as(m[s.key], after[s.key], s.rows, s.cols)
        }),
{
    let n = l.layers@.len();
    let ss = ffn_shapes(l, n);
    ffn_shapes_hold(l, n, layer, s);
    oriented_one_by_one(m, ss);
    let at = choose|i: int| 0 <= i < ss.len() && ss[i] == s;
    assert(ss[at] == shape(s.key, s.rows, s.cols));
    assert forall|i: int|
        0 <= i < ss.len() && (#[trigger] ss[i]).key == s.key && has_extents(
            m[s.key],
            ss[i].rows,
            ss[i].cols,
        ) implies ss[i].rows == s.rows && ss[i].cols == s.cols by {
        ffn_shapes_are(l, n, i);
    }
    turned_as_said(m[s.key], s.key, ss, s.rows, s.cols);
}

/// The feed-forward matrices of a layer lie as they should: a gate or up
/// projection of the dense or the shared network has a row for each inner
/// number and a column for each number of the hidden state, a down projection
/// the other way round.  One that lay so already is unchanged, any other with
/// these extents is turned.  This holds where no gate or up projection has the
/// key of a down projection.
pub proof fn dense_matrices_oriented(
    m: Map<Seq<char>, Grid>,
    l: &ModelLayout,
    layer: int,
    key: Seq<char>,
)
    requires
        0 <= layer < l.layers@.len(),
        l.intermediate_size > 0,
        l.hidden_size > 0,
        l.intermediate_size != l.hidden_size,
        m.dom().contains(key),
        has_extents(m[key], l.intermediate_size as nat, l.hidden_size as nat),
    ensures
        ({
            let k = l.layers@[layer];
            let after = all_oriented(m, ffn_shapes(l, l.layers@.len()));
            &&& (key == k.ffn_gate@ || key == k.ffn_up@ || is_key(k.shared_gate, key) || is_key(
                k.shared_up,
                key,
            )) && !is_outward_key(l, key) ==> after.dom().contains(key) && lies_as(
                m[key],
                after[key],
                l.intermediate_size as nat,
                l.hidden_size as nat,
            )
            &&& (key == k.ffn_down@ || is_key(k.shared_down, key)) && !is_inward_key(l, key)
                ==> after.dom().contains(key) && lies_as(
                m[key],
                after[key],
                l.hidden_size as nat,
                l.intermediate_size as nat,
            )
        }),
{
    let k = l.layers@[layer];
    let (inter, hidden) = (l.intermediate_size as nat, l.hidden_size as nat);
    let own = layer_ffn_shapes(k, inter, hidden, l.expert_width());
    let inward = shape(key, inter, hidden);
    let outward = shape(key, hidden, inter);
    let a = opt_shape(k.shared_gate, inter, hidden);
    let b = opt_shape(k.shared_up, inter, hidden);
    if key == k.ffn_gate@ || key == k.ffn_up@ || is_key(k.shared_gate, key) || is_key(
        k.shared_up,
        key,
    ) {
        if key == k.ffn_gate@ {
            assert(own[0] == inward);
        } else if key == k.ffn_up@ {
            assert(own[1] == inward);
        } else if is_key(k.shared_gate, key) {
            assert(a[0] == inward);
            assert(own[3] == inward);
        } else {
            assert(b[0] == inward);
            assert(own[3 + a.len() as int] == inward);
        }
        if !is_outward_key(l, key) {
            ffn_matrix_turned(m, l, layer, inward);
        }
    }
    if key == k.ffn_down@ || is_key(k.shared_down, key) {
        if key == k.ffn_down@ {
            assert(own[2] == outward);
        } else {
            assert(opt_shape(k.shared_down, hidden, inter)[0] == outward);
            assert(own[3 + a.len() as int + b.len() as int] == outward);
        }
        if !is_inward_key(l, key) {
            ffn_matrix_turned(m, l, layer, outward);
        }
    }
}

/// An expert's matrices lie as they should: gate and up have a row for each
/// number of the expert's inner layer and a column for each number of the
/// hidden state, down the other way round.
pub proof fn expert_matrices_oriented(
    m: Map<Seq<char>, Grid>,
    l: &ModelLayout,
    layer: int,
    e: int,
    key: Seq<char>,
    width: usize,
)
    requires
        0 <= layer < l.layers@.len(),
        0 <= e < l.layers@[layer].experts@.len(),
        l.moe_intermediate_size == Some(width),
        width > 0,
        l.hidden_size > 0,
        width != l.hidden_size,
        m.dom().contains(key),
        has_extents(m[key], width as nat, l.hidden_size as nat),
    ensures
        ({
            let x = l.layers@[layer].experts@[e];
            let after = all_oriented(m, ffn_shapes(l, l.layers@.len()));
            &&& (is_key(x.gate, key) || is_key(x.up, key)) && !is_outward_key(l, key)
                ==> after.dom().contains(key) && lies_as(
                m[key],
                after[key],
                width as nat,
                l.hidden_size as nat,
            )
            &&& is_key(x.down, key) && !is_inward_key(l, key) ==> after.dom().contains(key)
                && lies_as(m[key], after[key], l.hidden_size as nat, width as nat)
        }),
{
    let k = l.layers@[layer];
    let x = k.experts@[e];
    let n = k.experts@.len();
    let (inter, hidden) = (l.intermediate_size as nat, l.hidden_size as nat);
    let dense = layer_ffn_shapes(k, inter, hidden, None);
    let own = layer_ffn_shapes(k, inter, hidden, l.expert_width());
    let experts = expert_shapes(k.experts@, n, width as nat, hidden);
    assert(own == dense + experts);
    let inward = shape(key, width as nat, hidden);
    let outward = shape(key, hidden, width as nat);
    if (is_key(x.gate, key) || is_key(x.up, key)) && !is_outward_key(l, key) {
        expert_shapes_hold(k, n, width as nat, hidden, e, inward);
        let i = choose|i: int| 0 <= i < experts.len() && experts[i] == inward;
        assert(own[dense.len() + i] == inward);
        ffn_matrix_turned(m, l, layer, inward);
    }
    if is_key(x.down, key) && !is_inward_key(l, key) {
        expert_shapes_hold(k, n, width as nat, hidden, e, outward);
        let i = choose|i: int| 0 <= i < experts.len() && experts[i] == outward;
        assert(own[dense.len() + i] == outward);
        ffn_matrix_turned(m, l, layer, outward);
    }
}

/// A matrix that is no feed-forward matrix stays as it is.
pub proof fn other_matrices_stay(m: Map<Seq<char>, Grid>, l: &ModelLayout, key: Seq<char>)
    requires
        m.dom().contains(key),
        !is_inward_key(l, key),
        !is_outward_key(l, key),
    ensures
        ({
            let after = all_oriented(m, ffn_shapes(l, l.layers@.len()));
            after.dom().contains(key) && after[key] == m[key]
        }),
{
    let ss = ffn_shapes(l, l.layers@.len());
    oriented_one_by_one(m, ss);
    assert forall|i: int| 0 <= i < ss.len() implies (#[trigger] ss[i]).key != key by {
        ffn_shapes_are(l, l.layers@.len(), i);
    }
    stays_unspoken(m[key], key, ss);
}

/// `key` is that of a query, key, value or fused projection: it has a column
/// for each number of the hidden state.
pub open spec fn is_reading_key(l: &ModelLayout, key: Seq<char>) -> bool {
    exists|i: int|
        0 <= i < l.layers@.len() && ((#[trigger] l.layers@[i]).attn_q@ == key
            || l.layers@[i].attn_k@ == key || l.layers@[i].attn_v@ == key || is_key(
            l.layers@[i].fused_qkv,
            key,
        ))
}

/// `key` is that of an output projection: it has a row for each number of the
/// hidden state.
pub open spec fn is_writing_key(l: &ModelLayout, key: Seq<char>) -> bool {
    exists|i: int| 0 <= i < l.layers@.len() && (#[trigger] l.layers@[i]).attn_o@ == key
}

/// What is said of all layers' attention matrices.
proof fn attention_shapes_are(l: &ModelLayout, n: nat, i: int)
    requires
        n <= l.layers@.len(),
        0 <= i < attention_shapes(l, n).len(),
    ensures
        ({
            let s = attention_shapes(l, n)[i];
            ||| is_reading_key(l, s.key) && s.cols == l.hidden_size
            ||| is_writing_key(l, s.key) && s.rows == l.hidden_size
        }),
    decreases n,
{
    let before = attention_shapes(l, (n - 1) as nat);
    if i < before.len() {
        attention_shapes_are(l, (n - 1) as nat, i);
    } else {
        let k = l.layers@[n - 1];
        let (q, kv, hidden) = (l.q_dim(), l.kv_dim(), l.hidden_size as nat);
        let own = layer_attention_shapes(k, q, kv, hidden);
        let at = i - before.len();
        let s = own[at];
        assert(attention_shapes(l, n)[i] == s);
        let a: int = if q > 0 {
            2
        } else {
            0
        };
        let b: int = if kv > 0 {
            2
        } else {
            0
        };
        if at >= a + b {
            assert(s == opt_shape(k.fused_qkv, q + 2 * kv, hidden)[at - a - b]);
        } else if at >= a {
            assert(s == seq![shape(k.attn_k@, kv, hidden), shape(k.attn_v@, kv, hidden)][at - a]);
        } else {
            assert(s == seq![shape(k.attn_q@, q, hidden), shape(k.attn_o@, hidden, q)][at]);
        }
    }
}

/// An attention matrix ends up in the shape that is said of it, where no
/// projection that reads the hidden state has the key of one that writes it.
proof fn attention_matrix_turned(m: Map<Seq<char>, Grid>, l: &ModelLayout, layer: int, s: Shape)
    requires
        0 <= layer < l.layers@.len(),
        l.hidden_size > 0,
        l.head_dim > 0,
        layer_attention_shapes(
            l.layers@[layer],
            l.q_dim(),
            l.kv_dim(),
            l.hidden_size as nat,
        ).contains(s),
        s.rows > 0,
        s.cols > 0,
        s.rows != s.cols,
        s.cols == l.hidden_size && !is_writing_key(l, s.key) || s.rows == l.hidden_size
            && !is_reading_key(l, s.key),
        m.dom().contains(s.key),
        has_extents(m[s.key], s.rows, s.cols),
    ensures
        ({
            let after = all_oriented(m, attention_shapes(l, l.layers@.len()));
            after.dom().contains(s.key) && lies_as(m[s.key], after[s.key], s.rows, s.cols)
        }),
{
    let n = l.layers@.len();
    let ss = attention_shapes(l, n);
    layer_shapes_among(l, n, layer, s);
    oriented_one_by_one(m, ss);
    let at = choose|i: int| 0 <= i < ss.len() && ss[i] == s;
    assert(ss[at] == shape(s.key, s.rows, s.cols));
    assert forall|i: int|
        0 <= i < ss.len() && (#[trigger] ss[i]).key == s.key && has_extents(
            m[s.key],
            ss[i].rows,
            ss[i].cols,
        ) implies ss[i].rows == s.rows && ss[i].cols == s.cols by {
        attention_shapes_are(l, n, i);
    }
    turned_as_said(m[s.key], s.key, ss, s.rows, s.cols);
}

/// The attention matrices of a layer lie as they should.  With `q` numbers for
/// all query heads and `kv` for all heads of keys, or of values: the query
/// projection has `q` rows, the key and the value projection `kv` each, a fused
/// one `q + 2 * kv`, and all of them a column for each number of the hidden
/// state; the output projection has a row for each such number and `q` columns.
/// One that lay so already is unchanged, any other with these extents is
/// turned.  This holds where no projection that reads the hidden state has the
/// key of one that writes it.
pub proof fn attention_matrices_oriented(
    m: Map<Seq<char>, Grid>,
    l: &ModelLayout,
    layer: int,
    key: Seq<char>,
)
    requires
        0 <= layer < l.layers@.len(),
        l.hidden_size > 0,
        l.head_dim > 0,
        m.dom().contains(key),
    ensures
        ({
            let k = l.layers@[layer];
            let after = all_oriented(m, attention_shapes(l, l.layers@.len()));
            let hidden = l.hidden_size as nat;
            let q = l.num_q_heads as nat * l.head_dim as nat;
            let kv = l.num_kv_heads as nat * l.head_dim as nat;
            &&& key == k.attn_q@ && q > 0 && q != hidden && has_extents(m[key], q, hidden)
                && !is_writing_key(l, key) ==> after.dom().contains(key) && lies_as(
                m[key],
                after[key],
                q,
                hidden,
            )
            &&& (key == k.attn_k@ || key == k.attn_v@) && kv > 0 && kv != hidden && has_extents(
                m[key],
                kv,
                hidden,
            ) && !is_writing_key(l, key) ==> after.dom().contains(key) && lies_as(
                m[key],
                after[key],
                kv,
                hidden,
            )
            &&& key == k.attn_o@ && q > 0 && q != hidden && has_extents(m[key], q, hidden)
                && !is_reading_key(l, key) ==> after.dom().contains(key) && lies_as(
                m[key],
                after[key],
                hidden,
                q,
            )
            &&& is_key(k.fused_qkv, key) && q + 2 * kv > 0 && q + 2 * kv != hidden && has_extents(
                m[key],
                q + 2 * kv,
                hidden,
            ) && !is_writing_key(l, key) ==> after.dom().contains(key) && lies_as(
                m[key],
                after[key],
                q + 2 * kv,
                hidden,
            )
        }),
{
    let k = l.layers@[layer];
    let hidden = l.hidden_size as nat;
    let q = l.q_dim();
    let kv = l.kv_dim();
    let own = layer_attention_shapes(k, q, kv, hidden);
    let a: int = if q > 0 {
        2
    } else {
        0
    };
    let b: int = if kv > 0 {
        2
    } else {
        0
    };
    if key == k.attn_q@ && q > 0 && q != hidden && has_extents(m[key], q, hidden)
        && !is_writing_key(l, key) {
        assert(own[0] == shape(key, q, hidden));
        attention_matrix_turned(m, l, layer, shape(key, q, hidden));
    }
    if (key == k.attn_k@ || key == k.attn_v@) && kv > 0 && kv != hidden && has_extents(
        m[key],
        kv,
        hidden,
    ) && !is_writing_key(l, key) {
        if key == k.attn_k@ {
            assert(own[a] == shape(key, kv, hidden));
        } else {
            assert(own[a + 1] == shape(key, kv, hidden));
        }
        attention_matrix_turned(m, l, layer, shape(key, kv, hidden));
    }
    if key == k.attn_o@ && q > 0 && q != hidden && has_extents(m[key], q, hidden)
        && !is_reading_key(l, key) {
        assert(own[1] == shape(key, hidden, q));
        attention_matrix_turned(m, l, layer, shape(key, hidden, q));
    }
    if is_key(k.fused_qkv, key) && q + 2 * kv > 0 && q + 2 * kv != hidden && has_extents(
        m[key],
        q + 2 * kv,
        hidden,
    ) && !is_writing_key(l, key) {
        assert(opt_shape(k.fused_qkv, q + 2 * kv, hidden)[0] == shape(key, q + 2 * kv, hidden));
        assert(own[a + b] == shape(key, q + 2 * kv, hidden));
        attention_matrix_turned(m, l, layer, shape(key, q + 2 * kv, hidden));
    }
}

/// A matrix that is no attention matrix stays as it is.
pub proof fn matrices_outside_attention_stay(
    m: Map<Seq<char>, Grid>,
    l: &ModelLayout,
    key: Seq<char>,
)
    requires
        m.dom().contains(key),
        !is_reading_key(l, key),
        !is_writing_key(l, key),
    ensures
        ({
            let after = all_oriented(m, attention_shapes(l, l.layers@.len()));
            after.dom().contains(key) && after[key] == m[key]
        }),
{
    let ss = attention_shapes(l, l.layers@.len());
    oriented_one_by_one(m, ss);
    assert forall|i: int| 0 <= i < ss.len() implies (#[trigger] ss[i]).key != key by {
        attention_shapes_are(l, l.layers@.len(), i);
    }
    stays_unspoken(m[key], key, ss);
}

/// Adds an expectation.
fn expect(out: &mut Vec<Expected>, key: &str, rows: usize, cols: usize)
    ensures
        shapes(final(out)@) == shapes(old(out)@).push(shape(key@, rows as nat, cols as nat)),
{
    let ghost before = out@;
    out.push(Expected { key: key.to_owned(), rows, cols });
    assert(shapes(out@) =~= shapes(before).push(shape(key@, rows as nat, cols as nat)));
}

/// Adds an expectation, if there is a key.
fn expect_opt(out: &mut Vec<Expected>, key: &Option<String>, rows: usize, cols: usize)
    ensures
        shapes(final(out)@) == shapes(old(out)@) + opt_shape(*key, rows as nat, cols as nat),
{
    let ghost before = shapes(out@);
    match key {
        Some(k) => {
            expect(out, k.as_str(), rows, cols);
        },
        None => {},
    }
    assert(shapes(out@) =~= before + opt_shape(*key, rows as nat, cols as nat));
}

/// Adds one layer's feed-forward tensors.
fn expect_layer_ffn(
    out: &mut Vec<Expected>,
    k: &LayerKeys,
    inter: usize,
    hidden: usize,
    expert_width: Option<usize>,
)
    ensures
        shapes(final(out)@) == shapes(old(out)@) + layer_ffn_shapes(
            *k,
            inter as nat,
            hidden as nat,
            match expert_width {
                Some(w) => Some(w as nat),
                None => None,
            },
        ),
{
    let ghost start = shapes(out@);
    if inter > 0 {
        expect(out, k.ffn_gate.as_str(), inter, hidden);
        expect(out, k.ffn_up.as_str(), inter, hidden);
        expect(out, k.ffn_down.as_str(), hidden, inter);
        expect_opt(out, &k.shared_gate, inter, hidden);
        expect_opt(out, &k.shared_up, inter, hidden);
        expect_opt(out, &k.shared_down, hidden, inter);
    }
    let ghost dense = layer_ffn_shapes(*k, inter as nat, hidden as nat, None);
    assert(shapes(out@) =~= start + dense);
    if let Some(w) = expert_width {
        let mut i: usize = 0;
        assert(shapes(out@) =~= start + dense + expert_shapes(
            k.experts@,
            0,
            w as nat,
            hidden as nat,
        ));
        while i < k.experts.len()
            invariant
                0 <= i <= k.experts.len(),
                shapes(out@) == start + dense + expert_shapes(
                    k.experts@,
                    i as nat,
                    w as nat,
                    hidden as nat,
                ),
            decreases k.experts.len() - i,
        {
            let ghost before = shapes(out@);
            let e = &k.experts[i];
            expect_opt(out, &e.gate, w, hidden);
            expect_opt(out, &e.up, w, hidden);
            expect_opt(out, &e.down, hidden, w);
            i += 1;
            assert(shapes(out@) =~= start + dense + expert_shapes(
                k.experts@,
                i as nat,
                w as nat,
                hidden as nat,
            ));
        }
        assert(shapes(out@) =~= start + layer_ffn_shapes(
            *k,
            inter as nat,
            hidden as nat,
            Some(w as nat),
        ));
    }
}

/// Brings the feed-forward tensors of every layer into their shapes.
pub fn orient_ffn_tensors(tensors: &mut TextMap<Matrix>, layout: &ModelLayout)
    requires
        old(tensors).wf(),
        grids_wf(grids(old(tensors)@)),
    ensures
        final(tensors).wf(),
        grids_wf(grids(final(tensors)@)),
        grids(final(tensors)@) == all_oriented(
            grids(old(tensors)@),
            ffn_shapes(layout, layout.layers@.len()),
        ),
{
    if layout.hidden_size == 0 {
        return;
    }
    let width: Option<usize> = match layout.moe_intermediate_size {
        Some(n) => if n > 0 {
            Some(n)
        } else {
            None
        },
        None => None,
    };
    let mut expected: Vec<Expected> = Vec::new();
    let mut i: usize = 0;
    assert(shapes(expected@) =~= Seq::empty());
    while i < layout.layers.len()
        invariant
            0 <= i <= layout.layers.len(),
            layout.hidden_size > 0,
            layout.expert_width() == (match width {
                Some(w) => Some(w as nat),
                None => None,
            }),
            shapes(expected@) == ffn_shapes(layout, i as nat),
        decreases layout.layers.len() - i,
    {
        expect_layer_ffn(
            &mut expected,
            &layout.layers[i],
            layout.intermediate_size,
            layout.hidden_size,
            width,
        );
        i += 1;
    }
    orient_all(tensors, &expected);
}

/// Brings the attention tensors of every layer into their shapes.
pub fn orient_attention_tensors(tensors: &mut TextMap<Matrix>, layout: &ModelLayout)
    requires
        old(tensors).wf(),
        grids_wf(grids(old(tensors)@)),
        layout.dims_fit(),
    ensures
        final(tensors).wf(),
        grids_wf(grids(final(tensors)@)),
        grids(final(tensors)@) == all_oriented(
            grids(old(tensors)@),
            attention_shapes(layout, layout.layers@.len()),
        ),
{
    let hidden: usize = layout.hidden_size;
    if hidden == 0 || layout.head_dim == 0 {
        return;
    }
    let q: usize = layout.num_q_heads * layout.head_dim;
    let kv: usize = layout.num_kv_heads * layout.head_dim;
    let total: usize = q + 2 * kv;
    let mut expected: Vec<Expected> = Vec::new();
    let mut i: usize = 0;
    assert(shapes(expected@) =~= Seq::empty());
    while i < layout.layers.len()
        invariant
            0 <= i <= layout.layers.len(),
            hidden == layout.hidden_size,
            hidden > 0,
            layout.head_dim > 0,
            q == layout.q_dim(),
            kv == layout.kv_dim(),
            total == q + 2 * kv,
            shapes(expected@) == attention_shapes(layout, i as nat),
        decreases layout.layers.len() - i,
    {
        let ghost before = shapes(expected@);
        let k = &layout.layers[i];
        if q > 0 {
            expect(&mut expected, k.attn_q.as_str(), q, hidden);
            expect(&mut expected, k.attn_o.as_str(), hidden, q);
        }
        if kv > 0 {
            expect(&mut expected, k.attn_k.as_str(), kv, hidden);
            expect(&mut expected, k.attn_v.as_str(), kv, hidden);
        }
        if total > 0 {
            expect_opt(&mut expected, &k.fused_qkv, total, hidden);
        }
        assert(shapes(expected@) =~= before + layer_attention_shapes(
            *k,
            q as nat,
            kv as nat,
            hidden as nat,
        ));
        i += 1;
    }
    orient_all(tensors, &expected);
}

/// The embedding with a row for each token: turned if its columns do not
/// count the hidden state and its rows do, or if its rows do not count the
/// vocabulary and its columns do.
pub open spec fn oriented_embedding(g: Grid, hidden: nat, vocab: Option<nat>) -> Grid {
    if g.cols == hidden || vocab == Some(g.rows) {
        g
    } else if g.rows == hidden || vocab == Some(g.cols) {
        g.transposed()
    } else {
        g
    }
}

/// An optional count as a mathematical number.
pub open spec fn opt_nat(n: Option<usize>) -> Option<nat> {
    match n {
        Some(v) => Some(v as nat),
        None => None,
    }
}

/// The embedding with a row for each token.
pub fn orient_embedding(embed: Matrix, hidden_size: usize, vocab_size: Option<usize>) -> (r: Matrix)
    requires
        embed.wf(),
    ensures
        r.wf(),
        r@ == oriented_embedding(embed@, hidden_size as nat, opt_nat(vocab_size)),
{
    let (rows_fit, cols_fit) = match vocab_size {
        Some(v) => (embed.rows == v, embed.cols == v),
        None => (false, false),
    };
    if embed.cols == hidden_size || rows_fit {
        embed
    } else if embed.rows == hidden_size || cols_fit {
        embed.transpose()
    } else {
        embed
    }
}

/// The table after one layer's fused projection has been cut into query, key
/// and value.  A fused tensor of another shape stays where it is.
pub open spec fn weights_split(
    m: Map<Seq<char>, Grid>,
    k: LayerKeys,
    q: nat,
    kv: nat,
    hidden: nat,
) -> Map<Seq<char>, Grid> {
    match k.fused_qkv {
        None => m,
        Some(key) => if m.dom().contains(key@) && m[key@].rows == q + 2 * kv && m[key@].cols
            == hidden {
            let g = m[key@];
            let rest = m.remove(key@);
            let with_q = if q > 0 {
                rest.insert(k.attn_q@, g.row_range(0, q))
            } else {
                rest
            };
            if kv > 0 {
                with_q.insert(k.attn_k@, g.row_range(q, q + kv)).insert(
                    k.attn_v@,
                    g.row_range(q + kv, q + 2 * kv),
                )
            } else {
                with_q
            }
        } else {
            m
        },
    }
}

/// `m` with `v` under `key`, if there is a key.
pub open spec fn insert_opt(
    m: Map<Seq<char>, Seq<u32>>,
    key: Option<String>,
    v: Seq<u32>,
) -> Map<Seq<char>, Seq<u32>> {
    match key {
        Some(k) => m.insert(k@, v),
        None => m,
    }
}

/// The vectors after one layer's fused bias has been cut the same way.
pub open spec fn biases_split(
    m: Map<Seq<char>, Seq<u32>>,
    k: LayerKeys,
    q: nat,
    kv: nat,
) -> Map<Seq<char>, Seq<u32>> {
    match (k.fused_qkv, k.fused_qkv_bias) {
        (Some(w), Some(key)) => if m.dom().contains(key@) && m[key@].len() == q + 2 * kv {
            let b = m[key@];
            let rest = m.remove(key@);
            let with_q = if q > 0 {
                insert_opt(rest, k.attn_q_bias, b.subrange(0, q as int))
            } else {
                rest
            };
            if kv > 0 {
                insert_opt(
                    insert_opt(with_q, k.attn_k_bias, b.subrange(q as int, (q + kv) as int)),
                    k.attn_v_bias,
                    b.subrange((q + kv) as int, (q + 2 * kv) as int),
                )
            } else {
                with_q
            }
        } else {
            m
        },
        _ => m,
    }
}

/// The matrices after the fused projections of the first `n` layers have been
/// cut.
pub open spec fn all_weights_split(m: Map<Seq<char>, Grid>, l: &ModelLayout, n: nat) -> Map<
    Seq<char>,
    Grid,
>
    decreases n,
{
    if n == 0 || l.hidden_size == 0 || l.head_dim == 0 || l.q_dim() + 2 * l.kv_dim() == 0 {
        m
    } else {
        weights_split(
            all_weights_split(m, l, (n - 1) as nat),
            l.layers@[n - 1],
            l.q_dim(),
            l.kv_dim(),
            l.hidden_size as nat,
        )
    }
}

/// The vectors after the fused biases of the first `n` layers have been cut.
pub open spec fn all_biases_split(m: Map<Seq<char>, Seq<u32>>, l: &ModelLayout, n: nat) -> Map<
    Seq<char>,
    Seq<u32>,
>
    decreases n,
{
    if n == 0 || l.hidden_size == 0 || l.head_dim == 0 || l.q_dim() + 2 * l.kv_dim() == 0 {
        m
    } else {
        biases_split(
            all_biases_split(m, l, (n - 1) as nat),
            l.layers@[n - 1],
            l.q_dim(),
            l.kv_dim(),
        )
    }
}

/// The three parts of a fused projection, put one behind the other, are the
/// projection.
pub proof fn split_parts_join(g: Grid, q: nat, kv: nat)
    requires
        g.wf(),
        g.rows == q + 2 * kv,
    ensures
        g.row_range(0, q).data + g.row_range(q, q + kv).data + g.row_range(q + kv, q + 2 * kv).data
            == g.data,
{
    row_ranges_join(g, 0, q, q + kv);
    row_ranges_join(g, 0, q + kv, q + 2 * kv);
}

/// `key` is the key of a layer's fused projection.
pub open spec fn is_fused_key(l: &ModelLayout, key: Seq<char>) -> bool {
    exists|i: int|
        0 <= i < l.layers@.len() && ((#[trigger] l.layers@[i]).fused_qkv matches Some(k) && k@
            == key)
}

/// `key` is the key of a layer's fused bias.
pub open spec fn is_fused_bias(l: &ModelLayout, key: Seq<char>) -> bool {
    exists|i: int|
        0 <= i < l.layers@.len() && ((#[trigger] l.layers@[i]).fused_qkv_bias matches Some(k) && k@
            == key)
}

/// Cutting fused projections takes nothing away but fused projections.
pub proof fn weight_kept_or_cut(
    m: Map<Seq<char>, Grid>,
    l: &ModelLayout,
    n: nat,
    key: Seq<char>,
)
    requires
        n <= l.layers@.len(),
        m.dom().contains(key),
    ensures
        all_weights_split(m, l, n).dom().contains(key) || is_fused_key(l, key),
    decreases n,
{
    if n > 0 {
        weight_kept_or_cut(m, l, (n - 1) as nat, key);
        let k = l.layers@[n - 1];
        if k.fused_qkv is Some && k.fused_qkv->0@ == key {
            assert(is_fused_key(l, key));
        }
    }
}

/// Cutting fused biases takes nothing away but fused biases.
pub proof fn bias_kept_or_cut(
    m: Map<Seq<char>, Seq<u32>>,
    l: &ModelLayout,
    n: nat,
    key: Seq<char>,
)
    requires
        n <= l.layers@.len(),
        m.dom().contains(key),
    ensures
        all_biases_split(m, l, n).dom().contains(key) || is_fused_bias(l, key),
    decreases n,
{
    if n > 0 {
        bias_kept_or_cut(m, l, (n - 1) as nat, key);
        let k = l.layers@[n - 1];
        if k.fused_qkv_bias is Some && k.fused_qkv_bias->0@ == key {
            assert(is_fused_bias(l, key));
        }
    }
}

/// No two layers share a fused projection, and no fused projection has the key
/// of a query, key or value projection.
pub open spec fn fused_apart(l: &ModelLayout) -> bool {
    forall|i: int, j: int|
        0 <= i < l.layers@.len() && 0 <= j < l.layers@.len() ==> (
        (#[trigger] l.layers@[i]).fused_qkv matches Some(k) ==> fused_clear(
            k@,
            #[trigger] l.layers@[j],
            i == j,
        ))
}

/// `key` is none of a layer's query, key and value projections, nor its fused
/// one unless that is `own`.
pub open spec fn fused_clear(key: Seq<char>, k: LayerKeys, own: bool) -> bool {
    &&& key != k.attn_q@ && key != k.attn_k@ && key != k.attn_v@
    &&& !own ==> (k.fused_qkv matches Some(f) ==> f@ != key)
}

/// A fused projection of the right shape is cut: it is gone, and the layer has
/// its query, key and value.
pub proof fn fused_projection_cut(
    m: Map<Seq<char>, Grid>,
    l: &ModelLayout,
    n: nat,
    layer: int,
)
    requires
        0 <= layer < n <= l.layers@.len(),
        fused_apart(l),
        l.hidden_size > 0,
        l.head_dim > 0,
        l.q_dim() > 0,
        l.kv_dim() > 0,
        l.layers@[layer].fused_qkv matches Some(k) && m.dom().contains(k@) && m[k@].rows
            == l.q_dim() + 2 * l.kv_dim() && m[k@].cols == l.hidden_size,
    ensures
        ({
            let end = all_weights_split(m, l, n);
            let k = l.layers@[layer];
            &&& end.dom().contains(k.attn_q@)
            &&& end.dom().contains(k.attn_k@)
            &&& end.dom().contains(k.attn_v@)
            &&& !end.dom().contains(k.fused_qkv->0@)
        }),
    decreases n,
{
    let key = l.layers@[layer].fused_qkv->0@;
    let last = l.layers@[n - 1];
    assert(fused_clear(key, last, layer == n - 1));
    if layer == n - 1 {
        fused_untouched(m, l, (n - 1) as nat, layer);
    } else {
        fused_projection_cut(m, l, (n - 1) as nat, layer);
        if last.fused_qkv is Some {
            assert(fused_clear(last.fused_qkv->0@, l.layers@[layer], false));
        }
    }
}

/// Cutting other layers' fused projections leaves this one.
proof fn fused_untouched(m: Map<Seq<char>, Grid>, l: &ModelLayout, n: nat, layer: int)
    requires
        n <= layer < l.layers@.len(),
        fused_apart(l),
        l.layers@[layer].fused_qkv matches Some(k) && m.dom().contains(k@),
    ensures
        ({
            let end = all_weights_split(m, l, n);
            let key = l.layers@[layer].fused_qkv->0@;
            end.dom().contains(key) && end[key] == m[key]
        }),
    decreases n,
{
    if n > 0 {
        fused_untouched(m, l, (n - 1) as nat, layer);
        assert(fused_clear(l.layers@[layer].fused_qkv->0@, l.layers@[n - 1], false));
    }
}

/// An embedding with an extent for each token and one for each number of the
/// hidden state ends up with a row for each token; where the number of tokens
/// is not known, with a column for each number of the hidden state.
pub proof fn embedding_has_row_for_each_token(g: Grid, hidden: nat, tokens: nat)
    requires
        has_extents(g, tokens, hidden),
        tokens != hidden,
    ensures
        lies_as(g, oriented_embedding(g, hidden, Some(tokens)), tokens, hidden),
        lies_as(g, oriented_embedding(g, hidden, None), tokens, hidden),
{
}

/// `key` is none of the layer's own projections, fused or not.
pub open spec fn not_of_layer(key: Seq<char>, k: LayerKeys) -> bool {
    &&& key != k.attn_q@ && key != k.attn_k@ && key != k.attn_v@
    &&& !is_key(k.fused_qkv, key)
}

/// The three projections of a layer have keys of their own: they differ from
/// each other and from those of every other layer.
pub open spec fn parts_apart(l: &ModelLayout, layer: int) -> bool {
    let k = l.layers@[layer];
    &&& k.attn_q@ != k.attn_k@ && k.attn_q@ != k.attn_v@ && k.attn_k@ != k.attn_v@
    &&& forall|j: int|
        0 <= j < l.layers@.len() && j != layer ==> not_of_layer(k.attn_q@, #[trigger] l.layers@[j])
            && not_of_layer(k.attn_k@, l.layers@[j]) && not_of_layer(k.attn_v@, l.layers@[j])
}

/// `part` is the rows of `whole` from `from` on.
pub open spec fn is_rows_from(part: Grid, whole: Grid, from: nat, count: nat) -> bool {
    &&& part.rows == count
    &&& part.cols == whole.cols
    &&& forall|r: int, c: int|
        0 <= r < count && 0 <= c < whole.cols ==> #[trigger] part.at(r, c) == whole.at(from + r, c)
}

/// A range of rows holds the numbers of these rows.
proof fn range_is_rows(g: Grid, from: nat, count: nat)
    requires
        g.wf(),
        from + count <= g.rows,
    ensures
        is_rows_from(g.row_range(from, from + count), g, from, count),
{
    let part = g.row_range(from, from + count);
    let w = g.cols as int;
    assert forall|r: int, c: int| 0 <= r < count && 0 <= c < g.cols implies #[trigger] part.at(r, c)
        == g.at(from + r, c) by {
        assert(r * w + c < count * w && 0 <= r * w && from * w + (r * w + c) == (from + r) * w + c
            && from * w + count * w == (from + count) * w && (from + count) * w <= g.rows * w
            && 0 <= from * w) by (nonlinear_arith)
            requires
                0 <= r < count,
                0 <= c < w,
                from >= 0,
                from + count <= g.rows,
        ;
    }
}

/// A fused projection is cut into the query's rows, then the key's, then the
/// value's, number for number.
pub proof fn fused_projection_parts(
    m: Map<Seq<char>, Grid>,
    l: &ModelLayout,
    n: nat,
    layer: int,
)
    requires
        0 <= layer < n <= l.layers@.len(),
        fused_apart(l),
        parts_apart(l, layer),
        l.hidden_size > 0,
        l.head_dim > 0,
        l.num_q_heads > 0,
        l.num_kv_heads > 0,
        l.layers@[layer].fused_qkv matches Some(k) && m.dom().contains(k@) && m[k@].wf()
            && m[k@].rows == (l.num_q_heads + 2 * l.num_kv_heads) * l.head_dim && m[k@].cols
            == l.hidden_size,
    ensures
        ({
            let end = all_weights_split(m, l, n);
            let k = l.layers@[layer];
            let whole = m[k.fused_qkv->0@];
            let q = (l.num_q_heads * l.head_dim) as nat;
            let kv = (l.num_kv_heads * l.head_dim) as nat;
            &&& end.dom().contains(k.attn_q@) && is_rows_from(end[k.attn_q@], whole, 0, q)
            &&& end.dom().contains(k.attn_k@) && is_rows_from(end[k.attn_k@], whole, q, kv)
            &&& end.dom().contains(k.attn_v@) && is_rows_from(end[k.attn_v@], whole, q + kv, kv)
        }),
    decreases n,
{
    let k = l.layers@[layer];
    let key = k.fused_qkv->0@;
    let whole = m[key];
    let (q, kv) = (l.q_dim(), l.kv_dim());
    assert(q > 0 && kv > 0 && whole.rows == q + 2 * kv) by (nonlinear_arith)
        requires
            q == l.num_q_heads as nat * l.head_dim as nat,
            kv == l.num_kv_heads as nat * l.head_dim as nat,
            whole.rows == (l.num_q_heads + 2 * l.num_kv_heads) * l.head_dim,
            l.num_q_heads > 0,
            l.num_kv_heads > 0,
            l.head_dim > 0,
    ;
    let last = l.layers@[n - 1];
    if layer == n - 1 {
        fused_untouched(m, l, (n - 1) as nat, layer);
        range_is_rows(whole, 0, q);
        range_is_rows(whole, q, kv);
        range_is_rows(whole, q + kv, kv);
        assert(q + kv + kv == q + 2 * kv);
    } else {
        fused_projection_parts(m, l, (n - 1) as nat, layer);
        assert(not_of_layer(k.attn_q@, last));
        assert(not_of_layer(k.attn_k@, last));
        assert(not_of_layer(k.attn_v@, last));
    }
}

/// A layer's fused bias is cut the same way: the query's numbers, then the
/// key's, then the value's.
pub proof fn fused_bias_parts(
    m: Map<Seq<char>, Seq<u32>>,
    k: LayerKeys,
    q: nat,
    kv: nat,
    i: int,
)
    requires
        q > 0,
        kv > 0,
        k.fused_qkv is Some,
        k.fused_qkv_bias matches Some(b) && m.dom().contains(b@) && m[b@].len() == q + 2 * kv,
        k.attn_q_bias matches Some(a) && k.attn_k_bias matches Some(b) && k.attn_v_bias matches Some(
            c,
        ) && a@ != b@ && a@ != c@ && b@ != c@,
    ensures
        ({
            let end = biases_split(m, k, q, kv);
            let whole = m[k.fused_qkv_bias->0@];
            let (a, b, c) = (
                end[k.attn_q_bias->0@],
                end[k.attn_k_bias->0@],
                end[k.attn_v_bias->0@],
            );
            &&& end.dom().contains(k.attn_q_bias->0@) && a.len() == q
            &&& end.dom().contains(k.attn_k_bias->0@) && b.len() == kv
            &&& end.dom().contains(k.attn_v_bias->0@) && c.len() == kv
            &&& 0 <= i < q ==> a[i] == whole[i]
            &&& 0 <= i < kv ==> b[i] == whole[q + i] && c[i] == whole[q + kv + i]
        }),
{
}

/// Puts a matrix into the table.
fn put(tensors: &mut TextMap<Matrix>, key: &str, m: Matrix)
    requires
        old(tensors).wf(),
        grids_wf(grids(old(tensors)@)),
        m.wf(),
    ensures
        final(tensors).wf(),
        grids_wf(grids(final(tensors)@)),
        grids(final(tensors)@) == grids(old(tensors)@).insert(key@, m@),
{
    let ghost before = tensors@;
    let ghost view = m@;
    tensors.insert(key.to_owned(), m);
    assert(grids(tensors@) =~= grids(before).insert(key@, view));
}

/// Puts a part of a vector into the table, if there is a key.
fn put_part(
    vectors: &mut TextMap<Vec<u32>>,
    key: &Option<String>,
    v: &Vec<u32>,
    from: usize,
    to: usize,
)
    requires
        old(vectors).wf(),
        from <= to <= v@.len(),
    ensures
        final(vectors).wf(),
        rows_of(final(vectors)@) == insert_opt(
            rows_of(old(vectors)@),
            *key,
            v@.subrange(from as int, to as int),
        ),
{
    let ghost before = vectors@;
    match key {
        Some(k) => {
            let part = vstd::slice::slice_subrange(v.as_slice(), from, to);
            vectors.insert(k.clone(), vstd::slice::slice_to_vec(part));
            assert(rows_of(vectors@) =~= rows_of(before).insert(
                k@,
                v@.subrange(from as int, to as int),
            ));
        },
        None => {},
    }
}

/// Cuts one layer's fused projection.
fn split_layer_weights(
    tensors: &mut TextMap<Matrix>,
    k: &LayerKeys,
    q: usize,
    kv: usize,
    hidden: usize,
)
    requires
        old(tensors).wf(),
        grids_wf(grids(old(tensors)@)),
        q + 2 * kv <= usize::MAX,
    ensures
        final(tensors).wf(),
        grids_wf(grids(final(tensors)@)),
        grids(final(tensors)@) == weights_split(
            grids(old(tensors)@),
            *k,
            q as nat,
            kv as nat,
            hidden as nat,
        ),
{
    let ghost before = tensors@;
    let key: &str = match &k.fused_qkv {
        None => return,
        Some(key) => key.as_str(),
    };
    match tensors.remove(key) {
        None => {},
        Some(fused) => {
            assert(grids(before).dom().contains(key@));
            assert(grids(before)[key@] == fused@);
            assert(grids(tensors@) =~= grids(before).remove(key@));
            if fused.rows == q + 2 * kv && fused.cols == hidden {
                if q > 0 {
                    put(tensors, k.attn_q.as_str(), fused.row_slice(0, q));
                }
                if kv > 0 {
                    put(tensors, k.attn_k.as_str(), fused.row_slice(q, q + kv));
                    put(tensors, k.attn_v.as_str(), fused.row_slice(q + kv, q + 2 * kv));
                }
            } else {
                put(tensors, key, fused);
                assert(grids(tensors@) =~= grids(before));
            }
        },
    }
}

/// Cuts one layer's fused bias.
fn split_layer_biases(vectors: &mut TextMap<Vec<u32>>, k: &LayerKeys, q: usize, kv: usize)
    requires
        old(vectors).wf(),
        q + 2 * kv <= usize::MAX,
    ensures
        final(vectors).wf(),
        rows_of(final(vectors)@) == biases_split(
            rows_of(old(vectors)@),
            *k,
            q as nat,
            kv as nat,
        ),
{
    let ghost before = vectors@;
    if k.fused_qkv.is_none() {
        return;
    }
    let key: &str = match &k.fused_qkv_bias {
        None => return,
        Some(key) => key.as_str(),
    };
    match vectors.remove(key) {
        None => {},
        Some(fused) => {
            assert(rows_of(before).dom().contains(key@));
            assert(rows_of(before)[key@] == fused@);
            assert(rows_of(vectors@) =~= rows_of(before).remove(key@));
            if fused.len() == q + 2 * kv {
                if q > 0 {
                    put_part(vectors, &k.attn_q_bias, &fused, 0, q);
                }
                if kv > 0 {
                    put_part(vectors, &k.attn_k_bias, &fused, q, q + kv);
                    put_part(vectors, &k.attn_v_bias, &fused, q + kv, q + 2 * kv);
                }
            } else {
                let ghost view = fused@;
                vectors.insert(key.to_owned(), fused);
                assert(rows_of(vectors@) =~= rows_of(before));
            }
        },
    }
}

/// Cuts the fused projections and biases of every layer into query, key and
/// value.
pub fn split_fused_qkv(
    tensors: &mut TextMap<Matrix>,
    vectors: &mut TextMap<Vec<u32>>,
    layout: &ModelLayout,
)
    requires
        old(tensors).wf(),
        grids_wf(grids(old(tensors)@)),
        old(vectors).wf(),
        layout.dims_fit(),
    ensures
        final(tensors).wf(),
        grids_wf(grids(final(tensors)@)),
        final(vectors).wf(),
        grids(final(tensors)@) == all_weights_split(
            grids(old(tensors)@),
            layout,
            layout.layers@.len(),
        ),
        rows_of(final(vectors)@) == all_biases_split(
            rows_of(old(vectors)@),
            layout,
            layout.layers@.len(),
        ),
{
    let hidden: usize = layout.hidden_size;
    if hidden == 0 || layout.head_dim == 0 {
        return;
    }
    let q: usize = layout.num_q_heads * layout.head_dim;
    let kv: usize = layout.num_kv_heads * layout.head_dim;
    if q + 2 * kv == 0 {
        return;
    }
    let mut i: usize = 0;
    while i < layout.layers.len()
        invariant
            0 <= i <= layout.layers.len(),
            hidden == layout.hidden_size,
            hidden > 0,
            layout.head_dim > 0,
            q == layout.q_dim(),
            kv == layout.kv_dim(),
            0 < q + 2 * kv <= usize::MAX,
            tensors.wf(),
            grids_wf(grids(tensors@)),
            vectors.wf(),
            grids(tensors@) == all_weights_split(grids(old(tensors)@), layout, i as nat),
            rows_of(vectors@) == all_biases_split(rows_of(old(vectors)@), layout, i as nat),
        decreases layout.layers.len() - i,
    {
        let k = &layout.layers[i];
        split_layer_weights(tensors, k, q, kv, hidden);
        split_layer_biases(vectors, k, q, kv);
        i += 1;
    }
}

/// A matrix is turned exactly if it has the extents that are said of it in the
/// other order: one that has them in order, one that is square and one with
/// other extents stay, and so does every other matrix.
pub proof fn only_reversed_is_turned(m: Map<Seq<char>, Grid>, s: Shape, other: Seq<char>)
    requires
        m.dom().contains(s.key),
        s.rows > 0,
        s.cols > 0,
    ensures
        oriented(m, s).dom() == m.dom(),
        m[s.key].rows == s.rows && m[s.key].cols == s.cols ==> oriented(m, s) == m,
        !has_extents(m[s.key], s.rows, s.cols) ==> oriented(m, s) == m,
        s.rows == s.cols ==> oriented(m, s) == m,
        s.rows != s.cols && m[s.key].rows == s.cols && m[s.key].cols == s.rows ==> oriented(
            m,
            s,
        )[s.key] == m[s.key].transposed(),
        other != s.key && m.dom().contains(other) ==> oriented(m, s)[other] == m[other],
{
    assert(oriented(m, s).dom() =~= m.dom());
}

/// An embedding whose vocabulary is not known is turned exactly if its rows, and
/// not its columns, count the hidden state.
pub proof fn embedding_oriented_by_width(g: Grid, hidden: nat)
    ensures
        g.cols == hidden ==> oriented_embedding(g, hidden, None) == g,
        g.rows == hidden && g.cols != hidden ==> oriented_embedding(g, hidden, None)
            == g.transposed(),
        g.rows != hidden ==> oriented_embedding(g, hidden, None) == g,
{
}

} // verus!
