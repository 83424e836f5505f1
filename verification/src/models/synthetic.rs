//! Small made-up models, the same on every machine: which tensors they have,
//! of which shape, and the draws that their numbers are made of.
//!
//! A drawn number is `draw / u32::MAX * 2 * scale - scale`; draws and scales
//! are kept, the numbers are computed where they are needed.  A number with a
//! fraction is held by its bit pattern.
use vstd::prelude::*;

use crate::table::TextMap;
use crate::text::opt_text;

verus! {

/// The multiplier of the generator.
pub const LCG_MULTIPLIER: u64 = 6364136223846793005;

/// The increment of the generator.
pub const LCG_INCREMENT: u64 = 1442695040888963407;

/// The distance of two seeds that are counted up.
pub const SEED_STEP: u64 = 0x9e37_79b9_7f4a_7c15;

/// The bit pattern of one tenth.
pub const TENTH: u32 = 0x3DCC_CCCD;

/// The bit pattern of one twentieth.
pub const TWENTIETH: u32 = 0x3D4C_CCCD;

/// The bit pattern of one hundredth.
pub const HUNDREDTH: u32 = 0x3C23_D70A;

/// The bit pattern of one half.
pub const HALF: u32 = 0x3F00_0000;

/// The bit pattern of one.
pub const ONE: u32 = 0x3F80_0000;

/// The bit pattern of zero.
pub const ZERO: u32 = 0;

/// The bit pattern of ten thousand, in double precision.
pub const ROPE_BASE: u64 = 0x40C3_8800_0000_0000;

/// The generator's next state.
pub open spec fn lcg(s: u64) -> u64 {
    s.wrapping_mul(LCG_MULTIPLIER).wrapping_add(LCG_INCREMENT)
}

/// The generator's state after `n` steps.
pub open spec fn advanced(s: u64, n: nat) -> u64
    decreases n,
{
    if n == 0 {
        s
    } else {
        lcg(advanced(s, (n - 1) as nat))
    }
}

/// The first `n` draws from a seed: the low halves of the states that follow
/// it.
pub open spec fn draws(seed: u64, n: nat) -> Seq<u32> {
    Seq::new(n, |k: int| (advanced(seed, (k + 1) as nat) % 0x1_0000_0000) as u32)
}

/// The generator's next state.
pub(crate) fn next_state(s: u64) -> (r: u64)
    ensures
        r == lcg(s),
{
    s.wrapping_mul(LCG_MULTIPLIER).wrapping_add(LCG_INCREMENT)
}

/// Steps taken one after the other add up.
pub proof fn advanced_adds(s: u64, m: nat, n: nat)
    ensures
        advanced(advanced(s, m), n) == advanced(s, m + n),
    decreases n,
{
    if n > 0 {
        advanced_adds(s, m, (n - 1) as nat);
        assert((m + n - 1) as nat == m + (n - 1) as nat);
    }
}

/// Draws from one seed are one stream: more draws go on where fewer end.
pub proof fn draws_go_on(seed: u64, m: nat, n: nat)
    ensures
        draws(seed, m + n) == draws(seed, m) + draws(advanced(seed, m), n),
{
    assert forall|k: int| 0 <= k < m + n implies draws(seed, m + n)[k] == (draws(seed, m) + draws(
        advanced(seed, m),
        n,
    ))[k] by {
        if k >= m {
            advanced_adds(seed, m, (k - m + 1) as nat);
            assert(m + (k - m + 1) as nat == (k + 1) as nat);
        }
    }
    assert(draws(seed, m + n) =~= draws(seed, m) + draws(advanced(seed, m), n));
}

/// The first `n` draws from a seed.
pub fn draw_numbers(seed: u64, n: usize) -> (r: Vec<u32>)
    ensures
        r@ == draws(seed, n as nat),
{
    let mut state: u64 = seed;
    let mut out: Vec<u32> = Vec::new();
    for i in 0..n
        invariant
            state == advanced(seed, i as nat),
            out@ == draws(seed, i as nat),
    {
        state = next_state(state);
        assert(state == advanced(seed, (i + 1) as nat));
        out.push((state % 0x1_0000_0000) as u32);
        assert(out@ =~= draws(seed, (i + 1) as nat));
    }
    out
}

/// Where the seeds of a model's matrices come from.
#[derive(Debug, Clone, Copy, PartialEq, Eq, Structural)]
pub enum SeedRule {
    /// All matrices are drawn from one stream.
    Stream,
    /// Each seed is the one before plus [`SEED_STEP`].
    Counted,
    /// Each seed is the generator's state after the one before.
    Chained,
}

/// The seed of the next matrix, which has `count` numbers.
pub open spec fn seed_of(rule: SeedRule, state: u64) -> u64 {
    match rule {
        SeedRule::Stream => state,
        SeedRule::Counted => state.wrapping_add(SEED_STEP),
        SeedRule::Chained => lcg(state),
    }
}

/// The state behind the next matrix, which has `count` numbers.
pub open spec fn state_behind(rule: SeedRule, state: u64, count: nat) -> u64 {
    match rule {
        SeedRule::Stream => advanced(state, count),
        SeedRule::Counted => state.wrapping_add(SEED_STEP),
        SeedRule::Chained => lcg(state),
    }
}

/// A matrix of draws.
#[derive(Debug)]
pub struct DrawnMatrix {
    pub rows: usize,
    pub cols: usize,
    pub scale: u32,
    pub draws: Vec<u32>,
}

/// A [`DrawnMatrix`], as plain values.
pub struct DrawnView {
    pub rows: nat,
    pub cols: nat,
    pub scale: u32,
    pub draws: Seq<u32>,
}

impl View for DrawnMatrix {
    type V = DrawnView;

    open spec fn view(&self) -> DrawnView {
        DrawnView {
            rows: self.rows as nat,
            cols: self.cols as nat,
            scale: self.scale,
            draws: self.draws@,
        }
    }
}

/// The matrix that is drawn from a seed.
pub open spec fn drawn(rows: nat, cols: nat, scale: u32, seed: u64) -> DrawnView {
    DrawnView { rows, cols, scale, draws: draws(seed, rows * cols) }
}

/// The matrix of zeros: with scale zero every draw gives zero.
pub open spec fn blank(rows: nat, cols: nat) -> DrawnView {
    DrawnView { rows, cols, scale: ZERO, draws: Seq::new(rows * cols, |k: int| 0u32) }
}

/// The matrix that is drawn from a seed.
pub fn rand_mat_seeded(rows: usize, cols: usize, scale: u32, seed: u64) -> (r: DrawnMatrix)
    requires
        rows * cols <= usize::MAX,
    ensures
        r@ == drawn(rows as nat, cols as nat, scale, seed),
{
    DrawnMatrix { rows, cols, scale, draws: draw_numbers(seed, rows * cols) }
}

/// The matrix of zeros.
pub(crate) fn blank_matrix(rows: usize, cols: usize) -> (r: DrawnMatrix)
    requires
        rows * cols <= usize::MAX,
    ensures
        r@ == blank(rows as nat, cols as nat),
{
    let n: usize = rows * cols;
    let mut numbers: Vec<u32> = Vec::new();
    for i in 0..n
        invariant
            numbers@ == Seq::new(i as nat, |k: int| 0u32),
    {
        numbers.push(0);
        assert(numbers@ =~= Seq::new((i + 1) as nat, |k: int| 0u32));
    }
    DrawnMatrix { rows, cols, scale: ZERO, draws: numbers }
}

/// A copy of a matrix.
pub(crate) fn copy_matrix(m: &DrawnMatrix) -> (r: DrawnMatrix)
    ensures
        r@ == m@,
{
    DrawnMatrix {
        rows: m.rows,
        cols: m.cols,
        scale: m.scale,
        draws: vstd::slice::slice_to_vec(m.draws.as_slice()),
    }
}

/// What the numbers of a vector are.
#[derive(Debug, Clone, Copy, PartialEq, Eq, Structural)]
pub enum Fill {
    /// All the same.
    Same(u32),
    /// `sin(i / 1000) / 20` for the number at index `i`.
    Wave,
}

/// A vector of made-up numbers.
#[derive(Debug, Clone, Copy, PartialEq, Eq, Structural)]
pub struct FilledVector {
    pub len: usize,
    pub fill: Fill,
}

/// Which ramp the numbers of a packed tensor follow: the number at index `i`
/// is `((i % 256) * slope - offset) / 10`.
#[derive(Debug, Clone, Copy, PartialEq, Eq, Structural)]
pub enum Ramp {
    /// Slope 0.001, offset 0.128.
    GateUp,
    /// Slope 0.0007, offset 0.09.
    Down,
}

/// A packed tensor of so many numbers.
#[derive(Debug, Clone, Copy, PartialEq, Eq, Structural)]
pub struct PackedRamp {
    pub count: usize,
    pub ramp: Ramp,
}

/// What stands under a key.
#[derive(Debug, Clone, Copy, PartialEq, Eq, Structural)]
pub enum Content {
    /// A drawn matrix.
    Drawn { rows: usize, cols: usize },
    /// A matrix of zeros.
    Blank { rows: usize, cols: usize },
    /// A vector.
    Vector(FilledVector),
    /// A packed tensor.
    Packed(PackedRamp),
}

/// A key, if the model has it, and what stands there.
pub struct Item {
    pub key: Option<String>,
    pub content: Content,
}

/// An [`Item`], as plain values.
pub struct ItemView {
    pub key: Option<Seq<char>>,
    pub content: Content,
}

impl View for Item {
    type V = ItemView;

    open spec fn view(&self) -> ItemView {
        ItemView { key: opt_text(self.key), content: self.content }
    }
}

/// What a list of items holds.
pub open spec fn item_views(v: Seq<Item>) -> Seq<ItemView> {
    v.map_values(|i: Item| i@)
}

/// The number of numbers of an item's matrix fits in a machine word.
pub open spec fn content_fits(c: Content) -> bool {
    match c {
        Content::Drawn { rows, cols } => rows * cols <= usize::MAX,
        Content::Blank { rows, cols } => rows * cols <= usize::MAX,
        _ => true,
    }
}

/// The tensors of a made-up model.
pub struct Parts {
    pub tensors: TextMap<DrawnMatrix>,
    pub vectors: TextMap<FilledVector>,
    pub raw_bytes: TextMap<PackedRamp>,
}

/// What [`Parts`] holds, as plain values.
#[verifier::ext_equal]
pub struct PartsView {
    pub tensors: Map<Seq<char>, DrawnView>,
    pub vectors: Map<Seq<char>, FilledVector>,
    pub raw_bytes: Map<Seq<char>, PackedRamp>,
}

/// What a table of matrices holds.
pub open spec fn drawn_views(m: Map<Seq<char>, DrawnMatrix>) -> Map<Seq<char>, DrawnView> {
    m.map_values(|x: DrawnMatrix| x@)
}

impl View for Parts {
    type V = PartsView;

    open spec fn view(&self) -> PartsView {
        PartsView {
            tensors: drawn_views(self.tensors@),
            vectors: self.vectors@,
            raw_bytes: self.raw_bytes@,
        }
    }
}

impl Parts {
    /// No key comes twice in a table.
    pub open spec fn wf(&self) -> bool {
        self.tensors.wf() && self.vectors.wf() && self.raw_bytes.wf()
    }
}

/// The parts and the seed state with one more item.  An item without a key is
/// left out.
pub open spec fn with_item(
    parts: PartsView,
    state: u64,
    item: ItemView,
    rule: SeedRule,
    scale: u32,
) -> (PartsView, u64) {
    match item.key {
        None => (parts, state),
        Some(key) => match item.content {
            Content::Drawn { rows, cols } => (
                PartsView {
                    tensors: parts.tensors.insert(
                        key,
                        drawn(rows as nat, cols as nat, scale, seed_of(rule, state)),
                    ),
                    ..parts
                },
                state_behind(rule, state, rows as nat * cols as nat),
            ),
            Content::Blank { rows, cols } => (
                PartsView {
                    tensors: parts.tensors.insert(key, blank(rows as nat, cols as nat)),
                    ..parts
                },
                state,
            ),
            Content::Vector(v) => (
                PartsView { vectors: parts.vectors.insert(key, v), ..parts },
                state,
            ),
            Content::Packed(p) => (
                PartsView { raw_bytes: parts.raw_bytes.insert(key, p), ..parts },
                state,
            ),
        },
    }
}

/// The parts and the seed state with all of `items`, in order.
pub open spec fn with_items(
    parts: PartsView,
    state: u64,
    items: Seq<ItemView>,
    rule: SeedRule,
    scale: u32,
) -> (PartsView, u64)
    decreases items.len(),
{
    if items.len() == 0 {
        (parts, state)
    } else {
        let (before, s) = with_items(parts, state, items.drop_last(), rule, scale);
        with_item(before, s, items.last(), rule, scale)
    }
}

/// What was there stays there, and so does what is put there: under every key
/// that the items name there is something in the end.
pub proof fn item_present(
    parts: PartsView,
    state: u64,
    items: Seq<ItemView>,
    rule: SeedRule,
    scale: u32,
    i: int,
)
    requires
        0 <= i < items.len(),
        items[i].key is Some,
    ensures
        ({
            let end = with_items(parts, state, items, rule, scale).0;
            let key = items[i].key->0;
            match items[i].content {
                Content::Drawn { .. } => end.tensors.dom().contains(key),
                Content::Blank { .. } => end.tensors.dom().contains(key),
                Content::Vector(_) => end.vectors.dom().contains(key),
                Content::Packed(_) => end.raw_bytes.dom().contains(key),
            }
        }),
    decreases items.len(),
{
    if i < items.len() - 1 {
        assert(items.drop_last()[i] == items[i]);
        item_present(parts, state, items.drop_last(), rule, scale, i);
    }
}

/// Whatever packed tensor stands under a key in the end was there at the start
/// or is one of the items.
pub proof fn packed_from_item(
    parts: PartsView,
    state: u64,
    items: Seq<ItemView>,
    rule: SeedRule,
    scale: u32,
    key: Seq<char>,
)
    requires
        with_items(parts, state, items, rule, scale).0.raw_bytes.dom().contains(key),
        !parts.raw_bytes.dom().contains(key),
    ensures
        exists|i: int|
            0 <= i < items.len() && (#[trigger] items[i]).key == Some(key) && items[i].content
                == Content::Packed(
                with_items(parts, state, items, rule, scale).0.raw_bytes[key],
            ),
    decreases items.len(),
{
    if items.len() > 0 {
        let init = items.drop_last();
        let end = with_items(parts, state, items, rule, scale).0;
        let before = with_items(parts, state, init, rule, scale).0;
        let last = items[items.len() - 1];
        assert(items.last() == last);
        if last.key == Some(key) && last.content is Packed {
            assert(last.content == Content::Packed(end.raw_bytes[key]));
        } else {
            assert(before.raw_bytes.dom().contains(key) && before.raw_bytes[key]
                == end.raw_bytes[key]);
            packed_from_item(parts, state, init, rule, scale, key);
            let i = choose|i: int|
                0 <= i < init.len() && (#[trigger] init[i]).key == Some(key) && init[i].content
                    == Content::Packed(before.raw_bytes[key]);
            assert(items[i] == init[i]);
        }
    }
}

impl Parts {
    /// Nothing.
    pub fn new() -> (r: Parts)
        ensures
            r.wf(),
            r@ == no_parts(),
    {
        let r = Parts {
            tensors: TextMap::new(),
            vectors: TextMap::new(),
            raw_bytes: TextMap::new(),
        };
        assert(r@ =~= no_parts());
        r
    }

    /// Puts a matrix under a key.
    pub fn put_tensor(&mut self, key: String, matrix: DrawnMatrix)
        requires
            old(self).wf(),
        ensures
            final(self).wf(),
            final(self)@ == (PartsView {
                tensors: old(self)@.tensors.insert(key@, matrix@),
                ..old(self)@
            }),
    {
        let ghost before = self.tensors@;
        let ghost text = key@;
        let ghost view = matrix@;
        self.tensors.insert(key, matrix);
        assert(drawn_views(self.tensors@) =~= drawn_views(before).insert(text, view));
    }

    /// Adds an item; the new seed state.
    fn add(&mut self, state: u64, item: &Item, rule: SeedRule, scale: u32) -> (r: u64)
        requires
            old(self).wf(),
            content_fits(item.content),
        ensures
            final(self).wf(),
            (final(self)@, r) == with_item(old(self)@, state, item@, rule, scale),
    {
        let key = match &item.key {
            Some(k) => k.clone(),
            None => {
                return state;
            },
        };
        let ghost text = key@;
        match item.content {
            Content::Drawn { rows, cols } => {
                let seed: u64 = match rule {
                    SeedRule::Stream => state,
                    SeedRule::Counted => state.wrapping_add(SEED_STEP),
                    SeedRule::Chained => next_state(state),
                };
                let matrix = rand_mat_seeded(rows, cols, scale, seed);
                self.put_tensor(key, matrix);
                match rule {
                    SeedRule::Stream => skip_draws(state, rows * cols),
                    _ => seed,
                }
            },
            Content::Blank { rows, cols } => {
                let matrix = blank_matrix(rows, cols);
                self.put_tensor(key, matrix);
                state
            },
            Content::Vector(v) => {
                self.vectors.insert(key, v);
                state
            },
            Content::Packed(p) => {
                self.raw_bytes.insert(key, p);
                state
            },
        }
    }

    /// Adds items, in order; the new seed state.
    pub fn add_all(&mut self, state: u64, items: &Vec<Item>, rule: SeedRule, scale: u32) -> (r: u64)
        requires
            old(self).wf(),
            forall|i: int| 0 <= i < items@.len() ==> content_fits((#[trigger] items@[i]).content),
        ensures
            final(self).wf(),
            (final(self)@, r) == with_items(old(self)@, state, item_views(items@), rule, scale),
    {
        let ghost start = self@;
        let ghost all = item_views(items@);
        let mut now: u64 = state;
        assert(all.take(0) =~= Seq::<ItemView>::empty());
        for i in 0..items.len()
            invariant
                self.wf(),
                all == item_views(items@),
                (self@, now) == with_items(start, state, all.take(i as int), rule, scale),
                forall|k: int|
                    0 <= k < items@.len() ==> content_fits((#[trigger] items@[k]).content),
        {
            assert(all.take(i + 1).drop_last() =~= all.take(i as int));
            now = self.add(now, &items[i], rule, scale);
        }
        assert(all.take(all.len() as int) =~= all);
        now
    }
}

/// No tensors.
pub open spec fn no_parts() -> PartsView {
    PartsView { tensors: Map::empty(), vectors: Map::empty(), raw_bytes: Map::empty() }
}

/// The generator's state after `n` steps.
pub(crate) fn skip_draws(state: u64, n: usize) -> (r: u64)
    ensures
        r == advanced(state, n as nat),
{
    let mut now: u64 = state;
    for i in 0..n
        invariant
            now == advanced(state, i as nat),
    {
        now = next_state(now);
        assert(now == advanced(state, (i + 1) as nat));
    }
    now
}

} // verus!
