//! A context of any length, kept window by window.
//!
//! Tokens are fed into a current window.  A full window is closed: its tokens
//! go to an archive, the keys and values of its last position become a
//! checkpoint, and the next window starts empty.  The attention itself is
//! computed elsewhere; what it gave is handed in.
use vstd::prelude::*;

use crate::tensor::{Grid, Matrix};
use crate::text::{concat, concat3, decimal, decimal_string};

verus! {

/// The keys and values of one layer, one row for each position.
#[derive(Debug)]
pub struct LayerKv {
    pub k: Matrix,
    pub v: Matrix,
}

/// What a [`LayerKv`] holds, as plain values.
pub struct LayerGrid {
    pub k: Grid,
    pub v: Grid,
}

impl View for LayerKv {
    type V = LayerGrid;

    open spec fn view(&self) -> LayerGrid {
        LayerGrid { k: self.k@, v: self.v@ }
    }
}

/// What the layers hold.
pub open spec fn layer_grids(s: Seq<LayerKv>) -> Seq<LayerGrid> {
    s.map_values(|l: LayerKv| l@)
}

/// Every layer has at least `n` rows of keys and of values.
pub open spec fn has_rows(s: Seq<LayerGrid>, n: nat) -> bool {
    forall|i: int|
        0 <= i < s.len() ==> (#[trigger] s[i]).k.wf() && s[i].v.wf() && s[i].k.rows >= n
            && s[i].v.rows >= n
}

/// The boundary of a closed window: the keys and values of its last position,
/// and that position.
#[derive(Debug)]
pub struct Checkpoint {
    pub kv: Vec<LayerKv>,
    pub abs_end: usize,
}

/// The boundaries of the closed windows, in order.
#[derive(Debug)]
pub struct CheckpointStore {
    pub items: Vec<Checkpoint>,
}

/// The tokens of a closed window and the position of the first.
#[derive(Debug)]
pub struct ArchivedWindow {
    pub tokens: Vec<u32>,
    pub abs_offset: usize,
}

/// The tokens of the closed windows, in order.
#[derive(Debug)]
pub struct TokenArchive {
    pub windows: Vec<ArchivedWindow>,
}

/// The number of tokens in the windows `s`.
pub open spec fn token_count(s: Seq<(Seq<u32>, nat)>) -> nat
    decreases s.len(),
{
    if s.len() == 0 {
        0
    } else {
        token_count(s.drop_last()) + s.last().0.len()
    }
}

/// The tokens of the windows `s`, one window behind the other.
pub open spec fn all_tokens(s: Seq<(Seq<u32>, nat)>) -> Seq<u32>
    decreases s.len(),
{
    if s.len() == 0 {
        Seq::empty()
    } else {
        all_tokens(s.drop_last()) + s.last().0
    }
}

impl View for CheckpointStore {
    type V = Seq<(Seq<LayerGrid>, nat)>;

    open spec fn view(&self) -> Seq<(Seq<LayerGrid>, nat)> {
        self.items@.map_values(|c: Checkpoint| (layer_grids(c.kv@), c.abs_end as nat))
    }
}

impl View for TokenArchive {
    type V = Seq<(Seq<u32>, nat)>;

    open spec fn view(&self) -> Seq<(Seq<u32>, nat)> {
        self.windows@.map_values(|w: ArchivedWindow| (w.tokens@, w.abs_offset as nat))
    }
}

/// The numbers in the keys and values of `s`.
pub open spec fn number_count(s: Seq<LayerGrid>) -> nat
    decreases s.len(),
{
    if s.len() == 0 {
        0
    } else {
        number_count(s.drop_last()) + s.last().k.data.len() + s.last().v.data.len()
    }
}

/// The numbers in the checkpoints `s`.
pub open spec fn checkpoint_numbers(s: Seq<(Seq<LayerGrid>, nat)>) -> nat
    decreases s.len(),
{
    if s.len() == 0 {
        0
    } else {
        checkpoint_numbers(s.drop_last()) + number_count(s.last().0)
    }
}

impl CheckpointStore {
    pub fn new() -> (r: CheckpointStore)
        ensures
            r@ == Seq::<(Seq<LayerGrid>, nat)>::empty(),
    {
        let r = CheckpointStore { items: Vec::new() };
        assert(r@ =~= Seq::<(Seq<LayerGrid>, nat)>::empty());
        r
    }

    /// The number of checkpoints.
    pub fn len(&self) -> (n: usize)
        ensures
            n == self@.len(),
    {
        self.items.len()
    }

    /// Whether window `id` has a checkpoint.
    pub fn contains(&self, id: usize) -> (r: bool)
        ensures
            r == (id < self@.len()),
    {
        id < self.items.len()
    }

    /// Adds the checkpoint of the next window.
    fn save(&mut self, kv: Vec<LayerKv>, abs_end: usize)
        ensures
            final(self)@ == old(self)@.push((layer_grids(kv@), abs_end as nat)),
    {
        let ghost before = self@;
        let ghost view = layer_grids(kv@);
        self.items.push(Checkpoint { kv, abs_end });
        assert(self@ =~= before.push((view, abs_end as nat)));
    }

    /// The bytes that the checkpoints take, at four for each number; nothing
    /// if that does not fit in a machine word.
    pub fn total_bytes(&self) -> (r: Option<usize>)
        ensures
            match r {
                Some(n) => n == 4 * checkpoint_numbers(self@),
                None => 4 * checkpoint_numbers(self@) > usize::MAX,
            },
    {
        let mut total: usize = 0;
        let mut i: usize = 0;
        assert(self@.take(0) =~= Seq::empty());
        while i < self.items.len()
            invariant
                0 <= i <= self.items.len(),
                total == checkpoint_numbers(self@.take(i as int)),
            decreases self.items.len() - i,
        {
            assert(self@.take(i + 1).drop_last() =~= self@.take(i as int));
            proof {
                checkpoint_numbers_grow(self@, i + 1);
            }
            match count_numbers(&self.items[i].kv) {
                Some(n) => match total.checked_add(n) {
                    Some(t) => {
                        total = t;
                    },
                    None => return None,
                },
                None => return None,
            }
            i += 1;
        }
        assert(self@.take(i as int) =~= self@);
        total.checked_mul(4)
    }
}

/// More checkpoints never have fewer numbers.
proof fn checkpoint_numbers_grow(s: Seq<(Seq<LayerGrid>, nat)>, i: int)
    requires
        0 <= i <= s.len(),
    ensures
        checkpoint_numbers(s.take(i)) <= checkpoint_numbers(s),
    decreases s.len(),
{
    if i < s.len() {
        checkpoint_numbers_grow(s.drop_last(), i);
        assert(s.drop_last().take(i) =~= s.take(i));
    } else {
        assert(s.take(i) =~= s);
    }
}

/// More layers never have fewer numbers.
proof fn number_count_grows(s: Seq<LayerGrid>, i: int)
    requires
        0 <= i <= s.len(),
    ensures
        number_count(s.take(i)) <= number_count(s),
    decreases s.len(),
{
    if i < s.len() {
        number_count_grows(s.drop_last(), i);
        assert(s.drop_last().take(i) =~= s.take(i));
    } else {
        assert(s.take(i) =~= s);
    }
}

/// The numbers in the keys and values, if they fit in a machine word.
fn count_numbers(kv: &Vec<LayerKv>) -> (r: Option<usize>)
    ensures
        match r {
            Some(n) => n == number_count(layer_grids(kv@)),
            None => number_count(layer_grids(kv@)) > usize::MAX,
        },
{
    let ghost all = layer_grids(kv@);
    let mut total: usize = 0;
    let mut i: usize = 0;
    assert(all.take(0) =~= Seq::empty());
    while i < kv.len()
        invariant
            0 <= i <= kv.len(),
            all == layer_grids(kv@),
            total == number_count(all.take(i as int)),
        decreases kv.len() - i,
    {
        assert(all.take(i + 1).drop_last() =~= all.take(i as int));
        proof {
            number_count_grows(all, i + 1);
        }
        match total.checked_add(kv[i].k.data.len()) {
            Some(t) => match t.checked_add(kv[i].v.data.len()) {
                Some(u) => {
                    total = u;
                },
                None => return None,
            },
            None => return None,
        }
        i += 1;
    }
    assert(all.take(i as int) =~= all);
    Some(total)
}

impl TokenArchive {
    pub fn new() -> (r: TokenArchive)
        ensures
            r@ == Seq::<(Seq<u32>, nat)>::empty(),
    {
        let r = TokenArchive { windows: Vec::new() };
        assert(r@ =~= Seq::<(Seq<u32>, nat)>::empty());
        r
    }

    /// The number of windows.
    pub fn len(&self) -> (n: usize)
        ensures
            n == self@.len(),
    {
        self.windows.len()
    }

    /// The tokens of window `id` and the position of the first.
    pub fn retrieve(&self, id: usize) -> (r: Option<(&Vec<u32>, usize)>)
        ensures
            match r {
                Some((tokens, offset)) => id < self@.len() && (tokens@, offset as nat)
                    == self@[id as int],
                None => id >= self@.len(),
            },
    {
        if id < self.windows.len() {
            Some((&self.windows[id].tokens, self.windows[id].abs_offset))
        } else {
            None
        }
    }

    /// Adds the next window.
    fn archive(&mut self, tokens: Vec<u32>, abs_offset: usize)
        ensures
            final(self)@ == old(self)@.push((tokens@, abs_offset as nat)),
    {
        let ghost before = self@;
        let ghost view = tokens@;
        self.windows.push(ArchivedWindow { tokens, abs_offset });
        assert(self@ =~= before.push((view, abs_offset as nat)));
    }
}

/// What an engine holds, as plain values.
pub struct WindowState {
    pub window_size: nat,
    pub checkpoints: Seq<(Seq<LayerGrid>, nat)>,
    pub archive: Seq<(Seq<u32>, nat)>,
    pub tokens: Seq<u32>,
    pub kv: Option<Seq<LayerGrid>>,
    pub kv_len: nat,
    pub abs_offset: nat,
    pub has_handle: bool,
}

impl WindowState {
    /// The closed windows follow one another without a gap, each with its
    /// checkpoint; the current window starts where they end; the keys and
    /// values kept for it have the rows that are said to be valid.
    pub open spec fn wf(self) -> bool {
        &&& self.checkpoints.len() == self.archive.len()
        &&& forall|i: int|
            0 <= i < self.archive.len() ==> self.window_placed(i)
        &&& self.abs_offset == token_count(self.archive)
        &&& self.abs_offset + self.tokens.len() <= usize::MAX
        &&& self.kv matches Some(kv) ==> has_rows(kv, self.kv_len)
    }

    /// Closed window `i` is not empty, starts behind the tokens of the windows
    /// before it, and its checkpoint is at its last position.
    pub open spec fn window_placed(self, i: int) -> bool {
        &&& self.archive[i].0.len() > 0
        &&& self.archive[i].1 == token_count(self.archive.take(i))
        &&& self.checkpoints[i].1 == self.archive[i].1 + self.archive[i].0.len() - 1
    }

    /// All tokens that were fed in.
    pub open spec fn fed(self) -> Seq<u32> {
        all_tokens(self.archive) + self.tokens
    }

    /// The state after the current window has been closed with the checkpoint
    /// `last`.
    pub open spec fn closed(self, last: Seq<LayerGrid>) -> WindowState {
        WindowState {
            window_size: self.window_size,
            checkpoints: self.checkpoints.push(
                (last, (self.abs_offset + self.tokens.len() - 1) as nat),
            ),
            archive: self.archive.push((self.tokens, self.abs_offset)),
            tokens: Seq::empty(),
            kv: None,
            kv_len: 0,
            abs_offset: self.abs_offset + self.tokens.len(),
            has_handle: self.has_handle,
        }
    }

    /// The state after `close_window`, where `read_back` are the rows that the
    /// backend keeps for the last position.
    pub open spec fn after_close(self, read_back: Seq<LayerGrid>) -> WindowState {
        match self.kv {
            Some(kv) => self.closed(last_rows(kv, self.kv_len)),
            None => if self.kv_len == 0 {
                self.closed(Seq::empty())
            } else if self.has_handle {
                self.closed(read_back)
            } else {
                self
            },
        }
    }

    /// The state after the current window has been closed, if it has tokens.
    pub open spec fn flushed(self, read_back: Seq<LayerGrid>) -> WindowState {
        if self.tokens.len() > 0 {
            self.after_close(read_back)
        } else {
            self
        }
    }

    /// The state after `chunk` has been added to the current window with the
    /// keys and values `kv` of the whole window.
    pub open spec fn grown(self, chunk: Seq<u32>, kv: Seq<LayerGrid>) -> WindowState {
        WindowState {
            tokens: self.tokens + chunk,
            kv: Some(kv),
            kv_len: row_count(kv),
            ..self
        }
    }

    /// The state after `chunk` has been added; the window is closed if that
    /// fills it.
    pub open spec fn extended(self, chunk: Seq<u32>, kv: Seq<LayerGrid>) -> WindowState {
        let s = self.grown(chunk, kv);
        if s.tokens.len() >= s.window_size {
            s.closed(last_rows(kv, row_count(kv)))
        } else {
            s
        }
    }

    /// The state after an extension that failed: what it started from, if that
    /// was the current window's own keys and values, is lost.
    pub open spec fn broken(self) -> WindowState {
        if self.tokens.len() > 0 {
            WindowState { kv: None, ..self }
        } else {
            self
        }
    }

    /// The current window can take tokens: it has room, or it is just full and
    /// can be closed, because somebody keeps its last keys and values or it has
    /// none.
    pub open spec fn takes_tokens(self) -> bool {
        &&& self.window_size > 0
        &&& self.tokens.len() <= self.window_size
        &&& self.tokens.len() == self.window_size ==> self.kv is Some || self.kv_len == 0
            || self.has_handle
    }

    /// The state in which the next token is fed in: a window that is full
    /// already has been closed.
    pub open spec fn opened(self, read_back: Seq<LayerGrid>) -> WindowState {
        if self.tokens.len() >= self.window_size {
            self.after_close(read_back)
        } else {
            self
        }
    }

    /// How many of `n` waiting tokens the current window takes.
    pub open spec fn room_for(self, n: nat) -> nat {
        let free = (self.window_size - self.tokens.len()) as nat;
        if n < free {
            n
        } else {
            free
        }
    }
}

/// The keys and values of row `n - 1` of each layer; nothing if `n` is 0.
pub open spec fn last_rows(kv: Seq<LayerGrid>, n: nat) -> Seq<LayerGrid> {
    if n == 0 {
        Seq::empty()
    } else {
        kv.map_values(
            |l: LayerGrid|
                LayerGrid {
                    k: l.k.row_range((n - 1) as nat, n),
                    v: l.v.row_range((n - 1) as nat, n),
                },
        )
    }
}

/// The rows of the first layer; 0 if there is none.
pub open spec fn row_count(kv: Seq<LayerGrid>) -> nat {
    if kv.len() > 0 {
        kv[0].k.rows
    } else {
        0
    }
}

/// `row` is row `n` of `whole` alone, number for number.
pub open spec fn is_single_row(row: Grid, whole: Grid, n: int) -> bool {
    &&& row.rows == 1
    &&& row.cols == whole.cols
    &&& row.data.len() == whole.cols
    &&& forall|c: int| 0 <= c < whole.cols ==> #[trigger] row.data[c] == whole.data[n * whole.cols
        + c]
}

/// The checkpoint holds, for each layer, row `n` of its keys and of its values.
pub open spec fn checkpoint_is_row(cp: Seq<LayerGrid>, kv: Seq<LayerGrid>, n: int) -> bool {
    &&& cp.len() == kv.len()
    &&& forall|i: int|
        0 <= i < kv.len() ==> is_single_row((#[trigger] cp[i]).k, kv[i].k, n) && is_single_row(
            cp[i].v,
            kv[i].v,
            n,
        )
}

/// One row of a matrix, cut out.
proof fn row_cut_out(g: Grid, n: nat)
    requires
        g.wf(),
        0 < n <= g.rows,
    ensures
        is_single_row(g.row_range((n - 1) as nat, n), g, n - 1),
{
    let w = g.cols as int;
    assert(0 <= (n - 1) * w && n * w == (n - 1) * w + w && n * w <= g.rows * w) by (nonlinear_arith)
        requires
            0 < n <= g.rows,
            w >= 0,
    ;
}

/// The last rows of all layers are the rows of the last position.
pub proof fn last_rows_are(kv: Seq<LayerGrid>, n: nat)
    requires
        has_rows(kv, n),
        n > 0,
    ensures
        checkpoint_is_row(last_rows(kv, n), kv, n - 1),
{
    assert forall|i: int| 0 <= i < kv.len() implies is_single_row(
        (#[trigger] last_rows(kv, n)[i]).k,
        kv[i].k,
        n - 1,
    ) && is_single_row(last_rows(kv, n)[i].v, kv[i].v, n - 1) by {
        row_cut_out(kv[i].k, n);
        row_cut_out(kv[i].v, n);
    }
}

/// Closing a window whose keys and values are kept saves those of its last
/// valid row, with the position of its last token; the window's tokens go to
/// the archive with the position of the first, and the next window starts
/// behind them, empty.  Windows closed before stay as they are.
pub proof fn closing_saves_last_position(s: WindowState, read_back: Seq<LayerGrid>)
    requires
        s.wf(),
        s.tokens.len() > 0,
    ensures
        ({
            let end = s.after_close(read_back);
            let n = s.archive.len() as int;
            let closes = s.kv is Some || s.kv_len == 0 || s.has_handle;
            &&& !closes ==> end == s
            &&& closes ==> {
                &&& end.archive.len() == n + 1 && end.checkpoints.len() == n + 1
                &&& end.archive[n].0 == s.tokens && end.archive[n].1 == s.abs_offset
                &&& end.checkpoints[n].1 == s.abs_offset + s.tokens.len() - 1
                &&& end.tokens.len() == 0 && end.kv is None && end.kv_len == 0
                &&& end.abs_offset == s.abs_offset + s.tokens.len()
                &&& end.window_size == s.window_size && end.has_handle == s.has_handle
                &&& forall|i: int|
                    0 <= i < n ==> #[trigger] end.archive[i] == s.archive[i] && end.checkpoints[i]
                        == s.checkpoints[i]
                &&& s.kv is Some && s.kv_len > 0 ==> checkpoint_is_row(
                    end.checkpoints[n].0,
                    s.kv->0,
                    s.kv_len - 1,
                )
                &&& s.kv is None && s.kv_len > 0 ==> end.checkpoints[n].0 == read_back
                &&& s.kv_len == 0 ==> end.checkpoints[n].0.len() == 0
            }
        }),
{
    if s.kv is Some && s.kv_len > 0 {
        last_rows_are(s.kv->0, s.kv_len);
    }
}

/// An extension that fills the window closes it with the keys and values of
/// its last row, at the position of its last token; one that does not keeps
/// the tokens and the new keys and values.
pub proof fn extending_saves_last_position(s: WindowState, chunk: Seq<u32>, kv: Seq<LayerGrid>)
    requires
        s.wf(),
        chunk.len() > 0,
        has_rows(kv, row_count(kv)),
        kv.len() > 0,
        kv[0].k.rows > 0,
    ensures
        ({
            let end = s.extended(chunk, kv);
            let n = s.archive.len() as int;
            let total = s.tokens.len() + chunk.len();
            &&& total >= s.window_size ==> {
                &&& end.archive.len() == n + 1 && end.checkpoints.len() == n + 1
                &&& end.archive[n].0 == s.tokens + chunk && end.archive[n].1 == s.abs_offset
                &&& end.checkpoints[n].1 == s.abs_offset + total - 1
                &&& checkpoint_is_row(end.checkpoints[n].0, kv, kv[0].k.rows - 1)
                &&& end.tokens.len() == 0 && end.abs_offset == s.abs_offset + total
                &&& end.kv is None && end.kv_len == 0
            }
            &&& total < s.window_size ==> {
                &&& end.archive == s.archive && end.checkpoints == s.checkpoints
                &&& end.tokens == s.tokens + chunk && end.abs_offset == s.abs_offset
                &&& end.kv == Some(kv) && end.kv_len == kv[0].k.rows
            }
            &&& end.window_size == s.window_size && end.has_handle == s.has_handle
        }),
{
    last_rows_are(kv, row_count(kv));
}

/// Feeding in `tokens` where the current window has room; `results[i]` is what
/// the i-th extension gave: the new state, and whether all tokens were taken.
/// The first extension that failed stops it.
pub open spec fn processed(
    s: WindowState,
    tokens: Seq<u32>,
    results: Seq<Option<Seq<LayerGrid>>>,
) -> (WindowState, bool)
    decreases tokens.len(),
{
    let take = s.room_for(tokens.len());
    if tokens.len() == 0 {
        (s, true)
    } else if take == 0 || results.len() == 0 {
        (s.broken(), false)
    } else {
        match results[0] {
            None => (s.broken(), false),
            Some(kv) => processed(
                s.extended(tokens.take(take as int), kv),
                tokens.skip(take as int),
                results.skip(1),
            ),
        }
    }
}

/// Feeding in `tokens`; a window that is full already is closed first.
pub open spec fn fed_in(
    s: WindowState,
    tokens: Seq<u32>,
    results: Seq<Option<Seq<LayerGrid>>>,
    read_back: Seq<LayerGrid>,
) -> (WindowState, bool) {
    if tokens.len() == 0 {
        (s, true)
    } else {
        processed(s.opened(read_back), tokens, results)
    }
}

/// Closing a window loses no token.
pub proof fn closing_keeps_tokens(s: WindowState, last: Seq<LayerGrid>)
    ensures
        s.closed(last).fed() == s.fed(),
{
    let w = (s.tokens, s.abs_offset);
    assert(s.archive.push(w).drop_last() =~= s.archive);
    assert(s.closed(last).fed() =~= s.fed());
}

/// Closing a non-empty window keeps the windows in a row.
pub proof fn closing_keeps_order(s: WindowState, last: Seq<LayerGrid>)
    requires
        s.wf(),
        s.tokens.len() > 0,
    ensures
        s.closed(last).wf(),
{
    let c = s.closed(last);
    assert(c.archive.drop_last() =~= s.archive);
    assert forall|i: int| 0 <= i < c.archive.len() implies c.window_placed(i) by {
        if i < s.archive.len() {
            assert(s.window_placed(i));
            assert(c.archive.take(i) =~= s.archive.take(i));
        } else {
            assert(c.archive.take(i) =~= s.archive);
        }
    }
}

/// Extending a window adds its tokens behind those that were fed in before.
pub proof fn extending_adds_tokens(s: WindowState, chunk: Seq<u32>, kv: Seq<LayerGrid>)
    ensures
        s.extended(chunk, kv).fed() == s.fed() + chunk,
{
    let g = s.grown(chunk, kv);
    assert(g.fed() =~= s.fed() + chunk);
    closing_keeps_tokens(g, last_rows(kv, row_count(kv)));
}

/// What was fed in so far stays, in order, and what was taken of the new
/// tokens follows it; all of them are taken unless an extension failed.
pub proof fn processing_adds_tokens(
    s: WindowState,
    tokens: Seq<u32>,
    results: Seq<Option<Seq<LayerGrid>>>,
)
    ensures
        ({
            let (end, done) = processed(s, tokens, results);
            &&& done ==> end.fed() == s.fed() + tokens
            &&& exists|n: int|
                0 <= n <= tokens.len() && end.fed() == s.fed() + #[trigger] tokens.take(n)
        }),
    decreases tokens.len(),
{
    let (end, done) = processed(s, tokens, results);
    let take = s.room_for(tokens.len());
    if tokens.len() == 0 {
        assert(s.fed() + tokens =~= s.fed());
        assert(tokens.take(0) =~= tokens);
    } else if take == 0 || results.len() == 0 || results[0] is None {
        assert(s.fed() + tokens.take(0) =~= s.fed());
        assert(end.fed() == s.fed());
    } else {
        let kv = results[0]->Some_0;
        let chunk = tokens.take(take as int);
        let rest = tokens.skip(take as int);
        let next = s.extended(chunk, kv);
        extending_adds_tokens(s, chunk, kv);
        processing_adds_tokens(next, rest, results.skip(1));
        assert(s.fed() + chunk + rest =~= s.fed() + tokens);
        let n = choose|n: int|
            0 <= n <= rest.len() && end.fed() == next.fed() + #[trigger] rest.take(n);
        assert(next.fed() + rest.take(n) =~= s.fed() + tokens.take(take + n));
    }
}

/// What was fed in so far stays, in order, and what was taken of the new
/// tokens follows it, also where the window was full already.
pub proof fn feeding_adds_tokens(
    s: WindowState,
    tokens: Seq<u32>,
    results: Seq<Option<Seq<LayerGrid>>>,
    read_back: Seq<LayerGrid>,
)
    ensures
        ({
            let (end, done) = fed_in(s, tokens, results, read_back);
            &&& done ==> end.fed() == s.fed() + tokens
            &&& exists|n: int|
                0 <= n <= tokens.len() && end.fed() == s.fed() + #[trigger] tokens.take(n)
        }),
{
    if s.kv is Some {
        closing_keeps_tokens(s, last_rows(s.kv->Some_0, s.kv_len));
    } else {
        closing_keeps_tokens(s, Seq::empty());
        closing_keeps_tokens(s, read_back);
    }
    assert(s.opened(read_back).fed() == s.fed());
    if tokens.len() == 0 {
        assert(s.fed() + tokens =~= s.fed());
        assert(tokens.take(0) =~= tokens);
    } else {
        processing_adds_tokens(s.opened(read_back), tokens, results);
    }
}

/// Every window closed by feeding in tokens has exactly the window size, and
/// the current window never stays full.
pub proof fn processing_fills_windows(
    s: WindowState,
    tokens: Seq<u32>,
    results: Seq<Option<Seq<LayerGrid>>>,
)
    requires
        s.tokens.len() < s.window_size,
    ensures
        ({
            let end = processed(s, tokens, results).0;
            &&& end.tokens.len() < end.window_size
            &&& end.window_size == s.window_size
            &&& s.archive.len() <= end.archive.len()
            &&& forall|i: int|
                s.archive.len() <= i < end.archive.len() ==> (#[trigger] end.archive[i]).0.len()
                    == s.window_size
            &&& forall|i: int|
                0 <= i < s.archive.len() ==> #[trigger] end.archive[i] == s.archive[i]
        }),
    decreases tokens.len(),
{
    let take = s.room_for(tokens.len());
    if tokens.len() == 0 || take == 0 || results.len() == 0 || results[0] is None {
    } else {
        let kv = results[0]->Some_0;
        let next = s.extended(tokens.take(take as int), kv);
        processing_fills_windows(next, tokens.skip(take as int), results.skip(1));
    }
}

/// Where the keys and values that an extension starts from come from.
#[derive(Debug, Clone, Copy, PartialEq, Eq, Structural)]
pub enum Prior {
    /// From nothing.
    Empty,
    /// From the checkpoint of a closed window.
    Checkpoint(usize),
    /// From the current window.
    Current,
}

/// The next extension: how many tokens it takes, from where, at which
/// position.
#[derive(Debug, Clone, Copy, PartialEq, Eq, Structural)]
pub struct ProcessStep {
    pub take: usize,
    pub prior: Prior,
    pub abs_start: usize,
}

/// What it takes to rebuild a closed window.
pub struct ReplayPlan<'a> {
    pub tokens: &'a Vec<u32>,
    pub abs_offset: usize,
    pub prior: Prior,
    /// The position of the window's last token.
    pub abs_end: usize,
}

/// Counts of tokens, windows and bytes.
#[derive(Debug, Clone, Copy, PartialEq, Eq, Structural)]
pub struct EngineStats {
    pub total_tokens: usize,
    pub archived_windows: usize,
    pub current_window_id: usize,
    pub current_window_tokens: usize,
    pub checkpoint_bytes: usize,
    pub archive_bytes: usize,
    pub total_boundary_bytes: usize,
    pub equivalent_kv_bytes: usize,
}

impl EngineStats {
    /// The counts as text; `ratio` is how many times smaller they are than a
    /// full cache.
    pub fn summary(&self, ratio: &str) -> (r: String)
        ensures
            r@ == decimal(self.archived_windows as nat) + " windows / "@ + decimal(
                self.total_tokens as nat,
            ) + " tokens \u{2014} "@ + ratio@ + "\u{d7} compression vs full KV"@,
    {
        let windows = decimal_string(self.archived_windows as u64);
        let tokens = decimal_string(self.total_tokens as u64);
        let a = concat3(windows.as_str(), " windows / ", tokens.as_str());
        let b = concat3(a.as_str(), " tokens \u{2014} ", ratio);
        concat(b.as_str(), "\u{d7} compression vs full KV")
    }
}

/// An engine that keeps a context window by window.
pub struct UnlimitedContextEngine {
    pub window_size: usize,
    pub checkpoints: CheckpointStore,
    pub archive: TokenArchive,
    pub current_window_tokens: Vec<u32>,
    /// The keys and values of the current window, where they are kept here.
    /// Only the first `current_window_kv_len` rows are valid.
    pub current_window_kv: Option<Vec<LayerKv>>,
    pub current_window_kv_len: usize,
    pub abs_offset: usize,
    /// Whether the backend keeps keys and values of its own.
    pub has_handle: bool,
}

/// What optional layers hold.
pub open spec fn opt_layers(kv: Option<Vec<LayerKv>>) -> Option<Seq<LayerGrid>> {
    match kv {
        Some(v) => Some(layer_grids(v@)),
        None => None,
    }
}

impl View for UnlimitedContextEngine {
    type V = WindowState;

    open spec fn view(&self) -> WindowState {
        WindowState {
            window_size: self.window_size as nat,
            checkpoints: self.checkpoints@,
            archive: self.archive@,
            tokens: self.current_window_tokens@,
            kv: opt_layers(self.current_window_kv),
            kv_len: self.current_window_kv_len as nat,
            abs_offset: self.abs_offset as nat,
            has_handle: self.has_handle,
        }
    }
}

/// The last valid rows of each layer.
pub(crate) fn take_last_rows(kv: &Vec<LayerKv>, n: usize) -> (r: Vec<LayerKv>)
    requires
        has_rows(layer_grids(kv@), n as nat),
    ensures
        layer_grids(r@) == last_rows(layer_grids(kv@), n as nat),
{
    let mut out: Vec<LayerKv> = Vec::new();
    if n == 0 {
        assert(layer_grids(out@) =~= Seq::empty());
        return out;
    }
    let ghost all = layer_grids(kv@);
    let ghost want = last_rows(all, n as nat);
    let mut i: usize = 0;
    assert(layer_grids(out@) =~= want.take(0));
    while i < kv.len()
        invariant
            0 <= i <= kv.len(),
            n > 0,
            all == layer_grids(kv@),
            want == last_rows(all, n as nat),
            has_rows(all, n as nat),
            layer_grids(out@) == want.take(i as int),
        decreases kv.len() - i,
    {
        let ghost before = out@;
        let l = &kv[i];
        assert(all[i as int] == l@);
        let row = LayerKv { k: l.k.row_slice(n - 1, n), v: l.v.row_slice(n - 1, n) };
        let ghost view = row@;
        out.push(row);
        i += 1;
        assert(layer_grids(out@) =~= layer_grids(before).push(view));
        assert(want.take(i as int) =~= want.take(i - 1).push(view));
    }
    assert(want.take(i as int) =~= want);
    out
}

impl UnlimitedContextEngine {
    /// An engine without tokens.
    pub fn new(window_size: usize) -> (r: UnlimitedContextEngine)
        ensures
            r@.wf(),
            r@ == (WindowState {
                window_size: window_size as nat,
                checkpoints: Seq::empty(),
                archive: Seq::empty(),
                tokens: Seq::empty(),
                kv: None,
                kv_len: 0,
                abs_offset: 0,
                has_handle: false,
            }),
    {
        let r = UnlimitedContextEngine {
            window_size,
            checkpoints: CheckpointStore::new(),
            archive: TokenArchive::new(),
            current_window_tokens: Vec::new(),
            current_window_kv: None,
            current_window_kv_len: 0,
            abs_offset: 0,
            has_handle: false,
        };
        assert(r@.tokens =~= Seq::empty());
        r
    }

    /// The number of the current window: that of the closed ones.
    pub fn current_window_id(&self) -> (r: usize)
        ensures
            r == self@.archive.len(),
    {
        self.archive.len()
    }

    /// The row of the current window that is read back from the backend to
    /// close it, in every layer: the last one, where the engine keeps none
    /// itself and the backend does.
    pub fn read_back_row(&self) -> (r: Option<usize>)
        ensures
            r == (if self@.kv is None && self@.kv_len > 0 && self@.has_handle {
                Some((self@.kv_len - 1) as usize)
            } else {
                None
            }),
    {
        if self.current_window_kv.is_none() && self.current_window_kv_len > 0 && self.has_handle {
            Some(self.current_window_kv_len - 1)
        } else {
            None
        }
    }

    /// Closes the current window.  `read_back` are the rows that the backend
    /// keeps for the last position; they are used where the engine keeps none
    /// itself.  Where nobody keeps them the window stays open.
    pub fn close_window(&mut self, read_back: Vec<LayerKv>) -> (closed: bool)
        requires
            old(self)@.wf(),
            old(self)@.tokens.len() > 0,
        ensures
            final(self)@.wf(),
            final(self)@ == old(self)@.after_close(layer_grids(read_back@)),
            closed == (final(self)@.archive.len() > old(self)@.archive.len()),
    {
        let ghost s = self@;
        let n: usize = self.current_window_kv_len;
        let kept = self.current_window_kv.take();
        let last: Vec<LayerKv> = match kept {
            Some(kv) => take_last_rows(&kv, n),
            None => {
                if n == 0 {
                    Vec::new()
                } else if self.has_handle {
                    read_back
                } else {
                    return false;
                }
            },
        };
        let ghost rows = layer_grids(last@);
        assert(s.kv is None && s.kv_len == 0 ==> rows =~= Seq::empty());
        self.current_window_kv_len = 0;
        let window_len: usize = self.current_window_tokens.len();
        let abs_end: usize = self.abs_offset + (window_len - 1);
        self.checkpoints.save(last, abs_end);
        let mut tokens: Vec<u32> = Vec::new();
        std::mem::swap(&mut tokens, &mut self.current_window_tokens);
        self.archive.archive(tokens, self.abs_offset);
        self.abs_offset = self.abs_offset + window_len;
        proof {
            closing_keeps_order(s, rows);
            assert(self@.tokens =~= Seq::empty());
            assert(self@ =~= s.closed(rows));
        }
        true
    }

    /// Closes the current window if it has tokens.
    pub fn flush(&mut self, read_back: Vec<LayerKv>)
        requires
            old(self)@.wf(),
        ensures
            final(self)@.wf(),
            final(self)@ == old(self)@.flushed(layer_grids(read_back@)),
    {
        if self.current_window_tokens.len() > 0 {
            self.close_window(read_back);
        }
    }

    /// The next extension, where `waiting` tokens are left to feed in.  A
    /// window that is full takes none of them.
    pub fn next_step(&self, waiting: usize) -> (r: ProcessStep)
        requires
            self@.wf(),
            self@.tokens.len() <= self@.window_size,
        ensures
            r.take == self@.room_for(waiting as nat),
            r.abs_start == self@.abs_offset + self@.tokens.len(),
            r.prior == (if self@.tokens.len() == 0 {
                if self@.archive.len() > 0 {
                    Prior::Checkpoint((self@.archive.len() - 1) as usize)
                } else {
                    Prior::Empty
                }
            } else if self@.kv is Some {
                Prior::Current
            } else {
                Prior::Empty
            }),
    {
        let free: usize = self.window_size - self.current_window_tokens.len();
        let take: usize = if waiting < free {
            waiting
        } else {
            free
        };
        let id = self.archive.len();
        let prior = if self.current_window_tokens.len() == 0 {
            if id > 0 && self.checkpoints.contains(id - 1) {
                Prior::Checkpoint(id - 1)
            } else {
                Prior::Empty
            }
        } else if self.current_window_kv.is_some() {
            Prior::Current
        } else {
            Prior::Empty
        };
        ProcessStep { take, prior, abs_start: self.abs_offset + self.current_window_tokens.len() }
    }

    /// Takes up what an extension by `chunk` gave: the keys and values of the
    /// whole current window.  A window that is full then is closed.
    pub fn extend_current(&mut self, chunk: &[u32], kv: Vec<LayerKv>)
        requires
            old(self)@.wf(),
            chunk@.len() > 0,
            old(self)@.abs_offset + old(self)@.tokens.len() + chunk@.len() <= usize::MAX,
            has_rows(layer_grids(kv@), row_count(layer_grids(kv@))),
        ensures
            final(self)@.wf(),
            final(self)@ == old(self)@.extended(chunk@, layer_grids(kv@)),
    {
        let ghost s = self@;
        let ghost view = layer_grids(kv@);
        let rows: usize = if kv.len() > 0 {
            assert(view[0] == kv@[0]@);
            kv[0].k.rows
        } else {
            0
        };
        self.current_window_kv_len = rows;
        self.current_window_kv = Some(kv);
        let mut i: usize = 0;
        let ghost start = self.current_window_tokens@;
        assert(start + chunk@.take(0) =~= start);
        while i < chunk.len()
            invariant
                0 <= i <= chunk@.len(),
                self.window_size == s.window_size,
                self.checkpoints@ == s.checkpoints,
                self.archive@ == s.archive,
                opt_layers(self.current_window_kv) == Some(view),
                self.current_window_kv_len == rows,
                self.abs_offset == s.abs_offset,
                self.has_handle == s.has_handle,
                self.current_window_tokens@ == start + chunk@.take(i as int),
            decreases chunk@.len() - i,
        {
            self.current_window_tokens.push(chunk[i]);
            i += 1;
            assert(chunk@.take(i as int) =~= chunk@.take(i - 1).push(chunk@[i - 1]));
            assert(self.current_window_tokens@ =~= start + chunk@.take(i as int));
        }
        assert(chunk@.take(i as int) =~= chunk@);
        let ghost g = s.grown(chunk@, view);
        proof {
            assert(self@ =~= g);
            assert forall|k: int| 0 <= k < g.archive.len() implies g.window_placed(k) by {
                assert(s.window_placed(k));
            }
        }
        if self.current_window_tokens.len() >= self.window_size {
            self.close_window(Vec::new());
        }
    }

    /// Takes up that an extension failed.
    pub fn extension_failed(&mut self)
        requires
            old(self)@.wf(),
        ensures
            final(self)@.wf(),
            final(self)@ == old(self)@.broken(),
    {
        let ghost s = self@;
        if self.current_window_tokens.len() > 0 {
            self.current_window_kv = None;
        }
        proof {
            assert(self@ =~= s.broken());
            assert forall|k: int| 0 <= k < s.archive.len() implies self@.window_placed(k) by {
                assert(s.window_placed(k));
            }
        }
    }

    /// Feeds in `tokens`, where `results[i]` is what the i-th extension gives.
    /// A window that is full already is closed first; `read_back` are the rows
    /// that the backend keeps for its last position.  Gives whether all tokens
    /// were taken.
    pub fn process(
        &mut self,
        tokens: &[u32],
        results: Vec<Option<Vec<LayerKv>>>,
        read_back: Vec<LayerKv>,
    ) -> (done: bool)
        requires
            old(self)@.wf(),
            tokens@.len() > 0 ==> old(self)@.takes_tokens(),
            old(self)@.abs_offset + old(self)@.tokens.len() + tokens@.len() <= usize::MAX,
            forall|i: int|
                0 <= i < results@.len() ==> (opt_layers(#[trigger] results@[i]) matches Some(kv)
                    ==> has_rows(kv, row_count(kv))),
        ensures
            final(self)@.wf(),
            (final(self)@, done) == fed_in(
                old(self)@,
                tokens@,
                Seq::new(results@.len(), |i: int| opt_layers(results@[i])),
                layer_grids(read_back@),
            ),
    {
        if tokens.len() == 0 {
            return true;
        }
        if self.current_window_tokens.len() >= self.window_size {
            self.close_window(read_back);
        }
        let ghost s0 = self@;
        let ghost all = Seq::new(results@.len(), |i: int| opt_layers(results@[i]));
        let mut queue = results;
        let mut at: usize = 0;
        let mut used: usize = 0;
        assert(tokens@.skip(0) =~= tokens@);
        assert(all.skip(0) =~= all);
        while at < tokens.len()
            invariant
                0 <= at <= tokens@.len(),
                0 <= used <= queue@.len(),
                queue@.len() == all.len(),
                all == Seq::new(results@.len(), |i: int| opt_layers(results@[i])),
                self@.wf(),
                self@.tokens.len() < self@.window_size,
                self@.abs_offset + self@.tokens.len() + (tokens@.len() - at) <= usize::MAX,
                forall|i: int|
                    used <= i < queue@.len() ==> opt_layers(#[trigger] queue@[i]) == all[i],
                forall|i: int|
                    0 <= i < all.len() ==> (#[trigger] all[i] matches Some(kv) ==> has_rows(
                        kv,
                        row_count(kv),
                    )),
                tokens@.len() > 0,
                s0 == old(self)@.opened(layer_grids(read_back@)),
                processed(s0, tokens@, all) == processed(
                    self@,
                    tokens@.skip(at as int),
                    all.skip(used as int),
                ),
            decreases tokens@.len() - at,
        {
            let step = self.next_step(tokens.len() - at);
            let ghost s = self@;
            let ghost rest = tokens@.skip(at as int);
            if used == queue.len() {
                self.extension_failed();
                return false;
            }
            assert(all.skip(used as int)[0] == all[used as int]);
            let mut slot: Option<Vec<LayerKv>> = None;
            std::mem::swap(&mut slot, &mut queue[used]);
            match slot {
                None => {
                    self.extension_failed();
                    return false;
                },
                Some(kv) => {
                    let chunk = vstd::slice::slice_subrange(tokens, at, at + step.take);
                    assert(chunk@ =~= rest.take(step.take as int));
                    self.extend_current(chunk, kv);
                    proof {
                        extending_bounds(s, chunk@, layer_grids(kv@));
                    }
                    assert(rest.skip(step.take as int) =~= tokens@.skip(at + step.take));
                    assert(all.skip(used as int).skip(1) =~= all.skip(used + 1));
                    at += step.take;
                    used += 1;
                },
            }
        }
        assert(tokens@.skip(at as int) =~= Seq::empty());
        true
    }

    /// What it takes to rebuild closed window `window_id`: its tokens, and the
    /// checkpoint of the window before it.
    pub fn replay_window(&self, window_id: usize) -> (r: Option<ReplayPlan<'_>>)
        requires
            self@.wf(),
        ensures
            match r {
                Some(p) => window_id < self@.archive.len() && p.tokens@
                    == self@.archive[window_id as int].0 && p.abs_offset
                    == self@.archive[window_id as int].1 && p.abs_end
                    == self@.checkpoints[window_id as int].1 && p.prior == (if window_id > 0 {
                    Prior::Checkpoint((window_id - 1) as usize)
                } else {
                    Prior::Empty
                }),
                None => window_id >= self@.archive.len(),
            },
    {
        match self.archive.retrieve(window_id) {
            None => None,
            Some((tokens, abs_offset)) => {
                proof {
                    assert(self@.window_placed(window_id as int));
                    window_ends_before(self@, window_id as int);
                }
                let prior = if window_id > 0 && self.checkpoints.contains(window_id - 1) {
                    Prior::Checkpoint(window_id - 1)
                } else {
                    Prior::Empty
                };
                let abs_end: usize = abs_offset + (tokens.len() - 1);
                Some(ReplayPlan { tokens, abs_offset, prior, abs_end })
            },
        }
    }

    /// The number of tokens in the current window.
    pub fn window_tokens(&self) -> (r: usize)
        ensures
            r == self@.tokens.len(),
    {
        self.current_window_tokens.len()
    }

    /// Counts of tokens, windows and bytes, where one position's keys take
    /// `kv_dim_sum` numbers over all layers.  A token takes four bytes in the
    /// archive, and two bytes for each number of its keys and of its values in
    /// a full cache.  Nothing if a count does not fit in a machine word.
    pub fn stats(&self, kv_dim_sum: usize) -> (r: Option<EngineStats>)
        requires
            self@.wf(),
        ensures
            ({
                let total = self@.abs_offset + self@.tokens.len();
                let checkpoint_bytes = 4 * checkpoint_numbers(self@.checkpoints);
                let archive_bytes = 4 * self@.abs_offset;
                let full = total * kv_dim_sum as nat * 4;
                let fits = checkpoint_bytes + archive_bytes <= usize::MAX && full <= usize::MAX;
                match r {
                    Some(s) => fits && s.total_tokens == total && s.archived_windows
                        == self@.archive.len() && s.current_window_id == self@.archive.len()
                        && s.current_window_tokens == self@.tokens.len() && s.checkpoint_bytes
                        == checkpoint_bytes && s.archive_bytes == archive_bytes
                        && s.total_boundary_bytes == checkpoint_bytes + archive_bytes
                        && s.equivalent_kv_bytes == full,
                    None => !fits,
                }
            }),
    {
        let current: usize = self.current_window_tokens.len();
        let total: usize = self.abs_offset + current;
        let full: usize = match total.checked_mul(kv_dim_sum) {
            Some(n) => match n.checked_mul(4) {
                Some(m) => m,
                None => return None,
            },
            None => {
                assert(total * kv_dim_sum * 4 >= total * kv_dim_sum) by (nonlinear_arith)
                    requires
                        total * kv_dim_sum >= 0,
                ;
                return None;
            },
        };
        let checkpoint_bytes: usize = match self.checkpoints.total_bytes() {
            Some(n) => n,
            None => return None,
        };
        let archive_bytes: usize = match self.abs_offset.checked_mul(4) {
            Some(n) => n,
            None => return None,
        };
        let total_boundary_bytes: usize = match checkpoint_bytes.checked_add(archive_bytes) {
            Some(n) => n,
            None => return None,
        };
        Some(
            EngineStats {
                total_tokens: total,
                archived_windows: self.archive.len(),
                current_window_id: self.archive.len(),
                current_window_tokens: current,
                checkpoint_bytes,
                archive_bytes,
                total_boundary_bytes,
                equivalent_kv_bytes: full,
            },
        )
    }
}

/// An extension moves the end of the tokens by the length of its chunk.
proof fn extending_bounds(s: WindowState, chunk: Seq<u32>, kv: Seq<LayerGrid>)
    requires
        s.tokens.len() < s.window_size,
        s.tokens.len() + chunk.len() <= s.window_size,
    ensures
        s.extended(chunk, kv).tokens.len() < s.window_size,
        s.extended(chunk, kv).window_size == s.window_size,
        s.extended(chunk, kv).abs_offset + s.extended(chunk, kv).tokens.len() == s.abs_offset
            + s.tokens.len() + chunk.len(),
{
}

/// A closed window ends before the current one starts.
proof fn window_ends_before(s: WindowState, i: int)
    requires
        s.wf(),
        0 <= i < s.archive.len(),
    ensures
        s.archive[i].1 + s.archive[i].0.len() <= s.abs_offset,
{
    assert(s.window_placed(i));
    token_count_grows(s.archive, i + 1);
    assert(s.archive.take(i + 1).drop_last() =~= s.archive.take(i));
}

/// More windows never have fewer tokens.
proof fn token_count_grows(s: Seq<(Seq<u32>, nat)>, i: int)
    requires
        0 <= i <= s.len(),
    ensures
        token_count(s.take(i)) <= token_count(s),
    decreases s.len(),
{
    if i < s.len() {
        token_count_grows(s.drop_last(), i);
        assert(s.drop_last().take(i) =~= s.take(i));
    } else {
        assert(s.take(i) =~= s);
    }
}

} // verus!
