//! What holds of the engines, stated over what their functions promise.
use vstd::prelude::*;

use crate::kv::dispatch::{greater, prompt_layers, rows_fit, DispatchStep};
use crate::kv::executor_walk::{ChunkWalk, WalkStep};
use crate::kv::generation::{
    generation_is_stream, is_stop, is_stop_token_str, started, stream, Action, GenState,
};
use crate::kv::info::EngineInfo;
use crate::kv::standard::{cached_numbers, CacheHandle, CacheState, StandardEngine};
use crate::kv::unlimited_context::{
    all_tokens, checkpoint_is_row, checkpoint_numbers, has_rows, last_rows_are, number_count,
    token_count, CheckpointStore, EngineStats, LayerGrid, Prior, ProcessStep, ReplayPlan,
    TokenArchive, UnlimitedContextEngine, WindowState,
};
use crate::kv::unlimited_engine::{current_numbers, prefill_start, row_numbers, Walk};
use crate::tensor::Grid;
use crate::text::{decimal, has_prefix, has_suffix};

verus! {

/// The windows hold as many tokens as they list.
proof fn tokens_counted(s: Seq<(Seq<u32>, nat)>)
    ensures
        all_tokens(s).len() == token_count(s),
    decreases s.len(),
{
    if s.len() > 0 {
        tokens_counted(s.drop_last());
    }
}

/// The counts of an engine: every token that was fed in, the closed windows,
/// the tokens of the current one; four bytes for each archived token and for
/// each number of a checkpoint; and for each token two bytes for each of its
/// keys' and each of its values' numbers.
pub proof fn stats_count(
    e: &UnlimitedContextEngine,
    kv_dim_sum: usize,
    r: Option<EngineStats>,
)
    requires
        e@.wf(),
        call_ensures(UnlimitedContextEngine::stats, (e, kv_dim_sum), r),
    ensures
        r matches Some(s) ==> {
            &&& s.total_tokens == e@.fed().len()
            &&& s.archived_windows == e@.archive.len()
            &&& s.current_window_id == e@.archive.len()
            &&& s.current_window_tokens == e@.tokens.len()
            &&& s.archive_bytes == 4 * all_tokens(e@.archive).len()
            &&& s.archive_bytes + 4 * e@.tokens.len() == 4 * s.total_tokens
            &&& s.total_boundary_bytes == s.checkpoint_bytes + s.archive_bytes
            &&& s.checkpoint_bytes == 4 * checkpoint_numbers(e@.checkpoints)
            &&& s.equivalent_kv_bytes == (2 + 2) * (e@.fed().len() * kv_dim_sum)
            &&& e@.archive.len() == 0 ==> s.total_boundary_bytes == 0
        },
        4 * (checkpoint_numbers(e@.checkpoints) + all_tokens(e@.archive).len()) <= usize::MAX && (
        2 + 2) * (e@.fed().len() * kv_dim_sum) <= usize::MAX ==> r is Some,
{
    tokens_counted(e@.archive);
    let n = e@.fed().len();
    assert(n * kv_dim_sum as nat * 4 == (2 + 2) * (n * kv_dim_sum)) by (nonlinear_arith);
}

/// A checkpoint counts with all the numbers of its keys and values.
pub proof fn checkpoint_counts(s: Seq<(Seq<LayerGrid>, nat)>, kv: Seq<LayerGrid>, at: nat)
    ensures
        checkpoint_numbers(s.push((kv, at))) == checkpoint_numbers(s) + number_count(kv),
        number_count(Seq::empty()) == 0,
        checkpoint_numbers(Seq::empty()) == 0,
{
    assert(s.push((kv, at)).drop_last() =~= s);
}

/// A layer counts with all the numbers of its keys and of its values.
pub proof fn layer_counts(kv: Seq<LayerGrid>, l: LayerGrid)
    ensures
        number_count(kv.push(l)) == number_count(kv) + l.k.data.len() + l.v.data.len(),
{
    assert(kv.push(l).drop_last() =~= kv);
}

/// Only the valid rows of the current window count: a layer counts with as
/// many rows of its keys' and its values' width.
pub proof fn valid_rows_count(kv: Seq<LayerGrid>, l: LayerGrid, rows: nat)
    ensures
        row_numbers(kv.push(l), rows) == row_numbers(kv, rows) + rows * l.k.cols + rows * l.v.cols,
        row_numbers(Seq::empty(), rows) == 0,
{
    assert(kv.push(l).drop_last() =~= kv);
    assert((l.k.cols + l.v.cols) * rows == rows * l.k.cols + rows * l.v.cols) by (nonlinear_arith);
}

/// The memory of an engine: its checkpoints, its archive and the valid rows of
/// its current window, four bytes for each number and each token.
pub proof fn memory_adds_up(
    e: &UnlimitedContextEngine,
    cold: Option<usize>,
    current: Option<usize>,
    all: Option<usize>,
)
    requires
        e@.wf(),
        call_ensures(UnlimitedContextEngine::cold_bytes, (e,), cold),
        call_ensures(UnlimitedContextEngine::current_kv_bytes, (e,), current),
        call_ensures(UnlimitedContextEngine::memory_bytes, (e,), all),
    ensures
        cold matches Some(n) ==> n == 4 * (checkpoint_numbers(e@.checkpoints) + all_tokens(
            e@.archive,
        ).len()),
        current matches Some(n) ==> n == 4 * current_numbers(e@),
        e@.kv is None ==> current == Some(0usize),
        all matches Some(n) ==> (cold matches Some(a) && current matches Some(b) && n == a + b),
        4 * (checkpoint_numbers(e@.checkpoints) + all_tokens(e@.archive).len()) <= usize::MAX
            ==> cold is Some,
        4 * current_numbers(e@) <= usize::MAX ==> current is Some,
        cold is Some && current is Some && cold->0 + current->0 <= usize::MAX ==> all is Some,
{
    tokens_counted(e@.archive);
}

/// The next extension takes what fits in the window, starts behind all tokens
/// that were fed in, and goes on from the current window's keys and values, or
/// from the last checkpoint where the window is empty.
pub proof fn next_extension(e: &UnlimitedContextEngine, waiting: usize, r: ProcessStep)
    requires
        e@.wf(),
        e@.tokens.len() <= e@.window_size,
        call_ensures(UnlimitedContextEngine::next_step, (e, waiting), r),
    ensures
        r.take <= waiting,
        e@.tokens.len() + r.take <= e@.window_size,
        r.take == waiting || e@.tokens.len() + r.take == e@.window_size,
        r.abs_start == e@.fed().len(),
        e@.tokens.len() > 0 && e@.kv is Some ==> r.prior == Prior::Current,
        e@.tokens.len() > 0 && e@.kv is None ==> r.prior == Prior::Empty,
        e@.tokens.len() == 0 && e@.archive.len() > 0 ==> r.prior == Prior::Checkpoint(
            (e@.archive.len() - 1) as usize,
        ),
        e@.fed().len() == 0 ==> r.prior == Prior::Empty,
{
    tokens_counted(e@.archive);
    if e@.archive.len() > 0 {
        assert(e@.window_placed(e@.archive.len() - 1));
    }
}

/// The tokens of the first `i` windows stand in front of those of all.
proof fn windows_in_order(s: Seq<(Seq<u32>, nat)>, i: int)
    requires
        0 <= i <= s.len(),
    ensures
        all_tokens(s.take(i)).len() <= all_tokens(s).len(),
        all_tokens(s).take(all_tokens(s.take(i)).len() as int) == all_tokens(s.take(i)),
    decreases s.len(),
{
    let head = all_tokens(s.take(i));
    if i == s.len() {
        assert(s.take(i) =~= s);
        assert(all_tokens(s).take(head.len() as int) =~= head);
    } else {
        let init = s.drop_last();
        assert(init.take(i) =~= s.take(i));
        windows_in_order(init, i);
        assert(all_tokens(s).take(head.len() as int) =~= all_tokens(init).take(head.len() as int));
    }
}

/// A closed window is rebuilt from the very tokens that were fed in at its
/// positions, and from the checkpoint of the position before them.
pub proof fn replay_reads_its_tokens(
    e: &UnlimitedContextEngine,
    id: usize,
    p: ReplayPlan<'_>,
)
    requires
        e@.wf(),
        call_ensures(UnlimitedContextEngine::replay_window, (e, id), Some(p)),
    ensures
        ({
            let from = p.abs_offset as int;
            let to = from + p.tokens@.len();
            &&& 0 <= from < to <= e@.fed().len()
            &&& p.tokens@ == e@.fed().subrange(from, to)
            &&& p.abs_end == to - 1
            &&& id == 0 ==> p.prior == Prior::Empty && from == 0
            &&& id > 0 ==> p.prior == Prior::Checkpoint((id - 1) as usize) && e@.checkpoints[id - 1].1
                + 1 == from
        }),
{
    let s = e@.archive;
    let i = id as int;
    assert(e@.window_placed(i));
    windows_in_order(s, i);
    windows_in_order(s, i + 1);
    tokens_counted(s.take(i));
    assert(s.take(i + 1).drop_last() =~= s.take(i));
    let head = all_tokens(s.take(i));
    let both = all_tokens(s.take(i + 1));
    assert(both == head + s[i].0);
    assert(e@.fed().subrange(head.len() as int, both.len() as int) =~= s[i].0) by {
        assert forall|k: int| 0 <= k < s[i].0.len() implies e@.fed()[head.len() + k] == s[i].0[k] by {
            assert(all_tokens(s).take(both.len() as int)[head.len() + k] == both[head.len() + k]);
        }
    }
    if id > 0 {
        assert(e@.window_placed(i - 1));
        assert(s.take(i).drop_last() =~= s.take(i - 1));
        tokens_counted(s.take(i - 1));
    } else {
        assert(s.take(0) =~= Seq::empty());
    }
}

/// Row `r` of the matrix is `row`.
pub open spec fn row_is(g: Grid, r: int, row: Seq<u32>) -> bool {
    forall|c: int| 0 <= c < g.cols ==> #[trigger] g.at(r, c) == row[c]
}

/// Row `r` is the same in both matrices.
pub open spec fn same_row(a: Grid, b: Grid, r: int) -> bool {
    forall|c: int| 0 <= c < b.cols ==> #[trigger] a.at(r, c) == b.at(r, c)
}

/// Writing a row changes that row and no other.
proof fn one_row_written(g: Grid, n: nat, row: Seq<u32>, r: int)
    requires
        g.wf(),
        n < g.rows,
        row.len() == g.cols,
        0 <= r < g.rows,
    ensures
        g.with_row(n, row).rows == g.rows,
        g.with_row(n, row).cols == g.cols,
        r == n ==> row_is(g.with_row(n, row), r, row),
        r != n ==> same_row(g.with_row(n, row), g, r),
{
    let h = g.with_row(n, row);
    let w = g.cols as int;
    assert forall|c: int| 0 <= c < w implies (r == n ==> #[trigger] h.at(r, c) == row[c]) && (r != n
        ==> h.at(r, c) == g.at(r, c)) by {
        assert(0 <= r * w + c < g.rows * w) by (nonlinear_arith)
            requires
                0 <= r < g.rows,
                0 <= c < w,
        ;
        if r < n {
            assert(r * w + c < n * w) by (nonlinear_arith)
                requires
                    r + 1 <= n,
                    0 <= c < w,
            ;
        } else if r > n {
            assert(r * w + c >= n * w + w) by (nonlinear_arith)
                requires
                    n + 1 <= r,
                    0 <= c < w,
            ;
        }
    }
}

/// A step on the backend writes the new keys and values of each layer behind
/// the valid rows, and changes no other row.
pub proof fn step_writes_next_row(
    s: WindowState,
    token: u32,
    rows: Seq<LayerGrid>,
    i: int,
    r: int,
)
    requires
        s.kv matches Some(kv) && has_rows(kv, s.kv_len) && rows_fit(kv, rows, s.kv_len) && 0 <= i
            < kv.len() && i < rows.len() && 0 <= r < kv[i].k.rows && r < kv[i].v.rows,
    ensures
        ({
            let after = s.stepped(token, rows);
            let kv = s.kv->0;
            &&& after.tokens == s.tokens.push(token)
            &&& after.kv_len == s.kv_len + 1
            &&& after.kv matches Some(new) && {
                &&& new.len() == kv.len()
                &&& r == s.kv_len ==> row_is(new[i].k, r, rows[i].k.data) && row_is(
                    new[i].v,
                    r,
                    rows[i].v.data,
                )
                &&& r != s.kv_len ==> same_row(new[i].k, kv[i].k, r) && same_row(
                    new[i].v,
                    kv[i].v,
                    r,
                )
            }
        }),
{
    let kv = s.kv->0;
    assert(kv[i].k.rows > s.kv_len && kv[i].v.rows > s.kv_len);
    one_row_written(kv[i].k, s.kv_len, rows[i].k.data, r);
    one_row_written(kv[i].v, s.kv_len, rows[i].v.data, r);
}

/// A step that fills the window closes it; one that does not leaves it open.
pub proof fn step_closes_full_window(
    s: WindowState,
    token: u32,
    rows: Seq<LayerGrid>,
    read_back: Seq<LayerGrid>,
)
    requires
        s.wf(),
        s.has_handle,
    ensures
        ({
            let end = s.stepped_and_closed(token, rows, read_back);
            let n = s.archive.len() as int;
            &&& s.tokens.len() + 1 >= s.window_size ==> {
                &&& end.archive.len() == n + 1
                &&& end.archive[n].0 == s.tokens.push(token)
                &&& end.checkpoints[n].1 == s.abs_offset + s.tokens.len()
                &&& end.tokens.len() == 0
                &&& s.kv is None ==> end.checkpoints[n].0 == read_back
            }
            &&& s.tokens.len() + 1 < s.window_size ==> end.archive == s.archive && end.tokens
                == s.tokens.push(token)
        }),
{
}

/// The rows that a prefill on the backend keeps: those of the tokens left in
/// the current window, and zeros behind them up to the window's size.
proof fn kept_rows(g: Grid, start: nat, n: nat, cap: nat, r: int, c: int)
    requires
        g.wf(),
        g.rows == n,
        start <= n,
        n - start <= cap,
        0 <= r < cap,
        0 <= c < g.cols,
    ensures
        ({
            let h = g.row_range(start, n).padded_to(cap);
            &&& h.rows == cap && h.cols == g.cols
            &&& r < n - start ==> h.at(r, c) == g.at(start + r, c)
            &&& r >= n - start ==> h.at(r, c) == 0
        }),
{
    let part = g.row_range(start, n);
    let h = part.padded_to(cap);
    let w = g.cols as int;
    let len = (n - start) * w;
    assert(0 <= start * w <= n * w) by (nonlinear_arith)
        requires
            0 <= start <= n,
            w >= 0,
    ;
    assert(part.data.len() == len && start * w + len == n * w) by (nonlinear_arith)
        requires
            part.data.len() == n * w - start * w,
            len == (n - start) * w,
    ;
    assert(cap * w - len == (cap - (n - start)) * w) by (nonlinear_arith)
        requires
            len == (n - start) * w,
    ;
    assert(0 <= r * w + c < cap * w) by (nonlinear_arith)
        requires
            0 <= r < cap,
            0 <= c < w,
    ;
    assert(start * w + (r * w + c) == (start + r) * w + c) by (nonlinear_arith);
    if r < n - start {
        assert(r * w + c < len) by (nonlinear_arith)
            requires
                r + 1 <= n - start,
                0 <= c < w,
                len == (n - start) * w,
        ;
    } else {
        assert(r * w + c >= len) by (nonlinear_arith)
            requires
                r >= n - start,
                0 <= c,
                0 <= w,
                len == (n - start) * w,
        ;
    }
}

/// A prefill that fills no window keeps the prompt's keys and values row for
/// row, with room for the whole window behind them, or none at all.
pub proof fn short_prefill_keeps_rows(
    s: WindowState,
    prompt: Seq<u32>,
    kv: Seq<LayerGrid>,
    drop_copy: bool,
    i: int,
    r: int,
    c: int,
)
    requires
        prompt.len() < s.window_size,
        prompt_layers(kv, prompt.len(), s.window_size),
        0 <= i < kv.len(),
        0 <= r < s.window_size,
        0 <= c < kv[i].k.cols,
        c < kv[i].v.cols,
    ensures
        ({
            let end = s.prefilled(prompt, kv, drop_copy);
            &&& end.tokens == prompt
            &&& end.kv_len == prompt.len()
            &&& end.has_handle
            &&& end.archive == s.archive
            &&& drop_copy ==> end.kv is None
            &&& !drop_copy ==> (end.kv matches Some(new) && new.len() == kv.len() && new[i].k.rows
                == s.window_size && new[i].v.rows == s.window_size && (if r < prompt.len() {
                new[i].k.at(r, c) == kv[i].k.at(r, c) && new[i].v.at(r, c) == kv[i].v.at(r, c)
            } else {
                new[i].k.at(r, c) == 0 && new[i].v.at(r, c) == 0
            }))
        }),
{
    let w = s.window_size;
    let n = prompt.len();
    assert(n / w == 0) by (nonlinear_arith)
        requires
            n < w,
    ;
    assert(0 * w == 0) by (nonlinear_arith);
    assert(prompt.skip(0) =~= prompt);
    assert(greater(w, n) == w);
    kept_rows(kv[i].k, 0, n, w, r, c);
    kept_rows(kv[i].v, 0, n, w, r, c);
}

/// The checkpoint of each window that a prompt fills is that of the window's
/// last position.
pub proof fn prefill_checkpoints(
    s: WindowState,
    prompt: Seq<u32>,
    kv: Seq<LayerGrid>,
    j: nat,
)
    requires
        s.wf(),
        s.window_size > 0,
        0 < j,
        j * s.window_size <= prompt.len(),
        has_rows(kv, prompt.len()),
    ensures
        ({
            let c = s.prompt_closed(prompt, kv, j);
            let last = c.checkpoints[c.checkpoints.len() - 1];
            &&& c.checkpoints.len() == s.checkpoints.len() + j
            &&& last.1 == s.abs_offset + j * s.window_size - 1
            &&& checkpoint_is_row(last.0, kv, j * s.window_size - 1)
            &&& c.abs_offset == s.abs_offset + j * s.window_size
            &&& c.archive[c.archive.len() - 1].1 == s.abs_offset + (j - 1) * s.window_size
            &&& c.archive[c.archive.len() - 1].0 == prompt.subrange(
                (j - 1) * s.window_size,
                (j * s.window_size) as int,
            )
        }),
    decreases j,
{
    let w = s.window_size;
    let n = (j * w) as nat;
    assert(0 < n && (j - 1) * w + w == j * w && 0 <= (j - 1) * w) by (nonlinear_arith)
        requires
            j > 0,
            w > 0,
            n == j * w,
    ;
    let before = s.prompt_closed(prompt, kv, (j - 1) as nat);
    if j > 1 {
        prefill_checkpoints(s, prompt, kv, (j - 1) as nat);
    } else {
        assert((j - 1) * w == 0) by (nonlinear_arith)
            requires
                j == 1,
        ;
    }
    assert(has_rows(kv, n));
    last_rows_are(kv, n);
}

/// A prefill sets the position behind the prompt; a step moves it by one; a
/// step that fails, or comes before any prefill, leaves it.
pub proof fn standard_position(
    s: CacheState,
    n: nat,
    h: Seq<CacheHandle>,
    asynchronous: bool,
)
    ensures
        n > 0 ==> (s.prefill(n, Some(h), asynchronous) matches Ok(t) && t.position == n && t.handles
            == Some(h) && t.window_size == s.window_size),
        s.prefill(0, Some(h), asynchronous) is Err,
        s.prefill(n, None, asynchronous) is Err,
        s.prefill_rows(n, Some(h)) matches Ok(t) && t.position == n && t.handles == Some(h)
            && t.window_size == s.window_size,
        s.handles is Some ==> {
            let (t, fault) = s.decode(h, true, asynchronous);
            t.position == s.position + 1 && t.handles == Some(h) && fault is None && t.window_size
                == s.window_size
        },
        s.handles is Some ==> {
            let (t, fault) = s.decode(h, false, asynchronous);
            t.position == s.position && t.handles == Some(h) && fault is Some
        },
        s.handles is None ==> {
            let (t, fault) = s.decode(h, true, asynchronous);
            t == s && fault is Some
        },
{
}

/// The cache of the engine takes four bytes for each number of the keys and
/// four for each of the values: a part with `n` rows of width `d` takes
/// `4 * n * d` of each.
pub proof fn standard_memory(e: &StandardEngine, one: CacheHandle, r: Option<usize>)
    requires
        e@.handles == Some(seq![one]),
        call_ensures(StandardEngine::memory_bytes, (e,), r),
    ensures
        r matches Some(n) ==> n == 4 * (one.cached_len * one.kv_dim) + 4 * (one.cached_len
            * one.kv_dim),
        8 * (one.cached_len * one.kv_dim) <= usize::MAX ==> r is Some,
{
    let h = seq![one];
    assert(h.drop_last() =~= Seq::empty());
    assert(cached_numbers(h.drop_last()) == 0);
}

/// Each part of a cache counts by itself.
pub proof fn cache_parts_add(h: Seq<CacheHandle>, one: CacheHandle)
    ensures
        cached_numbers(h.push(one)) == cached_numbers(h)
            + one.cached_len * one.kv_dim,
        cached_numbers(Seq::empty()) == 0,
{
    assert(h.push(one).drop_last() =~= h);
}

/// The token of an event.
pub open spec fn token_of(e: Option<(u32, Seq<char>)>) -> u32 {
    match e {
        Some((id, _)) => id,
        None => 0,
    }
}

/// The event has a token whose text does not end the generation.
pub open spec fn goes_on(e: Option<(u32, Seq<char>)>) -> bool {
    e matches Some((_, text)) && !is_stop(text)
}

/// A generation gives the tokens of the events in their order.  If the first
/// `k` events have tokens that do not end it: it gives these, no more than it
/// may; the next one too, if that ends it; and nothing more if that has none.
pub proof fn generation_gives(
    events: Seq<Option<(u32, Seq<char>)>>,
    max: nat,
    prompt_len: nat,
    k: nat,
)
    requires
        max > 0,
        prompt_len > 0,
        k <= events.len(),
        k <= max,
        forall|i: int| 0 <= i < k ==> goes_on(#[trigger] events[i]),
    ensures
        ({
            let ids = Seq::new(k, |i: int| token_of(events[i]));
            let end = started(max, prompt_len).after_all(events).generated;
            &&& k == max || k == events.len() ==> end == ids
            &&& k < max && k < events.len() && events[k as int] is None ==> end == ids
            &&& k < max && k < events.len() && events[k as int] is Some && !goes_on(
                events[k as int],
            ) ==> end == ids.push(token_of(events[k as int]))
        }),
{
    let s = started(max, prompt_len);
    generation_is_stream(s, events);
    assert(s.generated + stream(events, max) =~= stream(events, max));
    stream_gives(events, max, k);
}

/// The stream gives the tokens of the events in their order.
proof fn stream_gives(events: Seq<Option<(u32, Seq<char>)>>, max: nat, k: nat)
    requires
        k <= events.len(),
        k <= max,
        forall|i: int| 0 <= i < k ==> goes_on(#[trigger] events[i]),
    ensures
        ({
            let ids = Seq::new(k, |i: int| token_of(events[i]));
            let end = stream(events, max);
            &&& k == max || k == events.len() ==> end == ids
            &&& k < max && k < events.len() && events[k as int] is None ==> end == ids
            &&& k < max && k < events.len() && events[k as int] is Some && !goes_on(
                events[k as int],
            ) ==> end == ids.push(token_of(events[k as int]))
        }),
    decreases k,
{
    let ids = Seq::new(k, |i: int| token_of(events[i]));
    if k == 0 {
        assert(ids =~= Seq::empty());
        if max > 0 && events.len() > 0 && events[0] is Some && !goes_on(events[0]) {
            assert(stream(events, max) =~= ids.push(token_of(events[0])));
        } else if max == 0 || events.len() == 0 || events[0] is None {
            assert(stream(events, max) =~= ids);
        }
    } else {
        assert(goes_on(events[0]));
        let rest = events.skip(1);
        assert forall|i: int| 0 <= i < k - 1 implies goes_on(#[trigger] rest[i]) by {
            assert(rest[i] == events[i + 1]);
        }
        stream_gives(rest, (max - 1) as nat, (k - 1) as nat);
        let rest_ids = Seq::new((k - 1) as nat, |i: int| token_of(rest[i]));
        assert(seq![token_of(events[0])] + rest_ids =~= ids);
        if k < events.len() {
            assert(rest[k - 1] == events[k as int]);
            assert(seq![token_of(events[0])] + rest_ids.push(token_of(events[k as int])) =~= ids.push(
                token_of(events[k as int]),
            ));
        }
    }
}

/// What is asked of an engine: first to go over the prompt, then, after each
/// token that does not end the generation, to go one step on with that token;
/// nothing once as many tokens are there as may be.
pub proof fn generation_asks(s: GenState, max: nat, prompt_len: nat, id: u32, text: Seq<char>)
    requires
        s.wf(),
    ensures
        started(max, prompt_len).action() == (if max > 0 && prompt_len > 0 {
            Action::Prefill
        } else {
            Action::Stop
        }),
        s.running && s.left > 1 && !is_stop(text) ==> s.after(
            Some((id, text)),
        ).action() == Action::Decode(id),
        s.running && s.left == 1 ==> s.after(Some((id, text))).action() == Action::Stop,
        s.running && is_stop(text) ==> s.after(Some((id, text))).action()
            == Action::Stop,
        s.after(None).action() == Action::Stop,
{
}

/// The texts that end a generation.
pub proof fn stop_texts()
    ensures
        is_stop("<eos>"@),
        is_stop("</s>"@),
        is_stop("<|endoftext|>"@),
        is_stop("<|im_end|>"@),
        is_stop("<|end_of_turn|>"@),
        is_stop("<end_of_turn>"@),
        is_stop("<|end_of_text|>"@),
        is_stop("<|eom_id|>"@),
        is_stop("<|eot_id|>"@),
        forall|s: Seq<char>| #[trigger]
            is_stop(s) ==> seq![
                "<eos>"@,
                "</s>"@,
                "<|endoftext|>"@,
                "<|im_end|>"@,
                "<|end_of_turn|>"@,
                "<end_of_turn>"@,
                "<|end_of_text|>"@,
                "<|eom_id|>"@,
                "<|eot_id|>"@,
            ].contains(s),
{
    let all = seq![
        "<eos>"@,
        "</s>"@,
        "<|endoftext|>"@,
        "<|im_end|>"@,
        "<|end_of_turn|>"@,
        "<end_of_turn>"@,
        "<|end_of_text|>"@,
        "<|eom_id|>"@,
        "<|eot_id|>"@,
    ];
    assert(all[0] == "<eos>"@ && all[1] == "</s>"@ && all[2] == "<|endoftext|>"@);
    assert(all[3] == "<|im_end|>"@ && all[4] == "<|end_of_turn|>"@ && all[5] == "<end_of_turn>"@);
    assert(all[6] == "<|end_of_text|>"@ && all[7] == "<|eom_id|>"@ && all[8] == "<|eot_id|>"@);
    reveal_strlit("<eos>");
    reveal_strlit("</s>");
    reveal_strlit("<|endoftext|>");
    reveal_strlit("<|im_end|>");
    reveal_strlit("<|end_of_turn|>");
    reveal_strlit("<end_of_turn>");
    reveal_strlit("<|end_of_text|>");
    reveal_strlit("<|eom_id|>");
    reveal_strlit("<|eot_id|>");
}

/// The run with number `n` of a walk goes through layer `n % layers` with token
/// `n / layers` of the chunk, at that token's own position.
pub proof fn walk_position(w: &ChunkWalk, r: WalkStep)
    requires
        w.wf(),
        w.num_layers > 0,
        !w.failed,
        w.token < w.chunk_len,
        call_ensures(ChunkWalk::next_step, (w,), r),
    ensures
        r matches WalkStep::Run { token, layer, abs_position } && token == w.runs()
            / w.num_layers as int && layer == w.runs() % w.num_layers as int && abs_position
            == w.abs_start + w.runs() / w.num_layers as int,
{
    crate::kv::executor_walk::runs_in_order(*w);
}

/// On quantised weights the one cache of the whole model is taken where there is
/// one; a step on it counts only if it was made and there is such a cache.
pub proof fn coarse_cache_first(
    s: CacheState,
    n: nat,
    one: CacheHandle,
    many: Seq<CacheHandle>,
    asynchronous: bool,
)
    requires
        n > 0,
    ensures
        s.prefill_quant(n, Some(one), Some(many), asynchronous) matches Ok(t) && t.handles == Some(
            seq![one],
        ) && t.position == n,
        s.prefill_quant(n, Some(one), None, asynchronous) is Ok,
        s.prefill_quant(n, None, Some(many), asynchronous) matches Ok(t) && t.handles == Some(many)
            && t.position == n,
        s.prefill_quant(n, None, None, asynchronous) is Err,
        s.handles matches Some(h) && h.len() == 1 ==> s.decode_quant(
            (one, true),
            many,
            false,
            asynchronous,
        ) == s.decode(seq![one], true, asynchronous),
        s.decode_quant((one, false), many, true, asynchronous) == s.decode(
            many,
            true,
            asynchronous,
        ),
        s.handles matches Some(h) && h.len() != 1 ==> s.decode_quant(
            (one, true),
            many,
            true,
            asynchronous,
        ).0.handles == Some(many),
{
}

/// What the engine says of itself: its settings and the rows of its cache.
pub proof fn standard_says(
    e: &StandardEngine,
    config: String,
    rows: usize,
    one: CacheHandle,
    rest: Seq<CacheHandle>,
)
    requires
        call_ensures(StandardEngine::config, (e,), config),
        call_ensures(StandardEngine::window_tokens, (e,), rows),
    ensures
        e@.window_size is None ==> config@ == "window=full"@,
        e@.window_size matches Some(w) ==> config@ == "window="@ + decimal(w as nat),
        e@.handles is None ==> rows == 0,
        e@.handles == Some(seq![one] + rest) ==> rows == one.cached_len,
{
}

/// The unlimited engine's settings, and where its next token stands: behind all
/// that were fed in.
pub proof fn unlimited_says(
    e: &UnlimitedContextEngine,
    config: String,
    position: usize,
    state_only: bool,
    may_drop: bool,
)
    requires
        e@.wf(),
        call_ensures(UnlimitedContextEngine::config, (e,), config),
        call_ensures(UnlimitedContextEngine::step_position, (e,), position),
        call_ensures(UnlimitedContextEngine::wants_state_only, (e, may_drop), state_only),
    ensures
        config@ == "window="@ + decimal(e@.window_size),
        position == e@.fed().len(),
        state_only ==> may_drop,
        may_drop ==> (state_only <==> e@.kv is None),
{
    tokens_counted(e@.archive);
}

/// What an engine says of itself carries the memory and the backend that it is
/// handed, and its own name.
pub proof fn engines_introduce_themselves(
    s: &StandardEngine,
    u: &UnlimitedContextEngine,
    mem: &str,
    backend: &str,
    a: EngineInfo,
    b: EngineInfo,
)
    requires
        u@.wf(),
        call_ensures(StandardEngine::info, (s, mem, backend), a),
        call_ensures(UnlimitedContextEngine::info, (u, mem, backend), b),
    ensures
        a@.name == "standard"@ && a@.backend == backend@ && has_suffix(
            a@.description,
            "(mem="@ + mem@ + "MB)"@,
        ),
        b@.name == "unlimited-context"@ && b@.backend == backend@ && has_suffix(
            b@.description,
            "(windows="@ + decimal(u@.archive.len()) + ", tokens="@ + decimal(u@.fed().len())
                + ", mem="@ + mem@ + "MB)"@,
        ),
{
    tokens_counted(u@.archive);
    reveal_strlit("(mem=");
    reveal_strlit("(windows=");
    reveal_strlit("production K/V tensor cache \u{2014} full FP32 K/V per layer (mem=");
    reveal_strlit("window-boundary KV checkpoints + token replay (windows=");
    let x = "production K/V tensor cache \u{2014} full FP32 K/V per layer (mem="@;
    let t = a@.description;
    let end = "(mem="@ + mem@ + "MB)"@;
    assert(x.subrange(x.len() - 5, x.len() as int) =~= "(mem="@);
    assert forall|i: int| 0 <= i < 5 implies x[x.len() - 5 + i] == #[trigger] "(mem="@[i] by {
        assert(x.subrange(x.len() - 5, x.len() as int)[i] == x[x.len() - 5 + i]);
    }
    assert(t.subrange(t.len() - end.len(), t.len() as int) =~= end);
    let y = "window-boundary KV checkpoints + token replay (windows="@;
    let t = b@.description;
    let end = "(windows="@ + decimal(u@.archive.len()) + ", tokens="@ + decimal(u@.fed().len())
        + ", mem="@ + mem@ + "MB)"@;
    assert(y.subrange(y.len() - 9, y.len() as int) =~= "(windows="@);
    assert forall|i: int| 0 <= i < 9 implies y[y.len() - 9 + i] == #[trigger] "(windows="@[i] by {
        assert(y.subrange(y.len() - 9, y.len() as int)[i] == y[y.len() - 9 + i]);
    }
    assert(t.subrange(t.len() - end.len(), t.len() as int) =~= end);
}

/// A step on the backend is taken up only after a prefill there and with every
/// layer; a step that lacks one ends the use of the backend's keys and values
/// and changes nothing else.
pub proof fn dispatched_steps(
    s: WindowState,
    token: u32,
    p: DispatchStep,
    read_back: Seq<LayerGrid>,
)
    ensures
        s.after_dispatch(token, None, read_back) == (s, false),
        !s.has_handle ==> s.after_dispatch(token, Some(p), read_back) == (s, false),
        s.has_handle && p.complete ==> s.after_dispatch(token, Some(p), read_back).1,
        s.has_handle && !p.complete ==> {
            let (t, taken) = s.after_dispatch(token, Some(p), read_back);
            &&& !taken && !t.has_handle
            &&& t.tokens == s.tokens && t.kv == s.kv && t.kv_len == s.kv_len
            &&& t.archive == s.archive && t.checkpoints == s.checkpoints && t.abs_offset
                == s.abs_offset
        },
{
}

/// A prefill on the backend keeps what is left of the prompt behind the windows
/// that it fills: its tokens, and their keys and values row for row, with zeros
/// behind them up to the window's size.
pub proof fn prefill_keeps_last_rows(
    s: WindowState,
    prompt: Seq<u32>,
    kv: Seq<LayerGrid>,
    filled: nat,
    rest: nat,
    i: int,
    r: int,
    c: int,
)
    requires
        s.window_size > 0,
        rest < s.window_size,
        prompt.len() == filled * s.window_size + rest,
        prompt_layers(kv, prompt.len(), greater(s.window_size, prompt.len())),
        0 <= i < kv.len(),
        0 <= r < s.window_size,
        0 <= c < kv[i].k.cols,
        c < kv[i].v.cols,
    ensures
        ({
            let end = s.prefilled(prompt, kv, false);
            let start = filled * s.window_size;
            &&& end.tokens == prompt.skip(start as int)
            &&& end.kv_len == rest
            &&& end.kv matches Some(new) && new.len() == kv.len() && new[i].k.rows == s.window_size
                && new[i].v.rows == s.window_size && (if r < rest {
                new[i].k.at(r, c) == kv[i].k.at(start + r, c) && new[i].v.at(r, c) == kv[i].v.at(
                    start + r,
                    c,
                )
            } else {
                new[i].k.at(r, c) == 0 && new[i].v.at(r, c) == 0
            })
        }),
{
    let w = s.window_size;
    let n = prompt.len();
    vstd::arithmetic::div_mod::lemma_fundamental_div_mod_converse(
        n as int,
        w as int,
        filled as int,
        rest as int,
    );
    assert(s.windows_filled(n) == filled);
    let start = (filled * w) as nat;
    kept_rows(kv[i].k, start, n, w, r, c);
    kept_rows(kv[i].v, start, n, w, r, c);
}

/// A prefill on quantised weights that goes through the layers gives up the
/// backend's keys and values; any other keeps the state as it is.
pub proof fn quantised_prefill_leaves_backend(s: WindowState)
    ensures
        !prefill_start(s, Walk::Quant).has_handle,
        prefill_start(s, Walk::Quant).tokens == s.tokens && prefill_start(s, Walk::Quant).archive
            == s.archive && prefill_start(s, Walk::Quant).kv == s.kv,
        prefill_start(s, Walk::Backend) == s,
        prefill_start(s, Walk::Executor) == s,
{
}

/// An event adds a token exactly if the generation is longer behind it.
pub proof fn added_tokens_counted(s: GenState, event: Option<(u32, Seq<char>)>)
    ensures
        s.adds(event) <==> s.after(event).generated.len() == s.generated.len() + 1,
        !s.adds(event) ==> s.after(event).generated == s.generated,
{
}

/// A new engine has its window's size and no tokens.
pub proof fn new_engine_is_empty(window: usize, e: UnlimitedContextEngine)
    requires
        call_ensures(UnlimitedContextEngine::new, (window,), e),
    ensures
        e@.wf(),
        e@.window_size == window,
        e@.fed().len() == 0,
        e@.archive.len() == 0 && e@.checkpoints.len() == 0 && e@.kv is None && !e@.has_handle,
{
}

/// Flushing closes a window that has tokens and keeps all that were fed in; a
/// window without tokens stays.  A window whose last keys and values nobody
/// keeps stays open.
pub proof fn flushing_closes_window(s: WindowState, read_back: Seq<LayerGrid>)
    requires
        s.wf(),
    ensures
        s.flushed(read_back).fed() == s.fed(),
        s.tokens.len() == 0 ==> s.flushed(read_back) == s,
        s.tokens.len() > 0 && (s.kv is Some || s.kv_len == 0 || s.has_handle) ==> {
            let t = s.flushed(read_back);
            &&& t.tokens.len() == 0
            &&& t.archive.len() == s.archive.len() + 1
            &&& t.archive[s.archive.len() as int].0 == s.tokens
            &&& t.checkpoints[s.archive.len() as int].1 == s.abs_offset + s.tokens.len() - 1
        },
        s.tokens.len() > 0 && s.kv is None && s.kv_len > 0 && !s.has_handle ==> s.flushed(
            read_back,
        ) == s,
{
    let t = s.flushed(read_back);
    if t != s {
        assert(t.archive.drop_last() =~= s.archive);
        assert(t.archive.last().0 == s.tokens);
        assert(t.fed() =~= s.fed());
    }
}

/// What the engine tells of its windows: the number of the current one, its
/// tokens, and which row the backend is asked for to close it.
pub proof fn windows_told(
    e: &UnlimitedContextEngine,
    id: usize,
    tokens: usize,
    row: Option<usize>,
)
    requires
        e@.wf(),
        call_ensures(UnlimitedContextEngine::current_window_id, (e,), id),
        call_ensures(UnlimitedContextEngine::window_tokens, (e,), tokens),
        call_ensures(UnlimitedContextEngine::read_back_row, (e,), row),
    ensures
        id == e@.archive.len(),
        all_tokens(e@.archive).len() + tokens == e@.fed().len(),
        row matches Some(r) ==> r + 1 == e@.kv_len && e@.kv is None && e@.has_handle,
        row is None ==> e@.kv is Some || e@.kv_len == 0 || !e@.has_handle,
{
}

/// A closed window is found under its number, and has a checkpoint; no other
/// number has either.
pub proof fn closed_windows_found(
    a: &TokenArchive,
    c: &CheckpointStore,
    id: usize,
    window: Option<(&Vec<u32>, usize)>,
    has: bool,
)
    requires
        a@.len() == c@.len(),
        call_ensures(TokenArchive::retrieve, (a, id), window),
        call_ensures(CheckpointStore::contains, (c, id), has),
    ensures
        window is Some <==> id < a@.len(),
        has <==> window is Some,
        window matches Some((tokens, offset)) ==> tokens@ == a@[id as int].0 && offset
            == a@[id as int].1,
{
}

/// An extension that fails loses the keys and values that it started from, and
/// no token.
pub proof fn failure_keeps_tokens(s: WindowState)
    ensures
        s.broken().fed() == s.fed(),
        s.broken().archive == s.archive && s.broken().checkpoints == s.checkpoints,
        s.tokens.len() > 0 ==> s.broken().kv is None,
        s.tokens.len() == 0 ==> s.broken() == s,
{
}

/// The summary tells the closed windows first, then all tokens.
pub proof fn summary_tells_counts(s: &EngineStats, ratio: &str, r: String)
    requires
        call_ensures(EngineStats::summary, (s, ratio), r),
    ensures
        has_prefix(
            r@,
            decimal(s.archived_windows as nat) + " windows / "@ + decimal(s.total_tokens as nat)
                + " tokens"@,
        ),
{
    reveal_strlit(" tokens");
    reveal_strlit(" tokens \u{2014} ");
    let start = decimal(s.archived_windows as nat) + " windows / "@ + decimal(
        s.total_tokens as nat,
    ) + " tokens"@;
    assert(" tokens \u{2014} "@.take(7) =~= " tokens"@);
    assert forall|i: int| 0 <= i < 7 implies " tokens \u{2014} "@[i] == #[trigger] " tokens"@[i] by {
        assert(" tokens \u{2014} "@.take(7)[i] == " tokens \u{2014} "@[i]);
    }
    assert(r@.subrange(0, start.len() as int) =~= start);
}

/// A walk fails at once where it would start from the keys and values of
/// another number of layers; else it starts with the first layer for the first
/// token, at the position where the chunk starts.
pub proof fn walk_starts(
    prior: usize,
    layers: usize,
    chunk: usize,
    at: usize,
    w: ChunkWalk,
    first: WalkStep,
)
    requires
        at + chunk <= usize::MAX,
        call_ensures(ChunkWalk::start, (prior, layers, chunk, at), w),
        call_ensures(ChunkWalk::next_step, (&w,), first),
    ensures
        prior != layers ==> first == WalkStep::Failed,
        prior == layers && (layers == 0 || chunk == 0) ==> first == WalkStep::Done,
        prior == layers && layers > 0 && chunk > 0 ==> first == (WalkStep::Run {
            token: 0,
            layer: 0,
            abs_position: at,
        }),
{
}

/// A text stops a generation if it is one of the texts that do.
pub proof fn stop_told(s: &str, r: bool)
    requires
        call_ensures(is_stop_token_str, (s,), r),
    ensures
        s@ == "<eos>"@ || s@ == "</s>"@ || s@ == "<|endoftext|>"@ || s@ == "<|im_end|>"@ || s@
            == "<|end_of_turn|>"@ || s@ == "<end_of_turn>"@ || s@ == "<|end_of_text|>"@ || s@
            == "<|eom_id|>"@ || s@ == "<|eot_id|>"@ ==> r,
        r ==> seq![
            "<eos>"@,
            "</s>"@,
            "<|endoftext|>"@,
            "<|im_end|>"@,
            "<|end_of_turn|>"@,
            "<end_of_turn>"@,
            "<|end_of_text|>"@,
            "<|eom_id|>"@,
            "<|eot_id|>"@,
        ].contains(s@),
{
    stop_texts();
}

/// The checkpoints have four bytes for each number, and no count only where it
/// would not fit.
pub proof fn checkpoints_weigh(s: &CheckpointStore, r: Option<usize>)
    requires
        call_ensures(CheckpointStore::total_bytes, (s,), r),
    ensures
        s@.len() == 0 ==> r == Some(0usize),
        r matches Some(n) ==> n % 4 == 0 && n / 4 == checkpoint_numbers(s@),
        4 * checkpoint_numbers(s@) <= usize::MAX ==> r is Some,
{
}

} // verus!
