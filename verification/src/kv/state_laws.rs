//! What holds of the engines' changes of state.
use vstd::prelude::*;

use crate::kv::cache_run::{KvCache, LayerRun, RunStep};
use crate::kv::dispatch::DispatchStep;
use crate::kv::executor_walk::ChunkWalk;
use crate::kv::generation::{is_stop, Generation};
use crate::kv::laws::flushing_closes_window;
use crate::kv::standard::{CacheHandle, CacheStep, EngineError, EngineFault, StandardEngine};
use crate::kv::unlimited_context::{
    feeding_adds_tokens, layer_grids, LayerKv, UnlimitedContextEngine,
};
use crate::kv::unlimited_engine::Walk;

verus! {

/// A prefill sets the position behind the prompt and takes the backend's cache;
/// one that fails changes nothing.
pub proof fn prefill_sets_position(
    e: &mut StandardEngine,
    n: usize,
    outcome: Option<Vec<CacheHandle>>,
    asynchronous: bool,
    r: Result<(), EngineError>,
)
    requires
        call_ensures(StandardEngine::prefill, (e, n, outcome, asynchronous), r),
    ensures
        r is Ok <==> n > 0 && outcome is Some,
        r is Ok ==> final(e)@.position == n && final(e)@.handles == Some(outcome->0@),
        r is Err ==> final(e)@ == old(e)@,
        n == 0 ==> (r matches Err(x) && x@ == EngineFault::EmptyPrompt),
        n > 0 && outcome is None ==> (r matches Err(x) && x@ is BackendFailure),
        final(e)@.window_size == old(e)@.window_size,
{
}

/// A prefill over rows sets the position behind them; one that fails changes
/// nothing.
pub proof fn prefill_of_rows_sets_position(
    e: &mut StandardEngine,
    rows: usize,
    outcome: Option<Vec<CacheHandle>>,
    r: Result<(), EngineError>,
)
    requires
        call_ensures(StandardEngine::prefill_from_hidden, (e, rows, outcome), r),
    ensures
        r is Ok <==> outcome is Some,
        r is Ok ==> final(e)@.position == rows && final(e)@.handles == Some(outcome->0@),
        r is Err ==> final(e)@ == old(e)@,
{
}

/// A step moves the position by one and takes the cache as the backend left it;
/// one that fails keeps the position, and one before any prefill is not made.
pub proof fn step_moves_position(
    e: &mut StandardEngine,
    step: CacheStep,
    asynchronous: bool,
    r: Result<(), EngineError>,
)
    requires
        old(e)@.position < usize::MAX,
        call_ensures(StandardEngine::decode_step, (e, step, asynchronous), r),
    ensures
        r is Ok <==> old(e)@.handles is Some && step.ran,
        r is Ok ==> final(e)@.position == old(e)@.position + 1,
        r is Err ==> final(e)@.position == old(e)@.position,
        old(e)@.handles is Some ==> final(e)@.handles == Some(step.handles@),
        old(e)@.handles is None ==> final(e)@ == old(e)@ && (r matches Err(x) && x@
            is InvariantViolation),
{
}

/// On quantised weights the one cache of the whole model comes before those of
/// the layers.
pub proof fn quantised_prefill_takes_whole_cache(
    e: &mut StandardEngine,
    n: usize,
    coarse: Option<CacheHandle>,
    fallback: Option<Vec<CacheHandle>>,
    asynchronous: bool,
    r: Result<(), EngineError>,
)
    requires
        n > 0,
        call_ensures(StandardEngine::prefill_quant, (e, n, coarse, fallback, asynchronous), r),
    ensures
        r is Ok <==> coarse is Some || fallback is Some,
        r is Ok ==> final(e)@.position == n,
        coarse matches Some(h) ==> final(e)@.handles == Some(seq![h]),
        coarse is None && fallback is Some ==> final(e)@.handles == Some(fallback->0@),
        r is Err ==> final(e)@ == old(e)@,
{
}

/// A step on quantised weights is the one on the cache of the whole model, where
/// there is one and it was made, else the one layer by layer.
pub proof fn quantised_step_takes_whole_cache(
    e: &mut StandardEngine,
    coarse: (CacheHandle, bool),
    fallback: CacheStep,
    asynchronous: bool,
    r: Result<(), EngineError>,
)
    requires
        old(e)@.position < usize::MAX,
        call_ensures(StandardEngine::decode_step_quant, (e, coarse, fallback, asynchronous), r),
    ensures
        ({
            let whole = coarse.1 && (old(e)@.handles matches Some(h) && h.len() == 1);
            &&& whole ==> r is Ok && final(e)@.handles == Some(seq![coarse.0])
            &&& !whole && old(e)@.handles is Some ==> final(e)@.handles == Some(fallback.handles@)
                && (r is Ok <==> fallback.ran)
            &&& r is Ok ==> final(e)@.position == old(e)@.position + 1
            &&& r is Err ==> final(e)@.position == old(e)@.position
        }),
{
}

/// Closing a window keeps all tokens; it is closed unless nobody keeps its last
/// keys and values.
pub proof fn window_closed(e: &mut UnlimitedContextEngine, read_back: Vec<LayerKv>, closed: bool)
    requires
        old(e)@.wf(),
        old(e)@.tokens.len() > 0,
        call_ensures(UnlimitedContextEngine::close_window, (e, read_back), closed),
    ensures
        final(e)@.fed() == old(e)@.fed(),
        closed <==> old(e)@.kv is Some || old(e)@.kv_len == 0 || old(e)@.has_handle,
        closed ==> final(e)@.tokens.len() == 0 && final(e)@.archive.len() == old(e)@.archive.len()
            + 1 && final(e)@.archive.last().0 == old(e)@.tokens,
        !closed ==> final(e)@ == old(e)@,
{
    flushing_closes_window(old(e)@, layer_grids(read_back@));
}

/// Flushing leaves no tokens in the current window, and loses none.
pub proof fn window_flushed(e: &mut UnlimitedContextEngine, read_back: Vec<LayerKv>)
    requires
        old(e)@.wf(),
        call_ensures(UnlimitedContextEngine::flush, (e, read_back), ()),
    ensures
        final(e)@.fed() == old(e)@.fed(),
        old(e)@.kv is Some || old(e)@.kv_len == 0 || old(e)@.has_handle ==> final(e)@.tokens.len()
            == 0,
{
    flushing_closes_window(old(e)@, layer_grids(read_back@));
}

/// A failed extension loses no token and no closed window.
pub proof fn extension_fails(e: &mut UnlimitedContextEngine)
    requires
        old(e)@.wf(),
        call_ensures(UnlimitedContextEngine::extension_failed, (e,), ()),
    ensures
        final(e)@.fed() == old(e)@.fed(),
        final(e)@.archive == old(e)@.archive && final(e)@.checkpoints == old(e)@.checkpoints,
        old(e)@.tokens.len() > 0 ==> final(e)@.kv is None,
{
}

/// A step through the layers adds its token behind all others, or fails.
pub proof fn layered_step_adds_token(
    e: &mut UnlimitedContextEngine,
    walk: Walk,
    token: u32,
    result: Option<Vec<LayerKv>>,
    read_back: Vec<LayerKv>,
    r: Result<(), EngineError>,
)
    requires
        old(e)@.wf(),
        old(e)@.takes_tokens(),
        call_ensures(UnlimitedContextEngine::decode_step, (e, walk, token, result, read_back), r),
    ensures
        r is Ok ==> final(e)@.fed() == old(e)@.fed().push(token),
        r matches Err(x) ==> x@ is BackendFailure,
        final(e)@.wf(),
{
    if r is Ok {
        feeding_adds_tokens(
            old(e)@,
            seq![token],
            seq![crate::kv::unlimited_context::opt_layers(result)],
            layer_grids(read_back@),
        );
        assert(old(e)@.fed() + seq![token] =~= old(e)@.fed().push(token));
    }
}

/// A step on the backend is taken up exactly if the backend has keys and values
/// and gave every layer; it then adds its token.
pub proof fn dispatched_step_adds_token(
    e: &mut UnlimitedContextEngine,
    token: u32,
    may_drop: bool,
    outcome: Option<DispatchStep>,
    read_back: Vec<LayerKv>,
    taken: bool,
)
    requires
        old(e)@.wf(),
        call_ensures(
            UnlimitedContextEngine::decode_step_via_dispatch,
            (e, token, may_drop, outcome, read_back),
            taken,
        ),
    ensures
        taken <==> old(e)@.has_handle && (outcome matches Some(p) && p.complete),
        !taken ==> final(e)@.fed() == old(e)@.fed(),
        taken ==> final(e)@.fed() == old(e)@.fed().push(token),
        old(e)@.has_handle && (outcome matches Some(p) && !p.complete) ==> !final(e)@.has_handle,
        outcome is None ==> final(e)@ == old(e)@,
{
    if taken {
        let rows = layer_grids(outcome->0.rows@);
        let s = old(e)@.stepped(token, rows);
        assert(s.fed() =~= old(e)@.fed().push(token));
        if s.tokens.len() >= s.window_size {
            let t = s.after_close(layer_grids(read_back@));
            assert(t.archive.drop_last() =~= s.archive);
            assert(t.archive.last().0 == s.tokens);
            assert(t.fed() =~= s.fed());
        }
    }
}

/// A token that is sampled is added while the generation runs, and ends it if
/// its text does, or if no more may be added; none ends it, too.
pub proof fn sampling_adds_token(g: &mut Generation, id: u32, text: &str, added: bool)
    requires
        old(g)@.wf(),
        call_ensures(Generation::sampled, (g, Some((id, text))), added),
    ensures
        added == old(g)@.running,
        added ==> final(g)@.generated == old(g)@.generated.push(id),
        !added ==> final(g)@ == old(g)@,
        added ==> (final(g)@.running <==> !is_stop(text@) && old(g)@.left > 1),
{
}

/// What a layer's attention gave goes to that layer's place; behind the last
/// layer the next position moves; a failure changes nothing in the cache.
pub proof fn attention_fills_layer<E>(
    run: &mut LayerRun,
    cache: &mut KvCache<E>,
    entry: Option<E>,
    l: usize,
    other: int,
)
    requires
        old(run).wf(old(cache)@),
        old(run).step == RunStep::Layer(l),
        0 <= other < old(cache)@.layers.len(),
        call_ensures(LayerRun::attended::<E>, (run, cache, entry), ()),
    ensures
        entry is None ==> final(run).step == RunStep::Failed && final(cache)@ == old(cache)@,
        entry is Some ==> {
            let last = l + 1 == old(cache)@.layers.len();
            &&& final(cache)@.layers.len() == old(cache)@.layers.len()
            &&& final(cache)@.layers[l as int] == entry
            &&& other != l ==> final(cache)@.layers[other] == old(cache)@.layers[other]
            &&& last ==> final(run).step == RunStep::Done && final(cache)@.next_position == old(
                run,
            ).next_position
            &&& !last ==> final(run).step == RunStep::Layer((l + 1) as usize)
                && final(cache)@.next_position == old(cache)@.next_position
        },
{
}

/// Starting to go one token on does not touch what is kept.
pub proof fn step_starts<E>(cache: &mut KvCache<E>, run: LayerRun)
    requires
        old(cache).next_position < usize::MAX,
        call_ensures(LayerRun::kv_decode_step_run::<E>, (cache,), run),
    ensures
        run.next_position == old(cache).next_position + 1,
        final(cache)@.layers == old(cache)@.layers,
        old(cache)@.layers.len() > 0 ==> run.step == RunStep::Layer(0)
            && final(cache).next_position == old(cache).next_position,
        old(cache)@.layers.len() == 0 ==> run.step == RunStep::Done && final(cache).next_position
            == old(cache).next_position + 1,
{
}

/// A layer that was run is followed by the next one for the same token, or by
/// the first one for the next token.
pub proof fn walk_goes_on(w: &mut ChunkWalk, ok: bool)
    requires
        old(w).wf(),
        !old(w).failed,
        old(w).token < old(w).chunk_len,
        call_ensures(ChunkWalk::ran, (w, ok), ()),
    ensures
        final(w).failed == !ok,
        final(w).chunk_len == old(w).chunk_len && final(w).abs_start == old(w).abs_start,
        ok && old(w).layer + 1 < old(w).num_layers ==> final(w).layer == old(w).layer + 1
            && final(w).token == old(w).token,
        ok && old(w).layer + 1 == old(w).num_layers ==> final(w).layer == 0 && final(w).token
            == old(w).token + 1,
{
    if ok {
        crate::kv::executor_walk::runs_in_order(*final(w));
        crate::kv::executor_walk::runs_in_order(*old(w));
        let (t, l, n) = (old(w).token as int, old(w).layer as int, old(w).num_layers as int);
        if l + 1 == n {
            assert(t * n + l + 1 == (t + 1) * n + 0) by (nonlinear_arith)
                requires
                    l + 1 == n,
            ;
            vstd::arithmetic::div_mod::lemma_fundamental_div_mod_converse(
                old(w).runs() + 1,
                n,
                t + 1,
                0,
            );
        } else {
            vstd::arithmetic::div_mod::lemma_fundamental_div_mod_converse(
                old(w).runs() + 1,
                n,
                t,
                l + 1,
            );
        }
    }
}

} // verus!
