use larql::kv::cache_run::{LayerRun, RunStep};
use larql::kv::dispatch::{DispatchPrefill, DispatchStep};
use larql::kv::executor_walk::{ChunkWalk, WalkStep};
use larql::kv::generation::{is_stop_token_str, masked_argmax, Action, Generation};
use larql::kv::standard::{CacheHandle, CacheStep, EngineError, StandardEngine};
use larql::kv::unlimited_context::{LayerKv, Prior, UnlimitedContextEngine};
use larql::kv::unlimited_engine::{PrefillDispatch, Walk};
use larql::tensor::Matrix;

const NUM_LAYERS: usize = 2;
const KV_DIM: usize = 16;

/// Keys and values of `rows` positions for every layer; the numbers tell the
/// layer, the row and the column.
fn layers(rows: usize) -> Vec<LayerKv> {
    (0..NUM_LAYERS)
        .map(|l| LayerKv { k: grid(l, rows, 1.0), v: grid(l, rows, -1.0) })
        .collect()
}

fn grid(layer: usize, rows: usize, sign: f32) -> Matrix {
    let data = (0..rows * KV_DIM)
        .map(|i| (sign * (layer * 1000 + i + 1) as f32).to_bits())
        .collect();
    Matrix::from_shape_vec(rows, KV_DIM, data).unwrap()
}

/// Feeds tokens in, with an extension that works as often as it is needed.
fn process(engine: &mut UnlimitedContextEngine, tokens: &[u32]) -> bool {
    let results = (0..tokens.len()).map(|i| Some(layers(i + 1))).collect();
    engine.process(tokens, results, Vec::new())
}

fn prefill(
    engine: &mut UnlimitedContextEngine,
    walk: Walk,
    tokens: &[u32],
) -> Result<(), EngineError> {
    let results = (0..tokens.len().max(1)).map(|_| Some(layers(tokens.len()))).collect();
    engine.prefill(walk, tokens, results, Vec::new())
}

fn handles(cached_len: usize) -> Vec<CacheHandle> {
    vec![CacheHandle { cached_len, kv_dim: KV_DIM }; NUM_LAYERS]
}

fn step(cached_len: usize) -> CacheStep {
    CacheStep { handles: handles(cached_len), ran: true }
}

/// A backend without a cache for the whole model.
fn no_coarse() -> (CacheHandle, bool) {
    (CacheHandle { cached_len: 0, kv_dim: 0 }, false)
}

// ── The engine that keeps a context window by window ─────────────────────

#[test]
fn new_engine_is_empty() {
    let eng = UnlimitedContextEngine::new(512);
    assert_eq!(eng.window_size, 512);
    assert_eq!(eng.archive.len(), 0);
    assert_eq!(eng.checkpoints.len(), 0);
    assert_eq!(eng.current_window_id(), 0);
    assert_eq!(eng.memory_bytes(), Some(0));
}

#[test]
fn engine_info_names_the_engine_and_its_window() {
    let eng = UnlimitedContextEngine::new(256);
    let info = eng.info("0.0", "cpu (BLAS)");
    assert_eq!(info.name, "unlimited-context");
    assert_eq!(info.config, "window=256");
    assert_eq!(
        info.description,
        "window-boundary KV checkpoints + token replay (windows=0, tokens=0, mem=0.0MB)"
    );
}

#[test]
fn engine_info_config_contains_window_size() {
    let eng = UnlimitedContextEngine::new(1024);
    assert!(eng.info("0.0", "cpu").config.contains("1024"));
}

#[test]
fn window_tokens_and_cold_bytes_start_zero() {
    let eng = UnlimitedContextEngine::new(512);
    assert_eq!(eng.window_tokens(), 0);
    assert_eq!(eng.cold_bytes(), Some(0));
}

#[test]
fn window_auto_closes_when_full() {
    let window_size = 3usize;
    let mut engine = UnlimitedContextEngine::new(window_size);
    for tok in 0..window_size as u32 {
        assert!(process(&mut engine, &[tok]));
    }
    assert_eq!(engine.archive.len(), 1, "one window should be archived");
    assert_eq!(engine.current_window_tokens.len(), 0, "current window should be empty");
    assert_eq!(engine.checkpoints.len(), 1, "one checkpoint should be saved");
}

#[test]
fn two_full_windows_archives_two() {
    let mut engine = UnlimitedContextEngine::new(2);
    for tok in 0u32..4 {
        assert!(process(&mut engine, &[tok]));
    }
    assert_eq!(engine.archive.len(), 2);
    assert_eq!(engine.checkpoints.len(), 2);
}

#[test]
fn partial_window_after_process() {
    let mut engine = UnlimitedContextEngine::new(4);
    assert!(process(&mut engine, &[0u32, 1, 2]));
    assert_eq!(engine.archive.len(), 0, "no window closed yet");
    assert_eq!(engine.window_tokens(), 3);
}

#[test]
fn flush_closes_partial_window() {
    let mut engine = UnlimitedContextEngine::new(4);
    assert!(process(&mut engine, &[0u32, 1]));
    assert_eq!(engine.archive.len(), 0);
    engine.flush(Vec::new());
    assert_eq!(engine.archive.len(), 1, "flush should close partial window");
}

#[test]
fn flush_of_an_empty_window_does_nothing() {
    let mut engine = UnlimitedContextEngine::new(4);
    engine.flush(Vec::new());
    assert_eq!(engine.archive.len(), 0);
    assert_eq!(engine.checkpoints.len(), 0);
}

#[test]
fn cold_bytes_grow_after_window_close() {
    let mut engine = UnlimitedContextEngine::new(2);
    assert_eq!(engine.cold_bytes(), Some(0));
    assert!(process(&mut engine, &[0u32, 1]));
    assert!(engine.cold_bytes().unwrap() > 0, "cold tier should grow after window close");
    // One row of keys and of values for each layer, and two token ids.
    assert_eq!(engine.cold_bytes(), Some(NUM_LAYERS * 2 * KV_DIM * 4 + 2 * 4));
}

#[test]
fn memory_bytes_nonzero_after_prefill() {
    let mut engine = UnlimitedContextEngine::new(512);
    assert_eq!(engine.memory_bytes(), Some(0));
    prefill(&mut engine, Walk::Backend, &[0u32, 1, 2]).expect("prefill");
    assert!(engine.memory_bytes().unwrap() > 0);
}

/// A backend that cannot prefill.
fn no_dispatch() -> PrefillDispatch {
    PrefillDispatch { supported: false, outcome: None, drop_copy: true }
}

#[test]
fn prefill_quant_cpu_runs_via_dequant_path() {
    let mut engine = UnlimitedContextEngine::new(512);
    engine
        .prefill_quant(&[0u32, 1, 2], no_dispatch(), vec![Some(layers(3))], Vec::new())
        .expect("prefill_quant");
    assert_eq!(engine.window_tokens(), 3);
    assert!(!engine.has_handle);
}

#[test]
fn decode_step_quant_cpu_extends_state() {
    let mut engine = UnlimitedContextEngine::new(512);
    engine
        .prefill_quant(&[0u32, 1], no_dispatch(), vec![Some(layers(2))], Vec::new())
        .expect("prefill_quant");
    engine
        .decode_step_quant(2, true, None, Some(layers(3)), Vec::new())
        .expect("decode_step_quant");
    assert_eq!(engine.current_window_tokens, vec![0, 1, 2]);
}

#[test]
fn engine_decode_step_quant_without_prefill_returns_none() {
    let mut engine = UnlimitedContextEngine::new(512);
    let _ = engine.decode_step_quant(0, true, None, None, Vec::new());
    assert_eq!(engine.window_tokens(), 0);
}

#[test]
fn quant_steps_stay_on_the_backend() {
    let mut engine = UnlimitedContextEngine::new(8);
    let dispatch =
        PrefillDispatch { supported: true, outcome: dispatch_prefill(2), drop_copy: true };
    engine.prefill_quant(&[0u32, 1], dispatch, Vec::new(), Vec::new()).expect("prefill");
    assert!(engine.has_handle);
    engine.decode_step_quant(2, true, dispatch_step(), None, Vec::new()).expect("step");
    assert_eq!(engine.current_window_tokens, vec![0, 1, 2]);
    match engine.decode_step_quant(3, true, None, None, Vec::new()) {
        Err(EngineError::BackendFailure { details }) => {
            assert_eq!(details, "decode_step_via_dispatch returned None")
        }
        other => panic!("{other:?}"),
    }
    assert_eq!(engine.window_tokens(), 3);
}

#[test]
fn empty_prompt_is_refused() {
    let mut engine = UnlimitedContextEngine::new(512);
    assert!(matches!(
        prefill(&mut engine, Walk::Backend, &[]),
        Err(EngineError::EmptyPrompt)
    ));
}

#[test]
fn failed_extension_is_a_backend_failure() {
    let mut engine = UnlimitedContextEngine::new(2);
    let result = engine.prefill(Walk::Backend, &[7, 8, 9], vec![Some(layers(2)), None], Vec::new());
    assert!(matches!(result, Err(EngineError::BackendFailure { .. })));
    assert_eq!(engine.archive.len(), 1);
    assert_eq!(engine.archive.retrieve(0).unwrap().0, &vec![7, 8]);
}

#[test]
fn engine_stats_summary_includes_archived_and_compression() {
    let mut engine = UnlimitedContextEngine::new(512);
    prefill(&mut engine, Walk::Backend, &[0u32, 1, 2]).expect("prefill");
    let stats = engine.stats(NUM_LAYERS * 2 * KV_DIM).unwrap();
    assert!(stats.total_tokens >= 3);
    let s = stats.summary("1");
    assert!(s.contains("windows"));
    assert!(s.contains("tokens"));
}

#[test]
fn engine_stats_with_empty_engine_handles_zero_division() {
    let engine = UnlimitedContextEngine::new(512);
    let stats = engine.stats(NUM_LAYERS * 2 * KV_DIM).unwrap();
    assert_eq!(stats.total_tokens, 0);
    assert_eq!(stats.archived_windows, 0);
    assert_eq!(stats.total_boundary_bytes, 0);
    assert_eq!(stats.summary("0"), "0 windows / 0 tokens — 0× compression vs full KV");
}

#[test]
fn replay_window_returns_none_for_missing_window() {
    let engine = UnlimitedContextEngine::new(512);
    assert!(engine.replay_window(0).is_none());
    assert!(engine.replay_window(99).is_none());
}

#[test]
fn replay_window_succeeds_after_window_overflow() {
    let mut engine = UnlimitedContextEngine::new(2);
    prefill(&mut engine, Walk::Backend, &[0u32, 1, 2, 3]).expect("prefill 4 tokens");
    let stats = engine.stats(NUM_LAYERS * 2 * KV_DIM).unwrap();
    assert!(stats.archived_windows >= 1);
    let replay = engine.replay_window(0).expect("replay_window(0) should succeed");
    assert_eq!(replay.tokens, &vec![0, 1]);
    assert!(matches!(replay.prior, Prior::Empty));
    assert!(replay.abs_end < 4, "abs_end {} should be within the prefill", replay.abs_end);
    let second = engine.replay_window(1).expect("replay_window(1)");
    assert!(matches!(second.prior, Prior::Checkpoint(0)));
    assert_eq!((second.abs_offset, second.abs_end), (2, 3));
}

#[test]
fn prefill_quant_via_executor_runs_through_local_walk() {
    let mut engine = UnlimitedContextEngine::new(512);
    prefill(&mut engine, Walk::Executor, &[0u32, 1, 2]).expect("executor prefill");
    assert!(engine.memory_bytes().unwrap() > 0);
}

#[test]
fn decode_step_quant_via_executor_extends_state() {
    let mut engine = UnlimitedContextEngine::new(512);
    prefill(&mut engine, Walk::Executor, &[0u32, 1]).expect("prefill");
    engine.decode_step(Walk::Executor, 2, Some(layers(3)), Vec::new()).expect("decode");
    assert_eq!(engine.window_tokens(), 3);
}

#[test]
fn executor_path_honors_ffn_parameter() {
    let mut walk = ChunkWalk::start(NUM_LAYERS, NUM_LAYERS, 3, 10);
    let mut calls = Vec::new();
    while let WalkStep::Run { token, layer, abs_position } = walk.next_step() {
        assert_eq!(abs_position, 10 + token);
        calls.push((token, layer));
        walk.ran(true);
    }
    assert_eq!(walk.next_step(), WalkStep::Done);
    assert_eq!(calls.len(), 3 * NUM_LAYERS);
    assert_eq!(calls, vec![(0, 0), (0, 1), (1, 0), (1, 1), (2, 0), (2, 1)]);
}

#[test]
fn a_walk_fails_with_a_layer_or_without_layers_of_its_own() {
    let mut walk = ChunkWalk::start(2, 2, 3, 0);
    walk.ran(true);
    walk.ran(false);
    assert_eq!(walk.next_step(), WalkStep::Failed);
    assert_eq!(ChunkWalk::start(1, 2, 3, 0).next_step(), WalkStep::Failed);
    assert_eq!(ChunkWalk::start(0, 0, 3, 0).next_step(), WalkStep::Done);
}

#[test]
fn prefill_quant_via_executor_with_small_window_archives() {
    let mut engine = UnlimitedContextEngine::new(2);
    prefill(&mut engine, Walk::Executor, &[0u32, 1, 2, 3]).expect("prefill 4 tokens");
    let stats = engine.stats(NUM_LAYERS * 2 * KV_DIM).unwrap();
    assert!(stats.archived_windows >= 1);
}

#[test]
fn no_token_is_lost_over_many_windows() {
    let mut engine = UnlimitedContextEngine::new(3);
    let tokens: Vec<u32> = (100..111).collect();
    assert!(process(&mut engine, &tokens));
    let mut seen = Vec::new();
    for id in 0..engine.archive.len() {
        let (window, offset) = engine.archive.retrieve(id).unwrap();
        assert_eq!(offset, seen.len());
        seen.extend_from_slice(window);
    }
    seen.extend_from_slice(&engine.current_window_tokens);
    assert_eq!(seen, tokens);
    assert_eq!(engine.abs_offset, 9);
}

// ── The prefill and the steps that run on the backend ────────────────────

fn dispatch_prefill(rows: usize) -> Option<DispatchPrefill> {
    Some(DispatchPrefill { kv: layers(rows), complete: true })
}

fn dispatch_step() -> Option<DispatchStep> {
    Some(DispatchStep { rows: layers(1), complete: true })
}

#[test]
fn try_prefill_via_dispatch_returns_none_when_index_lacks_direct_matvec() {
    let mut engine = UnlimitedContextEngine::new(4);
    assert!(!engine.try_prefill_via_dispatch(false, dispatch_prefill(2), &[0u32, 1], true));
    assert!(!engine.has_handle);
    assert!(engine.current_window_kv.is_none());
}

#[test]
fn try_prefill_via_dispatch_drops_window_kv_under_w10_default() {
    let mut engine = UnlimitedContextEngine::new(4);
    assert!(engine.try_prefill_via_dispatch(true, dispatch_prefill(3), &[0u32, 1, 2], true));
    assert!(engine.current_window_kv.is_none());
    assert_eq!(engine.current_window_kv_len, 3);
    assert_eq!(engine.current_window_tokens, vec![0u32, 1, 2]);
    assert!(engine.has_handle);
}

#[test]
fn try_prefill_via_dispatch_populates_window_kv_with_w10_disabled() {
    let mut engine = UnlimitedContextEngine::new(8);
    assert!(engine.try_prefill_via_dispatch(true, dispatch_prefill(3), &[0u32, 1, 2], false));
    let kv = engine.current_window_kv.as_ref().expect("the copy is kept");
    assert_eq!(kv.len(), NUM_LAYERS);
    assert_eq!(kv[0].k.rows, 8);
    assert_eq!(engine.current_window_kv_len, 3);
}

#[test]
fn decode_step_via_dispatch_without_prefill_returns_none() {
    let mut engine = UnlimitedContextEngine::new(4);
    assert!(!engine.decode_step_via_dispatch(0, true, dispatch_step(), Vec::new()));
    assert_eq!(engine.window_tokens(), 0);
}

#[test]
fn decode_step_via_dispatch_h_only_skips_kv_append() {
    let mut engine = UnlimitedContextEngine::new(4);
    assert!(engine.try_prefill_via_dispatch(true, dispatch_prefill(2), &[0u32, 1], true));
    let kv_len_before = engine.current_window_kv_len;
    assert!(engine.wants_state_only(true));
    assert!(engine.decode_step_via_dispatch(2, true, dispatch_step(), Vec::new()));
    assert_eq!(engine.current_window_kv_len, kv_len_before + 1);
    assert_eq!(engine.current_window_tokens.last(), Some(&2u32));
    assert!(engine.current_window_kv.is_none());
}

#[test]
fn decode_step_via_dispatch_full_mask_appends_kv_with_w10_disabled() {
    let mut engine = UnlimitedContextEngine::new(8);
    assert!(engine.try_prefill_via_dispatch(true, dispatch_prefill(2), &[0u32, 1], false));
    let kv_len_before = engine.current_window_kv_len;
    assert!(!engine.wants_state_only(false));
    assert!(engine.decode_step_via_dispatch(2, false, dispatch_step(), Vec::new()));
    assert_eq!(engine.current_window_kv_len, kv_len_before + 1);
    for slot in engine.current_window_kv.as_ref().unwrap() {
        let any_non_zero =
            (0..KV_DIM).any(|c| f32::from_bits(slot.k.get(kv_len_before, c)) != 0.0);
        assert!(any_non_zero, "K row at position {kv_len_before} should be populated");
        let later_zero = (0..KV_DIM).all(|c| slot.k.get(kv_len_before + 1, c) == 0);
        assert!(later_zero);
    }
}

#[test]
fn decode_step_via_dispatch_fires_window_auto_close() {
    let mut engine = UnlimitedContextEngine::new(2);
    assert!(engine.try_prefill_via_dispatch(true, dispatch_prefill(1), &[0u32], true));
    let cp_before = engine.checkpoints.len();
    assert!(engine.decode_step_via_dispatch(1, true, dispatch_step(), layers(2)));
    assert!(engine.checkpoints.len() > cp_before, "window auto-close should emit a checkpoint");
}

#[test]
fn incomplete_dispatch_changes_nothing() {
    let mut engine = UnlimitedContextEngine::new(4);
    let partial = Some(DispatchPrefill { kv: layers(2), complete: false });
    assert!(!engine.try_prefill_via_dispatch(true, partial, &[0u32, 1], false));
    assert!(!engine.try_prefill_via_dispatch(true, None, &[0u32, 1], false));
    assert_eq!(engine.window_tokens(), 0);
}

#[test]
fn a_prompt_on_the_backend_closes_the_windows_that_it_fills() {
    for drop_copy in [true, false] {
        let mut engine = UnlimitedContextEngine::new(2);
        let prompt = [4u32, 5, 6, 7, 8];
        assert!(engine.try_prefill_via_dispatch(true, dispatch_prefill(5), &prompt, drop_copy));
        assert_eq!(engine.archive.len(), 2);
        assert_eq!(engine.archive.retrieve(0).unwrap(), (&vec![4, 5], 0));
        assert_eq!(engine.archive.retrieve(1).unwrap(), (&vec![6, 7], 2));
        let whole = layers(5);
        for (id, end) in [(0usize, 2usize), (1, 4)] {
            let saved = &engine.checkpoints.items[id];
            assert_eq!(saved.abs_end, end - 1);
            for (l, row) in saved.kv.iter().enumerate() {
                assert_eq!(row.k.data, whole[l].k.data[(end - 1) * KV_DIM..end * KV_DIM]);
                assert_eq!(row.v.data, whole[l].v.data[(end - 1) * KV_DIM..end * KV_DIM]);
            }
        }
        assert_eq!(engine.current_window_tokens, vec![8]);
        assert_eq!((engine.current_window_kv_len, engine.abs_offset), (1, 4));
        assert_eq!(engine.step_position(), 5);
        assert_eq!(engine.current_window_kv.is_none(), drop_copy);
        if let Some(kv) = &engine.current_window_kv {
            assert_eq!(kv[1].k.rows, 2);
            assert_eq!(kv[1].k.data[..KV_DIM], whole[1].k.data[4 * KV_DIM..]);
        }
        assert!(engine.decode_step_via_dispatch(9, drop_copy, dispatch_step(), layers(1)));
        assert_eq!(engine.archive.retrieve(2).unwrap(), (&vec![8, 9], 4));
        assert_eq!(engine.window_tokens(), 0);
    }
}

#[test]
fn a_prompt_that_just_fills_a_window_leaves_it_empty() {
    let mut engine = UnlimitedContextEngine::new(3);
    assert!(engine.try_prefill_via_dispatch(true, dispatch_prefill(3), &[1u32, 2, 3], false));
    assert_eq!((engine.archive.len(), engine.window_tokens()), (1, 0));
    assert!(engine.decode_step_via_dispatch(4, false, dispatch_step(), Vec::new()));
    assert_eq!(engine.current_window_tokens, vec![4]);
}

#[test]
fn a_window_that_is_just_full_is_closed_before_the_next_token() {
    let mut engine = UnlimitedContextEngine::new(2);
    assert_eq!(engine.read_back_row(), None);
    engine.current_window_tokens = vec![4, 5];
    engine.current_window_kv_len = 2;
    engine.has_handle = true;
    assert_eq!(engine.read_back_row(), Some(1));
    engine
        .decode_step(Walk::Backend, 6, Some(layers(1)), layers(1))
        .expect("step after a full window");
    assert_eq!(engine.archive.retrieve(0).unwrap().0, &vec![4, 5]);
    assert_eq!(engine.checkpoints.items[0].kv.len(), NUM_LAYERS);
    assert_eq!(engine.current_window_tokens, vec![6]);
}

// ── The engine that keeps all keys and values ────────────────────────────

#[test]
fn engine_name() {
    assert_eq!(StandardEngine::new(None).name(), "standard");
}

#[test]
fn engine_info_unbounded() {
    let info = StandardEngine::new(None).info("0.0", "cpu");
    assert!(info.config.contains("full"));
}

#[test]
fn engine_info_windowed() {
    let info = StandardEngine::new(Some(128)).info("0.0", "cpu");
    assert!(info.config.contains("128"));
}

#[test]
fn memory_zero_before_prefill() {
    let eng = StandardEngine::new(None);
    assert_eq!(eng.memory_bytes(), Some(0));
    assert_eq!(eng.window_tokens(), 0);
    assert_eq!(eng.cold_bytes(), 0);
}

#[test]
fn prefill_populates_cache_and_returns_hidden() {
    let mut engine = StandardEngine::new(None);
    engine.prefill(3, Some(handles(3)), false).expect("prefill");
    assert!(engine.memory_bytes().unwrap() > 0, "cache should be populated");
    assert!(engine.window_tokens() >= 3);
    // Keys and values, four bytes each.
    assert_eq!(engine.memory_bytes(), Some(NUM_LAYERS * 3 * KV_DIM * 2 * 4));
}

#[test]
fn standard_supports_multimodal() {
    assert!(StandardEngine::new(None).supports_multimodal());
}

#[test]
fn prefill_and_prefill_from_hidden_agree_on_hidden_and_abs_position() {
    let tokens = [0u32, 1, 2, 3];
    let mut text = StandardEngine::new(None);
    text.prefill(tokens.len(), Some(handles(4)), false).expect("prefill text");
    let mut hidden = StandardEngine::new(None);
    hidden.prefill_from_hidden(4, Some(handles(4))).expect("prefill_from_hidden");
    assert_eq!(text.abs_position, hidden.abs_position);
    assert_eq!(hidden.abs_position, tokens.len());
}

#[test]
fn prefill_from_hidden_abs_position_derives_from_nrows_not_tokens() {
    let mm_rows = 7usize;
    let mut engine = StandardEngine::new(None);
    let _ = engine.prefill_from_hidden(mm_rows, Some(handles(mm_rows)));
    assert_eq!(engine.abs_position, mm_rows);
}

#[test]
fn a_step_moves_the_position_by_one() {
    let mut engine = StandardEngine::new(None);
    engine.prefill(2, Some(handles(2)), false).expect("prefill");
    engine.decode_step(step(3), false).expect("decode");
    assert_eq!(engine.abs_position, 3);
}

#[test]
fn cache_grows_with_decode_steps() {
    let mut engine = StandardEngine::new(None);
    engine.prefill(1, Some(handles(1)), false).expect("prefill");
    let after_prefill = engine.memory_bytes().unwrap();
    engine.decode_step(step(2), false).expect("decode 1");
    let after_one = engine.memory_bytes().unwrap();
    engine.decode_step(step(3), false).expect("decode 2");
    let after_two = engine.memory_bytes().unwrap();
    assert!(after_one > after_prefill);
    assert!(after_two > after_one);
}

#[test]
fn decode_step_without_prefill_returns_none() {
    let mut engine = StandardEngine::new(None);
    assert!(engine.decode_step(step(1), false).is_err());
}

#[test]
fn prefill_quant_cpu_fallback_runs_via_dequant() {
    let mut engine = StandardEngine::new(None);
    engine.prefill_quant(3, None, Some(handles(3)), false).expect("prefill_quant");
    assert!(engine.memory_bytes().unwrap() > 0);
}

#[test]
fn decode_step_quant_cpu_fallback_extends_cache() {
    let mut engine = StandardEngine::new(None);
    engine.prefill_quant(2, None, Some(handles(2)), false).expect("prefill_quant");
    let mem_before = engine.memory_bytes().unwrap();
    engine.decode_step_quant(no_coarse(), step(3), false).expect("decode_step_quant");
    assert!(engine.memory_bytes().unwrap() > mem_before);
}

#[test]
fn standard_decode_step_quant_without_prefill_returns_none() {
    let mut engine = StandardEngine::new(None);
    assert!(engine.decode_step_quant(no_coarse(), step(1), false).is_err());
}

#[test]
fn standard_engine_refuses_and_reports() {
    let mut engine = StandardEngine::new(None);
    assert!(matches!(engine.prefill(0, None, false), Err(EngineError::EmptyPrompt)));
    assert!(matches!(
        engine.prefill(2, None, false),
        Err(EngineError::BackendFailure { .. })
    ));
    assert!(matches!(
        engine.decode_step(CacheStep { handles: Vec::new(), ran: false }, false),
        Err(EngineError::InvariantViolation { .. })
    ));
}

#[test]
fn a_failed_step_keeps_the_position() {
    let mut engine = StandardEngine::new(None);
    engine.prefill(2, Some(handles(2)), true).expect("prefill");
    match engine.decode_step(CacheStep { handles: handles(2), ran: false }, true) {
        Err(EngineError::BackendFailure { details }) => {
            assert_eq!(details, "kv_decode_step_via_dispatch_async returned None")
        }
        other => panic!("{other:?}"),
    }
    assert_eq!(engine.abs_position, 2);
}

#[test]
fn one_cache_for_the_whole_model_is_used_first() {
    let mut engine = StandardEngine::new(None);
    let whole = CacheHandle { cached_len: 3, kv_dim: 64 };
    engine.prefill_quant(3, Some(whole), None, false).expect("prefill");
    let grown = CacheHandle { cached_len: 4, kv_dim: 64 };
    let failed = CacheStep { handles: Vec::new(), ran: false };
    engine.decode_step_quant((grown, true), failed, false).expect("step");
    assert_eq!(engine.window_tokens(), 4);
    assert_eq!(engine.abs_position, 4);
}

// ── Generation ───────────────────────────────────────────────────────────

/// An engine that answers with the next token, until it is told to fail.
struct StubEngine {
    fail_prefill: bool,
    fail_decode_after: Option<usize>,
    decode_count: usize,
}

fn fresh_stub() -> StubEngine {
    StubEngine { fail_prefill: false, fail_decode_after: None, decode_count: 0 }
}

/// Runs a generation: token `n` is followed by `n + 1`, and token `stop` has
/// the text of an end mark.
fn generate(
    stub: &mut StubEngine,
    prompt: &[u32],
    max_new_tokens: usize,
    stop: u32,
    on_token: &mut dyn FnMut(u32, &str),
) -> Vec<u32> {
    let mut run = Generation::new(max_new_tokens, prompt.len());
    loop {
        let next = match run.next_action() {
            Action::Stop => return run.generated,
            Action::Prefill => {
                if stub.fail_prefill { None } else { Some(prompt[prompt.len() - 1] + 1) }
            }
            Action::Decode(token) => {
                stub.decode_count += 1;
                match stub.fail_decode_after {
                    Some(limit) if stub.decode_count > limit => None,
                    _ => Some(token + 1),
                }
            }
        };
        let text = next.map(|id| if id == stop { "</s>".to_string() } else { format!("t{id}") });
        let event = match (next, &text) {
            (Some(id), Some(t)) => Some((id, t.as_str())),
            _ => None,
        };
        if run.sampled(event) {
            on_token(next.unwrap(), text.as_ref().unwrap());
        }
    }
}

#[test]
fn generate_cached_returns_token_ids() {
    let mut decoded: Vec<String> = Vec::new();
    let ids = generate(&mut fresh_stub(), &[0u32, 1], 3, 1000, &mut |_, t| decoded.push(t.to_string()));
    assert!(ids.len() <= 3, "should generate at most 3 tokens");
    assert_eq!(ids.len(), decoded.len(), "callback called once per token");
    assert_eq!(ids, vec![2, 3, 4]);
}

#[test]
fn generate_cached_empty_prompt() {
    let ids = generate(&mut fresh_stub(), &[], 2, 1000, &mut |_, _| {});
    assert!(ids.len() <= 2);
}

#[test]
fn generate_with_engine_empty_prompt_returns_empty() {
    assert!(generate(&mut fresh_stub(), &[], 5, 1000, &mut |_, _| {}).is_empty());
}

#[test]
fn generate_with_engine_zero_max_returns_empty() {
    assert!(generate(&mut fresh_stub(), &[0u32, 1], 0, 1000, &mut |_, _| {}).is_empty());
}

#[test]
fn generate_with_engine_max_one_returns_single_token() {
    assert_eq!(generate(&mut fresh_stub(), &[0u32, 1], 1, 1000, &mut |_, _| {}).len(), 1);
}

#[test]
fn generate_with_engine_multi_step_fires_callback_per_token() {
    let mut callbacks = 0usize;
    let out = generate(&mut fresh_stub(), &[0u32, 1], 4, 1000, &mut |_, _| callbacks += 1);
    assert_eq!(out.len(), callbacks);
    assert!(out.len() <= 4);
}

#[test]
fn generate_with_engine_prefill_failure_returns_empty() {
    let mut stub = fresh_stub();
    stub.fail_prefill = true;
    assert!(generate(&mut stub, &[0u32], 3, 1000, &mut |_, _| {}).is_empty());
}

#[test]
fn generate_with_engine_decode_failure_breaks_loop_early() {
    let mut stub = fresh_stub();
    stub.fail_decode_after = Some(1);
    let out = generate(&mut stub, &[0u32, 1], 5, 1000, &mut |_, _| {});
    assert!(out.len() <= 2, "should break after decode failure, got {} tokens", out.len());
    assert_eq!(out, vec![2, 3]);
}

#[test]
fn generation_ends_at_a_stop_token() {
    let mut stub = fresh_stub();
    let mut heard = Vec::new();
    let out = generate(&mut stub, &[0u32, 1], 9, 4, &mut |id, _| heard.push(id));
    assert_eq!(out, vec![2, 3, 4]);
    assert_eq!(heard, out);
    assert_eq!(stub.decode_count, 2);
    for text in ["<eos>", "</s>", "<|endoftext|>", "<|im_end|>", "<|end_of_turn|>", "<end_of_turn>",
        "<|end_of_text|>", "<|eom_id|>", "<|eot_id|>"]
    {
        assert!(is_stop_token_str(text));
    }
    assert!(!is_stop_token_str("eos"));
}

#[test]
fn generate_cached_constrained_restricts_tokens() {
    let allowed: std::collections::HashSet<u32> = (0u32..8).collect();
    for seed in 0..20u32 {
        let mut logits: Vec<f32> =
            (0..32u32).map(|id| ((id * 7 + seed * 13) % 31) as f32 - 15.0).collect();
        for (id, logit) in logits.iter_mut().enumerate() {
            if !allowed.contains(&(id as u32)) {
                *logit = f32::NEG_INFINITY;
            }
        }
        let bits: Vec<u32> = logits.iter().map(|l| l.to_bits()).collect();
        let id = masked_argmax(&bits).unwrap() as u32;
        assert!(allowed.contains(&id), "generated token {id} outside allowed set");
        assert!(logits.iter().all(|l| *l <= logits[id as usize]));
    }
}

#[test]
fn masked_argmax_passes_over_what_is_no_number() {
    let bits = |v: &[f32]| v.iter().map(|x| x.to_bits()).collect::<Vec<u32>>();
    assert_eq!(masked_argmax(&bits(&[])), None);
    assert_eq!(masked_argmax(&bits(&[f32::NAN])), None);
    assert_eq!(masked_argmax(&bits(&[f32::NAN, 1.0, f32::NAN])), Some(1));
    assert_eq!(masked_argmax(&bits(&[f32::NEG_INFINITY, f32::NEG_INFINITY])), Some(1));
    assert_eq!(masked_argmax(&bits(&[-2.0, -0.5, -1.0])), Some(1));
}

#[test]
fn kv_prefill_run_works_on_synthetic_e2b_ple_arch() {
    let prompt = [0u32, 1, 2];
    let (mut run, mut cache) = LayerRun::kv_prefill_run::<u8>(prompt.len(), 4).unwrap();
    while let RunStep::Layer(n) = run.step {
        run.attended(&mut cache, Some(n as u8));
    }
    assert!(matches!(run.step, RunStep::Done));
    assert_eq!(cache.next_position, prompt.len());
    assert_eq!(cache.layers, vec![Some(0), Some(1), Some(2), Some(3)]);
}

#[test]
fn kv_decode_step_run_works_for_multiple_steps_on_synthetic_e2b_ple_arch() {
    let prompt = [0u32, 1];
    let (mut run, mut cache) = LayerRun::kv_prefill_run::<u8>(prompt.len(), 4).unwrap();
    while let RunStep::Layer(_) = run.step {
        run.attended(&mut cache, Some(0));
    }
    for step in 1..4u8 {
        let mut run = LayerRun::kv_decode_step_run(&mut cache);
        while let RunStep::Layer(_) = run.step {
            run.attended(&mut cache, Some(step));
        }
        assert!(matches!(run.step, RunStep::Done));
    }
    assert_eq!(cache.next_position, prompt.len() + 3);
    assert_eq!(cache.layers, vec![Some(3); 4]);
}

#[test]
fn failed_layer_leaves_the_position() {
    let (mut run, mut cache) = LayerRun::kv_prefill_run::<u8>(5, 2).unwrap();
    run.attended(&mut cache, Some(1));
    run.attended(&mut cache, Some(2));
    assert_eq!(cache.next_position, 5);
    let mut step = LayerRun::kv_decode_step_run(&mut cache);
    step.attended(&mut cache, None);
    assert!(matches!(step.step, RunStep::Failed));
    assert_eq!(cache.next_position, 5);
    assert!(LayerRun::kv_prefill_run::<u8>(0, 2).is_none());
}

#[test]
fn wrapper_max_tokens_independent_of_hidden_rows() {
    let tokens: Vec<u32> = (0u32..7).collect();
    let ids = generate(&mut fresh_stub(), &tokens, 3, 1000, &mut |_, _| {});
    assert!(ids.len() <= 3);
    assert_eq!(ids.len(), 3);
}

#[test]
fn wrapper_zero_hidden_rows_returns_empty() {
    let run = Generation::new(5, 0);
    assert_eq!(run.next_action(), Action::Stop);
    assert!(run.generated.is_empty());
}
