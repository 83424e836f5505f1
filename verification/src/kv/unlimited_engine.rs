//! The unlimited context as an engine: prefills, steps, and what it takes in
//! memory.
use vstd::prelude::*;

use crate::kv::dispatch::{greater, prompt_layers, rows_fit, DispatchPrefill, DispatchStep};
use crate::kv::info::{EngineInfo, InfoText};
use crate::kv::standard::{EngineError, EngineFault};
use crate::kv::unlimited_context::{
    checkpoint_numbers, fed_in, has_rows, layer_grids, opt_layers, row_count, LayerGrid,
    LayerKv, UnlimitedContextEngine, WindowState,
};
use crate::text::{concat, concat3, decimal, decimal_string};

verus! {

/// How the layers are gone through.
#[derive(Debug, Clone, Copy, PartialEq, Eq, Structural)]
pub enum Walk {
    /// By the backend, on full weights.
    Backend,
    /// On quantised weights.
    Quant,
    /// By an executor that is handed in.
    Executor,
}

/// What the engine says of tokens that were not all taken.
pub open spec fn walk_fault(walk: Walk, decoding: bool) -> EngineFault {
    EngineFault::BackendFailure(
        match walk {
            Walk::Backend => if decoding {
                "process returned None during decode_step"@
            } else {
                "process returned None during prefill"@
            },
            Walk::Quant => if decoding {
                "process_quant returned None during decode_step_quant"@
            } else {
                "process_quant returned None during prefill_quant"@
            },
            Walk::Executor => if decoding {
                "process_via_executor returned None during decode_step_quant_via_executor"@
            } else {
                "process_via_executor returned None during prefill_quant_via_executor"@
            },
        },
    )
}

/// What the engine says of tokens that were not all taken.
fn walk_error(walk: Walk, decoding: bool) -> (r: EngineError)
    ensures
        r@ == walk_fault(walk, decoding),
{
    let details = match walk {
        Walk::Backend => if decoding {
            "process returned None during decode_step"
        } else {
            "process returned None during prefill"
        },
        Walk::Quant => if decoding {
            "process_quant returned None during decode_step_quant"
        } else {
            "process_quant returned None during prefill_quant"
        },
        Walk::Executor => if decoding {
            "process_via_executor returned None during decode_step_quant_via_executor"
        } else {
            "process_via_executor returned None during prefill_quant_via_executor"
        },
    };
    EngineError::BackendFailure { details: details.to_owned() }
}

/// A prefill on the backend, as far as there is one.
pub struct PrefillDispatch {
    /// Whether the model can be prefilled on the backend.
    pub supported: bool,
    /// What the backend gave.
    pub outcome: Option<DispatchPrefill>,
    /// Whether the engine keeps no copy of the keys and values.
    pub drop_copy: bool,
}

impl PrefillDispatch {
    /// The prefill on the backend is taken up.
    pub open spec fn taken(&self) -> bool {
        self.supported && (self.outcome matches Some(p) && p.complete)
    }
}

/// What the extensions gave, as plain values.
pub open spec fn result_layers(results: Seq<Option<Vec<LayerKv>>>) -> Seq<
    Option<Seq<LayerGrid>>,
> {
    Seq::new(results.len(), |i: int| opt_layers(results[i]))
}

/// Whatever an extension gave has the same rows in every layer.
pub open spec fn results_fit(results: Seq<Option<Vec<LayerKv>>>) -> bool {
    forall|i: int|
        0 <= i < results.len() ==> (opt_layers(#[trigger] results[i]) matches Some(kv)
            ==> has_rows(kv, row_count(kv)))
}

/// The state in which a prefill starts: one on quantised weights that goes
/// through the layers no longer uses the backend's keys and values.
pub open spec fn prefill_start(s: WindowState, walk: Walk) -> WindowState {
    if walk == Walk::Quant {
        WindowState { has_handle: false, ..s }
    } else {
        s
    }
}

/// The numbers in `rows` rows of keys and values.
pub open spec fn row_numbers(kv: Seq<LayerGrid>, rows: nat) -> nat
    decreases kv.len(),
{
    if kv.len() == 0 {
        0
    } else {
        row_numbers(kv.drop_last(), rows) + (kv.last().k.cols + kv.last().v.cols) * rows
    }
}

/// The valid numbers of the current window.
pub open spec fn current_numbers(s: WindowState) -> nat {
    match s.kv {
        Some(kv) => row_numbers(kv, s.kv_len),
        None => 0,
    }
}

/// More layers never hold fewer numbers.
proof fn row_numbers_grow(kv: Seq<LayerGrid>, rows: nat, i: int)
    requires
        0 <= i <= kv.len(),
    ensures
        row_numbers(kv.take(i), rows) <= row_numbers(kv, rows),
    decreases kv.len(),
{
    if i < kv.len() {
        row_numbers_grow(kv.drop_last(), rows, i);
        assert(kv.drop_last().take(i) =~= kv.take(i));
        assert(0 <= (kv.last().k.cols + kv.last().v.cols) * rows) by (nonlinear_arith);
    } else {
        assert(kv.take(i) =~= kv);
    }
}

impl UnlimitedContextEngine {
    /// The name under which the engine is shown.
    pub fn name(&self) -> (r: &'static str)
        ensures
            r@ == "unlimited-context"@,
    {
        "unlimited-context"
    }

    /// What the engine says of itself; `mem` is its memory in megabytes.
    pub fn info(&self, mem: &str, backend: &str) -> (r: EngineInfo)
        requires
            self@.wf(),
        ensures
            r@ == (InfoText {
                name: "unlimited-context"@,
                description: "window-boundary KV checkpoints + token replay (windows="@ + decimal(
                    self@.archive.len(),
                ) + ", tokens="@ + decimal(self@.abs_offset + self@.tokens.len()) + ", mem="@ + mem@
                    + "MB)"@,
                backend: backend@,
                config: "window="@ + decimal(self@.window_size),
            }),
    {
        let windows = decimal_string(self.archive.len() as u64);
        let total: usize = self.abs_offset + self.current_window_tokens.len();
        let tokens = decimal_string(total as u64);
        let a = concat3(
            "window-boundary KV checkpoints + token replay (windows=",
            windows.as_str(),
            ", tokens=",
        );
        let b = concat3(a.as_str(), tokens.as_str(), ", mem=");
        EngineInfo {
            name: "unlimited-context".to_owned(),
            description: concat3(b.as_str(), mem, "MB)"),
            backend: backend.to_owned(),
            config: self.config(),
        }
    }

    /// The engine's settings, as they are shown.
    pub fn config(&self) -> (r: String)
        ensures
            r@ == "window="@ + decimal(self@.window_size),
    {
        let n = decimal_string(self.window_size as u64);
        concat("window=", n.as_str())
    }

    /// A prefill that goes through the layers, where `results[i]` is what the
    /// i-th extension gives and `read_back` what the backend keeps for the last
    /// position.
    pub fn prefill(
        &mut self,
        walk: Walk,
        tokens: &[u32],
        results: Vec<Option<Vec<LayerKv>>>,
        read_back: Vec<LayerKv>,
    ) -> (r: Result<(), EngineError>)
        requires
            old(self)@.wf(),
            tokens@.len() > 0 ==> prefill_start(old(self)@, walk).takes_tokens(),
            old(self)@.abs_offset + old(self)@.tokens.len() + tokens@.len() <= usize::MAX,
            results_fit(results@),
        ensures
            final(self)@.wf(),
            tokens@.len() == 0 ==> final(self)@ == old(self)@ && (r matches Err(e) && e@
                == EngineFault::EmptyPrompt),
            tokens@.len() > 0 ==> {
                let (end, done) = fed_in(
                    prefill_start(old(self)@, walk),
                    tokens@,
                    result_layers(results@),
                    layer_grids(read_back@),
                );
                &&& final(self)@ == end
                &&& match r {
                    Ok(_) => done,
                    Err(e) => !done && e@ == walk_fault(walk, false),
                }
            },
    {
        let ghost s = self@;
        if tokens.len() == 0 {
            return Err(EngineError::EmptyPrompt);
        }
        if let Walk::Quant = walk {
            self.has_handle = false;
        }
        proof {
            assert(self@ =~= prefill_start(s, walk));
            assert forall|k: int| 0 <= k < s.archive.len() implies self@.window_placed(k) by {
                assert(s.window_placed(k));
            }
        }
        assert(result_layers(results@) =~= Seq::new(
            results@.len(),
            |i: int| opt_layers(results@[i]),
        ));
        if self.process(tokens, results, read_back) {
            Ok(())
        } else {
            Err(walk_error(walk, false))
        }
    }

    /// A step that goes through the layers, where `result` is what the
    /// extension gives and `read_back` what the backend keeps for the last
    /// position.
    pub fn decode_step(
        &mut self,
        walk: Walk,
        token_id: u32,
        result: Option<Vec<LayerKv>>,
        read_back: Vec<LayerKv>,
    ) -> (r: Result<(), EngineError>)
        requires
            old(self)@.wf(),
            old(self)@.takes_tokens(),
            old(self)@.abs_offset + old(self)@.tokens.len() < usize::MAX,
            opt_layers(result) matches Some(kv) ==> has_rows(kv, row_count(kv)),
        ensures
            final(self)@.wf(),
            ({
                let (end, done) = fed_in(
                    old(self)@,
                    seq![token_id],
                    seq![opt_layers(result)],
                    layer_grids(read_back@),
                );
                &&& final(self)@ == end
                &&& match r {
                    Ok(_) => done,
                    Err(e) => !done && e@ == walk_fault(walk, true),
                }
            }),
    {
        let mut tokens: Vec<u32> = Vec::new();
        tokens.push(token_id);
        let mut results: Vec<Option<Vec<LayerKv>>> = Vec::new();
        results.push(result);
        assert(tokens@ =~= seq![token_id]);
        assert(Seq::new(results@.len(), |i: int| opt_layers(results@[i])) =~= seq![
            opt_layers(result),
        ]);
        if self.process(tokens.as_slice(), results, read_back) {
            Ok(())
        } else {
            Err(walk_error(walk, true))
        }
    }

    /// A prefill on quantised weights: on the backend where that can be taken
    /// up, else through the layers.
    pub fn prefill_quant(
        &mut self,
        tokens: &[u32],
        dispatch: PrefillDispatch,
        results: Vec<Option<Vec<LayerKv>>>,
        read_back: Vec<LayerKv>,
    ) -> (r: Result<(), EngineError>)
        requires
            old(self)@.wf(),
            tokens@.len() > 0 && !dispatch.taken() ==> prefill_start(
                old(self)@,
                Walk::Quant,
            ).takes_tokens(),
            old(self)@.abs_offset + old(self)@.tokens.len() + tokens@.len() <= usize::MAX,
            dispatch.taken() && old(self)@.reads_prompt(
                tokens@.len(),
                dispatch.drop_copy,
            ) ==> prompt_layers(
                layer_grids(dispatch.outcome->Some_0.kv@),
                tokens@.len(),
                greater(old(self)@.window_size, tokens@.len()),
            ),
            results_fit(results@),
        ensures
            final(self)@.wf(),
            tokens@.len() == 0 ==> final(self)@ == old(self)@ && (r matches Err(e) && e@
                == EngineFault::EmptyPrompt),
            tokens@.len() > 0 && dispatch.taken() ==> r is Ok && final(self)@
                == old(self)@.prefilled(
                tokens@,
                layer_grids(dispatch.outcome->Some_0.kv@),
                dispatch.drop_copy,
            ),
            tokens@.len() > 0 && !dispatch.taken() ==> {
                let (end, done) = fed_in(
                    prefill_start(old(self)@, Walk::Quant),
                    tokens@,
                    result_layers(results@),
                    layer_grids(read_back@),
                );
                &&& final(self)@ == end
                &&& match r {
                    Ok(_) => done,
                    Err(e) => !done && e@ == walk_fault(Walk::Quant, false),
                }
            },
    {
        if tokens.len() == 0 {
            return Err(EngineError::EmptyPrompt);
        }
        if self.try_prefill_via_dispatch(
            dispatch.supported,
            dispatch.outcome,
            tokens,
            dispatch.drop_copy,
        ) {
            return Ok(());
        }
        self.prefill(Walk::Quant, tokens, results, read_back)
    }

    /// A step on quantised weights: on the backend where it keeps keys and
    /// values, else through the layers.
    pub fn decode_step_quant(
        &mut self,
        token_id: u32,
        may_drop_copy: bool,
        outcome: Option<DispatchStep>,
        result: Option<Vec<LayerKv>>,
        read_back: Vec<LayerKv>,
    ) -> (r: Result<(), EngineError>)
        requires
            old(self)@.wf(),
            old(self)@.abs_offset + old(self)@.tokens.len() < usize::MAX,
            old(self)@.kv_len < usize::MAX,
            (outcome matches Some(p) && p.complete && old(self)@.has_handle) ==> match old(
                self,
            )@.kv {
                Some(kv) => rows_fit(
                    kv,
                    layer_grids(outcome->Some_0.rows@),
                    old(self)@.kv_len,
                ),
                None => may_drop_copy,
            },
            !old(self)@.has_handle ==> old(self)@.takes_tokens(),
            opt_layers(result) matches Some(kv) ==> has_rows(kv, row_count(kv)),
        ensures
            final(self)@.wf(),
            old(self)@.has_handle ==> {
                let (end, taken) = old(self)@.after_dispatch(
                    token_id,
                    outcome,
                    layer_grids(read_back@),
                );
                &&& final(self)@ == end
                &&& match r {
                    Ok(_) => taken,
                    Err(e) => !taken && e@ == EngineFault::BackendFailure(
                        "decode_step_via_dispatch returned None"@,
                    ),
                }
            },
            !old(self)@.has_handle ==> {
                let (end, done) = fed_in(
                    old(self)@,
                    seq![token_id],
                    seq![opt_layers(result)],
                    layer_grids(read_back@),
                );
                &&& final(self)@ == end
                &&& match r {
                    Ok(_) => done,
                    Err(e) => !done && e@ == walk_fault(Walk::Quant, true),
                }
            },
    {
        if self.has_handle {
            return if self.decode_step_via_dispatch(token_id, may_drop_copy, outcome, read_back) {
                Ok(())
            } else {
                Err(
                    EngineError::BackendFailure {
                        details: "decode_step_via_dispatch returned None".to_owned(),
                    },
                )
            };
        }
        self.decode_step(Walk::Quant, token_id, result, read_back)
    }

    /// The bytes of the current window's keys and values: four for each valid
    /// number.  Nothing if that does not fit in a machine word.
    pub fn current_kv_bytes(&self) -> (r: Option<usize>)
        ensures
            match r {
                Some(n) => n == 4 * current_numbers(self@),
                None => 4 * current_numbers(self@) > usize::MAX,
            },
    {
        let kv = match &self.current_window_kv {
            Some(kv) => kv,
            None => return Some(0),
        };
        let rows: usize = self.current_window_kv_len;
        let ghost all = layer_grids(kv@);
        let mut total: usize = 0;
        let mut i: usize = 0;
        assert(all.take(0) =~= Seq::empty());
        while i < kv.len()
            invariant
                0 <= i <= kv.len(),
                all == layer_grids(kv@),
                self@.kv == Some(all),
                self@.kv_len == rows,
                total == row_numbers(all.take(i as int), rows as nat),
            decreases kv.len() - i,
        {
            assert(all.take(i + 1).drop_last() =~= all.take(i as int));
            proof {
                row_numbers_grow(all, rows as nat, i + 1);
            }
            let a: usize = kv[i].k.cols;
            let b: usize = kv[i].v.cols;
            let wide: u128 = a as u128 + b as u128;
            if wide > usize::MAX as u128 {
                if rows == 0 {
                    assert((a + b) * rows == 0) by (nonlinear_arith)
                        requires
                            rows == 0,
                    ;
                    i += 1;
                    continue;
                }
                assert((a + b) * rows >= a + b) by (nonlinear_arith)
                    requires
                        rows >= 1,
                        a + b >= 0,
                ;
                return None;
            }
            match (a + b).checked_mul(rows) {
                Some(n) => match total.checked_add(n) {
                    Some(t) => {
                        total = t;
                    },
                    None => return None,
                },
                None => return None,
            }
            i += 1;
        }
        assert(all.take(i as int) =~= all);
        total.checked_mul(4)
    }

    /// The bytes of the checkpoints and of the archive.  Nothing if that does
    /// not fit in a machine word.
    pub fn cold_bytes(&self) -> (r: Option<usize>)
        requires
            self@.wf(),
        ensures
            ({
                let bytes = 4 * checkpoint_numbers(self@.checkpoints) + 4 * self@.abs_offset;
                match r {
                    Some(n) => n == bytes,
                    None => bytes > usize::MAX,
                }
            }),
    {
        match (self.checkpoints.total_bytes(), self.abs_offset.checked_mul(4)) {
            (Some(a), Some(b)) => a.checked_add(b),
            _ => None,
        }
    }

    /// All bytes that the engine keeps.  Nothing if that does not fit in a
    /// machine word.
    pub fn memory_bytes(&self) -> (r: Option<usize>)
        requires
            self@.wf(),
        ensures
            ({
                let bytes = 4 * checkpoint_numbers(self@.checkpoints) + 4 * self@.abs_offset + 4
                    * current_numbers(self@);
                match r {
                    Some(n) => n == bytes,
                    None => bytes > usize::MAX,
                }
            }),
    {
        match (self.cold_bytes(), self.current_kv_bytes()) {
            (Some(a), Some(b)) => a.checked_add(b),
            _ => None,
        }
    }
}

} // verus!
