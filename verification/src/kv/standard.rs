//! The engine that keeps all keys and values, or those of the last tokens.
//!
//! The cache itself is the backend's; the engine knows how many rows each part
//! of it has and at which position the next token stands.
use vstd::prelude::*;

use crate::kv::info::{EngineInfo, InfoText};
use crate::text::{concat, concat3, decimal, decimal_string};

verus! {

/// Why an engine did not do what it was asked.
#[derive(Debug)]
pub enum EngineError {
    /// There is nothing to start from.
    EmptyPrompt,
    /// The backend gave nothing.
    BackendFailure { details: String },
    /// The engine was used in the wrong order.
    InvariantViolation { what: String },
}

/// What an [`EngineError`] says, as plain values.
pub enum EngineFault {
    EmptyPrompt,
    BackendFailure(Seq<char>),
    InvariantViolation(Seq<char>),
}

impl View for EngineError {
    type V = EngineFault;

    open spec fn view(&self) -> EngineFault {
        match self {
            EngineError::EmptyPrompt => EngineFault::EmptyPrompt,
            EngineError::BackendFailure { details } => EngineFault::BackendFailure(details@),
            EngineError::InvariantViolation { what } => EngineFault::InvariantViolation(what@),
        }
    }
}

/// One part of the backend's cache: its rows and their width.
#[derive(Debug, Clone, Copy, PartialEq, Eq, Structural)]
pub struct CacheHandle {
    pub cached_len: usize,
    pub kv_dim: usize,
}

/// What an engine holds, as plain values.
pub struct CacheState {
    pub window_size: Option<usize>,
    pub handles: Option<Seq<CacheHandle>>,
    pub position: nat,
}

/// A step of the backend: the cache as it left it, and whether it was made.
#[derive(Debug)]
pub struct CacheStep {
    pub handles: Vec<CacheHandle>,
    pub ran: bool,
}

/// The engine.
pub struct StandardEngine {
    pub window_size: Option<usize>,
    /// Set by a prefill: one part for each layer, or one for the whole model.
    pub handles: Option<Vec<CacheHandle>>,
    /// The position of the next token.
    pub abs_position: usize,
}

/// The parts of an optional cache.
pub open spec fn opt_handles(h: Option<Vec<CacheHandle>>) -> Option<Seq<CacheHandle>> {
    match h {
        Some(v) => Some(v@),
        None => None,
    }
}

impl View for StandardEngine {
    type V = CacheState;

    open spec fn view(&self) -> CacheState {
        CacheState {
            window_size: self.window_size,
            handles: opt_handles(self.handles),
            position: self.abs_position as nat,
        }
    }
}

/// What an engine says of a backend that gave nothing.
pub open spec fn prefill_fault(asynchronous: bool) -> EngineFault {
    if asynchronous {
        EngineFault::BackendFailure("kv_prefill_via_dispatch_async returned None"@)
    } else {
        EngineFault::BackendFailure("kv_prefill_via_dispatch returned None"@)
    }
}

/// What an engine says of a backend that gave nothing in a step.
pub open spec fn decode_fault(asynchronous: bool) -> EngineFault {
    if asynchronous {
        EngineFault::BackendFailure("kv_decode_step_via_dispatch_async returned None"@)
    } else {
        EngineFault::BackendFailure("kv_decode_step_via_dispatch returned None"@)
    }
}

/// What an engine says of a step before any prefill.
pub open spec fn too_early() -> EngineFault {
    EngineFault::InvariantViolation("decode_step called before prefill (handles missing)"@)
}

impl CacheState {
    /// The state after a prefill over `n` rows.
    pub open spec fn filled(self, handles: Seq<CacheHandle>, n: nat) -> CacheState {
        CacheState { handles: Some(handles), position: n, ..self }
    }

    /// The state after a step.
    pub open spec fn stepped(self, handles: Seq<CacheHandle>) -> CacheState {
        CacheState { handles: Some(handles), position: self.position + 1, ..self }
    }

    /// A prefill over `n` tokens: the new state, or what is wrong.
    pub open spec fn prefill(
        self,
        n: nat,
        outcome: Option<Seq<CacheHandle>>,
        asynchronous: bool,
    ) -> Result<CacheState, EngineFault> {
        if n == 0 {
            Err(EngineFault::EmptyPrompt)
        } else {
            match outcome {
                Some(h) => Ok(self.filled(h, n)),
                None => Err(prefill_fault(asynchronous)),
            }
        }
    }

    /// A prefill over `rows` rows: the new state, or what is wrong.
    pub open spec fn prefill_rows(self, rows: nat, outcome: Option<Seq<CacheHandle>>) -> Result<
        CacheState,
        EngineFault,
    > {
        match outcome {
            Some(h) => Ok(self.filled(h, rows)),
            None => Err(
                EngineFault::BackendFailure(
                    "do_prefill_from_hidden returned None (empty hidden input or backend dispatch failure)"@,
                ),
            ),
        }
    }

    /// A step that left the cache as `handles`: the new state, and what is
    /// wrong, if anything is.  A step before any prefill is not made; one that
    /// failed keeps the position.
    pub open spec fn decode(
        self,
        handles: Seq<CacheHandle>,
        ran: bool,
        asynchronous: bool,
    ) -> (CacheState, Option<EngineFault>) {
        if self.handles is None {
            (self, Some(too_early()))
        } else if ran {
            (self.stepped(handles), None)
        } else {
            (
                CacheState { handles: Some(handles), ..self },
                Some(decode_fault(asynchronous)),
            )
        }
    }
}

impl CacheState {
    /// A prefill on quantised weights: with one cache for the whole model where
    /// there is one, else with what the layer-by-layer prefill gave.
    pub open spec fn prefill_quant(
        self,
        n: nat,
        coarse: Option<CacheHandle>,
        fallback: Option<Seq<CacheHandle>>,
        asynchronous: bool,
    ) -> Result<CacheState, EngineFault> {
        match coarse {
            Some(h) => self.prefill(n, Some(seq![h]), asynchronous),
            None => self.prefill(n, fallback, asynchronous),
        }
    }

    /// A step on quantised weights: on the one cache of the whole model where
    /// there is one and the step was made, else layer by layer.
    pub open spec fn decode_quant(
        self,
        coarse: (CacheHandle, bool),
        fallback: Seq<CacheHandle>,
        ran: bool,
        asynchronous: bool,
    ) -> (CacheState, Option<EngineFault>) {
        if coarse.1 && (self.handles matches Some(h) && h.len() == 1) {
            self.decode(seq![coarse.0], true, asynchronous)
        } else {
            self.decode(fallback, ran, asynchronous)
        }
    }
}

/// What is wrong, if anything is.
pub open spec fn fault_of(r: Result<(), EngineError>) -> Option<EngineFault> {
    match r {
        Ok(_) => None,
        Err(e) => Some(e@),
    }
}

/// The engine went from `before` to what `want` says, or stayed and failed.
pub open spec fn engine_did(
    before: CacheState,
    after: CacheState,
    want: Result<CacheState, EngineFault>,
    r: Result<(), EngineError>,
) -> bool {
    match r {
        Ok(_) => want == Ok::<CacheState, EngineFault>(after),
        Err(e) => want == Err::<CacheState, EngineFault>(e@) && after == before,
    }
}

/// A prompt of tokens leaves the engine in the same state as its embedded
/// rows.
pub proof fn prefills_agree(
    s: CacheState,
    n: nat,
    outcome: Option<Seq<CacheHandle>>,
    asynchronous: bool,
)
    requires
        n > 0,
        outcome is Some,
    ensures
        s.prefill(n, outcome, asynchronous) == s.prefill_rows(n, outcome),
{
}

/// A backend that is asked asynchronously leaves the engine in the same state:
/// only the text of a failure tells the two apart.
pub proof fn backends_agree(
    s: CacheState,
    n: nat,
    outcome: Option<Seq<CacheHandle>>,
    handles: Seq<CacheHandle>,
    ran: bool,
)
    ensures
        outcome is Some ==> s.prefill(n, outcome, true) == s.prefill(n, outcome, false),
        s.decode(handles, ran, true).0 == s.decode(handles, ran, false).0,
        ran ==> s.decode(handles, ran, true) == s.decode(handles, ran, false),
{
}

/// The numbers of a cache.
pub open spec fn cached_numbers(h: Seq<CacheHandle>) -> nat
    decreases h.len(),
{
    if h.len() == 0 {
        0
    } else {
        cached_numbers(h.drop_last()) + h.last().cached_len as nat * h.last().kv_dim as nat
    }
}

/// More parts never hold fewer numbers.
proof fn cached_numbers_grow(h: Seq<CacheHandle>, i: int)
    requires
        0 <= i <= h.len(),
    ensures
        cached_numbers(h.take(i)) <= cached_numbers(h),
    decreases h.len(),
{
    if i < h.len() {
        cached_numbers_grow(h.drop_last(), i);
        assert(h.drop_last().take(i) =~= h.take(i));
        assert(0 <= h.last().cached_len as nat * h.last().kv_dim as nat) by (nonlinear_arith);
    } else {
        assert(h.take(i) =~= h);
    }
}

impl StandardEngine {
    /// An engine without a cache.
    pub fn new(window_size: Option<usize>) -> (r: StandardEngine)
        ensures
            r@ == (CacheState { window_size, handles: None, position: 0 }),
    {
        StandardEngine { window_size, handles: None, abs_position: 0 }
    }

    /// The name under which the engine is shown.
    pub fn name(&self) -> (r: &'static str)
        ensures
            r@ == "standard"@,
    {
        "standard"
    }

    /// What the engine says of itself; `mem` is its memory in megabytes.
    pub fn info(&self, mem: &str, backend: &str) -> (r: EngineInfo)
        ensures
            r@ == (InfoText {
                name: "standard"@,
                description:
                    "production K/V tensor cache \u{2014} full FP32 K/V per layer (mem="@ + mem@
                    + "MB)"@,
                backend: backend@,
                config: (match self@.window_size {
                    Some(w) => "window="@ + decimal(w as nat),
                    None => "window=full"@,
                }),
            }),
    {
        EngineInfo {
            name: "standard".to_owned(),
            description: concat3(
                "production K/V tensor cache \u{2014} full FP32 K/V per layer (mem=",
                mem,
                "MB)",
            ),
            backend: backend.to_owned(),
            config: self.config(),
        }
    }

    /// The engine's settings, as they are shown.
    pub fn config(&self) -> (r: String)
        ensures
            r@ == (match self@.window_size {
                Some(w) => "window="@ + decimal(w as nat),
                None => "window=full"@,
            }),
    {
        match self.window_size {
            Some(w) => {
                let n = decimal_string(w as u64);
                concat("window=", n.as_str())
            },
            None => "window=full".to_owned(),
        }
    }

    /// The engine can start from rows that are not tokens.
    pub fn supports_multimodal(&self) -> (r: bool)
        ensures
            r,
    {
        true
    }

    /// Takes up a prefill over `token_count` tokens, for which the backend gave
    /// `outcome`.  The next token stands behind them.
    pub fn prefill(
        &mut self,
        token_count: usize,
        outcome: Option<Vec<CacheHandle>>,
        asynchronous: bool,
    ) -> (r: Result<(), EngineError>)
        ensures
            engine_did(
                old(self)@,
                final(self)@,
                old(self)@.prefill(token_count as nat, opt_handles(outcome), asynchronous),
                r,
            ),
    {
        if token_count == 0 {
            return Err(EngineError::EmptyPrompt);
        }
        match outcome {
            Some(h) => {
                self.handles = Some(h);
                self.abs_position = token_count;
                Ok(())
            },
            None => {
                let details = if asynchronous {
                    "kv_prefill_via_dispatch_async returned None".to_owned()
                } else {
                    "kv_prefill_via_dispatch returned None".to_owned()
                };
                Err(EngineError::BackendFailure { details })
            },
        }
    }

    /// Takes up a prefill over `rows` rows, not all of which need be tokens.
    /// The next token stands behind the rows.
    pub fn prefill_from_hidden(&mut self, rows: usize, outcome: Option<Vec<CacheHandle>>) -> (r:
        Result<(), EngineError>)
        ensures
            engine_did(
                old(self)@,
                final(self)@,
                old(self)@.prefill_rows(rows as nat, opt_handles(outcome)),
                r,
            ),
    {
        match outcome {
            Some(h) => {
                self.handles = Some(h);
                self.abs_position = rows;
                Ok(())
            },
            None => Err(
                EngineError::BackendFailure {
                    details: "do_prefill_from_hidden returned None (empty hidden input or backend dispatch failure)".to_owned(),
                },
            ),
        }
    }

    /// Takes up a step of the backend.  Before any prefill there is none.
    pub fn decode_step(&mut self, step: CacheStep, asynchronous: bool) -> (r: Result<
        (),
        EngineError,
    >)
        requires
            old(self)@.position < usize::MAX,
        ensures
            (final(self)@, fault_of(r)) == old(self)@.decode(step.handles@, step.ran, asynchronous),
    {
        if self.handles.is_none() {
            return Err(
                EngineError::InvariantViolation {
                    what: "decode_step called before prefill (handles missing)".to_owned(),
                },
            );
        }
        self.handles = Some(step.handles);
        if step.ran {
            self.abs_position = self.abs_position + 1;
            Ok(())
        } else {
            let details = if asynchronous {
                "kv_decode_step_via_dispatch_async returned None".to_owned()
            } else {
                "kv_decode_step_via_dispatch returned None".to_owned()
            };
            Err(EngineError::BackendFailure { details })
        }
    }

    /// Takes up a prefill on quantised weights: one cache for the whole model
    /// where the backend has one, else what the layer-by-layer prefill gave.
    pub fn prefill_quant(
        &mut self,
        token_count: usize,
        coarse: Option<CacheHandle>,
        fallback: Option<Vec<CacheHandle>>,
        asynchronous: bool,
    ) -> (r: Result<(), EngineError>)
        ensures
            engine_did(
                old(self)@,
                final(self)@,
                old(self)@.prefill_quant(
                    token_count as nat,
                    coarse,
                    opt_handles(fallback),
                    asynchronous,
                ),
                r,
            ),
    {
        match coarse {
            Some(h) => {
                let mut one: Vec<CacheHandle> = Vec::new();
                one.push(h);
                assert(one@ =~= seq![h]);
                self.prefill(token_count, Some(one), asynchronous)
            },
            None => self.prefill(token_count, fallback, asynchronous),
        }
    }

    /// Takes up a step on quantised weights: `coarse` is the step on the one
    /// cache of the whole model, which is only made where there is such a
    /// cache; where it was not made or failed, `fallback` is the step layer by
    /// layer.
    pub fn decode_step_quant(
        &mut self,
        coarse: (CacheHandle, bool),
        fallback: CacheStep,
        asynchronous: bool,
    ) -> (r: Result<(), EngineError>)
        requires
            old(self)@.position < usize::MAX,
        ensures
            (final(self)@, fault_of(r)) == old(self)@.decode_quant(
                coarse,
                fallback.handles@,
                fallback.ran,
                asynchronous,
            ),
    {
        let whole = match &self.handles {
            Some(h) => h.len() == 1,
            None => false,
        };
        if coarse.1 && whole {
            let mut one: Vec<CacheHandle> = Vec::new();
            one.push(coarse.0);
            assert(one@ =~= seq![coarse.0]);
            return self.decode_step(CacheStep { handles: one, ran: true }, asynchronous);
        }
        self.decode_step(fallback, asynchronous)
    }

    /// The bytes of the cache: four for each number of the keys and of the
    /// values.  Nothing if that does not fit in a machine word.
    pub fn memory_bytes(&self) -> (r: Option<usize>)
        ensures
            ({
                let numbers = match self@.handles {
                    Some(h) => cached_numbers(h),
                    None => 0,
                };
                match r {
                    Some(n) => n == 8 * numbers,
                    None => 8 * numbers > usize::MAX,
                }
            }),
    {
        let handles = match &self.handles {
            Some(h) => h,
            None => return Some(0),
        };
        let mut total: usize = 0;
        let mut i: usize = 0;
        assert(handles@.take(0) =~= Seq::empty());
        while i < handles.len()
            invariant
                0 <= i <= handles.len(),
                total == cached_numbers(handles@.take(i as int)),
                self@.handles == Some(handles@),
            decreases handles.len() - i,
        {
            assert(handles@.take(i + 1).drop_last() =~= handles@.take(i as int));
            proof {
                cached_numbers_grow(handles@, i + 1);
            }
            match handles[i].cached_len.checked_mul(handles[i].kv_dim) {
                Some(n) => match total.checked_add(n) {
                    Some(t) => {
                        total = t;
                    },
                    None => return None,
                },
                None => return None,
            }
            i += 1;
        }
        assert(handles@.take(i as int) =~= handles@);
        total.checked_mul(8)
    }

    /// The rows of the cache's first part.
    pub fn window_tokens(&self) -> (r: usize)
        ensures
            r == (match self@.handles {
                Some(h) => if h.len() > 0 {
                    h[0].cached_len
                } else {
                    0
                },
                None => 0,
            }),
    {
        match &self.handles {
            Some(h) => if h.len() > 0 {
                h[0].cached_len
            } else {
                0
            },
            None => 0,
        }
    }

    /// Nothing is moved out of the cache.
    pub fn cold_bytes(&self) -> (r: usize)
        ensures
            r == 0,
    {
        0
    }
}

} // verus!
