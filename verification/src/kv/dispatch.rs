//! The unlimited context on a backend that keeps keys and values of its own.
//!
//! The engine may keep a copy of the current window's keys and values, with
//! room for the whole window; each step then writes one row.  Or it keeps
//! none and reads the last row back when the window is closed.  A window is
//! closed as soon as it is full, after a prefill as after a step.
use vstd::arithmetic::div_mod::lemma_fundamental_div_mod;
use vstd::prelude::*;

use crate::kv::unlimited_context::{
    closing_keeps_tokens, has_rows, last_rows, layer_grids, processed, take_last_rows, LayerGrid,
    LayerKv, UnlimitedContextEngine, WindowState,
};
use crate::tensor::Matrix;

verus! {

/// What a prefill on the backend gave.
pub struct DispatchPrefill {
    /// The keys and values of the prompt.
    pub kv: Vec<LayerKv>,
    /// Whether every layer is among them.
    pub complete: bool,
}

/// What a step on the backend gave.
pub struct DispatchStep {
    /// The keys and values of the new position, one row for each layer.
    pub rows: Vec<LayerKv>,
    /// Whether every layer is among them that was asked for.
    pub complete: bool,
}

/// The rows of each layer from `a` up to but not including `b`.
pub open spec fn layers_range(s: Seq<LayerGrid>, a: nat, b: nat) -> Seq<LayerGrid> {
    s.map_values(|l: LayerGrid| LayerGrid { k: l.k.row_range(a, b), v: l.v.row_range(a, b) })
}

/// The layers with rows of zeros added up to `rows` rows.
pub open spec fn layers_padded(s: Seq<LayerGrid>, rows: nat) -> Seq<LayerGrid> {
    s.map_values(
        |l: LayerGrid| LayerGrid { k: l.k.padded_to(rows), v: l.v.padded_to(rows) },
    )
}

/// The layers with row `r` replaced by the rows handed in; a layer for which
/// none was handed in stays as it is.
pub open spec fn layers_with_row(s: Seq<LayerGrid>, r: nat, rows: Seq<LayerGrid>) -> Seq<
    LayerGrid,
> {
    Seq::new(
        s.len(),
        |i: int|
            if i < rows.len() {
                LayerGrid {
                    k: s[i].k.with_row(r, rows[i].k.data),
                    v: s[i].v.with_row(r, rows[i].v.data),
                }
            } else {
                s[i]
            },
    )
}

/// The greater of two numbers.
pub open spec fn greater(a: nat, b: nat) -> nat {
    if a > b {
        a
    } else {
        b
    }
}

/// The layers hold one row for each of `n` positions, and room for `cap` rows
/// of them fits in a machine word.
pub open spec fn prompt_layers(s: Seq<LayerGrid>, n: nat, cap: nat) -> bool {
    forall|i: int|
        0 <= i < s.len() ==> (#[trigger] s[i]).k.wf() && s[i].v.wf() && s[i].k.rows == n
            && s[i].v.rows == n && cap * s[i].k.cols <= usize::MAX && cap * s[i].v.cols
            <= usize::MAX
}

/// The rows handed in are as wide as the layers that they are written to.
pub open spec fn rows_fit(s: Seq<LayerGrid>, rows: Seq<LayerGrid>, r: nat) -> bool {
    forall|i: int|
        0 <= i < s.len() ==> (#[trigger] s[i]).k.rows > r && s[i].v.rows > r && (i < rows.len()
            ==> rows[i].k.data.len() == s[i].k.cols && rows[i].v.data.len() == s[i].v.cols)
}

impl WindowState {
    /// A prefill with `n` tokens needs the prompt's keys and values: for the
    /// copy, or for the checkpoint of a window that it fills.
    pub open spec fn reads_prompt(self, n: nat, drop_copy: bool) -> bool {
        !drop_copy || self.windows_filled(n) > 0
    }

    /// The windows that a prompt fills leave less than a window of it.
    proof fn windows_fit(self, n: nat)
        ensures
            self.windows_filled(n) * self.window_size <= n,
            self.window_size > 0 ==> n - self.windows_filled(n) * self.window_size
                < self.window_size,
    {
        if self.window_size > 0 {
            let q = n / self.window_size;
            lemma_fundamental_div_mod(n as int, self.window_size as int);
            assert(q * self.window_size == self.window_size * q) by (nonlinear_arith);
        } else {
            assert(0 * self.window_size == 0) by (nonlinear_arith);
        }
    }

    /// How many windows a prompt of `n` tokens fills.
    pub open spec fn windows_filled(self, n: nat) -> nat {
        if self.window_size == 0 {
            0
        } else {
            n / self.window_size
        }
    }

    /// The state after the first `j` windows that the prompt fills have been
    /// closed; `kv` are the keys and values of the whole prompt.
    pub open spec fn prompt_closed(
        self,
        prompt: Seq<u32>,
        kv: Seq<LayerGrid>,
        j: nat,
    ) -> WindowState
        decreases j,
    {
        if j == 0 {
            WindowState { tokens: Seq::empty(), kv: None, kv_len: 0, has_handle: true, ..self }
        } else {
            let s = self.prompt_closed(prompt, kv, (j - 1) as nat);
            let a = (j - 1) * self.window_size;
            let b = (j * self.window_size) as int;
            WindowState { tokens: prompt.subrange(a, b), ..s }.closed(last_rows(kv, b as nat))
        }
    }

    /// The state after a prefill on the backend with the prompt `tokens`: the
    /// windows that it fills are closed, and what is left of it is the current
    /// window.
    pub open spec fn prefilled(
        self,
        tokens: Seq<u32>,
        kv: Seq<LayerGrid>,
        drop_copy: bool,
    ) -> WindowState {
        let filled = self.windows_filled(tokens.len());
        let start = filled * self.window_size;
        let rest = (tokens.len() - start) as nat;
        WindowState {
            tokens: tokens.skip(start as int),
            kv: if drop_copy {
                None
            } else {
                Some(
                    layers_padded(
                        layers_range(kv, start, tokens.len()),
                        greater(self.window_size, rest),
                    ),
                )
            },
            kv_len: rest,
            ..self.prompt_closed(tokens, kv, filled)
        }
    }

    /// The state after a step on the backend, before the window may be closed.
    pub open spec fn stepped(self, token: u32, rows: Seq<LayerGrid>) -> WindowState {
        WindowState {
            tokens: self.tokens.push(token),
            kv: match self.kv {
                Some(kv) => Some(layers_with_row(kv, self.kv_len, rows)),
                None => None,
            },
            kv_len: self.kv_len + 1,
            ..self
        }
    }

    /// The state after a step on the backend; the window is closed if that
    /// fills it.
    pub open spec fn stepped_and_closed(
        self,
        token: u32,
        rows: Seq<LayerGrid>,
        read_back: Seq<LayerGrid>,
    ) -> WindowState {
        let s = self.stepped(token, rows);
        if s.tokens.len() >= s.window_size {
            s.after_close(read_back)
        } else {
            s
        }
    }
}

impl WindowState {
    /// The state after a step on the backend gave `outcome`, and whether the
    /// step was taken up.  A step that lacks a layer ends the use of the
    /// backend's keys and values.
    pub open spec fn after_dispatch(
        self,
        token: u32,
        outcome: Option<DispatchStep>,
        read_back: Seq<LayerGrid>,
    ) -> (WindowState, bool) {
        match outcome {
            Some(p) => if !self.has_handle {
                (self, false)
            } else if p.complete {
                (self.stepped_and_closed(token, layer_grids(p.rows@), read_back), true)
            } else {
                (WindowState { has_handle: false, ..self }, false)
            },
            None => (self, false),
        }
    }
}

/// The rows of the layers from `start` on, with room for `cap` rows.
fn pad_layers(kv: &Vec<LayerKv>, start: usize, n: usize, cap: usize) -> (r: Vec<LayerKv>)
    requires
        prompt_layers(layer_grids(kv@), n as nat, cap as nat),
        start <= n,
        n - start <= cap,
    ensures
        layer_grids(r@) == layers_padded(
            layers_range(layer_grids(kv@), start as nat, n as nat),
            cap as nat,
        ),
        has_rows(layer_grids(r@), (n - start) as nat),
{
    let ghost all = layer_grids(kv@);
    let ghost want = layers_padded(layers_range(all, start as nat, n as nat), cap as nat);
    let mut out: Vec<LayerKv> = Vec::new();
    let mut i: usize = 0;
    assert(layer_grids(out@) =~= want.take(0));
    while i < kv.len()
        invariant
            0 <= i <= kv.len(),
            start <= n,
            n - start <= cap,
            all == layer_grids(kv@),
            want == layers_padded(layers_range(all, start as nat, n as nat), cap as nat),
            prompt_layers(all, n as nat, cap as nat),
            layer_grids(out@) == want.take(i as int),
            has_rows(layer_grids(out@), (n - start) as nat),
        decreases kv.len() - i,
    {
        let ghost before = out@;
        let l = &kv[i];
        assert(all[i as int] == l@);
        let layer = LayerKv {
            k: l.k.row_slice(start, n).padded(cap),
            v: l.v.row_slice(start, n).padded(cap),
        };
        let ghost view = layer@;
        out.push(layer);
        i += 1;
        assert(layer_grids(out@) =~= layer_grids(before).push(view));
        assert(want.take(i as int) =~= want.take(i - 1).push(view));
    }
    assert(want.take(i as int) =~= want);
    out
}

/// Writes row `r` of each layer for which a row is handed in.
fn write_rows(kv: &mut Vec<LayerKv>, r: usize, rows: &Vec<LayerKv>)
    requires
        has_rows(layer_grids(old(kv)@), r as nat),
        rows_fit(layer_grids(old(kv)@), layer_grids(rows@), r as nat),
    ensures
        layer_grids(final(kv)@) == layers_with_row(
            layer_grids(old(kv)@),
            r as nat,
            layer_grids(rows@),
        ),
        has_rows(layer_grids(final(kv)@), (r + 1) as nat),
{
    let ghost all = layer_grids(kv@);
    let ghost new = layer_grids(rows@);
    let ghost want = layers_with_row(all, r as nat, new);
    let mut i: usize = 0;
    assert(layer_grids(kv@) =~= all);
    while i < kv.len() && i < rows.len()
        invariant
            0 <= i <= kv@.len(),
            i <= rows@.len(),
            kv@.len() == all.len(),
            new == layer_grids(rows@),
            want == layers_with_row(all, r as nat, new),
            has_rows(all, r as nat),
            rows_fit(all, new, r as nat),
            forall|j: int| 0 <= j < i ==> (#[trigger] kv@[j])@ == want[j],
            forall|j: int| i <= j < all.len() ==> (#[trigger] kv@[j])@ == all[j],
        decreases kv.len() - i,
    {
        let ghost before = kv@;
        assert(before[i as int]@ == all[i as int]);
        assert(all[i as int].k.rows > r);
        let mut layer = LayerKv {
            k: Matrix { rows: 0, cols: 0, data: Vec::new() },
            v: Matrix { rows: 0, cols: 0, data: Vec::new() },
        };
        std::mem::swap(&mut layer, &mut kv[i]);
        assert(new[i as int] == rows@[i as int]@);
        layer.k.set_row(r, &rows[i].k.data);
        layer.v.set_row(r, &rows[i].v.data);
        std::mem::swap(&mut layer, &mut kv[i]);
        i += 1;
    }
    assert(layer_grids(kv@) =~= want);
    assert forall|j: int| 0 <= j < want.len() implies (#[trigger] want[j]).k.wf() && want[j].v.wf()
        && want[j].k.rows >= r + 1 && want[j].v.rows >= r + 1 by {
        assert(all[j].k.wf() && all[j].k.rows > r);
    }
}

impl UnlimitedContextEngine {
    /// Whether the next step on the backend is asked for no keys and values:
    /// the engine keeps no copy, and is allowed not to.
    pub fn wants_state_only(&self, may_drop_copy: bool) -> (r: bool)
        ensures
            r == (self@.kv is None && may_drop_copy),
    {
        self.current_window_kv.is_none() && may_drop_copy
    }

    /// The position of the token that the next step on the backend takes.
    pub fn step_position(&self) -> (r: usize)
        requires
            self@.wf(),
        ensures
            r == self@.abs_offset + self@.tokens.len(),
    {
        self.abs_offset + self.current_window_tokens.len()
    }

    /// Takes up a prefill on the backend, where it supports one and gave one
    /// with every layer.  The windows that the prompt fills are closed.  Gives
    /// whether it was taken up.
    pub fn try_prefill_via_dispatch(
        &mut self,
        supported: bool,
        outcome: Option<DispatchPrefill>,
        tokens: &[u32],
        drop_copy: bool,
    ) -> (taken: bool)
        requires
            old(self)@.wf(),
            old(self)@.abs_offset + tokens@.len() <= usize::MAX,
            (outcome matches Some(p) && p.complete && supported && old(self)@.reads_prompt(
                tokens@.len(),
                drop_copy,
            )) ==> prompt_layers(
                layer_grids(outcome->Some_0.kv@),
                tokens@.len(),
                greater(old(self)@.window_size, tokens@.len()),
            ),
        ensures
            final(self)@.wf(),
            taken == (supported && (outcome matches Some(p) && p.complete)),
            final(self)@ == (if taken {
                old(self)@.prefilled(tokens@, layer_grids(outcome->Some_0.kv@), drop_copy)
            } else {
                old(self)@
            }),
            taken && old(self)@.window_size > 0 ==> final(self)@.tokens.len()
                < final(self)@.window_size,
    {
        if !supported {
            return false;
        }
        let prefill = match outcome {
            Some(p) => p,
            None => return false,
        };
        if !prefill.complete {
            return false;
        }
        let ghost s = self@;
        let ghost kv = layer_grids(prefill.kv@);
        let n: usize = tokens.len();
        let w: usize = self.window_size;
        let filled: usize = if w == 0 {
            0
        } else {
            n / w
        };
        proof {
            s.windows_fit(n as nat);
        }
        self.current_window_kv = None;
        self.current_window_kv_len = 0;
        self.current_window_tokens = Vec::new();
        self.has_handle = true;
        proof {
            let t = s.prompt_closed(tokens@, kv, 0);
            assert(self@.tokens =~= t.tokens);
            assert(self@ =~= t);
            assert forall|k: int| 0 <= k < s.archive.len() implies t.window_placed(k) by {
                assert(s.window_placed(k));
            }
        }
        let mut j: usize = 0;
        let mut start: usize = 0;
        while j < filled
            invariant
                0 <= j <= filled,
                w == s.window_size,
                filled == s.windows_filled(n as nat),
                n == tokens@.len(),
                start == j * w,
                filled * w <= n,
                s.abs_offset + n <= usize::MAX,
                kv == layer_grids(prefill.kv@),
                filled > 0 ==> w > 0 && prompt_layers(kv, n as nat, greater(w as nat, n as nat)),
                self@ == s.prompt_closed(tokens@, kv, j as nat),
                self@.wf(),
                self@.abs_offset == s.abs_offset + start,
                self@.window_size == w,
                self@.has_handle,
                self@.kv is None,
            decreases filled - j,
        {
            let ghost before = self@;
            proof {
                assert((j + 1) * w <= filled * w && (j + 1) * w == j * w + w) by (nonlinear_arith)
                    requires
                        j < filled,
                ;
                assert(has_rows(kv, ((j + 1) * w) as nat)) by {
                    assert forall|i: int| 0 <= i < kv.len() implies (#[trigger] kv[i]).k.wf()
                        && kv[i].v.wf() && kv[i].k.rows >= (j + 1) * w && kv[i].v.rows >= (j + 1)
                        * w by {}
                }
            }
            let end: usize = start + w;
            let last = take_last_rows(&prefill.kv, end);
            let window = vstd::slice::slice_subrange(tokens, start, end);
            self.current_window_tokens = vstd::slice::slice_to_vec(window);
            self.current_window_kv_len = w;
            proof {
                let t = WindowState {
                    tokens: tokens@.subrange(start as int, end as int),
                    kv_len: w as nat,
                    ..before
                };
                assert(self@.tokens =~= t.tokens);
                assert(self@ =~= t);
                assert forall|k: int| 0 <= k < before.archive.len() implies t.window_placed(k) by {
                    assert(before.window_placed(k));
                }
            }
            self.close_window(last);
            j += 1;
            start = end;
        }
        let ghost closed = self@;
        if !drop_copy {
            let cap: usize = if w > n - start {
                w
            } else {
                n - start
            };
            proof {
                assert forall|i: int| 0 <= i < kv.len() implies (#[trigger] kv[i]).k.wf()
                    && kv[i].v.wf() && kv[i].k.rows == n && kv[i].v.rows == n && cap
                    * kv[i].k.cols <= usize::MAX && cap * kv[i].v.cols <= usize::MAX by {
                    let most = greater(w as nat, n as nat);
                    let (a, b) = (kv[i].k.cols, kv[i].v.cols);
                    assert(cap * a <= most * a && cap * b <= most * b) by (nonlinear_arith)
                        requires
                            cap <= most,
                    ;
                }
            }
            self.current_window_kv = Some(pad_layers(&prefill.kv, start, n, cap));
        }
        self.current_window_kv_len = n - start;
        self.current_window_tokens = vstd::slice::slice_to_vec(
            vstd::slice::slice_subrange(tokens, start, n),
        );
        proof {
            let t = s.prefilled(tokens@, kv, drop_copy);
            assert(self@.tokens =~= t.tokens);
            assert(self@ =~= t);
            assert forall|k: int| 0 <= k < closed.archive.len() implies self@.window_placed(k) by {
                assert(closed.window_placed(k));
            }
        }
        true
    }

    /// Takes up a step on the backend.  Nothing happens without a prefill on
    /// the backend before it or where the backend gave nothing; a step that
    /// lacks a layer ends the use of the backend's keys and values.  Gives
    /// whether the step was taken up.
    pub fn decode_step_via_dispatch(
        &mut self,
        token_id: u32,
        may_drop_copy: bool,
        outcome: Option<DispatchStep>,
        read_back: Vec<LayerKv>,
    ) -> (taken: bool)
        requires
            old(self)@.wf(),
            old(self)@.abs_offset + old(self)@.tokens.len() < usize::MAX,
            old(self)@.kv_len < usize::MAX,
            (outcome matches Some(p) && p.complete && old(self)@.has_handle) ==> match old(
                self,
            )@.kv {
                Some(kv) => rows_fit(
                    kv,
                    layer_grids(outcome->Some_0.rows@),
                    old(self)@.kv_len,
                ),
                None => may_drop_copy,
            },
        ensures
            final(self)@.wf(),
            (final(self)@, taken) == old(self)@.after_dispatch(
                token_id,
                outcome,
                layer_grids(read_back@),
            ),
    {
        let ghost s = self@;
        if !self.has_handle {
            return false;
        }
        let step = match outcome {
            Some(p) => p,
            None => return false,
        };
        if !step.complete {
            self.has_handle = false;
            proof {
                assert(self@ =~= (WindowState { has_handle: false, ..s }));
                assert forall|k: int| 0 <= k < s.archive.len() implies self@.window_placed(k) by {
                    assert(s.window_placed(k));
                }
            }
            return false;
        }
        let pos: usize = self.current_window_kv_len;
        let kept = self.current_window_kv.take();
        match kept {
            Some(kv) => {
                let mut kv = kv;
                write_rows(&mut kv, pos, &step.rows);
                self.current_window_kv = Some(kv);
            },
            None => {},
        }
        self.current_window_kv_len = pos + 1;
        self.current_window_tokens.push(token_id);
        proof {
            let t = s.stepped(token_id, layer_grids(step.rows@));
            assert(self@ =~= t);
            assert forall|k: int| 0 <= k < s.archive.len() implies self@.window_placed(k) by {
                assert(s.window_placed(k));
            }
        }
        if self.current_window_tokens.len() >= self.window_size {
            self.close_window(read_back);
        }
        true
    }
}

/// A step on the backend adds its token behind those that were fed in.
pub proof fn step_adds_token(
    s: WindowState,
    token: u32,
    rows: Seq<LayerGrid>,
    read_back: Seq<LayerGrid>,
)
    ensures
        s.stepped_and_closed(token, rows, read_back).fed() == s.fed().push(token),
{
    let t = s.stepped(token, rows);
    assert(t.fed() =~= s.fed().push(token));
    if t.kv is Some {
        closing_keeps_tokens(
            t,
            last_rows(t.kv->Some_0, t.kv_len),
        );
    } else {
        closing_keeps_tokens(t, Seq::empty());
        closing_keeps_tokens(t, read_back);
    }
}

/// Each window that a prefill on the backend closes holds exactly the window
/// size, and the windows before it stay.
pub proof fn prefill_fills_windows(
    s: WindowState,
    prompt: Seq<u32>,
    kv: Seq<LayerGrid>,
    drop_copy: bool,
)
    requires
        s.window_size > 0,
    ensures
        ({
            let end = s.prefilled(prompt, kv, drop_copy);
            &&& end.tokens.len() < end.window_size
            &&& end.window_size == s.window_size
            &&& end.archive.len() == s.archive.len() + prompt.len() / s.window_size
            &&& forall|i: int|
                s.archive.len() <= i < end.archive.len() ==> (#[trigger] end.archive[i]).0.len()
                    == s.window_size
            &&& forall|i: int|
                0 <= i < s.archive.len() ==> #[trigger] end.archive[i] == s.archive[i]
        }),
{
    s.windows_fit(prompt.len());
    prompt_windows(s, prompt, kv, s.windows_filled(prompt.len()));
}

/// A prefill on the backend adds the prompt behind the tokens that were fed
/// in, where the current window is empty.
pub proof fn prefill_adds_tokens(
    s: WindowState,
    prompt: Seq<u32>,
    kv: Seq<LayerGrid>,
    drop_copy: bool,
)
    requires
        s.tokens.len() == 0,
    ensures
        s.prefilled(prompt, kv, drop_copy).fed() == s.fed() + prompt,
{
    let q = s.windows_filled(prompt.len());
    let start = (q * s.window_size) as int;
    s.windows_fit(prompt.len());
    prompt_windows(s, prompt, kv, q);
    let c = s.prompt_closed(prompt, kv, q);
    let end = s.prefilled(prompt, kv, drop_copy);
    assert(c.fed() == crate::kv::unlimited_context::all_tokens(c.archive) + c.tokens);
    assert(end.fed() =~= c.fed() + prompt.skip(start));
    assert(s.fed() + prompt.take(start) + prompt.skip(start) =~= s.fed() + prompt);
}

/// The first `j` windows of a prompt, once they are closed.
proof fn prompt_windows(s: WindowState, prompt: Seq<u32>, kv: Seq<LayerGrid>, j: nat)
    requires
        j * s.window_size <= prompt.len(),
    ensures
        ({
            let c = s.prompt_closed(prompt, kv, j);
            &&& c.tokens.len() == 0
            &&& c.window_size == s.window_size
            &&& c.archive.len() == s.archive.len() + j
            &&& forall|i: int|
                s.archive.len() <= i < c.archive.len() ==> (#[trigger] c.archive[i]).0.len()
                    == s.window_size
            &&& forall|i: int|
                0 <= i < s.archive.len() ==> #[trigger] c.archive[i] == s.archive[i]
            &&& s.tokens.len() == 0 ==> c.fed() == s.fed() + prompt.take(
                (j * s.window_size) as int,
            )
        }),
    decreases j,
{
    let w = s.window_size;
    if j == 0 {
        assert(j * w == 0) by (nonlinear_arith)
            requires
                j == 0,
        ;
        assert(s.tokens.len() == 0 ==> s.tokens =~= Seq::empty());
        assert(s.fed() + prompt.take(0) =~= s.fed());
    } else {
        let a = (j - 1) * w;
        let b = (j * w) as int;
        assert(0 <= a <= b && b - a == w) by (nonlinear_arith)
            requires
                a == (j - 1) * w,
                b == j * w,
                j >= 1,
        ;
        prompt_windows(s, prompt, kv, (j - 1) as nat);
        let c = s.prompt_closed(prompt, kv, (j - 1) as nat);
        let t = WindowState { tokens: prompt.subrange(a, b), ..c };
        closing_keeps_tokens(t, last_rows(kv, b as nat));
        assert(t.fed() =~= c.fed() + prompt.subrange(a, b));
        assert(prompt.take(a) + prompt.subrange(a, b) =~= prompt.take(b));
        if s.tokens.len() == 0 {
            assert(s.fed() + prompt.take(a) + prompt.subrange(a, b) =~= s.fed() + prompt.take(b));
        }
    }
}

/// Closing one window more of a prompt is closing its first window, and then
/// the others of what is left of it.
proof fn first_window_first(
    s: WindowState,
    next: WindowState,
    prompt: Seq<u32>,
    kv: Seq<LayerGrid>,
    rest_kv: Seq<LayerGrid>,
    j: nat,
)
    requires
        s.window_size > 0,
        (j + 1) * s.window_size <= prompt.len(),
        next.window_size == s.window_size,
        next.archive == s.archive.push((prompt.take(s.window_size as int), s.abs_offset)),
        next.abs_offset == s.abs_offset + s.window_size,
    ensures
        ({
            let a = s.prompt_closed(prompt, kv, j + 1);
            let b = next.prompt_closed(prompt.skip(s.window_size as int), rest_kv, j);
            a.archive == b.archive && a.abs_offset == b.abs_offset
        }),
    decreases j,
{
    let w = s.window_size;
    let rest = prompt.skip(w as int);
    let from = j * w;
    let to = (j + 1) * w;
    assert(to == from + w && 0 <= from) by (nonlinear_arith)
        requires
            from == j * w,
            to == (j + 1) * w,
    ;
    let before = s.prompt_closed(prompt, kv, j);
    assert(s.prompt_closed(prompt, kv, j + 1) == WindowState {
        tokens: prompt.subrange(from as int, to as int),
        ..before
    }.closed(last_rows(kv, to as nat)));
    if j == 0 {
        assert(prompt.subrange(0, w as int) =~= prompt.take(w as int));
    } else {
        first_window_first(s, next, prompt, kv, rest_kv, (j - 1) as nat);
        let a = (j - 1) * w;
        assert(a == from - w) by (nonlinear_arith)
            requires
                from == j * w,
                a == (j - 1) * w,
        ;
        assert(rest.subrange(a, from as int) =~= prompt.subrange(from as int, to as int));
    }
}

/// A prefill on the backend leaves the tokens where going through the layers
/// leaves them: the same windows are closed, and the same tokens are in the
/// current one.
pub proof fn prefill_is_like_processing(
    s: WindowState,
    tokens: Seq<u32>,
    results: Seq<Option<Seq<LayerGrid>>>,
    kv: Seq<LayerGrid>,
    drop_copy: bool,
)
    requires
        s.window_size > 0,
        s.tokens.len() == 0,
        processed(s, tokens, results).1,
    ensures
        ({
            let a = s.prefilled(tokens, kv, drop_copy);
            let b = processed(s, tokens, results).0;
            a.archive == b.archive && a.tokens == b.tokens && a.abs_offset == b.abs_offset
        }),
    decreases tokens.len(),
{
    let w = s.window_size;
    let n = tokens.len();
    let q = s.windows_filled(n);
    let a = s.prefilled(tokens, kv, drop_copy);
    s.windows_fit(n);
    lemma_fundamental_div_mod(n as int, w as int);
    if n < w {
        assert(q == 0) by (nonlinear_arith)
            requires
                q == n / w,
                n < w,
                0 <= n,
                w > 0,
        ;
        assert(q * w == 0) by (nonlinear_arith)
            requires
                q == 0,
        ;
        assert(tokens.skip(0) =~= tokens);
        assert(s.tokens =~= Seq::empty());
        if n > 0 {
            assert(tokens.take(n as int) =~= tokens);
            assert(s.tokens + tokens =~= tokens);
            let end = s.extended(tokens, results[0]->Some_0);
            assert(tokens.skip(n as int) =~= Seq::empty());
            assert(processed(s, tokens, results) == processed(
                end,
                tokens.skip(n as int),
                results.skip(1),
            ));
        }
    } else {
        let first = tokens.take(w as int);
        let rest = tokens.skip(w as int);
        let next = s.extended(first, results[0]->Some_0);
        assert(s.tokens + first =~= first);
        prefill_is_like_processing(next, rest, results.skip(1), kv, drop_copy);
        assert(q >= 1 && rest.len() / w == q - 1) by (nonlinear_arith)
            requires
                q == n / w,
                n >= w,
                w > 0,
                rest.len() == n - w,
        ;
        let j = (q - 1) as nat;
        assert(q * w == j * w + w) by (nonlinear_arith)
            requires
                q == j + 1,
        ;
        first_window_first(s, next, tokens, kv, kv, j);
        assert(rest.skip((j * w) as int) =~= tokens.skip((q * w) as int));
    }
}

} // verus!
