//! Going through a chunk of tokens with an executor: every token through every
//! layer, one after the other.
use vstd::prelude::*;

use vstd::arithmetic::div_mod::lemma_fundamental_div_mod_converse;

verus! {

/// What to ask of the executor next.
#[derive(Debug, Clone, Copy, PartialEq, Eq, Structural)]
pub enum WalkStep {
    /// Run one layer for one token of the chunk.
    Run { token: usize, layer: usize, abs_position: usize },
    /// Every token has gone through every layer.
    Done,
    /// A layer failed, or there were not keys and values for every layer.
    Failed,
}

/// A walk under way: `token` tokens have gone through all layers, and the next
/// one through `layer` of them.
pub struct ChunkWalk {
    pub chunk_len: usize,
    pub num_layers: usize,
    pub abs_start: usize,
    pub token: usize,
    pub layer: usize,
    pub failed: bool,
}

impl ChunkWalk {
    /// The next layer is one of the layers, the next token one of the chunk,
    /// and the position of every token fits in a machine word.
    pub open spec fn wf(&self) -> bool {
        &&& self.token <= self.chunk_len
        &&& self.token < self.chunk_len ==> self.layer < self.num_layers
        &&& self.token == self.chunk_len ==> self.layer == 0
        &&& self.abs_start + self.chunk_len <= usize::MAX
    }

    /// How many layers have been run.
    pub open spec fn runs(&self) -> int {
        self.token * self.num_layers + self.layer
    }

    /// The same chunk on the same layers.
    pub open spec fn same_walk(&self, other: &ChunkWalk) -> bool {
        self.chunk_len == other.chunk_len && self.num_layers == other.num_layers
            && self.abs_start == other.abs_start
    }

    /// A walk over `chunk_len` tokens from position `abs_start`.  It fails at
    /// once where the keys and values it starts from are not those of
    /// `num_layers` layers; without layers there is nothing to run.
    pub fn start(
        prior_layers: usize,
        num_layers: usize,
        chunk_len: usize,
        abs_start: usize,
    ) -> (r: ChunkWalk)
        requires
            abs_start + chunk_len <= usize::MAX,
        ensures
            r.wf(),
            r.chunk_len == chunk_len && r.num_layers == num_layers && r.abs_start == abs_start,
            r.failed == (prior_layers != num_layers),
            r.layer == 0,
            r.token == (if num_layers == 0 {
                chunk_len
            } else {
                0
            }),
    {
        ChunkWalk {
            chunk_len,
            num_layers,
            abs_start,
            token: if num_layers == 0 {
                chunk_len
            } else {
                0
            },
            layer: 0,
            failed: prior_layers != num_layers,
        }
    }

    /// What to ask of the executor next: the tokens come in their order, each
    /// goes through the layers in their order, at its own position.
    pub fn next_step(&self) -> (r: WalkStep)
        requires
            self.wf(),
        ensures
            r == (if self.failed {
                WalkStep::Failed
            } else if self.token == self.chunk_len {
                WalkStep::Done
            } else {
                WalkStep::Run {
                    token: self.token,
                    layer: self.layer,
                    abs_position: (self.abs_start + self.token) as usize,
                }
            }),
    {
        if self.failed {
            WalkStep::Failed
        } else if self.token == self.chunk_len {
            WalkStep::Done
        } else {
            WalkStep::Run {
                token: self.token,
                layer: self.layer,
                abs_position: self.abs_start + self.token,
            }
        }
    }

    /// Takes up whether the layer could be run.
    pub fn ran(&mut self, ok: bool)
        requires
            old(self).wf(),
            !old(self).failed,
            old(self).token < old(self).chunk_len,
        ensures
            final(self).wf(),
            final(self).same_walk(old(self)),
            final(self).failed == !ok,
            final(self).runs() == old(self).runs() + (if ok {
                1int
            } else {
                0
            }),
            !ok ==> final(self).token == old(self).token && final(self).layer == old(self).layer,
    {
        if !ok {
            self.failed = true;
            return;
        }
        let ghost t = self.token as int;
        let ghost n = self.num_layers as int;
        if self.layer + 1 == self.num_layers {
            assert((t + 1) * n == t * n + n) by (nonlinear_arith);
            self.token = self.token + 1;
            self.layer = 0;
        } else {
            self.layer = self.layer + 1;
        }
    }
}

/// The run with number `n` is that of layer `n % num_layers` for token
/// `n / num_layers`: every layer is run exactly once for every token, token by
/// token.
pub proof fn runs_in_order(w: ChunkWalk)
    requires
        w.wf(),
        w.num_layers > 0,
    ensures
        w.token == w.runs() / w.num_layers as int,
        w.layer == w.runs() % w.num_layers as int,
        w.runs() <= w.chunk_len * w.num_layers,
        w.runs() == w.chunk_len * w.num_layers <==> w.token == w.chunk_len,
{
    let (t, l, n, c) = (w.token as int, w.layer as int, w.num_layers as int, w.chunk_len as int);
    lemma_fundamental_div_mod_converse(w.runs(), n, t, l);
    if t < c {
        assert(t * n + l < c * n) by (nonlinear_arith)
            requires
                t + 1 <= c,
                l < n,
                n > 0,
        ;
    }
}

} // verus!
