//! Going through the layers of a model with a cache of keys and values.
//!
//! What a layer's attention computes is handed in; which entries of the cache
//! change, and where the next token stands, is decided here.
use vstd::prelude::*;

verus! {

/// The keys and values of each layer, of type `E`, and the position of the
/// next token.
pub struct KvCache<E> {
    pub layers: Vec<Option<E>>,
    pub next_position: usize,
}

/// What a [`KvCache`] holds, as plain values.
#[verifier::ext_equal]
pub struct CacheView<E> {
    pub layers: Seq<Option<E>>,
    pub next_position: nat,
}

impl<E> View for KvCache<E> {
    type V = CacheView<E>;

    open spec fn view(&self) -> CacheView<E> {
        CacheView { layers: self.layers@, next_position: self.next_position as nat }
    }
}

/// The empty cache of a model with `n` layers.
pub open spec fn no_entries<E>(n: nat) -> CacheView<E> {
    CacheView { layers: Seq::new(n, |i: int| None), next_position: 0 }
}

/// Where a run through the layers stands.
#[derive(Debug, Clone, Copy, PartialEq, Eq, Structural)]
pub enum RunStep {
    /// This layer is next.
    Layer(usize),
    /// All layers are done.
    Done,
    /// A layer's attention failed.
    Failed,
}

/// The cache and the step after a layer's attention gave `entry`, or failed.
/// Behind the last layer the next token stands `advance` further.
pub open spec fn after_layer<E>(
    c: CacheView<E>,
    layer: nat,
    entry: Option<E>,
    next_position: nat,
) -> (CacheView<E>, RunStep) {
    match entry {
        None => (c, RunStep::Failed),
        Some(e) => {
            let layers = c.layers.update(layer as int, Some(e));
            if layer + 1 < c.layers.len() {
                (CacheView { layers, ..c }, RunStep::Layer((layer + 1) as usize))
            } else {
                (CacheView { layers, next_position }, RunStep::Done)
            }
        },
    }
}

/// The cache and the step after the attention of layer `layer` and of those
/// behind it.
pub open spec fn after_layers<E>(
    c: CacheView<E>,
    layer: nat,
    entries: Seq<Option<E>>,
    next_position: nat,
) -> (CacheView<E>, RunStep)
    decreases entries.len(),
{
    if entries.len() == 0 {
        (c, RunStep::Layer(layer as usize))
    } else {
        let (d, step) = after_layer(c, layer, entries[0], next_position);
        match step {
            RunStep::Layer(_) => after_layers(d, layer + 1, entries.skip(1), next_position),
            _ => (d, step),
        }
    }
}

/// A run in which every layer's attention succeeds fills every layer from
/// `layer` on and moves the next position; the layers before it stay.
pub proof fn run_fills<E>(
    c: CacheView<E>,
    layer: nat,
    entries: Seq<Option<E>>,
    next_position: nat,
)
    requires
        layer < c.layers.len() <= usize::MAX,
        entries.len() == c.layers.len() - layer,
        forall|i: int| 0 <= i < entries.len() ==> (#[trigger] entries[i]) is Some,
    ensures
        after_layers(c, layer, entries, next_position) == (
            CacheView { layers: c.layers.take(layer as int) + entries, next_position },
            RunStep::Done,
        ),
    decreases entries.len(),
{
    let (d, step) = after_layer(c, layer, entries[0], next_position);
    let rest = entries.skip(1);
    if layer + 1 < c.layers.len() {
        assert forall|i: int| 0 <= i < rest.len() implies (#[trigger] rest[i]) is Some by {
            assert(rest[i] == entries[i + 1]);
        }
        run_fills(d, layer + 1, rest, next_position);
        assert(d.layers.take((layer + 1) as int) + rest =~= c.layers.take(layer as int) + entries);
    } else {
        assert(d.layers =~= c.layers.take(layer as int) + entries);
    }
}

/// A run that fails leaves the next position where it was.
pub proof fn failed_run_keeps_position<E>(
    c: CacheView<E>,
    layer: nat,
    entries: Seq<Option<E>>,
    next_position: nat,
)
    requires
        layer < c.layers.len() <= usize::MAX,
        after_layers(c, layer, entries, next_position).1 == RunStep::Failed,
    ensures
        after_layers(c, layer, entries, next_position).0.next_position == c.next_position,
    decreases entries.len(),
{
    if entries.len() > 0 {
        let (d, step) = after_layer(c, layer, entries[0], next_position);
        if step is Layer {
            failed_run_keeps_position(d, layer + 1, entries.skip(1), next_position);
        }
    }
}

/// The start of going one token on with a cache: the cache, where the run
/// stands, and the position of the next token once it is done.
pub open spec fn decode_started<E>(c: CacheView<E>) -> (CacheView<E>, RunStep, nat) {
    let next_position = c.next_position + 1;
    if c.layers.len() > 0 {
        (c, RunStep::Layer(0), next_position)
    } else {
        (CacheView { next_position, ..c }, RunStep::Done, next_position)
    }
}

/// Going one token on through all layers puts what each layer's attention gave
/// in its place and moves the next position by one.
pub proof fn step_moves_by_one<E>(c: CacheView<E>, entries: Seq<Option<E>>)
    requires
        0 < c.layers.len() <= usize::MAX,
        entries.len() == c.layers.len(),
        forall|i: int| 0 <= i < entries.len() ==> (#[trigger] entries[i]) is Some,
    ensures
        ({
            let (d, first, next) = decode_started(c);
            let (end, step) = after_layers(d, 0, entries, next);
            &&& first == RunStep::Layer(0)
            &&& step == RunStep::Done
            &&& end.layers == entries
            &&& end.next_position == c.next_position + 1
        }),
{
    run_fills(c, 0, entries, c.next_position + 1);
    assert(c.layers.take(0) + entries =~= entries);
}

/// A model without layers only moves on.
pub proof fn empty_step_moves_by_one<E>(c: CacheView<E>)
    requires
        c.layers.len() == 0,
    ensures
        decode_started(c).0.next_position == c.next_position + 1,
        decode_started(c).0.layers == c.layers,
        decode_started(c).1 == RunStep::Done,
{
}

/// Going over a prompt starts with the first layer and an empty cache and ends
/// behind the prompt; an empty prompt is not gone over.
pub proof fn prompt_run_ends_behind_prompt<E>(
    prompt_len: usize,
    num_layers: usize,
    r: Option<(LayerRun, KvCache<E>)>,
    entries: Seq<Option<E>>,
)
    requires
        call_ensures(LayerRun::kv_prefill_run::<E>, (prompt_len, num_layers), r),
        entries.len() == num_layers,
        forall|i: int| 0 <= i < entries.len() ==> (#[trigger] entries[i]) is Some,
    ensures
        r is None <==> prompt_len == 0,
        r matches Some((run, cache)) ==> {
            let (end, step) = if num_layers > 0 {
                after_layers(cache@, 0, entries, run.next_position as nat)
            } else {
                (cache@, run.step)
            };
            &&& num_layers > 0 ==> run.step == RunStep::Layer(0) && cache@.next_position == 0
            &&& step == RunStep::Done
            &&& end.layers == entries
            &&& end.next_position == prompt_len
        },
{
    if let Some((run, cache)) = r {
        if num_layers > 0 {
            run_fills(cache@, 0, entries, prompt_len as nat);
            assert(cache@.layers.take(0) + entries =~= entries);
        } else {
            assert(cache@.layers =~= entries);
        }
    }
}

/// A run through the layers.
pub struct LayerRun {
    pub step: RunStep,
    /// The position of the next token once the run is done.
    pub next_position: usize,
}

impl LayerRun {
    /// The layer that is next is there.
    pub open spec fn wf<E>(&self, c: CacheView<E>) -> bool {
        self.step matches RunStep::Layer(l) ==> l < c.layers.len()
    }

    /// Starts going over a prompt, with an empty cache.  Nothing for an empty
    /// prompt.
    pub fn kv_prefill_run<E>(prompt_len: usize, num_layers: usize) -> (r: Option<
        (LayerRun, KvCache<E>),
    >)
        ensures
            match r {
                None => prompt_len == 0,
                Some((run, cache)) => {
                    &&& prompt_len > 0
                    &&& run.wf(cache@)
                    &&& run.next_position == prompt_len
                    &&& if num_layers > 0 {
                        run.step == RunStep::Layer(0) && cache@ == no_entries::<E>(
                            num_layers as nat,
                        )
                    } else {
                        run.step == RunStep::Done && cache@ == (CacheView::<E> {
                            layers: Seq::empty(),
                            next_position: prompt_len as nat,
                        })
                    }
                },
            },
    {
        if prompt_len == 0 {
            return None;
        }
        let mut layers: Vec<Option<E>> = Vec::new();
        for i in 0..num_layers
            invariant
                layers@ == Seq::new(i as nat, |k: int| None::<E>),
        {
            layers.push(None);
            assert(layers@ =~= Seq::new((i + 1) as nat, |k: int| None::<E>));
        }
        let mut cache = KvCache { layers, next_position: 0 };
        if num_layers == 0 {
            cache.next_position = prompt_len;
            assert(cache@.layers =~= Seq::<Option<E>>::empty());
            return Some((LayerRun { step: RunStep::Done, next_position: prompt_len }, cache));
        }
        Some((LayerRun { step: RunStep::Layer(0), next_position: prompt_len }, cache))
    }

    /// Starts going one token on with a cache.
    pub fn kv_decode_step_run<E>(cache: &mut KvCache<E>) -> (r: LayerRun)
        requires
            old(cache).next_position < usize::MAX,
        ensures
            r.wf(final(cache)@),
            (final(cache)@, r.step, r.next_position as nat) == decode_started(old(cache)@),
    {
        let next_position: usize = cache.next_position + 1;
        if cache.layers.len() == 0 {
            cache.next_position = next_position;
            return LayerRun { step: RunStep::Done, next_position };
        }
        LayerRun { step: RunStep::Layer(0), next_position }
    }

    /// Takes up what the attention of the next layer gave.
    pub fn attended<E>(&mut self, cache: &mut KvCache<E>, entry: Option<E>)
        requires
            old(self).wf(old(cache)@),
        ensures
            final(self).wf(final(cache)@),
            final(self).next_position == old(self).next_position,
            match old(self).step {
                RunStep::Layer(l) => (final(cache)@, final(self).step) == after_layer(
                    old(cache)@,
                    l as nat,
                    entry,
                    old(self).next_position as nat,
                ),
                _ => final(cache)@ == old(cache)@ && final(self).step == old(self).step,
            },
    {
        match self.step {
            RunStep::Layer(l) => match entry {
                None => {
                    self.step = RunStep::Failed;
                },
                Some(e) => {
                    let count: usize = cache.layers.len();
                    cache.layers.set(l, Some(e));
                    if l + 1 < count {
                        self.step = RunStep::Layer(l + 1);
                    } else {
                        cache.next_position = self.next_position;
                        self.step = RunStep::Done;
                    }
                },
            },
            _ => {},
        }
    }
}

} // verus!
