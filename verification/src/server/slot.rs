//! A slot: one index known to the server, loaded when it is first asked for.
//!
//! A slot is `Discovered` when only its description is known, `Loading` while
//! somebody loads it, `Loaded` when its model is there and `Failed` when the
//! last attempt went wrong.  Whoever asks for a slot that nobody loads becomes
//! the one who loads it; everybody else waits for that one's result.
use vstd::prelude::*;

use crate::server::extract::ExtractLevel;
use crate::text::{concat, opt_text};

verus! {

/// Where a slot stands.
#[derive(Debug, Clone, Copy, PartialEq, Eq, Structural)]
pub enum SlotState {
    Discovered,
    Loading,
    Loaded,
    Failed,
}

/// How a slot is to be loaded.
#[derive(Debug, Clone)]
pub struct SlotLoadOpts {
    pub no_infer: bool,
    pub ffn_only: bool,
    pub embed_only: bool,
    pub layer_range: Option<(usize, usize)>,
    pub max_gate_cache_layers: usize,
    pub max_q4k_cache_layers: usize,
    pub hnsw: Option<usize>,
    pub warmup_hnsw: bool,
    pub release_mmap_after_request: bool,
    pub expert_filter: Option<(usize, usize)>,
    pub unit_filter: Option<Vec<(usize, usize)>>,
    /// Which of the host's remote backends the experts are asked of.
    pub moe_remote: Option<usize>,
}

/// The description of an index.
pub struct VindexConfig {
    /// The name of the model that the index was made of.
    pub model: String,
    pub num_layers: usize,
    pub hidden_size: usize,
    pub vocab_size: usize,
    /// The number of features of each layer.
    pub layers: Vec<usize>,
    pub extract_level: ExtractLevel,
}

/// One entry of a directory.
#[derive(Debug, Clone, Copy)]
pub struct DirEntry {
    pub is_file: bool,
    pub len: u64,
}

/// A slot's state with what belongs to it.
pub enum SlotInner<M> {
    Discovered,
    Loading,
    Loaded(M),
    Failed(String),
}

/// An index known to the server, and its model of type `M` once it is loaded.
pub struct ModelSlot<M> {
    pub id: String,
    pub path: String,
    pub config: VindexConfig,
    pub size_bytes: u64,
    pub opts: SlotLoadOpts,
    pub inner: SlotInner<M>,
    /// What is being done, while the slot is loading.
    pub load_progress: Option<String>,
}

/// A slot's state with what belongs to it, as plain values.
pub enum SlotPhase<M> {
    Discovered,
    Loading,
    Loaded(M),
    Failed(Seq<char>),
}

impl<M> View for SlotInner<M> {
    type V = SlotPhase<M>;

    open spec fn view(&self) -> SlotPhase<M> {
        match self {
            SlotInner::Discovered => SlotPhase::Discovered,
            SlotInner::Loading => SlotPhase::Loading,
            SlotInner::Loaded(m) => SlotPhase::Loaded(*m),
            SlotInner::Failed(e) => SlotPhase::Failed(e@),
        }
    }
}

/// What one who asks for a slot's model is to do.
#[derive(Debug, Clone, Copy, PartialEq, Eq, Structural)]
pub enum LoadStep {
    /// The model is there.
    Ready,
    /// Somebody loads it: wait for the result.
    Wait,
    /// Load it, and report the result.
    Own,
}

/// How a load ended.
pub enum LoadOutcome<M> {
    /// With a model.
    Model(M),
    /// With an error.
    Error(String),
    /// The task that loaded ended without a result.
    Panicked(String),
}

impl<M> SlotPhase<M> {
    /// The bare state.
    pub open spec fn state(self) -> SlotState {
        match self {
            SlotPhase::Discovered => SlotState::Discovered,
            SlotPhase::Loading => SlotState::Loading,
            SlotPhase::Loaded(_) => SlotState::Loaded,
            SlotPhase::Failed(_) => SlotState::Failed,
        }
    }

    /// What one who asks is to do.
    pub open spec fn step(self) -> LoadStep {
        match self {
            SlotPhase::Loaded(_) => LoadStep::Ready,
            SlotPhase::Loading => LoadStep::Wait,
            _ => LoadStep::Own,
        }
    }

    /// The phase after somebody asked.
    pub open spec fn asked(self) -> SlotPhase<M> {
        match self {
            SlotPhase::Loaded(_) => self,
            _ => SlotPhase::Loading,
        }
    }
}

/// What a load gives to those who wait for it: a model, or why there is none.
pub open spec fn load_result<M>(o: LoadOutcome<M>) -> Result<M, Seq<char>> {
    match o {
        LoadOutcome::Model(m) => Ok(m),
        LoadOutcome::Error(e) => Err(e@),
        LoadOutcome::Panicked(e) => Err("load task panicked: "@ + e@),
    }
}

/// The phase that a load leaves.
pub open spec fn phase_of_result<M>(r: Result<M, Seq<char>>) -> SlotPhase<M> {
    match r {
        Ok(m) => SlotPhase::Loaded(m),
        Err(e) => SlotPhase::Failed(e),
    }
}

/// Only one of those who ask loads the model: whoever asks next waits, until
/// the load has ended.
pub proof fn only_one_loads<M>(p: SlotPhase<M>)
    requires
        p.step() == LoadStep::Own,
    ensures
        p.asked().step() == LoadStep::Wait,
        p.asked().asked() == p.asked(),
{
}

/// Once a load has succeeded, whoever asks has the model, and the slot keeps
/// it.
pub proof fn loaded_stays<M>(m: M)
    ensures
        phase_of_result(Ok::<M, Seq<char>>(m)).step() == LoadStep::Ready,
        phase_of_result(Ok::<M, Seq<char>>(m)).asked() == SlotPhase::Loaded(m),
{
}

/// After a load that failed the next one who asks tries again.
pub proof fn failed_is_retried<M>(e: Seq<char>)
    ensures
        phase_of_result(Err::<M, Seq<char>>(e)).step() == LoadStep::Own,
        phase_of_result(Err::<M, Seq<char>>(e)).asked() == SlotPhase::<M>::Loading,
{
}

/// The sum of the lengths of the files among `entries`.
pub open spec fn size_of_files(entries: Seq<DirEntry>) -> nat
    decreases entries.len(),
{
    if entries.len() == 0 {
        0
    } else {
        size_of_files(entries.drop_last()) + if entries.last().is_file {
            entries.last().len as nat
        } else {
            0
        }
    }
}

/// Fewer entries never are larger.
proof fn size_of_files_grows(entries: Seq<DirEntry>, n: int)
    requires
        0 <= n <= entries.len(),
    ensures
        size_of_files(entries.take(n)) <= size_of_files(entries),
    decreases entries.len() - n,
{
    if n < entries.len() {
        size_of_files_grows(entries, n + 1);
        assert(entries.take(n + 1).drop_last() =~= entries.take(n));
    } else {
        assert(entries.take(n) =~= entries);
    }
}

/// The sum of the lengths of the files directly in a directory.
pub fn dir_size(entries: &Vec<DirEntry>) -> (r: u64)
    requires
        size_of_files(entries@) <= u64::MAX,
    ensures
        r == size_of_files(entries@),
{
    let mut total: u64 = 0;
    for i in 0..entries.len()
        invariant
            total == size_of_files(entries@.take(i as int)),
            size_of_files(entries@) <= u64::MAX,
    {
        proof {
            size_of_files_grows(entries@, i + 1);
            assert(entries@.take(i + 1).drop_last() =~= entries@.take(i as int));
        }
        let entry = entries[i];
        if entry.is_file {
            total = total + entry.len;
        }
    }
    assert(entries@.take(entries@.len() as int) =~= entries@);
    total
}

impl SlotLoadOpts {
    /// Nothing is restricted and nothing is cached.
    pub open spec fn plain(self) -> bool {
        &&& !self.no_infer
        &&& !self.ffn_only
        &&& !self.embed_only
        &&& self.layer_range is None
        &&& self.max_gate_cache_layers == 0
        &&& self.max_q4k_cache_layers == 0
        &&& self.hnsw is None
        &&& !self.warmup_hnsw
        &&& !self.release_mmap_after_request
        &&& self.expert_filter is None
        &&& self.unit_filter is None
        &&& self.moe_remote is None
    }
}

impl Default for SlotLoadOpts {
    fn default() -> (r: SlotLoadOpts)
        ensures
            r.plain(),
    {
        SlotLoadOpts {
            no_infer: false,
            ffn_only: false,
            embed_only: false,
            layer_range: None,
            max_gate_cache_layers: 0,
            max_q4k_cache_layers: 0,
            hnsw: None,
            warmup_hnsw: false,
            release_mmap_after_request: false,
            expert_filter: None,
            unit_filter: None,
            moe_remote: None,
        }
    }
}

impl<M> ModelSlot<M> {
    /// A slot of which only the description is known.
    pub fn discover(
        id: String,
        path: String,
        config: VindexConfig,
        entries: &Vec<DirEntry>,
        opts: SlotLoadOpts,
    ) -> (r: ModelSlot<M>)
        requires
            size_of_files(entries@) <= u64::MAX,
        ensures
            r.id == id,
            r.path == path,
            r.config == config,
            r.size_bytes == size_of_files(entries@),
            r.opts == opts,
            r.inner@ == SlotPhase::<M>::Discovered,
            r.load_progress is None,
    {
        ModelSlot {
            id,
            path,
            config,
            size_bytes: dir_size(entries),
            opts,
            inner: SlotInner::Discovered,
            load_progress: None,
        }
    }

    /// A slot whose model is there already.  `opts` are the options that it was
    /// loaded with; they hold when it is loaded again.
    pub fn from_loaded(
        id: String,
        path: String,
        config: VindexConfig,
        opts: SlotLoadOpts,
        entries: &Vec<DirEntry>,
        model: M,
    ) -> (r: ModelSlot<M>)
        requires
            size_of_files(entries@) <= u64::MAX,
        ensures
            r.id == id,
            r.path == path,
            r.config == config,
            r.size_bytes == size_of_files(entries@),
            r.opts == opts,
            r.inner@ == SlotPhase::Loaded(model),
            r.load_progress is None,
    {
        ModelSlot {
            id,
            path,
            config,
            size_bytes: dir_size(entries),
            opts,
            inner: SlotInner::Loaded(model),
            load_progress: None,
        }
    }

    /// Everything but the phase and the progress.
    pub open spec fn same_slot(self, other: ModelSlot<M>) -> bool {
        &&& self.id == other.id
        &&& self.path == other.path
        &&& self.config == other.config
        &&& self.size_bytes == other.size_bytes
        &&& self.opts == other.opts
    }

    /// Where the slot stands.
    pub fn state(&self) -> (r: SlotState)
        ensures
            r == self.inner@.state(),
    {
        match &self.inner {
            SlotInner::Discovered => SlotState::Discovered,
            SlotInner::Loading => SlotState::Loading,
            SlotInner::Loaded(_) => SlotState::Loaded,
            SlotInner::Failed(_) => SlotState::Failed,
        }
    }

    /// Why the last load failed, if the slot is where that left it.
    pub fn last_error(&self) -> (r: Option<String>)
        ensures
            opt_text(r) == match self.inner@ {
                SlotPhase::Failed(e) => Some(e),
                _ => None,
            },
    {
        match &self.inner {
            SlotInner::Failed(e) => Some(e.clone()),
            _ => None,
        }
    }

    /// What is being done.
    pub fn progress(&self) -> (r: Option<String>)
        ensures
            opt_text(r) == opt_text(self.load_progress),
    {
        match &self.load_progress {
            Some(stage) => Some(stage.clone()),
            None => None,
        }
    }

    /// Says what is being done.
    pub fn set_progress(&mut self, stage: Option<String>)
        ensures
            final(self).load_progress == stage,
            final(self).inner == old(self).inner,
            final(self).same_slot(*old(self)),
    {
        self.load_progress = stage;
    }

    /// The model, if it is there.  Loads nothing.
    pub fn loaded(&self) -> (r: Option<&M>)
        ensures
            match r {
                Some(m) => self.inner@ == SlotPhase::Loaded(*m),
                None => self.inner@.state() != SlotState::Loaded,
            },
    {
        match &self.inner {
            SlotInner::Loaded(m) => Some(m),
            _ => None,
        }
    }

    /// Asks for the model, and says what the one who asks is to do.
    pub fn get_or_load(&mut self) -> (r: LoadStep)
        ensures
            r == old(self).inner@.step(),
            final(self).inner@ == old(self).inner@.asked(),
            final(self).load_progress == old(self).load_progress,
            final(self).same_slot(*old(self)),
    {
        match &self.inner {
            SlotInner::Loaded(_) => {
                return LoadStep::Ready;
            },
            SlotInner::Loading => {
                return LoadStep::Wait;
            },
            _ => {},
        }
        self.inner = SlotInner::Loading;
        LoadStep::Own
    }

    /// The load has begun.
    pub fn begin_load(&mut self)
        ensures
            opt_text(final(self).load_progress) == Some("loading"@),
            final(self).inner == old(self).inner,
            final(self).same_slot(*old(self)),
    {
        self.load_progress = Some("loading".to_owned());
    }

    /// The load has ended.  If there is an error, it is handed back for those
    /// who wait; the model is in the slot.
    pub fn finish_load(&mut self, outcome: LoadOutcome<M>) -> (r: Result<(), String>)
        ensures
            final(self).inner@ == phase_of_result(load_result(outcome)),
            final(self).load_progress is None,
            final(self).same_slot(*old(self)),
            match r {
                Ok(_) => load_result(outcome) is Ok,
                Err(e) => load_result(outcome) == Err::<M, Seq<char>>(e@),
            },
    {
        self.load_progress = None;
        match outcome {
            LoadOutcome::Model(m) => {
                self.inner = SlotInner::Loaded(m);
                Ok(())
            },
            LoadOutcome::Error(e) => {
                self.inner = SlotInner::Failed(e.clone());
                Err(e)
            },
            LoadOutcome::Panicked(e) => {
                let text = concat("load task panicked: ", e.as_str());
                self.inner = SlotInner::Failed(text.clone());
                Err(text)
            },
        }
    }

    /// Gives the model up.
    pub fn unload(&mut self)
        ensures
            final(self).inner@ == SlotPhase::<M>::Discovered,
            final(self).load_progress == old(self).load_progress,
            final(self).same_slot(*old(self)),
    {
        self.inner = SlotInner::Discovered;
    }
}

/// What one who waited for a load has: its result, or that none came.
pub fn awaited<M>(received: Option<Result<M, String>>) -> (r: Result<M, String>)
    ensures
        match received {
            Some(result) => r == result,
            None => r matches Err(e) && e@ == "load task dropped without publishing result"@,
        },
{
    match received {
        Some(result) => result,
        None => Err("load task dropped without publishing result".to_owned()),
    }
}

} // verus!
