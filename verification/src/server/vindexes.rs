//! The indexes known to the server: listing, loading, unloading.
use vstd::prelude::*;

use crate::server::error::{Refusal, ServerError};
use crate::server::extract::ExtractLevel;
use crate::server::slot::{ModelSlot, SlotPhase, SlotState};
use crate::text::{concat, concat3, opt_text};

verus! {

/// What is told of an index.
#[derive(Debug)]
pub struct VindexInfo {
    pub id: String,
    /// The same as `id`.
    pub name: String,
    pub path: String,
    pub model: String,
    pub layers: usize,
    pub features: usize,
    pub extract_level: String,
    pub size_bytes: u64,
    pub state: SlotState,
    pub last_error: Option<String>,
    pub load_stage: Option<String>,
}

/// What a [`VindexInfo`] tells, as plain values.
#[verifier::ext_equal]
pub struct InfoView {
    pub id: Seq<char>,
    pub name: Seq<char>,
    pub path: Seq<char>,
    pub model: Seq<char>,
    pub layers: usize,
    pub features: nat,
    pub extract_level: Seq<char>,
    pub size_bytes: u64,
    pub state: SlotState,
    pub last_error: Option<Seq<char>>,
    pub load_stage: Option<Seq<char>>,
}

impl View for VindexInfo {
    type V = InfoView;

    open spec fn view(&self) -> InfoView {
        InfoView {
            id: self.id@,
            name: self.name@,
            path: self.path@,
            model: self.model@,
            layers: self.layers,
            features: self.features as nat,
            extract_level: self.extract_level@,
            size_bytes: self.size_bytes,
            state: self.state,
            last_error: opt_text(self.last_error),
            load_stage: opt_text(self.load_stage),
        }
    }
}

/// The indexes, and the directory that they are kept in.
#[derive(Debug)]
pub struct VindexListResponse {
    pub vindexes: Vec<VindexInfo>,
    pub vindex_dir: Option<String>,
}

/// A slot after it was asked to load.
#[derive(Debug)]
pub struct LoadResponse {
    pub id: String,
    pub state: SlotState,
    pub already_loaded: bool,
}

/// A slot after it was asked to unload.
#[derive(Debug)]
pub struct UnloadResponse {
    pub id: String,
    pub state: SlotState,
}

/// The sum of `layers`.
pub open spec fn total(layers: Seq<usize>) -> nat
    decreases layers.len(),
{
    if layers.len() == 0 {
        0
    } else {
        total(layers.drop_last()) + layers.last() as nat
    }
}

/// Fewer layers never have more features.
proof fn total_grows(layers: Seq<usize>, n: int)
    requires
        0 <= n <= layers.len(),
    ensures
        total(layers.take(n)) <= total(layers),
    decreases layers.len() - n,
{
    if n < layers.len() {
        total_grows(layers, n + 1);
        assert(layers.take(n + 1).drop_last() =~= layers.take(n));
    } else {
        assert(layers.take(n) =~= layers);
    }
}

/// The number of features of all layers together.
pub fn total_features(layers: &Vec<usize>) -> (r: usize)
    requires
        total(layers@) <= usize::MAX,
    ensures
        r == total(layers@),
{
    let mut sum: usize = 0;
    for i in 0..layers.len()
        invariant
            sum == total(layers@.take(i as int)),
            total(layers@) <= usize::MAX,
    {
        proof {
            total_grows(layers@, i + 1);
            assert(layers@.take(i + 1).drop_last() =~= layers@.take(i as int));
        }
        sum = sum + layers[i];
    }
    assert(layers@.take(layers@.len() as int) =~= layers@);
    sum
}

/// Whether the number of features of all layers fits in a machine word.
pub fn features_fit(layers: &Vec<usize>) -> (r: bool)
    ensures
        r == (total(layers@) <= usize::MAX),
{
    let mut sum: usize = 0;
    for i in 0..layers.len()
        invariant
            sum == total(layers@.take(i as int)),
    {
        proof {
            total_grows(layers@, i + 1);
            assert(layers@.take(i + 1).drop_last() =~= layers@.take(i as int));
        }
        match sum.checked_add(layers[i]) {
            Some(n) => {
                sum = n;
            },
            None => return false,
        }
    }
    assert(layers@.take(layers@.len() as int) =~= layers@);
    true
}

/// The name of a level, as a list shows it.
pub open spec fn level_title(l: ExtractLevel) -> Seq<char> {
    match l {
        ExtractLevel::Browse => "Browse"@,
        ExtractLevel::Attention => "Attention"@,
        ExtractLevel::Inference => "Inference"@,
        ExtractLevel::All => "All"@,
    }
}

/// The name of a level, as a list shows it.
pub fn level_text(l: ExtractLevel) -> (r: String)
    ensures
        r@ == level_title(l),
{
    match l {
        ExtractLevel::Browse => "Browse".to_owned(),
        ExtractLevel::Attention => "Attention".to_owned(),
        ExtractLevel::Inference => "Inference".to_owned(),
        ExtractLevel::All => "All".to_owned(),
    }
}

/// What is told of a slot: what it is doing only while it is loading.
pub open spec fn info_of<M>(s: ModelSlot<M>) -> InfoView {
    InfoView {
        id: s.id@,
        name: s.id@,
        path: s.path@,
        model: s.config.model@,
        layers: s.config.num_layers,
        features: total(s.config.layers@),
        extract_level: level_title(s.config.extract_level),
        size_bytes: s.size_bytes,
        state: s.inner@.state(),
        last_error: match s.inner@ {
            SlotPhase::Failed(e) => Some(e),
            _ => None,
        },
        load_stage: if s.inner@.state() == SlotState::Loading {
            opt_text(s.load_progress)
        } else {
            None
        },
    }
}

/// What is told of a slot.
pub fn slot_info<M>(slot: &ModelSlot<M>) -> (r: VindexInfo)
    requires
        total(slot.config.layers@) <= usize::MAX,
    ensures
        r@ == info_of(*slot),
{
    let state = slot.state();
    let load_stage = match state {
        SlotState::Loading => slot.progress(),
        _ => None,
    };
    VindexInfo {
        id: slot.id.clone(),
        name: slot.id.clone(),
        path: slot.path.clone(),
        model: slot.config.model.clone(),
        layers: slot.config.num_layers,
        features: total_features(&slot.config.layers),
        extract_level: level_text(slot.config.extract_level),
        size_bytes: slot.size_bytes,
        state,
        last_error: slot.last_error(),
        load_stage,
    }
}

/// Lists the slots, in their order.
pub fn handle_list<M>(slots: &Vec<ModelSlot<M>>, vindex_dir: Option<&str>) -> (r:
    VindexListResponse)
    requires
        forall|i: int|
            0 <= i < slots@.len() ==> total((#[trigger] slots@[i]).config.layers@) <= usize::MAX,
    ensures
        r.vindexes@.len() == slots@.len(),
        forall|i: int|
            0 <= i < slots@.len() ==> (#[trigger] r.vindexes@[i])@ == info_of(slots@[i]),
        opt_text(r.vindex_dir) == match vindex_dir {
            Some(d) => Some(d@),
            None => None,
        },
{
    let mut vindexes: Vec<VindexInfo> = Vec::new();
    for i in 0..slots.len()
        invariant
            vindexes@.len() == i,
            forall|k: int| 0 <= k < i ==> (#[trigger] vindexes@[k])@ == info_of(slots@[k]),
            forall|k: int|
                0 <= k < slots@.len() ==> total((#[trigger] slots@[k]).config.layers@)
                    <= usize::MAX,
    {
        vindexes.push(slot_info(&slots[i]));
    }
    let vindex_dir = match vindex_dir {
        Some(d) => Some(d.to_owned()),
        None => None,
    };
    VindexListResponse { vindexes, vindex_dir }
}

/// What is said of an id that no slot has.
pub open spec fn unknown_slot(id: Seq<char>) -> Seq<char> {
    "vindex '"@ + id + "' not found"@
}

/// The refusal of an id that no slot has.
pub fn slot_not_found(id: &str) -> (r: ServerError)
    ensures
        r@ == Refusal::NotFound(unknown_slot(id@)),
{
    ServerError::NotFound(concat3("vindex '", id, "' not found"))
}

/// Answers a request to load, given the slot that has the id, after the load:
/// `result` says how it ended, and `already_loaded` how the slot stood before.
pub fn handle_load<M>(
    slot: Option<&ModelSlot<M>>,
    id: &str,
    already_loaded: bool,
    result: Result<(), String>,
) -> (r: Result<LoadResponse, ServerError>)
    ensures
        match (slot, result) {
            (None, _) => r matches Err(e) && e@ == Refusal::NotFound(unknown_slot(id@)),
            (Some(_), Err(text)) => r matches Err(e) && e@ == Refusal::Internal(
                "load failed: "@ + text@,
            ),
            (Some(s), Ok(_)) => r matches Ok(a) && a.id@ == s.id@ && a.state == s.inner@.state()
                && a.already_loaded == already_loaded,
        },
{
    match slot {
        None => Err(slot_not_found(id)),
        Some(s) => match result {
            Err(text) => Err(ServerError::Internal(concat("load failed: ", text.as_str()))),
            Ok(_) => Ok(LoadResponse { id: s.id.clone(), state: s.state(), already_loaded }),
        },
    }
}

/// Unloads the slot at index `found`, which has the id.
pub fn handle_unload<M>(slots: &mut Vec<ModelSlot<M>>, found: Option<usize>, id: &str) -> (r:
    Result<UnloadResponse, ServerError>)
    requires
        found matches Some(i) ==> i < old(slots)@.len(),
    ensures
        match found {
            None => *final(slots) == *old(slots) && (r matches Err(e) && e@ == Refusal::NotFound(
                unknown_slot(id@),
            )),
            Some(i) => {
                &&& r matches Ok(a) && a.id@ == old(slots)@[i as int].id@ && a.state
                    == SlotState::Discovered
                &&& final(slots)@.len() == old(slots)@.len()
                &&& final(slots)@[i as int].inner@ == SlotPhase::<M>::Discovered
                &&& final(slots)@[i as int].same_slot(old(slots)@[i as int])
                &&& final(slots)@[i as int].load_progress == old(slots)@[i as int].load_progress
                &&& forall|k: int|
                    0 <= k < old(slots)@.len() && k != i ==> #[trigger] final(slots)@[k] == old(
                        slots,
                    )@[k]
            },
        },
{
    match found {
        None => Err(slot_not_found(id)),
        Some(i) => {
            let slot = &mut slots[i];
            slot.unload();
            Ok(UnloadResponse { id: slots[i].id.clone(), state: slots[i].state() })
        },
    }
}

/// What is said of a request to delete an index.
pub open spec fn cannot_delete(name: Seq<char>) -> Seq<char> {
    "Cannot delete vindex '"@ + name
        + "' while the server is running. Stop the server and use `larql rm "@ + name
        + "` from the CLI."@
}

/// Refuses to delete an index: that is not done while the server runs.
pub fn handle_delete(name: &str) -> (r: ServerError)
    ensures
        r@ == Refusal::BadRequest(cannot_delete(name@)),
{
    let head = concat3(
        "Cannot delete vindex '",
        name,
        "' while the server is running. Stop the server and use `larql rm ",
    );
    ServerError::BadRequest(concat3(head.as_str(), name, "` from the CLI."))
}

} // verus!
