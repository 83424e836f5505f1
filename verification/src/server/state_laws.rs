//! What holds of the server's changes of state.
use vstd::prelude::*;

use crate::server::download::Download;
use crate::server::error::{Refusal, ServerError};
use crate::server::extract_run::{ExtractRun, Step};
use crate::server::insert::{InsertRun, InsertStep};
use crate::server::jobs::{
    ExtractJob, ExtractJobs, ExtractProgress, JobStatus, Report, StatusStream,
};
use crate::server::lql_session::LqlSessionManager;
use crate::server::progress::{BuildProgress, DownloadProgress};
use crate::server::slot::{LoadOutcome, LoadStep, ModelSlot, SlotState};
use crate::server::vindexes::{handle_unload, UnloadResponse};
use crate::text::{has_prefix, has_suffix};

verus! {

/// Unloading gives the model up; the slot can be loaded again.
pub proof fn unloading_gives_up_model<M>(slot: &mut ModelSlot<M>)
    requires
        call_ensures(ModelSlot::<M>::unload, (slot,), ()),
    ensures
        final(slot).inner@.state() == SlotState::Discovered,
        final(slot).inner@.step() == LoadStep::Own,
        final(slot).id == old(slot).id && final(slot).path == old(slot).path,
        final(slot).opts == old(slot).opts && final(slot).config == old(slot).config,
{
}

/// Whoever asks first for a model that is not there loads it; who asks while it
/// is loaded waits; who asks when it is there has it.
pub proof fn asking_for_model<M>(slot: &mut ModelSlot<M>, step: LoadStep)
    requires
        call_ensures(ModelSlot::<M>::get_or_load, (slot,), step),
    ensures
        old(slot).inner@.state() == SlotState::Loaded <==> step == LoadStep::Ready,
        old(slot).inner@.state() == SlotState::Loading <==> step == LoadStep::Wait,
        step == LoadStep::Ready ==> final(slot).inner@ == old(slot).inner@,
        step != LoadStep::Ready ==> final(slot).inner@.state() == SlotState::Loading,
        final(slot).id == old(slot).id && final(slot).config == old(slot).config,
{
}

/// What is being done is told while a slot is loaded, and not after that.
pub proof fn progress_of_loading<M>(
    begun: &mut ModelSlot<M>,
    told: &mut ModelSlot<M>,
    stage: Option<String>,
)
    requires
        call_ensures(ModelSlot::<M>::begin_load, (begun,), ()),
        call_ensures(ModelSlot::<M>::set_progress, (told, stage), ()),
    ensures
        final(begun).load_progress matches Some(s) && s@ == "loading"@,
        final(begun).inner == old(begun).inner,
        final(told).load_progress == stage,
        final(told).inner == old(told).inner,
{
}

/// A load that gives a model leaves the slot with it; any other leaves it failed
/// with the error that those who wait are told.
pub proof fn loading_ends<M>(
    slot: &mut ModelSlot<M>,
    outcome: LoadOutcome<M>,
    r: Result<(), String>,
)
    requires
        call_ensures(ModelSlot::<M>::finish_load, (slot, outcome), r),
    ensures
        final(slot).load_progress is None,
        r is Ok <==> outcome is Model,
        outcome matches LoadOutcome::Model(m) ==> final(slot).inner@
            == crate::server::slot::SlotPhase::Loaded(m),
        r matches Err(e) ==> final(slot).inner@ == crate::server::slot::SlotPhase::<M>::Failed(e@),
        outcome matches LoadOutcome::Error(e) ==> r->Err_0@ == e@,
        outcome matches LoadOutcome::Panicked(e) ==> has_suffix(r->Err_0@, e@),
        final(slot).id == old(slot).id && final(slot).opts == old(slot).opts,
{
    if let LoadOutcome::Panicked(e) = outcome {
        let t = "load task panicked: "@ + e@;
        assert(t.subrange(t.len() - e@.len(), t.len() as int) =~= e@);
    }
}

/// Unloading by id unloads that slot and no other; an unknown id changes
/// nothing.
pub proof fn unloading_by_id<M>(
    slots: &mut Vec<ModelSlot<M>>,
    found: Option<usize>,
    id: &str,
    r: Result<UnloadResponse, ServerError>,
    k: int,
)
    requires
        found matches Some(i) ==> i < old(slots)@.len(),
        call_ensures(handle_unload::<M>, (slots, found, id), r),
        0 <= k < old(slots)@.len(),
    ensures
        found is None ==> final(slots)@ == old(slots)@ && (r matches Err(e) && e@ is NotFound),
        found matches Some(i) ==> {
            &&& r matches Ok(a) && a.id@ == old(slots)@[i as int].id@ && a.state
                == SlotState::Discovered
            &&& final(slots)@.len() == old(slots)@.len()
            &&& final(slots)@[i as int].inner@.state() == SlotState::Discovered
            &&& final(slots)@[i as int].id == old(slots)@[i as int].id
            &&& k != i ==> final(slots)@[k] == old(slots)@[k]
        },
{
}

/// An event goes to the log of the job that it names, as the newest; no other
/// job changes, and neither does a job's status.
pub proof fn event_goes_to_its_job(
    jobs: &mut ExtractJobs,
    id: &str,
    ev: ExtractProgress,
    other: Seq<char>,
)
    requires
        old(jobs).wf(),
        call_ensures(ExtractJobs::emit, (jobs, id, ev), ()),
    ensures
        final(jobs)@.jobs.dom() =~= old(jobs)@.jobs.dom(),
        final(jobs)@.current == old(jobs)@.current,
        old(jobs)@.jobs.dom().contains(id@) ==> {
            let (a, b) = (old(jobs)@.jobs[id@], final(jobs)@.jobs[id@]);
            &&& b.log.len() > 0 && b.log.last() == ev@
            &&& a.log.len() < 4000 ==> b.log == a.log.push(ev@)
            &&& b.status == a.status && b.model == a.model && b.output_path == a.output_path
        },
        other != id@ && old(jobs)@.jobs.dom().contains(other) ==> final(jobs)@.jobs[other]
            == old(jobs)@.jobs[other],
{
}

/// A job that ends has the status that it is given, and another can be started.
pub proof fn job_ends(jobs: &mut ExtractJobs, id: &str, s: JobStatus, other: Seq<char>)
    requires
        old(jobs).wf(),
        s != JobStatus::Running,
        call_ensures(ExtractJobs::finish, (jobs, id, s), ()),
    ensures
        old(jobs)@.jobs.dom().contains(id@) ==> final(jobs)@.jobs[id@].status == s
            && final(jobs)@.jobs[id@].log == old(jobs)@.jobs[id@].log,
        old(jobs)@.current == Some(id@) ==> !final(jobs)@.busy(),
        other != id@ && old(jobs)@.jobs.dom().contains(other) ==> final(jobs)@.jobs[other]
            == old(jobs)@.jobs[other],
        !old(jobs)@.jobs.dom().contains(id@) ==> final(jobs)@ == old(jobs)@,
{
}

/// A job is started unless one runs; then the one that runs is named.
pub proof fn job_claimed(jobs: &mut ExtractJobs, job: ExtractJob, r: Result<(), ServerError>)
    requires
        old(jobs).wf(),
        call_ensures(ExtractJobs::claim, (jobs, job), r),
    ensures
        r is Ok <==> !old(jobs)@.busy(),
        r is Ok ==> final(jobs)@.current == Some(job.id@) && final(jobs)@.jobs.dom().contains(
            job.id@,
        ) && final(jobs)@.jobs[job.id@] == job@,
        r matches Err(e) ==> final(jobs)@ == old(jobs)@ && (e@ matches Refusal::BadRequest(t)
            && has_prefix(t, "another extract ("@ + old(jobs)@.current->0)),
{
    if r is Err {
        let id = old(jobs)@.current->0;
        let t = "another extract ("@ + id
            + ") is already running; wait for it or poll its status"@;
        let start = "another extract ("@ + id;
        assert(t.subrange(0, start.len() as int) =~= start);
    }
}

/// A job that fails ends with its error.
pub proof fn job_fails(job: &mut ExtractJob, message: String)
    requires
        call_ensures(ExtractJob::finalize_error, (job, message), ()),
    ensures
        final(job)@.status == JobStatus::Failed,
        final(job)@.log.len() > 0,
        final(job)@.log.last() == (Report::Error { message: message@ }),
        final(job)@.id == old(job)@.id && final(job)@.model == old(job)@.model,
{
}

/// A listener is sent a report while its stream is open; the last report of a
/// job is sent and closes it.
pub proof fn report_sent(stream: &mut StatusStream, ev: &ExtractProgress, send: bool)
    requires
        call_ensures(StatusStream::next, (stream, ev), send),
    ensures
        send == old(stream).open,
        !old(stream).open ==> !final(stream).open,
        ev@ is Done || ev@ is Error ==> !final(stream).open,
        old(stream).open && ev@ is Progress ==> final(stream).open,
{
}

/// The steps of an insertion: swap in, execute, swap out.  If the index cannot be
/// swapped in, nothing is executed; once it was swapped in it is swapped out,
/// whatever executing gave.
pub proof fn insertion_steps(
    a: &mut InsertRun,
    b: &mut InsertRun,
    swapped: Result<(), String>,
    executed: Result<Vec<String>, String>,
)
    requires
        old(a).step == InsertStep::SwapIn,
        old(b).step == InsertStep::Execute,
        call_ensures(InsertRun::swapped_in, (a, swapped), ()),
        call_ensures(InsertRun::statement_executed, (b, executed), ()),
    ensures
        swapped is Ok ==> final(a).step == InsertStep::Execute && final(a).outcome
            == old(a).outcome,
        swapped matches Err(e) ==> final(a).step == InsertStep::Finished && (
        final(a).outcome matches Some(Err(f)) && (f@ matches Refusal::Internal(t) && has_suffix(
            t,
            e@,
        ))),
        final(a).prev_ops == old(a).prev_ops,
        final(b).step == InsertStep::SwapOut,
        final(b).executed == executed,
        final(b).prev_ops == old(b).prev_ops,
{
    if let Err(e) = swapped {
        let t = "LQL backend swap-in failed: "@ + e@;
        assert(t.subrange(t.len() - e@.len(), t.len() as int) =~= e@);
    }
}

/// An insertion ends once the index was swapped out: well if executing and
/// swapping did, with the messages and the operations that were added.
pub proof fn insertion_ends(run: &mut InsertRun, swapped: Result<(), String>, ops: usize)
    requires
        old(run).step == InsertStep::SwapOut,
        call_ensures(InsertRun::swapped_out, (run, swapped, ops), ()),
    ensures
        final(run).step == InsertStep::Finished,
        final(run).outcome is Some,
        final(run).outcome->0 is Ok <==> old(run).executed is Ok && swapped is Ok,
        final(run).outcome->0 matches Ok((messages, added)) ==> old(run).executed == Ok::<
            Vec<String>,
            String,
        >(messages) && (old(run).prev_ops <= ops ==> old(run).prev_ops + added == ops),
{
    crate::server::answer_laws::insertion_counted(
        final(run).outcome,
        old(run).executed,
        swapped,
        old(run).prev_ops,
        ops,
    );
}

/// A file that was downloaded counts; one that could not be is named, and the
/// download stays where it is.
pub proof fn file_counted(d: &mut Download, result: Result<(), String>, r: Result<(), String>)
    requires
        old(d).wf(),
        old(d).done < old(d).files@.len(),
        call_ensures(Download::downloaded, (d, result), r),
    ensures
        r is Ok <==> result is Ok,
        result is Ok ==> final(d)@.done == old(d)@.done + 1,
        result is Err ==> final(d)@.done == old(d)@.done,
        final(d)@.files == old(d)@.files && final(d)@.model_id == old(d)@.model_id,
{
}

/// A session is made once for each key, and gone after it was dropped.
pub proof fn session_dropped<S>(m: &mut LqlSessionManager<S>, key: &str, r: bool, other: Seq<char>)
    requires
        old(m).wf(),
        call_ensures(LqlSessionManager::<S>::remove, (m, key), r),
    ensures
        r <==> old(m)@.dom().contains(key@),
        !final(m)@.dom().contains(key@),
        other != key@ ==> (final(m)@.dom().contains(other) <==> old(m)@.dom().contains(other)),
        other != key@ && old(m)@.dom().contains(other) ==> final(m)@[other] == old(m)@[other],
{
}

/// A stage and a layer that begin are told, and kept for the reports that
/// follow.
pub proof fn beginnings_told(
    p: &mut BuildProgress,
    q: &mut BuildProgress,
    stage: &str,
    component: &str,
    layer: usize,
    total: usize,
    first: ExtractProgress,
    second: ExtractProgress,
)
    requires
        call_ensures(BuildProgress::on_stage, (p, stage), first),
        call_ensures(BuildProgress::on_layer_start, (q, component, layer, total), second),
    ensures
        final(p).current_stage@ == stage@,
        final(p).last_layer_total == old(p).last_layer_total,
        first@ matches Report::Progress { stage: s, component: c, layer: l, .. } && s == stage@ && c
            is None && l is None,
        final(q).last_layer_total == total,
        final(q).current_stage@ == old(q).current_stage@,
        second@ matches Report::Progress { stage: s, component: c, layer: l, total_layers, done, .. }
            && s == old(q).current_stage@ && c == Some(component@) && l == Some(layer)
            && total_layers == Some(total) && done == Some(0usize),
{
}

/// What a layer and a stage took is told in milliseconds.
pub proof fn ends_told(
    p: &BuildProgress,
    component: &str,
    layer: usize,
    stage: &str,
    elapsed: usize,
    first: ExtractProgress,
    second: ExtractProgress,
)
    requires
        call_ensures(BuildProgress::on_layer_done, (p, component, layer, elapsed), first),
        call_ensures(BuildProgress::on_stage_done, (p, stage, elapsed), second),
    ensures
        first@ matches Report::Progress { stage: s, component: c, layer: l, total_layers, total, .. }
            && s == p.current_stage@ && c == Some(component@) && l == Some(layer) && total_layers
            == Some(p.last_layer_total) && total == Some(elapsed),
        second@ matches Report::Progress { stage: s, component: c, total, .. } && s == stage@
            + " done"@ && c is None && total == Some(elapsed),
{
}

/// Bytes that come are added to those that came before, and told no more often
/// than every 100 milliseconds.
pub proof fn bytes_added(
    p: &mut DownloadProgress,
    size: usize,
    since_ms: u64,
    r: Option<ExtractProgress>,
)
    requires
        call_ensures(DownloadProgress::update, (p, size, since_ms), r),
    ensures
        old(p).sent + size <= usize::MAX ==> final(p).sent == old(p).sent + size,
        final(p).total == old(p).total && final(p).filename@ == old(p).filename@,
        r is Some <==> since_ms >= 100,
        r matches Some(e) ==> (e@ matches Report::Progress { component, done, .. } && component
            == Some(old(p).filename@) && done == Some(final(p).sent)),
{
}

/// A build starts with telling that the model is looked for.
pub proof fn build_told(
    job: &mut ExtractJob,
    model: &str,
    exists: bool,
    out: &str,
    r: ExtractRun,
)
    requires
        call_ensures(ExtractRun::start, (job, model, exists, out), r),
    ensures
        final(job)@.log.len() > 0,
        final(job)@.log.last() matches Report::Progress { stage, .. } && stage
            == "resolving model path"@,
        final(job)@.status == old(job)@.status,
        r.output_path@ == out@,
        r.step == Step::Download || r.step == Step::Resolve,
        exists ==> r.step == Step::Resolve,
{
}

} // verus!
