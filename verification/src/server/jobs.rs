//! Extract jobs: what is reported of each, and which one runs.
use vstd::prelude::*;

use crate::server::error::{Refusal, ServerError};
use crate::table::TextMap;
use crate::text::{concat3, opt_text};

verus! {

/// The number of events at which a job's log is shortened.
pub const EVENT_LOG_CAP: usize = 4000;

/// The number of events by which it is shortened: the oldest ones go.
pub const EVENT_LOG_DROP: usize = 1000;

/// Something to report of a job.
#[derive(Debug, Clone)]
pub enum ExtractProgress {
    Progress {
        stage: String,
        component: Option<String>,
        layer: Option<usize>,
        total_layers: Option<usize>,
        done: Option<usize>,
        total: Option<usize>,
    },
    Done { path: String, id: String, elapsed_micros: u64 },
    Error { message: String },
}

/// What an [`ExtractProgress`] says, as plain values.
pub enum Report {
    Progress {
        stage: Seq<char>,
        component: Option<Seq<char>>,
        layer: Option<usize>,
        total_layers: Option<usize>,
        done: Option<usize>,
        total: Option<usize>,
    },
    Done { path: Seq<char>, id: Seq<char>, elapsed_micros: u64 },
    Error { message: Seq<char> },
}

impl View for ExtractProgress {
    type V = Report;

    open spec fn view(&self) -> Report {
        match self {
            ExtractProgress::Progress { stage, component, layer, total_layers, done, total } =>
                Report::Progress {
                stage: stage@,
                component: opt_text(*component),
                layer: *layer,
                total_layers: *total_layers,
                done: *done,
                total: *total,
            },
            ExtractProgress::Done { path, id, elapsed_micros } => Report::Done {
                path: path@,
                id: id@,
                elapsed_micros: *elapsed_micros,
            },
            ExtractProgress::Error { message } => Report::Error { message: message@ },
        }
    }
}

/// What a list of events says.
pub open spec fn reports(v: Seq<ExtractProgress>) -> Seq<Report> {
    v.map_values(|e: ExtractProgress| e@)
}

/// The report that a stage has begun.
pub open spec fn stage_report(stage: Seq<char>) -> Report {
    Report::Progress {
        stage,
        component: None,
        layer: None,
        total_layers: None,
        done: None,
        total: None,
    }
}

/// The event that a stage has begun.
pub fn stage_event(stage: &str) -> (r: ExtractProgress)
    ensures
        r@ == stage_report(stage@),
{
    ExtractProgress::Progress {
        stage: stage.to_owned(),
        component: None,
        layer: None,
        total_layers: None,
        done: None,
        total: None,
    }
}

/// How far a job is.
#[derive(Debug, Clone, Copy, PartialEq, Eq, Structural)]
pub enum JobStatus {
    Running,
    Done,
    Failed,
}

/// The log with one more report; a log that has become too long loses its
/// oldest reports first.
pub open spec fn logged(log: Seq<Report>, e: Report) -> Seq<Report> {
    if log.len() >= EVENT_LOG_CAP {
        log.skip(EVENT_LOG_DROP as int).push(e)
    } else {
        log.push(e)
    }
}

/// The log after each of `events` in turn.
pub open spec fn all_logged(log: Seq<Report>, events: Seq<Report>) -> Seq<Report>
    decreases events.len(),
{
    if events.len() == 0 {
        log
    } else {
        logged(all_logged(log, events.drop_last()), events.last())
    }
}

/// A log holds the newest reports, in the order in which they were made, and
/// never more than its cap.
pub proof fn log_is_newest(events: Seq<Report>)
    ensures
        ({
            let log = all_logged(Seq::empty(), events);
            &&& log.len() <= EVENT_LOG_CAP
            &&& log.len() <= events.len()
            &&& log == events.skip(events.len() - log.len())
            &&& events.len() > 0 ==> log.len() > 0 && log.last() == events.last()
        }),
    decreases events.len(),
{
    let log = all_logged(Seq::empty(), events);
    if events.len() > 0 {
        let init = events.drop_last();
        let before = all_logged(Seq::empty(), init);
        log_is_newest(init);
        assert(log =~= events.skip(events.len() - log.len()));
    } else {
        assert(log =~= events.skip(0));
    }
}

/// One who takes a job's log and then hears every report made after that has
/// the newest reports in their order: none is missing between them, and none
/// comes twice.
pub proof fn listener_misses_nothing(past: Seq<Report>, later: Seq<Report>)
    ensures
        ({
            let heard = all_logged(Seq::empty(), past) + later;
            let all = past + later;
            heard.len() <= all.len() && heard == all.skip(all.len() - heard.len())
        }),
{
    log_is_newest(past);
    let heard = all_logged(Seq::empty(), past) + later;
    let all = past + later;
    assert(heard =~= all.skip(all.len() - heard.len()));
}

/// The report is the last one of a job: that it is done, or that it failed.
pub open spec fn is_last(e: Report) -> bool {
    e is Done || e is Error
}

/// The last report of a job is among these.
pub open spec fn ended(log: Seq<Report>) -> bool {
    exists|i: int| 0 <= i < log.len() && is_last(#[trigger] log[i])
}

/// Whether a job's reports go on after this one.
pub fn goes_on(ev: &ExtractProgress) -> (r: bool)
    ensures
        r == !is_last(ev@),
{
    match ev {
        ExtractProgress::Progress { .. } => true,
        _ => false,
    }
}

/// One who listens to a job's reports as they are made.
#[derive(Debug, Clone, Copy, PartialEq, Eq, Structural)]
pub struct StatusStream {
    /// Whether the next report is sent.
    pub open: bool,
}

/// What a listener is sent of the reports `later`, if the next one is sent.
pub open spec fn sent_live(open: bool, later: Seq<Report>) -> Seq<Report>
    decreases later.len(),
{
    if !open || later.len() == 0 {
        Seq::empty()
    } else {
        seq![later[0]] + sent_live(!is_last(later[0]), later.skip(1))
    }
}

impl StatusStream {
    /// A listener that is sent reports if `follow` says so.
    pub fn start(follow: bool) -> (r: StatusStream)
        ensures
            r.open == follow,
    {
        StatusStream { open: follow }
    }

    /// Takes up a report: gives whether it is sent.  The last report of the job
    /// ends the stream.
    pub fn next(&mut self, ev: &ExtractProgress) -> (send: bool)
        ensures
            send == old(self).open,
            final(self).open == (old(self).open && !is_last(ev@)),
    {
        let send = self.open;
        self.open = send && goes_on(ev);
        send
    }
}

/// A listener is sent every report up to and including the job's last one, and
/// nothing after that.
pub proof fn stream_ends_with_last(later: Seq<Report>, n: int)
    requires
        0 <= n < later.len(),
        is_last(later[n]),
        forall|i: int| 0 <= i < n ==> !is_last(#[trigger] later[i]),
    ensures
        sent_live(true, later) == later.take(n + 1),
        sent_live(true, later).last() == later[n],
    decreases n,
{
    let rest = later.skip(1);
    if n > 0 {
        assert(rest[n - 1] == later[n]);
        assert forall|i: int| 0 <= i < n - 1 implies !is_last(#[trigger] rest[i]) by {
            assert(rest[i] == later[i + 1]);
        }
        assert(!is_last(later[0]));
        stream_ends_with_last(rest, n - 1);
    } else {
        assert(sent_live(false, rest) =~= Seq::empty());
    }
    assert(sent_live(true, later) =~= later.take(n + 1));
}

/// A listener is sent every report while the job has not made its last one.
pub proof fn stream_goes_on(later: Seq<Report>)
    requires
        !ended(later),
    ensures
        sent_live(true, later) == later,
    decreases later.len(),
{
    if later.len() > 0 {
        let rest = later.skip(1);
        assert(!is_last(later[0]));
        assert forall|i: int| 0 <= i < rest.len() implies !is_last(#[trigger] rest[i]) by {
            assert(rest[i] == later[i + 1]);
        }
        stream_goes_on(rest);
    }
    assert(sent_live(true, later) =~= later);
}

/// One who asks for the status of a job that runs is sent the newest reports
/// made so far and then every later one, each once and in order, up to and
/// including the job's last one.
pub proof fn status_is_complete(past: Seq<Report>, later: Seq<Report>, n: int)
    requires
        0 <= n < later.len(),
        is_last(later[n]),
        forall|i: int| 0 <= i < n ==> !is_last(#[trigger] later[i]),
    ensures
        ({
            let sent = all_logged(Seq::empty(), past) + sent_live(true, later);
            let all = past + later.take(n + 1);
            &&& sent.len() <= all.len()
            &&& sent == all.skip(all.len() - sent.len())
            &&& sent.last() == later[n]
        }),
{
    stream_ends_with_last(later, n);
    listener_misses_nothing(past, later.take(n + 1));
}

/// An extract job.
pub struct ExtractJob {
    pub id: String,
    pub model: String,
    pub level: String,
    pub output_path: String,
    pub status: JobStatus,
    pub events: Vec<ExtractProgress>,
}

/// What an [`ExtractJob`] holds, as plain values.
pub struct JobView {
    pub id: Seq<char>,
    pub model: Seq<char>,
    pub level: Seq<char>,
    pub output_path: Seq<char>,
    pub status: JobStatus,
    pub log: Seq<Report>,
}

impl View for ExtractJob {
    type V = JobView;

    open spec fn view(&self) -> JobView {
        JobView {
            id: self.id@,
            model: self.model@,
            level: self.level@,
            output_path: self.output_path@,
            status: self.status,
            log: reports(self.events@),
        }
    }
}

impl JobView {
    /// The job with one more report.
    pub open spec fn reported(self, e: Report) -> JobView {
        JobView { log: logged(self.log, e), ..self }
    }

    /// The job with another status.
    pub open spec fn with_status(self, s: JobStatus) -> JobView {
        JobView { status: s, ..self }
    }
}

impl ExtractJob {
    /// Adds an event to the job's log.
    pub fn emit(&mut self, ev: ExtractProgress)
        ensures
            final(self)@ == old(self)@.reported(ev@),
    {
        let ghost before = self.events@;
        if self.events.len() >= EVENT_LOG_CAP {
            let kept = self.events.split_off(EVENT_LOG_DROP);
            self.events = kept;
            assert(reports(self.events@) =~= reports(before).skip(EVENT_LOG_DROP as int));
        }
        let ghost shorter = self.events@;
        let ghost view = ev@;
        self.events.push(ev);
        assert(reports(self.events@) =~= reports(shorter).push(view));
    }

    /// How far the job is.
    pub fn status(&self) -> (r: JobStatus)
        ensures
            r == self@.status,
    {
        self.status
    }

    /// Sets how far the job is.
    pub fn set_status(&mut self, s: JobStatus)
        ensures
            final(self)@ == old(self)@.with_status(s),
    {
        self.status = s;
    }

    /// Whether the job has ended, so that its log is all there is to report.
    pub fn is_terminal(&self) -> (r: bool)
        ensures
            r == (self@.status != JobStatus::Running),
    {
        match self.status {
            JobStatus::Running => false,
            _ => true,
        }
    }

    /// Whether the job's last report is in its log.
    pub fn has_ended(&self) -> (r: bool)
        ensures
            r == ended(self@.log),
    {
        for i in 0..self.events.len()
            invariant
                forall|k: int| 0 <= k < i ==> !is_last(#[trigger] self@.log[k]),
        {
            assert(self@.log[i as int] == self.events@[i as int]@);
            if !goes_on(&self.events[i]) {
                return true;
            }
        }
        false
    }

    /// Ends the job with an error.
    pub fn finalize_error(&mut self, message: String)
        ensures
            final(self)@ == old(self)@.reported((Report::Error { message: message@ })).with_status(
                JobStatus::Failed,
            ),
    {
        self.emit(ExtractProgress::Error { message });
        self.set_status(JobStatus::Failed);
    }
}

/// All jobs that were started, and the one that was started last.
pub struct ExtractJobs {
    pub jobs: TextMap<ExtractJob>,
    pub current: Option<String>,
}

/// What [`ExtractJobs`] holds, as plain values.
pub struct JobsView {
    pub jobs: Map<Seq<char>, JobView>,
    pub current: Option<Seq<char>>,
}

/// What a table of jobs holds.
pub open spec fn job_views(m: Map<Seq<char>, ExtractJob>) -> Map<Seq<char>, JobView> {
    m.map_values(|j: ExtractJob| j@)
}

impl View for ExtractJobs {
    type V = JobsView;

    open spec fn view(&self) -> JobsView {
        JobsView { jobs: job_views(self.jobs@), current: opt_text(self.current) }
    }
}

impl JobsView {
    /// No job runs but the one that was started last.
    pub open spec fn one_runs(self) -> bool {
        forall|id: Seq<char>| #[trigger]
            self.jobs.dom().contains(id) && self.jobs[id].status == JobStatus::Running
                ==> self.current == Some(id)
    }

    /// The job that was started last runs.
    pub open spec fn busy(self) -> bool {
        self.current matches Some(id) && self.jobs.dom().contains(id) && self.jobs[id].status
            == JobStatus::Running
    }

    /// The jobs after one more was started.
    pub open spec fn claimed(self, j: JobView) -> JobsView {
        JobsView { jobs: self.jobs.insert(j.id, j), current: Some(j.id) }
    }

    /// The jobs after one of them changed.
    pub open spec fn changed(self, id: Seq<char>, j: JobView) -> JobsView {
        JobsView { jobs: self.jobs.insert(id, j), current: self.current }
    }
}

/// What is said of a request while a job runs.
pub open spec fn busy_refusal(id: Seq<char>) -> Refusal {
    Refusal::BadRequest(
        "another extract ("@ + id
            + ") is already running; wait for it or poll its status"@,
    )
}

/// Two jobs never run at once.
pub proof fn running_job_unique(v: JobsView, a: Seq<char>, b: Seq<char>)
    requires
        v.one_runs(),
        v.jobs.dom().contains(a) && v.jobs[a].status == JobStatus::Running,
        v.jobs.dom().contains(b) && v.jobs[b].status == JobStatus::Running,
    ensures
        a == b,
{
}

impl ExtractJobs {
    /// No id comes twice, and no job runs but the one that was started last.
    pub open spec fn wf(&self) -> bool {
        self.jobs.wf() && self@.one_runs()
    }

    /// No jobs.
    pub fn new() -> (r: ExtractJobs)
        ensures
            r.wf(),
            r@ == (JobsView { jobs: Map::empty(), current: None }),
    {
        let r = ExtractJobs { jobs: TextMap::new(), current: None };
        assert(r@.jobs =~= Map::empty());
        r
    }

    /// The job with the given id.
    pub fn get(&self, id: &str) -> (r: Option<&ExtractJob>)
        requires
            self.wf(),
        ensures
            match r {
                Some(j) => self@.jobs.dom().contains(id@) && j@ == self@.jobs[id@],
                None => !self@.jobs.dom().contains(id@),
            },
    {
        self.jobs.get(id)
    }

    /// The job with the given id, or that there is none.
    pub fn find(&self, id: &str) -> (r: Result<&ExtractJob, ServerError>)
        requires
            self.wf(),
        ensures
            match r {
                Ok(j) => self@.jobs.dom().contains(id@) && j@ == self@.jobs[id@],
                Err(e) => !self@.jobs.dom().contains(id@) && e@ == Refusal::NotFound(
                    "extract job '"@ + id@ + "' not found"@,
                ),
            },
    {
        match self.jobs.get(id) {
            Some(j) => Ok(j),
            None => Err(ServerError::NotFound(concat3("extract job '", id, "' not found"))),
        }
    }

    /// What to send to one who asks for a job's status: all events in its log,
    /// in their order, and whether those that are still to come are to follow
    /// in a [`StatusStream`].  They do while the job runs and its last event is
    /// not in the log.
    pub fn handle_extract_status(&self, id: &str) -> (r: Result<
        (&Vec<ExtractProgress>, bool),
        ServerError,
    >)
        requires
            self.wf(),
        ensures
            match r {
                Ok((events, follow)) => {
                    &&& self@.jobs.dom().contains(id@)
                    &&& reports(events@) == self@.jobs[id@].log
                    &&& follow == (self@.jobs[id@].status == JobStatus::Running && !ended(
                        self@.jobs[id@].log,
                    ))
                },
                Err(e) => !self@.jobs.dom().contains(id@) && e@ == Refusal::NotFound(
                    "extract job '"@ + id@ + "' not found"@,
                ),
            },
    {
        let job = self.find(id)?;
        Ok((&job.events, !job.is_terminal() && !job.has_ended()))
    }

    /// Starts a job, unless one runs.
    pub fn claim(&mut self, job: ExtractJob) -> (r: Result<(), ServerError>)
        requires
            old(self).wf(),
        ensures
            final(self).wf(),
            match r {
                Ok(_) => !old(self)@.busy() && final(self)@ == old(self)@.claimed(job@),
                Err(e) => old(self)@.busy() && final(self)@ == old(self)@ && e@ == busy_refusal(
                    old(self)@.current->Some_0,
                ),
            },
    {
        let ghost before = self@;
        if let Some(cur) = &self.current {
            if let Some(j) = self.jobs.get(cur.as_str()) {
                if let JobStatus::Running = j.status {
                    return Err(
                        ServerError::BadRequest(
                            concat3(
                                "another extract (",
                                cur.as_str(),
                                ") is already running; wait for it or poll its status",
                            ),
                        ),
                    );
                }
            }
        }
        let id = job.id.clone();
        let ghost view = job@;
        let ghost raw = self.jobs@;
        self.jobs.insert(job.id.clone(), job);
        self.current = Some(id);
        proof {
            assert(job_views(self.jobs@) =~= before.jobs.insert(view.id, view));
            assert forall|k: Seq<char>| #[trigger]
                self@.jobs.dom().contains(k) && self@.jobs[k].status
                    == JobStatus::Running implies self@.current == Some(k) by {
                if k != view.id {
                    assert(before.jobs.dom().contains(k));
                }
            }
        }
        Ok(())
    }

    /// Adds an event to a job's log; nothing happens if there is no such job.
    pub fn emit(&mut self, id: &str, ev: ExtractProgress)
        requires
            old(self).wf(),
        ensures
            final(self).wf(),
            final(self)@ == (if old(self)@.jobs.dom().contains(id@) {
                old(self)@.changed(id@, old(self)@.jobs[id@].reported(ev@))
            } else {
                old(self)@
            }),
    {
        let ghost before = self@;
        match self.jobs.get_mut(id) {
            Some(j) => {
                j.emit(ev);
            },
            None => {},
        }
        proof {
            if before.jobs.dom().contains(id@) {
                let j = before.jobs[id@].reported(ev@);
                assert(job_views(self.jobs@) =~= before.jobs.insert(id@, j));
                changed_keeps_one(before, id@, j);
            }
        }
    }

    /// Ends a job; nothing happens if there is no such job.
    pub fn finish(&mut self, id: &str, s: JobStatus)
        requires
            old(self).wf(),
            s != JobStatus::Running,
        ensures
            final(self).wf(),
            final(self)@ == (if old(self)@.jobs.dom().contains(id@) {
                old(self)@.changed(id@, old(self)@.jobs[id@].with_status(s))
            } else {
                old(self)@
            }),
    {
        let ghost before = self@;
        match self.jobs.get_mut(id) {
            Some(j) => {
                j.set_status(s);
            },
            None => {},
        }
        proof {
            if before.jobs.dom().contains(id@) {
                let j = before.jobs[id@].with_status(s);
                assert(job_views(self.jobs@) =~= before.jobs.insert(id@, j));
                changed_keeps_one(before, id@, j);
            }
        }
    }
}

/// A change that starts no job keeps that at most one runs.
proof fn changed_keeps_one(v: JobsView, id: Seq<char>, j: JobView)
    requires
        v.one_runs(),
        v.jobs.dom().contains(id),
        j.status == JobStatus::Running ==> v.jobs[id].status == JobStatus::Running,
    ensures
        v.changed(id, j).one_runs(),
{
    let w = v.changed(id, j);
    assert forall|k: Seq<char>| #[trigger]
        w.jobs.dom().contains(k) && w.jobs[k].status == JobStatus::Running implies w.current
        == Some(k) by {
        assert(v.jobs.dom().contains(k));
    }
}

impl Default for ExtractJobs {
    /// No jobs.
    fn default() -> (r: ExtractJobs)
        ensures
            r.wf(),
            r@ == (JobsView { jobs: Map::empty(), current: None }),
    {
        ExtractJobs::new()
    }
}

} // verus!
