//! The course of a build: which step comes next, what is reported, and how
//! the job ends.
//!
//! Each step is done elsewhere; whether it succeeded is handed in.
use vstd::prelude::*;

use crate::path::{join_path, joined_path};
use crate::server::extract::{is_hf_id, looks_like_hf_id, ExtractLevel};
use crate::server::jobs::{
    stage_event, stage_report, ExtractJob, ExtractProgress, JobStatus, JobView, Report,
};
use crate::text::{concat, concat3};

verus! {

/// The step of a build that is to be done next.
#[derive(Debug, Clone, Copy, PartialEq, Eq, Structural)]
pub enum Step {
    /// Download the model.
    Download,
    /// Find the model's directory.
    Resolve,
    /// Find the directory of the model that was downloaded.
    ResolveDownloaded,
    /// See whether the tokenizer's file is there.
    FindTokenizer,
    /// Load the tokenizer.
    LoadTokenizer,
    /// Create the directory to build in.
    CreateDir,
    /// Build the index.
    Build,
    /// Read the index that was built and give it a slot.
    Discover,
    /// Nothing more.
    Finished,
}

/// How the numbers of an index are stored.
#[derive(Debug, Clone, Copy, PartialEq, Eq, Structural)]
pub enum StorageDtype {
    /// In single precision.
    F32,
    /// In half precision.
    F16,
}

/// How the weights of an index are quantised.
#[derive(Debug, Clone, Copy, PartialEq, Eq, Structural)]
pub enum QuantFormat {
    /// Not at all.
    Unquantised,
    /// In blocks of about four bits for each number.
    Q4K,
}

/// How the weights are written.
#[derive(Debug, Clone, Copy, PartialEq, Eq, Structural)]
pub struct WriteWeightsOptions {
    pub level: ExtractLevel,
    /// Whether the feed-forward weights are written in their compact form.
    pub ffn_compact: bool,
}

/// How quantised weights are written.
#[derive(Debug, Clone, Copy, PartialEq, Eq, Structural)]
pub struct Q4kWriteOptions {
    /// Whether the down projections are quantised this way, too.
    pub down_q4k: bool,
    /// Whether the down projections are written feature by feature.
    pub feature_major_down: bool,
}

/// What a build is asked for.
#[derive(Debug, Clone, Copy, PartialEq, Eq, Structural)]
pub struct BuildOptions {
    /// How many of the best are kept for each feature.
    pub down_top_k: usize,
    pub level: ExtractLevel,
    pub dtype: StorageDtype,
    pub quant: QuantFormat,
    pub weights: WriteWeightsOptions,
    pub q4k: Q4kWriteOptions,
    /// Whether gate vectors are left out.
    pub drop_gate_vectors: bool,
}

/// What a build at a level is asked for: the ten best for each feature, half
/// precision, no quantisation, and every other choice off.
pub open spec fn options_for(level: ExtractLevel) -> BuildOptions {
    BuildOptions {
        down_top_k: 10,
        level,
        dtype: StorageDtype::F16,
        quant: QuantFormat::Unquantised,
        weights: WriteWeightsOptions { level, ffn_compact: false },
        q4k: Q4kWriteOptions { down_q4k: false, feature_major_down: false },
        drop_gate_vectors: false,
    }
}

/// What a build at a level is asked for.
pub fn build_options(level: ExtractLevel) -> (r: BuildOptions)
    ensures
        r == options_for(level),
{
    BuildOptions {
        down_top_k: 10,
        level,
        dtype: StorageDtype::F16,
        quant: QuantFormat::Unquantised,
        weights: WriteWeightsOptions { level, ffn_compact: false },
        q4k: Q4kWriteOptions { down_q4k: false, feature_major_down: false },
        drop_gate_vectors: false,
    }
}

/// A build that is to be done.
#[derive(Debug)]
pub struct BuildRequest {
    /// The model's directory.
    pub model_path: String,
    /// The tokenizer's file.
    pub tokenizer_path: String,
    /// The model's name, as it was asked for.
    pub model_name: String,
    /// The directory to build in.
    pub output_path: String,
    pub options: BuildOptions,
}

/// What a [`BuildRequest`] says, as plain values.
pub struct BuildRequestView {
    pub model_path: Seq<char>,
    pub tokenizer_path: Seq<char>,
    pub model_name: Seq<char>,
    pub output_path: Seq<char>,
    pub options: BuildOptions,
}

impl View for BuildRequest {
    type V = BuildRequestView;

    open spec fn view(&self) -> BuildRequestView {
        BuildRequestView {
            model_path: self.model_path@,
            tokenizer_path: self.tokenizer_path@,
            model_name: self.model_name@,
            output_path: self.output_path@,
            options: self.options,
        }
    }
}

/// A build under way.
pub struct ExtractRun {
    pub step: Step,
    pub output_path: String,
    /// The model's directory, once it is known.
    pub model_path: String,
    /// The time from the job's start to the end of the build, once it has
    /// ended.
    pub built_micros: u64,
}

/// What an [`ExtractRun`] holds, as plain values.
pub struct RunView {
    pub step: Step,
    pub output_path: Seq<char>,
    pub model_path: Seq<char>,
    pub built_micros: u64,
}

impl View for ExtractRun {
    type V = RunView;

    open spec fn view(&self) -> RunView {
        RunView {
            step: self.step,
            output_path: self.output_path@,
            model_path: self.model_path@,
            built_micros: self.built_micros,
        }
    }
}

/// What is said of a step that failed.
pub open spec fn step_error(r: RunView, e: Seq<char>) -> Seq<char> {
    match r.step {
        Step::Download => "hf download: "@ + e,
        Step::Resolve => "resolve_model_path: "@ + e,
        Step::ResolveDownloaded => "downloaded but resolve_model_path still failed: "@ + e,
        Step::FindTokenizer => "tokenizer.json not found at "@ + r.model_path,
        Step::LoadTokenizer => "failed to load tokenizer: "@ + e,
        Step::CreateDir => "create_dir_all("@ + r.output_path + "): "@ + e,
        Step::Build => "build_vindex_streaming: "@ + e,
        Step::Discover => "built vindex but discover failed: "@ + e,
        Step::Finished => e,
    }
}

/// The step after one that succeeded.
pub open spec fn step_after(s: Step) -> Step {
    match s {
        Step::Download => Step::ResolveDownloaded,
        Step::Resolve => Step::FindTokenizer,
        Step::ResolveDownloaded => Step::FindTokenizer,
        Step::FindTokenizer => Step::LoadTokenizer,
        Step::LoadTokenizer => Step::CreateDir,
        Step::CreateDir => Step::Build,
        Step::Build => Step::Discover,
        Step::Discover => Step::Finished,
        Step::Finished => Step::Finished,
    }
}

/// A step that finds the model's directory.
pub open spec fn resolves(s: Step) -> bool {
    s == Step::Resolve || s == Step::ResolveDownloaded
}

/// The build and its job after a step: `Ok` with what the step found (the
/// model's directory, or the id of the new slot), or why it failed.
/// `elapsed_micros` is the time from the job's start to the end of the step; a
/// job that is done reports that of its build.
pub open spec fn run_after(
    r: RunView,
    j: JobView,
    outcome: Result<Seq<char>, Seq<char>>,
    elapsed_micros: u64,
) -> (RunView, JobView) {
    if r.step == Step::Finished {
        (r, j)
    } else {
        match outcome {
            Err(e) => (
                RunView { step: Step::Finished, ..r },
                j.reported(Report::Error { message: step_error(r, e) }).with_status(
                    JobStatus::Failed,
                ),
            ),
            Ok(found) => {
                let next = RunView {
                    step: step_after(r.step),
                    model_path: if resolves(r.step) {
                        found
                    } else {
                        r.model_path
                    },
                    built_micros: if r.step == Step::Build {
                        elapsed_micros
                    } else {
                        r.built_micros
                    },
                    ..r
                };
                if resolves(r.step) {
                    (next, j.reported(stage_report("loading tokenizer"@)))
                } else if r.step == Step::Discover {
                    (
                        next,
                        j.reported(
                            Report::Done {
                                path: r.output_path,
                                id: found,
                                elapsed_micros: r.built_micros,
                            },
                        ).with_status(JobStatus::Done),
                    )
                } else {
                    (next, j)
                }
            },
        }
    }
}

/// The build and its job after each of `outcomes` in turn.
pub open spec fn run_through(
    r: RunView,
    j: JobView,
    outcomes: Seq<Result<Seq<char>, Seq<char>>>,
    elapsed_micros: u64,
) -> (RunView, JobView)
    decreases outcomes.len(),
{
    if outcomes.len() == 0 {
        (r, j)
    } else {
        let (r1, j1) = run_after(r, j, outcomes[0], elapsed_micros);
        run_through(r1, j1, outcomes.skip(1), elapsed_micros)
    }
}

/// A build that has ended has a job that has ended, and the job's last report
/// says how; before that the job runs.
pub open spec fn run_consistent(r: RunView, j: JobView) -> bool {
    if r.step == Step::Finished {
        j.log.len() > 0 && match j.status {
            JobStatus::Running => false,
            JobStatus::Done => j.log.last() is Done,
            JobStatus::Failed => j.log.last() is Error,
        }
    } else {
        j.status == JobStatus::Running
    }
}

/// Every step keeps the build and its job consistent.
pub proof fn run_stays_consistent(
    r: RunView,
    j: JobView,
    outcome: Result<Seq<char>, Seq<char>>,
    elapsed_micros: u64,
)
    requires
        run_consistent(r, j),
    ensures
        ({
            let (r1, j1) = run_after(r, j, outcome, elapsed_micros);
            run_consistent(r1, j1)
        }),
{
}

/// How many steps are left.
pub open spec fn steps_left(s: Step) -> nat {
    match s {
        Step::Download => 8,
        Step::ResolveDownloaded => 7,
        Step::Resolve => 7,
        Step::FindTokenizer => 6,
        Step::LoadTokenizer => 5,
        Step::CreateDir => 4,
        Step::Build => 3,
        Step::Discover => 2,
        Step::Finished => 1,
    }
}

/// A build whose steps are all gone through has ended: its job is done if
/// every one of them succeeded, and has failed otherwise.
pub proof fn run_ends(
    r: RunView,
    j: JobView,
    outcomes: Seq<Result<Seq<char>, Seq<char>>>,
    elapsed_micros: u64,
)
    requires
        run_consistent(r, j),
        r.step != Step::Finished,
        outcomes.len() >= steps_left(r.step) - 1,
    ensures
        ({
            let (r1, j1) = run_through(r, j, outcomes, elapsed_micros);
            &&& r1.step == Step::Finished
            &&& run_consistent(r1, j1)
            &&& (j1.status == JobStatus::Done <==> forall|i: int|
                0 <= i < steps_left(r.step) - 1 ==> (#[trigger] outcomes[i]) is Ok)
        }),
    decreases outcomes.len(),
{
    let (r1, j1) = run_after(r, j, outcomes[0], elapsed_micros);
    let rest = outcomes.skip(1);
    run_stays_consistent(r, j, outcomes[0], elapsed_micros);
    if r1.step == Step::Finished {
        finished_stays(r1, j1, rest, elapsed_micros);
    } else {
        run_ends(r1, j1, rest, elapsed_micros);
        let n = steps_left(r.step) - 1;
        assert forall|i: int| 0 <= i < n && (forall|k: int|
            0 <= k < n - 1 ==> (#[trigger] rest[k]) is Ok) implies (
        #[trigger] outcomes[i]) is Ok by {
            if i > 0 {
                assert(rest[i - 1] == outcomes[i]);
            }
        }
        assert forall|i: int| 0 <= i < n - 1 && (forall|k: int|
            0 <= k < n ==> (#[trigger] outcomes[k]) is Ok) implies (#[trigger] rest[i]) is Ok by {
            assert(rest[i] == outcomes[i + 1]);
        }
    }
}

/// A build that has ended stays as it is.
proof fn finished_stays(
    r: RunView,
    j: JobView,
    outcomes: Seq<Result<Seq<char>, Seq<char>>>,
    elapsed_micros: u64,
)
    requires
        r.step == Step::Finished,
    ensures
        run_through(r, j, outcomes, elapsed_micros) == (r, j),
    decreases outcomes.len(),
{
    if outcomes.len() > 0 {
        finished_stays(r, j, outcomes.skip(1), elapsed_micros);
    }
}

/// What a step gave, as plain values.
pub open spec fn outcome_of(o: Result<String, String>) -> Result<Seq<char>, Seq<char>> {
    match o {
        Ok(s) => Ok(s@),
        Err(e) => Err(e@),
    }
}

/// The start of a build: a model's id is downloaded first, anything else is a
/// path.
pub open spec fn run_started(model: Seq<char>, exists: bool, output_path: Seq<char>) -> RunView {
    RunView {
        step: if is_hf_id(model, exists) {
            Step::Download
        } else {
            Step::Resolve
        },
        output_path,
        model_path: Seq::empty(),
        built_micros: 0,
    }
}

impl ExtractRun {
    /// Starts a build: a model's id is downloaded first, anything else is a
    /// path.
    pub fn start(job: &mut ExtractJob, model: &str, exists: bool, output_path: &str) -> (r:
        ExtractRun)
        ensures
            r@ == run_started(model@, exists, output_path@),
            final(job)@ == old(job)@.reported(stage_report("resolving model path"@)),
    {
        job.emit(stage_event("resolving model path"));
        let step = if looks_like_hf_id(model, exists) {
            Step::Download
        } else {
            Step::Resolve
        };
        ExtractRun {
            step,
            output_path: output_path.to_owned(),
            model_path: String::new(),
            built_micros: 0,
        }
    }

    /// The tokenizer's file: it stands in the model's directory.
    pub fn tokenizer_path(&self) -> (r: String)
        ensures
            r@ == joined_path(self@.model_path, "tokenizer.json"@),
    {
        join_path(self.model_path.as_str(), "tokenizer.json")
    }

    /// The build that is to be done, of the model `model` at a level.
    pub fn build_request(&self, model: &str, level: ExtractLevel) -> (r: BuildRequest)
        ensures
            r@ == (BuildRequestView {
                model_path: self@.model_path,
                tokenizer_path: joined_path(self@.model_path, "tokenizer.json"@),
                model_name: model@,
                output_path: self@.output_path,
                options: options_for(level),
            }),
    {
        BuildRequest {
            model_path: self.model_path.clone(),
            tokenizer_path: self.tokenizer_path(),
            model_name: model.to_owned(),
            output_path: self.output_path.clone(),
            options: build_options(level),
        }
    }

    /// What is said of the current step if it failed with `e`.
    fn error_text(&self, e: &str) -> (r: String)
        ensures
            r@ == step_error(self@, e@),
    {
        match self.step {
            Step::Download => concat("hf download: ", e),
            Step::Resolve => concat("resolve_model_path: ", e),
            Step::ResolveDownloaded => concat(
                "downloaded but resolve_model_path still failed: ",
                e,
            ),
            Step::FindTokenizer => concat(
                "tokenizer.json not found at ",
                self.model_path.as_str(),
            ),
            Step::LoadTokenizer => concat("failed to load tokenizer: ", e),
            Step::CreateDir => {
                let head = concat3("create_dir_all(", self.output_path.as_str(), "): ");
                concat(head.as_str(), e)
            },
            Step::Build => concat("build_vindex_streaming: ", e),
            Step::Discover => concat("built vindex but discover failed: ", e),
            Step::Finished => e.to_owned(),
        }
    }

    /// Takes up what the current step gave: what it found, or why it failed,
    /// and the time from the job's start.
    pub fn advance(
        &mut self,
        job: &mut ExtractJob,
        outcome: Result<String, String>,
        elapsed_micros: u64,
    )
        ensures
            (final(self)@, final(job)@) == run_after(
                old(self)@,
                old(job)@,
                outcome_of(outcome),
                elapsed_micros,
            ),
    {
        match outcome {
            Err(e) => match self.step {
                Step::Finished => {},
                _ => {
                    let text = self.error_text(e.as_str());
                    job.finalize_error(text);
                    self.step = Step::Finished;
                },
            },
            Ok(found) => match self.step {
                Step::Download => {
                    self.step = Step::ResolveDownloaded;
                },
                Step::Resolve | Step::ResolveDownloaded => {
                    self.model_path = found;
                    job.emit(stage_event("loading tokenizer"));
                    self.step = Step::FindTokenizer;
                },
                Step::FindTokenizer => {
                    self.step = Step::LoadTokenizer;
                },
                Step::LoadTokenizer => {
                    self.step = Step::CreateDir;
                },
                Step::CreateDir => {
                    self.step = Step::Build;
                },
                Step::Build => {
                    self.built_micros = elapsed_micros;
                    self.step = Step::Discover;
                },
                Step::Discover => {
                    job.emit(
                        ExtractProgress::Done {
                            path: self.output_path.clone(),
                            id: found,
                            elapsed_micros: self.built_micros,
                        },
                    );
                    job.set_status(JobStatus::Done);
                    self.step = Step::Finished;
                },
                Step::Finished => {},
            },
        }
    }
}

} // verus!
