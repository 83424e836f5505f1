//! What is reported while a model is built or downloaded, and when.
use vstd::prelude::*;

use crate::server::jobs::{stage_event, stage_report, ExtractProgress, Report};
use crate::text::{concat, concat3, decimal, decimal_string};

verus! {

/// Reports of progress within a layer come no faster than this.
pub const FEATURE_INTERVAL_MS: u64 = 150;

/// Reports of a download's progress come no faster than this.
pub const DOWNLOAD_INTERVAL_MS: u64 = 100;

/// A positive number, or nothing.
pub open spec fn positive(n: usize) -> Option<usize> {
    if n > 0 {
        Some(n)
    } else {
        None
    }
}

/// A positive number, or nothing.
fn positive_of(n: usize) -> (r: Option<usize>)
    ensures
        r == positive(n),
{
    if n > 0 {
        Some(n)
    } else {
        None
    }
}

/// Follows a build and says what to report of it.
pub struct BuildProgress {
    pub current_stage: String,
    pub last_layer_total: usize,
}

/// What a [`BuildProgress`] holds, as plain values.
pub struct BuildState {
    pub stage: Seq<char>,
    pub layers: usize,
}

impl View for BuildProgress {
    type V = BuildState;

    open spec fn view(&self) -> BuildState {
        BuildState { stage: self.current_stage@, layers: self.last_layer_total }
    }
}

/// A build in a stage that begins.
pub open spec fn in_stage(s: BuildState, stage: Seq<char>) -> BuildState {
    BuildState { stage, ..s }
}

/// A build in one of `total` layers.
pub open spec fn in_layer(s: BuildState, total: usize) -> BuildState {
    BuildState { layers: total, ..s }
}

/// Whether progress within a layer is reported: always its start and its end,
/// else only some time after the last report.
pub open spec fn feature_due(done: usize, total: usize, since_ms: u64) -> bool {
    done == 0 || (total > 0 && done == total) || since_ms >= FEATURE_INTERVAL_MS
}

impl BuildProgress {
    /// Nothing has begun.
    pub fn new() -> (r: BuildProgress)
        ensures
            r@ == (BuildState { stage: Seq::empty(), layers: 0 }),
    {
        BuildProgress { current_stage: String::new(), last_layer_total: 0 }
    }

    /// A stage begins.
    pub fn on_stage(&mut self, stage: &str) -> (r: ExtractProgress)
        ensures
            r@ == stage_report(stage@),
            final(self)@ == in_stage(old(self)@, stage@),
    {
        self.current_stage = stage.to_owned();
        stage_event(stage)
    }

    /// A layer begins.
    pub fn on_layer_start(&mut self, component: &str, layer: usize, total: usize) -> (r:
        ExtractProgress)
        ensures
            r@ == (Report::Progress {
                stage: old(self)@.stage,
                component: Some(component@),
                layer: Some(layer),
                total_layers: Some(total),
                done: Some(0),
                total: None,
            }),
            final(self)@ == in_layer(old(self)@, total),
    {
        self.last_layer_total = total;
        ExtractProgress::Progress {
            stage: self.current_stage.clone(),
            component: Some(component.to_owned()),
            layer: Some(layer),
            total_layers: Some(total),
            done: Some(0),
            total: None,
        }
    }

    /// `done` of `total` features of a layer are there, `since_ms` after the
    /// last report.
    pub fn on_feature_progress(
        &self,
        component: &str,
        layer: usize,
        done: usize,
        total: usize,
        since_ms: u64,
    ) -> (r: Option<ExtractProgress>)
        ensures
            match r {
                Some(e) => feature_due(done, total, since_ms) && e@ == (Report::Progress {
                    stage: self@.stage,
                    component: Some(component@),
                    layer: Some(layer),
                    total_layers: Some(self@.layers),
                    done: Some(done),
                    total: positive(total),
                }),
                None => !feature_due(done, total, since_ms),
            },
    {
        if done == 0 || (total > 0 && done == total) || since_ms >= FEATURE_INTERVAL_MS {
            Some(
                ExtractProgress::Progress {
                    stage: self.current_stage.clone(),
                    component: Some(component.to_owned()),
                    layer: Some(layer),
                    total_layers: Some(self.last_layer_total),
                    done: Some(done),
                    total: positive_of(total),
                },
            )
        } else {
            None
        }
    }

    /// A layer is done, after `elapsed_ms` milliseconds.
    pub fn on_layer_done(&self, component: &str, layer: usize, elapsed_ms: usize) -> (r:
        ExtractProgress)
        ensures
            r@ == (Report::Progress {
                stage: self@.stage,
                component: Some(component@),
                layer: Some(layer),
                total_layers: Some(self@.layers),
                done: None,
                total: Some(elapsed_ms),
            }),
    {
        ExtractProgress::Progress {
            stage: self.current_stage.clone(),
            component: Some(component.to_owned()),
            layer: Some(layer),
            total_layers: Some(self.last_layer_total),
            done: None,
            total: Some(elapsed_ms),
        }
    }

    /// A stage is done, after `elapsed_ms` milliseconds.
    pub fn on_stage_done(&self, stage: &str, elapsed_ms: usize) -> (r: ExtractProgress)
        ensures
            r@ == (Report::Progress {
                stage: stage@ + " done"@,
                component: None,
                layer: None,
                total_layers: None,
                done: None,
                total: Some(elapsed_ms),
            }),
    {
        ExtractProgress::Progress {
            stage: concat(stage, " done"),
            component: None,
            layer: None,
            total_layers: None,
            done: None,
            total: Some(elapsed_ms),
        }
    }
}

/// Follows the download of one file and says what to report of it.
pub struct DownloadProgress {
    pub filename: String,
    /// The file's number, counted from one.
    pub file_idx: usize,
    pub total_files: usize,
    pub total: usize,
    pub sent: usize,
}

/// What a [`DownloadProgress`] holds, as plain values.
pub struct DownloadState {
    pub filename: Seq<char>,
    pub file_idx: usize,
    pub total_files: usize,
    pub total: usize,
    pub sent: usize,
}

impl View for DownloadProgress {
    type V = DownloadState;

    open spec fn view(&self) -> DownloadState {
        DownloadState {
            filename: self.filename@,
            file_idx: self.file_idx,
            total_files: self.total_files,
            total: self.total,
            sent: self.sent,
        }
    }
}

/// The report of a download.
pub open spec fn download_report(s: DownloadState) -> Report {
    Report::Progress {
        stage: "downloading ("@ + decimal(s.file_idx as nat) + "/"@ + decimal(s.total_files as nat)
            + ")"@,
        component: Some(s.filename),
        layer: None,
        total_layers: None,
        done: Some(s.sent),
        total: positive(s.total),
    }
}

/// Whether the progress of a download is reported: only some time after the
/// last report.
pub open spec fn download_due(since_ms: u64) -> bool {
    since_ms >= DOWNLOAD_INTERVAL_MS
}

/// What has been received after `n` more bytes.
pub open spec fn received(sent: usize, n: usize) -> usize {
    if sent + n > usize::MAX {
        usize::MAX
    } else {
        (sent + n) as usize
    }
}

/// A download of `size` bytes that begins; a name that is given replaces the
/// known one.
pub open spec fn begun(s: DownloadState, size: usize, filename: Seq<char>) -> DownloadState {
    DownloadState {
        filename: if filename.len() > 0 {
            filename
        } else {
            s.filename
        },
        total: size,
        sent: 0,
        ..s
    }
}

/// A download after `n` more bytes.
pub open spec fn with_bytes(s: DownloadState, n: usize) -> DownloadState {
    DownloadState { sent: received(s.sent, n), ..s }
}

/// A download that has ended: at least all of it was received.
pub open spec fn ended(s: DownloadState) -> DownloadState {
    DownloadState {
        sent: if s.total > s.sent {
            s.total
        } else {
            s.sent
        },
        ..s
    }
}

impl DownloadProgress {
    /// Nothing has been received.
    pub fn new(filename: &str, file_idx: usize, total_files: usize) -> (r: DownloadProgress)
        ensures
            r@ == (DownloadState {
                filename: filename@,
                file_idx,
                total_files,
                total: 0,
                sent: 0,
            }),
    {
        DownloadProgress { filename: filename.to_owned(), file_idx, total_files, total: 0, sent: 0 }
    }

    /// What to report now.
    pub fn report(&self) -> (r: ExtractProgress)
        ensures
            r@ == download_report(self@),
    {
        let a = decimal_string(self.file_idx as u64);
        let b = decimal_string(self.total_files as u64);
        let head = concat3("downloading (", a.as_str(), "/");
        ExtractProgress::Progress {
            stage: concat3(head.as_str(), b.as_str(), ")"),
            component: Some(self.filename.clone()),
            layer: None,
            total_layers: None,
            done: Some(self.sent),
            total: positive_of(self.total),
        }
    }

    /// The download of `size` bytes begins; a name that is given replaces the
    /// known one.
    pub fn init(&mut self, size: usize, filename: &str) -> (r: ExtractProgress)
        ensures
            final(self)@ == begun(old(self)@, size, filename@),
            r@ == download_report(final(self)@),
    {
        self.total = size;
        self.sent = 0;
        if !filename.is_empty() {
            self.filename = filename.to_owned();
        }
        self.report()
    }

    /// `size` more bytes are there, `since_ms` after the last report.
    pub fn update(&mut self, size: usize, since_ms: u64) -> (r: Option<ExtractProgress>)
        ensures
            final(self)@ == with_bytes(old(self)@, size),
            match r {
                Some(e) => download_due(since_ms) && e@ == download_report(final(self)@),
                None => !download_due(since_ms),
            },
    {
        self.sent = self.sent.saturating_add(size);
        if since_ms >= DOWNLOAD_INTERVAL_MS {
            Some(self.report())
        } else {
            None
        }
    }

    /// The download has ended: at least all of it was received.
    pub fn finish(&mut self) -> (r: ExtractProgress)
        ensures
            final(self)@ == ended(old(self)@),
            r@ == download_report(final(self)@),
    {
        if self.total > self.sent {
            self.sent = self.total;
        }
        self.report()
    }
}

} // verus!
