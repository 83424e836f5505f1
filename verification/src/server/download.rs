//! Downloading a model: which files, in which order, and what is said when one
//! cannot be had.
use vstd::prelude::*;

use crate::server::extract::{
    files_to_download, hub_error, needed_files, no_files, no_tokenizer, translate_hf_error,
};
use crate::server::jobs::{ExtractProgress, Report};
use crate::server::progress::{download_report, DownloadProgress, DownloadState};
use crate::text::{concat, texts};

verus! {

/// The report that a download begins.
pub fn download_begins(model_id: &str) -> (r: ExtractProgress)
    ensures
        r@ == (Report::Progress {
            stage: "fetching HF repo info"@,
            component: Some(model_id@),
            layer: None,
            total_layers: None,
            done: None,
            total: None,
        }),
{
    ExtractProgress::Progress {
        stage: "fetching HF repo info".to_owned(),
        component: Some(model_id.to_owned()),
        layer: None,
        total_layers: None,
        done: None,
        total: None,
    }
}

/// A download: the files, and how many of them are there.
pub struct Download {
    pub model_id: String,
    pub files: Vec<String>,
    pub done: usize,
}

/// What a [`Download`] holds, as plain values.
pub struct DownloadView {
    pub model_id: Seq<char>,
    pub files: Seq<Seq<char>>,
    pub done: nat,
}

impl View for Download {
    type V = DownloadView;

    open spec fn view(&self) -> DownloadView {
        DownloadView {
            model_id: self.model_id@,
            files: texts(self.files@),
            done: self.done as nat,
        }
    }
}

impl Download {
    /// No more files are there than there are files.
    pub open spec fn wf(&self) -> bool {
        self.done <= self.files@.len()
    }

    /// Plans a download, given what the repository's description gave: the
    /// names of its files, or an error.
    pub fn plan(model_id: &str, siblings: Result<Vec<String>, String>) -> (r: Result<
        Download,
        String,
    >)
        ensures
            match siblings {
                Err(raw) => r matches Err(e) && e@ == hub_error(model_id@, "repo info"@, raw@),
                Ok(names) => {
                    let files = needed_files(texts(names@));
                    match r {
                        Ok(d) => d.wf() && files.contains("tokenizer.json"@) && d@ == (
                        DownloadView { model_id: model_id@, files, done: 0 }),
                        Err(e) => if files.len() == 0 {
                            e@ == no_files(model_id@)
                        } else {
                            !files.contains("tokenizer.json"@) && e@ == no_tokenizer(model_id@)
                        },
                    }
                },
            },
    {
        match siblings {
            Err(raw) => Err(translate_hf_error(model_id, "repo info", raw.as_str())),
            Ok(names) => match files_to_download(model_id, &names) {
                Ok(files) => Ok(Download { model_id: model_id.to_owned(), files, done: 0 }),
                Err(e) => Err(e),
            },
        }
    }

    /// The file that is next, ready to follow its download; nothing when all
    /// are there.  Files are counted from one.
    pub fn next_file(&self) -> (r: Option<DownloadProgress>)
        requires
            self.wf(),
        ensures
            match r {
                None => self@.done == self@.files.len(),
                Some(p) => self@.done < self@.files.len() && p@ == (DownloadState {
                    filename: self@.files[self@.done as int],
                    file_idx: (self@.done + 1) as usize,
                    total_files: self@.files.len() as usize,
                    total: 0,
                    sent: 0,
                }),
            },
    {
        if self.done < self.files.len() {
            Some(
                DownloadProgress::new(
                    self.files[self.done].as_str(),
                    self.done + 1,
                    self.files.len(),
                ),
            )
        } else {
            None
        }
    }

    /// The next file was downloaded, or could not be.
    pub fn downloaded(&mut self, result: Result<(), String>) -> (r: Result<(), String>)
        requires
            old(self).wf(),
            old(self).done < old(self).files@.len(),
        ensures
            final(self).wf(),
            match result {
                Ok(_) => r is Ok && final(self)@ == (DownloadView {
                    done: old(self)@.done + 1,
                    ..old(self)@
                }),
                Err(raw) => final(self)@ == old(self)@ && (r matches Err(e) && e@ == hub_error(
                    old(self)@.model_id,
                    "download "@ + old(self)@.files[old(self)@.done as int],
                    raw@,
                )),
            },
    {
        match result {
            Ok(_) => {
                assert(self.files.len() == self.files@.len());
                self.done = self.done + 1;
                Ok(())
            },
            Err(raw) => {
                let context = concat("download ", self.files[self.done].as_str());
                Err(translate_hf_error(self.model_id.as_str(), context.as_str(), raw.as_str()))
            },
        }
    }
}

/// The reports of a file that was there already: that its download begins, and
/// that it has ended.
pub fn cached_file_reports(progress: DownloadProgress, size: usize) -> (r: (
    ExtractProgress,
    ExtractProgress,
))
    ensures
        r.0@ == download_report(DownloadState { total: size, sent: 0, ..progress@ }),
        r.1@ == download_report(DownloadState { total: size, sent: size, ..progress@ }),
{
    let mut p = progress;
    let name = p.filename.clone();
    let first = p.init(size, name.as_str());
    let last = p.finish();
    (first, last)
}

/// What is said when the hub's client cannot be made.
pub fn no_client(e: &str) -> (r: String)
    ensures
        r@ == "hf api init: "@ + e@,
{
    concat("hf api init: ", e)
}

} // verus!
