//! Requests to build an index out of a model: what is asked for, where the
//! result goes, and which files a download needs.
use vstd::prelude::*;

use crate::path::{join_path, joined_path};
use crate::server::error::{Refusal, ServerError};
use crate::server::jobs::{
    busy_refusal, ExtractJob, ExtractJobs, JobStatus, JobView, JobsView,
};
use crate::text::{
    concat, concat3, contains, ends_with, has_prefix, has_substring, has_suffix, lowercase_of,
    occurs_at, opt_text, piece_occurs, pieces, pieces_nonempty, same, small_hex, small_hex_string,
    split, starts_with, texts, to_lowercase, trim, trim_end_matches, trimmed, without_endings,
};

verus! {

/// A request to build an index.
#[derive(Debug)]
pub struct ExtractRequest {
    /// A path, or a model's id of the form `owner/name`.
    pub model: String,
    /// How much is built.
    pub level: String,
    /// The name of the directory to build in.
    pub output: Option<String>,
}

/// That a build has been started.
#[derive(Debug)]
pub struct ExtractStartResponse {
    pub id: String,
    /// Where the build's progress is reported.
    pub status_url: String,
}

/// A request for a build's progress.
#[derive(Debug)]
pub struct StatusQuery {
    pub id: String,
}

/// How much is built.
#[derive(Debug, Clone, Copy, PartialEq, Eq, Structural)]
pub enum ExtractLevel {
    Browse,
    Attention,
    Inference,
    All,
}

/// The level of a request that names none.
pub fn default_level() -> (r: String)
    ensures
        r@ == "inference"@,
{
    "inference".to_owned()
}

/// The level that a text in small letters names.
pub open spec fn level_of(lower: Seq<char>) -> Option<ExtractLevel> {
    if lower == "browse"@ {
        Some(ExtractLevel::Browse)
    } else if lower == "attention"@ || lower == "attn"@ {
        Some(ExtractLevel::Attention)
    } else if lower == "inference"@ || lower == "infer"@ {
        Some(ExtractLevel::Inference)
    } else if lower == "all"@ {
        Some(ExtractLevel::All)
    } else {
        None
    }
}

/// What is said of a text that names no level.
pub open spec fn unknown_level(lower: Seq<char>) -> Seq<char> {
    "unknown extract level '"@ + lower
        + "' (expected: browse, attention, inference, all)"@
}

/// The level that a text in small letters names.
pub fn level_named(lower: &str) -> (r: Result<ExtractLevel, String>)
    ensures
        match r {
            Ok(l) => level_of(lower@) == Some(l),
            Err(e) => level_of(lower@) is None && e@ == unknown_level(lower@),
        },
{
    if same(lower, "browse") {
        Ok(ExtractLevel::Browse)
    } else if same(lower, "attention") || same(lower, "attn") {
        Ok(ExtractLevel::Attention)
    } else if same(lower, "inference") || same(lower, "infer") {
        Ok(ExtractLevel::Inference)
    } else if same(lower, "all") {
        Ok(ExtractLevel::All)
    } else {
        Err(
            concat3(
                "unknown extract level '",
                lower,
                "' (expected: browse, attention, inference, all)",
            ),
        )
    }
}

/// The level that a text names, in letters of any case.
pub fn parse_level(s: &str) -> (r: Result<ExtractLevel, String>)
    ensures
        match r {
            Ok(l) => level_of(lowercase_of(s@)) == Some(l),
            Err(e) => level_of(lowercase_of(s@)) is None && e@ == unknown_level(lowercase_of(s@)),
        },
{
    let lower = to_lowercase(s);
    level_named(lower.as_str())
}

/// The name of the directory for a model: the last part of its path, without
/// the model file ending, with the index ending.
pub open spec fn output_name(model: Seq<char>) -> Seq<char> {
    without_endings(pieces(model, '/').last(), ".gguf"@) + ".vindex"@
}

/// The name of the directory for a model that a request gives none for.
pub fn default_output_name(model: &str) -> (r: String)
    ensures
        r@ == output_name(model@),
{
    let parts = split(model, '/');
    proof {
        pieces_nonempty(model@, '/');
        reveal_strlit(".gguf");
        assert(texts(parts@).last() == parts@[parts@.len() - 1]@);
    }
    assert(texts(parts@).len() == parts@.len());
    let leaf = trim_end_matches(parts[parts.len() - 1].as_str(), ".gguf");
    concat(leaf.as_str(), ".vindex")
}

/// A name that stays in the directory that it is put in.
pub open spec fn plain_name(rel: Seq<char>) -> bool {
    rel.len() > 0 && !has_substring(rel, ".."@) && !has_prefix(rel, "/"@)
}

/// What is said of any other name.
pub open spec fn bad_output(rel: Seq<char>) -> Refusal {
    Refusal::BadRequest(
        "invalid output name '"@ + rel
            + "' \u{2014} must be a plain directory name under the vindex dir"@,
    )
}

/// The path of a directory to build in.
pub fn sanitize_output_path(vindex_dir: &str, rel: &str) -> (r: Result<String, ServerError>)
    ensures
        match r {
            Ok(p) => plain_name(rel@) && p@ == joined_path(vindex_dir@, rel@),
            Err(e) => !plain_name(rel@) && e@ == bad_output(rel@),
        },
{
    if rel.is_empty() || contains(rel, "..") || starts_with(rel, "/") {
        return Err(
            ServerError::BadRequest(
                concat3(
                    "invalid output name '",
                    rel,
                    "' \u{2014} must be a plain directory name under the vindex dir",
                ),
            ),
        );
    }
    Ok(join_path(vindex_dir, rel))
}

/// A directory that is built in lies in the directory for indexes: its path
/// goes on from there, and no part of what follows leads up again.
pub proof fn output_stays_inside(vindex_dir: Seq<char>, rel: Seq<char>)
    requires
        plain_name(rel),
    ensures
        has_prefix(joined_path(vindex_dir, rel), vindex_dir),
        !pieces(rel, '/').contains(".."@),
{
    assert(joined_path(vindex_dir, rel).subrange(0, vindex_dir.len() as int) =~= vindex_dir);
    if pieces(rel, '/').contains(".."@) {
        let i = choose|i: int| 0 <= i < pieces(rel, '/').len() && pieces(rel, '/')[i] == ".."@;
        let at = piece_occurs(rel, '/', i);
        assert(occurs_at(rel, ".."@, at));
    }
}

/// A number mixed out of a counter and the bytes of a thread's name.
pub open spec fn mixed(h: u32, bytes: Seq<u8>) -> u32
    decreases bytes.len(),
{
    if bytes.len() == 0 {
        h
    } else {
        ((mixed(h, bytes.drop_last()) * 16777619) % 0x1_0000_0000) as u32 ^ (bytes.last() as u32)
    }
}

/// The number of a job: a counter mixed with the bytes of a thread's name.
pub open spec fn nonce_of(counter: u32, thread: Seq<u8>) -> u32 {
    counter ^ mixed(0x9e37_79b9u32, thread)
}

/// A number mixed out of a counter and the bytes of a thread's name.
pub fn rand_like(counter: u32, thread: &[u8]) -> (r: u32)
    ensures
        r == nonce_of(counter, thread@),
{
    let mut h: u32 = 0x9e37_79b9;
    let mut i: usize = 0;
    assert(thread@.take(0) =~= Seq::empty());
    while i < thread.len()
        invariant
            0 <= i <= thread@.len(),
            h == mixed(0x9e37_79b9u32, thread@.take(i as int)),
        decreases thread@.len() - i,
    {
        assert(thread@.take(i + 1).drop_last() =~= thread@.take(i as int));
        let wide: u64 = (h as u64) * 16777619;
        h = ((wide % 0x1_0000_0000) as u32) ^ (thread[i] as u32);
        i += 1;
    }
    assert(thread@.take(i as int) =~= thread@);
    counter ^ h
}

/// The id of a job that starts at the given time with the given number.
pub fn next_job_id(millis: u64, nonce: u32) -> (r: String)
    ensures
        r@ == "x-"@ + small_hex(millis as nat) + "-"@ + small_hex(nonce as nat),
{
    let t = small_hex_string(millis);
    let n = small_hex_string(nonce as u64);
    let head = concat3("x-", t.as_str(), "-");
    concat(head.as_str(), n.as_str())
}

/// A model's id of the form `owner/name`, unless it is a path that exists.
pub open spec fn is_hf_id(s: Seq<char>, exists: bool) -> bool {
    let parts = pieces(s, '/');
    &&& !has_prefix(s, "/"@)
    &&& !has_prefix(s, "."@)
    &&& !exists
    &&& parts.len() == 2
    &&& parts[0].len() > 0
    &&& parts[1].len() > 0
}

/// Whether `s` is a model's id, where `exists` says whether it is a path that
/// exists.
pub fn looks_like_hf_id(s: &str, exists: bool) -> (r: bool)
    ensures
        r == is_hf_id(s@, exists),
{
    if starts_with(s, "/") || starts_with(s, ".") {
        return false;
    }
    if exists {
        return false;
    }
    let parts = split(s, '/');
    assert(texts(parts@).len() == parts@.len());
    if parts.len() != 2 {
        return false;
    }
    assert(texts(parts@)[0] == parts@[0]@);
    assert(texts(parts@)[1] == parts@[1]@);
    !parts[0].as_str().is_empty() && !parts[1].as_str().is_empty()
}

/// A file that a build needs.
pub open spec fn is_needed(name: Seq<char>) -> bool {
    ||| has_suffix(name, ".safetensors"@)
    ||| name == "model.safetensors.index.json"@
    ||| name == "config.json"@
    ||| name == "tokenizer.json"@
    ||| name == "tokenizer_config.json"@
    ||| name == "special_tokens_map.json"@
    ||| name == "generation_config.json"@
    ||| name == "tokenizer.model"@
}

/// Whether a build needs the file.
pub fn is_needed_weight_file(name: &str) -> (r: bool)
    ensures
        r == is_needed(name@),
{
    ends_with(name, ".safetensors") || same(name, "model.safetensors.index.json") || same(
        name,
        "config.json",
    ) || same(name, "tokenizer.json") || same(name, "tokenizer_config.json") || same(
        name,
        "special_tokens_map.json",
    ) || same(name, "generation_config.json") || same(name, "tokenizer.model")
}

/// The needed files among `names`, in order.
pub open spec fn needed_files(names: Seq<Seq<char>>) -> Seq<Seq<char>>
    decreases names.len(),
{
    if names.len() == 0 {
        Seq::empty()
    } else {
        let before = needed_files(names.drop_last());
        if is_needed(names.last()) {
            before.push(names.last())
        } else {
            before
        }
    }
}

/// What is said of a repository without any needed file.
pub open spec fn no_files(model_id: Seq<char>) -> Seq<char> {
    "repo "@ + model_id
        + " has no .safetensors / config.json / tokenizer.json siblings \u{2014} is this a model repo?"@
}

/// What is said of a repository without a tokenizer file.
pub open spec fn no_tokenizer(model_id: Seq<char>) -> Seq<char> {
    "repo "@ + model_id
        + " does not publish a `tokenizer.json` (uses legacy `vocab.json` + `merges.txt`). The extractor requires the HF fast-tokenizer format \u{2014} try a different checkpoint of the same architecture, or convert the tokenizer manually first."@
}

/// The files of a repository that a build needs.  There must be some, and the
/// tokenizer's must be among them.
pub fn files_to_download(model_id: &str, siblings: &Vec<String>) -> (r: Result<Vec<String>, String>)
    ensures
        ({
            let files = needed_files(texts(siblings@));
            match r {
                Ok(v) => texts(v@) == files && files.len() > 0 && files.contains(
                    "tokenizer.json"@,
                ),
                Err(e) => if files.len() == 0 {
                    e@ == no_files(model_id@)
                } else {
                    !files.contains("tokenizer.json"@) && e@ == no_tokenizer(model_id@)
                },
            }
        }),
{
    let ghost all = texts(siblings@);
    let mut out: Vec<String> = Vec::new();
    let mut has_tokenizer = false;
    let mut i: usize = 0;
    assert(all.take(0) =~= Seq::empty());
    assert(texts(out@) =~= Seq::empty());
    while i < siblings.len()
        invariant
            0 <= i <= siblings.len(),
            all == texts(siblings@),
            texts(out@) == needed_files(all.take(i as int)),
            has_tokenizer == texts(out@).contains("tokenizer.json"@),
        decreases siblings.len() - i,
    {
        let ghost before = out@;
        assert(all.take(i + 1).drop_last() =~= all.take(i as int));
        assert(all.take(i + 1).last() == siblings@[i as int]@);
        let name = siblings[i].as_str();
        if is_needed_weight_file(name) {
            out.push(name.to_owned());
            assert(texts(out@) =~= texts(before).push(name@));
            if same(name, "tokenizer.json") {
                has_tokenizer = true;
                assert(texts(out@)[out@.len() - 1] == "tokenizer.json"@);
            } else {
                proof {
                    let want = "tokenizer.json"@;
                    if texts(before).contains(want) {
                        let k = choose|k: int|
                            0 <= k < texts(before).len() && texts(before)[k] == want;
                        assert(texts(out@)[k] == want);
                    }
                }
            }
        }
        i += 1;
    }
    assert(all.take(i as int) =~= all);
    if out.len() == 0 {
        assert(texts(out@).len() == 0);
        return Err(
            concat3(
                "repo ",
                model_id,
                " has no .safetensors / config.json / tokenizer.json siblings \u{2014} is this a model repo?",
            ),
        );
    }
    if !has_tokenizer {
        return Err(
            concat3(
                "repo ",
                model_id,
                " does not publish a `tokenizer.json` (uses legacy `vocab.json` + `merges.txt`). The extractor requires the HF fast-tokenizer format \u{2014} try a different checkpoint of the same architecture, or convert the tokenizer manually first.",
            ),
        );
    }
    Ok(out)
}

/// What is said of a refusal by the model hub, by the code in its text.
pub open spec fn hub_error(model_id: Seq<char>, context: Seq<char>, raw: Seq<char>) -> Seq<char> {
    if has_substring(raw, "403"@) {
        "HuggingFace refused access to "@ + model_id + " ("@ + context
            + ": HTTP 403). This usually means the model is gated \u{2014} open https://huggingface.co/"@
            + model_id
            + " in a browser, accept the license, and confirm your `HF_TOKEN` (or ~/.cache/huggingface/token) belongs to the account that accepted it."@
    } else if has_substring(raw, "401"@) {
        "HuggingFace rejected the request to "@ + model_id + " ("@ + context
            + ": HTTP 401). Set `HF_TOKEN` or run `huggingface-cli login` so the extract worker can authenticate."@
    } else if has_substring(raw, "404"@) {
        "HuggingFace has no repo called "@ + model_id + " ("@ + context
            + ": HTTP 404). Double-check the owner/name."@
    } else {
        context + " on "@ + model_id + ": "@ + raw
    }
}

/// What is said of a refusal by the model hub whose text is `raw`.
pub fn translate_hf_error(model_id: &str, context: &str, raw: &str) -> (r: String)
    ensures
        r@ == hub_error(model_id@, context@, raw@),
{
    if contains(raw, "403") {
        let mut out = concat3("HuggingFace refused access to ", model_id, " (");
        out.append(context);
        out.append(": HTTP 403). This usually means the model is gated \u{2014} open https://huggingface.co/");
        out.append(model_id);
        out.append(" in a browser, accept the license, and confirm your `HF_TOKEN` (or ~/.cache/huggingface/token) belongs to the account that accepted it.");
        out
    } else if contains(raw, "401") {
        let mut out = concat3("HuggingFace rejected the request to ", model_id, " (");
        out.append(context);
        out.append(": HTTP 401). Set `HF_TOKEN` or run `huggingface-cli login` so the extract worker can authenticate.");
        out
    } else if contains(raw, "404") {
        let mut out = concat3("HuggingFace has no repo called ", model_id, " (");
        out.append(context);
        out.append(": HTTP 404). Double-check the owner/name.");
        out
    } else {
        let mut out = concat3(context, " on ", model_id);
        out.append(": ");
        out.append(raw);
        out
    }
}

/// What a request asks for, once it has been checked.
pub struct ExtractWork {
    pub model: String,
    pub level: ExtractLevel,
    pub output_path: String,
}

/// What an [`ExtractWork`] says, as plain values.
pub struct WorkView {
    pub model: Seq<char>,
    pub level: ExtractLevel,
    pub output_path: Seq<char>,
}

impl View for ExtractWork {
    type V = WorkView;

    open spec fn view(&self) -> WorkView {
        WorkView { model: self.model@, level: self.level, output_path: self.output_path@ }
    }
}

/// The name of the directory that a request asks for: its own, if it gives
/// one, else the model's.
pub open spec fn wanted_output(output: Option<Seq<char>>, model: Seq<char>) -> Seq<char> {
    match output {
        Some(s) => if trimmed(s).len() > 0 {
            trimmed(s)
        } else {
            output_name(model)
        },
        None => output_name(model),
    }
}

/// What a request asks for, or why it is refused.  `lower` is its level in
/// small letters.
pub open spec fn work_of(
    vindex_dir: Option<Seq<char>>,
    model: Seq<char>,
    lower: Seq<char>,
    output: Option<Seq<char>>,
) -> Result<WorkView, Refusal> {
    match vindex_dir {
        None => Err(
            Refusal::BadRequest(
                "server was started without a vindex directory; pass --vindex-dir or set LARQL_VINDEX_DIR so extracts have somewhere to land"@,
            ),
        ),
        Some(dir) => match level_of(lower) {
            None => Err(Refusal::BadRequest(unknown_level(lower))),
            Some(level) => {
                let name = trimmed(model);
                if name.len() == 0 {
                    Err(Refusal::BadRequest("model is required"@))
                } else {
                    let rel = wanted_output(output, name);
                    if plain_name(rel) {
                        Ok(WorkView { model: name, level, output_path: joined_path(dir, rel) })
                    } else {
                        Err(bad_output(rel))
                    }
                }
            },
        },
    }
}

/// The text of an optional string slice.
pub open spec fn opt_str(s: Option<&str>) -> Option<Seq<char>> {
    match s {
        Some(t) => Some(t@),
        None => None,
    }
}

/// Checks a request whose level, in small letters, is `lower`.
pub fn check_request(vindex_dir: Option<&str>, req: &ExtractRequest, lower: &str) -> (r: Result<
    ExtractWork,
    ServerError,
>)
    ensures
        match r {
            Ok(w) => work_of(opt_str(vindex_dir), req.model@, lower@, opt_text(req.output)) == Ok::<
                WorkView,
                Refusal,
            >(w@),
            Err(e) => work_of(opt_str(vindex_dir), req.model@, lower@, opt_text(req.output))
                == Err::<WorkView, Refusal>(e@),
        },
{
    let dir = match vindex_dir {
        Some(d) => d,
        None => return Err(
            ServerError::BadRequest(
                "server was started without a vindex directory; pass --vindex-dir or set LARQL_VINDEX_DIR so extracts have somewhere to land".to_owned(),
            ),
        ),
    };
    let level = match level_named(lower) {
        Ok(l) => l,
        Err(text) => return Err(ServerError::BadRequest(text)),
    };
    let model = trim(req.model.as_str());
    if model.as_str().is_empty() {
        return Err(ServerError::BadRequest("model is required".to_owned()));
    }
    let rel = match &req.output {
        Some(s) => {
            let name = trim(s.as_str());
            if name.as_str().is_empty() {
                default_output_name(model.as_str())
            } else {
                name
            }
        },
        None => default_output_name(model.as_str()),
    };
    match sanitize_output_path(dir, rel.as_str()) {
        Ok(output_path) => Ok(ExtractWork { model, level, output_path }),
        Err(e) => Err(e),
    }
}

/// The job that a request starts.
pub open spec fn started_job(
    id: Seq<char>,
    w: WorkView,
    level: Seq<char>,
) -> JobView {
    JobView {
        id,
        model: w.model,
        level,
        output_path: w.output_path,
        status: JobStatus::Running,
        log: Seq::empty(),
    }
}

/// The jobs after a request that asks for `work`, and where the status of its
/// job is found, or why it is refused.
pub open spec fn after_request(
    jobs: JobsView,
    work: Result<WorkView, Refusal>,
    id: Seq<char>,
    level: Seq<char>,
) -> (JobsView, Result<Seq<char>, Refusal>) {
    match work {
        Err(e) => (jobs, Err(e)),
        Ok(w) => if jobs.busy() {
            (jobs, Err(busy_refusal(jobs.current->Some_0)))
        } else {
            (
                jobs.claimed(started_job(id, w, level)),
                Ok("/v1/vindexes/extract/status?id="@ + id),
            )
        },
    }
}

/// Checks a request and starts the job that it asks for, under `id`.
pub fn handle_extract(
    jobs: &mut ExtractJobs,
    vindex_dir: Option<&str>,
    req: &ExtractRequest,
    id: &str,
) -> (r: Result<(ExtractStartResponse, ExtractWork), ServerError>)
    requires
        old(jobs).wf(),
    ensures
        final(jobs).wf(),
        ({
            let work = work_of(
                opt_str(vindex_dir),
                req.model@,
                lowercase_of(req.level@),
                opt_text(req.output),
            );
            let (after, answer) = after_request(old(jobs)@, work, id@, req.level@);
            &&& final(jobs)@ == after
            &&& match answer {
                Err(e) => r matches Err(x) && x@ == e,
                Ok(url) => r matches Ok(x) && x.0.id@ == id@ && x.0.status_url@ == url && work
                    == Ok::<WorkView, Refusal>(x.1@),
            }
        }),
{
    let lower = to_lowercase(req.level.as_str());
    let work = match check_request(vindex_dir, req, lower.as_str()) {
        Ok(w) => w,
        Err(e) => return Err(e),
    };
    let job = ExtractJob {
        id: id.to_owned(),
        model: work.model.clone(),
        level: req.level.clone(),
        output_path: work.output_path.clone(),
        status: JobStatus::Running,
        events: Vec::new(),
    };
    assert(job@.log =~= Seq::empty());
    match jobs.claim(job) {
        Ok(_) => Ok(
            (
                ExtractStartResponse {
                    id: id.to_owned(),
                    status_url: concat("/v1/vindexes/extract/status?id=", id),
                },
                work,
            ),
        ),
        Err(e) => Err(e),
    }
}

} // verus!
