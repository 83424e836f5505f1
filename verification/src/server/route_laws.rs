//! What holds of the functions behind the server's routes.
use vstd::prelude::*;

use crate::path::joined_path;
use crate::server::answer_laws::{starts_with_word, statistics_told, word_found};
use crate::server::download::{download_begins, no_client, Download};
use crate::server::error::{Refusal, ServerError};
use crate::server::extract::{
    check_request, default_level, default_output_name, files_to_download, handle_extract,
    is_needed_weight_file, level_named, looks_like_hf_id, needed_files, plain_name,
    sanitize_output_path, translate_hf_error, ExtractLevel, ExtractRequest, ExtractStartResponse,
    ExtractWork,
};
use crate::server::extract_run::{build_options, BuildOptions, ExtractRun, Step};
use crate::server::hf::{default_limit, hf_search_url, percent_encoded, HfSearchParams};
use crate::server::insert::{
    lql_key, mode_str, no_model, no_session, parse_mode, InsertMode,
};
use crate::server::jobs::{
    goes_on, stage_event, ExtractJob, ExtractJobs, ExtractProgress, JobStatus, Report,
};
use crate::server::laws::{
    downloads_what_is_needed, entity_is_quoted, hub_refusals, insertion_modes, lacks_char,
    level_names, model_ids, needed_names, output_named_after_model, output_names_allowed,
    relations_shown,
};
use crate::server::lql::{
    answer_view, describe_plan, execute_lql_statement, extract_quoted, normal_form, show_ranking,
    try_lql_statement, AnswerView, LqlAnswer, LqlModel, NearestQuery, RelationCount,
};
use crate::server::lql_session::{first_statement, FirstStatement, LqlSessionManager};
use crate::server::progress::DownloadProgress;
use crate::server::slot::{
    awaited, dir_size, size_of_files, DirEntry, ModelSlot, SlotPhase, SlotState, VindexConfig,
};
use crate::server::vindexes::{
    features_fit, handle_delete, level_text, slot_info, slot_not_found, total, total_features,
    VindexInfo,
};
use crate::text::{decimal, has_prefix, has_substring, has_suffix, texts};
use crate::text_laws::{all_space, bare, trimming_space_leaves_nothing, trimming_takes_space};

verus! {

/// A level is found by its name, and a text that names none is repeated in the
/// error.
pub proof fn levels_found(lower: &str, r: Result<ExtractLevel, String>)
    requires
        call_ensures(level_named, (lower,), r),
    ensures
        lower@ == "browse"@ ==> r == Ok::<ExtractLevel, String>(ExtractLevel::Browse),
        lower@ == "attention"@ || lower@ == "attn"@ ==> r == Ok::<ExtractLevel, String>(
            ExtractLevel::Attention,
        ),
        lower@ == "inference"@ || lower@ == "infer"@ ==> r == Ok::<ExtractLevel, String>(
            ExtractLevel::Inference,
        ),
        lower@ == "all"@ ==> r == Ok::<ExtractLevel, String>(ExtractLevel::All),
        r matches Err(e) ==> has_prefix(e@, "unknown extract level '"@ + lower@),
{
    level_names();
    if r is Err {
        let t = r->Err_0@;
        let a = "unknown extract level '"@ + lower@;
        assert(t.subrange(0, a.len() as int) =~= a);
    }
}

/// A request that names no level is for inference, and a search that names no
/// limit for twenty models.
pub proof fn server_defaults(level: String, limit: usize)
    requires
        call_ensures(default_level, (), level),
        call_ensures(default_limit, (), limit),
    ensures
        level@ == "inference"@,
        limit == 20,
{
}

/// The directory of a model is named after the last part of its id.
pub proof fn directory_of_model(model: &str, owner: Seq<char>, leaf: Seq<char>, r: String)
    requires
        call_ensures(default_output_name, (model,), r),
        model@ == owner + "/"@ + leaf,
        lacks_char(leaf, '/'),
        !has_suffix(leaf, ".gguf"@),
    ensures
        r@ == leaf + ".vindex"@,
{
    output_named_after_model(owner, leaf);
}

/// A directory to build in stands in the directory for indexes; a name that
/// leads out of it is refused.
pub proof fn directory_to_build_in(
    dir: &str,
    rel: &str,
    r: Result<String, ServerError>,
    a: Seq<char>,
    b: Seq<char>,
)
    requires
        call_ensures(sanitize_output_path, (dir, rel), r),
    ensures
        r matches Ok(p) ==> p@ == joined_path(dir@, rel@),
        rel@ == a + ".."@ + b || rel@ == "/"@ + b || rel@.len() == 0 ==> (r matches Err(e) && e@
            is BadRequest),
        plain_name(rel@) ==> r is Ok,
{
    output_names_allowed(rel@, a, b);
    if rel@.len() == 0 {
        assert(rel@ =~= Seq::empty());
    }
}

/// An owner and a name are a model's id, unless there is such a path.
pub proof fn ids_recognised(
    s: &str,
    exists: bool,
    owner: Seq<char>,
    name: Seq<char>,
    r: bool,
)
    requires
        call_ensures(looks_like_hf_id, (s, exists), r),
        s@ == owner + "/"@ + name,
        owner.len() > 0,
        name.len() > 0,
        lacks_char(owner, '/'),
        lacks_char(name, '/'),
    ensures
        r <==> !exists && owner[0] != '.',
{
    model_ids(owner, name, name);
}

/// A repository's files are downloaded in its order if a build needs them; there
/// have to be some, and the tokenizer among them.
pub proof fn files_chosen(
    model: &str,
    siblings: &Vec<String>,
    name: &str,
    needed: bool,
    r: Result<Vec<String>, String>,
)
    requires
        call_ensures(is_needed_weight_file, (name,), needed),
        call_ensures(files_to_download, (model, siblings), r),
    ensures
        r matches Ok(files) ==> {
            &&& texts(files@) == needed_files(texts(siblings@))
            &&& texts(files@).contains("tokenizer.json"@)
            &&& needed && texts(siblings@).contains(name@) ==> texts(files@).contains(name@)
        },
        texts(siblings@).contains("tokenizer.json"@) ==> r is Ok,
        name@ == "config.json"@ || name@ == "tokenizer.json"@ || has_suffix(
            name@,
            ".safetensors"@,
        ) ==> needed,
        name@ == "README.md"@ ==> !needed,
{
    needed_names(Seq::empty());
    downloads_what_is_needed(texts(siblings@), name@, Seq::empty());
    downloads_what_is_needed(texts(siblings@), "tokenizer.json"@, Seq::empty());
    reveal_strlit("README.md");
    reveal_strlit(".safetensors");
    reveal_strlit("config.json");
    reveal_strlit("tokenizer.json");
    reveal_strlit("tokenizer_config.json");
    reveal_strlit("special_tokens_map.json");
    reveal_strlit("generation_config.json");
    reveal_strlit("tokenizer.model");
    reveal_strlit("model.safetensors.index.json");
    assert("README.md"@.len() == 9);
}

/// A refusal by the hub tells the model and what kind of refusal it is.
pub proof fn refusals_told(model: &str, context: &str, raw: &str, r: String)
    requires
        call_ensures(translate_hf_error, (model, context, raw), r),
    ensures
        has_substring(raw@, "403"@) ==> has_prefix(
            r@,
            "HuggingFace refused access to "@ + model@,
        ),
        !has_substring(raw@, "403"@) && has_substring(raw@, "401"@) ==> has_prefix(
            r@,
            "HuggingFace rejected the request to "@ + model@,
        ),
        !has_substring(raw@, "403"@) && !has_substring(raw@, "401"@) && !has_substring(
            raw@,
            "404"@,
        ) ==> has_suffix(r@, raw@),
{
    hub_refusals(model@, context@, raw@);
}

/// A request is checked for a directory, a level, a model and a name, and is for
/// the model without the white space around its name.
pub proof fn requests_checked(
    dir: Option<&str>,
    req: &ExtractRequest,
    lower: &str,
    r: Result<ExtractWork, ServerError>,
    space: Seq<char>,
    model: Seq<char>,
)
    requires
        call_ensures(check_request, (dir, req, lower), r),
        all_space(space),
    ensures
        dir is None ==> r is Err,
        req.model@ == space ==> r is Err,
        r matches Err(e) ==> e@ is BadRequest,
        bare(model) && model.len() > 0 && req.model@ == space + model + space ==> (r matches Ok(w)
            ==> w.model@ == model),
        r matches Ok(w) ==> has_prefix(w.output_path@, dir->0@),
        lower@ == "all"@ ==> (r matches Ok(w) ==> w.level == ExtractLevel::All),
{
    level_names();
    if req.model@ == space {
        trimming_space_leaves_nothing(space);
    }
    if bare(model) && model.len() > 0 && req.model@ == space + model + space {
        trimming_takes_space(space, model, space);
    }
    if r is Ok {
        let d = dir->0@;
        let p = r->Ok_0.output_path@;
        assert(p.subrange(0, d.len() as int) =~= d);
    }
}

/// A request that is taken starts a job that runs; any other changes nothing.
pub proof fn extraction_handled(
    jobs: &mut ExtractJobs,
    dir: Option<&str>,
    req: &ExtractRequest,
    id: &str,
    r: Result<(ExtractStartResponse, ExtractWork), ServerError>,
)
    requires
        old(jobs).wf(),
        call_ensures(handle_extract, (jobs, dir, req, id), r),
    ensures
        r is Err ==> final(jobs)@ == old(jobs)@,
        old(jobs)@.busy() ==> r is Err,
        dir is None ==> r is Err,
        r matches Ok((answer, work)) ==> {
            &&& final(jobs)@.current == Some(id@)
            &&& final(jobs)@.jobs[id@].status == JobStatus::Running
            &&& final(jobs)@.jobs[id@].model == work.model@
            &&& final(jobs)@.jobs[id@].output_path == work.output_path@
            &&& answer.id@ == id@ && has_suffix(answer.status_url@, id@)
        },
{
    if r is Ok {
        let url = "/v1/vindexes/extract/status?id="@ + id@;
        assert(url.subrange(url.len() - id@.len(), url.len() as int) =~= id@);
    }
}

/// A step that fails ends the build and its job; one that finds the model's
/// directory keeps it; the last one ends the job well.
pub proof fn build_advances(
    run: &mut ExtractRun,
    job: &mut ExtractJob,
    outcome: Result<String, String>,
    elapsed: u64,
)
    requires
        old(run).step != Step::Finished,
        call_ensures(ExtractRun::advance, (run, job, outcome, elapsed), ()),
    ensures
        outcome is Err ==> final(run).step == Step::Finished && final(job)@.status
            == JobStatus::Failed && final(job)@.log.last() is Error,
        outcome matches Ok(found) ==> {
            &&& old(run).step == Step::Resolve || old(run).step == Step::ResolveDownloaded
                ==> final(run).model_path@ == found@ && final(run).step == Step::FindTokenizer
            &&& old(run).step == Step::Build ==> final(run).built_micros == elapsed
                && final(run).step == Step::Discover
            &&& old(run).step == Step::Discover ==> final(job)@.status == JobStatus::Done
                && final(job)@.log.last() == (Report::Done {
                path: old(run).output_path@,
                id: found@,
                elapsed_micros: old(run).built_micros,
            })
            &&& old(run).step != Step::Discover ==> final(job)@.status == old(job)@.status
        },
        final(run).output_path@ == old(run).output_path@,
{
}

/// What a build at a level is asked for, and where its tokenizer stands.
pub proof fn build_is_set(r: &ExtractRun, level: ExtractLevel, o: BuildOptions, path: String)
    requires
        call_ensures(build_options, (level,), o),
        call_ensures(ExtractRun::tokenizer_path, (r,), path),
    ensures
        o.level == level && o.weights.level == level && o.down_top_k == 10,
        path@ == joined_path(r.model_path@, "tokenizer.json"@),
{
}

/// Only `knn` asks for retrieval, and each mode has its name.
pub proof fn modes_read(mode: Option<&str>, r: InsertMode, name: &'static str, word: Seq<char>)
    requires
        call_ensures(parse_mode, (mode,), r),
        call_ensures(mode_str, (r,), name),
        bare(word),
        word.len() > 0,
    ensures
        mode is None ==> r == InsertMode::Compose,
        mode matches Some(m) && m@ == "knn"@ ==> r == InsertMode::Knn,
        mode matches Some(m) && m@ == word && word.len() != 3 ==> r == InsertMode::Compose,
        r == InsertMode::Knn ==> name@ == "knn"@,
        r == InsertMode::Compose ==> name@ == "compose"@,
{
    reveal_strlit("knn");
    let none = Seq::<char>::empty();
    insertion_modes(none, word);
    assert(none + word + none =~= word);
    assert(!crate::text::white_space('k') && !crate::text::white_space('n'));
    insertion_modes(none, "knn"@);
    assert(none + "knn"@ + none =~= "knn"@);
}

/// A caller's key is its session, or one that all others share.
pub proof fn callers_keyed(session: Option<&str>, key: String)
    requires
        call_ensures(lql_key, (session,), key),
    ensures
        session matches Some(s) ==> key@ == s@,
        session is None ==> key@ == "__global__"@,
{
}

/// The refusals of an insertion tell what is missing.
pub proof fn insertions_refused(
    e: &str,
    id: Option<&str>,
    setup: ServerError,
    model: ServerError,
)
    requires
        call_ensures(no_session, (e,), setup),
        call_ensures(no_model, (id,), model),
    ensures
        setup@ matches Refusal::Internal(t) && has_suffix(t, e@),
        id is None ==> model@ == Refusal::NotFound("no model loaded"@),
        id matches Some(i) ==> (model@ matches Refusal::NotFound(t) && has_prefix(
            t,
            "model '"@ + i@,
        )),
{
    let t = "LQL session setup failed: "@ + e@;
    assert(t.subrange(t.len() - e@.len(), t.len() as int) =~= e@);
    if let Some(i) = id {
        let t = "model '"@ + i@ + "' not found"@;
        let a = "model '"@ + i@;
        assert(t.subrange(0, a.len() as int) =~= a);
    }
}

/// The event of a stage tells the stage and no more; only the events that end a
/// job are its last.
pub proof fn events_told(stage: &str, begun: ExtractProgress, ev: &ExtractProgress, more: bool)
    requires
        call_ensures(stage_event, (stage,), begun),
        call_ensures(goes_on, (ev,), more),
    ensures
        begun@ matches Report::Progress { stage: s, component, layer, done, total, .. } && s
            == stage@ && component is None && layer is None && done is None && total is None,
        more <==> ev@ is Progress,
{
}

/// A job is found under its id, and under no other.
pub proof fn jobs_found(
    jobs: &ExtractJobs,
    id: &str,
    a: Option<&ExtractJob>,
    b: Result<&ExtractJob, ServerError>,
)
    requires
        jobs.wf(),
        call_ensures(ExtractJobs::get, (jobs, id), a),
        call_ensures(ExtractJobs::find, (jobs, id), b),
    ensures
        a is Some <==> jobs@.jobs.dom().contains(id@),
        b is Ok <==> a is Some,
        a matches Some(j) ==> j@ == jobs@.jobs[id@],
        b matches Ok(j) ==> j@ == jobs@.jobs[id@],
        b matches Err(e) ==> e@ is NotFound,
{
}

/// What a job tells of itself: it has ended unless it runs.
pub proof fn job_tells(j: &ExtractJob, status: JobStatus, terminal: bool)
    requires
        call_ensures(ExtractJob::status, (j,), status),
        call_ensures(ExtractJob::is_terminal, (j,), terminal),
    ensures
        status == j.status,
        terminal <==> j.status != JobStatus::Running,
{
}

/// The entity of a statement is what stands between its first two quotation
/// marks.
pub proof fn entity_extracted(
    s: &str,
    r: Option<String>,
    a: Seq<char>,
    entity: Seq<char>,
    rest: Seq<char>,
)
    requires
        call_ensures(extract_quoted, (s,), r),
        lacks_char(a, '"'),
        lacks_char(entity, '"'),
    ensures
        s@ == a.push('"') + (entity.push('"') + rest) ==> (r matches Some(t) && t@ == entity),
        s@ == a ==> r is None,
        s@ == a.push('"') + entity ==> r is None,
{
    entity_is_quoted(a, entity, rest);
}

/// The ranking that is shown: a line that counts the relations, and a line for
/// each of the first twenty.
pub proof fn ranking_shown(r: &Vec<RelationCount>, lines: Vec<String>, i: int)
    requires
        call_ensures(show_ranking, (r,), lines),
        r@.len() > 0,
    ensures
        texts(lines@)[0] == "Probe-confirmed relations: "@ + decimal(r@.len()),
        0 <= i < r@.len() && i < 20 ==> texts(lines@)[i + 1] == "  "@ + r@[i].name@ + " (count="@
            + decimal(r@[i].count as nat) + ")"@,
{
    relations_shown(r@, i);
}

/// Each layer of an index is asked for five features of an entity with tokens.
pub proof fn layers_asked(
    c: &VindexConfig,
    tokens: &Result<usize, String>,
    plan: Vec<NearestQuery>,
    l: int,
)
    requires
        call_ensures(describe_plan, (c, tokens), plan),
    ensures
        tokens matches Ok(n) && *n > 0 ==> plan@.len() == c.num_layers && (0 <= l < c.num_layers
            ==> plan@[l].layer == l && plan@[l].count == 5),
        tokens matches Ok(n) && *n == 0 ==> plan@.len() == 0,
        tokens is Err ==> plan@.len() == 0,
{
}

/// A session starts with using its index, and is found under its key.
pub proof fn sessions_found<S>(
    path: &str,
    first: FirstStatement,
    m: &LqlSessionManager<S>,
    key: &str,
    r: Option<&S>,
)
    requires
        m.wf(),
        call_ensures(first_statement, (path,), first),
        call_ensures(LqlSessionManager::<S>::get, (m, key), r),
    ensures
        first matches FirstStatement::UseVindex(p) && p@ == path@,
        r is Some <==> m@.dom().contains(key@),
        r matches Some(s) ==> *s == m@[key@],
{
}

/// What a slot tells of itself.
pub proof fn slot_tells<M>(
    s: &ModelSlot<M>,
    state: SlotState,
    error: Option<String>,
    model: Option<&M>,
)
    requires
        call_ensures(ModelSlot::<M>::state, (s,), state),
        call_ensures(ModelSlot::<M>::last_error, (s,), error),
        call_ensures(ModelSlot::<M>::loaded, (s,), model),
    ensures
        state == s.inner@.state(),
        error is Some <==> state == SlotState::Failed,
        s.inner@ matches SlotPhase::Failed(e) ==> error->0@ == e,
        model is Some <==> state == SlotState::Loaded,
        model matches Some(m) ==> s.inner@ == SlotPhase::Loaded(*m),
{
}

/// One who waited has the result of the load, or is told that none came.
pub proof fn waiters_told<M>(received: Option<Result<M, String>>, r: Result<M, String>)
    requires
        call_ensures(awaited::<M>, (received,), r),
    ensures
        received matches Some(x) ==> r == x,
        received is None ==> r is Err,
{
}

/// The size of a directory and the features of an index are sums.
pub proof fn sums_told(
    entries: &Vec<DirEntry>,
    size: u64,
    layers: &Vec<usize>,
    features: usize,
    fit: bool,
)
    requires
        call_ensures(dir_size, (entries,), size),
        call_ensures(total_features, (layers,), features),
        call_ensures(features_fit, (layers,), fit),
    ensures
        size == size_of_files(entries@),
        features == total(layers@),
        fit <==> total(layers@) <= usize::MAX,
{
}

/// What is told of a slot is its own: its name, its path, its model, its layers,
/// its features and its size.
pub proof fn slot_described<M>(s: &ModelSlot<M>, r: VindexInfo)
    requires
        call_ensures(slot_info::<M>, (s,), r),
    ensures
        r.id@ == s.id@ && r.name@ == s.id@ && r.path@ == s.path@ && r.model@ == s.config.model@,
        r.layers == s.config.num_layers && r.features == total(s.config.layers@),
        r.size_bytes == s.size_bytes && r.state == s.inner@.state(),
        r.load_stage is Some ==> r.state == SlotState::Loading,
        r.last_error is Some <==> r.state == SlotState::Failed,
{
    let v = r@;
    assert(v.id == s.id@ && v.name == s.id@);
}

/// Unknown ids and requests to delete are refused, with the name.
pub proof fn slots_refused(id: &str, unknown: ServerError, undeleted: ServerError)
    requires
        call_ensures(slot_not_found, (id,), unknown),
        call_ensures(handle_delete, (id,), undeleted),
    ensures
        unknown@ matches Refusal::NotFound(t) && has_prefix(t, "vindex '"@ + id@),
        undeleted@ matches Refusal::BadRequest(t) && has_prefix(
            t,
            "Cannot delete vindex '"@ + id@,
        ),
{
    let t = "vindex '"@ + id@ + "' not found"@;
    let a = "vindex '"@ + id@;
    assert(t.subrange(0, a.len() as int) =~= a);
    let u = undeleted@->BadRequest_0;
    let b = "Cannot delete vindex '"@ + id@;
    assert(u.subrange(0, b.len() as int) =~= b);
}

/// A download is told with its model, and planned with the files that a build
/// needs, of which none is there.
pub proof fn download_planned(
    model: &str,
    begun: ExtractProgress,
    siblings: Vec<String>,
    r: Result<Download, String>,
    e: &str,
    text: String,
)
    requires
        call_ensures(download_begins, (model,), begun),
        call_ensures(Download::plan, (model, Ok::<Vec<String>, String>(siblings)), r),
        call_ensures(no_client, (e,), text),
    ensures
        begun@ matches Report::Progress { component, .. } && component == Some(model@),
        r matches Ok(d) ==> d.done == 0 && d.model_id@ == model@ && texts(d.files@)
            == needed_files(texts(siblings@)),
        needed_files(texts(siblings@)).contains("tokenizer.json"@) ==> r is Ok,
        has_suffix(text@, e@),
{
    let t = "hf api init: "@ + e@;
    assert(t.subrange(t.len() - e@.len(), t.len() as int) =~= e@);
}

/// A search has an address unless its words are white space.
pub proof fn search_addressed(p: &HfSearchParams, r: Option<String>, space: Seq<char>)
    requires
        call_ensures(hf_search_url, (p,), r),
        all_space(space),
    ensures
        p.q@ == space ==> r is None,
        bare(p.q@) && p.q@.len() > 0 ==> r is Some,
        r matches Some(url) ==> has_prefix(
            url@,
            "https://huggingface.co/api/models?search="@ + percent_encoded(
                vstd::utf8::encode_utf8(p.q@),
            ),
        ),
        r matches Some(url) ==> (p.limit <= 50 ==> has_suffix(url@, decimal(p.limit as nat))),
{
    if p.q@ == space {
        trimming_space_leaves_nothing(space);
    }
    if bare(p.q@) && p.q@.len() > 0 {
        let none = Seq::<char>::empty();
        trimming_takes_space(none, p.q@, none);
        assert(none + p.q@ + none =~= p.q@);
    }
    if let Some(url) = r {
        let a = "https://huggingface.co/api/models?search="@ + percent_encoded(
            vstd::utf8::encode_utf8(p.q@),
        );
        assert(url@.subrange(0, a.len() as int) =~= a);
        let b = decimal(p.limit as nat);
        if p.limit <= 50 {
            assert(url@.subrange(url@.len() - b.len(), url@.len() as int) =~= b);
        }
    }
}

/// Setting a job's status changes nothing else of it.
pub proof fn status_set(j: &mut ExtractJob, s: JobStatus)
    requires
        call_ensures(ExtractJob::set_status, (j, s), ()),
    ensures
        final(j)@.status == s,
        final(j)@.log == old(j)@.log && final(j)@.model == old(j)@.model && final(j)@.output_path
            == old(j)@.output_path && final(j)@.level == old(j)@.level,
{
}

/// Each level has its title.
pub proof fn levels_titled(l: ExtractLevel, r: String)
    requires
        call_ensures(level_text, (l,), r),
    ensures
        l == ExtractLevel::Browse ==> r@ == "Browse"@,
        l == ExtractLevel::Attention ==> r@ == "Attention"@,
        l == ExtractLevel::Inference ==> r@ == "Inference"@,
        l == ExtractLevel::All ==> r@ == "All"@,
{
}

/// A download tells its file, how much is there, and how much there will be
/// where that is known.
pub proof fn download_told(d: &DownloadProgress, r: ExtractProgress)
    requires
        call_ensures(DownloadProgress::report, (d,), r),
    ensures
        r@ matches Report::Progress { stage, component, layer, done, total, .. } && {
            &&& component == Some(d@.filename)
            &&& done == Some(d@.sent)
            &&& d@.total > 0 ==> total == Some(d@.total)
            &&& d@.total == 0 ==> total is None
            &&& layer is None
            &&& has_prefix(stage, "downloading ("@ + decimal(d@.file_idx as nat) + "/"@)
        },
{
    let stage = r@->Progress_stage;
    let a = "downloading ("@ + decimal(d@.file_idx as nat) + "/"@;
    assert(stage.subrange(0, a.len() as int) =~= a);
}

/// A file that begins is told with its name and size, and with nothing of it
/// there.
pub proof fn file_begins(d: &mut DownloadProgress, size: usize, name: &str, r: ExtractProgress)
    requires
        call_ensures(DownloadProgress::init, (d, size, name), r),
    ensures
        final(d)@.total == size && final(d)@.sent == 0,
        final(d)@.file_idx == old(d)@.file_idx && final(d)@.total_files == old(d)@.total_files,
        r@ matches Report::Progress { component, done, .. } && component == Some(
            final(d)@.filename,
        ) && done == Some(0usize),
{
}

/// A session that is there is kept; else the one that was made is, if it was.
pub proof fn session_kept<S>(
    m: &mut LqlSessionManager<S>,
    key: &str,
    made: S,
    r: Result<&S, String>,
    other: Seq<char>,
)
    requires
        old(m).wf(),
        call_ensures(LqlSessionManager::<S>::get_or_create, (m, key, Ok::<S, String>(made)), r),
    ensures
        r is Ok,
        old(m)@.dom().contains(key@) ==> *r->Ok_0 == old(m)@[key@] && final(m)@ == old(m)@,
        !old(m)@.dom().contains(key@) ==> *r->Ok_0 == made && final(m)@[key@] == made,
        other != key@ ==> (final(m)@.dom().contains(other) <==> old(m)@.dom().contains(other)),
        other != key@ && old(m)@.dom().contains(other) ==> final(m)@[other] == old(m)@[other],
{
}

/// A statement is answered by its normal form: the statistics have six lines.
pub proof fn statements_answered(
    model: &LqlModel,
    stmt: &str,
    r: Result<LqlAnswer, String>,
    maybe: Option<Result<LqlAnswer, String>>,
    rest: Seq<char>,
)
    requires
        call_ensures(execute_lql_statement, (model, stmt), r),
        call_ensures(try_lql_statement, (model, stmt), maybe),
        starts_with_word(normal_form(stmt@), "STATS"@, rest),
    ensures
        r matches Ok(a) && a@ matches AnswerView::Lines(lines) && lines.len() == 6 && lines[0]
            == "Model: "@ + model.config.model@ && lines[2] == "Features: "@ + decimal(
            total(model.config.layers@),
        ),
        maybe is Some <==> total(model.config.layers@) <= usize::MAX,
        maybe matches Some(x) ==> (x matches Ok(a) && a@ matches AnswerView::Lines(lines)
            && lines.len() == 6 && lines[1] == "Layers: "@ + decimal(
            model.config.num_layers as nat,
        )),
{
    let upper = normal_form(stmt@);
    statistics_told(answer_view(r), *model, stmt@, upper, rest);
    if let Some(x) = maybe {
        statistics_told(answer_view(x), *model, stmt@, upper, rest);
    }
    reveal_strlit("STATS");
    word_found(upper, "STATS"@, rest);
}

} // verus!
