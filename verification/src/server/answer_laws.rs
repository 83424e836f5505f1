//! What holds of the server's answers.
use vstd::prelude::*;

use crate::path::joined_path;
use crate::server::download::{cached_file_reports, Download};
use crate::server::error::{Refusal, ServerError};
use crate::server::extract::{after_request, is_hf_id, level_of, ExtractLevel, WorkView};
use crate::server::extract_run::{
    run_started, step_error, BuildRequest, ExtractRun, QuantFormat, RunView, Step, StorageDtype,
};
use crate::server::hf::{
    handle_hf_search, hf_request, percent_encoded, HfReply, HfRequest, HfSearchParams,
    HfSearchResponse,
};
use crate::server::insert::{
    insert_response, outcome_is, session_key, InsertRequest, InsertResponse,
};
use crate::server::jobs::{
    logged, reports, ExtractJobs, ExtractProgress, JobStatus, JobsView, Report,
};
use crate::server::laws::first_word_is;
use crate::server::lql::{
    answers, check_statement, describe_entity, entity_lines, first_word, hit_lines,
    layers_hit_lines, lql_response, model_error, normal_form, occurrences, quoted, rank_relations,
    shown, AnswerView, Hit, LqlModel, LqlQuery, LqlRequest, LqlResponse, RelationCount,
};
use crate::server::lql_session::with_session;
use crate::server::progress::{
    begun, download_due, download_report, ended, in_layer, in_stage, with_bytes, BuildProgress, BuildState,
    DownloadProgress, DownloadState,
};
use crate::server::slot::{DirEntry, ModelSlot, SlotLoadOpts, SlotPhase, SlotState, VindexConfig};
use crate::server::vindexes::{
    handle_list, handle_load, level_title, total, LoadResponse, VindexListResponse,
};
use crate::text::{
    ascii_lowercase, decimal, has_prefix, has_substring, has_suffix, padded, texts, trimmed,
};
use crate::text_laws::{all_space, bare, trimming_space_leaves_nothing, trimming_takes_space};

verus! {

/// The word of a statement: characters without white space, and then nothing,
/// or white space and more.
pub open spec fn starts_with_word(s: Seq<char>, word: Seq<char>, rest: Seq<char>) -> bool {
    &&& s == word + rest
    &&& word.len() > 0
    &&& forall|i: int| 0 <= i < word.len() ==> !crate::text::white_space(#[trigger] word[i])
    &&& rest.len() == 0 || crate::text::white_space(rest[0]) && !crate::text::white_space(
        rest.last(),
    )
}

/// The first word of a statement that starts with one.
pub proof fn word_found(s: Seq<char>, word: Seq<char>, rest: Seq<char>)
    requires
        starts_with_word(s, word, rest),
    ensures
        first_word(s) == word,
{
    let none = Seq::<char>::empty();
    first_word_is(none, word, rest);
    assert(none + (word + rest) =~= s);
}

/// The statistics are six lines: the model's name, its layers, the features of
/// all layers together, its width, its vocabulary and the level.
pub proof fn statistics_told(
    r: Result<AnswerView, Seq<char>>,
    model: LqlModel,
    stmt: Seq<char>,
    upper: Seq<char>,
    rest: Seq<char>,
)
    requires
        starts_with_word(upper, "STATS"@, rest),
        answers(r, model, stmt, upper),
    ensures
        r matches Ok(AnswerView::Lines(lines)) && {
            let c = model.config;
            &&& lines.len() == 6
            &&& lines[0] == "Model: "@ + c.model@
            &&& lines[1] == "Layers: "@ + decimal(c.num_layers as nat)
            &&& lines[2] == "Features: "@ + decimal(total(c.layers@))
            &&& lines[3] == "Hidden size: "@ + decimal(c.hidden_size as nat)
            &&& lines[4] == "Vocab size: "@ + decimal(c.vocab_size as nat)
            &&& has_prefix(lines[5], "Extract level: "@)
        },
{
    reveal_strlit("STATS");
    reveal_strlit("DESCRIBE");
    reveal_strlit("SHOW");
    word_found(upper, "STATS"@, rest);
    let line = "Extract level: "@ + level_title(model.config.extract_level);
    assert(line.subrange(0, "Extract level: "@.len() as int) =~= "Extract level: "@);
}

/// What is shown goes by the word behind `SHOW`: layers first, then relations,
/// then patches; anything else is told to be unknown, with the statement.
pub proof fn shown_by_word(
    r: Result<AnswerView, Seq<char>>,
    model: LqlModel,
    stmt: Seq<char>,
    upper: Seq<char>,
    rest: Seq<char>,
)
    requires
        starts_with_word(upper, "SHOW"@, rest),
        answers(r, model, stmt, upper),
    ensures
        r matches Ok(AnswerView::Lines(lines)) && {
            &&& lines.len() > 0
            &&& has_substring(upper, "LAYERS"@) ==> lines.len() == model.config.layers@.len() + 1
                && lines[0] == "Layers: "@ + decimal(model.config.num_layers as nat)
            &&& !has_substring(upper, "LAYERS"@) && !has_substring(upper, "RELATIONS"@)
                ==> lines.len() == 1
            &&& !has_substring(upper, "LAYERS"@) && !has_substring(upper, "RELATIONS"@)
                && has_substring(upper, "PATCHES"@) ==> (if model.num_patches > 0 {
                lines[0] == "Applied patches: "@ + decimal(model.num_patches as nat)
            } else {
                lines[0] == "No patches applied."@
            })
            &&& !has_substring(upper, "LAYERS"@) && !has_substring(upper, "RELATIONS"@)
                && !has_substring(upper, "PATCHES"@) ==> has_suffix(lines[0], stmt)
        },
{
    reveal_strlit("DESCRIBE");
    reveal_strlit("SHOW");
    word_found(upper, "SHOW"@, rest);
    let line = "SHOW subcommand not recognized: "@ + stmt;
    assert(line.subrange(line.len() - stmt.len(), line.len() as int) =~= stmt);
}

/// Describing names the entity between quotation marks as it was written, and
/// fails without one; a statement that starts with any other word fails, and is
/// told its word.
pub proof fn entities_and_unknown_words(
    r: Result<AnswerView, Seq<char>>,
    model: LqlModel,
    stmt: Seq<char>,
    upper: Seq<char>,
    word: Seq<char>,
    rest: Seq<char>,
)
    requires
        starts_with_word(upper, word, rest),
        answers(r, model, stmt, upper),
    ensures
        word == "DESCRIBE"@ ==> (r is Ok <==> quoted(stmt) is Some),
        word == "DESCRIBE"@ ==> (quoted(stmt) matches Some(entity) ==> r == Ok::<
            AnswerView,
            Seq<char>,
        >(AnswerView::Describe(entity))),
        word != "DESCRIBE"@ && word != "SHOW"@ && word != "STATS"@ ==> {
            r matches Err(e) && has_prefix(e, "Statement type '"@ + word + "'"@)
        },
{
    word_found(upper, word, rest);
    if word != "DESCRIBE"@ && word != "SHOW"@ && word != "STATS"@ {
        reveal_strlit("'");
        reveal_strlit(
            "' is not yet supported via the HTTP LQL endpoint. Supported: DESCRIBE, SHOW, STATS.",
        );
        let e = r->Err_0;
        let start = "Statement type '"@ + word + "'"@;
        assert(e.subrange(0, start.len() as int) =~= start);
    }
}

/// Semicolons behind a statement say nothing.
pub proof fn semicolons_say_nothing(stmt: Seq<char>)
    ensures
        normal_form(stmt + ";"@) == normal_form(stmt),
{
    reveal_strlit(";");
    crate::text_laws::endings_taken(stmt, ";"@);
}

/// A feature that an entity excites has a line of its own if its score is at
/// least five, behind those before it; else it has none.
pub proof fn hit_has_line(layer: int, hits: Seq<Hit>, h: Hit)
    ensures
        !shown(h.score) ==> hit_lines(layer, hits.push(h)) == hit_lines(layer, hits),
        shown(h.score) ==> {
            &&& hit_lines(layer, hits.push(h)).len() == hit_lines(layer, hits).len() + 1
            &&& hit_lines(layer, hits.push(h)).drop_last() == hit_lines(layer, hits)
            &&& h.label is Some ==> hit_lines(layer, hits.push(h)).last() == "  L"@ + padded(
                layer as nat,
                2,
            ) + " F"@ + padded(h.feature as nat, 4) + " score="@ + h.score_text@ + " "@
                + h.label->0@
        },
        hit_lines(layer, Seq::empty()).len() == 0,
{
    assert(hits.push(h).drop_last() =~= hits);
    assert(hit_lines(layer, hits).push(
        crate::server::lql::hit_line(layer, h),
    ).drop_last() =~= hit_lines(layer, hits));
}

/// The lines of a layer's features stand in its place among the layers.
pub proof fn layer_has_its_hits(hits: Seq<Vec<Hit>>, n: nat, i: int)
    requires
        n < hits.len(),
        0 <= i < hit_lines(n as int, hits[n as int]@).len(),
    ensures
        layers_hit_lines(hits, n + 1).len() == layers_hit_lines(hits, n).len() + hit_lines(
            n as int,
            hits[n as int]@,
        ).len(),
        layers_hit_lines(hits, n + 1)[layers_hit_lines(hits, n).len() + i] == hit_lines(
            n as int,
            hits[n as int]@,
        )[i],
{
}

/// The description of an entity is a line with its name and then the lines of
/// its features, or one that says that there are none; an entity without tokens
/// has one line, and one that cannot be cut into tokens is refused.
pub proof fn entity_described(
    config: &VindexConfig,
    entity: &str,
    tokens: Result<usize, String>,
    hits: &Vec<Vec<Hit>>,
    r: Result<Vec<String>, String>,
)
    requires
        call_ensures(describe_entity, (config, entity, tokens, hits), r),
    ensures
        r is Ok <==> tokens is Ok,
        tokens matches Err(e) ==> has_suffix(r->Err_0@, e@),
        tokens matches Ok(n) ==> {
            let lines = texts(r->Ok_0@);
            let found = layers_hit_lines(hits@, hits@.len());
            &&& lines.len() > 0 && has_suffix(lines[0], entity@)
            &&& n == 0 ==> lines.len() == 1
            &&& n > 0 ==> lines[0] == "Entity: "@ + entity@
            &&& n > 0 && found.len() > 0 ==> lines.len() == found.len() + 1 && lines.skip(1)
                == found
            &&& n > 0 && found.len() == 0 ==> lines.len() == 2
        },
{
    match tokens {
        Err(e) => {
            let t = "tokenize error: "@ + e@;
            assert(t.subrange(t.len() - e@.len(), t.len() as int) =~= e@);
        },
        Ok(n) => {
            let a = "No tokens for entity: "@ + entity@;
            assert(a.subrange(a.len() - entity@.len(), a.len() as int) =~= entity@);
            let b = "Entity: "@ + entity@;
            assert(b.subrange(b.len() - entity@.len(), b.len() as int) =~= entity@);
            let found = layers_hit_lines(hits@, hits@.len());
            assert(entity_lines(entity@, hits@).skip(1) =~= (if found.len() == 0 {
                seq!["  (no matching features)"@]
            } else {
                found
            }));
        },
    }
}

/// White space around a statement says nothing, and a statement of nothing else
/// is refused.
pub proof fn statement_taken(
    req: &LqlRequest,
    space: Seq<char>,
    text: Seq<char>,
    r: Result<String, ServerError>,
)
    requires
        call_ensures(check_statement, (req,), r),
        all_space(space),
    ensures
        bare(text) && text.len() > 0 && req.statement@ == space + text + space ==> (r matches Ok(s)
            && s@ == text),
        req.statement@ == space ==> (r matches Err(e) && e@ is BadRequest),
{
    if bare(text) && text.len() > 0 && req.statement@ == space + text + space {
        trimming_takes_space(space, text, space);
    }
    if req.statement@ == space {
        trimming_space_leaves_nothing(space);
    }
}

/// A query that names a model is told what went wrong; one that names none and
/// is refused for it is told how many models there are.
pub proof fn model_refusals(query: &LqlQuery, error: ServerError, ids: &Vec<String>, r: ServerError)
    requires
        call_ensures(model_error, (query, error, ids), r),
    ensures
        query.model is Some ==> r@ == error@,
        !(error@ is BadRequest) ==> r@ == error@,
        query.model is None && error@ is BadRequest ==> (r@ matches Refusal::BadRequest(t)
            && has_prefix(t, "server has "@ + decimal(ids@.len()))),
{
    if query.model is None && error@ is BadRequest {
        let t = r@->BadRequest_0;
        let a = "server has "@ + decimal(ids@.len());
        assert(t.subrange(0, a.len() as int) =~= a);
    }
}

/// A response carries lines or an error, never both.
pub proof fn lines_or_error(result: Result<Vec<String>, String>, r: LqlResponse)
    requires
        call_ensures(lql_response, (result,), r),
    ensures
        r.error is None <==> result is Ok,
        result matches Ok(lines) ==> r.output@ == lines@,
        result matches Err(e) ==> r.output@.len() == 0 && r.error->0@ == e@,
{
}

/// Encoding goes byte by byte.
pub proof fn encoding_joins(a: Seq<u8>, b: Seq<u8>)
    ensures
        percent_encoded(a + b) == percent_encoded(a) + percent_encoded(b),
    decreases b.len(),
{
    if b.len() == 0 {
        assert(a + b =~= a);
        assert(percent_encoded(a) + percent_encoded(b) =~= percent_encoded(a));
    } else {
        encoding_joins(a, b.drop_last());
        assert((a + b).drop_last() =~= a + b.drop_last());
        assert((a + b).last() == b.last());
        assert(percent_encoded(a + b) =~= percent_encoded(a) + percent_encoded(b));
    }
}

/// Letters, digits and four marks stand for themselves; every other byte takes
/// three characters, the first a percent sign.
pub proof fn encoded_bytes(b: u8)
    ensures
        ({
            let e = percent_encoded(seq![b]);
            let c = b as char;
            if 'a' <= c <= 'z' || 'A' <= c <= 'Z' || '0' <= c <= '9' || c == '-' || c == '_' || c
                == '.' || c == '~' {
                e == seq![c]
            } else {
                e.len() == 3 && e[0] == '%'
            }
        }),
{
    assert(seq![b].drop_last() =~= Seq::<u8>::empty());
    assert(percent_encoded(Seq::<u8>::empty()) =~= Seq::<char>::empty());
    let e = percent_encoded(seq![b]);
    reveal_with_fuel(crate::text::hex, 3);
    if crate::server::hf::unreserved(b) {
        assert(e =~= seq![b as char]);
    }
}

/// A search asks for what was written, encoded, and for at most fifty models;
/// there is none for white space alone.
pub proof fn search_asks(params: &HfSearchParams, space: Seq<char>, r: Option<HfRequest>)
    requires
        call_ensures(hf_request, (params,), r),
        all_space(space),
    ensures
        params.q@ == space ==> r is None,
        trimmed(params.q@).len() > 0 ==> r is Some,
        r matches Some(asked) ==> {
            &&& has_prefix(
                asked.url@,
                "https://huggingface.co/api/models?search="@ + percent_encoded(
                    vstd::utf8::encode_utf8(params.q@),
                ) + "&"@,
            )
            &&& params.limit <= 50 ==> has_suffix(
                asked.url@,
                "&limit="@ + decimal(params.limit as nat),
            )
            &&& params.limit > 50 ==> has_suffix(asked.url@, "&limit=50"@)
        },
{
    if params.q@ == space {
        trimming_space_leaves_nothing(space);
    }
    if r is Some {
        let url = r->0.url@;
        let middle = "&filter=text-generation&sort=downloads&direction=-1&limit=";
        reveal_strlit("&filter=text-generation&sort=downloads&direction=-1&limit=");
        reveal_strlit("&");
        reveal_strlit("&limit=");
        reveal_strlit("&limit=50");
        let start = "https://huggingface.co/api/models?search="@ + percent_encoded(
            vstd::utf8::encode_utf8(params.q@),
        );
        assert(url.subrange(0, start.len() as int + 1) =~= start + "&"@);
        assert(middle@.subrange(middle@.len() - 7, middle@.len() as int) =~= "&limit="@);
        let number = decimal(
            if params.limit <= 50 {
                params.limit as nat
            } else {
                50
            },
        );
        let end = "&limit="@ + number;
        assert(url =~= start + middle@ + number);
        assert forall|i: int| 0 <= i < 7 implies url[start.len() + middle@.len() - 7 + i]
            == #[trigger] "&limit="@[i] by {
            assert(middle@.subrange(middle@.len() - 7, middle@.len() as int)[i] == middle@[
                middle@.len() - 7 + i
            ]);
        }
        assert(url.subrange(url.len() - end.len(), url.len() as int) =~= end);
        if params.limit > 50 {
            reveal_with_fuel(decimal, 3);
            assert(end =~= "&limit=50"@);
        }
    }
}

/// The hub's models are handed on as they came; a failure is told with what was
/// said of it; where nothing was asked, there are none.
pub proof fn search_answered(
    reply: Option<HfReply>,
    said: String,
    r: Result<HfSearchResponse, ServerError>,
)
    requires
        call_ensures(handle_hf_search, (reply,), r),
    ensures
        reply is None ==> (r matches Ok(a) && a.models@.len() == 0),
        reply matches Some(HfReply::Models(m)) ==> (r matches Ok(a) && a.models@ == m@),
        reply == Some(HfReply::NoClient(said)) || reply == Some(HfReply::NotSent(said)) || reply
            == Some(HfReply::Status(said)) || reply == Some(HfReply::Unreadable(said)) ==> (r matches
            Err(e) && (e@ matches Refusal::Internal(t) && has_suffix(t, said@))),
{
    let a = "http client error: "@ + said@;
    let b = "HF API request failed: "@ + said@;
    let c = "HF API returned status "@ + said@;
    let d = "HF API parse error: "@ + said@;
    assert(a.subrange(a.len() - said@.len(), a.len() as int) =~= said@);
    assert(b.subrange(b.len() - said@.len(), b.len() as int) =~= said@);
    assert(c.subrange(c.len() - said@.len(), c.len() as int) =~= said@);
    assert(d.subrange(d.len() - said@.len(), d.len() as int) =~= said@);
}

/// The title of a level is its name, but for capitals.
pub proof fn titles_are_names(l: ExtractLevel)
    ensures
        level_of(ascii_lowercase(level_title(l))) == Some(l),
{
    reveal_strlit("Browse");
    reveal_strlit("browse");
    reveal_strlit("Attention");
    reveal_strlit("attention");
    reveal_strlit("Inference");
    reveal_strlit("inference");
    reveal_strlit("All");
    reveal_strlit("all");
    crate::server::laws::level_names();
    let low = ascii_lowercase(level_title(l));
    match l {
        ExtractLevel::Browse => assert(low =~= "browse"@),
        ExtractLevel::Attention => assert(low =~= "attention"@),
        ExtractLevel::Inference => assert(low =~= "inference"@),
        ExtractLevel::All => assert(low =~= "all"@),
    }
}

/// A download of `size` bytes counts what comes, under the name that was given
/// with it, and when it has ended all of it has come.
pub proof fn download_counted(s: DownloadState, size: usize, name: Seq<char>, a: usize, b: usize)
    requires
        a + b <= size,
        size > 0,
    ensures
        ({
            let started = begun(s, size, name);
            let some = with_bytes(with_bytes(started, a), b);
            let all = ended(some);
            &&& started.sent == 0 && some.sent == a + b && all.sent == size
            &&& started.total == size && some.total == size && all.total == size
            &&& all.file_idx == s.file_idx && all.total_files == s.total_files
            &&& all.filename == (if name.len() > 0 {
                name
            } else {
                s.filename
            })
            &&& download_report(all) matches Report::Progress { stage, component, done, total, .. }
                && stage == "downloading ("@ + decimal(s.file_idx as nat) + "/"@ + decimal(
                s.total_files as nat,
            ) + ")"@ && component == Some(all.filename) && done == Some(size) && total == Some(size)
        }),
{
}

/// The progress within a layer is told with the stage and the number of layers
/// that were told last.
pub proof fn features_told(
    p: &BuildProgress,
    component: &str,
    layer: usize,
    done: usize,
    total: usize,
    since_ms: u64,
    r: Option<ExtractProgress>,
)
    requires
        call_ensures(
            BuildProgress::on_feature_progress,
            (p, component, layer, done, total, since_ms),
            r,
        ),
    ensures
        done == 0 ==> r is Some,
        done == total ==> r is Some,
        since_ms >= 150 ==> r is Some,
        r matches Some(e) ==> (e@ matches Report::Progress {
            stage,
            component: c,
            layer: l,
            total_layers,
            done: d,
            total: t,
        } && stage == p.current_stage@ && c == Some(component@) && l == Some(layer)
            && total_layers == Some(p.last_layer_total) && d == Some(done) && (if total > 0 {
            t == Some(total)
        } else {
            t is None
        })),
{
}

/// A stage or a layer that begins is where the build is told to be, until the
/// next one.
pub proof fn place_kept(s: BuildState, stage: Seq<char>, total: usize)
    ensures
        in_layer(in_stage(s, stage), total).stage == stage,
        in_layer(in_stage(s, stage), total).layers == total,
        in_stage(in_layer(s, total), stage).layers == total,
{
}

/// The files of a download come in order and are counted from one to their
/// number.
pub proof fn files_in_order(d: &Download, r: Option<DownloadProgress>)
    requires
        d.wf(),
        call_ensures(Download::next_file, (d,), r),
    ensures
        r is None <==> d.done == d.files@.len(),
        r matches Some(p) ==> {
            &&& p.filename@ == d.files@[d.done as int]@
            &&& p.file_idx == d.done + 1
            &&& 1 <= p.file_idx <= p.total_files
            &&& p.total_files == d.files@.len()
            &&& p.sent == 0
        },
{
    assert(texts(d.files@).len() == d.files@.len() == d.files.len());
    if d.done < d.files@.len() {
        assert(texts(d.files@)[d.done as int] == d.files@[d.done as int]@);
    }
}

/// A file that was there already is told at its start and at its end.
pub proof fn cached_file_told(
    p: DownloadProgress,
    size: usize,
    r: (ExtractProgress, ExtractProgress),
)
    requires
        call_ensures(cached_file_reports, (p, size), r),
    ensures
        r.0@ matches Report::Progress { component, done, total, .. } && component == Some(
            p.filename@,
        ) && done == Some(0usize) && (size > 0 ==> total == Some(size)),
        r.1@ matches Report::Progress { component, done, total, .. } && component == Some(
            p.filename@,
        ) && done == Some(size) && (size > 0 ==> total == Some(size)),
{
}

/// An insertion tells the messages of its statement and how many operations it
/// added; a failure of the statement is told first, then one of swapping out.
pub proof fn insertion_counted(
    outcome: Option<Result<(Vec<String>, usize), ServerError>>,
    executed: Result<Vec<String>, String>,
    swapped: Result<(), String>,
    before: usize,
    after: usize,
)
    requires
        outcome_is(outcome, executed, swapped, before, after),
    ensures
        outcome is Some,
        outcome->0 is Ok <==> executed is Ok && swapped is Ok,
        outcome->0 matches Ok((messages, added)) ==> executed == Ok::<Vec<String>, String>(messages)
            && (before <= after ==> before + added == after) && (after <= before ==> added == 0),
        executed matches Err(e) ==> (outcome->0 matches Err(f) && (f@ matches Refusal::Internal(t)
            && has_suffix(t, e@))),
        executed is Ok ==> (swapped matches Err(e) ==> (outcome->0 matches Err(f) && (f@ matches
            Refusal::Internal(t) && has_suffix(t, e@)))),
{
    match (executed, swapped) {
        (Err(e), _) => {
            let t = "LQL INSERT failed: "@ + e@;
            assert(t.subrange(t.len() - e@.len(), t.len() as int) =~= e@);
        },
        (Ok(_), Err(e)) => {
            let t = "LQL backend swap-out failed: "@ + e@;
            assert(t.subrange(t.len() - e@.len(), t.len() as int) =~= e@);
        },
        _ => {},
    }
}

/// The answer to an insertion repeats the fact as it was asked for.
pub proof fn insertion_answered(
    req: &InsertRequest,
    session: Option<&str>,
    messages: Vec<String>,
    inserted: usize,
    r: Result<InsertResponse, ServerError>,
)
    requires
        call_ensures(
            insert_response,
            (req, session, Ok::<(Vec<String>, usize), ServerError>((messages, inserted))),
            r,
        ),
    ensures
        r matches Ok(a) && {
            &&& a.entity@ == req.entity@ && a.relation@ == req.relation@ && a.target@
                == req.target@
            &&& a.inserted == inserted && texts(a.messages@) == texts(messages@)
            &&& a.alpha == req.alpha && a.confidence == req.confidence
            &&& a.session is Some <==> session is Some
            &&& session matches Some(s) ==> a.session->0@ == s@
            &&& req.mode is None ==> a.mode@ == "compose"@
        },
{
}

/// Callers without a session share one; callers with different sessions have
/// different keys.
pub proof fn session_keys_differ(a: Seq<char>, b: Seq<char>)
    ensures
        session_key(Some(a)) == session_key(Some(b)) <==> a == b,
        session_key(None) == session_key(Some(a)) <==> a == "__global__"@,
{
}

/// The first who asks under a key makes the session there and touches no other;
/// a session that could not be made leaves everything as it was.
pub proof fn first_makes_session<S>(
    m: Map<Seq<char>, S>,
    key: Seq<char>,
    other: Seq<char>,
    made: S,
    why: Seq<char>,
)
    requires
        !m.dom().contains(key),
    ensures
        with_session(m, key, Ok(made)).dom().contains(key),
        with_session(m, key, Ok(made))[key] == made,
        other != key ==> (with_session(m, key, Ok(made)).dom().contains(other)
            <==> m.dom().contains(other)),
        other != key && m.dom().contains(other) ==> with_session(m, key, Ok(made))[other]
            == m[other],
        with_session(m, key, Err(why)) == m,
{
}

/// A slot that is discovered has its own description and no model.
pub proof fn discovered_has_no_model<M>(
    id: String,
    path: String,
    config: VindexConfig,
    entries: &Vec<DirEntry>,
    opts: SlotLoadOpts,
    r: ModelSlot<M>,
)
    requires
        call_ensures(ModelSlot::<M>::discover, (id, path, config, entries, opts), r),
    ensures
        r.inner@.state() == SlotState::Discovered,
        r.id == id && r.path == path && r.config == config && r.opts == opts,
        r.load_progress is None,
{
}

/// A slot that is made with a model has it.
pub proof fn loaded_has_model<M>(
    id: String,
    path: String,
    config: VindexConfig,
    opts: SlotLoadOpts,
    entries: &Vec<DirEntry>,
    model: M,
    r: ModelSlot<M>,
)
    requires
        call_ensures(ModelSlot::<M>::from_loaded, (id, path, config, opts, entries, model), r),
    ensures
        r.inner@ == SlotPhase::Loaded(model),
        r.inner@.state() == SlotState::Loaded,
        r.id == id && r.path == path && r.config == config && r.opts == opts,
{
}

/// A request to load is answered for the slot that has the id: an unknown id is
/// told as such, a failure with what went wrong, and success with where the
/// slot stands.
pub proof fn load_answered<M>(
    slot: Option<&ModelSlot<M>>,
    id: &str,
    already: bool,
    result: Result<(), String>,
    r: Result<LoadResponse, ServerError>,
)
    requires
        call_ensures(handle_load::<M>, (slot, id, already, result), r),
    ensures
        r is Ok <==> slot is Some && result is Ok,
        slot is None ==> (r matches Err(e) && e@ is NotFound),
        slot is Some ==> (result matches Err(t) ==> (r matches Err(e) && (e@ matches
            Refusal::Internal(text) && has_suffix(text, t@)))),
        r matches Ok(a) ==> a.id@ == slot->0.id@ && a.state == slot->0.inner@.state()
            && a.already_loaded == already,
{
    if result is Err {
        let t = result->Err_0@;
        let text = "load failed: "@ + t;
        assert(text.subrange(text.len() - t.len(), text.len() as int) =~= t);
    }
}

/// A request that is refused, or that comes while a job runs, changes nothing;
/// any other starts its job under the id that it is told.
pub proof fn request_starts_job(
    jobs: JobsView,
    w: WorkView,
    e: Refusal,
    id: Seq<char>,
    level: Seq<char>,
)
    ensures
        after_request(jobs, Err(e), id, level) == (jobs, Err::<Seq<char>, Refusal>(e)),
        jobs.busy() ==> {
            let (after, answer) = after_request(jobs, Ok(w), id, level);
            after == jobs && (answer matches Err(Refusal::BadRequest(t)) && has_prefix(
                t,
                "another extract ("@ + jobs.current->0 + ")"@,
            ))
        },
        !jobs.busy() ==> {
            let (after, answer) = after_request(jobs, Ok(w), id, level);
            &&& after.current == Some(id)
            &&& after.jobs.dom().contains(id)
            &&& after.jobs[id].status == JobStatus::Running
            &&& after.jobs[id].model == w.model && after.jobs[id].output_path == w.output_path
            &&& after.jobs[id].level == level && after.jobs[id].log.len() == 0
            &&& answer matches Ok(url) && has_suffix(url, "?id="@ + id)
        },
{
    if jobs.busy() {
        reveal_strlit(")");
        reveal_strlit(") is already running; wait for it or poll its status");
        let t = "another extract ("@ + jobs.current->0
            + ") is already running; wait for it or poll its status"@;
        let start = "another extract ("@ + jobs.current->0 + ")"@;
        assert(t.subrange(0, start.len() as int) =~= start);
    } else {
        reveal_strlit("?id=");
        reveal_strlit("/v1/vindexes/extract/status?id=");
        let url = "/v1/vindexes/extract/status?id="@ + id;
        let end = "?id="@ + id;
        assert(url.subrange(url.len() - end.len(), url.len() as int) =~= end);
    }
}

/// What one who asks for a job is sent: its own log, and what is still to come
/// while it runs.
pub proof fn status_sent(
    jobs: &ExtractJobs,
    id: &str,
    r: Result<(&Vec<ExtractProgress>, bool), ServerError>,
)
    requires
        jobs.wf(),
        call_ensures(ExtractJobs::handle_extract_status, (jobs, id), r),
    ensures
        r is Ok <==> jobs@.jobs.dom().contains(id@),
        r matches Ok((events, follow)) ==> {
            let j = jobs@.jobs[id@];
            &&& reports(events@) == j.log
            &&& j.status != JobStatus::Running ==> !follow
            &&& j.status == JobStatus::Running && j.log.len() == 0 ==> follow
            &&& j.log.len() > 0 && (j.log.last() is Done || j.log.last() is Error) ==> !follow
        },
        r matches Err(e) ==> (e@ matches Refusal::NotFound(t) && has_prefix(
            t,
            "extract job '"@ + id@,
        )),
{
    if r is Err {
        let t = "extract job '"@ + id@ + "' not found"@;
        let start = "extract job '"@ + id@;
        assert(t.subrange(0, start.len() as int) =~= start);
    } else {
        let log = jobs@.jobs[id@].log;
        if log.len() > 0 && (log.last() is Done || log.last() is Error) {
            assert(crate::server::jobs::is_last(log[log.len() - 1]));
        }
    }
}

/// A build starts with a download for the id of a model on the hub, and with
/// looking for a directory otherwise.
pub proof fn build_starts(model: Seq<char>, exists: bool, out: Seq<char>)
    ensures
        is_hf_id(model, exists) ==> run_started(model, exists, out).step == Step::Download,
        !is_hf_id(model, exists) ==> run_started(model, exists, out).step == Step::Resolve,
        exists ==> run_started(model, exists, out).step == Step::Resolve,
        run_started(model, exists, out).output_path == out,
        run_started(model, exists, out).built_micros == 0,
{
}

/// A build reads the model's directory and the tokenizer in it, writes to the
/// directory that was asked for, and keeps the model's name and the level.
pub proof fn build_asked(r: &ExtractRun, model: &str, level: ExtractLevel, b: BuildRequest)
    requires
        call_ensures(ExtractRun::build_request, (r, model, level), b),
    ensures
        b.model_path@ == r.model_path@,
        b.tokenizer_path@ == joined_path(r.model_path@, "tokenizer.json"@),
        b.model_name@ == model@,
        b.output_path@ == r.output_path@,
        b.options.level == level && b.options.weights.level == level,
        b.options.down_top_k == 10 && b.options.dtype == StorageDtype::F16 && b.options.quant
            == QuantFormat::Unquantised,
        !b.options.weights.ffn_compact && !b.options.q4k.down_q4k
            && !b.options.q4k.feature_major_down && !b.options.drop_gate_vectors,
{
}

/// The error of a step ends with what went wrong, but for a tokenizer that is
/// not there: that error ends with the directory.
pub proof fn step_errors(r: RunView, e: Seq<char>)
    ensures
        r.step != Step::FindTokenizer ==> has_suffix(step_error(r, e), e),
        r.step == Step::FindTokenizer ==> has_suffix(step_error(r, e), r.model_path),
{
    let t = step_error(r, e);
    if r.step == Step::FindTokenizer {
        assert(t.subrange(t.len() - r.model_path.len(), t.len() as int) =~= r.model_path);
    } else {
        assert(t.subrange(t.len() - e.len(), t.len() as int) =~= e);
    }
}

/// The progress of a download is told every 100 milliseconds at most.
pub proof fn downloads_told_at_times(since_ms: u64)
    ensures
        download_due(since_ms) <==> since_ms >= 100,
{
}

/// A log takes 4000 reports before it loses any; then it loses its 1000 oldest
/// at once, and keeps the rest in order.
pub proof fn log_loses_oldest(log: Seq<Report>, e: Report)
    ensures
        log.len() < 4000 ==> logged(log, e) == log.push(e),
        log.len() == 4000 ==> {
            &&& logged(log, e).len() == 3001
            &&& logged(log, e).last() == e
            &&& forall|i: int| 0 <= i < 3000 ==> #[trigger] logged(log, e)[i] == log[i + 1000]
        },
{
}

/// A ranking names every label once, and one that stands more often in the list
/// before one that stands there less often.
pub proof fn frequent_labels_first(
    labels: &Vec<String>,
    r: Vec<RelationCount>,
    a: int,
    b: int,
    x: Seq<char>,
)
    requires
        call_ensures(rank_relations, (labels,), r),
        0 <= a < r@.len(),
        0 <= b < r@.len(),
    ensures
        r@[a].count == occurrences(texts(labels@), r@[a].name@),
        occurrences(texts(labels@), r@[a].name@) > occurrences(texts(labels@), r@[b].name@) ==> a < b,
        a != b ==> r@[a].name@ != r@[b].name@,
        texts(labels@).contains(r@[a].name@),
        texts(labels@).contains(x) ==> exists|i: int| 0 <= i < r@.len() && #[trigger] r@[i].name@ == x,
{
    let n = crate::server::lql::names(r@);
    assert(n[a] == r@[a].name@ && n[b] == r@[b].name@);
    if texts(labels@).contains(x) {
        assert(n.contains(x));
        let i = choose|i: int| 0 <= i < n.len() && n[i] == x;
        assert(r@[i].name@ == x);
    }
}

/// A list tells of every slot, in their order, and of the directory.
pub proof fn every_slot_listed<M>(
    slots: &Vec<ModelSlot<M>>,
    dir: Option<&str>,
    r: VindexListResponse,
    i: int,
)
    requires
        call_ensures(handle_list::<M>, (slots, dir), r),
        0 <= i < slots@.len(),
    ensures
        r.vindexes@.len() == slots@.len(),
        r.vindexes@[i].id@ == slots@[i].id@ && r.vindexes@[i].path@ == slots@[i].path@,
        r.vindexes@[i].state == slots@[i].inner@.state(),
        r.vindexes@[i].size_bytes == slots@[i].size_bytes,
        r.vindex_dir is Some <==> dir is Some,
        dir matches Some(d) ==> r.vindex_dir->0@ == d@,
{
    assert(r.vindexes@[i]@ == crate::server::vindexes::info_of(slots@[i]));
}

} // verus!
