//! What holds of the server's rules.
use vstd::prelude::*;

use crate::path::joined_path;
use crate::server::error::Refusal;
use crate::server::extract::{
    hub_error, is_hf_id, is_needed, level_of, mixed, needed_files, next_job_id, nonce_of,
    output_name, plain_name, started_job, work_of, ExtractLevel, WorkView,
};
use crate::server::extract_run::{run_after, RunView, Step};
use crate::server::insert::{insert_statement, mode_of, InsertMode, InsertRequest, InsertStatement};
use crate::server::jobs::{JobStatus, JobView, JobsView, Report};
use crate::server::lql::{
    first_word, layer_lines, layers_hit_lines, occurrences, queries_for, quoted, ranking_lines,
    until_space, Hit, RelationCount,
};
use crate::server::progress::{feature_due, received};
use crate::server::slot::{size_of_files, DirEntry, VindexConfig};
use crate::server::vindexes::{info_of, total};
use crate::text::{
    ascii_lowercase, decimal, has_prefix, has_substring, has_suffix, occurs_at, padded, pieces,
    small_hex, white_space,
};
use crate::text_laws::{
    all_space, bare, cut_at_first, endings_taken, one_piece, separator_starts_piece,
    small_hex_reads_back, trimming_takes_space,
};

verus! {

/// There is no `c` in `s`.
pub open spec fn lacks_char(s: Seq<char>, c: char) -> bool {
    forall|i: int| 0 <= i < s.len() ==> #[trigger] s[i] != c
}

/// The names of the levels.
pub proof fn level_names()
    ensures
        level_of("browse"@) == Some(ExtractLevel::Browse),
        level_of("attention"@) == Some(ExtractLevel::Attention),
        level_of("attn"@) == Some(ExtractLevel::Attention),
        level_of("inference"@) == Some(ExtractLevel::Inference),
        level_of("infer"@) == Some(ExtractLevel::Inference),
        level_of("all"@) == Some(ExtractLevel::All),
        forall|s: Seq<char>| #[trigger]
            level_of(s) is Some ==> s == "browse"@ || s == "attention"@ || s == "attn"@ || s
                == "inference"@ || s == "infer"@ || s == "all"@,
{
    reveal_strlit("browse");
    reveal_strlit("attention");
    reveal_strlit("attn");
    reveal_strlit("inference");
    reveal_strlit("infer");
    reveal_strlit("all");
    assert("browse"@.len() == 6 && "attention"@.len() == 9 && "attn"@.len() == 4);
    assert("inference"@.len() == 9 && "infer"@.len() == 5 && "all"@.len() == 3);
    assert("attention"@[0] == 'a' && "inference"@[0] == 'i');
}

/// The directory for a model is named after the last part of its id or path,
/// without a model file's ending.
pub proof fn output_named_after_model(owner: Seq<char>, leaf: Seq<char>)
    requires
        lacks_char(leaf, '/'),
        !has_suffix(leaf, ".gguf"@),
    ensures
        output_name(leaf) == leaf + ".vindex"@,
        output_name(owner + "/"@ + leaf) == leaf + ".vindex"@,
        output_name(owner + "/"@ + leaf + ".gguf"@) == leaf + ".vindex"@,
{
    reveal_strlit("/");
    reveal_strlit(".gguf");
    one_piece(leaf, '/');
    assert(pieces(leaf, '/').last() == leaf);
    assert(owner + "/"@ + leaf =~= owner.push('/') + leaf);
    separator_starts_piece(owner, '/', leaf);
    endings_taken(leaf, ".gguf"@);
    let file = leaf + ".gguf"@;
    assert forall|i: int| 0 <= i < file.len() implies #[trigger] file[i] != '/' by {
        if i < leaf.len() {
            assert(file[i] == leaf[i]);
        } else {
            assert(file[i] == ".gguf"@[i - leaf.len()]);
        }
    }
    assert(owner + "/"@ + leaf + ".gguf"@ =~= owner.push('/') + file);
    separator_starts_piece(owner, '/', file);
    assert(pieces(owner, '/').push(leaf).last() == leaf);
    assert(pieces(owner, '/').push(file).last() == file);
}

/// A name without two dots in a row that does not start with a slash may be
/// built in; an empty one, one that leads up, and one that starts at the root
/// may not.
pub proof fn output_names_allowed(rel: Seq<char>, a: Seq<char>, b: Seq<char>)
    ensures
        rel.len() > 0 && rel[0] != '/' && (forall|i: int|
            0 <= i < rel.len() - 1 && rel[i] == '.' ==> #[trigger] rel[i + 1] != '.')
            ==> plain_name(rel),
        !plain_name(Seq::empty()),
        !plain_name(a + ".."@ + b),
        !plain_name("/"@ + b),
{
    reveal_strlit("..");
    reveal_strlit("/");
    if rel.len() > 0 && rel[0] != '/' && (forall|i: int|
        0 <= i < rel.len() - 1 && rel[i] == '.' ==> #[trigger] rel[i + 1] != '.') {
        if has_substring(rel, ".."@) {
            let i = choose|i: int| #[trigger] occurs_at(rel, ".."@, i);
            assert(rel.subrange(i, i + 2)[0] == '.');
            assert(rel.subrange(i, i + 2)[1] == '.');
            assert(rel[i] == '.' && rel[i + 1] == '.');
        }
        if has_prefix(rel, "/"@) {
            assert(rel.subrange(0, 1)[0] == '/');
        }
    }
    let s = a + ".."@ + b;
    assert(s.subrange(a.len() as int, a.len() as int + 2) =~= ".."@);
    assert(occurs_at(s, ".."@, a.len() as int));
    assert(("/"@ + b).subrange(0, 1) =~= "/"@);
}

/// An owner and a name with one slash between them are a model's id, unless
/// that is a path that exists or starts like one; without a slash, or with
/// more than one, a text is none.
pub proof fn model_ids(owner: Seq<char>, name: Seq<char>, more: Seq<char>)
    requires
        owner.len() > 0,
        name.len() > 0,
        lacks_char(owner, '/'),
        lacks_char(name, '/'),
        lacks_char(more, '/'),
    ensures
        is_hf_id(owner + "/"@ + name, false) == (owner[0] != '.'),
        !is_hf_id(owner + "/"@ + name, true),
        !is_hf_id(owner, false),
        !is_hf_id(owner + "/"@ + name + "/"@ + more, false),
        !is_hf_id("/"@ + name, false),
        !is_hf_id(owner + "/"@, false),
{
    reveal_strlit("/");
    reveal_strlit(".");
    let id = owner + "/"@ + name;
    one_piece(owner, '/');
    let none = Seq::<char>::empty();
    separator_starts_piece(owner, '/', none);
    assert(owner + "/"@ =~= owner.push('/') + none);
    assert(pieces(owner + "/"@, '/') =~= seq![owner, none]);
    assert(id =~= owner.push('/') + name);
    separator_starts_piece(owner, '/', name);
    assert(pieces(id, '/') =~= seq![owner, name]);
    assert(id[0] == owner[0] && owner[0] != '/');
    if has_prefix(id, "/"@) {
        assert(id.subrange(0, 1)[0] == '/');
    }
    if has_prefix(id, "."@) {
        assert(id.subrange(0, 1)[0] == '.');
    }
    if owner[0] == '.' {
        assert(id.subrange(0, 1) =~= "."@);
    }
    let long = id + "/"@ + more;
    assert(long =~= id.push('/') + more);
    separator_starts_piece(id, '/', more);
    assert(("/"@ + name).subrange(0, 1) =~= "/"@);
}

/// The files that are downloaded are those that a build needs, each as often
/// and in the order in which the repository lists them.
pub proof fn downloads_what_is_needed(a: Seq<Seq<char>>, name: Seq<char>, b: Seq<Seq<char>>)
    ensures
        needed_files(a.push(name)) == (if is_needed(name) {
            needed_files(a).push(name)
        } else {
            needed_files(a)
        }),
        needed_files(a + b) == needed_files(a) + needed_files(b),
        forall|i: int| 0 <= i < needed_files(a).len() ==> is_needed(#[trigger] needed_files(a)[i]),
        is_needed(name) && a.contains(name) ==> needed_files(a).contains(name),
    decreases a.len() + b.len(),
{
    assert(a.push(name).drop_last() =~= a);
    if b.len() > 0 {
        downloads_what_is_needed(a, name, b.drop_last());
        assert((a + b).drop_last() =~= a + b.drop_last());
        assert((a + b).last() == b.last());
        assert(needed_files(a + b) =~= needed_files(a) + needed_files(b));
    } else {
        assert(a + b =~= a);
        assert(needed_files(a) + needed_files(b) =~= needed_files(a));
        if a.len() > 0 {
            let init = a.drop_last();
            downloads_what_is_needed(init, name, b);
            assert forall|i: int| 0 <= i < needed_files(a).len() implies is_needed(
                #[trigger] needed_files(a)[i],
            ) by {
                if i < needed_files(init).len() {
                    assert(needed_files(a)[i] == needed_files(init)[i]);
                }
            }
            if is_needed(name) && a.contains(name) {
                let k = choose|k: int| 0 <= k < a.len() && a[k] == name;
                if k < init.len() {
                    assert(init[k] == name);
                    let j = choose|j: int|
                        0 <= j < needed_files(init).len() && needed_files(init)[j] == name;
                    assert(needed_files(a)[j] == name);
                } else {
                    assert(needed_files(a).last() == name);
                }
            }
        }
    }
}

/// A build needs the weights, the configuration and the tokenizer, and no
/// other text or binary files.
pub proof fn needed_names(stem: Seq<char>)
    ensures
        is_needed(stem + ".safetensors"@),
        is_needed("config.json"@),
        is_needed("tokenizer.json"@),
        is_needed("tokenizer_config.json"@),
        is_needed("special_tokens_map.json"@),
        is_needed("generation_config.json"@),
        is_needed("tokenizer.model"@),
        is_needed("model.safetensors.index.json"@),
        forall|s: Seq<char>| #[trigger]
            is_needed(s) ==> has_suffix(s, ".safetensors"@) || s == "config.json"@ || s
                == "tokenizer.json"@ || s == "tokenizer_config.json"@ || s
                == "special_tokens_map.json"@ || s == "generation_config.json"@ || s
                == "tokenizer.model"@ || s == "model.safetensors.index.json"@,
{
    reveal_strlit(".safetensors");
    reveal_strlit("config.json");
    reveal_strlit("tokenizer.json");
    reveal_strlit("tokenizer_config.json");
    reveal_strlit("special_tokens_map.json");
    reveal_strlit("generation_config.json");
    reveal_strlit("tokenizer.model");
    reveal_strlit("model.safetensors.index.json");
    let s = stem + ".safetensors"@;
    assert(s.subrange(s.len() - 12, s.len() as int) =~= ".safetensors"@);
}

/// A refusal by the hub is told by its code, the most telling one first, and
/// names the model; any other failure is told as it came.
pub proof fn hub_refusals(model: Seq<char>, context: Seq<char>, raw: Seq<char>)
    ensures
        has_substring(raw, "403"@) ==> has_prefix(
            hub_error(model, context, raw),
            "HuggingFace refused access to "@ + model,
        ),
        !has_substring(raw, "403"@) && has_substring(raw, "401"@) ==> has_prefix(
            hub_error(model, context, raw),
            "HuggingFace rejected the request to "@ + model,
        ),
        !has_substring(raw, "403"@) && !has_substring(raw, "401"@) && has_substring(raw, "404"@)
            ==> has_prefix(
            hub_error(model, context, raw),
            "HuggingFace has no repo called "@ + model,
        ),
        !has_substring(raw, "403"@) && !has_substring(raw, "401"@) && !has_substring(raw, "404"@)
            ==> has_suffix(hub_error(model, context, raw), raw) && has_prefix(
            hub_error(model, context, raw),
            context + " on "@ + model,
        ),
{
    let t = hub_error(model, context, raw);
    let a = "HuggingFace refused access to "@ + model;
    let b = "HuggingFace rejected the request to "@ + model;
    let c = "HuggingFace has no repo called "@ + model;
    let d = context + " on "@ + model;
    if has_substring(raw, "403"@) {
        assert(t.subrange(0, a.len() as int) =~= a);
    } else if has_substring(raw, "401"@) {
        assert(t.subrange(0, b.len() as int) =~= b);
    } else if has_substring(raw, "404"@) {
        assert(t.subrange(0, c.len() as int) =~= c);
    } else {
        assert(t.subrange(0, d.len() as int) =~= d);
        assert(t.subrange(t.len() - raw.len(), t.len() as int) =~= raw);
    }
}

/// Two counters give two numbers in the same thread.
pub proof fn mixing_keeps_counters_apart(a: u32, b: u32, thread: Seq<u8>)
    requires
        a != b,
    ensures
        nonce_of(a, thread) != nonce_of(b, thread),
{
    let h = mixed(0x9e37_79b9u32, thread);
    assert(a != b ==> a ^ h != b ^ h) by (bit_vector);
}

/// The id of a job tells its time and its number: two ids are the same only if
/// both are.
pub proof fn job_ids_differ(t: u64, n: u32, u: u64, m: u32, first: String, second: String)
    requires
        call_ensures(next_job_id, (t, n), first),
        call_ensures(next_job_id, (u, m), second),
        first@ == second@,
    ensures
        t == u,
        n == m,
{
    reveal_strlit("-");
    reveal_strlit("x-");
    let (a, b) = (small_hex(t as nat), small_hex(n as nat));
    let (c, d) = (small_hex(u as nat), small_hex(m as nat));
    small_hex_reads_back(t as nat);
    small_hex_reads_back(n as nat);
    small_hex_reads_back(u as nat);
    small_hex_reads_back(m as nat);
    let x = "x-"@ + a + "-"@ + b;
    let y = "x-"@ + c + "-"@ + d;
    assert(x.skip(2) =~= a.push('-') + b);
    assert(y.skip(2) =~= c.push('-') + d);
    cut_at_first(a, '-', b);
    cut_at_first(c, '-', d);
}

/// What a request asks for: the model without the white space around its name,
/// at the level that is named, in the directory for indexes under the name
/// that is given, or under the model's own.
pub proof fn request_taken(
    dir: Seq<char>,
    model: Seq<char>,
    level: ExtractLevel,
    lower: Seq<char>,
    rel: Seq<char>,
    space: Seq<char>,
)
    requires
        all_space(space),
        bare(model),
        model.len() > 0,
        bare(rel),
        plain_name(rel),
        level_of(lower) == Some(level),
    ensures
        work_of(Some(dir), space + model + space, lower, Some(space + rel + space)) == Ok::<
            WorkView,
            Refusal,
        >(WorkView { model, level, output_path: joined_path(dir, rel) }),
        plain_name(output_name(model)) ==> work_of(Some(dir), space + model + space, lower, None)
            == Ok::<WorkView, Refusal>(
            WorkView { model, level, output_path: joined_path(dir, output_name(model)) },
        ),
        work_of(None, model, lower, Some(rel)) is Err,
        work_of(Some(dir), space, lower, Some(rel)) is Err,
{
    trimming_takes_space(space, model, space);
    trimming_takes_space(space, rel, space);
    crate::text_laws::trimming_space_leaves_nothing(space);
}

/// Once a job is started it runs, and no other can be started; once it has
/// ended, another can.
pub proof fn one_job_at_a_time(v: JobsView, j: JobView, s: JobStatus, e: Report)
    requires
        j.status == JobStatus::Running,
        s != JobStatus::Running,
    ensures
        v.claimed(j).busy(),
        v.claimed(j).current == Some(j.id),
        v.claimed(j).jobs.dom().contains(j.id) && v.claimed(j).jobs[j.id] == j,
        v.claimed(j).changed(j.id, j.reported(e)).busy(),
        !v.claimed(j).changed(j.id, j.with_status(s)).busy(),
        forall|id: Seq<char>|
            id != j.id && v.jobs.dom().contains(id) ==> #[trigger] v.claimed(j).jobs.dom().contains(
                id,
            ) && v.claimed(j).jobs[id] == v.jobs[id],
{
}

/// A job starts running, with nothing reported, for what was asked.
pub proof fn started_job_runs(id: Seq<char>, w: WorkView, level: Seq<char>)
    ensures
        ({
            let j = started_job(id, w, level);
            &&& j.status == JobStatus::Running && j.log.len() == 0
            &&& j.id == id && j.model == w.model && j.output_path == w.output_path && j.level
                == level
        }),
{
}

/// A build is done only after each of its steps was: a failure at any of them
/// ends it with an error, and only the last one ends it well, with the id of
/// the new slot and the time until the end of the build.
pub proof fn build_ends_well_only_at_the_end(
    r: RunView,
    j: JobView,
    found: Seq<char>,
    elapsed: u64,
)
    requires
        j.status == JobStatus::Running,
        r.step != Step::Finished,
    ensures
        ({
            let (r1, j1) = run_after(r, j, Err(found), elapsed);
            r1.step == Step::Finished && j1.status == JobStatus::Failed && j1.log.last() is Error
        }),
        ({
            let (r1, j1) = run_after(r, j, Ok(found), elapsed);
            &&& (j1.status == JobStatus::Done) == (r.step == Step::Discover)
            &&& r.step == Step::Discover ==> j1.log.last() == (Report::Done {
                path: r.output_path,
                id: found,
                elapsed_micros: r.built_micros,
            })
            &&& r.step == Step::Build ==> r1.built_micros == elapsed && r1.step == Step::Discover
            &&& r.step == Step::Resolve || r.step == Step::ResolveDownloaded ==> r1.model_path
                == found
            &&& r.step == Step::Download ==> r1.step == Step::ResolveDownloaded
            &&& r.step == Step::FindTokenizer ==> r1.step == Step::LoadTokenizer
            &&& r.step == Step::LoadTokenizer ==> r1.step == Step::CreateDir
            &&& r.step == Step::CreateDir ==> r1.step == Step::Build
        }),
{
}

/// Bytes that are received add up, however they come.
pub proof fn received_adds_up(sent: usize, a: usize, b: usize)
    ensures
        sent + a + b <= usize::MAX ==> received(received(sent, a), b) == sent + a + b,
        received(sent, 0) == sent,
        received(sent, a) >= sent,
{
}

/// Progress is reported at the start and at the end of a layer, and whenever
/// 150 milliseconds have gone by; otherwise it is not.
pub proof fn progress_reports(done: usize, total: usize, since_ms: u64)
    ensures
        feature_due(0, total, since_ms),
        total > 0 ==> feature_due(total, total, since_ms),
        since_ms >= 150 ==> feature_due(done, total, since_ms),
        0 < done < total && since_ms < 150 ==> !feature_due(done, total, since_ms),
        done > 0 && total == 0 && since_ms < 150 ==> !feature_due(done, total, since_ms),
{
}

/// The size of a directory is the sum of its files' lengths, in any order;
/// what is no file does not count.
pub proof fn directory_sizes_add(a: Seq<DirEntry>, e: DirEntry)
    ensures
        size_of_files(Seq::empty()) == 0,
        e.is_file ==> size_of_files(a.push(e)) == size_of_files(a) + e.len,
        !e.is_file ==> size_of_files(a.push(e)) == size_of_files(a),
{
    assert(a.push(e).drop_last() =~= a);
}

/// The features of an index are those of all its layers.
pub proof fn features_add(a: Seq<usize>, n: usize)
    ensures
        total(Seq::empty()) == 0,
        total(a.push(n)) == total(a) + n,
{
    assert(a.push(n).drop_last() =~= a);
}

/// The text between the first two quotation marks is the entity; without two
/// of them there is none.
pub proof fn entity_is_quoted(a: Seq<char>, entity: Seq<char>, rest: Seq<char>)
    requires
        lacks_char(a, '"'),
        lacks_char(entity, '"'),
    ensures
        quoted(a.push('"') + (entity.push('"') + rest)) == Some(entity),
        quoted(a.push('"') + entity) is None,
        quoted(a) is None,
{
    cut_at_first(a, '"', entity.push('"') + rest);
    cut_at_first(a, '"', entity);
    cut_at_first(entity, '"', rest);
}

/// The number of characters before white space.
proof fn word_ends(w: Seq<char>, rest: Seq<char>)
    requires
        forall|i: int| 0 <= i < w.len() ==> !white_space(#[trigger] w[i]),
        rest.len() == 0 || white_space(rest[0]),
    ensures
        until_space(w + rest) == w.len(),
    decreases w.len(),
{
    if w.len() == 0 {
        assert(w + rest =~= rest);
    } else {
        assert(!white_space(w[0]));
        assert((w + rest).skip(1) =~= w.skip(1) + rest);
        assert forall|i: int| 0 <= i < w.skip(1).len() implies !white_space(
            #[trigger] w.skip(1)[i],
        ) by {
            assert(!white_space(w[i + 1]));
        }
        word_ends(w.skip(1), rest);
    }
}

/// The first word of a statement is what stands before the first white space,
/// behind any at the start.
pub proof fn first_word_is(space: Seq<char>, w: Seq<char>, rest: Seq<char>)
    requires
        all_space(space),
        w.len() > 0,
        forall|i: int| 0 <= i < w.len() ==> !white_space(#[trigger] w[i]),
        rest.len() == 0 || white_space(rest[0]) && !white_space(rest.last()),
    ensures
        first_word(space + (w + rest)) == w,
{
    let s = w + rest;
    assert(s[0] == w[0] && !white_space(w[0]));
    assert(rest.len() == 0 ==> s.last() == w[w.len() - 1]);
    let none = Seq::<char>::empty();
    trimming_takes_space(space, s, none);
    assert(space + s + none =~= space + s);
    word_ends(w, rest);
    assert(s.take(w.len() as int) =~= w);
}

/// A label counts as often as it stands in the list.
pub proof fn labels_counted(s: Seq<Seq<char>>, x: Seq<char>, y: Seq<char>)
    ensures
        occurrences(s.push(x), x) == occurrences(s, x) + 1,
        y != x ==> occurrences(s.push(y), x) == occurrences(s, x),
        occurrences(Seq::empty(), x) == 0,
{
    assert(s.push(x).drop_last() =~= s);
    assert(s.push(y).drop_last() =~= s);
}

/// At most twenty relations are shown, under a line that counts them all.
pub proof fn relations_shown(r: Seq<RelationCount>, i: int)
    requires
        r.len() > 0,
    ensures
        ranking_lines(r).len() == 1 + (if r.len() < 20 {
            r.len() as int
        } else {
            20
        }),
        ranking_lines(r)[0] == "Probe-confirmed relations: "@ + decimal(r.len()),
        0 <= i < r.len() && i < 20 ==> ranking_lines(r)[i + 1] == "  "@ + r[i].name@ + " (count="@
            + decimal(r[i].count as nat) + ")"@,
{
}

/// The layers are shown in their order, each with its number and its features.
pub proof fn layers_shown(c: VindexConfig, i: int)
    ensures
        layer_lines(c).len() == 1 + c.layers@.len(),
        layer_lines(c)[0] == "Layers: "@ + decimal(c.num_layers as nat),
        0 <= i < c.layers@.len() ==> layer_lines(c)[i + 1] == "  L"@ + padded(i as nat, 2) + ": "@
            + decimal(c.layers@[i] as nat) + " features"@,
{
}

/// The features of a layer that are shown stand behind those of the layers
/// before it.
pub proof fn hits_shown_by_layer(hits: Seq<Vec<Hit>>, n: nat, h: Hit)
    requires
        n < hits.len(),
    ensures
        has_prefix_lines(layers_hit_lines(hits, n + 1), layers_hit_lines(hits, n)),
        layers_hit_lines(hits, 0).len() == 0,
{
    let a = layers_hit_lines(hits, n);
    let b = layers_hit_lines(hits, n + 1);
    assert(b.take(a.len() as int) =~= a);
}

/// The lines `all` start with the lines `first`.
pub open spec fn has_prefix_lines(all: Seq<Seq<char>>, first: Seq<Seq<char>>) -> bool {
    first.len() <= all.len() && all.take(first.len() as int) == first
}

/// Describing an entity asks each layer once, in order, for five features, and
/// none where the entity has no tokens.
pub proof fn every_layer_asked(tokens: Result<usize, String>, layers: usize, l: int)
    ensures
        tokens matches Ok(n) && n > 0 ==> {
            &&& queries_for(tokens, layers).len() == layers
            &&& 0 <= l < layers ==> queries_for(tokens, layers)[l].layer == l && queries_for(
                tokens,
                layers,
            )[l].count == 5
        },
        !(tokens matches Ok(n) && n > 0) ==> queries_for(tokens, layers).len() == 0,
{
}

/// Only the word `knn`, in letters of any case and with white space around it,
/// asks for insertion for retrieval.
pub proof fn insertion_modes(space: Seq<char>, word: Seq<char>)
    requires
        all_space(space),
        bare(word),
        word.len() > 0,
    ensures
        mode_of(Some(space + word + space)) == (if word.len() == 3 && (word[0] == 'k' || word[0]
            == 'K') && (word[1] == 'n' || word[1] == 'N') && (word[2] == 'n' || word[2] == 'N') {
            InsertMode::Knn
        } else {
            InsertMode::Compose
        }),
        mode_of(None) == InsertMode::Compose,
{
    reveal_strlit("knn");
    trimming_takes_space(space, word, space);
    let low = ascii_lowercase(word);
    if word.len() == 3 {
        if low == "knn"@ {
            assert(low[0] == 'k' && low[1] == 'n' && low[2] == 'n');
        }
        if (word[0] == 'k' || word[0] == 'K') && (word[1] == 'n' || word[1] == 'N') && (word[2]
            == 'n' || word[2] == 'N') {
            assert(low =~= "knn"@);
        }
    } else {
        assert(low.len() == word.len());
    }
}

/// The statement and the answer carry the request's own words.
pub proof fn insertion_keeps_words(req: &InsertRequest, s: InsertStatement)
    requires
        call_ensures(insert_statement, (req,), s),
    ensures
        s.entity@ == req.entity@,
        s.relation@ == req.relation@,
        s.target@ == req.target@,
        s.layer == req.layer && s.alpha == req.alpha && s.confidence == req.confidence,
        req.mode is None ==> s.mode == InsertMode::Compose,
{
}

/// What is told of an index is its own.
pub proof fn told_of_index<M>(s: crate::server::slot::ModelSlot<M>)
    ensures
        info_of(s).id == s.id@ && info_of(s).name == s.id@,
        info_of(s).path == s.path@ && info_of(s).model == s.config.model@,
        info_of(s).layers == s.config.num_layers && info_of(s).size_bytes == s.size_bytes,
        info_of(s).features == total(s.config.layers@),
        info_of(s).load_stage is Some ==> info_of(s).state
            == crate::server::slot::SlotState::Loading,
        info_of(s).last_error is Some <==> info_of(s).state
            == crate::server::slot::SlotState::Failed,
{
}

} // verus!
