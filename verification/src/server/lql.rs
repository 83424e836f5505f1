//! Queries: which statements are understood, and what they answer.
//!
//! A score is held by its bit pattern, beside its text.
use vstd::prelude::*;

use crate::kv::generation::{is_nan, key_of, nan_bits, order_key};
use crate::server::error::{Refusal, ServerError};
use crate::server::slot::VindexConfig;
use crate::server::vindexes::{features_fit, level_text, level_title, total, total_features};
use crate::text::{
    concat, concat3, contains, cut, decimal, decimal_string, from_chars, has_substring,
    is_whitespace, join, joined, padded, padded_string, same, split_once, texts, to_chars,
    to_uppercase, trim, trim_end_matches, trimmed, uppercase_of, white_space, without_endings,
};

verus! {

/// A statement to execute.
pub struct LqlRequest {
    pub statement: String,
}

/// Which model to ask; needed where there are several.
pub struct LqlQuery {
    pub model: Option<String>,
}

/// The lines that answer a statement, or why there is no answer.
#[derive(Debug)]
pub struct LqlResponse {
    pub output: Vec<String>,
    pub error: Option<String>,
}

/// What statements are answered from.
pub struct LqlModel {
    pub config: VindexConfig,
    /// The relations that were confirmed, one for each feature.
    pub probe_labels: Vec<String>,
    pub num_patches: usize,
}

/// A feature that an entity excites.
pub struct Hit {
    pub feature: usize,
    /// The score's bit pattern.
    pub score: u32,
    /// The score with two digits behind the point.
    pub score_text: String,
    /// The feature's label, if it has one.
    pub label: Option<String>,
}

/// A question to one layer: the features that are nearest to an entity.
#[derive(Debug, Clone, Copy, PartialEq, Eq, Structural)]
pub struct NearestQuery {
    pub layer: usize,
    /// How many features are asked for.
    pub count: usize,
}

/// How many features each layer is asked for.
pub const NEIGHBOURS: usize = 5;

/// What answers a statement.
#[derive(Debug)]
pub enum LqlAnswer {
    /// These lines.
    Lines(Vec<String>),
    /// What [`describe_entity`] says of this entity.
    Describe(String),
}

/// What an [`LqlAnswer`] holds, as plain values.
pub enum AnswerView {
    Lines(Seq<Seq<char>>),
    Describe(Seq<char>),
}

impl View for LqlAnswer {
    type V = AnswerView;

    open spec fn view(&self) -> AnswerView {
        match self {
            LqlAnswer::Lines(v) => AnswerView::Lines(texts(v@)),
            LqlAnswer::Describe(e) => AnswerView::Describe(e@),
        }
    }
}

/// The text between the first two quotation marks.
pub open spec fn quoted(s: Seq<char>) -> Option<Seq<char>> {
    match cut(s, '"') {
        Some((_, rest)) => match cut(rest, '"') {
            Some((inner, _)) => Some(inner),
            None => None,
        },
        None => None,
    }
}

/// The text between the first two quotation marks.
pub fn extract_quoted(s: &str) -> (r: Option<String>)
    ensures
        match r {
            Some(t) => quoted(s@) == Some(t@),
            None => quoted(s@) is None,
        },
{
    match split_once(s, '"') {
        Some((_, rest)) => match split_once(rest.as_str(), '"') {
            Some((inner, _)) => Some(inner),
            None => None,
        },
        None => None,
    }
}

/// The number of characters before the first white space; all of them if
/// there is none.
pub open spec fn until_space(s: Seq<char>) -> nat
    decreases s.len(),
{
    if s.len() == 0 || white_space(s[0]) {
        0
    } else {
        1 + until_space(s.skip(1))
    }
}

/// The first `n` characters are not white space, and then there is some or
/// the end.
proof fn until_space_is(s: Seq<char>, n: int)
    requires
        0 <= n <= s.len(),
        forall|i: int| 0 <= i < n ==> !white_space(#[trigger] s[i]),
        n == s.len() || white_space(s[n]),
    ensures
        until_space(s) == n,
    decreases n,
{
    if n > 0 {
        assert(!white_space(s[0]));
        assert forall|i: int| 0 <= i < n - 1 implies !white_space(#[trigger] s.skip(1)[i]) by {
            assert(s.skip(1)[i] == s[i + 1]);
        }
        until_space_is(s.skip(1), n - 1);
    }
}

/// The first word of a text that does not start with white space; empty if
/// there is none.
pub open spec fn leading_word(s: Seq<char>) -> Seq<char> {
    s.take(until_space(s) as int)
}

/// The first word: what stands before the first white space, after the white
/// space at the start.
pub open spec fn first_word(s: Seq<char>) -> Seq<char> {
    leading_word(trimmed(s))
}

/// The first word.
fn word_of(s: &str) -> (r: String)
    ensures
        r@ == first_word(s@),
{
    let text = trim(s);
    let chars = to_chars(text.as_str());
    let mut n: usize = 0;
    while n < chars.len() && !is_whitespace(chars[n])
        invariant
            0 <= n <= chars.len(),
            forall|i: int| 0 <= i < n ==> !white_space(#[trigger] chars@[i]),
        decreases chars.len() - n,
    {
        n += 1;
    }
    proof {
        until_space_is(chars@, n as int);
        assert(chars@.subrange(0, n as int) =~= chars@.take(n as int));
    }
    from_chars(&chars, 0, n)
}

/// How often `x` stands in `s`.
pub open spec fn occurrences(s: Seq<Seq<char>>, x: Seq<char>) -> nat
    decreases s.len(),
{
    if s.len() == 0 {
        0
    } else {
        occurrences(s.drop_last(), x) + if s.last() == x {
            1nat
        } else {
            0
        }
    }
}

/// What does not stand in `s` stands there no times, and what stands there
/// does so at least once.
proof fn occurrences_found(s: Seq<Seq<char>>, x: Seq<char>)
    ensures
        (occurrences(s, x) == 0) == !s.contains(x),
    decreases s.len(),
{
    if s.len() > 0 {
        occurrences_found(s.drop_last(), x);
        if s.drop_last().contains(x) {
            let i = choose|i: int| 0 <= i < s.len() - 1 && s.drop_last()[i] == x;
            assert(s[i] == x);
        }
        if s.contains(x) && s.last() != x {
            let i = choose|i: int| 0 <= i < s.len() && s[i] == x;
            assert(s.drop_last()[i] == x);
        }
        if s.last() == x {
            assert(s[s.len() - 1] == x);
        }
    }
}

/// A relation and how often it was confirmed.
pub struct RelationCount {
    pub name: String,
    pub count: usize,
}

/// The names of a list of relations.
pub open spec fn names(r: Seq<RelationCount>) -> Seq<Seq<char>> {
    r.map_values(|c: RelationCount| c.name@)
}

/// Each relation of `labels` is in `r` once, with the number of its
/// occurrences.
pub open spec fn counts_labels(r: Seq<RelationCount>, labels: Seq<Seq<char>>) -> bool {
    &&& names(r).no_duplicates()
    &&& forall|i: int|
        0 <= i < r.len() ==> (#[trigger] r[i]).count == occurrences(labels, r[i].name@)
    &&& forall|i: int| 0 <= i < r.len() ==> labels.contains((#[trigger] r[i]).name@)
    &&& forall|x: Seq<char>| labels.contains(x) ==> #[trigger] names(r).contains(x)
}

/// The most frequent ones come first.
pub open spec fn by_count(r: Seq<RelationCount>) -> bool {
    forall|i: int, j: int| 0 <= i < j < r.len() ==> r[i].count >= r[j].count
}

/// How often `x` stands in `labels`.
fn count_of(labels: &Vec<String>, x: &str) -> (r: usize)
    ensures
        r == occurrences(texts(labels@), x@),
{
    let mut n: usize = 0;
    for i in 0..labels.len()
        invariant
            n == occurrences(texts(labels@).take(i as int), x@),
            n <= i,
    {
        proof {
            assert(texts(labels@).take(i + 1).drop_last() =~= texts(labels@).take(i as int));
        }
        if same(labels[i].as_str(), x) {
            n = n + 1;
        }
    }
    assert(texts(labels@).take(labels@.len() as int) =~= texts(labels@));
    n
}

/// Whether `x` is one of the relations.
fn is_counted(ranking: &Vec<RelationCount>, x: &str) -> (r: bool)
    ensures
        r == names(ranking@).contains(x@),
{
    let mut i: usize = 0;
    while i < ranking.len()
        invariant
            0 <= i <= ranking.len(),
            forall|k: int| 0 <= k < i ==> names(ranking@)[k] != x@,
        decreases ranking.len() - i,
    {
        if same(ranking[i].name.as_str(), x) {
            assert(names(ranking@)[i as int] == x@);
            return true;
        }
        i += 1;
    }
    false
}

/// The relations of `labels`, the most frequent ones first.
pub fn rank_relations(labels: &Vec<String>) -> (r: Vec<RelationCount>)
    ensures
        counts_labels(r@, texts(labels@)),
        by_count(r@),
{
    let mut ranking: Vec<RelationCount> = Vec::new();
    let ghost all = texts(labels@);
    for i in 0..labels.len()
        invariant
            all == texts(labels@),
            names(ranking@).no_duplicates(),
            forall|k: int|
                0 <= k < ranking@.len() ==> (#[trigger] ranking@[k]).count == occurrences(
                    all,
                    ranking@[k].name@,
                ),
            forall|k: int|
                0 <= k < ranking@.len() ==> all.contains((#[trigger] ranking@[k]).name@),
            forall|k: int| 0 <= k < i ==> names(ranking@).contains(#[trigger] all[k]),
            by_count(ranking@),
    {
        let label = labels[i].as_str();
        assert(all[i as int] == label@);
        if !is_counted(&ranking, label) {
            let count = count_of(labels, label);
            let mut at: usize = 0;
            while at < ranking.len() && ranking[at].count >= count
                invariant
                    0 <= at <= ranking.len(),
                    forall|k: int| 0 <= k < at ==> (#[trigger] ranking@[k]).count >= count,
                decreases ranking.len() - at,
            {
                at += 1;
            }
            let ghost before = ranking@;
            let entry = RelationCount { name: labels[i].clone(), count };
            ranking.insert(at, entry);
            proof {
                entry_inserted(before, at as int, entry);
                assert forall|k: int| 0 <= k <= i implies names(ranking@).contains(
                    #[trigger] all[k],
                ) by {
                    if k < i {
                        assert(names(before).contains(all[k]));
                    } else {
                        assert(names(ranking@).contains(label@));
                    }
                }
                assert forall|k: int| 0 <= k < ranking@.len() implies all.contains(
                    (#[trigger] ranking@[k]).name@,
                ) && ranking@[k].count == occurrences(all, ranking@[k].name@) by {
                    if k < at {
                        assert(ranking@[k] == before[k]);
                    } else if k > at {
                        assert(ranking@[k] == before[k - 1]);
                    }
                }
                assert forall|a: int, b: int| 0 <= a < b < ranking@.len() implies ranking@[a].count
                    >= ranking@[b].count by {
                    if a < at {
                        assert(ranking@[a] == before[a]);
                        if b > at {
                            assert(ranking@[b] == before[b - 1]);
                        }
                    } else if a == at {
                        assert(ranking@[b] == before[b - 1]);
                        assert(before[at as int].count >= before[b - 1].count);
                    } else {
                        assert(ranking@[a] == before[a - 1]);
                        assert(ranking@[b] == before[b - 1]);
                    }
                }
            }
        } else {
            assert(names(ranking@).contains(all[i as int]));
        }
    }
    proof {
        assert forall|x: Seq<char>| all.contains(x) implies #[trigger] names(ranking@).contains(
            x,
        ) by {
            let k = choose|k: int| 0 <= k < all.len() && all[k] == x;
            assert(names(ranking@).contains(all[k]));
        }
    }
    ranking
}

/// A new relation put among the others stands there once, as they do.
proof fn entry_inserted(before: Seq<RelationCount>, at: int, entry: RelationCount)
    requires
        0 <= at <= before.len(),
        names(before).no_duplicates(),
        !names(before).contains(entry.name@),
    ensures
        names(before.insert(at, entry)).no_duplicates(),
        names(before.insert(at, entry)).contains(entry.name@),
        forall|x: Seq<char>|
            names(before).contains(x) ==> #[trigger] names(before.insert(at, entry)).contains(x),
{
    let after = before.insert(at, entry);
    assert(names(after)[at] == entry.name@);
    assert forall|a: int, b: int| 0 <= a < b < after.len() implies names(after)[a] != names(
        after,
    )[b] by {
        if a < at {
            assert(names(after)[a] == names(before)[a]);
        } else if a > at {
            assert(names(after)[a] == names(before)[a - 1]);
        }
        if b < at {
            assert(names(after)[b] == names(before)[b]);
        } else if b > at {
            assert(names(after)[b] == names(before)[b - 1]);
        }
    }
    assert forall|x: Seq<char>| names(before).contains(x) implies #[trigger] names(after).contains(
        x,
    ) by {
        let k = choose|k: int| 0 <= k < before.len() && names(before)[k] == x;
        if k < at {
            assert(names(after)[k] == x);
        } else {
            assert(names(after)[k + 1] == x);
        }
    }
}

/// How many relations are shown at most.
pub const SHOWN_RELATIONS: usize = 20;

/// The line of one relation.
pub open spec fn relation_line(c: RelationCount) -> Seq<char> {
    "  "@ + c.name@ + " (count="@ + decimal(c.count as nat) + ")"@
}

/// The lines that show a ranking: how many relations there are, and the first
/// of them.
pub open spec fn ranking_lines(r: Seq<RelationCount>) -> Seq<Seq<char>> {
    if r.len() == 0 {
        seq![
            "No probe-confirmed relations. Use /v1/relations for inferred relations."@,
        ]
    } else {
        seq!["Probe-confirmed relations: "@ + decimal(r.len())] + Seq::new(
            if r.len() <= SHOWN_RELATIONS {
                r.len()
            } else {
                SHOWN_RELATIONS as nat
            },
            |i: int| relation_line(r[i]),
        )
    }
}

/// The lines that show a ranking.
pub fn show_ranking(ranking: &Vec<RelationCount>) -> (r: Vec<String>)
    ensures
        texts(r@) == ranking_lines(ranking@),
{
    let mut lines: Vec<String> = Vec::new();
    if ranking.len() == 0 {
        lines.push(
            "No probe-confirmed relations. Use /v1/relations for inferred relations.".to_owned(),
        );
        assert(texts(lines@) =~= ranking_lines(ranking@));
        return lines;
    }
    let number = decimal_string(ranking.len() as u64);
    lines.push(concat("Probe-confirmed relations: ", number.as_str()));
    let shown: usize = if ranking.len() <= SHOWN_RELATIONS {
        ranking.len()
    } else {
        SHOWN_RELATIONS
    };
    for i in 0..shown
        invariant
            shown <= ranking@.len(),
            lines@.len() == i + 1,
            lines@[0]@ == "Probe-confirmed relations: "@ + decimal(ranking@.len()),
            forall|k: int| 0 <= k < i ==> (#[trigger] lines@[k + 1])@ == relation_line(ranking@[k]),
    {
        let head = concat3("  ", ranking[i].name.as_str(), " (count=");
        let count = decimal_string(ranking[i].count as u64);
        lines.push(concat3(head.as_str(), count.as_str(), ")"));
    }
    proof {
        let expected = ranking_lines(ranking@);
        assert forall|k: int| 0 <= k < lines@.len() implies texts(lines@)[k] == expected[k] by {
            if k > 0 {
                assert(lines@[(k - 1) + 1]@ == relation_line(ranking@[k - 1]));
            }
        }
        assert(texts(lines@) =~= expected);
    }
    lines
}

/// The line of one layer.
pub open spec fn layer_line(i: int, features: usize) -> Seq<char> {
    "  L"@ + padded(i as nat, 2) + ": "@ + decimal(features as nat) + " features"@
}

/// The lines that show the layers.
pub open spec fn layer_lines(c: VindexConfig) -> Seq<Seq<char>> {
    seq!["Layers: "@ + decimal(c.num_layers as nat)] + Seq::new(
        c.layers@.len(),
        |i: int| layer_line(i, c.layers@[i]),
    )
}

/// The lines that show the layers.
fn show_layers(c: &VindexConfig) -> (r: Vec<String>)
    ensures
        texts(r@) == layer_lines(*c),
{
    let mut lines: Vec<String> = Vec::new();
    let number = decimal_string(c.num_layers as u64);
    lines.push(concat("Layers: ", number.as_str()));
    for i in 0..c.layers.len()
        invariant
            lines@.len() == i + 1,
            lines@[0]@ == "Layers: "@ + decimal(c.num_layers as nat),
            forall|k: int|
                0 <= k < i ==> (#[trigger] lines@[k + 1])@ == layer_line(k, c.layers@[k]),
    {
        let index = padded_string(i as u64, 2);
        let head = concat3("  L", index.as_str(), ": ");
        let features = decimal_string(c.layers[i] as u64);
        lines.push(concat3(head.as_str(), features.as_str(), " features"));
    }
    proof {
        let expected = layer_lines(*c);
        assert forall|k: int| 0 <= k < lines@.len() implies texts(lines@)[k] == expected[k] by {
            if k > 0 {
                assert(lines@[(k - 1) + 1]@ == layer_line(k - 1, c.layers@[k - 1]));
            }
        }
        assert(texts(lines@) =~= expected);
    }
    lines
}

/// The lines that show the patches.
pub open spec fn patch_lines(n: nat) -> Seq<Seq<char>> {
    seq![
        if n == 0 {
            "No patches applied."@
        } else {
            "Applied patches: "@ + decimal(n)
        },
    ]
}

/// The lines of the statistics.
pub open spec fn stats_lines(c: VindexConfig) -> Seq<Seq<char>> {
    seq![
        "Model: "@ + c.model@,
        "Layers: "@ + decimal(c.num_layers as nat),
        "Features: "@ + decimal(total(c.layers@)),
        "Hidden size: "@ + decimal(c.hidden_size as nat),
        "Vocab size: "@ + decimal(c.vocab_size as nat),
        "Extract level: "@ + level_title(c.extract_level),
    ]
}

/// A label and a number.
fn number_line(label: &str, n: usize) -> (r: String)
    ensures
        r@ == label@ + decimal(n as nat),
{
    let number = decimal_string(n as u64);
    concat(label, number.as_str())
}

/// The lines of the statistics.
fn show_stats(c: &VindexConfig) -> (r: Vec<String>)
    requires
        total(c.layers@) <= usize::MAX,
    ensures
        texts(r@) == stats_lines(*c),
{
    let level = level_text(c.extract_level);
    let mut lines: Vec<String> = Vec::new();
    lines.push(concat("Model: ", c.model.as_str()));
    lines.push(number_line("Layers: ", c.num_layers));
    lines.push(number_line("Features: ", total_features(&c.layers)));
    lines.push(number_line("Hidden size: ", c.hidden_size));
    lines.push(number_line("Vocab size: ", c.vocab_size));
    lines.push(concat("Extract level: ", level.as_str()));
    assert(texts(lines@) =~= stats_lines(*c));
    lines
}

/// One line.
fn one_line(line: String) -> (r: Vec<String>)
    ensures
        texts(r@) == seq![line@],
{
    let mut lines: Vec<String> = Vec::new();
    lines.push(line);
    assert(texts(lines@) =~= seq![line@]);
    lines
}

/// What is said of a statement that is not understood.
pub open spec fn unsupported(word: Seq<char>) -> Seq<char> {
    "Statement type '"@ + word
        + "' is not yet supported via the HTTP LQL endpoint. Supported: DESCRIBE, SHOW, STATS."@
}

/// A statement in capitals, without the semicolons and the white space at its
/// end.
pub open spec fn normal_form(stmt: Seq<char>) -> Seq<char> {
    uppercase_of(trimmed(without_endings(stmt, ";"@)))
}

/// The answer to a statement whose normal form is `upper`.  Which relations
/// of equal frequency are shown first is open.
pub open spec fn answers(
    r: Result<AnswerView, Seq<char>>,
    model: LqlModel,
    stmt: Seq<char>,
    upper: Seq<char>,
) -> bool {
    let word = first_word(upper);
    if word == "DESCRIBE"@ {
        r == match quoted(stmt) {
            Some(entity) => Ok::<AnswerView, Seq<char>>(AnswerView::Describe(entity)),
            None => Err("DESCRIBE requires a quoted entity"@),
        }
    } else if word == "SHOW"@ {
        if has_substring(upper, "LAYERS"@) {
            r == Ok::<AnswerView, Seq<char>>(AnswerView::Lines(layer_lines(model.config)))
        } else if has_substring(upper, "RELATIONS"@) {
            exists|ranking: Seq<RelationCount>|
                {
                    &&& counts_labels(ranking, texts(model.probe_labels@))
                    &&& by_count(ranking)
                    &&& r == Ok::<AnswerView, Seq<char>>(
                        AnswerView::Lines(#[trigger] ranking_lines(ranking)),
                    )
                }
        } else if has_substring(upper, "PATCHES"@) {
            r == Ok::<AnswerView, Seq<char>>(
                AnswerView::Lines(patch_lines(model.num_patches as nat)),
            )
        } else {
            r == Ok::<AnswerView, Seq<char>>(
                AnswerView::Lines(seq!["SHOW subcommand not recognized: "@ + stmt]),
            )
        }
    } else if word == "STATS"@ {
        r == Ok::<AnswerView, Seq<char>>(AnswerView::Lines(stats_lines(model.config)))
    } else {
        r == Err::<AnswerView, Seq<char>>(unsupported(word))
    }
}

/// The answer to a statement, as plain values.
pub open spec fn answer_view(r: Result<LqlAnswer, String>) -> Result<AnswerView, Seq<char>> {
    match r {
        Ok(a) => Ok(a@),
        Err(e) => Err(e@),
    }
}

/// What the statement with the normal form `upper` counts fits in a machine
/// word: only the statistics count the features of all layers.
pub open spec fn countable(model: LqlModel, upper: Seq<char>) -> bool {
    first_word(upper) == "STATS"@ ==> total(model.config.layers@) <= usize::MAX
}

/// Answers a statement, given its normal form.
pub fn execute_normalized(model: &LqlModel, stmt: &str, upper: &str) -> (r: Result<
    LqlAnswer,
    String,
>)
    requires
        countable(*model, upper@),
    ensures
        answers(answer_view(r), *model, stmt@, upper@),
{
    let word = word_of(upper);
    if same(word.as_str(), "DESCRIBE") {
        return match extract_quoted(stmt) {
            Some(entity) => Ok(LqlAnswer::Describe(entity)),
            None => Err("DESCRIBE requires a quoted entity".to_owned()),
        };
    }
    if same(word.as_str(), "SHOW") {
        let lines = if contains(upper, "LAYERS") {
            show_layers(&model.config)
        } else if contains(upper, "RELATIONS") {
            let ranking = rank_relations(&model.probe_labels);
            let shown = show_ranking(&ranking);
            assert(texts(shown@) == ranking_lines(ranking@));
            shown
        } else if contains(upper, "PATCHES") {
            if model.num_patches == 0 {
                one_line("No patches applied.".to_owned())
            } else {
                one_line(number_line("Applied patches: ", model.num_patches))
            }
        } else {
            one_line(concat("SHOW subcommand not recognized: ", stmt))
        };
        return Ok(LqlAnswer::Lines(lines));
    }
    if same(word.as_str(), "STATS") {
        return Ok(LqlAnswer::Lines(show_stats(&model.config)));
    }
    Err(
        concat3(
            "Statement type '",
            word.as_str(),
            "' is not yet supported via the HTTP LQL endpoint. Supported: DESCRIBE, SHOW, STATS.",
        ),
    )
}

/// The normal form of a statement.
fn normalize(stmt: &str) -> (r: String)
    ensures
        r@ == normal_form(stmt@),
{
    proof {
        reveal_strlit(";");
    }
    let bare = trim_end_matches(stmt, ";");
    let text = trim(bare.as_str());
    to_uppercase(text.as_str())
}

/// Answers a statement.
pub fn execute_lql_statement(model: &LqlModel, stmt: &str) -> (r: Result<LqlAnswer, String>)
    requires
        countable(*model, normal_form(stmt@)),
    ensures
        answers(answer_view(r), *model, stmt@, normal_form(stmt@)),
{
    let upper = normalize(stmt);
    execute_normalized(model, stmt, upper.as_str())
}

/// Answers a statement, unless what it counts does not fit in a machine word.
pub fn try_lql_statement(model: &LqlModel, stmt: &str) -> (r: Option<Result<LqlAnswer, String>>)
    ensures
        match r {
            Some(answer) => countable(*model, normal_form(stmt@)) && answers(
                answer_view(answer),
                *model,
                stmt@,
                normal_form(stmt@),
            ),
            None => !countable(*model, normal_form(stmt@)),
        },
{
    let upper = normalize(stmt);
    let word = word_of(upper.as_str());
    if same(word.as_str(), "STATS") && !features_fit(&model.config.layers) {
        return None;
    }
    Some(execute_lql_statement(model, stmt))
}

/// The bit pattern of the lowest score that is shown.
pub const LOWEST_SHOWN_SCORE: u32 = 0x40A0_0000;

/// A score that is shown: one that is not below the lowest.
pub open spec fn shown(score: u32) -> bool {
    is_nan(score) || order_key(score) >= order_key(LOWEST_SHOWN_SCORE)
}

/// The line of one feature.
pub open spec fn hit_line(layer: int, h: Hit) -> Seq<char> {
    "  L"@ + padded(layer as nat, 2) + " F"@ + padded(h.feature as nat, 4) + " score="@
        + h.score_text@ + " "@ + match h.label {
        Some(l) => l@,
        None => Seq::empty(),
    }
}

/// The lines of the features of one layer that are shown.
pub open spec fn hit_lines(layer: int, hits: Seq<Hit>) -> Seq<Seq<char>>
    decreases hits.len(),
{
    if hits.len() == 0 {
        Seq::empty()
    } else {
        let before = hit_lines(layer, hits.drop_last());
        if shown(hits.last().score) {
            before.push(hit_line(layer, hits.last()))
        } else {
            before
        }
    }
}

/// The lines of the features of the first `n` layers that are shown.
pub open spec fn layers_hit_lines(hits: Seq<Vec<Hit>>, n: nat) -> Seq<Seq<char>>
    decreases n,
{
    if n == 0 {
        Seq::empty()
    } else {
        layers_hit_lines(hits, (n - 1) as nat) + hit_lines(n - 1, hits[n - 1]@)
    }
}

/// The lines that describe an entity.
pub open spec fn entity_lines(entity: Seq<char>, hits: Seq<Vec<Hit>>) -> Seq<Seq<char>> {
    let found = layers_hit_lines(hits, hits.len());
    seq!["Entity: "@ + entity] + if found.len() == 0 {
        seq!["  (no matching features)"@]
    } else {
        found
    }
}

/// The line of one feature.
fn hit_text(layer: usize, h: &Hit) -> (r: String)
    ensures
        r@ == hit_line(layer as int, *h),
{
    let index = padded_string(layer as u64, 2);
    let feature = padded_string(h.feature as u64, 4);
    let head = concat3("  L", index.as_str(), " F");
    let middle = concat3(head.as_str(), feature.as_str(), " score=");
    let scored = concat3(middle.as_str(), h.score_text.as_str(), " ");
    match &h.label {
        Some(label) => concat(scored.as_str(), label.as_str()),
        None => {
            assert(scored@ + Seq::<char>::empty() =~= scored@);
            scored
        },
    }
}

/// The questions that describing an entity takes: every layer in turn, if the
/// entity has tokens; none otherwise.
pub open spec fn queries_for(tokens: Result<usize, String>, num_layers: usize) -> Seq<
    NearestQuery,
> {
    match tokens {
        Ok(n) => if n > 0 {
            Seq::new(
                num_layers as nat,
                |l: int| NearestQuery { layer: l as usize, count: NEIGHBOURS },
            )
        } else {
            Seq::empty()
        },
        Err(_) => Seq::empty(),
    }
}

/// The questions that describing an entity takes, given what its tokenization
/// gave.
pub fn describe_plan(config: &VindexConfig, tokens: &Result<usize, String>) -> (r: Vec<
    NearestQuery,
>)
    ensures
        r@ == queries_for(*tokens, config.num_layers),
{
    let mut plan: Vec<NearestQuery> = Vec::new();
    let has_tokens = match tokens {
        Ok(n) => *n > 0,
        Err(_) => false,
    };
    if has_tokens {
        let ghost want = queries_for(*tokens, config.num_layers);
        for layer in 0..config.num_layers
            invariant
                want == queries_for(*tokens, config.num_layers),
                want.len() == config.num_layers,
                forall|l: int|
                    0 <= l < want.len() ==> #[trigger] want[l] == (NearestQuery {
                        layer: l as usize,
                        count: NEIGHBOURS,
                    }),
                plan@ == want.take(layer as int),
        {
            plan.push(NearestQuery { layer, count: NEIGHBOURS });
            assert(plan@ =~= want.take(layer + 1));
        }
        assert(want.take(want.len() as int) =~= want);
    }
    assert(plan@ =~= queries_for(*tokens, config.num_layers));
    plan
}

/// Describes an entity, given what its tokenization gave (the number of its
/// tokens, or why there are none) and the answers to the questions of
/// [`describe_plan`]: the features nearest to it in each layer.
pub fn describe_entity(
    config: &VindexConfig,
    entity: &str,
    tokens: Result<usize, String>,
    hits: &Vec<Vec<Hit>>,
) -> (r: Result<Vec<String>, String>)
    requires
        hits@.len() == queries_for(tokens, config.num_layers).len(),
    ensures
        match tokens {
            Err(e) => r matches Err(f) && f@ == "tokenize error: "@ + e@,
            Ok(n) => r matches Ok(lines) && if n == 0 {
                texts(lines@) == seq!["No tokens for entity: "@ + entity@]
            } else {
                hits@.len() == config.num_layers && texts(lines@) == entity_lines(entity@, hits@)
            },
        },
{
    let n: usize = match tokens {
        Err(e) => {
            return Err(concat("tokenize error: ", e.as_str()));
        },
        Ok(n) => n,
    };
    if n == 0 {
        return Ok(one_line(concat("No tokens for entity: ", entity)));
    }
    let mut lines: Vec<String> = Vec::new();
    lines.push(concat("Entity: ", entity));
    let ghost head = seq!["Entity: "@ + entity@];
    assert(texts(lines@) =~= head + Seq::<Seq<char>>::empty());
    for layer in 0..hits.len()
        invariant
            head == seq!["Entity: "@ + entity@],
            texts(lines@) == head + layers_hit_lines(hits@, layer as nat),
    {
        let ghost before = layers_hit_lines(hits@, layer as nat);
        let row = &hits[layer];
        for i in 0..row.len()
            invariant
                row@ == hits@[layer as int]@,
                texts(lines@) == head + before + hit_lines(layer as int, row@.take(i as int)),
        {
            let hit = &row[i];
            let ghost so_far = row@.take(i + 1);
            assert(so_far.drop_last() =~= row@.take(i as int));
            if nan_bits(hit.score) || key_of(hit.score) >= key_of(LOWEST_SHOWN_SCORE) {
                let ghost old_lines = texts(lines@);
                lines.push(hit_text(layer, hit));
                assert(texts(lines@) =~= old_lines.push(hit_line(layer as int, *hit)));
                assert(texts(lines@) =~= head + before + hit_lines(layer as int, so_far));
            }
        }
        proof {
            assert(row@.take(row@.len() as int) =~= row@);
            assert(head + before + hit_lines(layer as int, row@) =~= head + (before + hit_lines(
                layer as int,
                row@,
            )));
        }
    }
    assert(texts(lines@).len() == lines@.len());
    if lines.len() == 1 {
        lines.push("  (no matching features)".to_owned());
        assert(texts(lines@) =~= entity_lines(entity@, hits@));
    }
    Ok(lines)
}

/// The statement of a request, without the white space at its ends.
pub fn check_statement(req: &LqlRequest) -> (r: Result<String, ServerError>)
    ensures
        match r {
            Ok(s) => trimmed(req.statement@).len() > 0 && s@ == trimmed(req.statement@),
            Err(e) => trimmed(req.statement@).len() == 0 && e@ == Refusal::BadRequest(
                "empty statement"@,
            ),
        },
{
    let text = trim(req.statement.as_str());
    if text.as_str().unicode_len() == 0 {
        return Err(ServerError::BadRequest("empty statement".to_owned()));
    }
    Ok(text)
}

/// What is said where a model has to be named.
pub open spec fn name_a_model(ids: Seq<Seq<char>>) -> Seq<char> {
    "server has "@ + decimal(ids.len())
        + " models registered; pass `?model=<id>` on /v1/lql. Available: "@ + joined(ids, ", "@)
}

/// The refusal of a query whose model was not found with `error`: one that
/// names no model is told the names there are.
pub fn model_error(query: &LqlQuery, error: ServerError, ids: &Vec<String>) -> (r: ServerError)
    ensures
        r@ == if query.model is None && error@ is BadRequest {
            Refusal::BadRequest(name_a_model(texts(ids@)))
        } else {
            error@
        },
{
    match (&query.model, error) {
        (None, ServerError::BadRequest(_)) => {
            let number = decimal_string(ids.len() as u64);
            let head = concat3(
                "server has ",
                number.as_str(),
                " models registered; pass `?model=<id>` on /v1/lql. Available: ",
            );
            let list = join(ids, ", ");
            ServerError::BadRequest(concat(head.as_str(), list.as_str()))
        },
        (_, other) => other,
    }
}

/// The response that carries an answer or an error.
pub fn lql_response(result: Result<Vec<String>, String>) -> (r: LqlResponse)
    ensures
        match result {
            Ok(lines) => r.output == lines && r.error is None,
            Err(e) => r.output@.len() == 0 && r.error == Some(e),
        },
{
    match result {
        Ok(output) => LqlResponse { output, error: None },
        Err(e) => LqlResponse { output: Vec::new(), error: Some(e) },
    }
}

} // verus!
