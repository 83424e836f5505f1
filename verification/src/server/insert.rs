//! Inserting a fact: the statement that is executed, the steps of executing
//! it, and the answer.
//!
//! A number with a fraction is held by its bit pattern.
use vstd::prelude::*;

use crate::server::error::{Refusal, ServerError};
use crate::text::{
    ascii_lowercase, concat, concat3, equal_ignoring_case, opt_text, texts, to_chars, trim,
    trimmed,
};

verus! {

/// A fact to insert.
pub struct InsertRequest {
    pub entity: String,
    pub relation: String,
    pub target: String,
    /// The layer to insert at; the default layers if there is none.
    pub layer: Option<u32>,
    pub alpha: Option<u32>,
    pub confidence: Option<u32>,
    pub mode: Option<String>,
}

/// How a fact is inserted.
#[derive(Debug, Clone, Copy, PartialEq, Eq, Structural)]
pub enum InsertMode {
    /// With all the checks against facts that were inserted before.
    Compose,
    /// For retrieval only.
    Knn,
}

/// The statement that inserts a fact.
pub struct InsertStatement {
    pub entity: String,
    pub relation: String,
    pub target: String,
    pub layer: Option<u32>,
    pub confidence: Option<u32>,
    pub alpha: Option<u32>,
    pub mode: InsertMode,
}

/// The answer to an insertion.
pub struct InsertResponse {
    pub entity: String,
    pub relation: String,
    pub target: String,
    pub inserted: usize,
    pub mode: String,
    pub alpha: Option<u32>,
    pub confidence: Option<u32>,
    pub session: Option<String>,
    pub messages: Vec<String>,
}

/// The mode that a text names: anything but `knn` is `compose`.
pub open spec fn mode_of(mode: Option<Seq<char>>) -> InsertMode {
    match mode {
        Some(m) => if ascii_lowercase(trimmed(m)) == "knn"@ {
            InsertMode::Knn
        } else {
            InsertMode::Compose
        },
        None => InsertMode::Compose,
    }
}

/// The mode that a request names.
pub fn parse_mode(mode: Option<&str>) -> (r: InsertMode)
    ensures
        r == mode_of(
            match mode {
                Some(m) => Some(m@),
                None => None,
            },
        ),
{
    match mode {
        Some(m) => {
            let text = trim(m);
            if equal_ignoring_case(&to_chars(text.as_str()), &to_chars("knn")) {
                InsertMode::Knn
            } else {
                InsertMode::Compose
            }
        },
        None => InsertMode::Compose,
    }
}

/// The name of a mode.
pub open spec fn mode_name(mode: InsertMode) -> Seq<char> {
    match mode {
        InsertMode::Compose => "compose"@,
        InsertMode::Knn => "knn"@,
    }
}

/// The name of a mode.
pub fn mode_str(mode: InsertMode) -> (r: &'static str)
    ensures
        r@ == mode_name(mode),
{
    match mode {
        InsertMode::Compose => "compose",
        InsertMode::Knn => "knn",
    }
}

/// The name of a mode names it.
pub proof fn mode_name_read_back(mode: InsertMode)
    ensures
        mode_of(Some(mode_name(mode))) == mode,
{
    reveal_strlit("knn");
    reveal_strlit("compose");
    let name = mode_name(mode);
    assert(!crate::text::white_space(name[0]));
    assert(!crate::text::white_space(name.last()));
    assert(trimmed(name) =~= name);
    assert(ascii_lowercase(name) =~= name);
}

/// The key of a caller's query session: callers without one share a session.
pub open spec fn session_key(session_id: Option<Seq<char>>) -> Seq<char> {
    match session_id {
        Some(s) => s,
        None => "__global__"@,
    }
}

/// The key of a caller's query session.
pub fn lql_key(session_id: Option<&str>) -> (r: String)
    ensures
        r@ == session_key(
            match session_id {
                Some(s) => Some(s@),
                None => None,
            },
        ),
{
    match session_id {
        Some(s) => s.to_owned(),
        None => "__global__".to_owned(),
    }
}

/// The statement that a request asks for.
pub fn insert_statement(req: &InsertRequest) -> (r: InsertStatement)
    ensures
        r.entity@ == req.entity@,
        r.relation@ == req.relation@,
        r.target@ == req.target@,
        r.layer == req.layer,
        r.confidence == req.confidence,
        r.alpha == req.alpha,
        r.mode == mode_of(opt_text(req.mode)),
{
    let mode = match &req.mode {
        Some(m) => parse_mode(Some(m.as_str())),
        None => parse_mode(None),
    };
    InsertStatement {
        entity: req.entity.clone(),
        relation: req.relation.clone(),
        target: req.target.clone(),
        layer: req.layer,
        confidence: req.confidence,
        alpha: req.alpha,
        mode,
    }
}

/// What is to be done next with a query session.
#[derive(Debug, Clone, Copy, PartialEq, Eq, Structural)]
pub enum InsertStep {
    /// Swap the index in.
    SwapIn,
    /// Execute the statement.
    Execute,
    /// Swap the index out again.
    SwapOut,
    /// Nothing more.
    Finished,
}

/// Executing a statement in a query session that works on the index for the
/// time being.
pub struct InsertRun {
    pub step: InsertStep,
    /// The session's recorded operations before.
    pub prev_ops: usize,
    /// What executing gave.
    pub executed: Result<Vec<String>, String>,
    /// How the whole ended, once it has.
    pub outcome: Option<Result<(Vec<String>, usize), ServerError>>,
}

/// What is said when the index cannot be swapped in.
pub open spec fn swap_in_failed(e: Seq<char>) -> Seq<char> {
    "LQL backend swap-in failed: "@ + e
}

/// What is said when executing fails.
pub open spec fn execute_failed(e: Seq<char>) -> Seq<char> {
    "LQL INSERT failed: "@ + e
}

/// What is said when the index cannot be swapped out.
pub open spec fn swap_out_failed(e: Seq<char>) -> Seq<char> {
    "LQL backend swap-out failed: "@ + e
}

/// The outcome, given what executing and swapping out gave and the session's
/// operations before and after: the messages and the number of operations
/// that were added.  An error of the execution comes first.
pub open spec fn outcome_is(
    outcome: Option<Result<(Vec<String>, usize), ServerError>>,
    executed: Result<Vec<String>, String>,
    swapped: Result<(), String>,
    prev_ops: usize,
    ops: usize,
) -> bool {
    match (executed, swapped) {
        (Err(e), _) => outcome matches Some(Err(r)) && r@ == Refusal::Internal(
            execute_failed(e@),
        ),
        (Ok(_), Err(e)) => outcome matches Some(Err(r)) && r@ == Refusal::Internal(
            swap_out_failed(e@),
        ),
        (Ok(messages), Ok(_)) => outcome == Some(
            Ok::<(Vec<String>, usize), ServerError>(
                (
                    messages,
                    if ops >= prev_ops {
                        (ops - prev_ops) as usize
                    } else {
                        0
                    },
                ),
            ),
        ),
    }
}

impl InsertRun {
    /// Starts with a session that has recorded `prev_ops` operations.
    pub fn new(prev_ops: usize) -> (r: InsertRun)
        ensures
            r.step == InsertStep::SwapIn,
            r.prev_ops == prev_ops,
            r.outcome is None,
    {
        InsertRun {
            step: InsertStep::SwapIn,
            prev_ops,
            executed: Ok(Vec::new()),
            outcome: None,
        }
    }

    /// The index was swapped in, or could not be.
    pub fn swapped_in(&mut self, result: Result<(), String>)
        requires
            old(self).step == InsertStep::SwapIn,
        ensures
            final(self).prev_ops == old(self).prev_ops,
            match result {
                Ok(_) => {
                    &&& final(self).step == InsertStep::Execute
                    &&& final(self).outcome == old(self).outcome
                },
                Err(e) => {
                    &&& final(self).step == InsertStep::Finished
                    &&& final(self).outcome matches Some(Err(r))
                    &&& r@ == Refusal::Internal(swap_in_failed(e@))
                },
            },
    {
        match result {
            Ok(_) => {
                self.step = InsertStep::Execute;
            },
            Err(e) => {
                let text = concat("LQL backend swap-in failed: ", e.as_str());
                self.outcome = Some(Err(ServerError::Internal(text)));
                self.step = InsertStep::Finished;
            },
        }
    }

    /// The statement was executed.  Whatever came of it, the index is swapped
    /// out next.
    pub fn statement_executed(&mut self, result: Result<Vec<String>, String>)
        requires
            old(self).step == InsertStep::Execute,
        ensures
            final(self).step == InsertStep::SwapOut,
            final(self).executed == result,
            final(self).prev_ops == old(self).prev_ops,
            final(self).outcome == old(self).outcome,
    {
        self.executed = result;
        self.step = InsertStep::SwapOut;
    }

    /// The index was swapped out, or could not be; the session now has
    /// recorded `ops` operations.
    pub fn swapped_out(&mut self, result: Result<(), String>, ops: usize)
        requires
            old(self).step == InsertStep::SwapOut,
        ensures
            final(self).step == InsertStep::Finished,
            outcome_is(final(self).outcome, old(self).executed, result, old(self).prev_ops, ops),
    {
        let mut executed: Result<Vec<String>, String> = Ok(Vec::new());
        std::mem::swap(&mut executed, &mut self.executed);
        self.step = InsertStep::Finished;
        let outcome = match executed {
            Err(e) => Err(ServerError::Internal(concat("LQL INSERT failed: ", e.as_str()))),
            Ok(messages) => match result {
                Err(e) => Err(
                    ServerError::Internal(concat("LQL backend swap-out failed: ", e.as_str())),
                ),
                Ok(_) => {
                    let added: usize = if ops >= self.prev_ops {
                        ops - self.prev_ops
                    } else {
                        0
                    };
                    Ok((messages, added))
                },
            },
        };
        self.outcome = Some(outcome);
    }
}

/// The answer to a request, given the outcome of executing its statement.
pub fn insert_response(
    req: &InsertRequest,
    session: Option<&str>,
    outcome: Result<(Vec<String>, usize), ServerError>,
) -> (r: Result<InsertResponse, ServerError>)
    ensures
        match outcome {
            Err(e) => r matches Err(f) && f@ == e@,
            Ok((messages, inserted)) => {
                &&& r matches Ok(a)
                &&& a.entity@ == req.entity@
                &&& a.relation@ == req.relation@
                &&& a.target@ == req.target@
                &&& a.inserted == inserted
                &&& a.mode@ == mode_name(mode_of(opt_text(req.mode)))
                &&& a.alpha == req.alpha
                &&& a.confidence == req.confidence
                &&& opt_text(a.session) == match session {
                    Some(s) => Some(s@),
                    None => None,
                }
                &&& texts(a.messages@) == texts(messages@)
            },
        },
{
    match outcome {
        Err(e) => Err(e),
        Ok((messages, inserted)) => {
            let mode = match &req.mode {
                Some(m) => parse_mode(Some(m.as_str())),
                None => parse_mode(None),
            };
            let session = match session {
                Some(s) => Some(s.to_owned()),
                None => None,
            };
            Ok(
                InsertResponse {
                    entity: req.entity.clone(),
                    relation: req.relation.clone(),
                    target: req.target.clone(),
                    inserted,
                    mode: mode_str(mode).to_owned(),
                    alpha: req.alpha,
                    confidence: req.confidence,
                    session,
                    messages,
                },
            )
        },
    }
}

/// The refusal of an insertion for want of a query session.
pub fn no_session(e: &str) -> (r: ServerError)
    ensures
        r@ == Refusal::Internal("LQL session setup failed: "@ + e@),
{
    ServerError::Internal(concat("LQL session setup failed: ", e))
}

/// The refusal of an insertion for want of a model: the one that was named,
/// or any.
pub fn no_model(model_id: Option<&str>) -> (r: ServerError)
    ensures
        r@ == Refusal::NotFound(
            match model_id {
                Some(id) => "model '"@ + id@ + "' not found"@,
                None => "no model loaded"@,
            },
        ),
{
    match model_id {
        Some(id) => ServerError::NotFound(concat3("model '", id, "' not found")),
        None => ServerError::NotFound("no model loaded".to_owned()),
    }
}

} // verus!
