//! The query sessions of the server's callers.
use vstd::prelude::*;

use crate::table::TextMap;
use crate::text::concat;

verus! {

/// One query session of type `S` for each session key.
pub struct LqlSessionManager<S> {
    pub sessions: TextMap<S>,
}

impl<S> View for LqlSessionManager<S> {
    type V = Map<Seq<char>, S>;

    open spec fn view(&self) -> Map<Seq<char>, S> {
        self.sessions@
    }
}

/// The statement that a new session starts with.
#[derive(Debug)]
pub enum FirstStatement {
    /// Use the index at this path.
    UseVindex(String),
}

/// The statement that a new session starts with: it uses the caller's index.
pub fn first_statement(vindex_path: &str) -> (r: FirstStatement)
    ensures
        match r {
            FirstStatement::UseVindex(path) => path@ == vindex_path@,
        },
{
    FirstStatement::UseVindex(vindex_path.to_owned())
}

/// The sessions after one was asked for: if there is none under `key`, the
/// one that was made is put there.
pub open spec fn with_session<S>(
    m: Map<Seq<char>, S>,
    key: Seq<char>,
    made: Result<S, Seq<char>>,
) -> Map<Seq<char>, S> {
    if m.dom().contains(key) {
        m
    } else {
        match made {
            Ok(s) => m.insert(key, s),
            Err(_) => m,
        }
    }
}

/// What making a session gave, as plain values.
pub open spec fn made_view<S>(made: Result<S, String>) -> Result<S, Seq<char>> {
    match made {
        Ok(s) => Ok(s),
        Err(e) => Err(e@),
    }
}

/// A caller has the same session on every request, whatever other callers
/// ask for in between.
pub proof fn session_kept<S>(
    m: Map<Seq<char>, S>,
    key: Seq<char>,
    other: Seq<char>,
    made: Result<S, Seq<char>>,
)
    requires
        m.dom().contains(key),
    ensures
        with_session(m, other, made).dom().contains(key),
        with_session(m, other, made)[key] == m[key],
{
}

impl<S> LqlSessionManager<S> {
    /// No key is in the table twice.
    pub open spec fn wf(&self) -> bool {
        self.sessions.wf()
    }

    /// No sessions.
    pub fn new() -> (r: LqlSessionManager<S>)
        ensures
            r.wf(),
            r@ == Map::<Seq<char>, S>::empty(),
    {
        LqlSessionManager { sessions: TextMap::new() }
    }

    /// The session under `key`, if there is one.
    pub fn get(&self, key: &str) -> (r: Option<&S>)
        requires
            self.wf(),
        ensures
            match r {
                Some(s) => self@.dom().contains(key@) && *s == self@[key@],
                None => !self@.dom().contains(key@),
            },
    {
        self.sessions.get(key)
    }

    /// The session under `key`.  If there is none, it is the one that was
    /// made; if none could be made, the error says why.
    pub fn get_or_create(&mut self, key: &str, made: Result<S, String>) -> (r: Result<&S, String>)
        requires
            old(self).wf(),
        ensures
            final(self).wf(),
            final(self)@ == with_session(old(self)@, key@, made_view(made)),
            match r {
                Ok(s) => final(self)@.dom().contains(key@) && *s == final(self)@[key@],
                Err(e) => !old(self)@.dom().contains(key@) && (made matches Err(text) && e@
                    == "LQL USE failed: "@ + text@),
            },
    {
        if !self.sessions.contains_key(key) {
            match made {
                Ok(session) => {
                    self.sessions.insert(key.to_owned(), session);
                },
                Err(text) => {
                    return Err(concat("LQL USE failed: ", text.as_str()));
                },
            }
        }
        match self.sessions.position(key) {
            Some(i) => Ok(&self.sessions.entries[i].value),
            None => Err(String::new()),
        }
    }

    /// Drops the session under `key`; whether there was one.
    pub fn remove(&mut self, key: &str) -> (r: bool)
        requires
            old(self).wf(),
        ensures
            final(self).wf(),
            final(self)@ == old(self)@.remove(key@),
            r == old(self)@.dom().contains(key@),
    {
        self.sessions.remove(key).is_some()
    }
}

impl<S> Default for LqlSessionManager<S> {
    fn default() -> (r: LqlSessionManager<S>)
        ensures
            r.wf(),
            r@ == Map::<Seq<char>, S>::empty(),
    {
        LqlSessionManager::new()
    }
}

} // verus!
