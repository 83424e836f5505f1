//! What an engine says of itself.
use vstd::prelude::*;

verus! {

/// What an engine says of itself.
#[derive(Debug)]
pub struct EngineInfo {
    pub name: String,
    pub description: String,
    pub backend: String,
    pub config: String,
}

/// What an [`EngineInfo`] says, as plain values.
pub struct InfoText {
    pub name: Seq<char>,
    pub description: Seq<char>,
    pub backend: Seq<char>,
    pub config: Seq<char>,
}

impl View for EngineInfo {
    type V = InfoText;

    open spec fn view(&self) -> InfoText {
        InfoText {
            name: self.name@,
            description: self.description@,
            backend: self.backend@,
            config: self.config@,
        }
    }
}

} // verus!
