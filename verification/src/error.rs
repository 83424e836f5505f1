//! What can go wrong while a model is read.
use vstd::prelude::*;

verus! {

/// A failure to read a model.
#[derive(Debug)]
pub enum ModelError {
    /// The input ended before a value was complete.
    Io,
    /// The input is not what its format allows.
    Parse(String),
    /// A tensor that the model needs is not there.
    MissingTensor(String),
}

/// What a [`ModelError`] says, as plain values.
pub enum Fault {
    Io,
    Parse(Seq<char>),
    MissingTensor(Seq<char>),
}

impl View for ModelError {
    type V = Fault;

    open spec fn view(&self) -> Fault {
        match self {
            ModelError::Io => Fault::Io,
            ModelError::Parse(text) => Fault::Parse(text@),
            ModelError::MissingTensor(key) => Fault::MissingTensor(key@),
        }
    }
}

} // verus!
