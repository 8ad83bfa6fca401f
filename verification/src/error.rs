//! The ways in which a session can fail. Every one of them ends the session.

use vstd::prelude::*;

verus! {

/// Why a session cannot go on.
#[derive(Clone, Copy, Debug, PartialEq, Eq, Structural)]
pub enum Error {
    /// The model file is missing or cannot be read as a network.
    ModelLoad,
    /// The network answered with something other than one tensor of
    /// eighty-one single-precision scores.
    InferenceContract,
    /// The typed line is neither the quit token nor the notation of a legal
    /// move.
    InvalidMoveInput,
    /// No legal move has a score that is a number, so none can be preferred.
    NoCandidateMove,
}

/// The text shown for `error`.
pub open spec fn message_of(error: Error) -> Seq<char> {
    match error {
        Error::ModelLoad => "Could not load the model"@,
        Error::InferenceContract => "Expected a single output tensor of 81 single-precision scores"@,
        Error::InvalidMoveInput => "Invalid move"@,
        Error::NoCandidateMove => "No legal move has a usable score"@,
    }
}

impl Error {
    /// The diagnostic shown before the session ends.
    pub fn message(&self) -> (text: &'static str)
        ensures
            text@ == message_of(*self),
    {
        match self {
            Error::ModelLoad => "Could not load the model",
            Error::InferenceContract => "Expected a single output tensor of 81 single-precision scores",
            Error::InvalidMoveInput => "Invalid move",
            Error::NoCandidateMove => "No legal move has a usable score",
        }
    }
}

} // verus!
