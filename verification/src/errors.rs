//! Error taxonomy of the link engine.

use vstd::prelude::*;

verus! {

/// What can go wrong in a registry or link operation.
///
/// `NotFound` and `AlreadyExists` are local validation failures, surfaced
/// before any external call is made.  `ExternalCommandFailure` records a
/// non-zero exit from the version-control or hosting subsystem.
/// `EnvironmentFailure` means the registry or project root could not be
/// located.  `Parse` means the registry backing text was malformed.
#[derive(Clone, PartialEq, Eq, Structural, Debug)]
pub enum CollabError {
    NotFound,
    AlreadyExists,
    ExternalCommandFailure,
    EnvironmentFailure,
    Parse,
}

impl CollabError {
    /// The process exit status this error maps to: 2 for environment
    /// failures, 1 for everything else.
    pub open spec fn exit_code_spec(&self) -> u8 {
        match self {
            CollabError::NotFound => 1,
            CollabError::AlreadyExists => 1,
            CollabError::ExternalCommandFailure => 1,
            CollabError::EnvironmentFailure => 2,
            CollabError::Parse => 1,
        }
    }

    pub fn exit_code(&self) -> (code: u8)
        ensures
            code == self.exit_code_spec(),
    {
        match self {
            CollabError::NotFound => 1,
            CollabError::AlreadyExists => 1,
            CollabError::ExternalCommandFailure => 1,
            CollabError::EnvironmentFailure => 2,
            CollabError::Parse => 1,
        }
    }
}

} // verus!
