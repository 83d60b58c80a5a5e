//! The fixed set of outcome codes shared by every component and surfaced as
//! the process exit status.

use vstd::prelude::*;

verus! {

/// Outcome of the whole tool, one variant per process exit status.
#[derive(Clone, Copy, Debug, PartialEq, Eq, Structural)]
pub enum Codes {
    /// A configuration or invariant violation; not fixable by the user.
    InternalError,
    /// Everything went well.
    Success,
    /// Malformed command-line input.
    ArgumentError,
    /// Unknown or unaliased language.
    LanguageError,
    /// The named runner is absent or incompatible with the language.
    RunnerError,
    /// No candidate executable was found for a required tool.
    DependencyError,
    /// The editor is missing or failed.
    EditorError,
    /// A filesystem operation failed.
    FileError,
    /// A pipeline subprocess returned non-zero or was killed by a signal.
    CodeError,
}

impl Codes {
    /// The stable process exit-code contract.
    pub fn to_exit(self) -> (r: i32)
        ensures
            r == (match self {
                Codes::InternalError => -1,
                Codes::Success => 0,
                Codes::ArgumentError => 1,
                Codes::LanguageError => 2,
                Codes::RunnerError => 3,
                Codes::DependencyError => 4,
                Codes::EditorError => 5,
                Codes::FileError => 6,
                Codes::CodeError => 7,
            }),
    {
        match self {
            Codes::InternalError => -1,
            Codes::Success => 0,
            Codes::ArgumentError => 1,
            Codes::LanguageError => 2,
            Codes::RunnerError => 3,
            Codes::DependencyError => 4,
            Codes::EditorError => 5,
            Codes::FileError => 6,
            Codes::CodeError => 7,
        }
    }
}

} // verus!
