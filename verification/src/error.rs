//! Error type for the command-line layer around the library.

use vstd::prelude::*;

verus! {

/// An error surfaced to the command-line user.  A semantic-version failure
/// carries the underlying parser's message followed by a hint; the other
/// variants carry a plain description.
pub enum CliError {
    /// A version string could not be parsed; holds the underlying error
    /// text and a user-facing hint.
    Semver(String, String),
    /// Any other error with a description.
    Generic(String),
    /// An unexpected failure with no further detail.
    Unknown,
}

impl CliError {
    /// Return whether this was a fatal error or not.
    pub fn is_fatal(&self) -> (r: bool)
        ensures
            r == true,
    {
        // For now all errors are fatal
        true
    }

    /// The user-facing description of the error, as it should be printed
    /// after an `error:` marker.
    pub fn message(&self) -> (r: &str)
        ensures
            match self {
                CliError::Generic(d) => r@ == d@,
                CliError::Unknown => r@ ==
                    "An unknown fatal error has occurred, please consider filing a bug-report!"@,
                CliError::Semver(_, s) => r@ == s@,
            },
    {
        match self {
            CliError::Generic(d) => d.as_str(),
            CliError::Unknown => {
                "An unknown fatal error has occurred, please consider filing a bug-report!"
            },
            CliError::Semver(_, s) => s.as_str(),
        }
    }
}

} // verus!
