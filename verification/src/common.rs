//! A simpler shape of the changelog data: entries tagged with a closed
//! set of commit types, and a section map with one fixed bucket map per
//! type.

use vstd::prelude::*;

use crate::text::str_eq;

verus! {

/// The commit type of a log entry; unrecognized aliases fall back to
/// `Unknown`.
#[derive(Debug, Clone, Copy, PartialEq, Eq, Structural)]
pub enum CommitType {
    /// A new feature, aliased `feat` and `ft`.
    Feature,
    /// A bug fix, aliased `fix` and `fx`.
    Fix,
    /// Anything else.
    Unknown,
}

/// The commit type an alias token maps to.
pub open spec fn spec_commit_type_of(alias: Seq<char>) -> CommitType {
    if alias == "feat"@ || alias == "ft"@ {
        CommitType::Feature
    } else if alias == "fix"@ || alias == "fx"@ {
        CommitType::Fix
    } else {
        CommitType::Unknown
    }
}

impl CommitType {
    /// Maps an alias token to its commit type.
    pub fn from_alias(alias: &str) -> (r: CommitType)
        ensures
            r == spec_commit_type_of(alias@),
    {
        if str_eq(alias, "feat") || str_eq(alias, "ft") {
            CommitType::Feature
        } else if str_eq(alias, "fix") || str_eq(alias, "fx") {
            CommitType::Fix
        } else {
            CommitType::Unknown
        }
    }
}

/// One parsed commit, tagged with its commit type.
pub struct LogEntry {
    /// The commit hash.
    pub hash: String,
    /// The commit subject.
    pub subject: String,
    /// The component, empty when none was given.
    pub component: String,
    /// The issues this commit closes.
    pub closes: Vec<String>,
    /// The issues this commit breaks.
    pub breaks: Vec<String>,
    /// The commit type.
    pub commit_type: CommitType,
}

/// The fixed sections of this shape of the changelog, each mapping a
/// component name to its entries in input order.
pub struct SectionMap {
    /// Buckets of feature entries by component.
    pub features: Vec<(String, Vec<LogEntry>)>,
    /// Buckets of fix entries by component.
    pub fixes: Vec<(String, Vec<LogEntry>)>,
    /// Buckets of breaking entries by component; never filled by the
    /// section builder.
    pub breaks: Vec<(String, Vec<LogEntry>)>,
}

} // verus!
