//! A minimal commit record that carries the resolved section name as
//! plain text.

use vstd::prelude::*;

verus! {

/// One parsed commit.
pub struct LogEntry {
    /// The commit hash.
    pub hash: String,
    /// The commit subject.
    pub subject: String,
    /// The component, empty when none was given.
    pub component: String,
    /// The issues this commit closes.
    pub closes: Vec<String>,
    /// The issues this commit breaks.
    pub breaks: Vec<String>,
    /// The name of the section the commit's type resolved to.
    pub commit_type: String,
}

} // verus!
