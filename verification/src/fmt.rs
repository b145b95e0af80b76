//! The rendering back-ends: writers that turn the grouped changelog data
//! into Markdown or JSON text, building the output in a string buffer
//! that the caller then writes wherever it likes.

use vstd::prelude::*;

pub mod json_writer;
pub mod md_writer;

pub use json_writer::JsonWriter;
pub use md_writer::MarkdownWriter;

use crate::git::Commit;
use crate::sectionmap::ComponentMap;

verus! {

/// The output format of a changelog run.
#[derive(Debug, Clone, Copy, PartialEq, Eq, Structural)]
pub enum ChangelogFormat {
    /// JSON output.
    Json,
    /// Markdown output.
    Markdown,
}

/// Every commit in these component buckets carries at least the eight
/// hash characters the renderers slice off for the short form.
pub open spec fn entries_hashes_ok(entries: Seq<(String, Vec<Commit>)>) -> bool {
    forall|k: int, x: int|
        0 <= k < entries.len() && 0 <= x < entries[k].1@.len() ==> (#[trigger] entries[k].1@[x]).hash@.len() >= 8
}

/// Every commit in these sections carries at least the eight hash
/// characters the renderers slice off for the short form.
pub open spec fn sections_hashes_ok(ss: Seq<(String, ComponentMap)>) -> bool {
    forall|j: int| 0 <= j < ss.len() ==> entries_hashes_ok((#[trigger] ss[j]).1.entries@)
}

} // verus!
