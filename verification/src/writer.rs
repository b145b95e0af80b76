//! A pluggable shape of the rendering back-end: a writer trait driven by
//! the changelog pipeline, and its Markdown implementation, which holds
//! the configuration it renders with.

use vstd::prelude::*;

pub mod markdown;

pub use markdown::Markdown;

use crate::fmt::entries_hashes_ok;
use crate::sectionmap::ComponentMap;

verus! {

/// Specifies an arbitrary format to write the changelog data: the
/// pipeline writes the release header, then each section with its
/// grouped commits, then any previous changelog contents.
pub trait Writer {
    /// Writes the initial header information for a release, dated with
    /// the given day.
    fn write_header(&mut self, date: &str);

    /// Writes a particular section of a changelog; every commit must
    /// carry at least the eight hash characters of its short form.
    fn write_section(&mut self, title: &str, section: &ComponentMap)
        requires
            entries_hashes_ok(section.entries@),
    ;

    /// Writes some contents to the output.
    fn write(&mut self, content: &str);
}

} // verus!
