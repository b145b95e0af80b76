//! A conventional-changelog library: it parses raw commit blocks
//! (`hash`, `type(component): subject` header, trailer lines such as
//! `Closes #12, #34`), resolves the type token to a section name through a
//! registry of aliases, filters out unrecognized commits, and groups the
//! rest into a two-level map (section -> component -> commits in input
//! order) ready for rendering as a changelog entry.

pub mod cli;
pub mod clog;
pub mod clogconfig;
pub mod common;
pub mod error;
pub mod fmt;
pub mod git;
pub mod logentry;
pub mod parser;
pub mod registry;
pub mod section_builder;
pub mod sectionmap;
pub mod text;
pub mod writer;

pub use crate::clog::Clog;
pub use crate::clog::LinkStyle;
pub use crate::sectionmap::SectionMap;
