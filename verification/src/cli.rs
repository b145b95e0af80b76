//! The command-line argument model and the decisions it drives: which
//! fields of the configuration each argument overrides, and how a
//! release version is bumped.

use vstd::prelude::*;

use crate::clog::Clog;
use crate::clog::LinkStyle as ClogLinkStyle;
use crate::fmt::ChangelogFormat;
use crate::parser::is_ws_char;
use crate::parser::run_len;
use crate::parser::ws_char;

verus! {

/// The output format chosen on the command line.
#[derive(Debug, Clone, Copy, PartialEq, Eq, Structural)]
pub enum OutFormat {
    /// Markdown output, the default.
    Markdown,
    /// JSON output.
    Json,
}

impl From<OutFormat> for ChangelogFormat {
    /// The changelog format matching the chosen output format.
    fn from(of: OutFormat) -> (r: ChangelogFormat) {
        match of {
            OutFormat::Markdown => ChangelogFormat::Markdown,
            OutFormat::Json => ChangelogFormat::Json,
        }
    }
}

impl vstd::std_specs::convert::FromSpecImpl<OutFormat> for ChangelogFormat {
    open spec fn obeys_from_spec() -> bool {
        true
    }

    open spec fn from_spec(of: OutFormat) -> Self {
        match of {
            OutFormat::Markdown => ChangelogFormat::Markdown,
            OutFormat::Json => ChangelogFormat::Json,
        }
    }
}

/// The link style chosen on the command line.
#[derive(Debug, Clone, Copy, PartialEq, Eq, Structural)]
pub enum LinkStyle {
    /// GitHub-style links, the default.
    Github,
    /// GitLab-style links.
    Gitlab,
    /// Stash-style links.
    Stash,
    /// cgit-style links.
    Cgit,
}

/// The library's link style matching the chosen one.
pub open spec fn spec_link_style(ls: LinkStyle) -> ClogLinkStyle {
    match ls {
        LinkStyle::Github => ClogLinkStyle::Github,
        LinkStyle::Gitlab => ClogLinkStyle::Gitlab,
        LinkStyle::Stash => ClogLinkStyle::Stash,
        LinkStyle::Cgit => ClogLinkStyle::Cgit,
    }
}

impl From<LinkStyle> for ClogLinkStyle {
    /// The library's link style matching the chosen one.
    fn from(ls: LinkStyle) -> (r: ClogLinkStyle) {
        match ls {
            LinkStyle::Github => ClogLinkStyle::Github,
            LinkStyle::Gitlab => ClogLinkStyle::Gitlab,
            LinkStyle::Stash => ClogLinkStyle::Stash,
            LinkStyle::Cgit => ClogLinkStyle::Cgit,
        }
    }
}

impl vstd::std_specs::convert::FromSpecImpl<LinkStyle> for ClogLinkStyle {
    open spec fn obeys_from_spec() -> bool {
        true
    }

    open spec fn from_spec(ls: LinkStyle) -> Self {
        spec_link_style(ls)
    }
}

/// A conventional changelog for the rest of us: the command-line
/// options, already decoded into plain values.
pub struct Args {
    /// Repository used for generating commit and issue links.
    pub repository: Option<String>,
    /// The commit to start from.
    pub from: Option<String>,
    /// The output format.
    pub format: OutFormat,
    /// Increment the major version by one, zeroing minor and patch.
    pub major: bool,
    /// The local repository meta-data directory.
    pub git_dir: Option<String>,
    /// The local working tree of the project.
    pub work_tree: Option<String>,
    /// Increment the minor version by one, zeroing patch.
    pub minor: bool,
    /// Increment the patch version by one.
    pub patch: bool,
    /// The release subtitle.
    pub subtitle: Option<String>,
    /// The commit to stop at.
    pub to: String,
    /// Where to write the changelog.
    pub outfile: Option<String>,
    /// The configuration file to use.
    pub config: String,
    /// A changelog to append to, but not write to.
    pub infile: Option<String>,
    /// The version to set outright.
    pub setversion: Option<String>,
    /// Use the latest tag as the starting point instead of a commit.
    pub from_latest_tag: bool,
    /// The style of repository link to generate.
    pub link_style: LinkStyle,
    /// A previous changelog to prepend new changes to.
    pub changelog: Option<String>,
}

impl Args {
    /// Applies the overriding arguments onto a configuration: the range,
    /// the repository, the subtitle, the output or combined changelog
    /// file, and the link style.  Version computation and tag lookups
    /// are the caller's business.
    pub fn apply_to(&self, clog: &mut Clog)
        ensures
            final(clog).from == match self.from {
                Some(f) => f,
                None => old(clog).from,
            },
            final(clog).repo == match self.repository {
                Some(r) => r,
                None => old(clog).repo,
            },
            final(clog).subtitle == match self.subtitle {
                Some(s) => s,
                None => old(clog).subtitle,
            },
            final(clog).changelog == match (self.changelog, self.outfile) {
                (Some(f), _) => Some(f),
                (None, Some(f)) => Some(f),
                (None, None) => old(clog).changelog,
            },
            final(clog).link_style == spec_link_style(self.link_style),
            final(clog).to == self.to,
            final(clog).grep == old(clog).grep,
            final(clog).format == old(clog).format,
            final(clog).version == old(clog).version,
            final(clog).patch_ver == old(clog).patch_ver,
            final(clog).section_map == old(clog).section_map,
            final(clog).git_dir == old(clog).git_dir,
            final(clog).git_work_tree == old(clog).git_work_tree,
    {
        if let Some(f) = &self.from {
            clog.from = f.clone();
        }
        if let Some(r) = &self.repository {
            clog.repo = r.clone();
        }
        if let Some(s) = &self.subtitle {
            clog.subtitle = s.clone();
        }
        if let Some(f) = &self.outfile {
            clog.changelog = Some(f.clone());
        }
        if let Some(f) = &self.changelog {
            clog.changelog = Some(f.clone());
        }
        clog.link_style = ClogLinkStyle::from(self.link_style);
        clog.to = self.to.clone();
    }
}

/// The bumped version numbers: a major bump zeroes minor and patch, a
/// minor bump zeroes patch, a patch bump touches patch alone; the
/// highest requested part wins.
pub fn bump_version_numbers(
    major: bool,
    minor: bool,
    patch: bool,
    x: u64,
    y: u64,
    z: u64,
) -> (r: (u64, u64, u64))
    requires
        major || minor || patch,
        x < u64::MAX,
        y < u64::MAX,
        z < u64::MAX,
    ensures
        major ==> r.0 == x + 1 && r.1 == 0 && r.2 == 0,
        !major && minor ==> r.0 == x && r.1 == y + 1 && r.2 == 0,
        !major && !minor && patch ==> r.0 == x && r.1 == y && r.2 == z + 1,
{
    if major {
        (x + 1, 0, 0)
    } else if minor {
        (x, y + 1, 0)
    } else {
        (x, y, z + 1)
    }
}

/// Characters stripped from the front of a tag before version parsing.
pub open spec fn is_v_char(c: char) -> bool {
    c == 'v' || c == 'V'
}

/// The leading `v`-marker characters of a version tag.
pub open spec fn v_char() -> spec_fn(char) -> bool {
    |c: char| is_v_char(c)
}

/// Strips every leading `v` or `V` from a version tag, reporting whether
/// any was there.
pub fn strip_v_prefix(v: &str) -> (r: (bool, String))
    ensures
        r.0 == (v@.len() > 0 && is_v_char(v@[0])),
        r.1@ == v@.skip(run_len(v@, 0, v_char()) as int),
{
    let len = v.unicode_len();
    let mut i: usize = 0;
    while i < len
        invariant
            i <= len,
            len == v@.len(),
            forall|j: int| 0 <= j < i ==> is_v_char(#[trigger] v@[j]),
        decreases len - i,
    {
        let c = v.get_char(i);
        if !(c == 'v' || c == 'V') {
            proof {
                crate::parser::lemma_run_len(v@, 0, v_char(), i as int);
            }
            let rest = v.substring_char(i, len).to_owned();
            proof {
                assert(rest@ =~= v@.skip(i as int));
            }
            return (i > 0, rest);
        }
        i = i + 1;
    }
    proof {
        crate::parser::lemma_run_len(v@, 0, v_char(), len as int);
        assert(v@.skip(len as int) =~= Seq::<char>::empty());
    }
    (len > 0, String::new())
}

} // verus!
