//! The central configuration value and the commit pipeline around it:
//! link formatting, the section registry, and parsing raw commit blocks
//! into grouped changelog data.

use vstd::prelude::*;

use crate::git::Commit;
use crate::git::Commits;
use crate::parser::commit_matches;
use crate::parser::commits_match;
use crate::parser::log_to_commits;
use crate::parser::parse_commit;
use crate::parser::spec_log_commits;
use crate::parser::spec_parse_commit;
use crate::registry::is_default_registry;
use crate::registry::spec_register;
use crate::registry::spec_resolve;
use crate::registry::Category;
use crate::registry::CategoryRegistry;

verus! {

/// Determines the link style used in commit and issue links.
#[derive(Debug, Clone, Copy, PartialEq, Eq, Structural)]
pub enum LinkStyle {
    /// GitHub-style `/issues/` and `/commit/` links.
    Github,
    /// GitLab-style links, identical in shape to GitHub's.
    Gitlab,
    /// Stash-style `/commits/` links; Stash has no issue links.
    Stash,
    /// cgit-style `/commit/?id=` links; cgit has no issue links.
    Cgit,
}

/// The text of an issue link: `(#N)` when there is no repository to link
/// into (or the style has no issue tracker), else `[#N](repo/issues/N)`.
pub open spec fn spec_issue_link(style: LinkStyle, issue: Seq<char>, repo: Seq<char>) -> Seq<char> {
    if repo.len() == 0 {
        "(#"@ + issue + ")"@
    } else {
        match style {
            LinkStyle::Github => "[#"@ + issue + "]("@ + repo + "/issues/"@ + issue + ")"@,
            LinkStyle::Gitlab => "[#"@ + issue + "]("@ + repo + "/issues/"@ + issue + ")"@,
            LinkStyle::Stash => "(#"@ + issue + ")"@,
            LinkStyle::Cgit => "(#"@ + issue + ")"@,
        }
    }
}

/// The text of a commit link: the eight-character short hash, plain when
/// there is no repository, else linking to the full hash in the style's
/// commit URL shape.
pub open spec fn spec_commit_link(style: LinkStyle, hash: Seq<char>, repo: Seq<char>) -> Seq<char> {
    let short = hash.take(8);
    if repo.len() == 0 {
        "("@ + short + ")"@
    } else {
        match style {
            LinkStyle::Github => "["@ + short + "]("@ + repo + "/commit/"@ + hash + ")"@,
            LinkStyle::Gitlab => "["@ + short + "]("@ + repo + "/commit/"@ + hash + ")"@,
            LinkStyle::Stash => "["@ + short + "]("@ + repo + "/commits/"@ + hash + ")"@,
            LinkStyle::Cgit => "["@ + short + "]("@ + repo + "/commit/?id="@ + hash + ")"@,
        }
    }
}

impl LinkStyle {
    /// Gets a link to an issue in the specified format.
    pub fn issue_link(&self, issue: &str, repo: &str) -> (r: String)
        ensures
            r@ == spec_issue_link(*self, issue@, repo@),
    {
        let mut s = String::new();
        if repo.unicode_len() == 0 {
            s.append("(#");
            s.append(issue);
            s.append(")");
        } else {
            match *self {
                LinkStyle::Github | LinkStyle::Gitlab => {
                    s.append("[#");
                    s.append(issue);
                    s.append("](");
                    s.append(repo);
                    s.append("/issues/");
                    s.append(issue);
                    s.append(")");
                },
                LinkStyle::Stash | LinkStyle::Cgit => {
                    s.append("(#");
                    s.append(issue);
                    s.append(")");
                },
            }
        }
        proof {
            assert(s@ =~= spec_issue_link(*self, issue@, repo@));
        }
        s
    }

    /// Gets a link to a commit in the specified format; the hash must
    /// carry at least the eight characters of its short form.
    pub fn commit_link(&self, hash: &str, repo: &str) -> (r: String)
        requires
            hash@.len() >= 8,
        ensures
            r@ == spec_commit_link(*self, hash@, repo@),
    {
        let short = hash.substring_char(0, 8);
        proof {
            assert(short@ =~= hash@.take(8));
        }
        let mut s = String::new();
        if repo.unicode_len() == 0 {
            s.append("(");
            s.append(short);
            s.append(")");
        } else {
            s.append("[");
            s.append(short);
            s.append("](");
            s.append(repo);
            match *self {
                LinkStyle::Github | LinkStyle::Gitlab => s.append("/commit/"),
                LinkStyle::Stash => s.append("/commits/"),
                LinkStyle::Cgit => s.append("/commit/?id="),
            }
            s.append(hash);
            s.append(")");
        }
        proof {
            assert(s@ =~= spec_commit_link(*self, hash@, repo@));
        }
        s
    }
}

/// The pattern handed to the log retrieval to preselect commits: each
/// alias list folded into `^alias|` pieces, each category's piece wrapped
/// in `^...|` once more, with `BREAKING'` appended.
pub open spec fn spec_alias_pattern(aliases: Seq<Seq<char>>) -> Seq<char>
    decreases aliases.len(),
{
    if aliases.len() == 0 {
        Seq::empty()
    } else {
        spec_alias_pattern(aliases.drop_last()) + "^"@ + aliases.last() + "|"@
    }
}

/// The category-level fold of the grep pattern.
pub open spec fn spec_grep_pattern(cats: Seq<Category>) -> Seq<char>
    decreases cats.len(),
{
    if cats.len() == 0 {
        Seq::empty()
    } else {
        spec_grep_pattern(cats.drop_last()) + "^"@ + spec_alias_pattern(
            cats.last().aliases.deep_view(),
        ) + "|"@
    }
}

/// Builds the grep pattern for a registry.
pub fn grep_pattern(registry: &CategoryRegistry) -> (r: String)
    ensures
        r@ == spec_grep_pattern(registry.categories@) + "BREAKING'"@,
{
    let mut s = String::new();
    let n = registry.categories.len();
    let mut i: usize = 0;
    proof {
        assert(s@ =~= spec_grep_pattern(registry.categories@.take(0)));
    }
    while i < n
        invariant
            i <= n,
            n == registry.categories@.len(),
            s@ == spec_grep_pattern(registry.categories@.take(i as int)),
        decreases n - i,
    {
        let cat = &registry.categories[i];
        s.append("^");
        let m = cat.aliases.len();
        let mut j: usize = 0;
        let ghost mid = s@;
        while j < m
            invariant
                j <= m,
                m == cat.aliases@.len(),
                s@ == mid + spec_alias_pattern(cat.aliases.deep_view().take(j as int)),
            decreases m - j,
        {
            proof {
                assert(spec_alias_pattern(cat.aliases.deep_view().take(0)) =~= Seq::<char>::empty());
                assert(mid + Seq::<char>::empty() =~= mid);
            }
            s.append("^");
            s.append(cat.aliases[j].as_str());
            s.append("|");
            proof {
                let dv = cat.aliases.deep_view();
                assert(dv.take(j + 1).drop_last() =~= dv.take(j as int));
                assert(dv.take(j + 1).last() == dv[j as int]);
                assert(dv[j as int] == cat.aliases@[j as int]@);
                assert(s@ =~= mid + spec_alias_pattern(dv.take(j + 1)));
            }
            j = j + 1;
        }
        proof {
            let dv = cat.aliases.deep_view();
            assert(dv.take(dv.len() as int) =~= dv);
            assert(spec_alias_pattern(cat.aliases.deep_view().take(0)) =~= Seq::<char>::empty());
            assert(mid + Seq::<char>::empty() =~= mid);
        }
        s.append("|");
        proof {
            let cats = registry.categories@;
            assert(cats.take(i + 1).drop_last() =~= cats.take(i as int));
            assert(cats.take(i + 1).last() == cats[i as int]);
            assert(s@ =~= spec_grep_pattern(cats.take(i + 1)));
        }
        i = i + 1;
    }
    proof {
        assert(registry.categories@.take(n as int) =~= registry.categories@);
    }
    s.append("BREAKING'");
    s
}

/// The base struct used to set options and interact with the library.
pub struct Clog {
    /// The grep search pattern used to preselect commits.
    pub grep: String,
    /// The format of the commit output expected from the log retrieval.
    pub format: String,
    /// The repository used for the base of hyper-links.
    pub repo: String,
    /// The link style to use for commit and issue hyper-links.
    pub link_style: LinkStyle,
    /// The version tag for the release.
    pub version: String,
    /// Whether this is a patch version update, which renders with a
    /// smaller heading.
    pub patch_ver: bool,
    /// The subtitle for the release.
    pub subtitle: String,
    /// Where to start looking for commits, as a hash or short hash.
    pub from: String,
    /// Where to stop looking for commits.
    pub to: String,
    /// The file to use as the changelog.
    pub changelog: Option<String>,
    /// The sections and the aliases that map commits onto them.
    pub section_map: CategoryRegistry,
    /// The directory with the repository meta-data.
    pub git_dir: Option<String>,
    /// The working directory of the project.
    pub git_work_tree: Option<String>,
}

impl Default for Clog {
    /// The default configuration: the default sections, their grep
    /// pattern, the hash/subject/body log format, GitHub links, and a
    /// range ending at `HEAD`.
    fn default() -> (c: Clog)
        ensures
            is_default_registry(c.section_map.categories@),
            c.grep@ == spec_grep_pattern(c.section_map.categories@) + "BREAKING'"@,
            c.format@ == "%H%n%s%n%b%n==END=="@,
            c.repo@ == Seq::<char>::empty(),
            c.link_style == LinkStyle::Github,
            c.version@ == Seq::<char>::empty(),
            c.patch_ver == false,
            c.subtitle@ == Seq::<char>::empty(),
            c.from@ == Seq::<char>::empty(),
            c.to@ == "HEAD"@,
            c.changelog is None,
            c.git_dir is None,
            c.git_work_tree is None,
    {
        let section_map = CategoryRegistry::with_defaults();
        let grep = grep_pattern(&section_map);
        Clog {
            grep,
            format: String::from_str("%H%n%s%n%b%n==END=="),
            repo: String::new(),
            link_style: LinkStyle::Github,
            version: String::new(),
            patch_ver: false,
            subtitle: String::new(),
            from: String::new(),
            to: String::from_str("HEAD"),
            changelog: None,
            section_map,
            git_dir: None,
            git_work_tree: None,
        }
    }
}

impl Clog {
    /// Retrieves the section title for a given alias, `"Unknown"` when no
    /// section claims it.
    pub fn section_for(&self, alias: &str) -> (r: String)
        ensures
            r@ == spec_resolve(self.section_map.categories@, alias@),
    {
        self.section_map.resolve(alias)
    }

    /// Parses one raw commit block into a commit record.
    pub fn parse_raw_commit(&self, commit_str: &str) -> (c: Commit)
        ensures
            commit_matches(c, spec_parse_commit(self.section_map.categories@, commit_str@)),
    {
        parse_commit(&self.section_map, commit_str)
    }

    /// Turns raw log output into the commits of interest: splits it at
    /// the block separator, parses each block, and drops commits whose
    /// type resolved to no section.
    pub fn commits_from_log(&self, log: &str) -> (cs: Commits)
        ensures
            commits_match(cs@, spec_log_commits(self.section_map.categories@, log@)),
    {
        log_to_commits(&self.section_map, log)
    }

    /// Sets the grep search pattern for finding commits.
    pub fn grep(&mut self, g: String)
        ensures
            *final(self) == (Clog { grep: g, ..*old(self) }),
    {
        self.grep = g;
    }

    /// Sets the format expected of the log retrieval's output.
    pub fn format(&mut self, f: String)
        ensures
            *final(self) == (Clog { format: f, ..*old(self) }),
    {
        self.format = f;
    }

    /// Sets the repository used for the base of hyper-links.
    pub fn repository(&mut self, r: String)
        ensures
            *final(self) == (Clog { repo: r, ..*old(self) }),
    {
        self.repo = r;
    }

    /// Sets the link style to use for hyper-links.
    pub fn link_style(&mut self, l: LinkStyle)
        ensures
            *final(self) == (Clog { link_style: l, ..*old(self) }),
    {
        self.link_style = l;
    }

    /// Sets the version for the release.
    pub fn version(&mut self, v: String)
        ensures
            *final(self) == (Clog { version: v, ..*old(self) }),
    {
        self.version = v;
    }

    /// Sets the subtitle for the release.
    pub fn subtitle(&mut self, s: String)
        ensures
            *final(self) == (Clog { subtitle: s, ..*old(self) }),
    {
        self.subtitle = s;
    }

    /// Sets how far back to begin searching commits.
    pub fn from(&mut self, f: String)
        ensures
            *final(self) == (Clog { from: f, ..*old(self) }),
    {
        self.from = f;
    }

    /// Sets at what point to stop searching for commits.
    pub fn to(&mut self, t: String)
        ensures
            *final(self) == (Clog { to: t, ..*old(self) }),
    {
        self.to = t;
    }

    /// Sets the changelog file to output or prepend to.
    pub fn changelog(&mut self, c: String)
        ensures
            *final(self) == (Clog { changelog: Some(c), ..*old(self) }),
    {
        self.changelog = Some(c);
    }

    /// Sets the directory of the repository meta-data.
    pub fn git_dir(&mut self, d: String)
        ensures
            *final(self) == (Clog { git_dir: Some(d), ..*old(self) }),
    {
        self.git_dir = Some(d);
    }

    /// Sets the working directory of the project.
    pub fn git_work_tree(&mut self, d: String)
        ensures
            *final(self) == (Clog { git_work_tree: Some(d), ..*old(self) }),
    {
        self.git_work_tree = Some(d);
    }

    /// Sets whether this is a patch release.
    pub fn patch_ver(&mut self, p: bool)
        ensures
            *final(self) == (Clog { patch_ver: p, ..*old(self) }),
    {
        self.patch_ver = p;
    }

    /// The `--work-tree=` argument for the log retrieval: empty when no
    /// directory was configured; the configured working tree when the
    /// meta-data directory is also known; else the parent of the
    /// configured working tree.
    pub fn get_git_work_tree(&self) -> (r: String)
        requires
            self.git_dir is Some ==> self.git_work_tree is Some,
        ensures
            r@ == match (self.git_dir, self.git_work_tree) {
                (None, None) => Seq::<char>::empty(),
                (Some(_), Some(w)) => "--work-tree="@ + w@,
                (None, Some(w)) => "--work-tree="@ + spec_parent(w@),
                (Some(_), None) => Seq::<char>::empty(),
            },
    {
        match (&self.git_dir, &self.git_work_tree) {
            (None, None) => String::new(),
            (Some(_), Some(w)) => {
                let mut s = String::from_str("--work-tree=");
                s.append(w.as_str());
                s
            },
            (None, Some(w)) => {
                let mut s = String::from_str("--work-tree=");
                let p = parent_dir(w.as_str());
                s.append(p.as_str());
                s
            },
            (Some(_), None) => String::new(),
        }
    }

    /// The `--git-dir=` argument for the log retrieval: empty when no
    /// directory was configured; the configured meta-data directory when
    /// the working tree is also known; else that directory with `.git`
    /// joined once more.
    pub fn get_git_dir(&self) -> (r: String)
        requires
            self.git_work_tree is Some ==> self.git_dir is Some,
        ensures
            r@ == match (self.git_dir, self.git_work_tree) {
                (None, None) => Seq::<char>::empty(),
                (Some(g), Some(_)) => "--git-dir="@ + g@,
                (Some(g), None) => "--git-dir="@ + spec_join(g@, ".git"@),
                (None, Some(_)) => Seq::<char>::empty(),
            },
    {
        match (&self.git_dir, &self.git_work_tree) {
            (None, None) => String::new(),
            (Some(g), Some(_)) => {
                let mut s = String::from_str("--git-dir=");
                s.append(g.as_str());
                s
            },
            (Some(g), None) => {
                let mut s = String::from_str("--git-dir=");
                let j = join_path(g.as_str(), ".git");
                s.append(j.as_str());
                s
            },
            (None, Some(_)) => String::new(),
        }
    }

    /// Applies values decoded from a configuration source: each present
    /// option overrides its field, and every listed section is
    /// registered, replacing the alias list of a section already known
    /// under that name.
    pub fn apply_config_values(
        &mut self,
        repo: Option<String>,
        subtitle: Option<String>,
        link_style: Option<LinkStyle>,
        outfile: Option<String>,
        sections: Vec<(String, Vec<String>)>,
    )
        ensures
            final(self).section_map.categories@ == spec_register_all(
                old(self).section_map.categories@,
                sections@,
            ),
            final(self).repo == match repo {
                Some(r) => r,
                None => old(self).repo,
            },
            final(self).subtitle == match subtitle {
                Some(s) => s,
                None => old(self).subtitle,
            },
            final(self).link_style == match link_style {
                Some(l) => l,
                None => old(self).link_style,
            },
            final(self).changelog == match outfile {
                Some(f) => Some(f),
                None => old(self).changelog,
            },
            final(self).grep == old(self).grep,
            final(self).format == old(self).format,
            final(self).version == old(self).version,
            final(self).patch_ver == old(self).patch_ver,
            final(self).from == old(self).from,
            final(self).to == old(self).to,
            final(self).git_dir == old(self).git_dir,
            final(self).git_work_tree == old(self).git_work_tree,
    {
        let ghost cats0 = self.section_map.categories@;
        let ghost all = sections@;
        let mut rest = sections;
        proof {
            assert(all.skip(0) =~= all);
            assert(all.take(0) =~= Seq::<(String, Vec<String>)>::empty());
        }
        while rest.len() > 0
            invariant
                rest@.len() <= all.len(),
                rest@ == all.skip(all.len() - rest@.len()),
                self.section_map.categories@ == spec_register_all(
                    cats0,
                    all.take(all.len() - rest@.len()),
                ),
                self.grep == old(self).grep,
                self.format == old(self).format,
                self.repo == old(self).repo,
                self.link_style == old(self).link_style,
                self.version == old(self).version,
                self.patch_ver == old(self).patch_ver,
                self.subtitle == old(self).subtitle,
                self.from == old(self).from,
                self.to == old(self).to,
                self.changelog == old(self).changelog,
                self.git_dir == old(self).git_dir,
                self.git_work_tree == old(self).git_work_tree,
                cats0 == old(self).section_map.categories@,
            decreases rest@.len(),
        {
            let ghost k = all.len() - rest@.len();
            let (name, aliases) = rest.remove(0);
            proof {
                assert((name, aliases) == all[k]);
                assert(rest@ =~= all.skip(k + 1));
                assert(all.take(k + 1).drop_last() =~= all.take(k));
                assert(all.take(k + 1).last() == all[k]);
            }
            self.section_map.register(name, aliases);
        }
        proof {
            assert(all.take(all.len() as int) =~= all);
        }
        if let Some(r) = repo {
            self.repo = r;
        }
        if let Some(l) = link_style {
            self.link_style = l;
        }
        if let Some(s) = subtitle {
            self.subtitle = s;
        }
        if let Some(f) = outfile {
            self.changelog = Some(f);
        }
    }
}

/// What registering a list of sections in order does to a registry.
pub open spec fn spec_register_all(
    cats: Seq<Category>,
    secs: Seq<(String, Vec<String>)>,
) -> Seq<Category>
    decreases secs.len(),
{
    if secs.len() == 0 {
        cats
    } else {
        spec_register(
            spec_register_all(cats, secs.drop_last()),
            (Category { name: secs.last().0, aliases: secs.last().1 }),
        )
    }
}

/// The index of the last path separator, or -1.
pub open spec fn last_slash(s: Seq<char>) -> int
    decreases s.len(),
{
    if s.len() == 0 {
        -1
    } else if s.last() == '/' {
        s.len() - 1
    } else {
        last_slash(s.drop_last())
    }
}

/// The parent of a plain string path: everything before the last
/// separator, the root when the separator leads, and empty when there is
/// none.
pub open spec fn spec_parent(s: Seq<char>) -> Seq<char> {
    let j = last_slash(s);
    if j < 0 {
        Seq::empty()
    } else if j == 0 {
        s.take(1)
    } else {
        s.take(j)
    }
}

/// A path with one more component joined onto it.
pub open spec fn spec_join(base: Seq<char>, comp: Seq<char>) -> Seq<char> {
    if base.len() == 0 {
        comp
    } else if base.last() == '/' {
        base + comp
    } else {
        base + "/"@ + comp
    }
}

/// The last component of a plain string path.
pub open spec fn spec_last_component(s: Seq<char>) -> Seq<char> {
    s.skip(last_slash(s) + 1)
}

/// The parent directory of a plain string path.
pub fn parent_dir(s: &str) -> (r: String)
    ensures
        r@ == spec_parent(s@),
{
    let len = s.unicode_len();
    let mut found = false;
    let mut last: usize = 0;
    let mut i: usize = 0;
    proof {
        assert(last_slash(s@.take(0)) == -1);
    }
    while i < len
        invariant
            i <= len,
            len == s@.len(),
            found ==> last < i,
            last_slash(s@.take(i as int)) == if found {
                last as int
            } else {
                -1
            },
        decreases len - i,
    {
        proof {
            assert(s@.take(i + 1).drop_last() =~= s@.take(i as int));
            assert(s@.take(i + 1).last() == s@[i as int]);
        }
        if s.get_char(i) == '/' {
            found = true;
            last = i;
        }
        i = i + 1;
    }
    proof {
        assert(s@.take(len as int) =~= s@);
    }
    if !found {
        String::new()
    } else if last == 0 {
        let r = s.substring_char(0, 1).to_owned();
        proof {
            assert(r@ =~= s@.take(1));
        }
        r
    } else {
        let r = s.substring_char(0, last).to_owned();
        proof {
            assert(r@ =~= s@.take(last as int));
        }
        r
    }
}

/// Joins one more component onto a plain string path.
pub fn join_path(base: &str, comp: &str) -> (r: String)
    ensures
        r@ == spec_join(base@, comp@),
{
    let len = base.unicode_len();
    if len == 0 {
        let r = comp.to_owned();
        return r;
    }
    let mut s = base.to_owned();
    if base.get_char(len - 1) != '/' {
        s.append("/");
    }
    s.append(comp);
    proof {
        assert(s@ =~= spec_join(base@, comp@));
    }
    s
}

/// The meta-data directory and working tree derived from one project
/// directory: a directory whose last component is `.git` is the
/// meta-data directory with its parent as working tree, any other is the
/// working tree with `.git` joined on as meta-data directory.
pub fn dirs_from_project_dir(dir: &str) -> (r: (String, String))
    ensures
        spec_last_component(dir@) == ".git"@ ==> r.0@ == dir@ && r.1@ == spec_parent(dir@),
        spec_last_component(dir@) != ".git"@ ==> r.0@ == spec_join(dir@, ".git"@) && r.1@ == dir@,
{
    let len = dir.unicode_len();
    let mut found = false;
    let mut last: usize = 0;
    let mut i: usize = 0;
    proof {
        assert(last_slash(dir@.take(0)) == -1);
    }
    while i < len
        invariant
            i <= len,
            len == dir@.len(),
            found ==> last < i,
            last_slash(dir@.take(i as int)) == if found {
                last as int
            } else {
                -1
            },
        decreases len - i,
    {
        proof {
            assert(dir@.take(i + 1).drop_last() =~= dir@.take(i as int));
            assert(dir@.take(i + 1).last() == dir@[i as int]);
        }
        if dir.get_char(i) == '/' {
            found = true;
            last = i;
        }
        i = i + 1;
    }
    proof {
        assert(dir@.take(len as int) =~= dir@);
    }
    let start = if !found {
        0
    } else {
        last + 1
    };
    let tail = dir.substring_char(start, len);
    proof {
        assert(tail@ =~= spec_last_component(dir@));
    }
    if crate::text::str_eq(tail, ".git") {
        let parent = parent_dir(dir);
        (dir.to_owned(), parent)
    } else {
        let joined = join_path(dir, ".git");
        (joined, dir.to_owned())
    }
}

} // verus!
