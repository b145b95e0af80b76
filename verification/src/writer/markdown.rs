//! A Markdown renderer that holds the configuration it renders with,
//! and writes commit lines with the bare commit link rather than the
//! re-wrapped short-hash form of `crate::fmt::MarkdownWriter`.

use vstd::prelude::*;

use crate::clog::spec_commit_link;
use crate::clog::spec_issue_link;
use crate::clog::Clog;
use crate::clog::LinkStyle;
use crate::fmt::entries_hashes_ok;
use crate::fmt::md_writer::spec_md_header;
use crate::git::Commit;
use crate::sectionmap::ComponentMap;
use crate::writer::Writer;

verus! {

/// The closed-issue links of a commit line, comma-separated.
pub open spec fn spec_plain_closes_join(
    closes: Seq<Seq<char>>,
    style: LinkStyle,
    repo: Seq<char>,
) -> Seq<char>
    decreases closes.len(),
{
    if closes.len() == 0 {
        Seq::empty()
    } else if closes.len() == 1 {
        spec_issue_link(style, closes[0], repo)
    } else {
        spec_plain_closes_join(closes.drop_last(), style, repo) + ", "@ + spec_issue_link(
            style,
            closes.last(),
            repo,
        )
    }
}

/// One commit line: the prefix, the subject, the commit link, and the
/// closed issues when there are any.
pub open spec fn spec_plain_commit_line(
    prefix: Seq<char>,
    c: Commit,
    style: LinkStyle,
    repo: Seq<char>,
) -> Seq<char> {
    let closes_part = if c.closes@.len() > 0 {
        ", closes "@ + spec_plain_closes_join(c.closes.deep_view(), style, repo)
    } else {
        Seq::empty()
    };
    prefix + " "@ + c.subject@ + " ("@ + spec_commit_link(style, c.hash@, repo) + closes_part
        + ")\n"@
}

/// The commit lines of one bucket, in order.
pub open spec fn spec_plain_commit_lines(
    prefix: Seq<char>,
    commits: Seq<Commit>,
    style: LinkStyle,
    repo: Seq<char>,
) -> Seq<char>
    decreases commits.len(),
{
    if commits.len() == 0 {
        Seq::empty()
    } else {
        spec_plain_commit_lines(prefix, commits.drop_last(), style, repo) + spec_plain_commit_line(
            prefix,
            commits.last(),
            style,
            repo,
        )
    }
}

/// One component's block, with the same nesting rules as
/// `crate::fmt::MarkdownWriter`.
pub open spec fn spec_plain_component(
    name: Seq<char>,
    commits: Seq<Commit>,
    style: LinkStyle,
    repo: Seq<char>,
) -> Seq<char> {
    if commits.len() > 1 && name.len() > 0 {
        "* **"@ + name + "**\n"@ + spec_plain_commit_lines("  *"@, commits, style, repo)
    } else if name.len() > 0 {
        spec_plain_commit_lines("* **"@ + name + "**"@, commits, style, repo)
    } else {
        spec_plain_commit_lines("* "@, commits, style, repo)
    }
}

/// The blocks of all components of a section, in stored order.
pub open spec fn spec_plain_components(
    entries: Seq<(String, Vec<Commit>)>,
    style: LinkStyle,
    repo: Seq<char>,
) -> Seq<char>
    decreases entries.len(),
{
    if entries.len() == 0 {
        Seq::empty()
    } else {
        spec_plain_components(entries.drop_last(), style, repo) + spec_plain_component(
            entries.last().0@,
            entries.last().1@,
            style,
            repo,
        )
    }
}

/// One section: its heading and its component blocks; an empty section
/// renders nothing.
pub open spec fn spec_plain_section(
    title: Seq<char>,
    entries: Seq<(String, Vec<Commit>)>,
    style: LinkStyle,
    repo: Seq<char>,
) -> Seq<char> {
    if entries.len() == 0 {
        Seq::empty()
    } else {
        "\n#### "@ + title + "\n\n"@ + spec_plain_components(entries, style, repo)
    }
}

/// Writes commits in Markdown format into a string buffer, using the
/// configuration it was created with.
pub struct Markdown<'cc> {
    /// The text written so far.
    pub writer: String,
    /// The options used when writing sections and commits.
    pub options: &'cc Clog,
}

impl<'cc> Markdown<'cc> {
    /// Creates a new instance of the `Markdown` struct using a `Clog`
    /// object as the configuration options to use while writing.
    pub fn new(options: &'cc Clog) -> (r: Markdown<'cc>)
        ensures
            r.writer@ == Seq::<char>::empty(),
            r.options == options,
    {
        Markdown { writer: String::new(), options }
    }

    /// Hands out the text written so far.
    pub fn into_string(self) -> (r: String)
        ensures
            r == self.writer,
    {
        self.writer
    }

    /// Writes one commit line.
    fn write_commit_line(&mut self, prefix: &str, c: &Commit)
        requires
            c.hash@.len() >= 8,
        ensures
            final(self).writer@ == old(self).writer@ + spec_plain_commit_line(
                prefix@,
                *c,
                old(self).options.link_style,
                old(self).options.repo@,
            ),
            final(self).options == old(self).options,
    {
        let options = self.options;
        self.writer.append(prefix);
        self.writer.append(" ");
        self.writer.append(c.subject.as_str());
        self.writer.append(" (");
        let link = options.link_style.commit_link(c.hash.as_str(), options.repo.as_str());
        self.writer.append(link.as_str());
        if c.closes.len() > 0 {
            self.writer.append(", closes ");
            let ghost base = self.writer@;
            let ghost dv = c.closes.deep_view();
            let n = c.closes.len();
            let mut i: usize = 0;
            while i < n
                invariant
                    0 < n == dv.len(),
                    dv == c.closes.deep_view(),
                    i <= n,
                    options == old(self).options,
                    self.options == options,
                    self.writer@ == base + spec_plain_closes_join(
                        dv.take(i as int),
                        options.link_style,
                        options.repo@,
                    ),
                decreases n - i,
            {
                proof {
                    if i == 0 {
                        assert(spec_plain_closes_join(
                            dv.take(0),
                            options.link_style,
                            options.repo@,
                        ) =~= Seq::<char>::empty());
                    }
                }
                if i > 0 {
                    self.writer.append(", ");
                }
                let ilink = options.link_style.issue_link(
                    c.closes[i].as_str(),
                    options.repo.as_str(),
                );
                self.writer.append(ilink.as_str());
                proof {
                    assert(dv[i as int] == c.closes@[i as int]@);
                    assert(dv.take(i + 1).drop_last() =~= dv.take(i as int));
                    assert(dv.take(i + 1).last() == dv[i as int]);
                    assert(self.writer@ =~= base + spec_plain_closes_join(
                        dv.take(i + 1),
                        options.link_style,
                        options.repo@,
                    ));
                }
                i = i + 1;
            }
            proof {
                assert(dv.take(n as int) =~= dv);
            }
        }
        self.writer.append(")\n");
        proof {
            assert(self.writer@ =~= old(self).writer@ + spec_plain_commit_line(
                prefix@,
                *c,
                old(self).options.link_style,
                old(self).options.repo@,
            ));
        }
    }
}

impl<'cc> Writer for Markdown<'cc> {
    /// Writes the initial header information for a release.
    fn write_header(&mut self, date: &str)
        ensures
            final(self).writer@ == old(self).writer@ + spec_md_header(
                old(self).options.version@,
                old(self).options.patch_ver,
                old(self).options.subtitle@,
                date@,
            ),
            final(self).options == old(self).options,
    {
        let options = self.options;
        let mut version_text = String::new();
        if options.patch_ver {
            version_text.append("### ");
        } else {
            version_text.append("## ");
        }
        version_text.append(options.version.as_str());
        if options.subtitle.unicode_len() > 0 {
            version_text.append(" ");
            version_text.append(options.subtitle.as_str());
        }
        self.writer.append("<a name=\"");
        self.writer.append(options.version.as_str());
        self.writer.append("\"></a>\n");
        self.writer.append(version_text.as_str());
        self.writer.append(" (");
        self.writer.append(date);
        self.writer.append(")\n\n");
        proof {
            assert(self.writer@ =~= old(self).writer@ + spec_md_header(
                old(self).options.version@,
                old(self).options.patch_ver,
                old(self).options.subtitle@,
                date@,
            ));
        }
    }

    /// Writes a particular section of a changelog.
    fn write_section(&mut self, title: &str, section: &ComponentMap)
        ensures
            final(self).writer@ == old(self).writer@ + spec_plain_section(
                title@,
                section.entries@,
                old(self).options.link_style,
                old(self).options.repo@,
            ),
            final(self).options == old(self).options,
    {
        let options = self.options;
        if section.entries.len() == 0 {
            return ;
        }
        self.writer.append("\n#### ");
        self.writer.append(title);
        self.writer.append("\n\n");
        let ghost base = self.writer@;
        let ghost es = section.entries@;
        let n = section.entries.len();
        let mut k: usize = 0;
        proof {
            assert(spec_plain_components(es.take(0), options.link_style, options.repo@) =~= Seq::<
                char,
            >::empty());
            assert(base + Seq::<char>::empty() =~= base);
        }
        while k < n
            invariant
                n == es.len(),
                es == section.entries@,
                entries_hashes_ok(es),
                k <= n,
                options == old(self).options,
                self.options == options,
                self.writer@ == base + spec_plain_components(
                    es.take(k as int),
                    options.link_style,
                    options.repo@,
                ),
            decreases n - k,
        {
            let name = &section.entries[k].0;
            let commits = &section.entries[k].1;
            let ghost cv = commits@;
            let nested = commits.len() > 1 && name.unicode_len() > 0;
            let prefix = if nested {
                self.writer.append("* **");
                self.writer.append(name.as_str());
                self.writer.append("**\n");
                String::from_str("  *")
            } else if name.unicode_len() > 0 {
                let mut p = String::from_str("* **");
                p.append(name.as_str());
                p.append("**");
                p
            } else {
                String::from_str("* ")
            };
            let ghost lines_base = self.writer@;
            let m = commits.len();
            let mut x: usize = 0;
            proof {
                assert(spec_plain_commit_lines(
                    prefix@,
                    cv.take(0),
                    options.link_style,
                    options.repo@,
                ) =~= Seq::<char>::empty());
                assert(lines_base + Seq::<char>::empty() =~= lines_base);
            }
            while x < m
                invariant
                    m == cv.len(),
                    commits@ == cv,
                    cv == section.entries@[k as int].1@,
                    0 <= k < section.entries@.len(),
                    entries_hashes_ok(section.entries@),
                    x <= m,
                    options == old(self).options,
                    self.options == options,
                    self.writer@ == lines_base + spec_plain_commit_lines(
                        prefix@,
                        cv.take(x as int),
                        options.link_style,
                        options.repo@,
                    ),
                decreases m - x,
            {
                proof {
                    assert(cv[x as int] == section.entries@[k as int].1@[x as int]);
                    assert(cv[x as int].hash@.len() >= 8);
                }
                self.write_commit_line(prefix.as_str(), &commits[x]);
                proof {
                    assert(cv.take(x + 1).drop_last() =~= cv.take(x as int));
                    assert(cv.take(x + 1).last() == cv[x as int]);
                    assert(self.writer@ =~= lines_base + spec_plain_commit_lines(
                        prefix@,
                        cv.take(x + 1),
                        options.link_style,
                        options.repo@,
                    ));
                }
                x = x + 1;
            }
            proof {
                assert(cv.take(m as int) =~= cv);
                assert(es.take(k + 1).drop_last() =~= es.take(k as int));
                assert(es.take(k + 1).last() == es[k as int]);
                assert(self.writer@ =~= base + spec_plain_components(
                    es.take(k + 1),
                    options.link_style,
                    options.repo@,
                ));
            }
            k = k + 1;
        }
        proof {
            assert(es.take(n as int) =~= es);
            assert(self.writer@ =~= old(self).writer@ + spec_plain_section(
                title@,
                section.entries@,
                old(self).options.link_style,
                old(self).options.repo@,
            ));
        }
    }

    /// Writes some contents after three blank lines.
    fn write(&mut self, content: &str)
        ensures
            final(self).writer@ == old(self).writer@ + "\n\n\n"@ + content@,
            final(self).options == old(self).options,
    {
        self.writer.append("\n\n\n");
        self.writer.append(content);
    }
}

} // verus!
