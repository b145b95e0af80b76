//! Renders the grouped changelog data as Markdown.

use vstd::prelude::*;

use crate::clog::spec_commit_link;
use crate::clog::spec_issue_link;
use crate::clog::Clog;
use crate::clog::LinkStyle;
use crate::fmt::entries_hashes_ok;
use crate::fmt::sections_hashes_ok;
use crate::git::Commit;
use crate::sectionmap::ComponentMap;
use crate::sectionmap::SectionMap;

verus! {

/// The release header: an anchor for the version, the heading (smaller
/// for patch releases) with the optional subtitle, and the date.
pub open spec fn spec_md_header(
    version: Seq<char>,
    patch_ver: bool,
    subtitle: Seq<char>,
    date: Seq<char>,
) -> Seq<char> {
    let sub = if subtitle.len() == 0 {
        subtitle
    } else {
        " "@ + subtitle
    };
    let vt = (if patch_ver {
        "### "@
    } else {
        "## "@
    }) + version + sub;
    "<a name=\""@ + version + "\"></a>\n"@ + vt + " ("@ + date + ")\n\n"@
}

/// One closed-issue reference of a commit line.
pub open spec fn spec_md_closes_item(issue: Seq<char>, style: LinkStyle, repo: Seq<char>) -> Seq<
    char,
> {
    "[#"@ + issue + "]("@ + spec_issue_link(style, issue, repo) + ")"@
}

/// The closed-issue references of a commit line, comma-separated.
pub open spec fn spec_md_closes_join(
    closes: Seq<Seq<char>>,
    style: LinkStyle,
    repo: Seq<char>,
) -> Seq<char>
    decreases closes.len(),
{
    if closes.len() == 0 {
        Seq::empty()
    } else if closes.len() == 1 {
        spec_md_closes_item(closes[0], style, repo)
    } else {
        spec_md_closes_join(closes.drop_last(), style, repo) + ", "@ + spec_md_closes_item(
            closes.last(),
            style,
            repo,
        )
    }
}

/// One commit line: the prefix, the subject, the short hash with its
/// link, and the closed issues when there are any.
pub open spec fn spec_md_commit_line(
    prefix: Seq<char>,
    c: Commit,
    style: LinkStyle,
    repo: Seq<char>,
) -> Seq<char> {
    let closes_part = if c.closes@.len() > 0 {
        ", closes "@ + spec_md_closes_join(c.closes.deep_view(), style, repo)
    } else {
        Seq::empty()
    };
    prefix + " "@ + c.subject@ + " (["@ + c.hash@.take(8) + "]("@ + spec_commit_link(
        style,
        c.hash@,
        repo,
    ) + ")"@ + closes_part + ")\n"@
}

/// The commit lines of one bucket, in order.
pub open spec fn spec_md_commit_lines(
    prefix: Seq<char>,
    commits: Seq<Commit>,
    style: LinkStyle,
    repo: Seq<char>,
) -> Seq<char>
    decreases commits.len(),
{
    if commits.len() == 0 {
        Seq::empty()
    } else {
        spec_md_commit_lines(prefix, commits.drop_last(), style, repo) + spec_md_commit_line(
            prefix,
            commits.last(),
            style,
            repo,
        )
    }
}

/// One component's block: a bold component heading with indented lines
/// when it holds several commits, else one line carrying the component
/// (or a bare bullet when there is none).
pub open spec fn spec_md_component(
    name: Seq<char>,
    commits: Seq<Commit>,
    style: LinkStyle,
    repo: Seq<char>,
) -> Seq<char> {
    if commits.len() > 1 && name.len() > 0 {
        "* **"@ + name + "**\n"@ + spec_md_commit_lines("  *"@, commits, style, repo)
    } else if name.len() > 0 {
        spec_md_commit_lines("* **"@ + name + "**"@, commits, style, repo)
    } else {
        spec_md_commit_lines("* "@, commits, style, repo)
    }
}

/// The blocks of all components of a section, in stored (name) order.
pub open spec fn spec_md_components(
    entries: Seq<(String, Vec<Commit>)>,
    style: LinkStyle,
    repo: Seq<char>,
) -> Seq<char>
    decreases entries.len(),
{
    if entries.len() == 0 {
        Seq::empty()
    } else {
        spec_md_components(entries.drop_last(), style, repo) + spec_md_component(
            entries.last().0@,
            entries.last().1@,
            style,
            repo,
        )
    }
}

/// One section: its heading and its component blocks; an empty section
/// renders nothing.
pub open spec fn spec_md_section(
    title: Seq<char>,
    entries: Seq<(String, Vec<Commit>)>,
    style: LinkStyle,
    repo: Seq<char>,
) -> Seq<char> {
    if entries.len() == 0 {
        Seq::empty()
    } else {
        "\n#### "@ + title + "\n\n"@ + spec_md_components(entries, style, repo)
    }
}

/// All sections, in stored order.
pub open spec fn spec_md_sections(
    ss: Seq<(String, ComponentMap)>,
    style: LinkStyle,
    repo: Seq<char>,
) -> Seq<char>
    decreases ss.len(),
{
    if ss.len() == 0 {
        Seq::empty()
    } else {
        spec_md_sections(ss.drop_last(), style, repo) + spec_md_section(
            ss.last().0@,
            ss.last().1.entries@,
            style,
            repo,
        )
    }
}

/// Writes changelog output in Markdown format into a string buffer.
pub struct MarkdownWriter(pub String);

impl MarkdownWriter {
    /// Creates a writer with an empty buffer.
    pub fn new() -> (w: MarkdownWriter)
        ensures
            w.0@ == Seq::<char>::empty(),
    {
        MarkdownWriter(String::new())
    }

    /// Hands out the text written so far.
    pub fn into_string(self) -> (r: String)
        ensures
            r == self.0,
    {
        self.0
    }

    /// Writes the release header for the configured version, subtitle
    /// and heading size, with the given date.
    pub fn write_header(&mut self, options: &Clog, date: &str)
        ensures
            final(self).0@ == old(self).0@ + spec_md_header(
                options.version@,
                options.patch_ver,
                options.subtitle@,
                date@,
            ),
    {
        let mut version_text = String::new();
        if options.patch_ver {
            version_text.append("### ");
        } else {
            version_text.append("## ");
        }
        version_text.append(options.version.as_str());
        if options.subtitle.unicode_len() > 0 {
            version_text.append(" ");
            version_text.append(options.subtitle.as_str());
        }
        self.0.append("<a name=\"");
        self.0.append(options.version.as_str());
        self.0.append("\"></a>\n");
        self.0.append(version_text.as_str());
        self.0.append(" (");
        self.0.append(date);
        self.0.append(")\n\n");
        proof {
            assert(self.0@ =~= old(self).0@ + spec_md_header(
                options.version@,
                options.patch_ver,
                options.subtitle@,
                date@,
            ));
        }
    }

    /// Writes one commit line.
    fn write_commit_line(&mut self, options: &Clog, prefix: &str, c: &Commit)
        requires
            c.hash@.len() >= 8,
        ensures
            final(self).0@ == old(self).0@ + spec_md_commit_line(
                prefix@,
                *c,
                options.link_style,
                options.repo@,
            ),
    {
        self.0.append(prefix);
        self.0.append(" ");
        self.0.append(c.subject.as_str());
        self.0.append(" ([");
        let short = c.hash.as_str().substring_char(0, 8);
        proof {
            assert(short@ =~= c.hash@.take(8));
        }
        self.0.append(short);
        self.0.append("](");
        let link = options.link_style.commit_link(c.hash.as_str(), options.repo.as_str());
        self.0.append(link.as_str());
        self.0.append(")");
        if c.closes.len() > 0 {
            self.0.append(", closes ");
            let ghost base = self.0@;
            let ghost dv = c.closes.deep_view();
            let n = c.closes.len();
            let mut i: usize = 0;
            while i < n
                invariant
                    0 < n == dv.len(),
                    dv == c.closes.deep_view(),
                    i <= n,
                    self.0@ == base + spec_md_closes_join(
                        dv.take(i as int),
                        options.link_style,
                        options.repo@,
                    ),
                decreases n - i,
            {
                if i > 0 {
                    self.0.append(", ");
                }
                self.0.append("[#");
                self.0.append(c.closes[i].as_str());
                self.0.append("](");
                let ilink = options.link_style.issue_link(
                    c.closes[i].as_str(),
                    options.repo.as_str(),
                );
                self.0.append(ilink.as_str());
                self.0.append(")");
                proof {
                    assert(dv[i as int] == c.closes@[i as int]@);
                    assert(dv.take(i + 1).drop_last() =~= dv.take(i as int));
                    assert(dv.take(i + 1).last() == dv[i as int]);
                    if i == 0 {
                        assert(spec_md_closes_join(dv.take(0), options.link_style, options.repo@)
                            =~= Seq::<char>::empty());
                    }
                    assert(self.0@ =~= base + spec_md_closes_join(
                        dv.take(i + 1),
                        options.link_style,
                        options.repo@,
                    ));
                }
                i = i + 1;
            }
            proof {
                assert(dv.take(n as int) =~= dv);
            }
        }
        self.0.append(")\n");
        proof {
            assert(self.0@ =~= old(self).0@ + spec_md_commit_line(
                prefix@,
                *c,
                options.link_style,
                options.repo@,
            ));
        }
    }

    /// Writes a particular section of a changelog.
    pub fn write_section(&mut self, options: &Clog, title: &str, section: &ComponentMap)
        requires
            entries_hashes_ok(section.entries@),
        ensures
            final(self).0@ == old(self).0@ + spec_md_section(
                title@,
                section.entries@,
                options.link_style,
                options.repo@,
            ),
    {
        if section.entries.len() == 0 {
            return ;
        }
        self.0.append("\n#### ");
        self.0.append(title);
        self.0.append("\n\n");
        let ghost base = self.0@;
        let ghost es = section.entries@;
        let n = section.entries.len();
        let mut k: usize = 0;
        proof {
            assert(spec_md_components(es.take(0), options.link_style, options.repo@) =~= Seq::<
                char,
            >::empty());
            assert(base + Seq::<char>::empty() =~= base);
        }
        while k < n
            invariant
                n == es.len(),
                es == section.entries@,
                entries_hashes_ok(es),
                k <= n,
                self.0@ == base + spec_md_components(
                    es.take(k as int),
                    options.link_style,
                    options.repo@,
                ),
            decreases n - k,
        {
            let name = &section.entries[k].0;
            let commits = &section.entries[k].1;
            let ghost pre = self.0@;
            let ghost cv = commits@;
            let nested = commits.len() > 1 && name.unicode_len() > 0;
            let prefix = if nested {
                self.0.append("* **");
                self.0.append(name.as_str());
                self.0.append("**\n");
                String::from_str("  *")
            } else if name.unicode_len() > 0 {
                let mut p = String::from_str("* **");
                p.append(name.as_str());
                p.append("**");
                p
            } else {
                String::from_str("* ")
            };
            let ghost lines_base = self.0@;
            let m = commits.len();
            let mut x: usize = 0;
            proof {
                assert(spec_md_commit_lines(prefix@, cv.take(0), options.link_style, options.repo@)
                    =~= Seq::<char>::empty());
                assert(lines_base + Seq::<char>::empty() =~= lines_base);
            }
            while x < m
                invariant
                    m == cv.len(),
                    commits@ == cv,
                    cv == section.entries@[k as int].1@,
                    0 <= k < section.entries@.len(),
                    entries_hashes_ok(section.entries@),
                    x <= m,
                    self.0@ == lines_base + spec_md_commit_lines(
                        prefix@,
                        cv.take(x as int),
                        options.link_style,
                        options.repo@,
                    ),
                decreases m - x,
            {
                proof {
                    assert(cv[x as int] == section.entries@[k as int].1@[x as int]);
                    assert(cv[x as int].hash@.len() >= 8);
                }
                self.write_commit_line(options, prefix.as_str(), &commits[x]);
                proof {
                    assert(cv.take(x + 1).drop_last() =~= cv.take(x as int));
                    assert(cv.take(x + 1).last() == cv[x as int]);
                    assert(self.0@ =~= lines_base + spec_md_commit_lines(
                        prefix@,
                        cv.take(x + 1),
                        options.link_style,
                        options.repo@,
                    ));
                }
                x = x + 1;
            }
            proof {
                assert(cv.take(m as int) =~= cv);
                assert(es.take(k + 1).drop_last() =~= es.take(k as int));
                assert(es.take(k + 1).last() == es[k as int]);
                assert(self.0@ =~= base + spec_md_components(
                    es.take(k + 1),
                    options.link_style,
                    options.repo@,
                ));
            }
            k = k + 1;
        }
        proof {
            assert(es.take(n as int) =~= es);
            assert(self.0@ =~= old(self).0@ + spec_md_section(
                title@,
                section.entries@,
                options.link_style,
                options.repo@,
            ));
        }
    }

    /// Writes some contents after three blank lines.
    pub fn write(&mut self, content: &str)
        ensures
            final(self).0@ == old(self).0@ + "\n\n\n"@ + content@,
    {
        self.0.append("\n\n\n");
        self.0.append(content);
    }

    /// Writes the whole changelog entry: the header and every section of
    /// the grouped commits, in stored order.
    pub fn write_changelog(&mut self, options: &Clog, sm: &SectionMap, date: &str)
        requires
            sections_hashes_ok(sm.sections@),
        ensures
            final(self).0@ == old(self).0@ + spec_md_header(
                options.version@,
                options.patch_ver,
                options.subtitle@,
                date@,
            ) + spec_md_sections(sm.sections@, options.link_style, options.repo@),
    {
        self.write_header(options, date);
        let ghost base = self.0@;
        let ghost ss = sm.sections@;
        let n = sm.sections.len();
        let mut j: usize = 0;
        proof {
            assert(spec_md_sections(ss.take(0), options.link_style, options.repo@) =~= Seq::<
                char,
            >::empty());
            assert(base + Seq::<char>::empty() =~= base);
        }
        while j < n
            invariant
                n == ss.len(),
                ss == sm.sections@,
                sections_hashes_ok(ss),
                j <= n,
                self.0@ == base + spec_md_sections(
                    ss.take(j as int),
                    options.link_style,
                    options.repo@,
                ),
            decreases n - j,
        {
            proof {
                assert(entries_hashes_ok(ss[j as int].1.entries@));
            }
            self.write_section(options, sm.sections[j].0.as_str(), &sm.sections[j].1);
            proof {
                assert(ss.take(j + 1).drop_last() =~= ss.take(j as int));
                assert(ss.take(j + 1).last() == ss[j as int]);
                assert(self.0@ =~= base + spec_md_sections(
                    ss.take(j + 1),
                    options.link_style,
                    options.repo@,
                ));
            }
            j = j + 1;
        }
        proof {
            assert(ss.take(n as int) =~= ss);
        }
    }
}

} // verus!
