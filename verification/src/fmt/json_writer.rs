//! Renders the grouped changelog data as JSON.

use vstd::prelude::*;

use crate::clog::spec_commit_link;
use crate::clog::spec_issue_link;
use crate::clog::Clog;
use crate::clog::LinkStyle;
use crate::fmt::entries_hashes_ok;
use crate::fmt::sections_hashes_ok;
use crate::git::Commit;
use crate::sectionmap::ComponentMap;
use crate::sectionmap::SectionMap;

verus! {

/// The quoted, escaped form that std's `Debug` formatting gives a
/// string; it depends on the characters alone.
pub uninterp spec fn dbg_quote(s: Seq<char>) -> Seq<char>;

/// Relies on std's `Debug` formatting for `str`: quotes the string and
/// escapes quotes, backslashes and control characters, a pure function
/// of its characters.
#[verifier::external_body]
fn debug_quoted(s: &str) -> (r: String)
    ensures
        r@ == dbg_quote(s@),
{
    format!("{:?}", s)
}

/// The textual form of a boolean.
pub open spec fn spec_bool_text(b: bool) -> Seq<char> {
    if b {
        "true"@
    } else {
        "false"@
    }
}

/// The header object of the JSON output.
pub open spec fn spec_json_header(
    version: Seq<char>,
    patch_ver: bool,
    subtitle: Seq<char>,
    date: Seq<char>,
) -> Seq<char> {
    "\"header\":{\"version\":"@ + dbg_quote(version) + ",\"patch_version\":"@ + spec_bool_text(
        patch_ver,
    ) + ",\"subtitle\":"@ + (if subtitle.len() == 0 {
        "null"@
    } else {
        dbg_quote(subtitle)
    }) + ",\"date\":\""@ + date + "\"},"@
}

/// One closed-issue object.
pub open spec fn spec_json_issue(issue: Seq<char>, style: LinkStyle, repo: Seq<char>) -> Seq<
    char,
> {
    "{\"issue\":"@ + issue + ",\"issue_link\":"@ + dbg_quote(spec_issue_link(style, issue, repo))
        + "}"@
}

/// The closed-issue objects of one commit, comma-separated.
pub open spec fn spec_json_issues(closes: Seq<Seq<char>>, style: LinkStyle, repo: Seq<char>) -> Seq<
    char,
>
    decreases closes.len(),
{
    if closes.len() == 0 {
        Seq::empty()
    } else if closes.len() == 1 {
        spec_json_issue(closes[0], style, repo)
    } else {
        spec_json_issues(closes.drop_last(), style, repo) + ","@ + spec_json_issue(
            closes.last(),
            style,
            repo,
        )
    }
}

/// One commit object: its component (or null), subject, commit link and
/// closed issues (or null).
pub open spec fn spec_json_commit(
    comp: Seq<char>,
    c: Commit,
    style: LinkStyle,
    repo: Seq<char>,
) -> Seq<char> {
    "{\"component\":"@ + (if comp.len() == 0 {
        "null,"@
    } else {
        dbg_quote(comp) + ","@
    }) + "\"subject\":"@ + dbg_quote(c.subject@) + ",\"commit_link\":"@ + dbg_quote(
        spec_commit_link(style, c.hash@, repo),
    ) + ",\"closes\":"@ + (if c.closes@.len() > 0 {
        "["@ + spec_json_issues(c.closes.deep_view(), style, repo) + "]}"@
    } else {
        "null}"@
    })
}

/// The commit objects of one component, comma-separated.
pub open spec fn spec_json_component(
    comp: Seq<char>,
    commits: Seq<Commit>,
    style: LinkStyle,
    repo: Seq<char>,
) -> Seq<char>
    decreases commits.len(),
{
    if commits.len() == 0 {
        Seq::empty()
    } else if commits.len() == 1 {
        spec_json_commit(comp, commits[0], style, repo)
    } else {
        spec_json_component(comp, commits.drop_last(), style, repo) + ","@ + spec_json_commit(
            comp,
            commits.last(),
            style,
            repo,
        )
    }
}

/// The commit objects of all components of a section, one component's
/// run after another.
pub open spec fn spec_json_components(
    entries: Seq<(String, Vec<Commit>)>,
    style: LinkStyle,
    repo: Seq<char>,
) -> Seq<char>
    decreases entries.len(),
{
    if entries.len() == 0 {
        Seq::empty()
    } else {
        spec_json_components(entries.drop_last(), style, repo) + spec_json_component(
            entries.last().0@,
            entries.last().1@,
            style,
            repo,
        )
    }
}

/// The commits field of one section: `null` when the section is empty,
/// else the array of its commit objects.
pub open spec fn spec_json_section(
    entries: Seq<(String, Vec<Commit>)>,
    style: LinkStyle,
    repo: Seq<char>,
) -> Seq<char> {
    if entries.len() == 0 {
        "\"commits\":null"@
    } else {
        "\"commits\":["@ + spec_json_components(entries, style, repo) + "]"@
    }
}

/// The first `i` section objects: each a titled object, followed by a
/// comma exactly when another section with a non-empty title follows.
pub open spec fn spec_json_sections_upto(
    ss: Seq<(String, ComponentMap)>,
    i: int,
    style: LinkStyle,
    repo: Seq<char>,
) -> Seq<char>
    decreases i,
{
    if i <= 0 {
        Seq::empty()
    } else {
        spec_json_sections_upto(ss, i - 1, style, repo) + "{\"title\":"@ + dbg_quote(
            ss[i - 1].0@,
        ) + ","@ + spec_json_section(ss[i - 1].1.entries@, style, repo) + "}"@ + (if i < ss.len()
            && ss[i].0@.len() > 0 {
            ","@
        } else {
            Seq::empty()
        })
    }
}

/// The whole JSON changelog object.
pub open spec fn spec_json_changelog(
    version: Seq<char>,
    patch_ver: bool,
    subtitle: Seq<char>,
    date: Seq<char>,
    ss: Seq<(String, ComponentMap)>,
    style: LinkStyle,
    repo: Seq<char>,
) -> Seq<char> {
    "{"@ + spec_json_header(version, patch_ver, subtitle, date) + "\"sections\":"@ + (if ss.len()
        == 0 {
        "null"@
    } else {
        "["@ + spec_json_sections_upto(ss, ss.len() as int, style, repo) + "]"@
    }) + "}"@
}

/// Writes changelog output in JSON format into a string buffer.
pub struct JsonWriter(pub String);

impl JsonWriter {
    /// Creates a writer with an empty buffer.
    pub fn new() -> (w: JsonWriter)
        ensures
            w.0@ == Seq::<char>::empty(),
    {
        JsonWriter(String::new())
    }

    /// Hands out the text written so far.
    pub fn into_string(self) -> (r: String)
        ensures
            r == self.0,
    {
        self.0
    }

    /// Writes the header object for the configured version, patch flag
    /// and subtitle, with the given date.
    pub fn write_header(&mut self, options: &Clog, date: &str)
        ensures
            final(self).0@ == old(self).0@ + spec_json_header(
                options.version@,
                options.patch_ver,
                options.subtitle@,
                date@,
            ),
    {
        self.0.append("\"header\":{\"version\":");
        let qv = debug_quoted(options.version.as_str());
        self.0.append(qv.as_str());
        self.0.append(",\"patch_version\":");
        if options.patch_ver {
            self.0.append("true");
        } else {
            self.0.append("false");
        }
        self.0.append(",\"subtitle\":");
        if options.subtitle.unicode_len() == 0 {
            self.0.append("null");
        } else {
            let qs = debug_quoted(options.subtitle.as_str());
            self.0.append(qs.as_str());
        }
        self.0.append(",\"date\":\"");
        self.0.append(date);
        self.0.append("\"},");
        proof {
            assert(self.0@ =~= old(self).0@ + spec_json_header(
                options.version@,
                options.patch_ver,
                options.subtitle@,
                date@,
            ));
        }
    }

    /// Writes one commit object.
    fn write_commit(&mut self, options: &Clog, comp: &str, c: &Commit)
        requires
            c.hash@.len() >= 8,
        ensures
            final(self).0@ == old(self).0@ + spec_json_commit(
                comp@,
                *c,
                options.link_style,
                options.repo@,
            ),
    {
        self.0.append("{\"component\":");
        if comp.unicode_len() == 0 {
            self.0.append("null,");
        } else {
            let qc = debug_quoted(comp);
            self.0.append(qc.as_str());
            self.0.append(",");
        }
        self.0.append("\"subject\":");
        let qs = debug_quoted(c.subject.as_str());
        self.0.append(qs.as_str());
        self.0.append(",\"commit_link\":");
        let link = options.link_style.commit_link(c.hash.as_str(), options.repo.as_str());
        let ql = debug_quoted(link.as_str());
        self.0.append(ql.as_str());
        self.0.append(",\"closes\":");
        if c.closes.len() > 0 {
            self.0.append("[");
            let ghost base = self.0@;
            let ghost dv = c.closes.deep_view();
            let n = c.closes.len();
            let mut i: usize = 0;
            while i < n
                invariant
                    0 < n == dv.len(),
                    dv == c.closes.deep_view(),
                    i <= n,
                    self.0@ == base + spec_json_issues(
                        dv.take(i as int),
                        options.link_style,
                        options.repo@,
                    ),
                decreases n - i,
            {
                proof {
                    if i == 0 {
                        assert(spec_json_issues(dv.take(0), options.link_style, options.repo@)
                            =~= Seq::<char>::empty());
                    }
                }
                if i > 0 {
                    self.0.append(",");
                }
                self.0.append("{\"issue\":");
                self.0.append(c.closes[i].as_str());
                self.0.append(",\"issue_link\":");
                let ilink = options.link_style.issue_link(
                    c.closes[i].as_str(),
                    options.repo.as_str(),
                );
                let qi = debug_quoted(ilink.as_str());
                self.0.append(qi.as_str());
                self.0.append("}");
                proof {
                    assert(dv[i as int] == c.closes@[i as int]@);
                    assert(dv.take(i + 1).drop_last() =~= dv.take(i as int));
                    assert(dv.take(i + 1).last() == dv[i as int]);
                    assert(self.0@ =~= base + spec_json_issues(
                        dv.take(i + 1),
                        options.link_style,
                        options.repo@,
                    ));
                }
                i = i + 1;
            }
            proof {
                assert(dv.take(n as int) =~= dv);
            }
            self.0.append("]}");
        } else {
            self.0.append("null}");
        }
        proof {
            assert(self.0@ =~= old(self).0@ + spec_json_commit(
                comp@,
                *c,
                options.link_style,
                options.repo@,
            ));
        }
    }

    /// Writes the commits field of one section.
    pub fn write_section(&mut self, options: &Clog, section: &ComponentMap)
        requires
            entries_hashes_ok(section.entries@),
        ensures
            final(self).0@ == old(self).0@ + spec_json_section(
                section.entries@,
                options.link_style,
                options.repo@,
            ),
    {
        if section.entries.len() == 0 {
            self.0.append("\"commits\":null");
            return ;
        }
        self.0.append("\"commits\":[");
        let ghost base = self.0@;
        let ghost es = section.entries@;
        let n = section.entries.len();
        let mut k: usize = 0;
        proof {
            assert(spec_json_components(es.take(0), options.link_style, options.repo@) =~= Seq::<
                char,
            >::empty());
            assert(base + Seq::<char>::empty() =~= base);
        }
        while k < n
            invariant
                n == es.len(),
                es == section.entries@,
                entries_hashes_ok(es),
                k <= n,
                self.0@ == base + spec_json_components(
                    es.take(k as int),
                    options.link_style,
                    options.repo@,
                ),
            decreases n - k,
        {
            let name = &section.entries[k].0;
            let commits = &section.entries[k].1;
            let ghost cv = commits@;
            let ghost comp_base = self.0@;
            let m = commits.len();
            let mut x: usize = 0;
            proof {
                assert(spec_json_component(name@, cv.take(0), options.link_style, options.repo@)
                    =~= Seq::<char>::empty());
                assert(comp_base + Seq::<char>::empty() =~= comp_base);
            }
            while x < m
                invariant
                    m == cv.len(),
                    commits@ == cv,
                    cv == section.entries@[k as int].1@,
                    0 <= k < section.entries@.len(),
                    name@ == section.entries@[k as int].0@,
                    entries_hashes_ok(section.entries@),
                    x <= m,
                    self.0@ == comp_base + spec_json_component(
                        name@,
                        cv.take(x as int),
                        options.link_style,
                        options.repo@,
                    ),
                decreases m - x,
            {
                proof {
                    assert(cv[x as int] == section.entries@[k as int].1@[x as int]);
                    assert(cv[x as int].hash@.len() >= 8);
                }
                if x > 0 {
                    self.0.append(",");
                }
                self.write_commit(options, name.as_str(), &commits[x]);
                proof {
                    assert(cv.take(x + 1).drop_last() =~= cv.take(x as int));
                    assert(cv.take(x + 1).last() == cv[x as int]);
                    if x == 0 {
                        assert(spec_json_component(
                            name@,
                            cv.take(0),
                            options.link_style,
                            options.repo@,
                        ) =~= Seq::<char>::empty());
                    }
                    assert(self.0@ =~= comp_base + spec_json_component(
                        name@,
                        cv.take(x + 1),
                        options.link_style,
                        options.repo@,
                    ));
                }
                x = x + 1;
            }
            proof {
                assert(cv.take(m as int) =~= cv);
                assert(es.take(k + 1).drop_last() =~= es.take(k as int));
                assert(es.take(k + 1).last() == es[k as int]);
                assert(self.0@ =~= base + spec_json_components(
                    es.take(k + 1),
                    options.link_style,
                    options.repo@,
                ));
            }
            k = k + 1;
        }
        proof {
            assert(es.take(n as int) =~= es);
        }
        self.0.append("]");
        proof {
            assert(self.0@ =~= old(self).0@ + spec_json_section(
                section.entries@,
                options.link_style,
                options.repo@,
            ));
        }
    }

    /// Writes some contents to the buffer as they are.
    pub fn write(&mut self, content: &str)
        ensures
            final(self).0@ == old(self).0@ + content@,
    {
        self.0.append(content);
    }

    /// Writes the whole changelog object: the header and every section
    /// of the grouped commits, in stored order.
    pub fn write_changelog(&mut self, options: &Clog, sm: &SectionMap, date: &str)
        requires
            sections_hashes_ok(sm.sections@),
        ensures
            final(self).0@ == old(self).0@ + spec_json_changelog(
                options.version@,
                options.patch_ver,
                options.subtitle@,
                date@,
                sm.sections@,
                options.link_style,
                options.repo@,
            ),
    {
        self.0.append("{");
        self.write_header(options, date);
        self.0.append("\"sections\":");
        let n = sm.sections.len();
        if n == 0 {
            self.0.append("null");
            self.0.append("}");
            proof {
                assert(self.0@ =~= old(self).0@ + spec_json_changelog(
                    options.version@,
                    options.patch_ver,
                    options.subtitle@,
                    date@,
                    sm.sections@,
                    options.link_style,
                    options.repo@,
                ));
            }
            return ;
        }
        self.0.append("[");
        let ghost base = self.0@;
        let ghost ss = sm.sections@;
        let mut j: usize = 0;
        proof {
            assert(spec_json_sections_upto(ss, 0, options.link_style, options.repo@) =~= Seq::<
                char,
            >::empty());
            assert(base + Seq::<char>::empty() =~= base);
        }
        while j < n
            invariant
                n == ss.len(),
                ss == sm.sections@,
                sections_hashes_ok(ss),
                j <= n,
                self.0@ == base + spec_json_sections_upto(
                    ss,
                    j as int,
                    options.link_style,
                    options.repo@,
                ),
            decreases n - j,
        {
            self.0.append("{\"title\":");
            let qt = debug_quoted(sm.sections[j].0.as_str());
            self.0.append(qt.as_str());
            self.0.append(",");
            proof {
                assert(entries_hashes_ok(ss[j as int].1.entries@));
            }
            self.write_section(options, &sm.sections[j].1);
            self.0.append("}");
            if j + 1 < n && sm.sections[j + 1].0.unicode_len() > 0 {
                self.0.append(",");
            }
            proof {
                assert(self.0@ =~= base + spec_json_sections_upto(
                    ss,
                    j + 1,
                    options.link_style,
                    options.repo@,
                ));
            }
            j = j + 1;
        }
        self.0.append("]");
        self.0.append("}");
        proof {
            assert(self.0@ =~= old(self).0@ + spec_json_changelog(
                options.version@,
                options.patch_ver,
                options.subtitle@,
                date@,
                sm.sections@,
                options.link_style,
                options.repo@,
            ));
        }
    }
}

} // verus!
