//! Rendering: link formatting and the Markdown and JSON writers.

use clog::fmt::JsonWriter;
use clog::fmt::MarkdownWriter;
use clog::writer::Markdown;
use clog::writer::Writer;
use clog::git::Commit;
use clog::Clog;
use clog::LinkStyle;
use clog::SectionMap;

fn commit(hash: &str, ty: &str, comp: &str, subject: &str, closes: Vec<&str>) -> Commit {
    Commit {
        hash: hash.to_string(),
        subject: subject.to_string(),
        component: comp.to_string(),
        closes: closes.into_iter().map(|s| s.to_string()).collect(),
        breaks: vec![],
        commit_type: ty.to_string(),
    }
}

#[test]
fn issue_links_by_style() {
    assert_eq!(LinkStyle::Github.issue_link("141", ""), "(#141)");
    assert_eq!(
        LinkStyle::Github.issue_link("141", "https://example.com/r"),
        "[#141](https://example.com/r/issues/141)"
    );
    assert_eq!(
        LinkStyle::Gitlab.issue_link("9", "https://example.com/r"),
        "[#9](https://example.com/r/issues/9)"
    );
    assert_eq!(LinkStyle::Stash.issue_link("9", "https://example.com/r"), "(#9)");
    assert_eq!(LinkStyle::Cgit.issue_link("9", "https://example.com/r"), "(#9)");
}

#[test]
fn commit_links_by_style() {
    let hash = "0123456789abcdef0123";
    assert_eq!(LinkStyle::Github.commit_link(hash, ""), "(01234567)");
    assert_eq!(
        LinkStyle::Github.commit_link(hash, "https://example.com/r"),
        "[01234567](https://example.com/r/commit/0123456789abcdef0123)"
    );
    assert_eq!(
        LinkStyle::Stash.commit_link(hash, "https://example.com/r"),
        "[01234567](https://example.com/r/commits/0123456789abcdef0123)"
    );
    assert_eq!(
        LinkStyle::Cgit.commit_link(hash, "https://example.com/r"),
        "[01234567](https://example.com/r/commit/?id=0123456789abcdef0123)"
    );
}

#[test]
fn markdown_header_without_subtitle() {
    let c = Clog::default();
    let mut c = c;
    c.version("0.1.0".to_string());
    let mut w = MarkdownWriter::new();
    w.write_header(&c, "2024-01-02");
    assert_eq!(w.0, "<a name=\"0.1.0\"></a>\n## 0.1.0 (2024-01-02)\n\n");
}

#[test]
fn markdown_header_patch_with_subtitle() {
    let mut c = Clog::default();
    c.version("0.1.1".to_string());
    c.subtitle("Hotfix".to_string());
    c.patch_ver(true);
    let mut w = MarkdownWriter::new();
    w.write_header(&c, "2024-01-02");
    assert_eq!(w.0, "<a name=\"0.1.1\"></a>\n### 0.1.1 Hotfix (2024-01-02)\n\n");
}

#[test]
fn markdown_section_single_commit_no_component() {
    let mut c = Clog::default();
    c.repository("https://example.com/r".to_string());
    let sm = SectionMap::from_commits(vec![commit(
        "0123456789abcdef",
        "Features",
        "",
        "add things",
        vec![],
    )]);
    let mut w = MarkdownWriter::new();
    w.write_section(&c, "Features", &sm.sections[0].1);
    assert_eq!(
        w.0,
        "\n#### Features\n\n*  add things ([01234567]([01234567](https://example.com/r/commit/0123456789abcdef)))\n"
    );
}

#[test]
fn markdown_section_nested_component_with_closes() {
    let c = Clog::default();
    let sm = SectionMap::from_commits(vec![
        commit("0123456789abcdef", "Features", "core", "one", vec!["3"]),
        commit("89abcdef01234567", "Features", "core", "two", vec![]),
    ]);
    let mut w = MarkdownWriter::new();
    w.write_section(&c, "Features", &sm.sections[0].1);
    assert_eq!(
        w.0,
        "\n#### Features\n\n* **core**\n  * one ([01234567]((01234567)), closes [#3]((#3)))\n  * two ([89abcdef]((89abcdef)))\n"
    );
}

#[test]
fn markdown_empty_section_renders_nothing() {
    let c = Clog::default();
    let cm = clog::sectionmap::ComponentMap { entries: vec![] };
    let mut w = MarkdownWriter::new();
    w.write_section(&c, "Features", &cm);
    assert_eq!(w.0, "");
}

#[test]
fn markdown_write_appends_after_blank_lines() {
    let mut w = MarkdownWriter::new();
    w.write("old content");
    assert_eq!(w.0, "\n\n\nold content");
}

#[test]
fn markdown_changelog_end_to_end() {
    let mut c = Clog::default();
    c.version("1.0.0".to_string());
    let sm = SectionMap::from_commits(vec![commit(
        "0123456789abcdef",
        "Features",
        "",
        "ship it",
        vec![],
    )]);
    let mut w = MarkdownWriter::new();
    w.write_changelog(&c, &sm, "2024-06-30");
    assert_eq!(
        w.0,
        "<a name=\"1.0.0\"></a>\n## 1.0.0 (2024-06-30)\n\n\n#### Features\n\n*  ship it ([01234567]((01234567)))\n"
    );
}

#[test]
fn json_header_quotes_strings() {
    let mut c = Clog::default();
    c.version("1.0".to_string());
    let mut w = JsonWriter::new();
    w.write_header(&c, "2024-01-02");
    assert_eq!(
        w.0,
        "\"header\":{\"version\":\"1.0\",\"patch_version\":false,\"subtitle\":null,\"date\":\"2024-01-02\"},"
    );
}

#[test]
fn json_header_with_subtitle() {
    let mut c = Clog::default();
    c.version("2.0".to_string());
    c.subtitle("Big \"one\"".to_string());
    c.patch_ver(true);
    let mut w = JsonWriter::new();
    w.write_header(&c, "2024-01-02");
    assert_eq!(
        w.0,
        "\"header\":{\"version\":\"2.0\",\"patch_version\":true,\"subtitle\":\"Big \\\"one\\\"\",\"date\":\"2024-01-02\"},"
    );
}

#[test]
fn json_empty_section_is_null() {
    let c = Clog::default();
    let cm = clog::sectionmap::ComponentMap { entries: vec![] };
    let mut w = JsonWriter::new();
    w.write_section(&c, &cm);
    assert_eq!(w.0, "\"commits\":null");
}

#[test]
fn json_section_with_commit_and_closes() {
    let c = Clog::default();
    let sm = SectionMap::from_commits(vec![commit(
        "0123456789abcdef",
        "Features",
        "core",
        "one",
        vec!["3"],
    )]);
    let mut w = JsonWriter::new();
    w.write_section(&c, &sm.sections[0].1);
    assert_eq!(
        w.0,
        "\"commits\":[{\"component\":\"core\",\"subject\":\"one\",\"commit_link\":\"(01234567)\",\"closes\":[{\"issue\":3,\"issue_link\":\"(#3)\"}]}]"
    );
}

#[test]
fn json_changelog_without_sections() {
    let mut c = Clog::default();
    c.version("1.0".to_string());
    let sm = SectionMap::from_commits(vec![]);
    let mut w = JsonWriter::new();
    w.write_changelog(&c, &sm, "2024-01-02");
    assert_eq!(
        w.0,
        "{\"header\":{\"version\":\"1.0\",\"patch_version\":false,\"subtitle\":null,\"date\":\"2024-01-02\"},\"sections\":null}"
    );
}

#[test]
fn json_changelog_with_one_section() {
    let mut c = Clog::default();
    c.version("1.0".to_string());
    let sm = SectionMap::from_commits(vec![commit(
        "0123456789abcdef",
        "Features",
        "",
        "one",
        vec![],
    )]);
    let mut w = JsonWriter::new();
    w.write_changelog(&c, &sm, "2024-01-02");
    assert_eq!(
        w.0,
        "{\"header\":{\"version\":\"1.0\",\"patch_version\":false,\"subtitle\":null,\"date\":\"2024-01-02\"},\"sections\":[{\"title\":\"Features\",\"commits\":[{\"component\":null,\"subject\":\"one\",\"commit_link\":\"(01234567)\",\"closes\":null}]}]}"
    );
}

#[test]
fn json_write_appends_plainly() {
    let mut w = JsonWriter::new();
    w.write("tail");
    assert_eq!(w.0, "tail");
}

#[test]
fn plain_markdown_writer_uses_bare_commit_links() {
    let mut c = Clog::default();
    c.version("0.2.0".to_string());
    let sm = SectionMap::from_commits(vec![commit(
        "0123456789abcdef",
        "Features",
        "",
        "add things",
        vec!["3"],
    )]);
    let mut w = Markdown::new(&c);
    w.write_header("2024-01-02");
    w.write_section("Features", &sm.sections[0].1);
    w.write("old");
    assert_eq!(
        w.into_string(),
        "<a name=\"0.2.0\"></a>\n## 0.2.0 (2024-01-02)\n\n\n#### Features\n\n*  add things ((01234567), closes (#3))\n\n\n\nold"
    );
}
