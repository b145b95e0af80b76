//! Parsing: the header grammar, the trailer grammar, and the fallback
//! behavior on malformed input.

use clog::Clog;

#[test]
fn header_with_component() {
    let c = Clog::default();
    let commit = c.parse_raw_commit("abc12345\nfeat(parser): support nested components");
    assert_eq!(commit.commit_type, "Features");
    assert_eq!(commit.component, "parser");
    assert_eq!(commit.subject, " support nested components");
    assert_eq!(commit.hash, "abc12345");
    assert!(commit.closes.is_empty());
    assert!(commit.breaks.is_empty());
}

#[test]
fn header_without_component() {
    let c = Clog::default();
    let commit = c.parse_raw_commit("abc12345\nfix: repair the widget");
    assert_eq!(commit.commit_type, "Bug Fixes");
    assert_eq!(commit.component, "");
    assert_eq!(commit.subject, " repair the widget");
}

#[test]
fn header_with_empty_component() {
    let c = Clog::default();
    let commit = c.parse_raw_commit("abc12345\nft(): zap");
    assert_eq!(commit.commit_type, "Features");
    assert_eq!(commit.component, "");
    assert_eq!(commit.subject, " zap");
}

#[test]
fn no_header_falls_back() {
    let c = Clog::default();
    let commit = c.parse_raw_commit("abc12345\nrefactor internals");
    assert_eq!(commit.commit_type, "Unknown");
    assert_eq!(commit.component, "");
    assert_eq!(commit.subject, "");
}

#[test]
fn unregistered_type_is_unknown() {
    let c = Clog::default();
    let commit = c.parse_raw_commit("abc12345\nchore(deps): bump");
    assert_eq!(commit.commit_type, "Unknown");
    assert_eq!(commit.component, "deps");
    assert_eq!(commit.subject, " bump");
}

#[test]
fn colon_inside_component_is_no_header() {
    let c = Clog::default();
    let commit = c.parse_raw_commit("abc12345\nfeat(a:b): x");
    assert_eq!(commit.commit_type, "Unknown");
    assert_eq!(commit.subject, "");
}

#[test]
fn empty_block_parses_totally() {
    let c = Clog::default();
    let commit = c.parse_raw_commit("");
    assert_eq!(commit.hash, "");
    assert_eq!(commit.subject, "");
    assert_eq!(commit.component, "");
    assert_eq!(commit.commit_type, "Unknown");
    assert!(commit.closes.is_empty());
}

#[test]
fn hash_only_block_falls_back() {
    let c = Clog::default();
    let commit = c.parse_raw_commit("abc12345");
    assert_eq!(commit.hash, "abc12345");
    assert_eq!(commit.subject, "");
    assert_eq!(commit.component, "");
    assert_eq!(commit.commit_type, "Unknown");
}

#[test]
fn no_newline_junk_parses_totally() {
    let c = Clog::default();
    let commit = c.parse_raw_commit("complete junk with no structure at all");
    assert_eq!(commit.hash, "complete junk with no structure at all");
    assert_eq!(commit.commit_type, "Unknown");
    assert!(!commit.commit_type.is_empty());
}

#[test]
fn closes_literal_scenario() {
    let c = Clog::default();
    let commit = c.parse_raw_commit(
        "abc12345\nfeat(x): subject\nCloses #12, #34\nunrelated text\nFixes #56",
    );
    assert_eq!(commit.closes, vec!["12", "34", "56"]);
}

#[test]
fn closes_resolves_keyword() {
    let c = Clog::default();
    let commit = c.parse_raw_commit("abc12345\nfix: y\nResolves #7");
    assert_eq!(commit.closes, vec!["7"]);
}

#[test]
fn closes_duplicates_are_kept() {
    let c = Clog::default();
    let commit = c.parse_raw_commit("abc12345\nfix: y\nCloses #7\nCloses #7");
    assert_eq!(commit.closes, vec!["7", "7"]);
}

#[test]
fn closes_keyword_needs_issue_number() {
    let c = Clog::default();
    let commit = c.parse_raw_commit("abc12345\nfix: y\nCloses nothing\nFixes #1 maybe");
    assert_eq!(commit.closes, vec!["1"]);
}

#[test]
fn closes_takes_first_trailer_per_line() {
    let c = Clog::default();
    let commit = c.parse_raw_commit("abc12345\nfix: y\nCloses #1 and Fixes #2");
    assert_eq!(commit.closes, vec!["1"]);
}

#[test]
fn closes_trailer_found_mid_line() {
    let c = Clog::default();
    let commit = c.parse_raw_commit("abc12345\nfix: y\nthis change Closes #9");
    assert_eq!(commit.closes, vec!["9"]);
}

#[test]
fn commits_from_log_splits_and_filters() {
    let c = Clog::default();
    let log = "abc12345\nfeat(a): one\n\n==END==\ndef67890\nnot conventional\n\n==END==\n9998887766\nfx(b): two\nCloses #3";
    let commits = c.commits_from_log(log);
    assert_eq!(commits.len(), 2);
    assert_eq!(commits[0].hash, "abc12345");
    assert_eq!(commits[0].commit_type, "Features");
    assert_eq!(commits[1].hash, "9998887766");
    assert_eq!(commits[1].commit_type, "Bug Fixes");
    assert_eq!(commits[1].closes, vec!["3"]);
}

#[test]
fn empty_log_yields_no_commits() {
    let c = Clog::default();
    let commits = c.commits_from_log("");
    assert!(commits.is_empty());
}
