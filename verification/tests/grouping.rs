//! Grouping and filtering: section maps, bucket order, the element
//! count, and filter idempotence.

use clog::common::CommitType;
use clog::common::LogEntry;
use clog::git::filter_commits;
use clog::git::Commit;
use clog::section_builder::build_sections;
use clog::SectionMap;

fn commit(hash: &str, ty: &str, comp: &str, subject: &str) -> Commit {
    Commit {
        hash: hash.to_string(),
        subject: subject.to_string(),
        component: comp.to_string(),
        closes: vec![],
        breaks: vec![],
        commit_type: ty.to_string(),
    }
}

fn total_count(sm: &SectionMap) -> usize {
    let mut n = 0;
    for (_, cm) in sm.sections.iter() {
        for (_, bucket) in cm.entries.iter() {
            n += bucket.len();
        }
    }
    n
}

#[test]
fn empty_input_yields_empty_map() {
    let sm = SectionMap::from_commits(vec![]);
    assert_eq!(sm.sections.len(), 0);
}

#[test]
fn grouping_preserves_order_in_bucket() {
    let commits = vec![
        commit("aaaa000000", "Features", "x", "one"),
        commit("bbbb111111", "Features", "x", "two"),
        commit("cccc222222", "Features", "x", "three"),
    ];
    let sm = SectionMap::from_commits(commits);
    assert_eq!(sm.sections.len(), 1);
    assert_eq!(sm.sections[0].0, "Features");
    let cm = &sm.sections[0].1;
    assert_eq!(cm.entries.len(), 1);
    assert_eq!(cm.entries[0].0, "x");
    let subjects: Vec<&str> = cm.entries[0].1.iter().map(|c| c.subject.as_str()).collect();
    assert_eq!(subjects, vec!["one", "two", "three"]);
}

#[test]
fn grouping_is_a_bijection_on_elements() {
    let commits = vec![
        commit("aaaa000000", "Features", "x", "one"),
        commit("bbbb111111", "Bug Fixes", "", "two"),
        commit("cccc222222", "Features", "y", "three"),
        commit("dddd333333", "Features", "x", "four"),
        commit("eeee444444", "Bug Fixes", "x", "five"),
    ];
    let n = commits.len();
    let sm = SectionMap::from_commits(commits);
    assert_eq!(total_count(&sm), n);
    assert_eq!(sm.sections.len(), 2);
}

#[test]
fn sections_appear_in_first_seen_order() {
    let commits = vec![
        commit("aaaa000000", "Bug Fixes", "", "one"),
        commit("bbbb111111", "Features", "", "two"),
        commit("cccc222222", "Bug Fixes", "", "three"),
    ];
    let sm = SectionMap::from_commits(commits);
    let names: Vec<&str> = sm.sections.iter().map(|s| s.0.as_str()).collect();
    assert_eq!(names, vec!["Bug Fixes", "Features"]);
}

#[test]
fn components_are_sorted_with_empty_first() {
    let commits = vec![
        commit("aaaa000000", "Features", "zeta", "one"),
        commit("bbbb111111", "Features", "", "two"),
        commit("cccc222222", "Features", "alpha", "three"),
    ];
    let sm = SectionMap::from_commits(commits);
    let comps: Vec<&str> = sm.sections[0].1.entries.iter().map(|e| e.0.as_str()).collect();
    assert_eq!(comps, vec!["", "alpha", "zeta"]);
}

#[test]
fn filter_drops_unknown_and_keeps_order() {
    let commits = vec![
        commit("aaaa000000", "Features", "", "one"),
        commit("bbbb111111", "Unknown", "", "two"),
        commit("cccc222222", "Bug Fixes", "", "three"),
    ];
    let kept = filter_commits(commits);
    let subjects: Vec<&str> = kept.iter().map(|c| c.subject.as_str()).collect();
    assert_eq!(subjects, vec!["one", "three"]);
}

#[test]
fn filter_is_idempotent() {
    let commits = vec![
        commit("aaaa000000", "Features", "", "one"),
        commit("bbbb111111", "Unknown", "", "two"),
        commit("cccc222222", "Bug Fixes", "", "three"),
        commit("dddd333333", "Unknown", "", "four"),
    ];
    let once = filter_commits(commits);
    let snapshot: Vec<(String, String)> = once
        .iter()
        .map(|c| (c.subject.clone(), c.commit_type.clone()))
        .collect();
    let twice = filter_commits(once);
    let snapshot2: Vec<(String, String)> = twice
        .iter()
        .map(|c| (c.subject.clone(), c.commit_type.clone()))
        .collect();
    assert_eq!(snapshot, snapshot2);
}

#[test]
fn display_order_puts_preferred_sections_first() {
    let commits = vec![
        commit("aaaa000000", "Custom", "", "one"),
        commit("bbbb111111", "Bug Fixes", "", "two"),
        commit("cccc222222", "Features", "", "three"),
    ];
    let sm = SectionMap::from_commits(commits);
    let preferred = SectionMap::default_display_order();
    let ordered = sm.ordered_for_display(&preferred);
    let names: Vec<&str> = ordered.sections.iter().map(|s| s.0.as_str()).collect();
    assert_eq!(names, vec!["Features", "Bug Fixes", "Custom"]);
}

#[test]
fn pipeline_groups_parsed_commits() {
    let c = clog::Clog::default();
    let log = "aaaa000000\nfeat(parser): one\n\n==END==\nbbbb111111\nfix: two\n\n==END==\ncccc222222\nfeat(parser): three";
    let commits = c.commits_from_log(log);
    let sm = SectionMap::from_commits(commits);
    assert_eq!(sm.sections.len(), 2);
    assert_eq!(sm.sections[0].0, "Features");
    let parser_bucket: Vec<&str> = sm.sections[0].1.entries[0]
        .1
        .iter()
        .map(|c| c.subject.as_str())
        .collect();
    assert_eq!(parser_bucket, vec![" one", " three"]);
}

#[test]
fn build_sections_groups_by_type_and_component() {
    let entries = vec![
        LogEntry {
            hash: "aaaa000000".to_string(),
            subject: "one".to_string(),
            component: "x".to_string(),
            closes: vec![],
            breaks: vec![],
            commit_type: CommitType::Feature,
        },
        LogEntry {
            hash: "bbbb111111".to_string(),
            subject: "two".to_string(),
            component: "x".to_string(),
            closes: vec![],
            breaks: vec![],
            commit_type: CommitType::Unknown,
        },
        LogEntry {
            hash: "cccc222222".to_string(),
            subject: "three".to_string(),
            component: "x".to_string(),
            closes: vec![],
            breaks: vec![],
            commit_type: CommitType::Feature,
        },
        LogEntry {
            hash: "dddd333333".to_string(),
            subject: "four".to_string(),
            component: "".to_string(),
            closes: vec![],
            breaks: vec![],
            commit_type: CommitType::Fix,
        },
    ];
    let sm = build_sections(entries);
    assert_eq!(sm.features.len(), 1);
    assert_eq!(sm.features[0].0, "x");
    let subjects: Vec<&str> = sm.features[0].1.iter().map(|e| e.subject.as_str()).collect();
    assert_eq!(subjects, vec!["one", "three"]);
    assert_eq!(sm.fixes.len(), 1);
    assert_eq!(sm.fixes[0].0, "");
    assert_eq!(sm.breaks.len(), 0);
}

#[test]
fn commit_type_aliases() {
    assert_eq!(CommitType::from_alias("feat"), CommitType::Feature);
    assert_eq!(CommitType::from_alias("ft"), CommitType::Feature);
    assert_eq!(CommitType::from_alias("fix"), CommitType::Fix);
    assert_eq!(CommitType::from_alias("fx"), CommitType::Fix);
    assert_eq!(CommitType::from_alias("docs"), CommitType::Unknown);
}
