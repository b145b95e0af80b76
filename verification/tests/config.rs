//! The registry, the configuration values, and the command-line
//! decisions.

use clog::clogconfig::ClogConfig;
use clog::fmt::ChangelogFormat;
use clog::error::CliError;
use clog::registry::CategoryRegistry;
use clog::Clog;

#[test]
fn registered_aliases_resolve_to_their_section() {
    let r = CategoryRegistry::with_defaults();
    assert_eq!(r.resolve("feat"), "Features");
    assert_eq!(r.resolve("ft"), "Features");
    assert_eq!(r.resolve("fix"), "Bug Fixes");
    assert_eq!(r.resolve("fx"), "Bug Fixes");
}

#[test]
fn unregistered_aliases_resolve_to_unknown() {
    let r = CategoryRegistry::with_defaults();
    assert_eq!(r.resolve("docs"), "Unknown");
    assert_eq!(r.resolve("unk"), "Unknown");
    assert_eq!(r.resolve(""), "Unknown");
    assert_eq!(r.resolve("Feat"), "Unknown");
}

#[test]
fn first_registration_wins() {
    let mut r = CategoryRegistry::new();
    r.register("One".to_string(), vec!["x".to_string()]);
    r.register("Two".to_string(), vec!["x".to_string()]);
    assert_eq!(r.resolve("x"), "One");
}

#[test]
fn register_replaces_aliases_of_existing_section() {
    let mut r = CategoryRegistry::with_defaults();
    r.register("Features".to_string(), vec!["added".to_string()]);
    assert_eq!(r.resolve("added"), "Features");
    assert_eq!(r.resolve("feat"), "Unknown");
    assert_eq!(r.categories.len(), 4);
}

#[test]
fn default_clog_options() {
    let c = Clog::default();
    assert_eq!(c.format, "%H%n%s%n%b%n==END==");
    assert_eq!(c.to, "HEAD");
    assert_eq!(c.from, "");
    assert_eq!(c.repo, "");
    assert_eq!(c.version, "");
    assert!(!c.patch_ver);
    assert!(c.changelog.is_none());
    assert!(c.git_dir.is_none());
    assert!(c.git_work_tree.is_none());
    assert_eq!(c.grep, "^^feat|^ft||^^fix|^fx||^|^|BREAKING'");
}

#[test]
fn section_for_goes_through_the_registry() {
    let c = Clog::default();
    assert_eq!(c.section_for("feat"), "Features");
    assert_eq!(c.section_for("nope"), "Unknown");
}

#[test]
fn apply_config_values_overrides_fields() {
    let mut c = Clog::default();
    c.apply_config_values(
        Some("https://example.com/repo".to_string()),
        Some("Big Release".to_string()),
        Some(clog::LinkStyle::Stash),
        Some("out.md".to_string()),
        vec![("Docs".to_string(), vec!["docs".to_string()])],
    );
    assert_eq!(c.repo, "https://example.com/repo");
    assert_eq!(c.subtitle, "Big Release");
    assert_eq!(c.changelog.as_deref(), Some("out.md"));
    assert_eq!(c.section_for("docs"), "Docs");
    assert_eq!(c.section_for("feat"), "Features");
}

#[test]
fn apply_config_values_keeps_fields_when_absent() {
    let mut c = Clog::default();
    c.apply_config_values(None, None, None, None, vec![]);
    assert_eq!(c.repo, "");
    assert_eq!(c.subtitle, "");
    assert!(c.changelog.is_none());
}

#[test]
fn clog_config_assembles_decoded_values() {
    let cfg = ClogConfig::assemble(
        "1.2.3".to_string(),
        "https://example.com/r".to_string(),
        "sub".to_string(),
        "abc".to_string(),
        "HEAD".to_string(),
        "changelog.md".to_string(),
        vec![("Docs".to_string(), vec!["docs".to_string()])],
    );
    assert_eq!(cfg.version, "1.2.3");
    assert_eq!(cfg.repo, "https://example.com/r");
    assert_eq!(cfg.subtitle, "sub");
    assert_eq!(cfg.from, "abc");
    assert_eq!(cfg.to, "HEAD");
    assert_eq!(cfg.changelog, "changelog.md");
    assert_eq!(cfg.format, "%H%n%s%n%b%n==END==");
    assert_eq!(cfg.section_for("docs"), "Docs");
    assert_eq!(cfg.section_for("feat"), "Features");
    assert_eq!(cfg.section_for("other"), "Unknown");
}

#[test]
fn git_dir_arguments() {
    let mut c = Clog::default();
    c.git_dir("/p/.git".to_string());
    c.git_work_tree("/p".to_string());
    assert_eq!(c.get_git_dir(), "--git-dir=/p/.git");
    assert_eq!(c.get_git_work_tree(), "--work-tree=/p");
}

#[test]
fn git_dir_alone_joins_once_more() {
    let mut c = Clog::default();
    c.git_dir("/p/.git".to_string());
    assert_eq!(c.get_git_dir(), "--git-dir=/p/.git/.git");
}

#[test]
fn work_tree_alone_uses_parent() {
    let mut c = Clog::default();
    c.git_work_tree("/home/user/code".to_string());
    assert_eq!(c.get_git_work_tree(), "--work-tree=/home/user");
}

#[test]
fn no_dirs_give_empty_arguments() {
    let c = Clog::default();
    assert_eq!(c.get_git_dir(), "");
    assert_eq!(c.get_git_work_tree(), "");
}

#[test]
fn project_dirs_from_plain_directory() {
    let (gd, wt) = clog::clog::dirs_from_project_dir("/my/project");
    assert_eq!(gd, "/my/project/.git");
    assert_eq!(wt, "/my/project");
}

#[test]
fn project_dirs_from_git_directory() {
    let (gd, wt) = clog::clog::dirs_from_project_dir("/my/project/.git");
    assert_eq!(gd, "/my/project/.git");
    assert_eq!(wt, "/my/project");
}

#[test]
fn project_dirs_do_not_match_suffix_component() {
    let (gd, wt) = clog::clog::dirs_from_project_dir("/my/proj.git");
    assert_eq!(gd, "/my/proj.git/.git");
    assert_eq!(wt, "/my/proj.git");
}

#[test]
fn parent_of_path() {
    assert_eq!(clog::clog::parent_dir("/a/b"), "/a");
    assert_eq!(clog::clog::parent_dir("/a"), "/");
    assert_eq!(clog::clog::parent_dir("plain"), "");
}

#[test]
fn join_of_path() {
    assert_eq!(clog::clog::join_path("a", ".git"), "a/.git");
    assert_eq!(clog::clog::join_path("a/", ".git"), "a/.git");
    assert_eq!(clog::clog::join_path("", ".git"), ".git");
}

#[test]
fn version_prefix_stripping() {
    let (had, rest) = clog::cli::strip_v_prefix("v1.2.3");
    assert!(had);
    assert_eq!(rest, "1.2.3");
    let (had2, rest2) = clog::cli::strip_v_prefix("1.2.3");
    assert!(!had2);
    assert_eq!(rest2, "1.2.3");
    let (had3, rest3) = clog::cli::strip_v_prefix("Vv2");
    assert!(had3);
    assert_eq!(rest3, "2");
}

#[test]
fn version_bumping() {
    assert_eq!(clog::cli::bump_version_numbers(true, false, false, 1, 2, 3), (2, 0, 0));
    assert_eq!(clog::cli::bump_version_numbers(false, true, false, 1, 2, 3), (1, 3, 0));
    assert_eq!(clog::cli::bump_version_numbers(false, false, true, 1, 2, 3), (1, 2, 4));
    assert_eq!(clog::cli::bump_version_numbers(true, true, true, 1, 2, 3), (2, 0, 0));
}

#[test]
fn cli_args_apply_overrides() {
    let args = clog::cli::Args {
        repository: Some("https://example.com/x".to_string()),
        from: Some("abcd".to_string()),
        format: clog::cli::OutFormat::Markdown,
        major: false,
        git_dir: None,
        work_tree: None,
        minor: false,
        patch: false,
        subtitle: Some("hello".to_string()),
        to: "tail".to_string(),
        outfile: Some("o.md".to_string()),
        config: ".clog.toml".to_string(),
        infile: None,
        setversion: None,
        from_latest_tag: false,
        link_style: clog::cli::LinkStyle::Stash,
        changelog: None,
    };
    let mut c = Clog::default();
    args.apply_to(&mut c);
    assert_eq!(c.repo, "https://example.com/x");
    assert_eq!(c.from, "abcd");
    assert_eq!(c.subtitle, "hello");
    assert_eq!(c.to, "tail");
    assert_eq!(c.changelog.as_deref(), Some("o.md"));
    assert!(matches!(c.link_style, clog::LinkStyle::Stash));
}

#[test]
fn cli_changelog_wins_over_outfile() {
    let args = clog::cli::Args {
        repository: None,
        from: None,
        format: clog::cli::OutFormat::Json,
        major: false,
        git_dir: None,
        work_tree: None,
        minor: false,
        patch: false,
        subtitle: None,
        to: "HEAD".to_string(),
        outfile: Some("o.md".to_string()),
        config: ".clog.toml".to_string(),
        infile: None,
        setversion: None,
        from_latest_tag: false,
        link_style: clog::cli::LinkStyle::Github,
        changelog: Some("c.md".to_string()),
    };
    let mut c = Clog::default();
    args.apply_to(&mut c);
    assert_eq!(c.changelog.as_deref(), Some("c.md"));
}

#[test]
fn errors_are_fatal_with_messages() {
    let e = CliError::Unknown;
    assert!(e.is_fatal());
    assert_eq!(
        e.message(),
        "An unknown fatal error has occurred, please consider filing a bug-report!"
    );
    let g = CliError::Generic("boom".to_string());
    assert!(g.is_fatal());
    assert_eq!(g.message(), "boom");
    let s = CliError::Semver("bad".to_string(), "fix your version".to_string());
    assert_eq!(s.message(), "fix your version");
}

#[test]
fn out_format_converts() {
    let m: ChangelogFormat = clog::cli::OutFormat::Markdown.into();
    assert!(matches!(m, ChangelogFormat::Markdown));
    let j: ChangelogFormat = clog::cli::OutFormat::Json.into();
    assert!(matches!(j, ChangelogFormat::Json));
}
