use tgit::model::{Author, Commit};
use tgit::remote::{commit_base_url, get_host_scope_repo, parse_git_url};
use tgit::render::{
    get_changelog_string, known_type, mentions_issue, qualifies, render_by, render_commit_line,
    render_section,
};

const BASE: &str = "https://github.com/o/r/commit";
const H1: &str = "1111111111111111111111111111111111111111";
const H2: &str = "2222222222222222222222222222222222222222";
const H3: &str = "3333333333333333333333333333333333333333";

fn person(name: &str, mail: &str, username: &str) -> Author {
    Author::new(name.to_string(), mail.to_string(), username.to_string())
}

fn entry(
    hash: &str,
    type_: &str,
    scope: &str,
    description: &str,
    breaking: bool,
    authors: Vec<Author>,
) -> Commit {
    Commit::new(
        hash.to_string(),
        type_.to_string(),
        scope.to_string(),
        description.to_string(),
        breaking,
        authors,
    )
}

#[test]
fn attribution_forms() {
    assert_eq!(render_by(&vec![]), "");
    assert_eq!(render_by(&vec![person("X", "x@x", "")]), "by X");
    assert_eq!(render_by(&vec![person("X", "x@x", ""), person("Y", "y@y", "why")]), "by X and @why");
    assert_eq!(
        render_by(&vec![person("X", "x@x", ""), person("Y", "y@y", ""), person("Z", "z@z", "")]),
        "by X, Y, and Z"
    );
    assert_eq!(
        render_by(&vec![
            person("W", "w@w", "w"),
            person("X", "x@x", ""),
            person("Y", "y@y", ""),
            person("Z", "z@z", "zed")
        ]),
        "by @w, X, Y, and @zed"
    );
}

#[test]
fn issue_references() {
    assert!(mentions_issue("fix thing (#12)"));
    assert!(mentions_issue("#1"));
    assert!(mentions_issue("see ##7"));
    assert!(!mentions_issue("fix thing"));
    assert!(!mentions_issue("number # 12"));
    assert!(!mentions_issue("#"));
    assert!(!mentions_issue("trailing #"));
    assert!(!mentions_issue("#abc"));
    assert!(!mentions_issue(""));
}

#[test]
fn commit_lines() {
    let c = entry(H1, "feat", "api", "add X", false, vec![person("Alice", "a@a", "alice")]);
    assert_eq!(
        render_commit_line(&c, BASE),
        "- **api** add X ([1111111](https://github.com/o/r/commit/1111111111111111111111111111111111111111)) - by @alice\n"
    );
    assert_eq!(render_commit_line(&c, ""), "- **api** add X1111111 - by @alice\n");
    let d = entry(H2, "fix", "", "close #12", false, vec![person("Bob", "b@b", "")]);
    assert_eq!(render_commit_line(&d, BASE), "- close #12 - by Bob\n");
    assert_eq!(render_commit_line(&d, ""), "- close #12 - by Bob\n");
    let e = entry("abc", "fix", "", "short id", false, vec![person("Bob", "b@b", "")]);
    assert_eq!(render_commit_line(&e, ""), "- short idabc - by Bob\n");
}

#[test]
fn known_types() {
    for t in ["feat", "fix", "docs", "style", "refactor", "perf", "test", "build", "ci", "chore", "revert"] {
        assert!(known_type(t));
    }
    assert!(!known_type("other"));
    assert!(!known_type("wip"));
    assert!(!known_type(""));
    assert!(!known_type("Feat"));
}

#[test]
fn sections_list_the_right_commits() {
    let a = vec![person("A", "a@a", "")];
    let feat = entry(H1, "feat", "", "f", false, a.clone());
    let feat_breaking = entry(H1, "feat", "", "f", true, a.clone());
    let fix_breaking = entry(H1, "fix", "", "f", true, a.clone());
    let wip = entry(H1, "wip", "", "f", false, a.clone());
    let other = entry(H1, "other", "", "f", false, a.clone());
    assert!(!qualifies(&feat, 0));
    assert!(qualifies(&feat, 1));
    assert!(qualifies(&feat_breaking, 0));
    assert!(!qualifies(&feat_breaking, 1));
    assert!(qualifies(&fix_breaking, 0));
    assert!(qualifies(&fix_breaking, 2));
    assert!(!qualifies(&fix_breaking, 1));
    assert!(qualifies(&wip, 12));
    assert!(qualifies(&other, 12));
    assert!(!qualifies(&feat, 12));
    assert!(!qualifies(&wip, 0));
    for k in 1..12 {
        assert!(!qualifies(&wip, k));
    }
}

#[test]
fn empty_section_is_not_written() {
    let commits = vec![entry(H1, "feat", "", "f", false, vec![person("A", "a@a", "")])];
    assert_eq!(render_section(&commits, 2, BASE), "");
    assert_eq!(render_section(&commits, 0, BASE), "");
    assert_eq!(render_section(&commits, 1, ""), "\n### :sparkles: Features\n\n- f1111111 - by A\n");
}

#[test]
fn changelog_of_a_segment() {
    let commits = vec![
        entry(H1, "feat", "api", "add X", false, vec![person("Alice", "alice@example.com", "alice")]),
        entry(
            H2,
            "fix",
            "",
            "close #12",
            false,
            vec![person("Bob", "bob@example.com", ""), person("Carol", "carol@example.com", "carol")],
        ),
        entry(
            H3,
            "docs",
            "",
            "readme",
            false,
            vec![person("A", "a@a", ""), person("B", "b@b", ""), person("C", "c@c", "")],
        ),
    ];
    let contributors =
        vec![person("Alice", "alice@example.com", "alice"), person("Bob", "bob@example.com", "")];
    let text = get_changelog_string(
        BASE.to_string(),
        "v1.0.0".to_string(),
        "v1.1.0".to_string(),
        &commits,
        &contributors,
    );
    let expected = String::from("## v1.1.0\n\n")
        + "[compare changes](https://github.com/o/r/commit/compare/v1.0.0...v1.1.0)\n"
        + "\n### :sparkles: Features\n\n"
        + "- **api** add X ([1111111](https://github.com/o/r/commit/1111111111111111111111111111111111111111)) - by @alice\n"
        + "\n### :bug: Bug Fixes\n\n"
        + "- close #12 - by Bob and @carol\n"
        + "\n### :memo: Documentation\n\n"
        + "- readme ([3333333](https://github.com/o/r/commit/3333333333333333333333333333333333333333)) - by A, B, and C\n"
        + "\n### :busts_in_silhouette: Contributors\n\n"
        + "- Alice (@alice)\n"
        + "- Bob <bob@example.com>\n";
    assert_eq!(text, expected);
}

#[test]
fn changelog_without_commits_or_base() {
    let text = get_changelog_string(
        String::new(),
        "abcdef0".to_string(),
        "v0.0.1".to_string(),
        &Vec::new(),
        &Vec::new(),
    );
    assert_eq!(text, "## v0.0.1\n\n\n### :busts_in_silhouette: Contributors\n\n");
}

#[test]
fn changelog_sections_come_in_fixed_order() {
    let a = vec![person("A", "a@a", "")];
    let commits = vec![
        entry(H1, "wip", "", "w", false, a.clone()),
        entry(H1, "revert", "", "r", false, a.clone()),
        entry(H1, "chore", "", "c", false, a.clone()),
        entry(H1, "ci", "", "i", false, a.clone()),
        entry(H1, "build", "", "b", false, a.clone()),
        entry(H1, "test", "", "t", false, a.clone()),
        entry(H1, "perf", "", "p", false, a.clone()),
        entry(H1, "refactor", "", "e", false, a.clone()),
        entry(H1, "style", "", "s", false, a.clone()),
        entry(H1, "docs", "", "d", false, a.clone()),
        entry(H1, "fix", "", "x", false, a.clone()),
        entry(H1, "feat", "", "f", false, a.clone()),
        entry(H1, "feat", "", "g", true, a.clone()),
    ];
    let text = get_changelog_string(String::new(), "a".to_string(), "b".to_string(), &commits, &a);
    let titles = [
        ":sparkles: Breaking Changes",
        ":sparkles: Features",
        ":bug: Bug Fixes",
        ":memo: Documentation",
        ":art: Styles",
        ":recycle: Code Refactoring",
        ":zap: Performance Improvements",
        ":rotating_light: Tests",
        ":hammer: Build",
        ":green_heart: Continuous Integration",
        ":wrench: Chores",
        ":rewind: Reverts",
        ":package: Others",
        ":busts_in_silhouette: Contributors",
    ];
    let mut at = 0;
    for title in titles {
        let heading = format!("\n### {}\n\n", title);
        let found = text[at..].find(&heading);
        assert!(found.is_some());
        at += found.unwrap() + heading.len();
    }
    assert!(text.contains("### :sparkles: Breaking Changes\n\n- g1111111 - by A\n"));
    assert!(text.contains("### :sparkles: Features\n\n- f1111111 - by A\n"));
    assert!(text.contains("### :package: Others\n\n- w1111111 - by A\n"));
}

#[test]
fn remote_addresses() {
    let parts = |h: &str, s: &str, r: &str| Some((h.to_string(), s.to_string(), r.to_string()));
    assert_eq!(parse_git_url("git@github.com:owner/repo.git"), parts("github.com", "owner", "repo"));
    assert_eq!(parse_git_url("https://github.com/owner/repo"), parts("github.com", "owner", "repo"));
    assert_eq!(
        parse_git_url("https://github.com/owner/repo.git"),
        parts("github.com", "owner", "repo.git")
    );
    assert_eq!(parse_git_url("http://host/a/b/c"), parts("host", "a", "b/c"));
    assert_eq!(parse_git_url("git@host:a/b/c.git"), parts("host", "a", "b/c"));
    assert_eq!(parse_git_url("git@host:a/bXgit"), parts("host", "a", "b"));
}

#[test]
fn remote_addresses_that_cannot_be_read() {
    assert_eq!(parse_git_url(""), None);
    assert_eq!(parse_git_url("ftp://host/a/b"), None);
    assert_eq!(parse_git_url("git@github.com:owner/repo"), None);
    assert_eq!(parse_git_url("git@github.com:owner/.git"), None);
    assert_eq!(parse_git_url("git@github.com:/repo.git"), None);
    assert_eq!(parse_git_url("git@:owner/repo.git"), None);
    assert_eq!(parse_git_url("https://github.com/owner"), None);
    assert_eq!(parse_git_url("https://github.com/owner/"), None);
    assert_eq!(parse_git_url("https:///owner/repo"), None);
    assert_eq!(parse_git_url("https://host//repo"), None);
    assert_eq!(parse_git_url("https://host/owner/re\npo"), None);
    assert_eq!(parse_git_url("/local/path/repo"), None);
}

#[test]
fn base_url_of_a_remote() {
    let some = get_host_scope_repo(&Some("git@github.com:o/r.git".to_string()));
    assert_eq!(some, Some(("github.com".to_string(), "o".to_string(), "r".to_string())));
    assert_eq!(commit_base_url(&some), "https://github.com/o/r/commit");
    assert_eq!(get_host_scope_repo(&None), None);
    assert_eq!(get_host_scope_repo(&Some("nonsense".to_string())), None);
    assert_eq!(commit_base_url(&None), "");
}
