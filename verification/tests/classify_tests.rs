use tgit::classify::{
    class_has, first_line, get_commit, parse_author_from_body, parse_author_from_line,
    parse_first_line, scan, CharClass,
};
use tgit::model::{Author, Commit};

fn author(name: &str, mail: &str, username: &str) -> Author {
    Author::new(name.to_string(), mail.to_string(), username.to_string())
}

fn written(type_: &str, scope: &str, breaking: bool, description: &str) -> String {
    let mut s = String::from(type_);
    if !scope.is_empty() {
        s.push('(');
        s.push_str(scope);
        s.push(')');
    }
    if breaking {
        s.push('!');
    }
    s.push_str(": ");
    s.push_str(description);
    s
}

#[test]
fn subject_with_scope() {
    let p = parse_first_line("feat(api): add X").unwrap();
    assert_eq!(p.emoji, "");
    assert_eq!(p.type_, "feat");
    assert_eq!(p.scope, "api");
    assert_eq!(p.description, "add X");
    assert!(!p.is_breaking);
}

#[test]
fn subject_breaking_without_scope() {
    let p = parse_first_line("fix!: change Y").unwrap();
    assert_eq!(p.type_, "fix");
    assert_eq!(p.scope, "");
    assert_eq!(p.description, "change Y");
    assert!(p.is_breaking);
}

#[test]
fn subject_breaking_with_scope() {
    let p = parse_first_line("refactor(core)!: drop old API").unwrap();
    assert_eq!(p.type_, "refactor");
    assert_eq!(p.scope, "core");
    assert_eq!(p.description, "drop old API");
    assert!(p.is_breaking);
}

#[test]
fn subject_without_prefix_fails() {
    assert!(parse_first_line("oops I forgot the prefix").is_none());
}

#[test]
fn subject_with_shortcode_emoji() {
    let p = parse_first_line(":sparkles: feat: shine").unwrap();
    assert_eq!(p.emoji, ":sparkles:");
    assert_eq!(p.type_, "feat");
    assert_eq!(p.description, "shine");
}

#[test]
fn subject_with_pictograph_emoji() {
    let p = parse_first_line("\u{2728} feat(ui): shine").unwrap();
    assert_eq!(p.emoji, "\u{2728}");
    assert_eq!(p.type_, "feat");
    assert_eq!(p.scope, "ui");
    let q = parse_first_line("\u{1F41B}fix: squash").unwrap();
    assert_eq!(q.emoji, "\u{1F41B}");
    assert_eq!(q.type_, "fix");
    let r = parse_first_line("\u{1F680} perf: launch").unwrap();
    assert_eq!(r.emoji, "\u{1F680}");
    assert_eq!(r.type_, "perf");
}

#[test]
fn subject_with_emoji_of_several_characters() {
    let p = parse_first_line("\u{26A1}\u{FE0F} perf: faster").unwrap();
    assert_eq!(p.emoji, "\u{26A1}\u{FE0F}");
    assert_eq!(p.type_, "perf");
    assert_eq!(p.description, "faster");
    assert!(parse_first_line("\u{26A1}\u{FE0F}").is_none());
    assert!(parse_first_line("\u{2728} Feat: upper").is_none());
}

#[test]
fn subject_with_colons_in_description() {
    let p = parse_first_line("docs: usage: see README: part 2").unwrap();
    assert_eq!(p.type_, "docs");
    assert_eq!(p.description, "usage: see README: part 2");
}

#[test]
fn subject_scope_ends_at_first_closing_parenthesis() {
    let p = parse_first_line("feat(a): b(c): d").unwrap();
    assert_eq!(p.scope, "a");
    assert_eq!(p.description, "b(c): d");
}

#[test]
fn subject_rejections() {
    assert!(parse_first_line("").is_none());
    assert!(parse_first_line("feat:").is_none());
    assert!(parse_first_line("feat: ").is_none());
    assert!(parse_first_line("feat:no space").is_none());
    assert!(parse_first_line("Feat: upper case type").is_none());
    assert!(parse_first_line("feat(): empty scope").is_none());
    assert!(parse_first_line("feat(open: never closed").is_none());
    assert!(parse_first_line("Merge branch: fix: x").is_none());
    assert!(parse_first_line("feat2: digits in type").is_none());
    assert!(parse_first_line(": feat: lone colon").is_none());
    assert!(parse_first_line("::feat: empty shortcode").is_none());
}

#[test]
fn subject_unknown_type_is_accepted() {
    let p = parse_first_line("wip: try things").unwrap();
    assert_eq!(p.type_, "wip");
}

#[test]
fn subject_leading_spaces_are_skipped() {
    let p = parse_first_line("  chore: tidy").unwrap();
    assert_eq!(p.emoji, "");
    assert_eq!(p.type_, "chore");
}

#[test]
fn subject_round_trips() {
    let cases = vec![
        ("feat", "", false, "add X"),
        ("fix", "", true, "change Y"),
        ("perf", "parser", false, "speed: up (a lot)"),
        ("build", "deps", true, "bump"),
    ];
    for (t, s, b, d) in cases {
        let text = written(t, s, b, d);
        let p = parse_first_line(&text).unwrap();
        assert_eq!(p.type_, t);
        assert_eq!(p.scope, s);
        assert_eq!(p.is_breaking, b);
        assert_eq!(p.description, d);
        assert_eq!(written(&p.type_, &p.scope, p.is_breaking, &p.description), text);
    }
}

#[test]
fn subject_round_trip_ignores_emoji() {
    let p = parse_first_line(":bug: fix(io)!: close file").unwrap();
    assert_eq!(
        written(&p.type_, &p.scope, p.is_breaking, &p.description),
        "fix(io)!: close file"
    );
}

#[test]
fn scan_stops_at_first_other_character() {
    let s: Vec<char> = "abc def".chars().collect();
    assert_eq!(scan(&s, 0, CharClass::Lower), 3);
    assert_eq!(scan(&s, 3, CharClass::Space), 4);
    assert_eq!(scan(&s, 4, CharClass::Lower), 7);
    assert_eq!(scan(&s, 7, CharClass::Lower), 7);
    assert!(class_has(')', CharClass::Code));
    assert!(class_has('\u{80}', CharClass::Glyph));
    assert!(!class_has('\u{7F}', CharClass::Glyph));
    assert!(!class_has('a', CharClass::Glyph));
    assert!(!class_has(')', CharClass::Scope));
    assert!(!class_has('\n', CharClass::Line));
}

#[test]
fn trailer_line() {
    let a = parse_author_from_line("Co-authored-by: Bob Builder <bob@example.com>").unwrap();
    assert_eq!(a.name, "Bob Builder");
    assert_eq!(a.mail, "bob@example.com");
    assert_eq!(a.username, "");
}

#[test]
fn trailer_line_splits_at_last_separator() {
    let a = parse_author_from_line("Co-authored-by: A <B> <c@d>").unwrap();
    assert_eq!(a.name, "A <B>");
    assert_eq!(a.mail, "c@d");
}

#[test]
fn trailer_line_rejections() {
    assert!(parse_author_from_line("").is_none());
    assert!(parse_author_from_line("Co-authored-by: ").is_none());
    assert!(parse_author_from_line("Co-authored-by: Bob").is_none());
    assert!(parse_author_from_line("Co-authored-by: Bob <>").is_none());
    assert!(parse_author_from_line("Co-authored-by:  <b@c>").is_none());
    assert!(parse_author_from_line("Co-authored-by: Bob <b@c").is_none());
    assert!(parse_author_from_line("Signed-off-by: Bob <b@c>").is_none());
    assert!(parse_author_from_line("co-authored-by: Bob <b@c>").is_none());
}

#[test]
fn trailers_of_body_in_order() {
    let mut authors = vec![author("Alice", "alice@example.com", "alice")];
    let body = "Some text.\n\nCo-authored-by: Bob <bob@example.com>\r\nnot a trailer\nCo-authored-by: Carol C <carol@example.com>\n";
    parse_author_from_body(body, &mut authors);
    assert_eq!(authors.len(), 3);
    assert_eq!(authors[0].name, "Alice");
    assert_eq!(authors[1].name, "Bob");
    assert_eq!(authors[1].mail, "bob@example.com");
    assert_eq!(authors[2].name, "Carol C");
    assert_eq!(authors[2].mail, "carol@example.com");
}

#[test]
fn trailers_of_empty_body() {
    let mut authors: Vec<Author> = Vec::new();
    parse_author_from_body("", &mut authors);
    assert!(authors.is_empty());
    parse_author_from_body("\n\n", &mut authors);
    assert!(authors.is_empty());
    parse_author_from_body("Co-authored-by: Z <z@z>", &mut authors);
    assert_eq!(authors.len(), 1);
}

#[test]
fn commit_is_built_from_subject_and_body() {
    let c: Commit = get_commit(
        "0123456789abcdef0123456789abcdef01234567",
        "feat(api)!: add X",
        "Co-authored-by: Bob <bob@example.com>",
        author("Alice", "alice@example.com", ""),
    )
    .unwrap();
    assert_eq!(c.hash, "0123456789abcdef0123456789abcdef01234567");
    assert_eq!(c.type_, "feat");
    assert_eq!(c.scope, "api");
    assert_eq!(c.description, "add X");
    assert!(c.is_breaking);
    assert_eq!(c.authors.len(), 2);
    assert_eq!(c.authors[0].name, "Alice");
    assert_eq!(c.authors[1].name, "Bob");
}

#[test]
fn commit_with_unclassifiable_subject_is_dropped() {
    assert!(get_commit("abc", "oops I forgot the prefix", "", author("A", "a@a", "")).is_none());
}

#[test]
fn first_line_of_message() {
    assert_eq!(first_line("feat: a\n\nbody"), "feat: a");
    assert_eq!(first_line("feat: a\r\nbody"), "feat: a");
    assert_eq!(first_line("single"), "single");
    assert_eq!(first_line(""), "");
    assert_eq!(first_line("\nsecond"), "");
}

#[test]
fn commit_new_keeps_fields() {
    let c = Commit::new(
        "h".to_string(),
        "fix".to_string(),
        "s".to_string(),
        "d".to_string(),
        true,
        vec![author("A", "a@a", "")],
    );
    assert_eq!(c.hash, "h");
    assert_eq!(c.type_, "fix");
    assert_eq!(c.scope, "s");
    assert_eq!(c.description, "d");
    assert!(c.is_breaking);
    assert_eq!(c.authors.len(), 1);
    let d = c.copy();
    assert_eq!(d.hash, "h");
    assert_eq!(d.authors[0].mail, "a@a");
}

#[test]
fn author_display() {
    assert_eq!(author("Alice", "a@a", "").get_display(), "Alice");
    assert_eq!(author("Alice", "a@a", "alice").get_display(), "@alice");
    let a = author("Alice", "a@a", "al").copy();
    assert_eq!(a.name, "Alice");
    assert_eq!(a.mail, "a@a");
    assert_eq!(a.username, "al");
}
