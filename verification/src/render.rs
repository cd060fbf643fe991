//! Rendering one aggregated segment as Markdown.

use vstd::prelude::*;
use vstd::string::*;
use crate::model::{Author, AuthorView, Commit, CommitView, authors_view, commits_view, display_of};
use crate::text::{chars_of, same_chars, str_eq, take_prefix, prefix_of};

verus! {

/// The number of sections a changelog can have besides the contributors.
pub const SECTION_COUNT: usize = 13;

/// The commit type that section `k` lists, for the sections that list one type.
pub open spec fn section_type(k: int) -> Seq<char> {
    if k == 1 {
        "feat"@
    } else if k == 2 {
        "fix"@
    } else if k == 3 {
        "docs"@
    } else if k == 4 {
        "style"@
    } else if k == 5 {
        "refactor"@
    } else if k == 6 {
        "perf"@
    } else if k == 7 {
        "test"@
    } else if k == 8 {
        "build"@
    } else if k == 9 {
        "ci"@
    } else if k == 10 {
        "chore"@
    } else {
        "revert"@
    }
}

/// The heading of section `k`.
pub open spec fn section_title(k: int) -> Seq<char> {
    if k == 0 {
        ":sparkles: Breaking Changes"@
    } else if k == 1 {
        ":sparkles: Features"@
    } else if k == 2 {
        ":bug: Bug Fixes"@
    } else if k == 3 {
        ":memo: Documentation"@
    } else if k == 4 {
        ":art: Styles"@
    } else if k == 5 {
        ":recycle: Code Refactoring"@
    } else if k == 6 {
        ":zap: Performance Improvements"@
    } else if k == 7 {
        ":rotating_light: Tests"@
    } else if k == 8 {
        ":hammer: Build"@
    } else if k == 9 {
        ":green_heart: Continuous Integration"@
    } else if k == 10 {
        ":wrench: Chores"@
    } else if k == 11 {
        ":rewind: Reverts"@
    } else {
        ":package: Others"@
    }
}

/// A commit type that has a section of its own.
pub open spec fn is_known_type(t: Seq<char>) -> bool {
    exists|k: int| 1 <= k <= 11 && t == #[trigger] section_type(k)
}

/// Whether section `k` lists the commit: section 0 every breaking commit,
/// section 1 the features that are not breaking, sections 2 to 11 the commits
/// of their type, and the last section the commits of any other type.
pub open spec fn in_section(c: CommitView, k: int) -> bool {
    if k == 0 {
        c.is_breaking
    } else if k == 1 {
        c.type_ == section_type(1) && !c.is_breaking
    } else if 2 <= k <= 11 {
        c.type_ == section_type(k)
    } else {
        !is_known_type(c.type_)
    }
}

/// A decimal digit.
pub open spec fn is_digit(c: char) -> bool {
    '0' <= c <= '9'
}

/// The text mentions an issue or pull request: a `#` directly before a digit.
pub open spec fn has_issue_ref(d: Seq<char>) -> bool {
    exists|i: int| 0 <= i && i + 1 < d.len() && #[trigger] d[i] == '#' && is_digit(d[i + 1])
}

/// The scope of a commit as a bold prefix; nothing where it has no scope.
pub open spec fn scope_part(c: CommitView) -> Seq<char> {
    if c.scope.len() == 0 {
        Seq::empty()
    } else {
        "**"@ + c.scope + "** "@
    }
}

/// The short hash of a commit: bare where no base URL is known, a link
/// where one is, and nothing where the description already refers to an issue.
pub open spec fn hash_part(c: CommitView, baseurl: Seq<char>) -> Seq<char> {
    if has_issue_ref(c.description) {
        Seq::empty()
    } else if baseurl.len() == 0 {
        prefix_of(c.hash, 7)
    } else {
        " (["@ + prefix_of(c.hash, 7) + "]("@ + baseurl + "/"@ + c.hash + "))"@
    }
}

/// What author `i` adds to an attribution.
pub open spec fn by_piece(authors: Seq<AuthorView>, i: int) -> Seq<char> {
    let d = display_of(authors[i]);
    if authors.len() == 1 {
        d
    } else if i == authors.len() - 1 {
        "and "@ + d
    } else if authors.len() == 2 {
        d + " "@
    } else {
        d + ", "@
    }
}

/// The attribution as far as the first `n` authors.
pub open spec fn by_upto(authors: Seq<AuthorView>, n: nat) -> Seq<char>
    decreases n,
{
    if n == 0 {
        "by "@
    } else {
        by_upto(authors, (n - 1) as nat) + by_piece(authors, n - 1)
    }
}

/// The attribution of a commit: `by X`, `by X and Y`, or `by X, Y, and Z`.
pub open spec fn by_clause(authors: Seq<AuthorView>) -> Seq<char> {
    if authors.len() == 0 {
        Seq::empty()
    } else {
        by_upto(authors, authors.len())
    }
}

/// The list entry of one commit.
pub open spec fn commit_line(c: CommitView, baseurl: Seq<char>) -> Seq<char> {
    "- "@ + scope_part(c) + c.description + hash_part(c, baseurl) + " - "@ + by_clause(c.authors)
        + "\n"@
}

/// The entries of section `k` among the first `n` commits.
pub open spec fn lines_upto(
    commits: Seq<CommitView>,
    k: int,
    baseurl: Seq<char>,
    n: nat,
) -> Seq<char>
    decreases n,
{
    if n == 0 {
        Seq::empty()
    } else if in_section(commits[n - 1], k) {
        lines_upto(commits, k, baseurl, (n - 1) as nat) + commit_line(commits[n - 1], baseurl)
    } else {
        lines_upto(commits, k, baseurl, (n - 1) as nat)
    }
}

/// Section `k` lists at least one of the commits.
pub open spec fn section_occupied(commits: Seq<CommitView>, k: int) -> bool {
    exists|j: int| 0 <= j < commits.len() && in_section(#[trigger] commits[j], k)
}

/// Section `k` with its heading; nothing where it lists no commit.
pub open spec fn section_text(commits: Seq<CommitView>, k: int, baseurl: Seq<char>) -> Seq<char> {
    if section_occupied(commits, k) {
        "\n### "@ + section_title(k) + "\n\n"@ + lines_upto(commits, k, baseurl, commits.len())
    } else {
        Seq::empty()
    }
}

/// The first `k` sections, in their fixed order.
pub open spec fn sections_upto(commits: Seq<CommitView>, baseurl: Seq<char>, k: nat) -> Seq<char>
    decreases k,
{
    if k == 0 {
        Seq::empty()
    } else {
        sections_upto(commits, baseurl, (k - 1) as nat) + section_text(commits, k - 1, baseurl)
    }
}

/// The entry of one contributor.
pub open spec fn contributor_line(a: AuthorView) -> Seq<char> {
    if a.username.len() == 0 {
        "- "@ + a.name + " <"@ + a.mail + ">\n"@
    } else {
        "- "@ + a.name + " (@"@ + a.username + ")\n"@
    }
}

/// The entries of the first `n` contributors.
pub open spec fn contributors_upto(contributors: Seq<AuthorView>, n: nat) -> Seq<char>
    decreases n,
{
    if n == 0 {
        Seq::empty()
    } else {
        contributors_upto(contributors, (n - 1) as nat) + contributor_line(contributors[n - 1])
    }
}

/// The link that compares the two ends of the segment; nothing where no base
/// URL is known.
pub open spec fn compare_part(
    baseurl: Seq<char>,
    from_name: Seq<char>,
    to_name: Seq<char>,
) -> Seq<char> {
    if baseurl.len() == 0 {
        Seq::empty()
    } else {
        "[compare changes]("@ + baseurl + "/compare/"@ + from_name + "..."@ + to_name + ")\n"@
    }
}

/// The Markdown text of one segment.
pub open spec fn changelog_text(
    baseurl: Seq<char>,
    from_name: Seq<char>,
    to_name: Seq<char>,
    commits: Seq<CommitView>,
    contributors: Seq<AuthorView>,
) -> Seq<char> {
    "## "@ + to_name + "\n\n"@ + compare_part(baseurl, from_name, to_name) + sections_upto(
        commits,
        baseurl,
        SECTION_COUNT as nat,
    ) + "\n### :busts_in_silhouette: Contributors\n\n"@ + contributors_upto(
        contributors,
        contributors.len(),
    )
}

fn type_label(k: usize) -> (r: &'static str)
    requires
        1 <= k <= 11,
    ensures
        r@ == section_type(k as int),
{
    if k == 1 {
        "feat"
    } else if k == 2 {
        "fix"
    } else if k == 3 {
        "docs"
    } else if k == 4 {
        "style"
    } else if k == 5 {
        "refactor"
    } else if k == 6 {
        "perf"
    } else if k == 7 {
        "test"
    } else if k == 8 {
        "build"
    } else if k == 9 {
        "ci"
    } else if k == 10 {
        "chore"
    } else {
        "revert"
    }
}

fn title_label(k: usize) -> (r: &'static str)
    ensures
        r@ == section_title(k as int),
{
    if k == 0 {
        ":sparkles: Breaking Changes"
    } else if k == 1 {
        ":sparkles: Features"
    } else if k == 2 {
        ":bug: Bug Fixes"
    } else if k == 3 {
        ":memo: Documentation"
    } else if k == 4 {
        ":art: Styles"
    } else if k == 5 {
        ":recycle: Code Refactoring"
    } else if k == 6 {
        ":zap: Performance Improvements"
    } else if k == 7 {
        ":rotating_light: Tests"
    } else if k == 8 {
        ":hammer: Build"
    } else if k == 9 {
        ":green_heart: Continuous Integration"
    } else if k == 10 {
        ":wrench: Chores"
    } else if k == 11 {
        ":rewind: Reverts"
    } else {
        ":package: Others"
    }
}

/// Decides whether a commit type has a section of its own.
pub fn known_type(t: &str) -> (r: bool)
    ensures
        r == is_known_type(t@),
{
    let tv: Vec<char> = chars_of(t);
    let mut k: usize = 1;
    while k <= 11
        invariant
            1 <= k <= 12,
            tv@ == t@,
            forall|j: int| 1 <= j < k ==> t@ != #[trigger] section_type(j),
        decreases 12 - k,
    {
        let name: Vec<char> = chars_of(type_label(k));
        if same_chars(&tv, &name) {
            return true;
        }
        k += 1;
    }
    false
}

/// Decides whether section `k` lists the commit.
pub fn qualifies(c: &Commit, k: usize) -> (r: bool)
    ensures
        r == in_section(c@, k as int),
{
    if k == 0 {
        c.is_breaking
    } else if k == 1 {
        !c.is_breaking && str_eq(c.type_.as_str(), type_label(1))
    } else if k <= 11 {
        str_eq(c.type_.as_str(), type_label(k))
    } else {
        !known_type(c.type_.as_str())
    }
}

/// Decides whether a text mentions an issue or pull request.
pub fn mentions_issue(d: &str) -> (r: bool)
    ensures
        r == has_issue_ref(d@),
{
    let v: Vec<char> = chars_of(d);
    if v.len() < 2 {
        return false;
    }
    let mut i: usize = 0;
    while i + 1 < v.len()
        invariant
            v@ == d@,
            v.len() >= 2,
            i + 1 <= v.len(),
            forall|j: int| 0 <= j < i ==> !(#[trigger] v@[j] == '#' && is_digit(v@[j + 1])),
        decreases v.len() - i,
    {
        if v[i] == '#' && '0' <= v[i + 1] && v[i + 1] <= '9' {
            return true;
        }
        i += 1;
    }
    false
}

fn render_scope(c: &Commit) -> (r: String)
    ensures
        r@ == scope_part(c@),
{
    if c.scope.as_str().unicode_len() == 0 {
        String::new()
    } else {
        let mut s: String = String::from_str("**");
        s.append(c.scope.as_str());
        s.append("** ");
        s
    }
}

fn render_hash(c: &Commit, baseurl: &str) -> (r: String)
    ensures
        r@ == hash_part(c@, baseurl@),
{
    if mentions_issue(c.description.as_str()) {
        String::new()
    } else {
        let short: String = take_prefix(c.hash.as_str(), 7);
        if baseurl.unicode_len() == 0 {
            short
        } else {
            let mut s: String = String::from_str(" ([");
            s.append(short.as_str());
            s.append("](");
            s.append(baseurl);
            s.append("/");
            s.append(c.hash.as_str());
            s.append("))");
            s
        }
    }
}

fn render_by_piece(authors: &Vec<Author>, i: usize) -> (r: String)
    requires
        i < authors.len(),
    ensures
        r@ == by_piece(authors_view(authors@), i as int),
{
    let d: String = authors[i].get_display();
    if authors.len() == 1 {
        d
    } else if i == authors.len() - 1 {
        let mut s: String = String::from_str("and ");
        s.append(d.as_str());
        s
    } else if authors.len() == 2 {
        let mut s: String = d;
        s.append(" ");
        s
    } else {
        let mut s: String = d;
        s.append(", ");
        s
    }
}

/// Writes the attribution of a commit from its authors, in their order.
pub fn render_by(authors: &Vec<Author>) -> (r: String)
    ensures
        r@ == by_clause(authors_view(authors@)),
{
    if authors.len() == 0 {
        return String::new();
    }
    let mut s: String = String::from_str("by ");
    let mut i: usize = 0;
    while i < authors.len()
        invariant
            i <= authors.len(),
            s@ == by_upto(authors_view(authors@), i as nat),
        decreases authors.len() - i,
    {
        let piece: String = render_by_piece(authors, i);
        s.append(piece.as_str());
        i += 1;
    }
    s
}

/// Writes the list entry of one commit.
pub fn render_commit_line(c: &Commit, baseurl: &str) -> (r: String)
    ensures
        r@ == commit_line(c@, baseurl@),
{
    let scope: String = render_scope(c);
    let hash: String = render_hash(c, baseurl);
    let by: String = render_by(&c.authors);
    let mut s: String = String::from_str("- ");
    s.append(scope.as_str());
    s.append(c.description.as_str());
    s.append(hash.as_str());
    s.append(" - ");
    s.append(by.as_str());
    s.append("\n");
    s
}

/// Writes section `k`, or nothing where it lists no commit.
pub fn render_section(commits: &Vec<Commit>, k: usize, baseurl: &str) -> (r: String)
    ensures
        r@ == section_text(commits_view(commits@), k as int, baseurl@),
{
    let ghost cv = commits_view(commits@);
    let mut body: String = String::new();
    let mut found: bool = false;
    let mut i: usize = 0;
    while i < commits.len()
        invariant
            i <= commits.len(),
            cv == commits_view(commits@),
            body@ == lines_upto(cv, k as int, baseurl@, i as nat),
            found == (exists|j: int| 0 <= j < i && in_section(#[trigger] cv[j], k as int)),
        decreases commits.len() - i,
    {
        assert(cv[i as int] == commits@[i as int]@);
        if qualifies(&commits[i], k) {
            let line: String = render_commit_line(&commits[i], baseurl);
            body.append(line.as_str());
            found = true;
        } else {
            assert forall|j: int| 0 <= j < i + 1 && in_section(#[trigger] cv[j], k as int) implies 0
                <= j < i by {}
        }
        i += 1;
    }
    if found {
        let mut s: String = String::from_str("\n### ");
        s.append(title_label(k));
        s.append("\n\n");
        s.append(body.as_str());
        s
    } else {
        String::new()
    }
}

fn render_contributor(a: &Author) -> (r: String)
    ensures
        r@ == contributor_line(a@),
{
    let mut s: String = String::from_str("- ");
    s.append(a.name.as_str());
    if a.username.as_str().unicode_len() == 0 {
        s.append(" <");
        s.append(a.mail.as_str());
        s.append(">\n");
    } else {
        s.append(" (@");
        s.append(a.username.as_str());
        s.append(")\n");
    }
    s
}

fn render_compare(baseurl: &str, from_name: &str, to_name: &str) -> (r: String)
    ensures
        r@ == compare_part(baseurl@, from_name@, to_name@),
{
    if baseurl.unicode_len() == 0 {
        String::new()
    } else {
        let mut s: String = String::from_str("[compare changes](");
        s.append(baseurl);
        s.append("/compare/");
        s.append(from_name);
        s.append("...");
        s.append(to_name);
        s.append(")\n");
        s
    }
}

/// Renders one segment: a heading that names `to_name`, the compare link
/// where a base URL is known, the sections in their fixed order, each only
/// where it lists a commit, and the contributors in the order given.
///
/// The text is a function of the arguments alone, so rendering the same
/// segment again gives the same text, character for character.
pub fn get_changelog_string(
    baseurl: String,
    from_name: String,
    to_name: String,
    commits: &Vec<Commit>,
    contributors: &Vec<Author>,
) -> (r: String)
    ensures
        r@ == changelog_text(
            baseurl@,
            from_name@,
            to_name@,
            commits_view(commits@),
            authors_view(contributors@),
        ),
{
    let ghost cv = commits_view(commits@);
    let ghost av = authors_view(contributors@);
    let mut s: String = String::from_str("## ");
    s.append(to_name.as_str());
    s.append("\n\n");
    let link: String = render_compare(baseurl.as_str(), from_name.as_str(), to_name.as_str());
    s.append(link.as_str());
    let ghost head = s@;
    let mut k: usize = 0;
    while k < SECTION_COUNT
        invariant
            k <= SECTION_COUNT,
            cv == commits_view(commits@),
            s@ == head + sections_upto(cv, baseurl@, k as nat),
        decreases SECTION_COUNT - k,
    {
        let section: String = render_section(commits, k, baseurl.as_str());
        s.append(section.as_str());
        assert(s@ =~= head + sections_upto(cv, baseurl@, (k + 1) as nat));
        k += 1;
    }
    s.append("\n### :busts_in_silhouette: Contributors\n\n");
    let ghost mid = s@;
    let mut i: usize = 0;
    while i < contributors.len()
        invariant
            i <= contributors.len(),
            av == authors_view(contributors@),
            s@ == mid + contributors_upto(av, i as nat),
        decreases contributors.len() - i,
    {
        let line: String = render_contributor(&contributors[i]);
        s.append(line.as_str());
        assert(av[i as int] == contributors@[i as int]@);
        assert(s@ =~= mid + contributors_upto(av, (i + 1) as nat));
        i += 1;
    }
    assert(s@ =~= changelog_text(baseurl@, from_name@, to_name@, cv, av));
    s
}

} // verus!
