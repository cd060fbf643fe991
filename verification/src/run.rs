//! The steps of a run that lie between reading the repository and writing
//! the result: taking pages of remote history, rendering all segments, and
//! preparing the release.

use vstd::prelude::*;
use vstd::string::*;
use crate::aggregate::{ChangelogUnit, ChangelogUnitView, RawCommit, RawCommitView, build_units, ids_of, raws_view, unit_of, units_view};
use crate::classify::{parse_first_line, parse_subject};
use crate::dict::Dict;
use crate::range::{RangeError, boundaries_of, get_range, index_from};
use crate::render::{changelog_text, get_changelog_string};
use crate::text::{chars_of, contains, contains_text, decimal, find, find_char, format_u64, has_at, occurs_at, slice_of, str_eq, strip_prefix, strs_view};
use crate::version::{BumpKind, NameError, get_name, names_of};

verus! {

/// The number of commits asked for in one page of remote history.
pub const PAGE_SIZE: usize = 100;

/// Whether the history of a host can be asked from GitHub.
pub fn uses_github(host: &str) -> (r: bool)
    ensures
        r == contains_text(host@, "github"@),
{
    contains(host, "github")
}

/// The query that asks for one page of the history that ends in `sha`.
pub open spec fn page_query_of(
    scope: Seq<char>,
    repo: Seq<char>,
    page: nat,
    sha: Seq<char>,
) -> Seq<char> {
    "repos/"@ + scope + "/"@ + repo + "/commits?per_page=100&page="@ + decimal(page) + "&sha="@
        + sha
}

/// Writes the query for one page of remote history.
pub fn page_query(scope: &str, repo: &str, page: u64, sha: &str) -> (r: String)
    ensures
        r@ == page_query_of(scope@, repo@, page as nat, sha@),
{
    let mut s: String = String::from_str("repos/");
    s.append(scope);
    s.append("/");
    s.append(repo);
    s.append("/commits?per_page=100&page=");
    s.append(format_u64(page).as_str());
    s.append("&sha=");
    s.append(sha);
    s
}

/// How many commits of a page belong to the range: those before the commit
/// the range starts from, or all of them where that commit is not in the page.
pub open spec fn page_stop(page: Seq<RawCommitView>, from_id: Seq<char>) -> int {
    index_from(ids_of(page), from_id, 0)
}

/// Whether another page has to be asked for after this one: the start of the
/// range was not reached and the page was full.
pub open spec fn more_pages(page: Seq<RawCommitView>, from_id: Seq<char>) -> bool {
    page_stop(page, from_id) >= page.len() && page.len() >= PAGE_SIZE
}

/// Takes one page of remote history into the walk: its commits up to, and
/// without, the commit the range starts from. Returns whether another page
/// has to be asked for.
pub fn take_page(walk: &mut Vec<RawCommit>, page: &Vec<RawCommit>, from_id: &str) -> (more: bool)
    ensures
        page_stop(raws_view(page@), from_id@) <= page.len(),
        raws_view(final(walk)@) == raws_view(old(walk)@) + raws_view(page@).subrange(
            0,
            page_stop(raws_view(page@), from_id@),
        ),
        more == more_pages(raws_view(page@), from_id@),
{
    let ghost start = raws_view(walk@);
    let ghost pv = raws_view(page@);
    let ghost ids = ids_of(pv);
    let mut i: usize = 0;
    assert(raws_view(walk@) =~= start + pv.subrange(0, 0));
    while i < page.len() && !str_eq(page[i].hash.as_str(), from_id)
        invariant
            i <= page.len(),
            pv == raws_view(page@),
            ids == ids_of(pv),
            index_from(ids, from_id@, 0) == index_from(ids, from_id@, i as int),
            raws_view(walk@) == start + pv.subrange(0, i as int),
        decreases page.len() - i,
    {
        let raw: &RawCommit = &page[i];
        assert(pv[i as int] == raw@);
        let ghost before = raws_view(walk@);
        let copy: RawCommit = RawCommit {
            hash: raw.hash.clone(),
            subject: raw.subject.clone(),
            body: raw.body.clone(),
            author: raw.author.copy(),
        };
        walk.push(copy);
        assert(raws_view(walk@) =~= before.push(pv[i as int]));
        assert(raws_view(walk@) =~= start + pv.subrange(0, i + 1));
        i += 1;
    }
    proof {
        if i < page.len() {
            assert(pv[i as int] == page@[i as int]@);
            assert(ids[i as int] == from_id@);
        }
    }
    i >= page.len() && page.len() >= PAGE_SIZE
}

/// One of the first `n` subjects starts with an emoji and can be classified.
pub open spec fn emoji_upto(raws: Seq<RawCommitView>, n: nat) -> bool
    decreases n,
{
    if n == 0 {
        false
    } else {
        emoji_upto(raws, (n - 1) as nat) || match parse_subject(raws[n - 1].subject) {
            Some(p) => p.emoji.len() > 0,
            None => false,
        }
    }
}

/// Whether the history writes its subjects with emoji: whether any subject
/// that can be classified starts with one.
pub fn using_emoji(raws: &Vec<RawCommit>) -> (r: bool)
    ensures
        r == emoji_upto(raws_view(raws@), raws.len() as nat),
{
    let ghost rv = raws_view(raws@);
    let mut found: bool = false;
    let mut i: usize = 0;
    while i < raws.len()
        invariant
            i <= raws.len(),
            rv == raws_view(raws@),
            found == emoji_upto(rv, i as nat),
        decreases raws.len() - i,
    {
        assert(rv[i as int] == raws@[i as int]@);
        match parse_first_line(raws[i].subject.as_str()) {
            Some(p) => {
                if p.emoji.as_str().unicode_len() > 0 {
                    found = true;
                }
            },
            None => {},
        }
        i += 1;
    }
    found
}

/// The message of the commit that records a release.
pub open spec fn release_message_of(with_emoji: bool, name: Seq<char>) -> Seq<char> {
    if with_emoji {
        ":bookmark: release: bump version to "@ + name
    } else {
        "release: bump version to "@ + name
    }
}

/// Writes the message of the commit that records a release.
pub fn release_message(with_emoji: bool, name: &str) -> (r: String)
    ensures
        r@ == release_message_of(with_emoji, name@),
{
    let mut s: String = if with_emoji {
        String::from_str(":bookmark: release: bump version to ")
    } else {
        String::from_str("release: bump version to ")
    };
    s.append(name);
    s
}

/// The names of the two ends of a unit.
pub open spec fn unit_names(
    u: ChangelogUnitView,
    prefix: Seq<char>,
    c2t: Seq<(Seq<char>, Seq<char>)>,
    choice: Option<BumpKind>,
) -> Result<(Seq<char>, Seq<char>), NameError> {
    names_of(u.from_commit, u.to_commit, prefix, u.has_breaking, u.commits, c2t, choice)
}

/// The changelogs of the first `n` units, each after a line feed, or the
/// first error met in naming them.
pub open spec fn all_text_upto(
    units: Seq<ChangelogUnitView>,
    prefix: Seq<char>,
    baseurl: Seq<char>,
    c2t: Seq<(Seq<char>, Seq<char>)>,
    choices: Seq<Option<BumpKind>>,
    n: nat,
) -> Result<Seq<char>, NameError>
    decreases n,
{
    if n == 0 {
        Ok(Seq::empty())
    } else {
        match all_text_upto(units, prefix, baseurl, c2t, choices, (n - 1) as nat) {
            Err(e) => Err(e),
            Ok(t) => match unit_names(units[n - 1], prefix, c2t, choices[n - 1]) {
                Err(e) => Err(e),
                Ok(names) => Ok(
                    t + "\n"@ + changelog_text(
                        baseurl,
                        names.0,
                        names.1,
                        units[n - 1].commits,
                        units[n - 1].contributors,
                    ),
                ),
            },
        }
    }
}

/// An error met in naming a unit is the result for every longer run of units.
pub proof fn lemma_error_stays(
    units: Seq<ChangelogUnitView>,
    prefix: Seq<char>,
    baseurl: Seq<char>,
    c2t: Seq<(Seq<char>, Seq<char>)>,
    choices: Seq<Option<BumpKind>>,
    n: nat,
    m: nat,
)
    requires
        n <= m,
        all_text_upto(units, prefix, baseurl, c2t, choices, n).is_err(),
    ensures
        all_text_upto(units, prefix, baseurl, c2t, choices, m) == all_text_upto(
            units,
            prefix,
            baseurl,
            c2t,
            choices,
            n,
        ),
    decreases m,
{
    if n < m {
        lemma_error_stays(units, prefix, baseurl, c2t, choices, n, (m - 1) as nat);
    }
}

/// The name of the newest release: that of the newer end of the first unit.
pub open spec fn first_to_name(
    units: Seq<ChangelogUnitView>,
    prefix: Seq<char>,
    c2t: Seq<(Seq<char>, Seq<char>)>,
    choices: Seq<Option<BumpKind>>,
) -> Seq<char> {
    if units.len() == 0 {
        Seq::empty()
    } else {
        match unit_names(units[0], prefix, c2t, choices[0]) {
            Ok(names) => names.1,
            Err(_) => Seq::empty(),
        }
    }
}

/// Renders all units of a run, in their order, into one text, and names the
/// newest release. `choices[i]` overrides the increment of unit `i`, or
/// leaves it to the default.
///
/// The text is a function of the arguments alone: a second run over the
/// same units gives the same text.
pub fn render_all(
    units: &Vec<ChangelogUnit>,
    prefix: &str,
    baseurl: &str,
    c2t: &Dict,
    choices: &Vec<Option<BumpKind>>,
) -> (r: Result<(String, String), NameError>)
    requires
        choices.len() == units.len(),
    ensures
        match r {
            Ok(p) => all_text_upto(
                units_view(units@),
                prefix@,
                baseurl@,
                c2t@,
                choices@,
                units.len() as nat,
            ) == Ok::<Seq<char>, NameError>(p.0@) && p.1@ == first_to_name(
                units_view(units@),
                prefix@,
                c2t@,
                choices@,
            ),
            Err(e) => all_text_upto(
                units_view(units@),
                prefix@,
                baseurl@,
                c2t@,
                choices@,
                units.len() as nat,
            ) == Err::<Seq<char>, NameError>(e),
        },
{
    let ghost uv = units_view(units@);
    let mut all: String = String::new();
    let mut first: String = String::new();
    let mut i: usize = 0;
    while i < units.len()
        invariant
            i <= units.len(),
            choices.len() == units.len(),
            uv == units_view(units@),
            all_text_upto(uv, prefix@, baseurl@, c2t@, choices@, i as nat) == Ok::<
                Seq<char>,
                NameError,
            >(all@),
            i == 0 ==> first@ == Seq::<char>::empty(),
            i > 0 ==> first@ == first_to_name(uv, prefix@, c2t@, choices@),
        decreases units.len() - i,
    {
        let unit: &ChangelogUnit = &units[i];
        assert(uv[i as int] == unit@);
        match get_name(
            unit.from_commit.as_str(),
            unit.to_commit.as_str(),
            String::from_str(prefix),
            unit.has_breaking,
            &unit.commits,
            c2t,
            choices[i],
        ) {
            Err(e) => {
                proof {
                    lemma_error_stays(
                        uv,
                        prefix@,
                        baseurl@,
                        c2t@,
                        choices@,
                        (i + 1) as nat,
                        units.len() as nat,
                    );
                }
                return Err(e);
            },
            Ok(names) => {
                if i == 0 {
                    first = names.1.clone();
                }
                let text: String = get_changelog_string(
                    String::from_str(baseurl),
                    names.0,
                    names.1,
                    &unit.commits,
                    &unit.contributors,
                );
                all.append("\n");
                all.append(text.as_str());
            },
        }
        i += 1;
    }
    Ok((all, first))
}

/// Why a run ended without a changelog.
#[derive(Debug, Clone, Copy, PartialEq, Eq, Structural)]
pub enum RunError {
    /// The repository has no commit.
    EmptyRepository,
    /// An operation such as a merge or a rebase is under way.
    NotClean,
    /// The working tree holds files that are not tracked.
    Untracked,
    /// A name given for an end of the range names no commit.
    UnresolvableRef,
    /// The remote history could not be fetched to its end.
    HistoryFetch,
    /// The range could not be resolved.
    Range(RangeError),
    /// A segment could not be named.
    Name(NameError),
}

/// The message shown for an error.
pub open spec fn message_of(e: RunError) -> Seq<char> {
    match e {
        RunError::EmptyRepository => "The repository is empty."@,
        RunError::NotClean => "The repository is not clean."@,
        RunError::Untracked => "The repository has untracked files."@,
        RunError::UnresolvableRef => "The reference names no commit."@,
        RunError::HistoryFetch => "The remote history could not be fetched."@,
        RunError::Range(_) => "No commits between from and to."@,
        RunError::Name(NameError::PrefixMismatch) => "The tag does not start with the prefix."@,
        RunError::Name(NameError::NotAVersion) => "The tag is not a semantic version."@,
        RunError::Name(NameError::Overflow) => "The version is too large to increment."@,
    }
}

impl RunError {
    /// The message shown for the error.
    pub fn message(&self) -> (r: String)
        ensures
            r@ == message_of(*self),
    {
        match self {
            RunError::EmptyRepository => String::from_str("The repository is empty."),
            RunError::NotClean => String::from_str("The repository is not clean."),
            RunError::Untracked => String::from_str("The repository has untracked files."),
            RunError::UnresolvableRef => String::from_str("The reference names no commit."),
            RunError::HistoryFetch => String::from_str("The remote history could not be fetched."),
            RunError::Range(_) => String::from_str("No commits between from and to."),
            RunError::Name(NameError::PrefixMismatch) => String::from_str(
                "The tag does not start with the prefix.",
            ),
            RunError::Name(NameError::NotAVersion) => String::from_str(
                "The tag is not a semantic version.",
            ),
            RunError::Name(NameError::Overflow) => String::from_str(
                "The version is too large to increment.",
            ),
        }
    }
}

/// Whether a repository in this state can be worked on, and the first
/// reason why not: it is empty, an operation is under way, or it holds
/// untracked files.
pub open spec fn repository_state(
    is_empty: bool,
    is_clean: bool,
    has_untracked: bool,
) -> Result<(), RunError> {
    if is_empty {
        Err(RunError::EmptyRepository)
    } else if !is_clean {
        Err(RunError::NotClean)
    } else if has_untracked {
        Err(RunError::Untracked)
    } else {
        Ok(())
    }
}

/// Decides whether a run may start on a repository in this state.
pub fn check_repository(
    is_empty: bool,
    is_clean: bool,
    has_untracked: bool,
) -> (r: Result<(), RunError>)
    ensures
        r == repository_state(is_empty, is_clean, has_untracked),
{
    if is_empty {
        Err(RunError::EmptyRepository)
    } else if !is_clean {
        Err(RunError::NotClean)
    } else if has_untracked {
        Err(RunError::Untracked)
    } else {
        Ok(())
    }
}

/// The commit that a name was resolved to, or the error where it names none.
pub fn resolved_ref(found: Option<String>) -> (r: Result<String, RunError>)
    ensures
        match found {
            Some(id) => r == Ok::<String, RunError>(id),
            None => r == Err::<String, RunError>(RunError::UnresolvableRef),
        },
{
    match found {
        Some(id) => Ok(id),
        None => Err(RunError::UnresolvableRef),
    }
}

/// The units of a range: one for each pair of neighbouring boundaries.
pub open spec fn units_of(
    from: Seq<char>,
    to: Seq<char>,
    raws: Seq<RawCommitView>,
    c2t: Seq<(Seq<char>, Seq<char>)>,
    cache: Seq<(Seq<char>, Seq<char>)>,
) -> Seq<ChangelogUnitView> {
    let b = boundaries_of(from, to, ids_of(raws), c2t);
    Seq::new((b.len() - 1) as nat, |i: int| unit_of(raws, b, i as nat, cache))
}

/// No increment is overridden in any of `n` units.
pub open spec fn no_choices(n: nat) -> Seq<Option<BumpKind>> {
    Seq::new(n, |i: int| None)
}

/// The changelog of a range and the name of its newest release, with every
/// increment left to the default; or the reason why there is none.
pub open spec fn run_result(
    from: Seq<char>,
    to: Seq<char>,
    raws: Seq<RawCommitView>,
    c2t: Seq<(Seq<char>, Seq<char>)>,
    cache: Seq<(Seq<char>, Seq<char>)>,
    prefix: Seq<char>,
    baseurl: Seq<char>,
) -> Result<(Seq<char>, Seq<char>), RunError> {
    if from == to {
        Err(RunError::Range(RangeError::EmptyRange))
    } else {
        let units = units_of(from, to, raws, c2t, cache);
        let choices = no_choices(units.len());
        match all_text_upto(units, prefix, baseurl, c2t, choices, units.len()) {
            Ok(t) => Ok((t, first_to_name(units, prefix, c2t, choices))),
            Err(e) => Err(RunError::Name(e)),
        }
    }
}

/// A result holds what is expected of it.
pub open spec fn agrees(
    r: Result<(String, String), RunError>,
    expected: Result<(Seq<char>, Seq<char>), RunError>,
) -> bool {
    match r {
        Ok(p) => expected == Ok::<(Seq<char>, Seq<char>), RunError>((p.0@, p.1@)),
        Err(e) => expected == Err::<(Seq<char>, Seq<char>), RunError>(e),
    }
}

/// Two runs over the same range, commits, tag index and handle cache end
/// alike: with the same text and the same release name, character for
/// character, or with the same error.
pub proof fn lemma_same_input_same_output(
    first: Result<(String, String), RunError>,
    second: Result<(String, String), RunError>,
    from: Seq<char>,
    to: Seq<char>,
    raws: Seq<RawCommitView>,
    c2t: Seq<(Seq<char>, Seq<char>)>,
    cache: Seq<(Seq<char>, Seq<char>)>,
    prefix: Seq<char>,
    baseurl: Seq<char>,
)
    requires
        agrees(first, run_result(from, to, raws, c2t, cache, prefix, baseurl)),
        agrees(second, run_result(from, to, raws, c2t, cache, prefix, baseurl)),
    ensures
        match (first, second) {
            (Ok(a), Ok(b)) => a.0@ == b.0@ && a.1@ == b.1@,
            (Err(a), Err(b)) => a == b,
            _ => false,
        },
{
}

/// Writes the changelog of a range, from the commits walked and the tag
/// index: resolves the boundaries, aggregates each segment, names it with
/// the default increment and renders it. `raws` holds the commits from `to`
/// back to, and without, `from`, newest first.
///
/// Returns the text and the name of the newest release. Fails where both
/// ends are the same commit or where a segment cannot be named. The result
/// is a function of the arguments alone.
pub fn tgit(
    from: String,
    to: String,
    raws: &Vec<RawCommit>,
    c2t: &Dict,
    cache: &Dict,
    prefix: &str,
    baseurl: &str,
) -> (r: Result<(String, String), RunError>)
    ensures
        agrees(r, run_result(from@, to@, raws_view(raws@), c2t@, cache@, prefix@, baseurl@)),
{
    let ghost rv = raws_view(raws@);
    let mut ids: Vec<String> = Vec::new();
    let mut k: usize = 0;
    while k < raws.len()
        invariant
            k <= raws.len(),
            ids.len() == k,
            forall|j: int| 0 <= j < k ==> ids@[j]@ == raws@[j].hash@,
        decreases raws.len() - k,
    {
        ids.push(raws[k].hash.clone());
        k += 1;
    }
    assert(strs_view(ids@) =~= ids_of(rv));
    let bounds: Vec<String> = match get_range(from, to, &ids, c2t) {
        Ok(b) => b,
        Err(e) => {
            return Err(RunError::Range(e));
        },
    };
    let units: Vec<ChangelogUnit> = build_units(raws, &bounds, cache);
    assert(units_view(units@) =~= units_of(from@, to@, rv, c2t@, cache@));
    let mut choices: Vec<Option<BumpKind>> = Vec::new();
    let mut i: usize = 0;
    while i < units.len()
        invariant
            i <= units.len(),
            choices.len() == i,
            forall|j: int| 0 <= j < i ==> choices@[j].is_none(),
        decreases units.len() - i,
    {
        choices.push(None);
        i += 1;
    }
    assert(choices@ =~= no_choices(units.len() as nat));
    match render_all(&units, prefix, baseurl, c2t, &choices) {
        Ok(p) => Ok(p),
        Err(e) => Err(RunError::Name(e)),
    }
}

/// What a line that sets the version of a manifest starts with.
pub open spec fn version_key() -> Seq<char> {
    "version = \""@
}

/// A line of a manifest that sets the version: the key, any text, and a
/// closing quote at its end.
pub open spec fn is_version_line(line: Seq<char>) -> bool {
    occurs_at(line, version_key(), 0) && line.len() > version_key().len() && line.last() == '"'
}

/// The line that sets the version to `version`, with its line feed.
pub open spec fn version_line(version: Seq<char>) -> Seq<char> {
    version_key() + version + "\"\n"@
}

/// The manifest from position `from` on, with each line that sets the
/// version, and ends in a line feed, replaced.
pub open spec fn rewritten_from(content: Seq<char>, version: Seq<char>, from: int) -> Seq<char>
    decreases content.len() - from,
{
    let end = find_char(content, '\n', from);
    if from < 0 || from >= content.len() || end < from {
        Seq::empty()
    } else if end >= content.len() {
        content.subrange(from, content.len() as int)
    } else if is_version_line(content.subrange(from, end)) {
        version_line(version) + rewritten_from(content, version, end + 1)
    } else {
        content.subrange(from, end + 1) + rewritten_from(content, version, end + 1)
    }
}

/// A release name without the tag prefix; the name itself where it does not
/// start with the prefix.
pub open spec fn without_prefix(name: Seq<char>, prefix: Seq<char>) -> Seq<char> {
    if occurs_at(name, prefix, 0) {
        name.subrange(prefix.len() as int, name.len() as int)
    } else {
        name
    }
}

/// Sets the version in the text of a manifest: every whole line of the form
/// `version = "..."` is replaced by one that holds the release name without
/// the tag prefix. All other text stays as it is.
pub fn update_version(content: &str, version: &str, prefix: &str) -> (r: String)
    ensures
        r@ == rewritten_from(content@, without_prefix(version@, prefix@), 0),
{
    let bare: String = match strip_prefix(version, prefix) {
        Some(rest) => rest,
        None => String::from_str(version),
    };
    let ghost ver = without_prefix(version@, prefix@);
    let s: Vec<char> = chars_of(content);
    let key: Vec<char> = chars_of("version = \"");
    let n: usize = s.len();
    let mut out: String = String::new();
    let mut pos: usize = 0;
    assert(out@ + rewritten_from(content@, ver, 0) =~= rewritten_from(content@, ver, 0));
    while pos < n
        invariant
            pos <= n,
            n == s.len(),
            s@ == content@,
            key@ == version_key(),
            bare@ == ver,
            out@ + rewritten_from(content@, ver, pos as int) == rewritten_from(content@, ver, 0),
        decreases n - pos,
    {
        let end: usize = find(&s, '\n', pos);
        let ghost before = out@;
        if end >= n {
            out.append(slice_of(content, pos, n).as_str());
            assert(rewritten_from(content@, ver, n as int) =~= Seq::<char>::empty());
            assert(out@ + rewritten_from(content@, ver, n as int) =~= before + rewritten_from(
                content@,
                ver,
                pos as int,
            ));
            pos = n;
        } else {
            let line: Vec<char> = chars_of(slice_of(content, pos, end).as_str());
            let ghost rest = rewritten_from(content@, ver, end + 1);
            if has_at(&line, &key, 0) && line.len() > key.len() && line[line.len() - 1] == '"' {
                out.append("version = \"");
                out.append(bare.as_str());
                out.append("\"\n");
                assert(out@ + rest =~= before + (version_line(ver) + rest));
            } else {
                out.append(slice_of(content, pos, end + 1).as_str());
                assert(out@ + rest =~= before + (content@.subrange(pos as int, end + 1) + rest));
            }
            pos = end + 1;
        }
    }
    assert(rewritten_from(content@, ver, pos as int) =~= Seq::<char>::empty());
    assert(out@ + Seq::<char>::empty() =~= out@);
    out
}

/// A changelog file with a new changelog put before what it held.
pub open spec fn prepended(changelog: Seq<char>, existing: Option<Seq<char>>) -> Seq<char> {
    match existing {
        Some(old_text) => changelog + "\n"@ + old_text,
        None => changelog,
    }
}

/// The new text of the changelog file: the changelog alone where the file
/// does not exist yet, else the changelog, a line feed, and what the file held.
pub fn generate_or_update_changelog_file(changelog: String, existing: Option<String>) -> (r: String)
    ensures
        r@ == prepended(
            changelog@,
            match existing {
                Some(t) => Some(t@),
                None => None,
            },
        ),
{
    match existing {
        Some(old_text) => {
            let mut s: String = changelog;
            s.append("\n");
            s.append(old_text.as_str());
            s
        },
        None => changelog,
    }
}

} // verus!
