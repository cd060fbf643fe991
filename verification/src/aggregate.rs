//! Aggregating the commits of a segment: classified commits, the breaking
//! flag, and the contributors with their handles.

use vstd::prelude::*;
use vstd::string::*;
use crate::classify::{classified, get_commit};
use crate::dict::Dict;
use crate::identity::{resolve_author, resolved};
use crate::model::{Author, AuthorView, Commit, CommitView, authors_view, commits_view, copy_authors};
use crate::range::{cut, lemma_cut_bounds, segment_starts};
use crate::text::{str_eq, strs_view};

verus! {

/// A commit as the repository gives it.
#[derive(Debug, Clone)]
pub struct RawCommit {
    /// Full hexadecimal object id.
    pub hash: String,
    /// The first line of the message.
    pub subject: String,
    /// The text in which co-author trailers are looked for.
    pub body: String,
    /// The primary author, with a handle where the source gave one.
    pub author: Author,
}

/// What a `RawCommit` holds, as sequences of characters.
pub struct RawCommitView {
    pub hash: Seq<char>,
    pub subject: Seq<char>,
    pub body: Seq<char>,
    pub author: AuthorView,
}

impl View for RawCommit {
    type V = RawCommitView;

    open spec fn view(&self) -> RawCommitView {
        RawCommitView {
            hash: self.hash@,
            subject: self.subject@,
            body: self.body@,
            author: self.author@,
        }
    }
}

/// The views of a sequence of raw commits.
pub open spec fn raws_view(raws: Seq<RawCommit>) -> Seq<RawCommitView> {
    Seq::new(raws.len(), |i: int| raws[i]@)
}

/// The ids of a sequence of raw commits.
pub open spec fn ids_of(raws: Seq<RawCommitView>) -> Seq<Seq<char>> {
    Seq::new(raws.len(), |i: int| raws[i].hash)
}

/// The classified commits among the first `n` raw commits, in their order.
/// A commit whose subject cannot be classified is left out.
pub open spec fn classified_upto(raws: Seq<RawCommitView>, n: nat) -> Seq<CommitView>
    decreases n,
{
    if n == 0 {
        Seq::empty()
    } else {
        let r = raws[n - 1];
        match classified(r.hash, r.subject, r.body, r.author) {
            Some(c) => classified_upto(raws, (n - 1) as nat).push(c),
            None => classified_upto(raws, (n - 1) as nat),
        }
    }
}

/// All classified commits of a sequence of raw commits.
pub open spec fn classified_all(raws: Seq<RawCommitView>) -> Seq<CommitView> {
    classified_upto(raws, raws.len())
}

/// What is classified among the first `n` commits depends on those alone.
pub proof fn lemma_classified_prefix(s: Seq<RawCommitView>, t: Seq<RawCommitView>, n: nat)
    requires
        n <= s.len(),
        n <= t.len(),
        forall|i: int| 0 <= i < n ==> s[i] == t[i],
    ensures
        classified_upto(s, n) == classified_upto(t, n),
    decreases n,
{
    if n > 0 {
        lemma_classified_prefix(s, t, (n - 1) as nat);
    }
}

/// Classifying two walks one after the other is classifying them joined.
pub proof fn lemma_classified_concat(a: Seq<RawCommitView>, b: Seq<RawCommitView>, n: nat)
    requires
        n <= b.len(),
    ensures
        classified_upto(a + b, a.len() + n) == classified_all(a) + classified_upto(b, n),
    decreases n,
{
    if n == 0 {
        lemma_classified_prefix(a + b, a, a.len());
        assert(classified_all(a) + classified_upto(b, 0) =~= classified_all(a));
    } else {
        lemma_classified_concat(a, b, (n - 1) as nat);
        assert((a + b)[a.len() + n - 1] == b[n - 1]);
        assert(classified_upto(a + b, a.len() + n) =~= classified_all(a) + classified_upto(b, n));
    }
}

/// One of the commits is breaking.
pub open spec fn any_breaking(commits: Seq<CommitView>) -> bool {
    exists|i: int| 0 <= i < commits.len() && (#[trigger] commits[i]).is_breaking
}

/// The first position at or after `from` of a contributor with this mail,
/// or the number of contributors where there is none.
pub open spec fn mail_index(cs: Seq<AuthorView>, mail: Seq<char>, from: int) -> int
    decreases cs.len() - from,
{
    if from < 0 || from >= cs.len() || cs[from].mail == mail {
        from
    } else {
        mail_index(cs, mail, from + 1)
    }
}

/// No two contributors have the same mail.
pub open spec fn distinct_mails(cs: Seq<AuthorView>) -> bool {
    forall|i: int, j: int| 0 <= i < j < cs.len() ==> (#[trigger] cs[i]).mail != (#[trigger] cs[j]).mail
}

/// The contributors after one more author is seen. A new mail adds the
/// author, resolved. A known mail keeps its entry and its name; its handle
/// is filled in where it was empty and the author brings one.
pub open spec fn merge_author(
    cs: Seq<AuthorView>,
    a: AuthorView,
    cache: Seq<(Seq<char>, Seq<char>)>,
) -> Seq<AuthorView> {
    let r = resolved(a, cache);
    let i = mail_index(cs, a.mail, 0);
    if i < 0 || i >= cs.len() {
        cs.push(r)
    } else if cs[i].username.len() == 0 && r.username.len() > 0 {
        cs.update(i, AuthorView { name: cs[i].name, mail: cs[i].mail, username: r.username })
    } else {
        cs
    }
}

/// The contributors after the first `n` of the authors are seen.
pub open spec fn merged_authors(
    cs: Seq<AuthorView>,
    authors: Seq<AuthorView>,
    cache: Seq<(Seq<char>, Seq<char>)>,
    n: nat,
) -> Seq<AuthorView>
    decreases n,
{
    if n == 0 {
        cs
    } else {
        merge_author(merged_authors(cs, authors, cache, (n - 1) as nat), authors[n - 1], cache)
    }
}

/// The contributors after the authors of the first `n` commits are seen.
pub open spec fn merged_commits(
    cs: Seq<AuthorView>,
    commits: Seq<CommitView>,
    cache: Seq<(Seq<char>, Seq<char>)>,
    n: nat,
) -> Seq<AuthorView>
    decreases n,
{
    if n == 0 {
        cs
    } else {
        merged_authors(
            merged_commits(cs, commits, cache, (n - 1) as nat),
            commits[n - 1].authors,
            cache,
            commits[n - 1].authors.len(),
        )
    }
}

/// The contributors of a list of commits.
pub open spec fn contributors_of(
    commits: Seq<CommitView>,
    cache: Seq<(Seq<char>, Seq<char>)>,
) -> Seq<AuthorView> {
    merged_commits(Seq::empty(), commits, cache, commits.len())
}

/// A search for a mail stops within the contributors, at an entry with the
/// mail if at any, and passes none with it.
pub proof fn lemma_mail_index(cs: Seq<AuthorView>, mail: Seq<char>, from: int)
    requires
        0 <= from <= cs.len(),
    ensures
        from <= mail_index(cs, mail, from) <= cs.len(),
        mail_index(cs, mail, from) < cs.len() ==> cs[mail_index(cs, mail, from)].mail == mail,
        forall|k: int| from <= k < mail_index(cs, mail, from) ==> (#[trigger] cs[k]).mail != mail,
    decreases cs.len() - from,
{
    if from < cs.len() && cs[from].mail != mail {
        lemma_mail_index(cs, mail, from + 1);
    }
}

/// Seeing one more author keeps the mails of the contributors distinct.
pub proof fn lemma_merge_keeps_distinct(
    cs: Seq<AuthorView>,
    a: AuthorView,
    cache: Seq<(Seq<char>, Seq<char>)>,
)
    requires
        distinct_mails(cs),
    ensures
        distinct_mails(merge_author(cs, a, cache)),
{
    lemma_mail_index(cs, a.mail, 0);
    let m = merge_author(cs, a, cache);
    assert forall|i: int, j: int| 0 <= i < j < m.len() implies (#[trigger] m[i]).mail != (
    #[trigger] m[j]).mail by {
        if m.len() > cs.len() {
            if j < cs.len() {
                assert(m[i] == cs[i] && m[j] == cs[j]);
            } else {
                assert(m[i] == cs[i]);
            }
        } else {
            assert(m[i].mail == cs[i].mail && m[j].mail == cs[j].mail);
        }
    }
}

/// Seeing the first `n` of some authors keeps the mails distinct.
pub proof fn lemma_merged_authors_distinct(
    cs: Seq<AuthorView>,
    authors: Seq<AuthorView>,
    cache: Seq<(Seq<char>, Seq<char>)>,
    n: nat,
)
    requires
        distinct_mails(cs),
    ensures
        distinct_mails(merged_authors(cs, authors, cache, n)),
    decreases n,
{
    if n > 0 {
        lemma_merged_authors_distinct(cs, authors, cache, (n - 1) as nat);
        lemma_merge_keeps_distinct(
            merged_authors(cs, authors, cache, (n - 1) as nat),
            authors[n - 1],
            cache,
        );
    }
}

/// Seeing the authors of the first `n` commits keeps the mails distinct.
pub proof fn lemma_merged_commits_distinct(
    cs: Seq<AuthorView>,
    commits: Seq<CommitView>,
    cache: Seq<(Seq<char>, Seq<char>)>,
    n: nat,
)
    requires
        distinct_mails(cs),
    ensures
        distinct_mails(merged_commits(cs, commits, cache, n)),
    decreases n,
{
    if n > 0 {
        lemma_merged_commits_distinct(cs, commits, cache, (n - 1) as nat);
        lemma_merged_authors_distinct(
            merged_commits(cs, commits, cache, (n - 1) as nat),
            commits[n - 1].authors,
            cache,
            commits[n - 1].authors.len(),
        );
    }
}

/// Whatever the commits and the cache hold, each mail has one entry among
/// the contributors.
pub proof fn lemma_contributors_distinct(
    commits: Seq<CommitView>,
    cache: Seq<(Seq<char>, Seq<char>)>,
)
    ensures
        distinct_mails(contributors_of(commits, cache)),
{
    lemma_merged_commits_distinct(Seq::empty(), commits, cache, commits.len());
}

/// Adds one author to the contributors, or fills in the handle of the entry
/// that has the author's mail.
pub fn merge_contributor(contributors: &mut Vec<Author>, a: &Author, cache: &Dict)
    ensures
        authors_view(final(contributors)@) == merge_author(
            authors_view(old(contributors)@),
            a@,
            cache@,
        ),
        distinct_mails(authors_view(old(contributors)@)) ==> distinct_mails(
            authors_view(final(contributors)@),
        ),
{
    let ghost cs = authors_view(contributors@);
    proof {
        if distinct_mails(cs) {
            lemma_merge_keeps_distinct(cs, a@, cache@);
        }
        lemma_mail_index(cs, a@.mail, 0);
    }
    let r: Author = resolve_author(a, cache);
    let mut i: usize = 0;
    while i < contributors.len() && !str_eq(contributors[i].mail.as_str(), a.mail.as_str())
        invariant
            i <= contributors.len(),
            cs == authors_view(contributors@),
            mail_index(cs, a@.mail, 0) == mail_index(cs, a@.mail, i as int),
        decreases contributors.len() - i,
    {
        assert(cs[i as int] == contributors@[i as int]@);
        i += 1;
    }
    if i >= contributors.len() {
        let ghost rv = r@;
        contributors.push(r);
        assert(authors_view(contributors@) =~= cs.push(rv));
    } else {
        assert(cs[i as int] == contributors@[i as int]@);
        if contributors[i].username.as_str().unicode_len() == 0 && r.username.as_str().unicode_len()
            > 0 {
            let entry: Author = Author {
                name: contributors[i].name.clone(),
                mail: contributors[i].mail.clone(),
                username: r.username,
            };
            let ghost ev = entry@;
            contributors.set(i, entry);
            assert(authors_view(contributors@) =~= cs.update(i as int, ev));
        }
    }
}

/// Adds the authors of the commits to the contributors, commit by commit
/// and author by author.
pub fn collect_contributors(contributors: &mut Vec<Author>, commits: &Vec<Commit>, cache: &Dict)
    ensures
        authors_view(final(contributors)@) == merged_commits(
            authors_view(old(contributors)@),
            commits_view(commits@),
            cache@,
            commits.len() as nat,
        ),
        distinct_mails(authors_view(old(contributors)@)) ==> distinct_mails(
            authors_view(final(contributors)@),
        ),
{
    let ghost start = authors_view(contributors@);
    let ghost cv = commits_view(commits@);
    let mut i: usize = 0;
    while i < commits.len()
        invariant
            i <= commits.len(),
            cv == commits_view(commits@),
            authors_view(contributors@) == merged_commits(start, cv, cache@, i as nat),
            distinct_mails(start) ==> distinct_mails(authors_view(contributors@)),
        decreases commits.len() - i,
    {
        let authors: &Vec<Author> = &commits[i].authors;
        assert(cv[i as int] == commits@[i as int]@);
        let ghost av = authors_view(authors@);
        let ghost base = authors_view(contributors@);
        let mut j: usize = 0;
        while j < authors.len()
            invariant
                j <= authors.len(),
                av == authors_view(authors@),
                authors_view(contributors@) == merged_authors(base, av, cache@, j as nat),
                distinct_mails(start) ==> distinct_mails(authors_view(contributors@)),
            decreases authors.len() - j,
        {
            assert(av[j as int] == authors@[j as int]@);
            merge_contributor(contributors, &authors[j], cache);
            j += 1;
        }
        i += 1;
    }
}

/// Classifies the commits of a segment and gathers its contributors.
///
/// Returns whether any classified commit is breaking, the contributors in
/// the order first seen, and the classified commits in the order given. A
/// commit whose subject cannot be classified adds neither a commit nor a
/// contributor.
pub fn organize_commit(raws: &Vec<RawCommit>, cache: &Dict) -> (r: (bool, Vec<Author>, Vec<Commit>))
    ensures
        commits_view(r.2@) == classified_upto(raws_view(raws@), raws.len() as nat),
        r.0 == any_breaking(commits_view(r.2@)),
        authors_view(r.1@) == contributors_of(commits_view(r.2@), cache@),
        distinct_mails(authors_view(r.1@)),
{
    let ghost rv = raws_view(raws@);
    let mut has_breaking: bool = false;
    let mut commits: Vec<Commit> = Vec::new();
    let mut i: usize = 0;
    assert(commits_view(commits@) =~= classified_upto(rv, 0));
    while i < raws.len()
        invariant
            i <= raws.len(),
            rv == raws_view(raws@),
            commits_view(commits@) == classified_upto(rv, i as nat),
            has_breaking == any_breaking(commits_view(commits@)),
        decreases raws.len() - i,
    {
        let raw: &RawCommit = &raws[i];
        assert(rv[i as int] == raw@);
        let ghost before = commits_view(commits@);
        match get_commit(
            raw.hash.as_str(),
            raw.subject.as_str(),
            raw.body.as_str(),
            raw.author.copy(),
        ) {
            Some(c) => {
                let ghost cv = c@;
                let breaking: bool = c.is_breaking;
                commits.push(c);
                let ghost after = commits_view(commits@);
                assert(after =~= before.push(cv));
                proof {
                    if breaking {
                        assert(after[before.len() as int].is_breaking);
                    } else if any_breaking(after) {
                        let k = choose|k: int| 0 <= k < after.len() && (#[trigger] after[k]).is_breaking;
                        assert(before[k].is_breaking);
                    }
                    if any_breaking(before) {
                        let k = choose|k: int|
                            0 <= k < before.len() && (#[trigger] before[k]).is_breaking;
                        assert(after[k].is_breaking);
                    }
                }
                if breaking {
                    has_breaking = true;
                }
            },
            None => {},
        }
        i += 1;
    }
    let mut contributors: Vec<Author> = Vec::new();
    assert(authors_view(contributors@) =~= Seq::<AuthorView>::empty());
    collect_contributors(&mut contributors, &commits, cache);
    (has_breaking, contributors, commits)
}

/// One segment: the unit a changelog is written for.
#[derive(Debug, Clone)]
pub struct ChangelogUnit {
    /// The id of the older boundary.
    pub from_commit: String,
    /// The id of the newer boundary.
    pub to_commit: String,
    pub has_breaking: bool,
    /// The classified commits, in the order walked.
    pub commits: Vec<Commit>,
    /// The contributors, in the order first seen.
    pub contributors: Vec<Author>,
}

/// What a `ChangelogUnit` holds, as sequences.
pub struct ChangelogUnitView {
    pub from_commit: Seq<char>,
    pub to_commit: Seq<char>,
    pub has_breaking: bool,
    pub commits: Seq<CommitView>,
    pub contributors: Seq<AuthorView>,
}

impl View for ChangelogUnit {
    type V = ChangelogUnitView;

    open spec fn view(&self) -> ChangelogUnitView {
        ChangelogUnitView {
            from_commit: self.from_commit@,
            to_commit: self.to_commit@,
            has_breaking: self.has_breaking,
            commits: commits_view(self.commits@),
            contributors: authors_view(self.contributors@),
        }
    }
}

/// A unit is well formed where its breaking flag says whether any of its
/// commits is breaking, and no two of its contributors have the same mail.
pub open spec fn unit_wf(u: ChangelogUnitView) -> bool {
    u.has_breaking == any_breaking(u.commits) && distinct_mails(u.contributors)
}

/// The views of a sequence of units.
pub open spec fn units_view(units: Seq<ChangelogUnit>) -> Seq<ChangelogUnitView> {
    Seq::new(units.len(), |i: int| units[i]@)
}

/// Copies a list of commits.
pub fn copy_commits(commits: &Vec<Commit>) -> (r: Vec<Commit>)
    ensures
        commits_view(r@) == commits_view(commits@),
{
    let mut r: Vec<Commit> = Vec::new();
    let mut i: usize = 0;
    while i < commits.len()
        invariant
            i <= commits.len(),
            r.len() == i,
            forall|k: int| 0 <= k < i ==> r@[k]@ == commits@[k]@,
        decreases commits.len() - i,
    {
        r.push(commits[i].copy());
        i += 1;
    }
    assert(commits_view(r@) =~= commits_view(commits@));
    r
}

impl ChangelogUnit {
    /// An empty unit between two boundaries.
    pub fn new(from_commit: String, to_commit: String) -> (r: ChangelogUnit)
        ensures
            r@ == (ChangelogUnitView {
                from_commit: from_commit@,
                to_commit: to_commit@,
                has_breaking: false,
                commits: Seq::empty(),
                contributors: Seq::empty(),
            }),
            unit_wf(r@),
    {
        let r = ChangelogUnit {
            from_commit,
            to_commit,
            has_breaking: false,
            commits: Vec::new(),
            contributors: Vec::new(),
        };
        assert(r@.commits =~= Seq::<CommitView>::empty());
        assert(r@.contributors =~= Seq::<AuthorView>::empty());
        r
    }

    /// A copy with the same fields.
    pub fn copy(&self) -> (r: ChangelogUnit)
        ensures
            r@ == self@,
    {
        ChangelogUnit {
            from_commit: self.from_commit.clone(),
            to_commit: self.to_commit.clone(),
            has_breaking: self.has_breaking,
            commits: copy_commits(&self.commits),
            contributors: copy_authors(&self.contributors),
        }
    }

    /// The commits of one type, in the order walked.
    pub fn commits_of_type(&self, type_: &str) -> (r: Vec<Commit>)
        ensures
            commits_view(r@) == bucket_upto(self@.commits, type_@, self.commits.len() as nat),
    {
        let ghost cv = commits_view(self.commits@);
        let mut r: Vec<Commit> = Vec::new();
        let mut i: usize = 0;
        assert(commits_view(r@) =~= bucket_upto(cv, type_@, 0));
        while i < self.commits.len()
            invariant
                i <= self.commits.len(),
                cv == commits_view(self.commits@),
                commits_view(r@) == bucket_upto(cv, type_@, i as nat),
            decreases self.commits.len() - i,
        {
            assert(cv[i as int] == self.commits@[i as int]@);
            if str_eq(self.commits[i].type_.as_str(), type_) {
                let ghost before = commits_view(r@);
                r.push(self.commits[i].copy());
                assert(commits_view(r@) =~= before.push(cv[i as int]));
            }
            i += 1;
        }
        r
    }
}

/// The commits of one type among the first `n` commits, in their order.
pub open spec fn bucket_upto(commits: Seq<CommitView>, type_: Seq<char>, n: nat) -> Seq<CommitView>
    decreases n,
{
    if n == 0 {
        Seq::empty()
    } else if commits[n - 1].type_ == type_ {
        bucket_upto(commits, type_, (n - 1) as nat).push(commits[n - 1])
    } else {
        bucket_upto(commits, type_, (n - 1) as nat)
    }
}

/// Completes a unit and appends a copy of it to the finished units: the
/// authors of its commits are merged into its contributors, with the handles
/// that `mail_to_login` holds.
pub fn push_changelog_unit(
    changelog_unit: &mut ChangelogUnit,
    mail_to_login: &Dict,
    changelog_units: &mut Vec<ChangelogUnit>,
)
    ensures
        final(changelog_unit)@ == (ChangelogUnitView {
            contributors: merged_commits(
                old(changelog_unit)@.contributors,
                old(changelog_unit)@.commits,
                mail_to_login@,
                old(changelog_unit)@.commits.len(),
            ),
            ..old(changelog_unit)@
        }),
        units_view(final(changelog_units)@) == units_view(old(changelog_units)@).push(
            final(changelog_unit)@,
        ),
        unit_wf(old(changelog_unit)@) ==> unit_wf(final(changelog_unit)@),
{
    let ghost before = units_view(changelog_units@);
    let mut contributors: Vec<Author> = copy_authors(&changelog_unit.contributors);
    collect_contributors(&mut contributors, &changelog_unit.commits, mail_to_login);
    changelog_unit.contributors = contributors;
    let unit: ChangelogUnit = changelog_unit.copy();
    changelog_units.push(unit);
    assert(units_view(changelog_units@) =~= before.push(changelog_unit@));
}

/// Segment `i` of a walk, aggregated: the unit between boundaries `i + 1`
/// and `i`, built from the commits walked from the newer boundary back to,
/// and without, the older one.
pub open spec fn unit_of(
    raws: Seq<RawCommitView>,
    b: Seq<Seq<char>>,
    i: nat,
    cache: Seq<(Seq<char>, Seq<char>)>,
) -> ChangelogUnitView {
    let part = raws.subrange(cut(ids_of(raws), b, i), cut(ids_of(raws), b, i + 1));
    let commits = classified_upto(part, part.len());
    ChangelogUnitView {
        from_commit: b[(i + 1) as int],
        to_commit: b[i as int],
        has_breaking: any_breaking(commits),
        commits,
        contributors: contributors_of(commits, cache),
    }
}

/// The classified commits of the first `k` units, one unit after the other.
pub open spec fn unit_commits_joined(
    raws: Seq<RawCommitView>,
    b: Seq<Seq<char>>,
    cache: Seq<(Seq<char>, Seq<char>)>,
    k: nat,
) -> Seq<CommitView>
    decreases k,
{
    if k == 0 {
        Seq::empty()
    } else {
        unit_commits_joined(raws, b, cache, (k - 1) as nat) + unit_of(
            raws,
            b,
            (k - 1) as nat,
            cache,
        ).commits
    }
}

/// The commits of the first `k` units are the classified commits of the
/// walk up to the start of segment `k`.
pub proof fn lemma_units_are_prefix(
    raws: Seq<RawCommitView>,
    b: Seq<Seq<char>>,
    cache: Seq<(Seq<char>, Seq<char>)>,
    k: nat,
)
    requires
        b.len() >= 2,
    ensures
        unit_commits_joined(raws, b, cache, k) == classified_all(
            raws.subrange(0, cut(ids_of(raws), b, k)),
        ),
    decreases k,
{
    let ids = ids_of(raws);
    if k == 0 {
        assert(raws.subrange(0, 0) =~= Seq::<RawCommitView>::empty());
    } else {
        lemma_units_are_prefix(raws, b, cache, (k - 1) as nat);
        lemma_cut_bounds(ids, b, (k - 1) as nat);
        let lo = cut(ids, b, (k - 1) as nat);
        let hi = cut(ids, b, k);
        let head = raws.subrange(0, lo);
        let part = raws.subrange(lo, hi);
        assert(raws.subrange(0, hi) =~= head + part);
        lemma_classified_concat(head, part, part.len());
    }
}

/// The units of a walk hold every classified commit of the walk exactly
/// once, in the order walked: their commits, joined unit after unit, are the
/// classified commits of the whole walk.
pub proof fn lemma_units_cover(
    raws: Seq<RawCommitView>,
    b: Seq<Seq<char>>,
    cache: Seq<(Seq<char>, Seq<char>)>,
)
    requires
        b.len() >= 2,
    ensures
        unit_commits_joined(raws, b, cache, (b.len() - 1) as nat) == classified_all(raws),
{
    lemma_units_are_prefix(raws, b, cache, (b.len() - 1) as nat);
    assert(raws.subrange(0, raws.len() as int) =~= raws);
}

/// Copies the raw commits `from..to`.
pub fn copy_raws(raws: &Vec<RawCommit>, from: usize, to: usize) -> (r: Vec<RawCommit>)
    requires
        from <= to <= raws.len(),
    ensures
        raws_view(r@) == raws_view(raws@).subrange(from as int, to as int),
{
    let mut r: Vec<RawCommit> = Vec::new();
    let mut i: usize = from;
    while i < to
        invariant
            from <= i <= to <= raws.len(),
            r.len() == i - from,
            forall|k: int| 0 <= k < r.len() ==> r@[k]@ == raws@[from + k]@,
        decreases to - i,
    {
        let raw: &RawCommit = &raws[i];
        r.push(
            RawCommit {
                hash: raw.hash.clone(),
                subject: raw.subject.clone(),
                body: raw.body.clone(),
                author: raw.author.copy(),
            },
        );
        i += 1;
    }
    assert(raws_view(r@) =~= raws_view(raws@).subrange(from as int, to as int));
    r
}

/// Aggregates a walk into its segments, one unit for each pair of
/// neighbouring boundaries, the newest segment first. `raws` holds the
/// commits from the newest boundary back to, and without, the oldest.
///
/// Each unit is a function of the commits, the boundaries and the cache
/// alone: the same input gives the same units.
pub fn build_units(
    raws: &Vec<RawCommit>,
    boundaries: &Vec<String>,
    cache: &Dict,
) -> (r: Vec<ChangelogUnit>)
    requires
        boundaries.len() >= 2,
    ensures
        r.len() == boundaries.len() - 1,
        forall|i: int|
            0 <= i < r.len() ==> (#[trigger] r@[i])@ == unit_of(
                raws_view(raws@),
                strs_view(boundaries@),
                i as nat,
                cache@,
            ),
        forall|i: int| 0 <= i < r.len() ==> unit_wf((#[trigger] r@[i])@),
{
    let ghost rv = raws_view(raws@);
    let ghost bv = strs_view(boundaries@);
    let mut ids: Vec<String> = Vec::new();
    let mut k: usize = 0;
    while k < raws.len()
        invariant
            k <= raws.len(),
            ids.len() == k,
            forall|j: int| 0 <= j < k ==> ids@[j]@ == raws@[j].hash@,
        decreases raws.len() - k,
    {
        ids.push(raws[k].hash.clone());
        k += 1;
    }
    assert(strs_view(ids@) =~= ids_of(rv));
    let starts: Vec<usize> = segment_starts(&ids, boundaries);
    let mut units: Vec<ChangelogUnit> = Vec::new();
    let mut i: usize = 0;
    while i < boundaries.len() - 1
        invariant
            i <= boundaries.len() - 1,
            boundaries.len() >= 2,
            rv == raws_view(raws@),
            bv == strs_view(boundaries@),
            ids.len() == raws.len(),
            starts.len() == boundaries.len(),
            forall|j: int| 0 <= j < starts.len() ==> starts@[j] as int == cut(ids_of(rv), bv, j as nat),
            forall|j: int|
                0 <= j && j + 1 < starts.len() ==> (#[trigger] starts@[j]) <= starts@[j + 1]
                    && starts@[j + 1] <= ids.len(),
            units.len() == i,
            forall|j: int| 0 <= j < i ==> (#[trigger] units@[j])@ == unit_of(rv, bv, j as nat, cache@),
            forall|j: int| 0 <= j < i ==> unit_wf((#[trigger] units@[j])@),
        decreases boundaries.len() - 1 - i,
    {
        assert(starts@[i as int] <= starts@[i + 1] && starts@[i + 1] <= ids.len());
        let part: Vec<RawCommit> = copy_raws(raws, starts[i], starts[i + 1]);
        let (has_breaking, contributors, commits) = organize_commit(&part, cache);
        assert(bv[i as int] == boundaries@[i as int]@);
        assert(bv[i + 1] == boundaries@[i + 1]@);
        let unit: ChangelogUnit = ChangelogUnit {
            from_commit: boundaries[i + 1].clone(),
            to_commit: boundaries[i].clone(),
            has_breaking,
            commits,
            contributors,
        };
        assert(unit@ == unit_of(rv, bv, i as nat, cache@));
        units.push(unit);
        i += 1;
    }
    units
}

} // verus!
