//! Naming the two ends of a segment, and computing the next version.

use vstd::prelude::*;
use vstd::string::*;
use crate::dict::{Dict, lookup};
use crate::model::{Commit, CommitView, commits_view};
use crate::text::{decimal, format_u64, occurs_at, prefix_of, str_eq, strip_prefix, take_prefix};

verus! {

/// The numeric core of a semantic version.
#[derive(Debug, Clone, Copy, PartialEq, Eq, Structural)]
pub struct Version {
    pub major: u64,
    pub minor: u64,
    pub patch: u64,
}

/// Which component a release increments.
#[derive(Debug, Clone, Copy, PartialEq, Eq, Structural)]
pub enum BumpKind {
    Major,
    Minor,
    Patch,
}

/// Why a segment could not be named.
#[derive(Debug, Clone, Copy, PartialEq, Eq, Structural)]
pub enum NameError {
    /// The tag of the older end does not start with the configured prefix.
    PrefixMismatch,
    /// What follows the prefix in that tag is not a semantic version.
    NotAVersion,
    /// The component to increment is already the largest a `u64` can hold.
    Overflow,
}

/// The numeric core that `semver::Version::parse` reads from a text, and
/// `None` where it rejects the text.
pub uninterp spec fn semver_parse(text: Seq<char>) -> Option<Version>;

/// Calls `semver::Version::parse`, which reads a text as a semantic version
/// and depends on the text alone. The contract only names its answer: the
/// major, minor and patch numbers of the version it returns, or `None` where
/// it returns an error. Pre-release and build metadata are not kept.
#[verifier::external_body]
fn parse_semver(text: &str) -> (r: Option<Version>)
    ensures
        r == semver_parse(text@),
{
    match semver::Version::parse(text) {
        Ok(v) => Some(Version { major: v.major, minor: v.minor, patch: v.patch }),
        Err(_) => None,
    }
}

/// Precedence of numeric cores: by major, then minor, then patch.
pub open spec fn core_lt(a: Version, b: Version) -> bool {
    a.major < b.major || (a.major == b.major && (a.minor < b.minor || (a.minor == b.minor
        && a.patch < b.patch)))
}

/// The component that `kind` increments can still grow.
pub open spec fn can_bump(v: Version, kind: BumpKind) -> bool {
    match kind {
        BumpKind::Major => v.major < u64::MAX,
        BumpKind::Minor => v.minor < u64::MAX,
        BumpKind::Patch => v.patch < u64::MAX,
    }
}

/// The successor of `v`: the component incremented, those below it reset.
pub open spec fn bumped(v: Version, kind: BumpKind) -> Version {
    match kind {
        BumpKind::Major => Version { major: (v.major + 1) as u64, minor: 0, patch: 0 },
        BumpKind::Minor => Version { major: v.major, minor: (v.minor + 1) as u64, patch: 0 },
        BumpKind::Patch => Version { major: v.major, minor: v.minor, patch: (v.patch + 1) as u64 },
    }
}

/// The increment chosen where nobody overrides it: major after a breaking
/// change, else minor where a feature was added, else patch.
pub open spec fn default_kind(has_breaking: bool, has_feat: bool) -> BumpKind {
    if has_breaking {
        BumpKind::Major
    } else if has_feat {
        BumpKind::Minor
    } else {
        BumpKind::Patch
    }
}

/// `MAJOR.MINOR.PATCH` in decimal.
pub open spec fn version_text(v: Version) -> Seq<char> {
    decimal(v.major as nat) + "."@ + decimal(v.minor as nat) + "."@ + decimal(v.patch as nat)
}

/// One of the commits is a feature.
pub open spec fn has_feature(commits: Seq<CommitView>) -> bool {
    exists|i: int| 0 <= i < commits.len() && (#[trigger] commits[i]).type_ == "feat"@
}

/// The display name of a commit: its tag where it has one, else the first
/// seven characters of its id.
pub open spec fn short_name(id: Seq<char>, c2t: Seq<(Seq<char>, Seq<char>)>) -> Seq<char> {
    match lookup(c2t, id) {
        Some(t) => t,
        None => prefix_of(id, 7),
    }
}

/// The version a segment starts from: `0.0.0` where its older end has no
/// tag, else what the tag holds after the prefix.
pub open spec fn from_version_of(
    from_tag: Option<Seq<char>>,
    prefix: Seq<char>,
) -> Result<Version, NameError> {
    match from_tag {
        None => Ok(Version { major: 0, minor: 0, patch: 0 }),
        Some(t) => if !occurs_at(t, prefix, 0) {
            Err(NameError::PrefixMismatch)
        } else {
            match semver_parse(t.subrange(prefix.len() as int, t.len() as int)) {
                Some(v) => Ok(v),
                None => Err(NameError::NotAVersion),
            }
        },
    }
}

/// The name of the release that follows `v`.
pub open spec fn next_name_of(
    v: Version,
    kind: BumpKind,
    prefix: Seq<char>,
) -> Result<Seq<char>, NameError> {
    if can_bump(v, kind) {
        Ok(prefix + version_text(bumped(v, kind)))
    } else {
        Err(NameError::Overflow)
    }
}

/// The names of the two ends of a segment. A newer end that has a tag keeps
/// it; otherwise it is named after the successor of the older end's version.
pub open spec fn names_of(
    from_id: Seq<char>,
    to_id: Seq<char>,
    prefix: Seq<char>,
    has_breaking: bool,
    commits: Seq<CommitView>,
    c2t: Seq<(Seq<char>, Seq<char>)>,
    choice: Option<BumpKind>,
) -> Result<(Seq<char>, Seq<char>), NameError> {
    let from_name = short_name(from_id, c2t);
    match lookup(c2t, to_id) {
        Some(t) => Ok((from_name, t)),
        None => match from_version_of(lookup(c2t, from_id), prefix) {
            Err(e) => Err(e),
            Ok(v) => {
                let kind = match choice {
                    Some(k) => k,
                    None => default_kind(has_breaking, has_feature(commits)),
                };
                match next_name_of(v, kind, prefix) {
                    Ok(n) => Ok((from_name, n)),
                    Err(e) => Err(e),
                }
            },
        },
    }
}

impl Version {
    pub fn new(major: u64, minor: u64, patch: u64) -> (r: Version)
        ensures
            r == (Version { major, minor, patch }),
    {
        Version { major, minor, patch }
    }

    /// The successor under `kind`, or `None` where the component to
    /// increment cannot grow.
    pub fn bump(&self, kind: BumpKind) -> (r: Option<Version>)
        ensures
            r == if can_bump(*self, kind) {
                Some(bumped(*self, kind))
            } else {
                None
            },
    {
        match kind {
            BumpKind::Major => {
                if self.major < u64::MAX {
                    Some(Version { major: self.major + 1, minor: 0, patch: 0 })
                } else {
                    None
                }
            },
            BumpKind::Minor => {
                if self.minor < u64::MAX {
                    Some(Version { major: self.major, minor: self.minor + 1, patch: 0 })
                } else {
                    None
                }
            },
            BumpKind::Patch => {
                if self.patch < u64::MAX {
                    Some(Version { major: self.major, minor: self.minor, patch: self.patch + 1 })
                } else {
                    None
                }
            },
        }
    }

    /// Writes the version as `MAJOR.MINOR.PATCH`.
    pub fn format(&self) -> (r: String)
        ensures
            r@ == version_text(*self),
    {
        let mut s: String = format_u64(self.major);
        s.append(".");
        s.append(format_u64(self.minor).as_str());
        s.append(".");
        s.append(format_u64(self.patch).as_str());
        s
    }

    /// Decides precedence of numeric cores.
    pub fn precedes(&self, other: &Version) -> (r: bool)
        ensures
            r == core_lt(*self, *other),
    {
        self.major < other.major || (self.major == other.major && (self.minor < other.minor || (
        self.minor == other.minor && self.patch < other.patch)))
    }
}

/// The candidates for the release after `v`: its major, minor and patch
/// successors, in this order; `None` where one of them does not exist.
pub open spec fn candidates_of(v: Version) -> Option<(Version, Version, Version)> {
    if can_bump(v, BumpKind::Major) && can_bump(v, BumpKind::Minor) && can_bump(
        v,
        BumpKind::Patch,
    ) {
        Some((bumped(v, BumpKind::Major), bumped(v, BumpKind::Minor), bumped(v, BumpKind::Patch)))
    } else {
        None
    }
}

/// Computes the three candidates for the release after `v`.
pub fn candidates(v: &Version) -> (r: Option<(Version, Version, Version)>)
    ensures
        r == candidates_of(*v),
{
    match (v.bump(BumpKind::Major), v.bump(BumpKind::Minor), v.bump(BumpKind::Patch)) {
        (Some(major), Some(minor), Some(patch)) => Some((major, minor, patch)),
        _ => None,
    }
}

/// Where an increment stands in the list of candidates.
pub open spec fn position_of(kind: BumpKind) -> int {
    match kind {
        BumpKind::Major => 0,
        BumpKind::Minor => 1,
        BumpKind::Patch => 2,
    }
}

impl BumpKind {
    /// The place of the increment in the list of candidates, from 0.
    pub fn position(&self) -> (r: usize)
        ensures
            r == position_of(*self),
    {
        match self {
            BumpKind::Major => 0,
            BumpKind::Minor => 1,
            BumpKind::Patch => 2,
        }
    }
}

/// The three candidates are strictly ordered: the patch successor precedes
/// the minor successor, which precedes the major successor; and the version
/// itself precedes all of them. Candidates carry no pre-release, and a version
/// with a pre-release precedes its own numeric core, so the numeric core
/// decides.
pub proof fn lemma_candidates_ordered(v: Version)
    requires
        can_bump(v, BumpKind::Major),
        can_bump(v, BumpKind::Minor),
        can_bump(v, BumpKind::Patch),
    ensures
        core_lt(v, bumped(v, BumpKind::Patch)),
        core_lt(bumped(v, BumpKind::Patch), bumped(v, BumpKind::Minor)),
        core_lt(bumped(v, BumpKind::Minor), bumped(v, BumpKind::Major)),
{
}

/// Whatever the commits hold, the candidate chosen by default is above the
/// version the segment starts from.
pub proof fn lemma_default_above_start(v: Version, has_breaking: bool, has_feat: bool)
    requires
        can_bump(v, default_kind(has_breaking, has_feat)),
    ensures
        core_lt(v, bumped(v, default_kind(has_breaking, has_feat))),
{
}

/// Chooses the increment from what a segment holds.
pub fn default_bump(has_breaking: bool, commits: &Vec<Commit>) -> (r: BumpKind)
    ensures
        r == default_kind(has_breaking, has_feature(commits_view(commits@))),
{
    if has_breaking {
        return BumpKind::Major;
    }
    let ghost cv = commits_view(commits@);
    let mut i: usize = 0;
    while i < commits.len()
        invariant
            i <= commits.len(),
            !has_breaking,
            cv == commits_view(commits@),
            forall|j: int| 0 <= j < i ==> (#[trigger] cv[j]).type_ != "feat"@,
        decreases commits.len() - i,
    {
        assert(cv[i as int] == commits@[i as int]@);
        if str_eq(commits[i].type_.as_str(), "feat") {
            assert(cv[i as int].type_ == "feat"@);
            return BumpKind::Minor;
        }
        i += 1;
    }
    BumpKind::Patch
}

/// The version a segment starts from, read from the tag of its older end.
pub fn from_version(from_tag: &Option<String>, prefix: &str) -> (r: Result<Version, NameError>)
    ensures
        r == from_version_of(
            match from_tag {
                Some(t) => Some(t@),
                None => None,
            },
            prefix@,
        ),
{
    match from_tag {
        None => Ok(Version { major: 0, minor: 0, patch: 0 }),
        Some(t) => match strip_prefix(t.as_str(), prefix) {
            None => Err(NameError::PrefixMismatch),
            Some(rest) => match parse_semver(rest.as_str()) {
                Some(v) => Ok(v),
                None => Err(NameError::NotAVersion),
            },
        },
    }
}

/// Names the release that follows `v`: the prefix, then the successor of `v`
/// under `kind`. Fails with `Overflow` exactly where the component to
/// increment cannot grow.
pub fn next_name(v: &Version, kind: BumpKind, prefix: &str) -> (r: Result<String, NameError>)
    ensures
        match r {
            Ok(n) => next_name_of(*v, kind, prefix@) == Ok::<Seq<char>, NameError>(n@),
            Err(e) => next_name_of(*v, kind, prefix@) == Err::<Seq<char>, NameError>(e),
        },
{
    match v.bump(kind) {
        Some(next) => {
            let mut s: String = String::from_str(prefix);
            s.append(next.format().as_str());
            Ok(s)
        },
        None => Err(NameError::Overflow),
    }
}

/// The label under which a candidate is offered: the name of the increment,
/// then the candidate in brackets.
pub open spec fn option_label_of(kind: BumpKind, candidate: Version) -> Seq<char> {
    match kind {
        BumpKind::Major => "major ("@ + version_text(candidate) + ")"@,
        BumpKind::Minor => "minor ("@ + version_text(candidate) + ")"@,
        BumpKind::Patch => "patch ("@ + version_text(candidate) + ")"@,
    }
}

/// Writes the label of a candidate.
pub fn option_label(kind: BumpKind, candidate: &Version) -> (r: String)
    ensures
        r@ == option_label_of(kind, *candidate),
{
    let mut s: String = match kind {
        BumpKind::Major => String::from_str("major ("),
        BumpKind::Minor => String::from_str("minor ("),
        BumpKind::Patch => String::from_str("patch ("),
    };
    s.append(candidate.format().as_str());
    s.append(")");
    s
}

/// The increment that a label names by its first word.
pub open spec fn kind_of_label(label: Seq<char>) -> Option<BumpKind> {
    if occurs_at(label, "major"@, 0) {
        Some(BumpKind::Major)
    } else if occurs_at(label, "minor"@, 0) {
        Some(BumpKind::Minor)
    } else if occurs_at(label, "patch"@, 0) {
        Some(BumpKind::Patch)
    } else {
        None
    }
}

/// Reads the increment back from a chosen label.
pub fn kind_of_answer(answer: &str) -> (r: Option<BumpKind>)
    ensures
        r == kind_of_label(answer@),
{
    if strip_prefix(answer, "major").is_some() {
        Some(BumpKind::Major)
    } else if strip_prefix(answer, "minor").is_some() {
        Some(BumpKind::Minor)
    } else if strip_prefix(answer, "patch").is_some() {
        Some(BumpKind::Patch)
    } else {
        None
    }
}

/// Names the two ends of a segment.
///
/// The older end is named by its tag, or by the first seven characters of
/// its id. A newer end that has a tag keeps it. Otherwise the newer end is
/// named after the successor of the older end's version (`0.0.0` where that
/// end has no tag): the increment is `choice`, or the default where none is
/// given.
pub fn get_name(
    from_id: &str,
    to_id: &str,
    prefix: String,
    has_breaking: bool,
    commits: &Vec<Commit>,
    c2t: &Dict,
    choice: Option<BumpKind>,
) -> (r: Result<(String, String), NameError>)
    ensures
        match r {
            Ok(p) => names_of(
                from_id@,
                to_id@,
                prefix@,
                has_breaking,
                commits_view(commits@),
                c2t@,
                choice,
            ) == Ok::<(Seq<char>, Seq<char>), NameError>((p.0@, p.1@)),
            Err(e) => names_of(
                from_id@,
                to_id@,
                prefix@,
                has_breaking,
                commits_view(commits@),
                c2t@,
                choice,
            ) == Err::<(Seq<char>, Seq<char>), NameError>(e),
        },
{
    let from_tag: Option<String> = c2t.get(from_id);
    let to_tag: Option<String> = c2t.get(to_id);
    let from_name: String = match &from_tag {
        Some(t) => t.clone(),
        None => take_prefix(from_id, 7),
    };
    match to_tag {
        Some(t) => Ok((from_name, t)),
        None => {
            match from_version(&from_tag, prefix.as_str()) {
                Err(e) => Err(e),
                Ok(v) => {
                    let kind: BumpKind = match choice {
                        Some(k) => k,
                        None => default_bump(has_breaking, commits),
                    };
                    match next_name(&v, kind, prefix.as_str()) {
                        Ok(n) => Ok((from_name, n)),
                        Err(e) => Err(e),
                    }
                },
            }
        },
    }
}

} // verus!
