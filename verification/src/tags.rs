//! The index of version tags: which tag names count, and which commit each
//! one points to.

use vstd::prelude::*;
use vstd::string::*;
use crate::dict::{Dict, lookup};
use crate::text::{str_eq, strs_view};

verus! {

/// Whether `regex` finds a match of a pattern in a text: `None` where it
/// rejects the pattern, else what `Regex::is_match` answers.
pub uninterp spec fn regex_is_match(pattern: Seq<char>, text: Seq<char>) -> Option<bool>;

/// Compiles the pattern with `regex::Regex::new` and asks `Regex::is_match`
/// whether it matches anywhere in the text. Both depend on the two texts
/// alone. The contract only names the answer; it is `None` where the pattern
/// does not compile.
#[verifier::external_body]
fn pattern_matches(pattern: &str, text: &str) -> (r: Option<bool>)
    ensures
        r == regex_is_match(pattern@, text@),
{
    match regex::Regex::new(pattern) {
        Ok(re) => Some(re.is_match(text)),
        Err(_) => None,
    }
}

/// The pattern of a version tag: an optional `v` or `ver`, then a semantic
/// version with its optional pre-release and build metadata.
pub open spec fn tag_pattern() -> Seq<char> {
    r"^(?P<prefix>v|ver)?(?P<major>0|[1-9]\d*)\.(?P<minor>0|[1-9]\d*)\.(?P<patch>0|[1-9]\d*)(?:-(?P<prerelease>(?:0|[1-9]\d*|\d*[a-zA-Z-][0-9a-zA-Z-]*)(?:\.(?:0|[1-9]\d*|\d*[a-zA-Z-][0-9a-zA-Z-]*))*))?(?:\+(?P<buildmetadata>[0-9a-zA-Z-]+(?:\.[0-9a-zA-Z-]+)*))?$"@
}

/// A tag name that counts as a version tag.
pub open spec fn is_version_tag(name: Seq<char>) -> bool {
    regex_is_match(tag_pattern(), name) == Some(true)
}

/// Decides whether a tag name counts as a version tag.
pub fn version_tag(name: &str) -> (r: bool)
    ensures
        r == is_version_tag(name@),
{
    let answer: Option<bool> = pattern_matches(
        r"^(?P<prefix>v|ver)?(?P<major>0|[1-9]\d*)\.(?P<minor>0|[1-9]\d*)\.(?P<patch>0|[1-9]\d*)(?:-(?P<prerelease>(?:0|[1-9]\d*|\d*[a-zA-Z-][0-9a-zA-Z-]*)(?:\.(?:0|[1-9]\d*|\d*[a-zA-Z-][0-9a-zA-Z-]*))*))?(?:\+(?P<buildmetadata>[0-9a-zA-Z-]+(?:\.[0-9a-zA-Z-]+)*))?$",
        name,
    );
    match answer {
        Some(b) => b,
        None => false,
    }
}

/// Those of the first `n` names that are kept, the last of them first.
pub open spec fn kept_reversed(names: Seq<Seq<char>>, keep: Seq<bool>, n: nat) -> Seq<Seq<char>>
    decreases n,
{
    if n == 0 {
        Seq::empty()
    } else if keep[n - 1] {
        seq![names[n - 1]] + kept_reversed(names, keep, (n - 1) as nat)
    } else {
        kept_reversed(names, keep, (n - 1) as nat)
    }
}

/// For each name, whether it is a version tag.
pub open spec fn version_flags(names: Seq<Seq<char>>) -> Seq<bool> {
    Seq::new(names.len(), |i: int| is_version_tag(names[i]))
}

/// Keeps the names whose flag is set and turns their order round.
pub fn select_tags(names: &Vec<String>, keep: &Vec<bool>) -> (r: Vec<String>)
    requires
        keep.len() == names.len(),
    ensures
        strs_view(r@) == kept_reversed(strs_view(names@), keep@, names.len() as nat),
{
    let ghost nv = strs_view(names@);
    let mut r: Vec<String> = Vec::new();
    let mut j: usize = names.len();
    assert(strs_view(r@) + kept_reversed(nv, keep@, j as nat) =~= kept_reversed(
        nv,
        keep@,
        names.len() as nat,
    ));
    while j > 0
        invariant
            j <= names.len(),
            keep.len() == names.len(),
            nv == strs_view(names@),
            strs_view(r@) + kept_reversed(nv, keep@, j as nat) == kept_reversed(
                nv,
                keep@,
                names.len() as nat,
            ),
        decreases j,
    {
        let ghost before = strs_view(r@);
        let ghost rest = kept_reversed(nv, keep@, (j - 1) as nat);
        if keep[j - 1] {
            r.push(names[j - 1].clone());
            assert(strs_view(r@) =~= before.push(nv[j - 1]));
            assert(before.push(nv[j - 1]) + rest =~= before + (seq![nv[j - 1]] + rest));
        }
        j -= 1;
    }
    assert(strs_view(r@) + Seq::<Seq<char>>::empty() =~= strs_view(r@));
    r
}

/// The version tags among the names of a repository's tags, most recent
/// first. `names` is the listing as the repository gives it, oldest first.
pub fn list_tags(names: &Vec<String>) -> (r: Vec<String>)
    ensures
        strs_view(r@) == kept_reversed(
            strs_view(names@),
            version_flags(strs_view(names@)),
            names.len() as nat,
        ),
{
    let mut keep: Vec<bool> = Vec::new();
    let mut i: usize = 0;
    while i < names.len()
        invariant
            i <= names.len(),
            keep.len() == i,
            forall|k: int| 0 <= k < i ==> keep@[k] == is_version_tag(#[trigger] names@[k]@),
        decreases names.len() - i,
    {
        keep.push(version_tag(names[i].as_str()));
        i += 1;
    }
    assert(keep@ =~= version_flags(strs_view(names@)));
    select_tags(names, &keep)
}

/// The entries of the map from commit to tag that the first `n` tags give.
/// A tag that points to no commit gives none.
pub open spec fn commit_to_tag(
    tags: Seq<Seq<char>>,
    targets: Seq<Option<Seq<char>>>,
    n: nat,
) -> Seq<(Seq<char>, Seq<char>)>
    decreases n,
{
    if n == 0 {
        Seq::empty()
    } else {
        match targets[n - 1] {
            Some(c) => commit_to_tag(tags, targets, (n - 1) as nat).push((c, tags[n - 1])),
            None => commit_to_tag(tags, targets, (n - 1) as nat),
        }
    }
}

/// The entries of the map from tag to commit that the first `n` tags give.
pub open spec fn tag_to_commit(
    tags: Seq<Seq<char>>,
    targets: Seq<Option<Seq<char>>>,
    n: nat,
) -> Seq<(Seq<char>, Seq<char>)>
    decreases n,
{
    if n == 0 {
        Seq::empty()
    } else {
        match targets[n - 1] {
            Some(c) => tag_to_commit(tags, targets, (n - 1) as nat).push((tags[n - 1], c)),
            None => tag_to_commit(tags, targets, (n - 1) as nat),
        }
    }
}

/// What a list of optional strings holds.
pub open spec fn targets_view(targets: Seq<Option<String>>) -> Seq<Option<Seq<char>>> {
    Seq::new(
        targets.len(),
        |i: int|
            match targets[i] {
                Some(c) => Some(c@),
                None => None,
            },
    )
}

/// Builds the two maps of the tag index. `targets[i]` is the id of the
/// commit that `tags[i]` points to, or `None` where it points to none; such
/// a tag is left out. Where several tags point to one commit, the one
/// listed last names it.
pub fn get_commit_tag_map(tags: &Vec<String>, targets: &Vec<Option<String>>) -> (r: (Dict, Dict))
    requires
        targets.len() == tags.len(),
    ensures
        r.0@ == commit_to_tag(strs_view(tags@), targets_view(targets@), tags.len() as nat),
        r.1@ == tag_to_commit(strs_view(tags@), targets_view(targets@), tags.len() as nat),
{
    let ghost tv = strs_view(tags@);
    let ghost gv = targets_view(targets@);
    let mut c2t: Dict = Dict::new();
    let mut t2c: Dict = Dict::new();
    let mut i: usize = 0;
    while i < tags.len()
        invariant
            i <= tags.len(),
            targets.len() == tags.len(),
            tv == strs_view(tags@),
            gv == targets_view(targets@),
            c2t@ == commit_to_tag(tv, gv, i as nat),
            t2c@ == tag_to_commit(tv, gv, i as nat),
        decreases tags.len() - i,
    {
        assert(tv[i as int] == tags@[i as int]@);
        match &targets[i] {
            Some(c) => {
                assert(gv[i as int] == Some(c@));
                c2t.insert(c.clone(), tags[i].clone());
                t2c.insert(tags[i].clone(), c.clone());
            },
            None => {
                assert(gv[i as int].is_none());
            },
        }
        i += 1;
    }
    (c2t, t2c)
}

/// The first of the tags from position `from` on that points to `commit`.
pub open spec fn tag_at(
    tags: Seq<Seq<char>>,
    targets: Seq<Option<Seq<char>>>,
    commit: Seq<char>,
    from: int,
) -> Option<Seq<char>>
    decreases tags.len() - from,
{
    if from < 0 || from >= tags.len() {
        None
    } else if targets[from] == Some(commit) {
        Some(tags[from])
    } else {
        tag_at(tags, targets, commit, from + 1)
    }
}

/// The tag of a commit: the first of `tags` that points to it, `None` where
/// none does.
pub fn from_commit_get_tag(
    tags: &Vec<String>,
    targets: &Vec<Option<String>>,
    commit: &str,
) -> (r: Option<String>)
    requires
        targets.len() == tags.len(),
    ensures
        match r {
            Some(t) => tag_at(strs_view(tags@), targets_view(targets@), commit@, 0) == Some(t@),
            None => tag_at(strs_view(tags@), targets_view(targets@), commit@, 0).is_none(),
        },
{
    let ghost tv = strs_view(tags@);
    let ghost gv = targets_view(targets@);
    let mut i: usize = 0;
    while i < tags.len()
        invariant
            i <= tags.len(),
            targets.len() == tags.len(),
            tv == strs_view(tags@),
            gv == targets_view(targets@),
            tag_at(tv, gv, commit@, 0) == tag_at(tv, gv, commit@, i as int),
        decreases tags.len() - i,
    {
        assert(tv[i as int] == tags@[i as int]@);
        match &targets[i] {
            Some(c) => {
                assert(gv[i as int] == Some(c@));
                if str_eq(c.as_str(), commit) {
                    return Some(tags[i].clone());
                }
            },
            None => {
                assert(gv[i as int].is_none());
            },
        }
        i += 1;
    }
    None
}

/// The commit that a tag points to, as the index holds it.
pub fn from_tag_get_commit(t2c: &Dict, tag: &str) -> (r: Option<String>)
    ensures
        match r {
            Some(c) => lookup(t2c@, tag@) == Some(c@),
            None => lookup(t2c@, tag@).is_none(),
        },
{
    t2c.get(tag)
}

} // verus!
