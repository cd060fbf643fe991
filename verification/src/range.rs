//! Resolving a range of history into tag-bounded segments.

use vstd::prelude::*;
use vstd::string::*;
use crate::dict::{Dict, lookup};
use crate::text::{str_eq, strs_view};

verus! {

/// Why a range could not be resolved.
#[derive(Debug, Clone, Copy, PartialEq, Eq, Structural)]
pub enum RangeError {
    /// Both ends of the range are the same commit.
    EmptyRange,
}

impl RangeError {
    /// The message shown for the error.
    pub fn message(&self) -> (r: String)
        ensures
            r@ == "No commits between from and to."@,
    {
        String::from_str("No commits between from and to.")
    }
}

/// The commit has a tag in the index.
pub open spec fn is_tagged(c2t: Seq<(Seq<char>, Seq<char>)>, id: Seq<char>) -> bool {
    lookup(c2t, id).is_some()
}

/// The first commit of `walk`, from position `from` on, that has a tag.
pub open spec fn first_tagged(
    walk: Seq<Seq<char>>,
    c2t: Seq<(Seq<char>, Seq<char>)>,
    from: int,
) -> Option<Seq<char>>
    decreases walk.len() - from,
{
    if from < 0 || from >= walk.len() {
        None
    } else if is_tagged(c2t, walk[from]) {
        Some(walk[from])
    } else {
        first_tagged(walk, c2t, from + 1)
    }
}

/// Where a range starts when no start is asked for: at the first tagged
/// commit of the history walked from the head; where no commit has a tag, at
/// the last commit walked, the root; and at the head where nothing was walked.
pub open spec fn default_start(
    head: Seq<char>,
    walk: Seq<Seq<char>>,
    c2t: Seq<(Seq<char>, Seq<char>)>,
) -> Seq<char> {
    match first_tagged(walk, c2t, 0) {
        Some(id) => id,
        None => if walk.len() > 0 {
            walk.last()
        } else {
            head
        },
    }
}

/// Finds where a range starts when no start is asked for. `walk` is the
/// history from the head, newest first.
pub fn latest_tagged(head: &str, walk: &Vec<String>, c2t: &Dict) -> (r: String)
    ensures
        r@ == default_start(head@, strs_view(walk@), c2t@),
{
    let ghost wv = strs_view(walk@);
    let mut i: usize = 0;
    while i < walk.len()
        invariant
            i <= walk.len(),
            wv == strs_view(walk@),
            first_tagged(wv, c2t@, 0) == first_tagged(wv, c2t@, i as int),
        decreases walk.len() - i,
    {
        assert(wv[i as int] == walk@[i as int]@);
        if c2t.contains_key(walk[i].as_str()) {
            return walk[i].clone();
        }
        i += 1;
    }
    if walk.len() > 0 {
        assert(wv.last() == walk@[walk.len() - 1]@);
        walk[walk.len() - 1].clone()
    } else {
        String::from_str(head)
    }
}

/// The commit a range starts from. `from` is the commit asked for, already
/// resolved, if one was; `walk` is the history from the head, newest first.
pub fn get_from_commit(
    from: Option<String>,
    head: &str,
    walk: &Vec<String>,
    c2t: &Dict,
) -> (r: String)
    ensures
        r@ == match from {
            Some(id) => id@,
            None => default_start(head@, strs_view(walk@), c2t@),
        },
{
    match from {
        Some(id) => id,
        None => latest_tagged(head, walk, c2t),
    }
}

/// A commit of the walk that bounds a segment from inside the range: it has
/// a tag and is neither end of the range.
pub open spec fn is_inner(
    c2t: Seq<(Seq<char>, Seq<char>)>,
    from: Seq<char>,
    to: Seq<char>,
    id: Seq<char>,
) -> bool {
    is_tagged(c2t, id) && id != from && id != to
}

/// The inner boundaries among the first `n` commits of the walk, in the
/// order of the walk.
pub open spec fn inner_upto(
    walk: Seq<Seq<char>>,
    c2t: Seq<(Seq<char>, Seq<char>)>,
    from: Seq<char>,
    to: Seq<char>,
    n: nat,
) -> Seq<Seq<char>>
    decreases n,
{
    if n == 0 {
        Seq::empty()
    } else if is_inner(c2t, from, to, walk[n - 1]) {
        inner_upto(walk, c2t, from, to, (n - 1) as nat).push(walk[n - 1])
    } else {
        inner_upto(walk, c2t, from, to, (n - 1) as nat)
    }
}

/// The boundaries of a range: its newer end, the tagged commits between its
/// ends in the order walked, and its older end.
pub open spec fn boundaries_of(
    from: Seq<char>,
    to: Seq<char>,
    walk: Seq<Seq<char>>,
    c2t: Seq<(Seq<char>, Seq<char>)>,
) -> Seq<Seq<char>> {
    seq![to] + inner_upto(walk, c2t, from, to, walk.len()) + seq![from]
}

/// The two ends of segment `i` of a boundary list: the older end first.
pub open spec fn segment_ends(b: Seq<Seq<char>>, i: int) -> (Seq<char>, Seq<char>) {
    (b[i + 1], b[i])
}

/// A boundary list starts at the newer end of its range and ends at the
/// older end, has at least two entries, and its segments chain: the older
/// end of each segment is the newer end of the next.
pub proof fn lemma_boundaries_chain(
    from: Seq<char>,
    to: Seq<char>,
    walk: Seq<Seq<char>>,
    c2t: Seq<(Seq<char>, Seq<char>)>,
)
    ensures
        boundaries_of(from, to, walk, c2t).len() >= 2,
        boundaries_of(from, to, walk, c2t)[0] == to,
        boundaries_of(from, to, walk, c2t).last() == from,
        forall|i: int|
            0 <= i && i + 2 < boundaries_of(from, to, walk, c2t).len() ==> (#[trigger] segment_ends(
                boundaries_of(from, to, walk, c2t),
                i,
            )).0 == segment_ends(boundaries_of(from, to, walk, c2t), i + 1).1,
{
}

/// Resolves a range into its boundaries. `walk` holds the ids of the commits
/// from `to` back to, and without, `from`, newest first.
///
/// Fails exactly where both ends are the same commit.
pub fn get_range(
    from: String,
    to: String,
    walk: &Vec<String>,
    c2t: &Dict,
) -> (r: Result<Vec<String>, RangeError>)
    ensures
        match r {
            Ok(b) => from@ != to@ && strs_view(b@) == boundaries_of(
                from@,
                to@,
                strs_view(walk@),
                c2t@,
            ),
            Err(e) => from@ == to@ && e == RangeError::EmptyRange,
        },
{
    if str_eq(from.as_str(), to.as_str()) {
        return Err(RangeError::EmptyRange);
    }
    let ghost wv = strs_view(walk@);
    let mut b: Vec<String> = Vec::new();
    b.push(to.clone());
    assert(strs_view(b@) =~= seq![to@] + inner_upto(wv, c2t@, from@, to@, 0));
    let mut i: usize = 0;
    while i < walk.len()
        invariant
            i <= walk.len(),
            wv == strs_view(walk@),
            strs_view(b@) == seq![to@] + inner_upto(wv, c2t@, from@, to@, i as nat),
        decreases walk.len() - i,
    {
        assert(wv[i as int] == walk@[i as int]@);
        let id: &String = &walk[i];
        if c2t.contains_key(id.as_str()) && !str_eq(id.as_str(), from.as_str()) && !str_eq(
            id.as_str(),
            to.as_str(),
        ) {
            let ghost before = strs_view(b@);
            b.push(id.clone());
            assert(strs_view(b@) =~= before.push(wv[i as int]));
            assert(strs_view(b@) =~= seq![to@] + inner_upto(wv, c2t@, from@, to@, (i + 1) as nat));
        }
        i += 1;
    }
    let ghost before = strs_view(b@);
    let ghost f = from@;
    b.push(from);
    assert(strs_view(b@) =~= before + seq![f]);
    Ok(b)
}

/// The first position at or after `from` at which `id` stands in the walk,
/// or the length of the walk where it stands at none.
pub open spec fn index_from(walk: Seq<Seq<char>>, id: Seq<char>, from: int) -> int
    decreases walk.len() - from,
{
    if from < 0 || from >= walk.len() || walk[from] == id {
        from
    } else {
        index_from(walk, id, from + 1)
    }
}

/// Where segment `i` starts in the walk: the first at the start, each later
/// one at its newer boundary, looked for after the start of the one before.
/// Past the last segment it is the end of the walk.
pub open spec fn cut(walk: Seq<Seq<char>>, b: Seq<Seq<char>>, i: nat) -> int
    decreases i,
{
    if i == 0 {
        0
    } else if i >= b.len() - 1 {
        walk.len() as int
    } else {
        index_from(walk, b[i as int], cut(walk, b, (i - 1) as nat))
    }
}

/// The commits of segment `i`: from its newer boundary back to, and
/// without, its older one.
pub open spec fn segment(walk: Seq<Seq<char>>, b: Seq<Seq<char>>, i: nat) -> Seq<Seq<char>> {
    walk.subrange(cut(walk, b, i), cut(walk, b, i + 1))
}

/// The commits of the first `k` segments, one segment after the other.
pub open spec fn joined(walk: Seq<Seq<char>>, b: Seq<Seq<char>>, k: nat) -> Seq<Seq<char>>
    decreases k,
{
    if k == 0 {
        Seq::empty()
    } else {
        joined(walk, b, (k - 1) as nat) + segment(walk, b, (k - 1) as nat)
    }
}

/// A search stops at or after its start and within the walk.
pub proof fn lemma_index_bounds(walk: Seq<Seq<char>>, id: Seq<char>, from: int)
    requires
        0 <= from <= walk.len(),
    ensures
        from <= index_from(walk, id, from) <= walk.len(),
    decreases walk.len() - from,
{
    if from < walk.len() && walk[from] != id {
        lemma_index_bounds(walk, id, from + 1);
    }
}

/// The starts of the segments do not go back, and stay within the walk.
pub proof fn lemma_cut_bounds(walk: Seq<Seq<char>>, b: Seq<Seq<char>>, i: nat)
    requires
        b.len() >= 2,
    ensures
        0 <= cut(walk, b, i) <= cut(walk, b, i + 1) <= walk.len(),
    decreases i,
{
    if i > 0 {
        lemma_cut_bounds(walk, b, (i - 1) as nat);
    }
    if i + 1 < b.len() - 1 {
        lemma_index_bounds(walk, b[(i + 1) as int], cut(walk, b, i));
    }
}

/// The first `k` segments, joined, are the walk up to the start of segment `k`.
pub proof fn lemma_joined_is_prefix(walk: Seq<Seq<char>>, b: Seq<Seq<char>>, k: nat)
    requires
        b.len() >= 2,
    ensures
        joined(walk, b, k) == walk.subrange(0, cut(walk, b, k)),
    decreases k,
{
    if k == 0 {
        assert(joined(walk, b, k) =~= walk.subrange(0, 0));
    } else {
        lemma_joined_is_prefix(walk, b, (k - 1) as nat);
        lemma_cut_bounds(walk, b, (k - 1) as nat);
        assert(joined(walk, b, k) =~= walk.subrange(0, cut(walk, b, k)));
    }
}

/// The segments of a boundary list part the walk: joined in their order
/// they are the walk itself, so every commit walked lies in exactly one
/// segment, none is left out and none is taken twice.
pub proof fn lemma_segments_cover(walk: Seq<Seq<char>>, b: Seq<Seq<char>>)
    requires
        b.len() >= 2,
    ensures
        joined(walk, b, (b.len() - 1) as nat) == walk,
{
    lemma_joined_is_prefix(walk, b, (b.len() - 1) as nat);
    assert(walk.subrange(0, walk.len() as int) =~= walk);
}

/// The positions in the walk of the inner boundaries among its first `n`
/// commits.
pub open spec fn inner_positions(
    walk: Seq<Seq<char>>,
    c2t: Seq<(Seq<char>, Seq<char>)>,
    from: Seq<char>,
    to: Seq<char>,
    n: nat,
) -> Seq<int>
    decreases n,
{
    if n == 0 {
        Seq::empty()
    } else if is_inner(c2t, from, to, walk[n - 1]) {
        inner_positions(walk, c2t, from, to, (n - 1) as nat).push(n - 1)
    } else {
        inner_positions(walk, c2t, from, to, (n - 1) as nat)
    }
}

/// Each inner boundary stands in the walk at its position, and the
/// positions go up.
pub proof fn lemma_inner_positions(
    walk: Seq<Seq<char>>,
    c2t: Seq<(Seq<char>, Seq<char>)>,
    from: Seq<char>,
    to: Seq<char>,
    n: nat,
)
    requires
        n <= walk.len(),
    ensures
        inner_positions(walk, c2t, from, to, n).len() == inner_upto(walk, c2t, from, to, n).len(),
        forall|j: int|
            0 <= j < inner_positions(walk, c2t, from, to, n).len() ==> 0 <= (
            #[trigger] inner_positions(walk, c2t, from, to, n)[j]) < n && walk[inner_positions(
                walk,
                c2t,
                from,
                to,
                n,
            )[j]] == inner_upto(walk, c2t, from, to, n)[j],
        forall|j: int, k: int|
            0 <= j < k < inner_positions(walk, c2t, from, to, n).len() ==> (
            #[trigger] inner_positions(walk, c2t, from, to, n)[j]) < (#[trigger] inner_positions(
                walk,
                c2t,
                from,
                to,
                n,
            )[k]),
    decreases n,
{
    if n > 0 {
        lemma_inner_positions(walk, c2t, from, to, (n - 1) as nat);
    }
}

/// A search finds what stands at or after its start.
pub proof fn lemma_index_found(walk: Seq<Seq<char>>, id: Seq<char>, from: int, at: int)
    requires
        0 <= from <= at < walk.len(),
        walk[at] == id,
    ensures
        from <= index_from(walk, id, from) <= at,
        walk[index_from(walk, id, from)] == id,
    decreases at - from,
{
    if walk[from] != id {
        lemma_index_found(walk, id, from + 1, at);
    }
}

proof fn lemma_cut_before_position(
    from: Seq<char>,
    to: Seq<char>,
    walk: Seq<Seq<char>>,
    c2t: Seq<(Seq<char>, Seq<char>)>,
    i: nat,
)
    requires
        1 <= i <= inner_upto(walk, c2t, from, to, walk.len()).len(),
    ensures
        0 <= cut(walk, boundaries_of(from, to, walk, c2t), i) <= inner_positions(
            walk,
            c2t,
            from,
            to,
            walk.len(),
        )[i - 1],
        walk[cut(walk, boundaries_of(from, to, walk, c2t), i)] == boundaries_of(
            from,
            to,
            walk,
            c2t,
        )[i as int],
    decreases i,
{
    let b = boundaries_of(from, to, walk, c2t);
    let inner = inner_upto(walk, c2t, from, to, walk.len());
    let pos = inner_positions(walk, c2t, from, to, walk.len());
    lemma_inner_positions(walk, c2t, from, to, walk.len());
    assert(b[i as int] == inner[i - 1]);
    let at = pos[i - 1];
    assert(walk[at] == inner[i - 1]);
    if i > 1 {
        lemma_cut_before_position(from, to, walk, c2t, (i - 1) as nat);
        assert(pos[i - 2] < pos[i - 1]);
    }
    lemma_index_found(walk, b[i as int], cut(walk, b, (i - 1) as nat), at);
}

/// Each inner boundary of a resolved range is found in the walk, so that
/// the segment it opens starts with it.
pub proof fn lemma_segment_starts_at_boundary(
    from: Seq<char>,
    to: Seq<char>,
    walk: Seq<Seq<char>>,
    c2t: Seq<(Seq<char>, Seq<char>)>,
    i: nat,
)
    requires
        1 <= i,
        i + 1 < boundaries_of(from, to, walk, c2t).len(),
    ensures
        0 <= cut(walk, boundaries_of(from, to, walk, c2t), i) < walk.len(),
        walk[cut(walk, boundaries_of(from, to, walk, c2t), i)] == boundaries_of(
            from,
            to,
            walk,
            c2t,
        )[i as int],
{
    lemma_inner_positions(walk, c2t, from, to, walk.len());
    lemma_cut_before_position(from, to, walk, c2t, i);
}

/// Finds where each segment of a boundary list starts in the walk. The
/// result has one entry for each boundary: the start of each segment, and
/// the length of the walk at the end.
pub fn segment_starts(walk: &Vec<String>, boundaries: &Vec<String>) -> (r: Vec<usize>)
    requires
        boundaries.len() >= 2,
    ensures
        r.len() == boundaries.len(),
        forall|i: int|
            0 <= i < r.len() ==> r@[i] as int == cut(
                strs_view(walk@),
                strs_view(boundaries@),
                i as nat,
            ),
        forall|i: int|
            0 <= i && i + 1 < r.len() ==> (#[trigger] r@[i]) <= r@[i + 1] && r@[i + 1]
                <= walk.len(),
{
    let ghost wv = strs_view(walk@);
    let ghost bv = strs_view(boundaries@);
    let n: usize = boundaries.len();
    let mut r: Vec<usize> = Vec::new();
    r.push(0);
    let mut pos: usize = 0;
    let mut i: usize = 1;
    while i < n - 1
        invariant
            1 <= i <= n - 1,
            n == boundaries.len(),
            n >= 2,
            wv == strs_view(walk@),
            bv == strs_view(boundaries@),
            r.len() == i,
            pos <= walk.len(),
            pos as int == cut(wv, bv, (i - 1) as nat),
            forall|k: int| 0 <= k < i ==> r@[k] as int == cut(wv, bv, k as nat),
        decreases n - i,
    {
        assert(bv[i as int] == boundaries@[i as int]@);
        let ghost start = pos;
        while pos < walk.len() && !str_eq(walk[pos].as_str(), boundaries[i].as_str())
            invariant
                start <= pos <= walk.len(),
                i < boundaries.len(),
                wv == strs_view(walk@),
                bv == strs_view(boundaries@),
                bv[i as int] == boundaries@[i as int]@,
                index_from(wv, bv[i as int], start as int) == index_from(
                    wv,
                    bv[i as int],
                    pos as int,
                ),
            decreases walk.len() - pos,
        {
            assert(wv[pos as int] == walk@[pos as int]@);
            pos += 1;
        }
        proof {
            if pos < walk.len() {
                assert(wv[pos as int] == walk@[pos as int]@);
            }
        }
        r.push(pos);
        i += 1;
    }
    r.push(walk.len());
    proof {
        assert forall|k: int| 0 <= k && k + 1 < r.len() implies (#[trigger] r@[k]) <= r@[k + 1]
            && r@[k + 1] <= walk.len() by {
            lemma_cut_bounds(wv, bv, k as nat);
        }
    }
    r
}

} // verus!
