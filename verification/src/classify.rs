//! Reading a commit message: the subject line and the co-author trailers.

use vstd::prelude::*;
use vstd::string::*;
use crate::model::{Author, AuthorView, Commit, CommitView, authors_view};
use crate::text::{chars_of, has_at, occurs_at, slice_of};

verus! {

/// The classes of characters that the grammar of a commit message tells apart.
#[derive(Debug, Clone, Copy, PartialEq, Eq, Structural)]
pub enum CharClass {
    /// A space.
    Space,
    /// A lower-case letter `a` to `z`.
    Lower,
    /// What may stand between the colons of an emoji shortcode.
    Code,
    /// What an emoji is written with: any character outside ASCII.
    Glyph,
    /// What may stand in a scope: anything but a closing parenthesis.
    Scope,
    /// What may stand in a line: anything but a line feed.
    Line,
}

/// Whether a character belongs to a class.
pub open spec fn in_class(c: char, class: CharClass) -> bool {
    match class {
        CharClass::Space => c == ' ',
        CharClass::Lower => 'a' <= c <= 'z',
        CharClass::Code => c != ':' && c != ' ',
        CharClass::Glyph => c > '\u{7F}',
        CharClass::Scope => c != ')',
        CharClass::Line => c != '\n',
    }
}

/// The first position at or after `from` whose character is not in the
/// class, or the length of `s` where there is none.
pub open spec fn scan_while(s: Seq<char>, from: int, class: CharClass) -> int
    decreases s.len() - from,
{
    if from < 0 || from >= s.len() || !in_class(s[from], class) {
        from
    } else {
        scan_while(s, from + 1, class)
    }
}

/// The length of the emoji that `s` starts with: a run of characters
/// outside ASCII, or a shortcode between two colons; 0 where it starts with
/// neither.
pub open spec fn emoji_len(s: Seq<char>) -> int {
    if s.len() == 0 {
        0
    } else if in_class(s[0], CharClass::Glyph) {
        scan_while(s, 0, CharClass::Glyph)
    } else if s[0] == ':' {
        let e = scan_while(s, 1, CharClass::Code);
        if 1 < e < s.len() && s[e] == ':' {
            e + 1
        } else {
            0
        }
    } else {
        0
    }
}

/// The parts of a subject line.
#[derive(Debug, Clone)]
pub struct Subject {
    pub emoji: String,
    pub scope: String,
    pub description: String,
    pub type_: String,
    pub is_breaking: bool,
}

/// What a `Subject` holds, as sequences of characters.
pub struct SubjectView {
    pub emoji: Seq<char>,
    pub scope: Seq<char>,
    pub description: Seq<char>,
    pub type_: Seq<char>,
    pub is_breaking: bool,
}

impl View for Subject {
    type V = SubjectView;

    open spec fn view(&self) -> SubjectView {
        SubjectView {
            emoji: self.emoji@,
            scope: self.scope@,
            description: self.description@,
            type_: self.type_@,
            is_breaking: self.is_breaking,
        }
    }
}

/// Where the type starts: after the emoji and the spaces that follow it.
pub open spec fn type_start(s: Seq<char>) -> int {
    scan_while(s, emoji_len(s), CharClass::Space)
}

/// The parts of a subject line of the form
/// `[emoji] type[(scope)][!]: description`, and `None` for any other line.
///
/// The type is one or more lower-case letters. The scope is what stands
/// between the opening parenthesis and the first closing one, and is not
/// empty. The description is the rest of the line after the colon and one
/// space, and is not empty.
pub open spec fn parse_subject(s: Seq<char>) -> Option<SubjectView> {
    let e = emoji_len(s);
    let t0 = type_start(s);
    let t1 = scan_while(s, t0, CharClass::Lower);
    let has_scope = t1 < s.len() && s[t1] == '(';
    let c = if has_scope {
        scan_while(s, t1 + 1, CharClass::Scope)
    } else {
        t1
    };
    let a = if has_scope {
        c + 1
    } else {
        t1
    };
    let bang = a < s.len() && s[a] == '!';
    let b = if bang {
        a + 1
    } else {
        a
    };
    if t1 == t0 {
        None
    } else if has_scope && (c >= s.len() || c == t1 + 1) {
        None
    } else if b + 2 < s.len() && s[b] == ':' && s[b + 1] == ' ' {
        Some(
            SubjectView {
                emoji: s.subrange(0, e),
                scope: if has_scope {
                    s.subrange(t1 + 1, c)
                } else {
                    Seq::empty()
                },
                description: s.subrange(b + 2, s.len() as int),
                type_: s.subrange(t0, t1),
                is_breaking: bang,
            },
        )
    } else {
        None
    }
}

/// A subject written from its parts, without the emoji.
pub open spec fn subject_text(p: SubjectView) -> Seq<char> {
    p.type_ + (if p.scope.len() > 0 {
        seq!['('] + p.scope + seq![')']
    } else {
        Seq::empty()
    }) + (if p.is_breaking {
        seq!['!']
    } else {
        Seq::empty()
    }) + seq![':', ' '] + p.description
}

/// A scan stops at or after its start and within the text.
pub proof fn lemma_scan_bounds(s: Seq<char>, from: int, class: CharClass)
    requires
        0 <= from <= s.len(),
    ensures
        from <= scan_while(s, from, class) <= s.len(),
        forall|k: int| from <= k < scan_while(s, from, class) ==> in_class(#[trigger] s[k], class),
        scan_while(s, from, class) < s.len() ==> !in_class(
            s[scan_while(s, from, class)],
            class,
        ),
    decreases s.len() - from,
{
    if from < s.len() && in_class(s[from], class) {
        lemma_scan_bounds(s, from + 1, class);
    }
}

/// A scan is decided by the characters it passes and the one it stops at.
pub proof fn lemma_scan_is(s: Seq<char>, from: int, to: int, class: CharClass)
    requires
        0 <= from <= to <= s.len(),
        forall|k: int| from <= k < to ==> in_class(#[trigger] s[k], class),
        to < s.len() ==> !in_class(s[to], class),
    ensures
        scan_while(s, from, class) == to,
    decreases to - from,
{
    if from < to {
        lemma_scan_is(s, from + 1, to, class);
    }
}

/// The emoji ends within the text.
pub proof fn lemma_emoji_bounds(s: Seq<char>)
    ensures
        0 <= emoji_len(s) <= s.len(),
{
    if s.len() > 0 && s[0] == ':' {
        lemma_scan_bounds(s, 1, CharClass::Code);
    }
    lemma_scan_bounds(s, 0, CharClass::Glyph);
}

/// Writing a parsed subject out again gives the subject, but for the emoji
/// and the spaces after it.
pub proof fn lemma_subject_round_trip(s: Seq<char>)
    requires
        parse_subject(s).is_some(),
    ensures
        subject_text(parse_subject(s).unwrap()) == s.subrange(type_start(s), s.len() as int),
        s == s.subrange(0, type_start(s)) + subject_text(parse_subject(s).unwrap()),
{
    lemma_emoji_bounds(s);
    let e = emoji_len(s);
    lemma_scan_bounds(s, e, CharClass::Space);
    let t0 = type_start(s);
    lemma_scan_bounds(s, t0, CharClass::Lower);
    let t1 = scan_while(s, t0, CharClass::Lower);
    if t1 < s.len() && s[t1] == '(' {
        lemma_scan_bounds(s, t1 + 1, CharClass::Scope);
    }
    let p = parse_subject(s).unwrap();
    assert(subject_text(p) =~= s.subrange(t0, s.len() as int));
    assert(s =~= s.subrange(0, t0) + s.subrange(t0, s.len() as int));
}

/// Parts that a subject can be written from: a type of lower-case letters, a
/// scope without a closing parenthesis, a description that is not empty.
pub open spec fn well_formed_parts(p: SubjectView) -> bool {
    &&& p.emoji.len() == 0
    &&& p.type_.len() > 0
    &&& forall|i: int| 0 <= i < p.type_.len() ==> in_class(#[trigger] p.type_[i], CharClass::Lower)
    &&& forall|i: int| 0 <= i < p.scope.len() ==> in_class(#[trigger] p.scope[i], CharClass::Scope)
    &&& p.description.len() > 0
}

/// The parts without the emoji.
pub open spec fn without_emoji(p: SubjectView) -> SubjectView {
    SubjectView {
        emoji: Seq::empty(),
        scope: p.scope,
        description: p.description,
        type_: p.type_,
        is_breaking: p.is_breaking,
    }
}

/// The parts read from a subject are well formed, but for the emoji: the
/// type is made of lower-case letters and is not empty, the scope holds no
/// closing parenthesis, and the description is not empty.
pub proof fn lemma_parsed_parts_well_formed(s: Seq<char>)
    requires
        parse_subject(s).is_some(),
    ensures
        well_formed_parts(without_emoji(parse_subject(s).unwrap())),
{
    lemma_emoji_bounds(s);
    lemma_scan_bounds(s, emoji_len(s), CharClass::Space);
    let t0 = type_start(s);
    lemma_scan_bounds(s, t0, CharClass::Lower);
    let t1 = scan_while(s, t0, CharClass::Lower);
    if t1 < s.len() && s[t1] == '(' {
        lemma_scan_bounds(s, t1 + 1, CharClass::Scope);
    }
    let p = parse_subject(s).unwrap();
    assert forall|i: int| 0 <= i < p.type_.len() implies in_class(
        #[trigger] p.type_[i],
        CharClass::Lower,
    ) by {
        assert(p.type_[i] == s[t0 + i]);
    }
    assert forall|i: int| 0 <= i < p.scope.len() implies in_class(
        #[trigger] p.scope[i],
        CharClass::Scope,
    ) by {
        assert(p.scope[i] == s[t1 + 1 + i]);
    }
}

/// A subject that was read, written out and read again gives the same parts,
/// but for the emoji.
pub proof fn lemma_read_write_read(s: Seq<char>)
    requires
        parse_subject(s).is_some(),
    ensures
        parse_subject(subject_text(parse_subject(s).unwrap())) == Some(
            without_emoji(parse_subject(s).unwrap()),
        ),
{
    lemma_parsed_parts_well_formed(s);
    lemma_written_subject_parses(without_emoji(parse_subject(s).unwrap()));
}

/// A subject written from well-formed parts is read back as those parts.
pub proof fn lemma_written_subject_parses(p: SubjectView)
    requires
        well_formed_parts(p),
    ensures
        parse_subject(subject_text(p)) == Some(p),
{
    let s = subject_text(p);
    let n = p.type_.len() as int;
    assert(s[0] == p.type_[0]);
    assert(!in_class(s[0], CharClass::Glyph) && s[0] != ':');
    assert(emoji_len(s) == 0);
    assert(forall|k: int| 0 <= k < n ==> s[k] == p.type_[k]);
    assert(!in_class(s[n], CharClass::Lower));
    lemma_scan_is(s, 0, 0, CharClass::Space);
    lemma_scan_is(s, 0, n, CharClass::Lower);
    let has_scope = p.scope.len() > 0;
    let m = p.scope.len() as int;
    if has_scope {
        assert(s[n] == '(');
        assert(forall|k: int| n + 1 <= k < n + 1 + m ==> s[k] == p.scope[k - n - 1]);
        assert(s[n + 1 + m] == ')');
        lemma_scan_is(s, n + 1, n + 1 + m, CharClass::Scope);
    }
    let a = if has_scope {
        n + m + 2
    } else {
        n
    };
    let b = if p.is_breaking {
        a + 1
    } else {
        a
    };
    assert(s[b] == ':');
    assert(s[b + 1] == ' ');
    let q = parse_subject(s).unwrap();
    assert(q.emoji =~= p.emoji);
    assert(q.type_ =~= p.type_);
    assert(q.scope =~= p.scope);
    assert(q.description =~= p.description);
}

/// Decides `in_class`.
pub fn class_has(c: char, class: CharClass) -> (r: bool)
    ensures
        r == in_class(c, class),
{
    match class {
        CharClass::Space => c == ' ',
        CharClass::Lower => 'a' <= c && c <= 'z',
        CharClass::Code => c != ':' && c != ' ',
        CharClass::Glyph => c > '\u{7F}',
        CharClass::Scope => c != ')',
        CharClass::Line => c != '\n',
    }
}

/// Computes `scan_while`.
pub fn scan(s: &Vec<char>, from: usize, class: CharClass) -> (r: usize)
    requires
        from <= s.len(),
    ensures
        r == scan_while(s@, from as int, class),
        from <= r <= s.len(),
{
    let mut i: usize = from;
    while i < s.len() && class_has(s[i], class)
        invariant
            from <= i <= s.len(),
            scan_while(s@, from as int, class) == scan_while(s@, i as int, class),
        decreases s.len() - i,
    {
        i += 1;
    }
    i
}

fn emoji_end(s: &Vec<char>) -> (r: usize)
    ensures
        r == emoji_len(s@),
        r <= s.len(),
{
    if s.len() == 0 {
        0
    } else if class_has(s[0], CharClass::Glyph) {
        scan(s, 0, CharClass::Glyph)
    } else if s[0] == ':' {
        let e: usize = scan(s, 1, CharClass::Code);
        if 1 < e && e < s.len() && s[e] == ':' {
            e + 1
        } else {
            0
        }
    } else {
        0
    }
}

/// Reads a subject line. Returns its parts where the line has the form
/// `[emoji] type[(scope)][!]: description`, and `None` where it has not.
pub fn parse_first_line(message: &str) -> (r: Option<Subject>)
    ensures
        match r {
            Some(p) => parse_subject(message@) == Some(p@),
            None => parse_subject(message@).is_none(),
        },
{
    let s: Vec<char> = chars_of(message);
    let n: usize = s.len();
    let e: usize = emoji_end(&s);
    let t0: usize = scan(&s, e, CharClass::Space);
    let t1: usize = scan(&s, t0, CharClass::Lower);
    if t1 == t0 {
        return None;
    }
    let has_scope: bool = t1 < n && s[t1] == '(';
    let c: usize = if has_scope {
        scan(&s, t1 + 1, CharClass::Scope)
    } else {
        t1
    };
    if has_scope && (c >= n || c == t1 + 1) {
        return None;
    }
    let a: usize = if has_scope {
        c + 1
    } else {
        t1
    };
    let bang: bool = a < n && s[a] == '!';
    let b: usize = if bang {
        a + 1
    } else {
        a
    };
    if n - b > 2 && s[b] == ':' && s[b + 1] == ' ' {
        let scope: String = if has_scope {
            slice_of(message, t1 + 1, c)
        } else {
            String::new()
        };
        Some(
            Subject {
                emoji: slice_of(message, 0, e),
                scope,
                description: slice_of(message, b + 2, n),
                type_: slice_of(message, t0, t1),
                is_breaking: bang,
            },
        )
    } else {
        None
    }
}

/// What a co-author trailer starts with.
pub open spec fn trailer_prefix() -> Seq<char> {
    "Co-authored-by: "@
}

/// A space directly before an opening angle bracket, at position `q`.
pub open spec fn is_sep(s: Seq<char>, q: int) -> bool {
    0 <= q && q + 1 < s.len() && s[q] == ' ' && s[q + 1] == '<'
}

/// The last position in `lo..hi` at which a separator stands, or -1.
pub open spec fn last_sep(s: Seq<char>, lo: int, hi: int) -> int
    decreases hi - lo,
{
    if hi <= lo {
        -1
    } else if is_sep(s, hi - 1) {
        hi - 1
    } else {
        last_sep(s, lo, hi - 1)
    }
}

/// The co-author that a line of the form `Co-authored-by: name <mail>`
/// names, and `None` for any other line. Name and mail are not empty; where
/// several separators could part them, the last one does.
pub open spec fn parse_trailer(line: Seq<char>) -> Option<AuthorView> {
    let p = trailer_prefix().len() as int;
    if !occurs_at(line, trailer_prefix(), 0) || line.len() < p + 5 || line.last() != '>' {
        None
    } else {
        let q = last_sep(line, p + 1, line.len() - 3);
        if q < 0 {
            None
        } else {
            Some(
                AuthorView {
                    name: line.subrange(p, q),
                    mail: line.subrange(q + 2, line.len() - 1),
                    username: Seq::empty(),
                },
            )
        }
    }
}

/// Reads one line of a commit body as a co-author trailer.
pub fn parse_author_from_line(line: &str) -> (r: Option<Author>)
    ensures
        match r {
            Some(a) => parse_trailer(line@) == Some(a@),
            None => parse_trailer(line@).is_none(),
        },
{
    let s: Vec<char> = chars_of(line);
    let pv: Vec<char> = chars_of("Co-authored-by: ");
    let n: usize = s.len();
    let p: usize = pv.len();
    if !has_at(&s, &pv, 0) {
        return None;
    }
    if n - p < 5 || s[n - 1] != '>' {
        return None;
    }
    let mut hi: usize = n - 3;
    while hi > p + 1
        invariant
            p + 1 <= hi <= n - 3,
            n == s.len(),
            p == pv.len(),
            s@ == line@,
            pv@ == trailer_prefix(),
            occurs_at(s@, pv@, 0),
            s@.last() == '>',
            last_sep(s@, p + 1, n - 3) == last_sep(s@, p + 1, hi as int),
        decreases hi,
    {
        if s[hi - 1] == ' ' && s[hi] == '<' {
            let q: usize = hi - 1;
            assert(is_sep(s@, q as int));
            return Some(
                Author {
                    name: slice_of(line, p, q),
                    mail: slice_of(line, q + 2, n - 1),
                    username: String::new(),
                },
            );
        }
        hi -= 1;
    }
    None
}

/// A line without the carriage return that may end it.
pub open spec fn without_cr(line: Seq<char>) -> Seq<char> {
    if line.len() > 0 && line.last() == '\r' {
        line.drop_last()
    } else {
        line
    }
}

/// The co-authors named by the lines of `body` from position `from` on, in
/// the order of the lines.
pub open spec fn trailers_from(body: Seq<char>, from: int) -> Seq<AuthorView>
    decreases body.len() - from,
{
    let end = scan_while(body, from, CharClass::Line);
    if from < 0 || from >= body.len() || end < from || end > body.len() {
        Seq::empty()
    } else {
        let rest = if end < body.len() {
            trailers_from(body, end + 1)
        } else {
            Seq::empty()
        };
        match parse_trailer(without_cr(body.subrange(from, end))) {
            Some(a) => seq![a] + rest,
            None => rest,
        }
    }
}

/// Appends to `authors` the co-authors that the trailer lines of `body`
/// name, in the order of the lines.
pub fn parse_author_from_body(body: &str, authors: &mut Vec<Author>)
    ensures
        authors_view(final(authors)@) == authors_view(old(authors)@) + trailers_from(body@, 0),
{
    let s: Vec<char> = chars_of(body);
    let n: usize = s.len();
    let ghost start = authors_view(authors@);
    let mut pos: usize = 0;
    assert(authors_view(authors@) + trailers_from(body@, 0) =~= start + trailers_from(body@, 0));
    while pos < n
        invariant
            s@ == body@,
            n == s.len(),
            pos <= n,
            authors_view(authors@) + trailers_from(body@, pos as int) == start + trailers_from(
                body@,
                0,
            ),
        decreases n - pos,
    {
        let end: usize = scan(&s, pos, CharClass::Line);
        let stop: usize = if end > pos && s[end - 1] == '\r' {
            end - 1
        } else {
            end
        };
        let ghost raw = body@.subrange(pos as int, end as int);
        assert(body@.subrange(pos as int, stop as int) =~= without_cr(raw));
        let line: String = slice_of(body, pos, stop);
        let ghost before = authors_view(authors@);
        let ghost rest = if end < n {
            trailers_from(body@, end + 1)
        } else {
            Seq::<AuthorView>::empty()
        };
        match parse_author_from_line(line.as_str()) {
            Some(a) => {
                let ghost av = a@;
                authors.push(a);
                assert(authors_view(authors@) =~= before.push(av));
                assert(before.push(av) + rest =~= before + (seq![av] + rest));
            },
            None => {},
        }
        if end < n {
            pos = end + 1;
        } else {
            pos = n;
        }
    }
    assert(trailers_from(body@, pos as int) =~= Seq::<AuthorView>::empty());
    assert(authors_view(authors@) + Seq::<AuthorView>::empty() =~= authors_view(authors@));
}

/// The commit that a subject, a body and a primary author make: the parts
/// of the subject, and the primary author followed by the co-authors of
/// the body. `None` where the subject cannot be classified.
pub open spec fn classified(
    hash: Seq<char>,
    subject: Seq<char>,
    body: Seq<char>,
    author: AuthorView,
) -> Option<CommitView> {
    match parse_subject(subject) {
        Some(p) => Some(
            CommitView {
                hash,
                type_: p.type_,
                scope: p.scope,
                description: p.description,
                is_breaking: p.is_breaking,
                authors: seq![author] + trailers_from(body, 0),
            },
        ),
        None => None,
    }
}

/// Classifies one commit from its id, its subject line, its body and its
/// primary author.
pub fn get_commit(hash: &str, subject: &str, body: &str, author: Author) -> (r: Option<Commit>)
    ensures
        match r {
            Some(c) => classified(hash@, subject@, body@, author@) == Some(c@) && c.authors.len()
                >= 1 && c.authors@[0]@ == author@,
            None => classified(hash@, subject@, body@, author@).is_none(),
        },
{
    let ghost av = author@;
    let mut authors: Vec<Author> = Vec::new();
    authors.push(author);
    assert(authors_view(authors@) =~= seq![av]);
    parse_author_from_body(body, &mut authors);
    match parse_first_line(subject) {
        Some(p) => {
            let c: Commit = Commit::new(
                String::from_str(hash),
                p.type_,
                p.scope,
                p.description,
                p.is_breaking,
                authors,
            );
            assert(c@.authors == seq![av] + trailers_from(body@, 0));
            assert(c@.authors.len() == c.authors@.len());
            assert(c@.authors[0] == c.authors@[0]@);
            Some(c)
        },
        None => None,
    }
}

/// The first line of a text: what stands before the first line feed,
/// without a carriage return at its end.
pub open spec fn first_line_of(message: Seq<char>) -> Seq<char> {
    without_cr(message.subrange(0, scan_while(message, 0, CharClass::Line)))
}

/// Takes the subject line of a commit message.
pub fn first_line(message: &str) -> (r: String)
    ensures
        r@ == first_line_of(message@),
{
    let s: Vec<char> = chars_of(message);
    let end: usize = scan(&s, 0, CharClass::Line);
    let stop: usize = if end > 0 && s[end - 1] == '\r' {
        end - 1
    } else {
        end
    };
    assert(message@.subrange(0, stop as int) =~= without_cr(message@.subrange(0, end as int)));
    slice_of(message, 0, stop)
}

} // verus!
