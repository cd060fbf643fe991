//! The records a changelog is built from: authors and classified commits.

use vstd::prelude::*;
use vstd::string::*;

verus! {

/// A contributor. Two authors with the same `mail` are the same person.
#[derive(Debug, Clone)]
pub struct Author {
    pub name: String,
    pub mail: String,
    /// Public handle; empty where it is not known.
    pub username: String,
}

/// What an `Author` holds, as sequences of characters.
pub struct AuthorView {
    pub name: Seq<char>,
    pub mail: Seq<char>,
    pub username: Seq<char>,
}

impl View for Author {
    type V = AuthorView;

    open spec fn view(&self) -> AuthorView {
        AuthorView { name: self.name@, mail: self.mail@, username: self.username@ }
    }
}

/// How an author is shown in an attribution: by handle where there is one,
/// by name otherwise.
pub open spec fn display_of(a: AuthorView) -> Seq<char> {
    if a.username.len() == 0 {
        a.name
    } else {
        "@"@ + a.username
    }
}

/// The views of a sequence of authors.
pub open spec fn authors_view(authors: Seq<Author>) -> Seq<AuthorView> {
    Seq::new(authors.len(), |i: int| authors[i]@)
}

impl Author {
    pub fn new(name: String, mail: String, username: String) -> (r: Author)
        ensures
            r@ == (AuthorView { name: name@, mail: mail@, username: username@ }),
    {
        Author { name, mail, username }
    }

    pub fn get_display(&self) -> (r: String)
        ensures
            r@ == display_of(self@),
    {
        if self.username.as_str().unicode_len() == 0 {
            self.name.clone()
        } else {
            let mut s: String = String::from_str("@");
            s.append(self.username.as_str());
            s
        }
    }

    /// A copy with the same name, mail and handle.
    pub fn copy(&self) -> (r: Author)
        ensures
            r@ == self@,
    {
        Author {
            name: self.name.clone(),
            mail: self.mail.clone(),
            username: self.username.clone(),
        }
    }
}

/// Copies a list of authors.
pub fn copy_authors(authors: &Vec<Author>) -> (r: Vec<Author>)
    ensures
        authors_view(r@) == authors_view(authors@),
{
    let mut r: Vec<Author> = Vec::new();
    let mut i: usize = 0;
    while i < authors.len()
        invariant
            i <= authors.len(),
            r.len() == i,
            forall|k: int| 0 <= k < i ==> r@[k]@ == authors@[k]@,
        decreases authors.len() - i,
    {
        r.push(authors[i].copy());
        i += 1;
    }
    assert(authors_view(r@) =~= authors_view(authors@));
    r
}

/// A classified commit.
#[derive(Debug, Clone)]
pub struct Commit {
    /// Full hexadecimal object id.
    pub hash: String,
    pub type_: String,
    /// Empty where the subject names no scope.
    pub scope: String,
    pub description: String,
    pub is_breaking: bool,
    /// The primary author first, co-authors after.
    pub authors: Vec<Author>,
}

/// What a `Commit` holds, as sequences.
pub struct CommitView {
    pub hash: Seq<char>,
    pub type_: Seq<char>,
    pub scope: Seq<char>,
    pub description: Seq<char>,
    pub is_breaking: bool,
    pub authors: Seq<AuthorView>,
}

impl View for Commit {
    type V = CommitView;

    open spec fn view(&self) -> CommitView {
        CommitView {
            hash: self.hash@,
            type_: self.type_@,
            scope: self.scope@,
            description: self.description@,
            is_breaking: self.is_breaking,
            authors: authors_view(self.authors@),
        }
    }
}

/// The views of a sequence of commits.
pub open spec fn commits_view(commits: Seq<Commit>) -> Seq<CommitView> {
    Seq::new(commits.len(), |i: int| commits[i]@)
}

impl Commit {
    pub fn new(
        hash: String,
        type_: String,
        scope: String,
        description: String,
        is_breaking: bool,
        authors: Vec<Author>,
    ) -> (r: Commit)
        ensures
            r@ == (CommitView {
                hash: hash@,
                type_: type_@,
                scope: scope@,
                description: description@,
                is_breaking,
                authors: authors_view(authors@),
            }),
    {
        Commit { hash, type_, scope, description, is_breaking, authors }
    }

    /// A copy with the same fields.
    pub fn copy(&self) -> (r: Commit)
        ensures
            r@ == self@,
    {
        Commit {
            hash: self.hash.clone(),
            type_: self.type_.clone(),
            scope: self.scope.clone(),
            description: self.description.clone(),
            is_breaking: self.is_breaking,
            authors: copy_authors(&self.authors),
        }
    }
}

} // verus!
