//! Resolving the public handle of a contributor, with a cache that
//! remembers every answer for the rest of a run.

use vstd::prelude::*;
use vstd::string::*;
use crate::dict::{Dict, lookup};
use crate::model::{Author, AuthorView};

verus! {

/// An author with the handle filled in: the one the author comes with, else
/// the one the cache holds for the mail, else none.
pub open spec fn resolved(a: AuthorView, cache: Seq<(Seq<char>, Seq<char>)>) -> AuthorView {
    AuthorView {
        name: a.name,
        mail: a.mail,
        username: if a.username.len() > 0 {
            a.username
        } else {
            match lookup(cache, a.mail) {
                Some(h) => h,
                None => Seq::empty(),
            }
        },
    }
}

/// Fills in the handle of an author from the cache.
pub fn resolve_author(a: &Author, cache: &Dict) -> (r: Author)
    ensures
        r@ == resolved(a@, cache@),
{
    let username: String = if a.username.as_str().unicode_len() > 0 {
        a.username.clone()
    } else {
        match cache.get(a.mail.as_str()) {
            Some(h) => h,
            None => String::new(),
        }
    };
    Author { name: a.name.clone(), mail: a.mail.clone(), username }
}

/// Whether a handle has to be looked up for the author: the author brings
/// none and the cache has no entry for the mail.
pub open spec fn lookup_needed(a: AuthorView, cache: Seq<(Seq<char>, Seq<char>)>) -> bool {
    a.username.len() == 0 && lookup(cache, a.mail).is_none()
}

/// Decides whether a handle has to be looked up for the author.
pub fn needs_lookup(a: &Author, cache: &Dict) -> (r: bool)
    ensures
        r == lookup_needed(a@, cache@),
{
    a.username.as_str().unicode_len() == 0 && !cache.contains_key(a.mail.as_str())
}

/// The cache after a handle is recorded for a mail. A handle that is known
/// stays; an empty or missing one is replaced.
pub open spec fn recorded(
    cache: Seq<(Seq<char>, Seq<char>)>,
    mail: Seq<char>,
    handle: Seq<char>,
) -> Seq<(Seq<char>, Seq<char>)> {
    match lookup(cache, mail) {
        Some(h) => if h.len() > 0 {
            cache
        } else {
            cache.push((mail, handle))
        },
        None => cache.push((mail, handle)),
    }
}

/// Records the handle found for a mail; an empty handle records that none
/// was found.
pub fn record_handle(cache: &mut Dict, mail: &str, handle: &str)
    ensures
        final(cache)@ == recorded(old(cache)@, mail@, handle@),
{
    let known: bool = match cache.get(mail) {
        Some(h) => h.as_str().unicode_len() > 0,
        None => false,
    };
    if !known {
        cache.insert(String::from_str(mail), String::from_str(handle));
    }
}

/// Once an answer is recorded for a mail, found or not, no author with that
/// mail needs a lookup again.
pub proof fn lemma_recorded_needs_no_lookup(
    cache: Seq<(Seq<char>, Seq<char>)>,
    a: AuthorView,
    handle: Seq<char>,
)
    ensures
        !lookup_needed(a, recorded(cache, a.mail, handle)),
{
    let after = recorded(cache, a.mail, handle);
    if after != cache {
        assert(after.last() == (a.mail, handle));
    }
}

/// Whichever comes first, a lookup that finds a handle for a mail or one
/// that finds none: afterwards the cache holds the handle that was found.
pub proof fn lemma_found_handle_wins(
    cache: Seq<(Seq<char>, Seq<char>)>,
    mail: Seq<char>,
    handle: Seq<char>,
)
    requires
        lookup(cache, mail).is_none(),
        handle.len() > 0,
    ensures
        lookup(recorded(recorded(cache, mail, handle), mail, Seq::empty()), mail) == Some(handle),
        lookup(recorded(recorded(cache, mail, Seq::empty()), mail, handle), mail) == Some(handle),
{
    let first = recorded(cache, mail, handle);
    assert(first.last() == (mail, handle));
    let other = recorded(cache, mail, Seq::empty());
    assert(other.last() == (mail, Seq::<char>::empty()));
    assert(lookup(other, mail) == Some(Seq::<char>::empty()));
    assert(recorded(other, mail, handle).last() == (mail, handle));
}

} // verus!
