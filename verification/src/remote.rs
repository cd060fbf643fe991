//! Reading the address of a remote, and the links built on it.

use vstd::prelude::*;
use vstd::string::*;
use crate::text::{chars_of, find, find_char, has_at, occurs_at, slice_of};

verus! {

/// No line feed stands in `s` from position `from` on.
pub open spec fn no_line_feed(s: Seq<char>, from: int) -> bool {
    find_char(s, '\n', from) >= s.len()
}

/// The host, the owner and the name that an address of the form
/// `git@host:owner/nameXgit` holds, where `X` is any one character.
pub open spec fn parse_ssh(s: Seq<char>) -> Option<(Seq<char>, Seq<char>, Seq<char>)> {
    let h0 = "git@"@.len() as int;
    let h1 = find_char(s, ':', h0);
    let s1 = find_char(s, '/', h1 + 1);
    let r0 = s1 + 1;
    if occurs_at(s, "git@"@, 0) && h0 < h1 < s.len() && h1 + 1 < s1 < s.len() && r0 < s.len()
        - "git"@.len() - 1 && occurs_at(s, "git"@, s.len() - "git"@.len()) && no_line_feed(s, r0) {
        Some(
            (
                s.subrange(h0, h1),
                s.subrange(h1 + 1, s1),
                s.subrange(r0, s.len() - "git"@.len() - 1),
            ),
        )
    } else {
        None
    }
}

/// The host, the owner and the name that an address of the form
/// `scheme host/owner/name` holds, the scheme being the text `scheme`.
pub open spec fn parse_web(
    s: Seq<char>,
    scheme: Seq<char>,
) -> Option<(Seq<char>, Seq<char>, Seq<char>)> {
    let h0 = scheme.len() as int;
    let h1 = find_char(s, '/', h0);
    let s1 = find_char(s, '/', h1 + 1);
    let r0 = s1 + 1;
    if occurs_at(s, scheme, 0) && h0 < h1 < s.len() && h1 + 1 < s1 < s.len() && r0 < s.len()
        && no_line_feed(s, r0) {
        Some((s.subrange(h0, h1), s.subrange(h1 + 1, s1), s.subrange(r0, s.len() as int)))
    } else {
        None
    }
}

/// The host, the owner and the name of the repository that the address of a
/// remote holds, and `None` where the address has none of the known forms.
pub open spec fn parse_remote(s: Seq<char>) -> Option<(Seq<char>, Seq<char>, Seq<char>)> {
    if parse_ssh(s).is_some() {
        parse_ssh(s)
    } else if parse_web(s, "http://"@).is_some() {
        parse_web(s, "http://"@)
    } else {
        parse_web(s, "https://"@)
    }
}

fn read_ssh(url: &str) -> (r: Option<(String, String, String)>)
    ensures
        match r {
            Some(p) => parse_ssh(url@) == Some((p.0@, p.1@, p.2@)),
            None => parse_ssh(url@).is_none(),
        },
{
    let s: Vec<char> = chars_of(url);
    let head: Vec<char> = chars_of("git@");
    let tail: Vec<char> = chars_of("git");
    let n: usize = s.len();
    if !has_at(&s, &head, 0) {
        return None;
    }
    let h0: usize = head.len();
    let h1: usize = find(&s, ':', h0);
    if !(h0 < h1 && h1 < n) {
        return None;
    }
    let s1: usize = find(&s, '/', h1 + 1);
    if !(h1 + 1 < s1 && s1 < n) {
        return None;
    }
    let r0: usize = s1 + 1;
    if n - r0 <= tail.len() || n - r0 - tail.len() <= 1 {
        return None;
    }
    if !has_at(&s, &tail, n - tail.len()) {
        return None;
    }
    if find(&s, '\n', r0) < n {
        return None;
    }
    Some((slice_of(url, h0, h1), slice_of(url, h1 + 1, s1), slice_of(url, r0, n - tail.len() - 1)))
}

fn read_web(url: &str, scheme: &str) -> (r: Option<(String, String, String)>)
    ensures
        match r {
            Some(p) => parse_web(url@, scheme@) == Some((p.0@, p.1@, p.2@)),
            None => parse_web(url@, scheme@).is_none(),
        },
{
    let s: Vec<char> = chars_of(url);
    let head: Vec<char> = chars_of(scheme);
    let n: usize = s.len();
    if !has_at(&s, &head, 0) {
        return None;
    }
    let h0: usize = head.len();
    let h1: usize = find(&s, '/', h0);
    if !(h0 < h1 && h1 < n) {
        return None;
    }
    let s1: usize = find(&s, '/', h1 + 1);
    if !(h1 + 1 < s1 && s1 < n) {
        return None;
    }
    let r0: usize = s1 + 1;
    if r0 >= n {
        return None;
    }
    if find(&s, '\n', r0) < n {
        return None;
    }
    Some((slice_of(url, h0, h1), slice_of(url, h1 + 1, s1), slice_of(url, r0, n)))
}

/// Reads the address of a remote: host, owner and repository name.
pub fn parse_git_url(url: &str) -> (r: Option<(String, String, String)>)
    ensures
        match r {
            Some(p) => parse_remote(url@) == Some((p.0@, p.1@, p.2@)),
            None => parse_remote(url@).is_none(),
        },
{
    match read_ssh(url) {
        Some(p) => Some(p),
        None => match read_web(url, "http://") {
            Some(p) => Some(p),
            None => read_web(url, "https://"),
        },
    }
}

/// The parts of the address of a remote, where the remote has an address
/// and the address can be read.
pub fn get_host_scope_repo(remote_url: &Option<String>) -> (r: Option<(String, String, String)>)
    ensures
        match r {
            Some(p) => remote_url.is_some() && parse_remote(remote_url.unwrap()@) == Some(
                (p.0@, p.1@, p.2@),
            ),
            None => remote_url.is_none() || parse_remote(remote_url.unwrap()@).is_none(),
        },
{
    match remote_url {
        Some(url) => parse_git_url(url.as_str()),
        None => None,
    }
}

/// The address under which the commits of a repository are shown.
pub open spec fn base_url_of(parts: Option<(Seq<char>, Seq<char>, Seq<char>)>) -> Seq<char> {
    match parts {
        Some(p) => "https://"@ + p.0 + "/"@ + p.1 + "/"@ + p.2 + "/commit"@,
        None => Seq::empty(),
    }
}

/// Writes the address under which commits are shown; empty where the
/// remote is not known.
pub fn commit_base_url(parts: &Option<(String, String, String)>) -> (r: String)
    ensures
        r@ == base_url_of(
            match parts {
                Some(p) => Some((p.0@, p.1@, p.2@)),
                None => None,
            },
        ),
{
    match parts {
        Some(p) => {
            let mut s: String = String::from_str("https://");
            s.append(p.0.as_str());
            s.append("/");
            s.append(p.1.as_str());
            s.append("/");
            s.append(p.2.as_str());
            s.append("/commit");
            s
        },
        None => String::new(),
    }
}

} // verus!
