//! Telling a remote repository from a local path.

use crate::analyze::rules::join2;
use crate::text::bytes::{has_prefix, has_suffix, range_starts_with, matches_at, occurs_at};
use crate::types::file::lit;
use vstd::prelude::*;
use vstd::string::StringSliceAdditionalSpecFns;
use vstd::utf8::encode_utf8;

verus! {

/// Whether a path names a repository on GitHub or GitLab: it begins with
/// the host, with `https://` before it or not, or with `git@` and the host.
pub open spec fn names_remote(path: Seq<u8>) -> bool {
    ||| has_prefix(path, lit("https://github.com"))
    ||| has_prefix(path, lit("https://gitlab.com"))
    ||| has_prefix(path, lit("github.com"))
    ||| has_prefix(path, lit("gitlab.com"))
    ||| has_prefix(path, lit("git@github.com"))
    ||| has_prefix(path, lit("git@gitlab.com"))
}

/// Whether `path` names a repository on GitHub or GitLab.
pub fn is_remote_url(path: &str) -> (res: bool)
    ensures
        res == names_remote(path.spec_bytes()),
{
    let b = path.as_bytes();
    let n = b.len();
    assert(b@.subrange(0, n as int) =~= b@);
    range_starts_with(b, 0, n, "https://github.com".as_bytes()) || range_starts_with(
        b,
        0,
        n,
        "https://gitlab.com".as_bytes(),
    ) || range_starts_with(b, 0, n, "github.com".as_bytes()) || range_starts_with(
        b,
        0,
        n,
        "gitlab.com".as_bytes(),
    ) || range_starts_with(b, 0, n, "git@github.com".as_bytes()) || range_starts_with(
        b,
        0,
        n,
        "git@gitlab.com".as_bytes(),
    )
}

/// Whether a path begins with a bare host name.
pub open spec fn begins_with_host(path: Seq<u8>) -> bool {
    has_prefix(path, lit("github.com")) || has_prefix(path, lit("gitlab.com"))
}

/// The address from which a repository is cloned: `https://` before a bare
/// host name, and `.git` at the end unless it is there.
pub open spec fn git_url(path: Seq<char>) -> Seq<char> {
    let bytes = encode_utf8(path);
    let head = if begins_with_host(bytes) {
        "https://"@ + path
    } else {
        path
    };
    if has_suffix(bytes, lit(".git")) {
        head
    } else {
        head + ".git"@
    }
}

/// The address from which the repository `path` is cloned.
pub fn normalize_git_url(path: &str) -> (res: String)
    ensures
        res@ == git_url(path@),
{
    let b = path.as_bytes();
    let n = b.len();
    assert(b@.subrange(0, n as int) =~= b@);
    let host = range_starts_with(b, 0, n, "github.com".as_bytes()) || range_starts_with(
        b,
        0,
        n,
        "gitlab.com".as_bytes(),
    );
    let url = if host {
        join2("https://", path)
    } else {
        path.to_owned()
    };
    let suffix = ".git".as_bytes();
    let ends = suffix.len() <= n && matches_at(b, n - suffix.len(), n, suffix);
    proof {
        if suffix@.len() > n {
            assert(!occurs_at(b@, suffix@, b@.len() - suffix@.len()));
        }
    }
    if ends {
        url
    } else {
        join2(url.as_str(), ".git")
    }
}

} // verus!
