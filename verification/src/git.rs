//! Commit records, remote repository information, and the parser that
//! turns a git remote URL into a browsable base URL.

use vstd::prelude::*;

use crate::text::{
    ends_with, find_char, find_from, starts_with, str_starts_with, trim_char_end, trim_end_char,
    trim_end_text, trim_text_end,
};

verus! {

/// Information about a remote repository: the base URL under which
/// commits, issues and releases can be linked, always ending in `/`.
#[derive(Debug, Clone)]
pub struct RemoteInfo {
    pub base_url: String,
}

/// One commit record as delivered by the commit source: identity,
/// summary line and message body.
#[derive(Debug, Clone)]
pub struct CommitInfo {
    /// The full commit hash.
    pub id: String,
    /// The abbreviated commit hash.
    pub short_id: String,
    /// The first line of the commit message; classification may strip a
    /// recognized prefix from it.
    pub summary: String,
    /// The rest of the commit message.
    pub body: String,
}

/// The base URL derived from a remote URL: an SSH form `git@host:path`
/// becomes `https://host/path/` with trailing slashes and `.git`
/// suffixes removed from the path, an `https://` form keeps its text up
/// to trailing `.git` suffixes and gains a trailing slash if it has
/// none, and any other form yields nothing.
pub open spec fn remote_base_of(u: Seq<char>) -> Option<Seq<char>> {
    if starts_with(u, "git@"@) {
        match find_from(u, ':', 0) {
            Some(ci) => {
                let host_part = u.subrange(0, ci);
                let path_part = u.subrange(ci + 1, u.len() as int);
                let host = if starts_with(host_part, "git@"@) {
                    host_part.subrange("git@"@.len() as int, host_part.len() as int)
                } else {
                    host_part
                };
                let path = trim_end_text(trim_end_char(path_part, '/'), ".git"@);
                Some("https://"@ + host + "/"@ + path + "/"@)
            },
            None => None,
        }
    } else if starts_with(u, "https://"@) {
        let without_git = trim_end_text(u, ".git"@);
        if without_git.len() > 0 && without_git[without_git.len() - 1] == '/' {
            Some(without_git)
        } else {
            Some(without_git + "/"@)
        }
    } else {
        None
    }
}

/// Parses a git remote URL into the base URL used for links.
///
/// SSH URLs (`git@host:owner/repo[.git][/]`) are rewritten to their
/// `https` form; `https` URLs lose a trailing `.git` and gain a trailing
/// slash when missing one; anything else is rejected.
pub fn parse_remote_url(url: &str) -> (r: Option<RemoteInfo>)
    ensures
        match r {
            Some(ri) => remote_base_of(url@) == Some(ri.base_url@),
            None => remote_base_of(url@) is None,
        },
{
    let n = url.unicode_len();
    if str_starts_with(url, "git@") {
        match find_char(url, ':', 0) {
            Some(ci) => {
                proof {
                    reveal_strlit("git@");
                    assert(forall|k: int| 0 <= k < 4 ==> url@[k] == "git@"@[k]);
                    crate::text::lemma_find_from_props(url@, ':', 0);
                }
                // the colon cannot fall inside the leading `git@`
                assert(ci >= 4);
                let host = url.substring_char(4, ci);
                let path_part = url.substring_char(ci + 1, n);
                let ppn = path_part.unicode_len();
                let e1 = trim_char_end(path_part, ppn, '/');
                proof {
                    reveal_strlit(".git");
                }
                let e2 = trim_text_end(path_part, e1, ".git");
                let path = path_part.substring_char(0, e2);
                let mut out = "https://".to_owned();
                out.append(host);
                out.append("/");
                out.append(path);
                out.append("/");
                proof {
                    let u = url@;
                    let host_part = u.subrange(0, ci as int);
                    assert(host_part.subrange(0, 4) =~= u.subrange(0, 4));
                    assert(starts_with(host_part, "git@"@));
                    assert(host_part.subrange(4, host_part.len() as int) =~= u.subrange(
                        4,
                        ci as int,
                    ));
                    assert(path_part@.subrange(0, ppn as int) =~= path_part@);
                    assert(out@ =~= remote_base_of(u)->Some_0);
                }
                Some(RemoteInfo { base_url: out })
            },
            None => None,
        }
    } else if str_starts_with(url, "https://") {
        proof {
            reveal_strlit(".git");
        }
        let e = trim_text_end(url, n, ".git");
        assert(url@.subrange(0, n as int) =~= url@);
        if e > 0 && url.get_char(e - 1) == '/' {
            let base = url.substring_char(0, e).to_owned();
            Some(RemoteInfo { base_url: base })
        } else {
            let mut base = url.substring_char(0, e).to_owned();
            base.append("/");
            proof {
                let wg = trim_end_text(url@, ".git"@);
                assert(base@ =~= wg + "/"@);
            }
            Some(RemoteInfo { base_url: base })
        }
    } else {
        None
    }
}

} // verus!
