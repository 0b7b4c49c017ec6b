//! Mount policy for agent containers: which host directories may be bound in.
use vstd::prelude::*;

use crate::proxy::opt_string_view;
use crate::text::{oct_spec, push_chars, str_chars, string_from_chars, trim, trim_spec, u32_to_oct};

verus! {

/// What canonicalising a mount source showed.
pub enum CanonFacts {
    /// Canonicalising failed; the error's text.
    Failed(String),
    /// The canonical path, and whether it exists and is a directory.
    Found { path: String, exists: bool, is_dir: bool },
}

/// `aifo-coder: warning: refusing to mount <purpose>`.
pub open spec fn refusal_prefix(purpose: Seq<char>) -> Seq<char> {
    "aifo-coder: warning: refusing to mount "@ + purpose
}

/// Before canonicalising: the trimmed path when it is absolute; `Err(None)` when it
/// is empty, `Err(Some(warning))` when it is relative.
pub open spec fn mount_precheck_spec(path: Seq<char>, purpose: Seq<char>) -> Result<Seq<char>, Option<Seq<char>>> {
    let p = trim_spec(path);
    if p.len() == 0 {
        Err(None)
    } else if p[0] != '/' {
        Err(Some("aifo-coder: warning: refusing to mount non-absolute path for "@ + purpose + ": "@ + p))
    } else {
        Ok(p)
    }
}

/// After canonicalising `shown`: the canonical path when it exists and is a
/// directory, else the warning.
pub open spec fn mount_verdict_spec(purpose: Seq<char>, shown: Seq<char>, facts: CanonFacts) -> Result<Seq<char>, Seq<char>> {
    match facts {
        CanonFacts::Failed(e) => Err(refusal_prefix(purpose) + ": cannot canonicalize "@ + shown + ": "@ + e@),
        CanonFacts::Found { path, exists, is_dir } => if !exists {
            Err(refusal_prefix(purpose) + ": path does not exist: "@ + path@)
        } else if !is_dir {
            Err(refusal_prefix(purpose) + ": not a directory: "@ + path@)
        } else {
            Ok(path@)
        },
    }
}

fn concat2(a: &str, b: &str) -> (s: String)
    ensures
        s@ == a@ + b@,
{
    let mut s = a.to_owned();
    s.push_str(b);
    s
}

fn concat3(a: &str, b: &str, c: &str) -> (s: String)
    ensures
        s@ == a@ + b@ + c@,
{
    let mut s = a.to_owned();
    s.push_str(b);
    s.push_str(c);
    s
}

fn refusal(purpose: &str, what: &str, shown: &str) -> (s: String)
    ensures
        s@ == refusal_prefix(purpose@) + what@ + shown@,
{
    proof {
        reveal_strlit("aifo-coder: warning: refusing to mount ");
    }
    let head = concat3("aifo-coder: warning: refusing to mount ", purpose, what);
    concat2(head.as_str(), shown)
}

fn mount_verdict(purpose: &str, shown: &str, facts: CanonFacts) -> (r: Result<String, String>)
    ensures
        match (r, mount_verdict_spec(purpose@, shown@, facts)) {
            (Ok(a), Ok(b)) => a@ == b,
            (Err(a), Err(b)) => a@ == b,
            _ => false,
        },
{
    match facts {
        CanonFacts::Failed(e) => {
            let head = refusal(purpose, ": cannot canonicalize ", shown);
            Err(concat3(head.as_str(), ": ", e.as_str()))
        },
        CanonFacts::Found { path, exists, is_dir } => {
            if !exists {
                Err(refusal(purpose, ": path does not exist: ", path.as_str()))
            } else if !is_dir {
                Err(refusal(purpose, ": not a directory: ", path.as_str()))
            } else {
                Ok(path)
            }
        },
    }
}

/// Validate a mount source directory taken from the environment. Returns the
/// canonical path when it is safe to mount, and the warning to print when it is
/// refused (none for an empty value). `canonicalize` resolves the trimmed path.
pub fn validate_mount_source_dir<F: Fn(&str) -> CanonFacts>(path_str: &str, purpose: &str, canonicalize: F) -> (r: (
    Option<String>,
    Option<String>,
))
    requires
        forall|p: &str| call_requires(canonicalize, (p,)),
    ensures
        match mount_precheck_spec(path_str@, purpose@) {
            Err(w) => r.0 is None && opt_string_view(r.1) == w,
            Ok(p) => exists|s: &str, facts: CanonFacts|
                s@ == p && #[trigger] call_ensures(canonicalize, (s,), facts) && match mount_verdict_spec(
                    purpose@,
                    p,
                    facts,
                ) {
                    Ok(c) => opt_string_view(r.0) == Some(c) && r.1 is None,
                    Err(w) => r.0 is None && opt_string_view(r.1) == Some(w),
                },
        },
{
    let cs = str_chars(path_str);
    let t = trim(cs.as_slice());
    let p = string_from_chars(t.as_slice());
    if t.len() == 0 {
        return (None, None);
    }
    if t[0] != '/' {
        proof {
            reveal_strlit("aifo-coder: warning: refusing to mount non-absolute path for ");
        }
        let head = concat3("aifo-coder: warning: refusing to mount non-absolute path for ", purpose, ": ");
        return (None, Some(concat2(head.as_str(), p.as_str())));
    }
    let facts = canonicalize(p.as_str());
    let ghost f = facts;
    match mount_verdict(purpose, p.as_str(), facts) {
        Ok(c) => (Some(c), None),
        Err(w) => (None, Some(w)),
    }
}

/// The socket directory check: `meta` is the owner and permission bits that
/// `fs::metadata` showed (none when it failed), `uid` the current user. The mode
/// must be 0700 or 0750; the warning says why a directory is refused.
pub open spec fn socket_dir_verdict_spec(meta: Option<(u32, u32)>, uid: u32, purpose: Seq<char>, dir: Seq<char>) -> (
    bool,
    Option<Seq<char>>,
) {
    match meta {
        None => (false, None),
        Some((owner, mode)) => if owner != uid {
            (false, Some(refusal_prefix(purpose) + ": not owned by current user: "@ + dir))
        } else {
            let m = mode % 512;
            if m == 0o700 || m == 0o750 {
                (true, None)
            } else {
                (
                    false,
                    Some(
                        refusal_prefix(purpose) + ": directory mode must be 0700 or 0750 (got "@ + oct_spec(m as nat)
                            + "): "@ + dir,
                    ),
                )
            }
        },
    }
}

/// Validate the owner and mode of the directory that holds the proxy's unix socket.
pub fn validate_unix_socket_dir_owner_mode(meta: Option<(u32, u32)>, uid: u32, purpose: &str, dir: &str) -> (r: (
    bool,
    Option<String>,
))
    ensures
        (r.0, opt_string_view(r.1)) == socket_dir_verdict_spec(meta, uid, purpose@, dir@),
{
    match meta {
        None => (false, None),
        Some((owner, mode)) => {
            if owner != uid {
                return (false, Some(refusal(purpose, ": not owned by current user: ", dir)));
            }
            let m = mode & 0o777;
            assert(mode & 0o777 == mode % 512) by (bit_vector);
            if m == 0o700 || m == 0o750 {
                (true, None)
            } else {
                proof {
                    reveal_strlit("aifo-coder: warning: refusing to mount ");
                }
                let mut s = concat3("aifo-coder: warning: refusing to mount ", purpose, ": directory mode must be 0700 or 0750 (got ");
                let oct = u32_to_oct(m);
                push_chars(&mut s, oct.as_slice());
                s.push_str("): ");
                s.push_str(dir);
                (false, Some(s))
            }
        },
    }
}

} // verus!
