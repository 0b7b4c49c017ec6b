//! Repository lock: hashed lock-file names, candidate locations and messages.
use vstd::prelude::*;

use vstd::string::StringSliceAdditionalSpecFns;

use crate::escape::strings_view;
use crate::fork_names::{path_join, path_join_spec};
use crate::text::{hex_fixed, hex_fixed_exec, string_from_chars};

verus! {

pub open spec fn fnv_offset() -> u64 {
    0xcbf29ce484222325u64
}

pub open spec fn fnv_prime() -> u64 {
    1099511628211u64
}

/// 64-bit FNV-1a of a byte sequence.
pub open spec fn fnv1a_spec(bytes: Seq<u8>) -> u64
    decreases bytes.len(),
{
    if bytes.len() == 0 {
        fnv_offset()
    } else {
        vstd::wrapping::u64_specs::wrapping_mul(
            fnv1a_spec(bytes.drop_last()) ^ (bytes.last() as u64),
            fnv_prime(),
        )
    }
}

/// FNV-1a of the UTF-8 bytes of `s`, as 16 lower-case hexadecimal digits.
pub open spec fn repo_key_hex_spec(s: &str) -> Seq<char> {
    hex_fixed(fnv1a_spec(s.spec_bytes()) as nat, 16)
}

/// Stable 64-bit FNV-1a hash of a string, rendered as a 16-digit lower-case hex id.
pub fn hash_repo_key_hex(s: &str) -> (out: String)
    ensures
        out@ == repo_key_hex_spec(s),
{
    let bytes = s.as_bytes();
    let mut h: u64 = 0xcbf29ce484222325u64;
    let mut i: usize = 0;
    while i < bytes.len()
        invariant
            i <= bytes@.len(),
            bytes@ == s.spec_bytes(),
            h == fnv1a_spec(bytes@.take(i as int)),
        decreases bytes@.len() - i,
    {
        assert(bytes@.take(i + 1).drop_last() =~= bytes@.take(i as int));
        h = h ^ (bytes[i] as u64);
        h = h.wrapping_mul(1099511628211u64);
        i = i + 1;
    }
    assert(bytes@.take(bytes@.len() as int) =~= bytes@);
    let v = hex_fixed_exec(h, 16);
    string_from_chars(v.as_slice())
}

/// ASCII upper case of one character.
pub open spec fn upper_char(c: char) -> char {
    if 'a' <= c && c <= 'z' {
        ((c as u32) - 32) as char
    } else {
        c
    }
}

/// The key a repository path is hashed under. Elsewhere than on Windows it is the
/// (canonical) path itself; on Windows separators become `\`, the text is lower-cased
/// in ASCII and a drive letter (`c:` at the start) is upper-cased again.
pub open spec fn repo_key_spec(path: Seq<char>, windows: bool) -> Seq<char> {
    if !windows {
        path
    } else {
        let t = crate::text::lower_spec(path.map_values(|c: char| if c == '/' { '\\' } else { c }));
        if t.len() >= 2 && (t[0] as u32) < 128 && t[1] == ':' {
            t.update(0, upper_char(t[0]))
        } else {
            t
        }
    }
}

/// How a character counts in a Windows repository key: ASCII case and the separator
/// style do not matter.
pub open spec fn key_fold(c: char) -> char {
    crate::text::lower_char(if c == '/' { '\\' } else { c })
}

/// On Windows, two spellings of a path that differ only in ASCII letter case and in
/// `/` versus `\` separators get the same key, so they share one lock.
pub proof fn lemma_windows_key_ignores_case_and_separators(p: Seq<char>, q: Seq<char>)
    requires
        p.len() == q.len(),
        forall|i: int| 0 <= i < p.len() ==> key_fold(#[trigger] p[i]) == key_fold(q[i]),
    ensures
        repo_key_spec(p, true) == repo_key_spec(q, true),
{
    let tp = crate::text::lower_spec(p.map_values(|c: char| if c == '/' { '\\' } else { c }));
    let tq = crate::text::lower_spec(q.map_values(|c: char| if c == '/' { '\\' } else { c }));
    assert forall|i: int| 0 <= i < p.len() implies tp[i] == tq[i] by {
        assert(key_fold(p[i]) == key_fold(q[i]));
    }
    assert(tp =~= tq);
}

/// Normalize a (canonicalized) repository path for hashing to a stable key.
pub fn normalized_repo_key_for_hash(path: &str, windows: bool) -> (out: String)
    ensures
        out@ == repo_key_spec(path@, windows),
{
    if !windows {
        return path.to_owned();
    }
    let cs = crate::text::str_chars(path);
    let mut t: Vec<char> = Vec::new();
    let mut i: usize = 0;
    while i < cs.len()
        invariant
            i <= cs@.len(),
            t@ == crate::text::lower_spec(cs@.take(i as int).map_values(|c: char| if c == '/' { '\\' } else { c })),
        decreases cs@.len() - i,
    {
        let c = cs[i];
        let d = if c == '/' {
            '\\'
        } else {
            c
        };
        t.push(crate::text::char_to_lower(d));
        assert(cs@.take(i + 1).map_values(|c: char| if c == '/' { '\\' } else { c }) =~= cs@.take(i as int).map_values(
            |c: char| if c == '/' { '\\' } else { c },
        ).push(d));
        assert(t@ =~= crate::text::lower_spec(cs@.take(i + 1).map_values(|c: char| if c == '/' { '\\' } else { c })));
        i = i + 1;
    }
    assert(cs@.take(cs@.len() as int) =~= cs@);
    if t.len() >= 2 && (t[0] as u32) < 128 && t[1] == ':' {
        let c = t[0];
        let u = if 'a' <= c && c <= 'z' {
            ((c as u32 - 32) as u8) as char
        } else {
            c
        };
        t.set(0, u);
    }
    string_from_chars(t.as_slice())
}

/// The lock is taken unless `AIFO_CODER_SKIP_LOCK` is exactly `1`.
pub fn should_acquire_lock(skip_lock_env: Option<&str>) -> (b: bool)
    ensures
        b == !(skip_lock_env matches Some(v) && v@ == "1"@),
{
    match skip_lock_env {
        Some(v) => {
            let cs = crate::text::str_chars(v);
            let one = crate::text::str_chars("1");
            !crate::text::chars_eq(cs.as_slice(), one.as_slice())
        },
        None => true,
    }
}

/// Non-empty value of an optional environment string.
pub open spec fn nonempty(v: Option<Seq<char>>) -> Option<Seq<char>> {
    match v {
        Some(s) => if s.len() > 0 {
            Some(s)
        } else {
            None
        },
        None => None,
    }
}

pub open spec fn opt_view(v: Option<&str>) -> Option<Seq<char>> {
    match v {
        Some(s) => Some(s@),
        None => None,
    }
}

/// Candidate lock files. Inside a repository: `<repo>/.aifo-coder.lock`, then
/// `<runtime>/aifo-coder.<hash>.lock` (runtime = `XDG_RUNTIME_DIR` when set and not
/// empty, else the temporary directory), then `/tmp/aifo-coder.lock`. Outside one:
/// `<home>/.aifo-coder.lock` (when a home is known), `<XDG_RUNTIME_DIR>/aifo-coder.lock`
/// (when set and not empty), `/tmp/aifo-coder.lock`, `<cwd>/.aifo-coder.lock` (when
/// the working directory is known).
pub open spec fn candidate_paths_spec(
    repo_root: Option<Seq<char>>,
    repo_hash: Seq<char>,
    xdg_runtime: Option<Seq<char>>,
    temp_dir: Seq<char>,
    home: Option<Seq<char>>,
    cwd: Option<Seq<char>>,
) -> Seq<Seq<char>> {
    match repo_root {
        Some(root) => {
            let rt = match nonempty(xdg_runtime) {
                Some(x) => x,
                None => temp_dir,
            };
            seq![
                path_join_spec(root, ".aifo-coder.lock"@),
                path_join_spec(rt, "aifo-coder."@ + repo_hash + ".lock"@),
                "/tmp/aifo-coder.lock"@,
            ]
        },
        None => {
            let a = match home {
                Some(h) => seq![path_join_spec(h, ".aifo-coder.lock"@)],
                None => seq![],
            };
            let b = match nonempty(xdg_runtime) {
                Some(x) => seq![path_join_spec(x, "aifo-coder.lock"@)],
                None => seq![],
            };
            let c = match cwd {
                Some(d) => seq![path_join_spec(d, ".aifo-coder.lock"@)],
                None => seq![],
            };
            a + b + seq!["/tmp/aifo-coder.lock"@] + c
        },
    }
}

/// Candidate lock file locations (see `candidate_paths_spec`); `repo_key` is the
/// normalized repository path that the runtime lock name is hashed from.
pub fn candidate_lock_paths(
    repo_root: Option<&str>,
    repo_key: &str,
    xdg_runtime: Option<&str>,
    temp_dir: &str,
    home: Option<&str>,
    cwd: Option<&str>,
) -> (out: Vec<String>)
    ensures
        strings_view(out@) == candidate_paths_spec(
            opt_view(repo_root),
            repo_key_hex_spec(repo_key),
            opt_view(xdg_runtime),
            temp_dir@,
            opt_view(home),
            opt_view(cwd),
        ),
{
    let mut out: Vec<String> = Vec::new();
    let xdg: Option<&str> = match xdg_runtime {
        Some(x) => if x.is_empty() {
            None
        } else {
            Some(x)
        },
        None => None,
    };
    assert(opt_view(xdg) == nonempty(opt_view(xdg_runtime)));
    match repo_root {
        Some(root) => {
            out.push(path_join(root, ".aifo-coder.lock"));
            let rt: &str = match xdg {
                Some(x) => x,
                None => temp_dir,
            };
            let mut name = "aifo-coder.".to_owned();
            name.push_str(hash_repo_key_hex(repo_key).as_str());
            name.push_str(".lock");
            out.push(path_join(rt, name.as_str()));
            out.push("/tmp/aifo-coder.lock".to_owned());
        },
        None => {
            if let Some(h) = home {
                out.push(path_join(h, ".aifo-coder.lock"));
            }
            if let Some(x) = xdg {
                out.push(path_join(x, "aifo-coder.lock"));
            }
            out.push("/tmp/aifo-coder.lock".to_owned());
            if let Some(d) = cwd {
                out.push(path_join(d, ".aifo-coder.lock"));
            }
        },
    }
    assert(strings_view(out@) =~= candidate_paths_spec(
        opt_view(repo_root),
        repo_key_hex_spec(repo_key),
        opt_view(xdg_runtime),
        temp_dir@,
        opt_view(home),
        opt_view(cwd),
    ));
    out
}

/// Message when another process holds the lock.
pub open spec fn lock_held_message() -> Seq<char> {
    "Another coding agent is already running (lock held). Please try again later."@
}

pub fn lock_held_msg() -> (s: String)
    ensures
        s@ == lock_held_message(),
{
    "Another coding agent is already running (lock held). Please try again later.".to_owned()
}

/// Message when no candidate could be locked: the candidates joined by `, `, then the
/// last error when there was one.
pub open spec fn lock_failure_message_spec(paths: Seq<Seq<char>>, last_err: Option<Seq<char>>) -> Seq<
    char,
> {
    "Failed to create lock file in any candidate location: "@ + crate::text::join_spec(paths, ", "@)
        + match last_err {
        Some(e) => " (last error: "@ + e + ")"@,
        None => seq![],
    }
}

/// Compose the lock failure message.
pub fn lock_failure_message(paths: &Vec<String>, last_err: Option<&str>) -> (s: String)
    ensures
        s@ == lock_failure_message_spec(strings_view(paths@), opt_view(last_err)),
{
    let mut msg = "Failed to create lock file in any candidate location: ".to_owned();
    let ghost head = msg@;
    let mut i: usize = 0;
    while i < paths.len()
        invariant
            i <= paths@.len(),
            msg@ == head + crate::text::join_spec(strings_view(paths@.take(i as int)), ", "@),
        decreases paths@.len() - i,
    {
        proof {
            assert(strings_view(paths@.take(i + 1)) =~= strings_view(paths@.take(i as int)).push(
                paths@[i as int]@,
            ));
            crate::text::lemma_join_push(
                strings_view(paths@.take(i as int)),
                ", "@,
                paths@[i as int]@,
            );
        }
        if i > 0 {
            msg.push_str(", ");
        }
        msg.push_str(paths[i].as_str());
        i = i + 1;
    }
    assert(paths@.take(paths@.len() as int) =~= paths@);
    if let Some(e) = last_err {
        msg.push_str(" (last error: ");
        msg.push_str(e);
        msg.push_str(")");
    }
    msg
}


/// What trying to lock one candidate file showed.
pub enum LockEvent {
    /// The exclusive lock was taken.
    Locked,
    /// Another process holds it (`WouldBlock`).
    Held,
    /// Opening or locking failed otherwise; the error's text.
    Failed(String),
}

/// What to do next while acquiring the repository lock.
pub enum LockAction {
    /// Try the candidate at this index.
    Try(usize),
    /// The candidate at this index is locked.
    Acquired(usize),
    /// Give up with this message.
    Refuse(String),
}

pub open spec fn lock_action_view(a: LockAction) -> (int, int, Seq<char>) {
    match a {
        LockAction::Try(i) => (0, i as int, seq![]),
        LockAction::Acquired(i) => (1, i as int, seq![]),
        LockAction::Refuse(m) => (2, 0, m@),
    }
}

/// The step after trying candidate `next` of `n`: a lock is kept, a held lock
/// refuses at once, another failure moves on to the next candidate or, after the
/// last, refuses naming every candidate and that failure.
pub open spec fn lock_step_spec(paths: Seq<Seq<char>>, next: int, ev: LockEvent) -> (int, int, Seq<char>) {
    match ev {
        LockEvent::Locked => (1, next, seq![]),
        LockEvent::Held => (2, 0, lock_held_message()),
        LockEvent::Failed(e) => if next + 1 < paths.len() {
            (0, next + 1, seq![])
        } else {
            (2, 0, lock_failure_message_spec(paths, Some(e@)))
        },
    }
}

/// The first step: the first candidate, or a refusal when there is none.
pub fn lock_start(paths: &Vec<String>) -> (a: LockAction)
    ensures
        lock_action_view(a) == if paths@.len() > 0 {
            (0int, 0int, Seq::<char>::empty())
        } else {
            (2int, 0int, lock_failure_message_spec(strings_view(paths@), None))
        },
{
    if paths.len() > 0 {
        LockAction::Try(0)
    } else {
        LockAction::Refuse(lock_failure_message(paths, None))
    }
}

/// The decision after trying candidate `next` (see `lock_step_spec`).
pub fn lock_step(paths: &Vec<String>, next: usize, ev: LockEvent) -> (a: LockAction)
    requires
        next < paths@.len(),
    ensures
        lock_action_view(a) == lock_step_spec(strings_view(paths@), next as int, ev),
{
    match ev {
        LockEvent::Locked => LockAction::Acquired(next),
        LockEvent::Held => LockAction::Refuse(lock_held_msg()),
        LockEvent::Failed(e) => {
            if next < paths.len() - 1 {
                LockAction::Try(next + 1)
            } else {
                LockAction::Refuse(lock_failure_message(paths, Some(e.as_str())))
            }
        },
    }
}

} // verus!
