//! Names derived for fork sessions: sanitized base labels, branch names, session paths.
use vstd::prelude::*;

use crate::escape::pairs_view;

use crate::text::{
    char_to_lower, dec_spec, join_spec, lemma_join_extend_last, lemma_join_push, lower_char,
    str_chars, string_from_chars, usize_to_string,
};

verus! {

/// ASCII letters and digits.
pub open spec fn label_char(c: char) -> bool {
    ('a' <= c && c <= 'z') || ('A' <= c && c <= 'Z') || ('0' <= c && c <= '9')
}

/// The maximal runs of ASCII letters and digits of `s`, lower-cased, in order.
pub open spec fn label_runs(s: Seq<char>) -> Seq<Seq<char>>
    decreases s.len(),
{
    if s.len() == 0 {
        seq![]
    } else {
        let r = label_runs(s.drop_last());
        let c = s.last();
        if !label_char(c) {
            r
        } else if s.len() >= 2 && label_char(s[s.len() - 2]) && r.len() > 0 {
            r.update(r.len() - 1, r.last().push(lower_char(c)))
        } else {
            r.push(seq![lower_char(c)])
        }
    }
}

/// Drop trailing `-`, `/` and `.` characters.
pub open spec fn trim_end_seps(s: Seq<char>) -> Seq<char>
    decreases s.len(),
{
    if s.len() > 0 && (s.last() == '-' || s.last() == '/' || s.last() == '.') {
        trim_end_seps(s.drop_last())
    } else {
        s
    }
}

/// Longest label kept before truncation.
pub const MAX_LABEL_LEN: usize = 48;

/// The sanitized form of a branch-name component: the letter/digit runs of `s`,
/// lower-cased and joined by `-`; at most 48 characters with no trailing separator;
/// `base` when nothing remains.
pub open spec fn sanitize_label_spec(s: Seq<char>) -> Seq<char> {
    let j = join_spec(label_runs(s), seq!['-']);
    if j.len() == 0 {
        seq!['b', 'a', 's', 'e']
    } else if j.len() > MAX_LABEL_LEN {
        let t = trim_end_seps(j.take(MAX_LABEL_LEN as int));
        if t.len() == 0 {
            seq!['b', 'a', 's', 'e']
        } else {
            t
        }
    } else {
        j
    }
}

fn is_label_char(c: char) -> (b: bool)
    ensures
        b == label_char(c),
{
    ('a' <= c && c <= 'z') || ('A' <= c && c <= 'Z') || ('0' <= c && c <= '9')
}

fn base_word() -> (v: Vec<char>)
    ensures
        v@ == seq!['b', 'a', 's', 'e'],
{
    let mut v: Vec<char> = Vec::new();
    v.push('b');
    v.push('a');
    v.push('s');
    v.push('e');
    v
}

/// Sanitize a ref path component (see `sanitize_label_spec`).
pub fn sanitize_label_chars(s: &[char]) -> (out: Vec<char>)
    ensures
        out@ == sanitize_label_spec(s@),
{
    let mut out: Vec<char> = Vec::new();
    let mut last_dash = false;
    let mut i: usize = 0;
    while i < s.len()
        invariant
            i <= s@.len(),
            ({
                let p = s@.take(i as int);
                let r = label_runs(p);
                let j = join_spec(r, seq!['-']);
                &&& out@ == if last_dash {
                    j.push('-')
                } else {
                    j
                }
                &&& last_dash ==> r.len() > 0
                &&& (r.len() > 0 && !last_dash) <==> (p.len() > 0 && label_char(p.last()))
                &&& r.len() == 0 <==> j.len() == 0
                &&& j.len() > 0 ==> label_char(j.last())
                &&& out@.len() == 0 <==> r.len() == 0
            }),
        decreases s@.len() - i,
    {
        let ghost p = s@.take(i as int);
        let ghost r = label_runs(p);
        let c = s[i];
        let lc = char_to_lower(c);
        proof {
            assert(s@.take(i + 1).drop_last() =~= p);
            assert(s@.take(i + 1).last() == c);
        }
        if is_label_char(c) {
            if last_dash || out.len() == 0 {
                proof {
                    lemma_join_push(r, seq!['-'], seq![lc]);
                    if i > 0 {
                        assert(s@.take(i + 1)[i - 1] == p.last());
                    }
                }
                out.push(lc);
                last_dash = false;
            } else {
                proof {
                    assert(s@.take(i + 1)[i - 1] == p.last());
                    lemma_join_extend_last(r, seq!['-'], lc);
                }
                out.push(lc);
            }
        } else if !last_dash && out.len() > 0 {
            out.push('-');
            last_dash = true;
        }
        i = i + 1;
        proof {
            let p2 = s@.take(i as int);
            let j2 = join_spec(label_runs(p2), seq!['-']);
            if last_dash {
                assert(out@ =~= j2.push('-'));
            } else {
                assert(out@ =~= j2);
            }
        }
    }
    let ghost j = join_spec(label_runs(s@), seq!['-']);
    proof {
        assert(s@.take(s@.len() as int) =~= s@);
    }
    if last_dash {
        out.pop();
        assert(out@ =~= j);
    }
    if out.len() == 0 {
        return base_word();
    }
    if out.len() > MAX_LABEL_LEN {
        out.truncate(MAX_LABEL_LEN);
        assert(out@ =~= j.take(MAX_LABEL_LEN as int));
        while out.len() > 0 && (out[out.len() - 1] == '-' || out[out.len() - 1] == '/' || out[out.len()
            - 1] == '.')
            invariant
                trim_end_seps(j.take(MAX_LABEL_LEN as int)) == trim_end_seps(out@),
            decreases out@.len(),
        {
            let ghost before = out@;
            out.pop();
            assert(before.drop_last() =~= out@);
        }
        if out.len() == 0 {
            return base_word();
        }
    }
    out
}

/// Lower-case ASCII letters and digits.
pub open spec fn lower_alnum(c: char) -> bool {
    ('a' <= c && c <= 'z') || ('0' <= c && c <= '9')
}

/// A sanitized label: lower-case letters, digits and single `-` between them, neither
/// starting nor ending with `-`.
pub open spec fn clean_label(t: Seq<char>) -> bool {
    &&& t.len() >= 1
    &&& forall|i: int| 0 <= i < t.len() ==> lower_alnum(#[trigger] t[i]) || t[i] == '-'
    &&& t[0] != '-'
    &&& t.last() != '-'
    &&& forall|i: int, j: int| 0 <= i && j == i + 1 && j < t.len() ==> !(#[trigger] t[i] == '-' && #[trigger] t[j] == '-')
}

spec fn runs_ok(r: Seq<Seq<char>>) -> bool {
    forall|k: int| 0 <= k < r.len() ==> (#[trigger] r[k]).len() >= 1 && forall|i: int| 0 <= i < r[k].len() ==> lower_alnum(#[trigger] r[k][i])
}

proof fn lemma_label_runs_ok(s: Seq<char>)
    ensures
        runs_ok(label_runs(s)),
    decreases s.len(),
{
    if s.len() > 0 {
        lemma_label_runs_ok(s.drop_last());
        let r = label_runs(s.drop_last());
        let c = s.last();
        if label_char(c) {
            assert(lower_alnum(lower_char(c)));
            if s.len() >= 2 && label_char(s[s.len() - 2]) && r.len() > 0 {
                let nl = r.last().push(lower_char(c));
                let r2 = r.update(r.len() - 1, nl);
                assert forall|k: int| 0 <= k < r2.len() implies (#[trigger] r2[k]).len() >= 1 && forall|i: int|
                    0 <= i < r2[k].len() ==> lower_alnum(#[trigger] r2[k][i]) by {
                    if k == r.len() - 1 {
                        assert forall|i: int| 0 <= i < r2[k].len() implies lower_alnum(#[trigger] r2[k][i]) by {
                            if i < r.last().len() {
                                assert(r2[k][i] == r[k][i]);
                            }
                        }
                    } else {
                        assert(r2[k] == r[k]);
                    }
                }
            } else {
                let r2 = r.push(seq![lower_char(c)]);
                assert forall|k: int| 0 <= k < r2.len() implies (#[trigger] r2[k]).len() >= 1 && forall|i: int|
                    0 <= i < r2[k].len() ==> lower_alnum(#[trigger] r2[k][i]) by {
                    if k < r.len() {
                        assert(r2[k] == r[k]);
                    }
                }
            }
        }
    }
}

proof fn lemma_join_clean(parts: Seq<Seq<char>>)
    requires
        runs_ok(parts),
        parts.len() >= 1,
    ensures
        clean_label(join_spec(parts, seq!['-'])),
    decreases parts.len(),
{
    let j = join_spec(parts, seq!['-']);
    if parts.len() == 1 {
        let p = parts[0];
        assert(j == p);
        assert(lower_alnum(p[0]));
        assert(lower_alnum(p.last()));
        assert forall|i: int, k: int| 0 <= i && k == i + 1 && k < j.len() implies !(#[trigger] j[i] == '-'
            && #[trigger] j[k] == '-') by {
            assert(lower_alnum(p[i]));
        }
    } else {
        let init = parts.drop_last();
        assert(runs_ok(init)) by {
            assert forall|k: int| 0 <= k < init.len() implies (#[trigger] init[k]).len() >= 1 && forall|i: int|
                0 <= i < init[k].len() ==> lower_alnum(#[trigger] init[k][i]) by {
                assert(init[k] == parts[k]);
            }
        }
        lemma_join_clean(init);
        let a = join_spec(init, seq!['-']);
        let b = parts.last();
        assert(b == parts[parts.len() - 1]);
        assert(j == a + seq!['-'] + b);
        let n = a.len();
        assert(lower_alnum(b[0]));
        assert(lower_alnum(b.last()));
        assert forall|i: int| 0 <= i < j.len() implies lower_alnum(#[trigger] j[i]) || j[i] == '-' by {
            if i < n {
                assert(j[i] == a[i]);
            } else if i > n {
                assert(j[i] == b[i - n - 1]);
            }
        }
        assert(j[0] == a[0]);
        assert(j.last() == b.last());
        assert forall|i: int, k: int| 0 <= i && k == i + 1 && k < j.len() implies !(#[trigger] j[i] == '-'
            && #[trigger] j[k] == '-') by {
            if k < n {
                assert(j[i] == a[i] && j[k] == a[k]);
            } else if k == n {
                assert(j[i] == a.last());
            } else if i == n {
                assert(j[k] == b[0]);
            } else {
                assert(j[k] == b[k - n - 1]);
                assert(lower_alnum(b[k - n - 1]));
            }
        }
    }
}

proof fn lemma_trim_end_seps_prefix(j: Seq<char>, m: int)
    requires
        clean_label(j),
        1 <= m <= j.len(),
    ensures
        exists|k: int| 1 <= k <= m && trim_end_seps(j.take(m)) == #[trigger] j.take(k) && j[k - 1] != '-',
    decreases m,
{
    let p = j.take(m);
    if p.last() == '-' {
        assert(m > 1);
        assert(p.drop_last() =~= j.take(m - 1));
        lemma_trim_end_seps_prefix(j, m - 1);
    } else {
        assert(p.last() != '/' && p.last() != '.') by {
            assert(p.last() == j[m - 1]);
        }
        assert(trim_end_seps(p) == p);
        assert(j[m - 1] == p.last());
    }
}

proof fn lemma_clean_prefix(j: Seq<char>, k: int)
    requires
        clean_label(j),
        1 <= k <= j.len(),
        j[k - 1] != '-',
    ensures
        clean_label(j.take(k)),
{
    let t = j.take(k);
    assert(t[0] == j[0]);
    assert(t.last() == j[k - 1]);
    assert forall|i: int| 0 <= i < t.len() implies lower_alnum(#[trigger] t[i]) || t[i] == '-' by {
        assert(t[i] == j[i]);
    }
    assert forall|i: int, l: int| 0 <= i && l == i + 1 && l < t.len() implies !(#[trigger] t[i] == '-'
        && #[trigger] t[l] == '-') by {
        assert(t[i] == j[i] && t[l] == j[l]);
    }
}

/// What `fork_sanitize_base_label` produces is always a usable branch component:
/// one to 48 characters, lower-case letters and digits with single `-` between them.
pub proof fn lemma_sanitized_label_clean(s: Seq<char>)
    ensures
        clean_label(sanitize_label_spec(s)),
        sanitize_label_spec(s).len() <= MAX_LABEL_LEN,
{
    let r = label_runs(s);
    lemma_label_runs_ok(s);
    let j = join_spec(r, seq!['-']);
    let base = seq!['b', 'a', 's', 'e'];
    assert(clean_label(base)) by {
        assert forall|i: int, l: int| 0 <= i && l == i + 1 && l < base.len() implies !(#[trigger] base[i] == '-'
            && #[trigger] base[l] == '-') by {
            assert(base[i] != '-');
        }
    }
    if j.len() > 0 {
        if r.len() == 0 {
            assert(j.len() == 0);
        }
        lemma_join_clean(r);
        if j.len() > MAX_LABEL_LEN {
            lemma_trim_end_seps_prefix(j, MAX_LABEL_LEN as int);
            let k = choose|k: int| 1 <= k <= MAX_LABEL_LEN && trim_end_seps(j.take(MAX_LABEL_LEN as int)) == #[trigger] j.take(k)
                && j[k - 1] != '-';
            lemma_clean_prefix(j, k);
        }
    }
}

/// Lower-case letters, digits and `-`, no two `-` in a row, not starting with `-`.
spec fn dashed_word(y: Seq<char>) -> bool {
    &&& forall|i: int| 0 <= i < y.len() ==> lower_alnum(#[trigger] y[i]) || y[i] == '-'
    &&& y.len() > 0 ==> y[0] != '-'
    &&& forall|i: int, j: int| 0 <= i && j == i + 1 && j < y.len() ==> !(#[trigger] y[i] == '-' && #[trigger] y[j] == '-')
}

proof fn lemma_runs_of_dashed(y: Seq<char>)
    requires
        dashed_word(y),
    ensures
        join_spec(label_runs(y), seq!['-']) == if y.len() > 0 && y.last() == '-' {
            y.drop_last()
        } else {
            y
        },
        label_runs(y).len() == 0 <==> y.len() == 0,
    decreases y.len(),
{
    if y.len() > 0 {
        let p = y.drop_last();
        let c = y.last();
        assert(c == y[y.len() - 1]);
        assert(dashed_word(p)) by {
            assert forall|i: int| 0 <= i < p.len() implies lower_alnum(#[trigger] p[i]) || p[i] == '-' by {
                assert(p[i] == y[i]);
            }
            assert forall|i: int, j: int| 0 <= i && j == i + 1 && j < p.len() implies !(#[trigger] p[i] == '-'
                && #[trigger] p[j] == '-') by {
                assert(p[i] == y[i] && p[j] == y[j]);
            }
            if p.len() > 0 {
                assert(p[0] == y[0]);
            }
        }
        lemma_runs_of_dashed(p);
        let r = label_runs(p);
        if p.len() == 0 {
            assert(c == y[0]);
            assert(lower_alnum(c));
            assert(lower_char(c) == c);
            lemma_join_push(r, seq!['-'], seq![lower_char(c)]);
            assert(y =~= seq![c]);
        } else if c == '-' {
            assert(p.last() == y[y.len() - 2]);
            assert(p.last() != '-');
        } else {
            assert(lower_alnum(c));
            assert(lower_char(c) == c);
            assert(p.last() == y[y.len() - 2]);
            if p.last() == '-' {
                lemma_join_push(r, seq!['-'], seq![lower_char(c)]);
                assert(p.drop_last() + seq!['-'] + seq![c] =~= y);
            } else {
                assert(label_char(p.last()));
                lemma_join_extend_last(r, seq!['-'], lower_char(c));
                assert(p.push(c) =~= y);
            }
        }
    }
}

/// Sanitizing a sanitized label gives it back unchanged.
pub proof fn lemma_sanitize_idempotent(s: Seq<char>)
    ensures
        sanitize_label_spec(sanitize_label_spec(s)) == sanitize_label_spec(s),
{
    let x = sanitize_label_spec(s);
    lemma_sanitized_label_clean(s);
    lemma_runs_of_dashed(x);
    assert(x.last() == x[x.len() - 1]);
}

/// Sanitize a ref path component: lower-case, runs of letters and digits joined by `-`,
/// at most 48 characters, `base` when nothing is left.
pub fn fork_sanitize_base_label(s: &str) -> (out: String)
    ensures
        out@ == sanitize_label_spec(s@),
        clean_label(out@),
        out@.len() <= MAX_LABEL_LEN,
{
    proof {
        lemma_sanitized_label_clean(s@);
    }
    let cs = str_chars(s);
    let v = sanitize_label_chars(cs.as_slice());
    string_from_chars(v.as_slice())
}

} // verus!

verus! {

/// POSIX `Path::join`: an absolute component replaces the base; otherwise a `/` is
/// inserted unless the base is empty or already ends with one.
pub open spec fn path_join_spec(base: Seq<char>, comp: Seq<char>) -> Seq<char> {
    if comp.len() > 0 && comp[0] == '/' {
        comp
    } else if base.len() == 0 || base.last() == '/' {
        base + comp
    } else {
        base + seq!['/'] + comp
    }
}

/// Join a path component onto a base path (POSIX separators).
pub fn path_join(base: &str, comp: &str) -> (out: String)
    ensures
        out@ == path_join_spec(base@, comp@),
{
    let b = str_chars(base);
    let c = str_chars(comp);
    if c.len() > 0 && c[0] == '/' {
        return string_from_chars(c.as_slice());
    }
    let mut out = string_from_chars(b.as_slice());
    if !(b.len() == 0 || b[b.len() - 1] == '/') {
        out.push('/');
    }
    out.push_str(comp);
    out
}

/// `<repo>/.aifo-coder/forks/<sid>`.
pub open spec fn session_dir_spec(repo_root: Seq<char>, sid: Seq<char>) -> Seq<char> {
    path_join_spec(path_join_spec(path_join_spec(repo_root, ".aifo-coder"@), "forks"@), sid)
}

/// Base directory for fork panes: `<repo-root>/.aifo-coder/forks/<sid>`.
pub fn fork_session_dir(repo_root: &str, sid: &str) -> (out: String)
    ensures
        out@ == session_dir_spec(repo_root@, sid@),
{
    let a = path_join(repo_root, ".aifo-coder");
    let b = path_join(a.as_str(), "forks");
    path_join(b.as_str(), sid)
}

/// `fork/<sanitized-base>/<sid>-<i>`.
pub open spec fn branch_name_spec(base_label: Seq<char>, sid: Seq<char>, i: nat) -> Seq<char> {
    "fork/"@ + sanitize_label_spec(base_label) + "/"@ + sid + "-"@ + dec_spec(i)
}

/// Fork branch name for pane `i`: `fork/<base-label>/<sid>-<i>`.
pub fn fork_branch_name(base_label: &str, sid: &str, i: usize) -> (out: String)
    ensures
        out@ == branch_name_spec(base_label@, sid@, i as nat),
{
    let mut out = "fork/".to_owned();
    let label = fork_sanitize_base_label(base_label);
    out.push_str(label.as_str());
    out.push('/');
    out.push_str(sid);
    out.push('-');
    let n = usize_to_string(i);
    out.push_str(n.as_str());
    proof {
        reveal_strlit("/");
        reveal_strlit("-");
    }
    assert(out@ =~= branch_name_spec(base_label@, sid@, i as nat));
    out
}

/// `aifo-coder-<agent>-<sid>-<index>`.
pub open spec fn container_name_spec(agent: Seq<char>, sid: Seq<char>, index: nat) -> Seq<char> {
    "aifo-coder-"@ + agent + "-"@ + sid + "-"@ + dec_spec(index)
}

/// Container name of a pane: `aifo-coder-<agent>-<sid>-<index>`.
pub fn pane_container_name(agent: &str, sid: &str, index: usize) -> (out: String)
    ensures
        out@ == container_name_spec(agent@, sid@, index as nat),
{
    let mut out = "aifo-coder-".to_owned();
    out.push_str(agent);
    out.push('-');
    out.push_str(sid);
    out.push('-');
    let n = usize_to_string(index);
    out.push_str(n.as_str());
    proof {
        reveal_strlit("-");
    }
    assert(out@ =~= container_name_spec(agent@, sid@, index as nat));
    out
}

/// `<state_base>/<sid>/pane-<index>`.
pub open spec fn pane_state_dir_spec(state_base: Seq<char>, sid: Seq<char>, index: nat) -> Seq<
    char,
> {
    path_join_spec(path_join_spec(state_base, sid), "pane-"@ + dec_spec(index))
}

/// Per-pane state directory under `state_base`.
pub fn pane_state_dir(state_base: &str, sid: &str, index: usize) -> (out: String)
    ensures
        out@ == pane_state_dir_spec(state_base@, sid@, index as nat),
{
    let a = path_join(state_base, sid);
    let mut name = "pane-".to_owned();
    let n = usize_to_string(index);
    name.push_str(n.as_str());
    path_join(a.as_str(), name.as_str())
}

/// The environment handed to every fork pane.
pub open spec fn pane_env_spec(
    sid: Seq<char>,
    pane_index: nat,
    container_name: Seq<char>,
    state_dir: Seq<char>,
) -> Seq<(Seq<char>, Seq<char>)> {
    seq![
        ("AIFO_CODER_SUPPRESS_TOOLCHAIN_WARNING"@, "1"@),
        ("AIFO_CODER_SKIP_LOCK"@, "1"@),
        ("AIFO_CODER_CONTAINER_NAME"@, container_name),
        ("AIFO_CODER_HOSTNAME"@, container_name),
        ("AIFO_CODER_FORK_SESSION"@, sid),
        ("AIFO_CODER_FORK_INDEX"@, dec_spec(pane_index)),
        ("AIFO_CODER_FORK_STATE_DIR"@, state_dir),
    ]
}

/// Environment key/value pairs for a fork pane, including the toolchain-warning
/// suppression and lock skipping.
pub fn fork_env_for_pane(sid: &str, pane_index: usize, container_name: &str, pane_state_dir: &str) -> (out:
    Vec<(String, String)>)
    ensures
        pairs_view(out@) == pane_env_spec(sid@, pane_index as nat, container_name@, pane_state_dir@),
{
    let mut v: Vec<(String, String)> = Vec::new();
    v.push(("AIFO_CODER_SUPPRESS_TOOLCHAIN_WARNING".to_owned(), "1".to_owned()));
    v.push(("AIFO_CODER_SKIP_LOCK".to_owned(), "1".to_owned()));
    v.push(("AIFO_CODER_CONTAINER_NAME".to_owned(), container_name.to_owned()));
    v.push(("AIFO_CODER_HOSTNAME".to_owned(), container_name.to_owned()));
    v.push(("AIFO_CODER_FORK_SESSION".to_owned(), sid.to_owned()));
    v.push(("AIFO_CODER_FORK_INDEX".to_owned(), usize_to_string(pane_index)));
    v.push(("AIFO_CODER_FORK_STATE_DIR".to_owned(), pane_state_dir.to_owned()));
    assert(pairs_view(v@) =~= pane_env_spec(
        sid@,
        pane_index as nat,
        container_name@,
        pane_state_dir@,
    ));
    v
}

/// The environment used by the PowerShell and Git Bash inner command builders:
/// the pane environment without the toolchain-warning suppression.
pub open spec fn inner_env_spec(agent: Seq<char>, sid: Seq<char>, i: nat, state_dir: Seq<char>) -> Seq<
    (Seq<char>, Seq<char>),
> {
    pane_env_spec(sid, i, container_name_spec(agent, sid, i), state_dir).drop_first()
}

/// Environment key/value pairs for the inner command strings of a pane.
pub fn fork_inner_env_kv(agent: &str, sid: &str, i: usize, pane_state_dir: &str) -> (out: Vec<
    (String, String),
>)
    ensures
        pairs_view(out@) == inner_env_spec(agent@, sid@, i as nat, pane_state_dir@),
{
    let cname = pane_container_name(agent, sid, i);
    let mut v: Vec<(String, String)> = Vec::new();
    v.push(("AIFO_CODER_SKIP_LOCK".to_owned(), "1".to_owned()));
    v.push(("AIFO_CODER_CONTAINER_NAME".to_owned(), cname.clone()));
    v.push(("AIFO_CODER_HOSTNAME".to_owned(), cname));
    v.push(("AIFO_CODER_FORK_SESSION".to_owned(), sid.to_owned()));
    v.push(("AIFO_CODER_FORK_INDEX".to_owned(), usize_to_string(i)));
    v.push(("AIFO_CODER_FORK_STATE_DIR".to_owned(), pane_state_dir.to_owned()));
    assert(pairs_view(v@) =~= inner_env_spec(agent@, sid@, i as nat, pane_state_dir@));
    v
}

} // verus!
