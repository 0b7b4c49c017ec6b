//! Source check that forbids string literals spanning several source lines and
//! `"\` continuation strings. A small lexer over the characters of a file: it
//! knows line and block comments (nested), normal strings and raw strings.
//! Every character it looks for is ASCII, so lexing characters finds what lexing
//! the UTF-8 bytes would.
use vstd::prelude::*;

use crate::text::{char_pos, char_pos_exec, chars_eq, lemma_char_pos, slice_to_vec, str_chars};

verus! {

/// A file name that names Rust source: extension `rs`, or `build.rs`.
pub open spec fn rust_file_name_spec(name: Seq<char>) -> bool {
    let ext_rs = match crate::text::rfind_char_spec(name, '.') {
        Some(k) => k > 0 && name.skip(k + 1) == "rs"@,
        None => false,
    };
    ext_rs || name == "build.rs"@
}

/// Whether a file (given by its file name) is Rust source.
pub fn is_rust_path(file_name: &str) -> (b: bool)
    ensures
        b == rust_file_name_spec(file_name@),
{
    let cs = str_chars(file_name);
    proof {
        crate::text::lemma_rfind_char(cs@, '.');
    }
    let rs = str_chars("rs");
    let build = str_chars("build.rs");
    let ext_rs = match crate::text::rfind_char(cs.as_slice(), '.') {
        Some(k) => {
            let n = cs.len();
            if k > 0 {
                let ext = slice_to_vec(cs.as_slice(), k + 1, n);
                assert(ext@ =~= cs@.skip(k + 1));
                chars_eq(ext.as_slice(), rs.as_slice())
            } else {
                false
            }
        },
        None => false,
    };
    ext_rs || chars_eq(cs.as_slice(), build.as_slice())
}

/// Directories the scan does not enter.
pub open spec fn skipped_dir_spec(name: Seq<char>) -> bool {
    name == ".git"@ || name == "target"@ || name == "dist"@ || name == "build"@ || name == "node_modules"@
        || name == ".buildx-cache"@
}

pub fn should_skip_dir(name: &str) -> (b: bool)
    ensures
        b == skipped_dir_spec(name@),
{
    crate::text::str_eq(name, ".git") || crate::text::str_eq(name, "target") || crate::text::str_eq(name, "dist")
        || crate::text::str_eq(name, "build") || crate::text::str_eq(name, "node_modules")
        || crate::text::str_eq(name, ".buildx-cache")
}

/// Only spaces and tabs from `j` to the end of the line (or to a newline).
pub open spec fn blank_tail(cs: Seq<char>, j: int) -> bool
    decreases cs.len() - j,
{
    if j < 0 || j >= cs.len() {
        true
    } else if cs[j] == '\n' {
        true
    } else if cs[j] == ' ' || cs[j] == '\t' {
        blank_tail(cs, j + 1)
    } else {
        false
    }
}

/// Scan of one line for a `"\` continuation: outside strings a `//` ends the scan
/// and `"` opens a string; inside one, an escape skips a character, `"` closes, and
/// a backslash followed only by spaces and tabs up to the end of the line is a
/// continuation.
pub open spec fn cont_scan(cs: Seq<char>, k: int, in_string: bool, escape: bool) -> bool
    decreases cs.len() - k,
{
    if k < 0 || k >= cs.len() {
        false
    } else {
        let c = cs[k];
        let has_next = k + 1 < cs.len();
        if !in_string {
            if c == '/' && has_next && cs[k + 1] == '/' {
                false
            } else if c == '"' {
                cont_scan(cs, k + 1, true, false)
            } else {
                cont_scan(cs, k + 1, false, escape)
            }
        } else if escape {
            cont_scan(cs, k + 1, true, false)
        } else if c == '\\' {
            if blank_tail(cs, k + 1) {
                true
            } else {
                cont_scan(cs, k + 1, true, true)
            }
        } else if c == '"' {
            cont_scan(cs, k + 1, false, false)
        } else {
            cont_scan(cs, k + 1, true, false)
        }
    }
}

pub open spec fn has_continuation_spec(line: Seq<char>) -> bool {
    cont_scan(line, 0, false, false)
}

fn blank_tail_exec(cs: &[char], start: usize) -> (b: bool)
    requires
        start <= cs@.len(),
    ensures
        b == blank_tail(cs@, start as int),
{
    let mut j = start;
    while j < cs.len() && (cs[j] == ' ' || cs[j] == '\t')
        invariant
            start <= j <= cs@.len(),
            blank_tail(cs@, start as int) == blank_tail(cs@, j as int),
        decreases cs@.len() - j,
    {
        j = j + 1;
    }
    j >= cs.len() || cs[j] == '\n'
}

fn has_continuation_chars(cs: &[char]) -> (b: bool)
    ensures
        b == has_continuation_spec(cs@),
{
    let mut k: usize = 0;
    let mut in_string = false;
    let mut escape = false;
    let n = cs.len();
    while k < n
        invariant
            n == cs@.len(),
            k <= n,
            has_continuation_spec(cs@) == cont_scan(cs@, k as int, in_string, escape),
        decreases n - k,
    {
        let c = cs[k];
        let has_next = k + 1 < n;
        if !in_string {
            if c == '/' && has_next && cs[k + 1] == '/' {
                return false;
            }
            if c == '"' {
                in_string = true;
                escape = false;
            }
            k = k + 1;
            continue;
        }
        if escape {
            escape = false;
            k = k + 1;
            continue;
        }
        if c == '\\' {
            if blank_tail_exec(cs, k + 1) {
                return true;
            }
            escape = true;
        } else if c == '"' {
            in_string = false;
        }
        k = k + 1;
    }
    false
}

/// True when the line holds a `"\` continuation outside comments.
pub fn has_continuation_string(line: &str) -> (b: bool)
    ensures
        b == has_continuation_spec(line@),
{
    let cs = str_chars(line);
    has_continuation_chars(cs.as_slice())
}

/// What a finding reports.
#[derive(Clone, Copy, PartialEq, Eq, Structural, Debug)]
pub enum FindingKind {
    Continuation,
    MultiLine,
    MultiLineRaw,
}

pub open spec fn kind_msg(k: FindingKind) -> Seq<char> {
    match k {
        FindingKind::Continuation => "forbidden continuation string: `\"\\` at end of line"@,
        FindingKind::MultiLine => "forbidden multi-line string literal"@,
        FindingKind::MultiLineRaw => "forbidden multi-line raw string literal"@,
    }
}

fn kind_message(k: FindingKind) -> (s: String)
    ensures
        s@ == kind_msg(k),
{
    match k {
        FindingKind::Continuation => "forbidden continuation string: `\"\\` at end of line".to_owned(),
        FindingKind::MultiLine => "forbidden multi-line string literal".to_owned(),
        FindingKind::MultiLineRaw => "forbidden multi-line raw string literal".to_owned(),
    }
}

/// One finding: the file, the 1-based line where the literal starts, the message.
pub struct Finding {
    pub path: String,
    pub line_1: usize,
    pub msg: String,
}

/// Where the lexer is: in code, in a normal string (opened on line `start`, after
/// a backslash or not), or in a raw string (opened on line `start` with `hashes`
/// hash signs).
pub enum LexMode {
    Code,
    Str { start: nat, escape: bool },
    Raw { start: nat, hashes: nat },
}

pub struct LexState {
    pub i: nat,
    pub line: nat,
    pub line_comment: bool,
    pub depth: nat,
    pub mode: LexMode,
}

/// First index at or after `k` that does not hold `#`.
pub open spec fn hash_end(t: Seq<char>, k: int) -> int
    decreases t.len() - k,
{
    if k < 0 || k >= t.len() {
        t.len() as int
    } else if t[k] == '#' {
        hash_end(t, k + 1)
    } else {
        k
    }
}

proof fn lemma_hash_end(t: Seq<char>, k: int)
    requires
        0 <= k <= t.len(),
    ensures
        k <= hash_end(t, k) <= t.len(),
        forall|m: int| k <= m < hash_end(t, k) ==> t[m] == '#',
        hash_end(t, k) < t.len() ==> t[hash_end(t, k)] != '#',
    decreases t.len() - k,
{
    if k < t.len() && t[k] == '#' {
        lemma_hash_end(t, k + 1);
    }
}

/// `hashes` hash signs follow at `k`.
pub open spec fn closes(t: Seq<char>, k: int, hashes: nat) -> bool {
    k + hashes <= t.len() && forall|m: int| k <= m < k + hashes ==> t[m] == '#'
}

/// One step of the lexer at `s.i`, with the findings it reports.
pub open spec fn step(t: Seq<char>, s: LexState) -> (LexState, Seq<(nat, FindingKind)>) {
    let i = s.i as int;
    let c = t[i];
    let next_is = |x: char| i + 1 < t.len() && t[i + 1] == x;
    match s.mode {
        LexMode::Code => {
            if c == '\n' {
                (LexState { i: s.i + 1, line: s.line + 1, line_comment: false, ..s }, seq![])
            } else if s.line_comment {
                (LexState { i: s.i + 1, ..s }, seq![])
            } else if s.depth > 0 {
                if c == '/' && next_is('*') {
                    (LexState { i: s.i + 2, depth: s.depth + 1, ..s }, seq![])
                } else if c == '*' && next_is('/') {
                    (LexState { i: s.i + 2, depth: (s.depth - 1) as nat, ..s }, seq![])
                } else {
                    (LexState { i: s.i + 1, ..s }, seq![])
                }
            } else if c == '/' && next_is('/') {
                (LexState { i: s.i + 2, line_comment: true, ..s }, seq![])
            } else if c == '/' && next_is('*') {
                (LexState { i: s.i + 2, depth: 1, ..s }, seq![])
            } else if c == '"' {
                let nl = char_pos(t, '\n', i);
                let f = if nl < t.len() && has_continuation_spec(t.subrange(i, nl)) {
                    seq![(s.line, FindingKind::Continuation)]
                } else {
                    seq![]
                };
                (LexState { i: s.i + 1, mode: LexMode::Str { start: s.line, escape: false }, ..s }, f)
            } else if c == 'r' && i + 1 < t.len() {
                let j = hash_end(t, i + 1);
                if j < t.len() && t[j] == '"' {
                    (
                        LexState {
                            i: (j + 1) as nat,
                            mode: LexMode::Raw { start: s.line, hashes: (j - (i + 1)) as nat },
                            ..s
                        },
                        seq![],
                    )
                } else {
                    (LexState { i: s.i + 1, ..s }, seq![])
                }
            } else {
                (LexState { i: s.i + 1, ..s }, seq![])
            }
        },
        LexMode::Str { start, escape } => {
            if c == '\n' {
                (LexState { i: s.i + 1, line: s.line + 1, ..s }, seq![(start, FindingKind::MultiLine)])
            } else if escape {
                (LexState { i: s.i + 1, mode: LexMode::Str { start, escape: false }, ..s }, seq![])
            } else if c == '\\' {
                (LexState { i: s.i + 1, mode: LexMode::Str { start, escape: true }, ..s }, seq![])
            } else if c == '"' {
                (LexState { i: s.i + 1, mode: LexMode::Code, ..s }, seq![])
            } else {
                (LexState { i: s.i + 1, ..s }, seq![])
            }
        },
        LexMode::Raw { start, hashes } => {
            if c == '\n' {
                (LexState { i: s.i + 1, line: s.line + 1, ..s }, seq![(start, FindingKind::MultiLineRaw)])
            } else if c == '"' && closes(t, i + 1, hashes) {
                (LexState { i: s.i + 1 + hashes, mode: LexMode::Code, ..s }, seq![])
            } else {
                (LexState { i: s.i + 1, ..s }, seq![])
            }
        },
    }
}

proof fn lemma_step_progress(t: Seq<char>, s: LexState)
    requires
        s.i < t.len(),
    ensures
        s.i < step(t, s).0.i <= t.len(),
{
    let i = s.i as int;
    if s.mode is Code && t[i] == 'r' && i + 1 < t.len() && !(t[i] == '\n') {
        lemma_hash_end(t, i + 1);
    }
}

/// Findings of the lexer from state `s` to the end of the text.
pub open spec fn run(t: Seq<char>, s: LexState) -> Seq<(nat, FindingKind)>
    decreases t.len() - s.i,
{
    if s.i >= t.len() {
        seq![]
    } else {
        let r = step(t, s);
        if s.i < r.0.i <= t.len() {
            r.1 + run(t, r.0)
        } else {
            r.1
        }
    }
}

proof fn lemma_run_quote_free(t: Seq<char>, s: LexState)
    requires
        !t.contains('"'),
        s.mode is Code,
    ensures
        run(t, s) == Seq::<(nat, FindingKind)>::empty(),
    decreases t.len() - s.i,
{
    if s.i < t.len() {
        lemma_step_progress(t, s);
        let i = s.i as int;
        assert(t[i] != '"');
        if t[i] == 'r' && i + 1 < t.len() {
            let j = hash_end(t, i + 1);
            lemma_hash_end(t, i + 1);
            if j < t.len() {
                assert(t[j] != '"');
            }
        }
        let r = step(t, s);
        assert(r.1 =~= Seq::<(nat, FindingKind)>::empty());
        assert(r.0.mode is Code);
        lemma_run_quote_free(t, r.0);
        assert(run(t, s) =~= r.1 + run(t, r.0));
    }
}

/// A source text without any double quote has no string literal, so the check
/// reports nothing for it.
pub proof fn lemma_quote_free_text_is_clean(t: Seq<char>)
    requires
        !t.contains('"'),
    ensures
        check_spec(t) == Seq::<(nat, FindingKind)>::empty(),
{
    lemma_run_quote_free(t, initial_lex_state());
}

/// Newlines among the first `k` characters of `t`.
pub open spec fn nl_upto(t: Seq<char>, k: int) -> nat
    decreases k,
{
    if k <= 0 {
        0
    } else {
        nl_upto(t, k - 1) + if k - 1 < t.len() && t[k - 1] == '\n' {
            1nat
        } else {
            0nat
        }
    }
}

/// The number of newlines in `t`.
pub open spec fn newline_count(t: Seq<char>) -> nat {
    nl_upto(t, t.len() as int)
}

proof fn lemma_nl_mono(t: Seq<char>, a: int, b: int)
    requires
        a <= b,
    ensures
        nl_upto(t, a) <= nl_upto(t, b),
    decreases b - a,
{
    if a < b {
        lemma_nl_mono(t, a, b - 1);
    }
}

/// The lowest line a later finding can report: the current line in code, the
/// line where the open literal started inside one.
pub open spec fn lex_floor(s: LexState) -> nat {
    match s.mode {
        LexMode::Code => s.line,
        LexMode::Str { start, .. } => start,
        LexMode::Raw { start, .. } => start,
    }
}

pub open spec fn lex_wf(t: Seq<char>, s: LexState) -> bool {
    &&& s.i <= t.len()
    &&& 1 <= lex_floor(s) <= s.line
    &&& s.line <= 1 + nl_upto(t, s.i as int)
}

proof fn lemma_step_floor(t: Seq<char>, s: LexState)
    requires
        lex_wf(t, s),
        s.i < t.len(),
    ensures
        lex_wf(t, step(t, s).0),
        lex_floor(s) <= lex_floor(step(t, s).0),
        forall|k: int|
            0 <= k < step(t, s).1.len() ==> lex_floor(s) <= (#[trigger] step(t, s).1[k]).0 <= lex_floor(
                step(t, s).0,
            ),
{
    lemma_step_progress(t, s);
    let r = step(t, s);
    let i = s.i as int;
    lemma_nl_mono(t, i + 1, r.0.i as int);
    lemma_nl_mono(t, i, r.0.i as int);
    assert(nl_upto(t, i + 1) == nl_upto(t, i) + if t[i] == '\n' {
        1nat
    } else {
        0nat
    });
}

proof fn lemma_run_sorted(t: Seq<char>, s: LexState)
    requires
        lex_wf(t, s),
    ensures
        forall|k: int|
            0 <= k < run(t, s).len() ==> lex_floor(s) <= (#[trigger] run(t, s)[k]).0 <= 1 + newline_count(t),
        forall|a: int, b: int| 0 <= a <= b < run(t, s).len() ==> (#[trigger] run(t, s)[a]).0 <= (#[trigger] run(
            t,
            s,
        )[b]).0,
    decreases t.len() - s.i,
{
    if s.i < t.len() {
        lemma_step_floor(t, s);
        lemma_step_progress(t, s);
        let r = step(t, s);
        lemma_run_sorted(t, r.0);
        lemma_nl_mono(t, r.0.i as int, t.len() as int);
        let rest = run(t, r.0);
        assert(run(t, s) == r.1 + rest);
        assert forall|k: int| 0 <= k < run(t, s).len() implies lex_floor(s) <= (#[trigger] run(t, s)[k]).0
            <= 1 + newline_count(t) by {
            if k < r.1.len() {
                assert(run(t, s)[k] == r.1[k]);
            } else {
                assert(run(t, s)[k] == rest[k - r.1.len()]);
            }
        }
        assert forall|a: int, b: int| 0 <= a <= b < run(t, s).len() implies (#[trigger] run(t, s)[a]).0 <= (
        #[trigger] run(t, s)[b]).0 by {
            if b < r.1.len() {
                assert(run(t, s)[a] == r.1[a]);
                assert(run(t, s)[b] == r.1[b]);
                assert(r.1.len() <= 1);
            } else if a < r.1.len() {
                assert(run(t, s)[a] == r.1[a]);
                assert(run(t, s)[b] == rest[b - r.1.len()]);
            } else {
                assert(run(t, s)[a] == rest[a - r.1.len()]);
                assert(run(t, s)[b] == rest[b - r.1.len()]);
            }
        }
    }
}

/// Every finding of the check names a line of the text (from 1 to one more than the
/// number of newlines), and the findings come in line order.
pub proof fn lemma_findings_in_line_order(t: Seq<char>)
    ensures
        forall|k: int| 0 <= k < check_spec(t).len() ==> 1 <= (#[trigger] check_spec(t)[k]).0 <= 1 + newline_count(t),
        forall|a: int, b: int|
            0 <= a <= b < check_spec(t).len() ==> (#[trigger] check_spec(t)[a]).0 <= (#[trigger] check_spec(t)[b]).0,
{
    lemma_run_sorted(t, initial_lex_state());
}

pub open spec fn initial_lex_state() -> LexState {
    LexState { i: 0, line: 1, line_comment: false, depth: 0, mode: LexMode::Code }
}

/// All findings for a text, in the order the lexer meets them.
pub open spec fn check_spec(t: Seq<char>) -> Seq<(nat, FindingKind)> {
    run(t, initial_lex_state())
}

enum Mode {
    Code,
    Str(usize, bool),
    Raw(usize, usize),
}

struct Lexer {
    i: usize,
    line: usize,
    line_comment: bool,
    depth: usize,
    mode: Mode,
}

spec fn mode_view(m: Mode) -> LexMode {
    match m {
        Mode::Code => LexMode::Code,
        Mode::Str(start, escape) => LexMode::Str { start: start as nat, escape },
        Mode::Raw(start, hashes) => LexMode::Raw { start: start as nat, hashes: hashes as nat },
    }
}

spec fn lexer_view(l: Lexer) -> LexState {
    LexState {
        i: l.i as nat,
        line: l.line as nat,
        line_comment: l.line_comment,
        depth: l.depth as nat,
        mode: mode_view(l.mode),
    }
}

spec fn bounded(l: Lexer, n: nat) -> bool {
    &&& l.i <= n
    &&& 1 <= l.line <= l.i + 1
    &&& l.depth <= l.i
    &&& match l.mode {
        Mode::Code => true,
        Mode::Str(start, _) => start <= l.line,
        Mode::Raw(start, hashes) => start <= l.line && hashes <= l.i,
    }
}

/// Finding `f` reports `x` for the file `path`.
pub open spec fn reports(f: Finding, path: Seq<char>, x: (nat, FindingKind)) -> bool {
    f.path@ == path && f.line_1 == x.0 && f.msg@ == kind_msg(x.1)
}

pub open spec fn reports_all(out: Seq<Finding>, path: Seq<char>, xs: Seq<(nat, FindingKind)>) -> bool {
    out.len() == xs.len() && forall|k: int| 0 <= k < out.len() ==> #[trigger] reports(out[k], path, xs[k])
}

fn push_finding(out: &mut Vec<Finding>, path: &str, line: usize, kind: FindingKind, Ghost(xs): Ghost<
    Seq<(nat, FindingKind)>,
>)
    requires
        reports_all(old(out)@, path@, xs),
    ensures
        reports_all(final(out)@, path@, xs.push((line as nat, kind))),
{
    let f = Finding { path: path.to_owned(), line_1: line, msg: kind_message(kind) };
    out.push(f);
    assert forall|k: int| 0 <= k < out@.len() implies #[trigger] reports(out@[k], path@, xs.push((line as nat, kind))[k]) by {
        if k < xs.len() {
            assert(out@[k] == old(out)@[k]);
        }
    }
}

fn hash_end_exec(t: &Vec<char>, k: usize) -> (j: usize)
    requires
        k <= t@.len(),
    ensures
        j as int == hash_end(t@, k as int),
{
    let mut j = k;
    while j < t.len() && t[j] == '#'
        invariant
            k <= j <= t@.len(),
            hash_end(t@, k as int) == hash_end(t@, j as int),
        decreases t@.len() - j,
    {
        j = j + 1;
    }
    j
}

fn closes_exec(t: &Vec<char>, k: usize, hashes: usize) -> (b: bool)
    ensures
        b == closes(t@, k as int, hashes as nat),
{
    let n = t.len();
    if k > n || hashes > n - k {
        return false;
    }
    let mut m: usize = 0;
    while m < hashes
        invariant
            n == t@.len(),
            k + hashes <= n,
            m <= hashes,
            forall|q: int| k <= q < k + m ==> t@[q] == '#',
        decreases hashes - m,
    {
        if t[k + m] != '#' {
            return false;
        }
        m = m + 1;
    }
    true
}

/// The code-mode step at a double quote: the continuation check on the rest of the line.
fn quote_step(t: &Vec<char>, l: Lexer, path: &str, out: &mut Vec<Finding>, Ghost(xs): Ghost<
    Seq<(nat, FindingKind)>,
>) -> (r: Lexer)
    requires
        l.i < t@.len(),
        t@.len() < usize::MAX,
        bounded(l, t@.len() as nat),
        l.mode is Code,
        !l.line_comment,
        l.depth == 0,
        t@[l.i as int] == '"',
        !(t@[l.i as int] == '\n'),
        reports_all(old(out)@, path@, xs),
    ensures
        lexer_view(r) == step(t@, lexer_view(l)).0,
        bounded(r, t@.len() as nat),
        reports_all(final(out)@, path@, xs + step(t@, lexer_view(l)).1),
{
    let ghost st = lexer_view(l);
    proof {
        lemma_char_pos(t@, '\n', l.i as int);
    }
    let nl = char_pos_exec(t.as_slice(), '\n', l.i);
    if nl < t.len() {
        let line_cs = slice_to_vec(t.as_slice(), l.i, nl);
        if has_continuation_chars(line_cs.as_slice()) {
            push_finding(out, path, l.line, FindingKind::Continuation, Ghost(xs));
            assert(xs + step(t@, st).1 =~= xs.push((l.line as nat, FindingKind::Continuation)));
        } else {
            assert(xs + step(t@, st).1 =~= xs);
        }
    } else {
        assert(xs + step(t@, st).1 =~= xs);
    }
    Lexer { i: l.i + 1, line: l.line, line_comment: false, depth: 0, mode: Mode::Str(l.line, false) }
}

/// The code-mode step at `r`: a raw string opens when hash signs and a quote follow.
fn raw_open_step(t: &Vec<char>, l: Lexer) -> (r: Lexer)
    requires
        l.i + 1 < t@.len(),
        t@.len() < usize::MAX,
        bounded(l, t@.len() as nat),
        l.mode is Code,
        !l.line_comment,
        l.depth == 0,
        t@[l.i as int] == 'r',
    ensures
        lexer_view(r) == step(t@, lexer_view(l)).0,
        step(t@, lexer_view(l)).1.len() == 0,
        bounded(r, t@.len() as nat),
{
    proof {
        lemma_hash_end(t@, l.i + 1);
    }
    let j = hash_end_exec(t, l.i + 1);
    if j < t.len() && t[j] == '"' {
        Lexer { i: j + 1, line: l.line, line_comment: false, depth: 0, mode: Mode::Raw(l.line, j - (l.i + 1)) }
    } else {
        Lexer { i: l.i + 1, ..l }
    }
}

fn code_step(t: &Vec<char>, l: Lexer, path: &str, out: &mut Vec<Finding>, Ghost(xs): Ghost<
    Seq<(nat, FindingKind)>,
>) -> (r: Lexer)
    requires
        l.i < t@.len(),
        t@.len() < usize::MAX,
        bounded(l, t@.len() as nat),
        l.mode is Code,
        reports_all(old(out)@, path@, xs),
    ensures
        lexer_view(r) == step(t@, lexer_view(l)).0,
        bounded(r, t@.len() as nat),
        reports_all(final(out)@, path@, xs + step(t@, lexer_view(l)).1),
{
    let ghost st = lexer_view(l);
    let n = t.len();
    let i = l.i;
    let c = t[i];
    let next_star = i + 1 < n && t[i + 1] == '*';
    let next_slash = i + 1 < n && t[i + 1] == '/';
    if c == '\n' {
        assert(xs + step(t@, st).1 =~= xs);
        return Lexer { i: i + 1, line: l.line + 1, line_comment: false, ..l };
    }
    if l.line_comment {
        assert(xs + step(t@, st).1 =~= xs);
        return Lexer { i: i + 1, ..l };
    }
    if l.depth > 0 {
        assert(xs + step(t@, st).1 =~= xs);
        if c == '/' && next_star {
            return Lexer { i: i + 2, depth: l.depth + 1, ..l };
        }
        if c == '*' && next_slash {
            return Lexer { i: i + 2, depth: l.depth - 1, ..l };
        }
        return Lexer { i: i + 1, ..l };
    }
    if c == '/' && next_slash {
        assert(xs + step(t@, st).1 =~= xs);
        return Lexer { i: i + 2, line_comment: true, ..l };
    }
    if c == '/' && next_star {
        assert(xs + step(t@, st).1 =~= xs);
        return Lexer { i: i + 2, depth: 1, ..l };
    }
    if c == '"' {
        return quote_step(t, l, path, out, Ghost(xs));
    }
    assert(xs + step(t@, st).1 =~= xs);
    if c == 'r' && i + 1 < n {
        return raw_open_step(t, l);
    }
    Lexer { i: i + 1, ..l }
}

fn string_step(t: &Vec<char>, l: Lexer, path: &str, out: &mut Vec<Finding>, Ghost(xs): Ghost<
    Seq<(nat, FindingKind)>,
>) -> (r: Lexer)
    requires
        l.i < t@.len(),
        t@.len() < usize::MAX,
        bounded(l, t@.len() as nat),
        !(l.mode is Code),
        reports_all(old(out)@, path@, xs),
    ensures
        lexer_view(r) == step(t@, lexer_view(l)).0,
        bounded(r, t@.len() as nat),
        reports_all(final(out)@, path@, xs + step(t@, lexer_view(l)).1),
{
    let ghost st = lexer_view(l);
    let i = l.i;
    let c = t[i];
    match l.mode {
        Mode::Str(start, escape) => {
            if c == '\n' {
                push_finding(out, path, start, FindingKind::MultiLine, Ghost(xs));
                assert(xs + step(t@, st).1 =~= xs.push((start as nat, FindingKind::MultiLine)));
                return Lexer { i: i + 1, line: l.line + 1, ..l };
            }
            assert(xs + step(t@, st).1 =~= xs);
            if escape {
                return Lexer { i: i + 1, mode: Mode::Str(start, false), ..l };
            }
            if c == '\\' {
                return Lexer { i: i + 1, mode: Mode::Str(start, true), ..l };
            }
            if c == '"' {
                return Lexer { i: i + 1, mode: Mode::Code, ..l };
            }
            Lexer { i: i + 1, ..l }
        },
        Mode::Raw(start, hashes) => {
            if c == '\n' {
                push_finding(out, path, start, FindingKind::MultiLineRaw, Ghost(xs));
                assert(xs + step(t@, st).1 =~= xs.push((start as nat, FindingKind::MultiLineRaw)));
                return Lexer { i: i + 1, line: l.line + 1, ..l };
            }
            assert(xs + step(t@, st).1 =~= xs);
            if c == '"' && closes_exec(t, i + 1, hashes) {
                return Lexer { i: i + 1 + hashes, mode: Mode::Code, ..l };
            }
            Lexer { i: i + 1, ..l }
        },
        Mode::Code => l,
    }
}

/// Findings for one file: each string literal that spans several lines (once per
/// line break inside it, at the line where it starts) and each `"\` continuation.
pub fn check_file(path: &str, text: &str) -> (out: Vec<Finding>)
    requires
        text@.len() < usize::MAX,
    ensures
        reports_all(out@, path@, check_spec(text@)),
        forall|k: int| 0 <= k < out@.len() ==> (#[trigger] out@[k]).path@ == path@ && 1 <= out@[k].line_1 <= 1
            + newline_count(text@),
        forall|a: int, b: int| 0 <= a <= b < out@.len() ==> (#[trigger] out@[a]).line_1 <= (#[trigger] out@[b]).line_1,
        !text@.contains('"') ==> out@.len() == 0,
{
    let t = str_chars(text);
    let mut out: Vec<Finding> = Vec::new();
    let mut l = Lexer { i: 0, line: 1, line_comment: false, depth: 0, mode: Mode::Code };
    let ghost mut found: Seq<(nat, FindingKind)> = seq![];
    assert(lexer_view(l) == initial_lex_state());
    while l.i < t.len()
        invariant
            t@ == text@,
            t@.len() < usize::MAX,
            bounded(l, t@.len() as nat),
            reports_all(out@, path@, found),
            check_spec(t@) == found + run(t@, lexer_view(l)),
        decreases t@.len() - l.i,
    {
        let ghost st = lexer_view(l);
        proof {
            lemma_step_progress(t@, st);
            assert(run(t@, st) == step(t@, st).1 + run(t@, step(t@, st).0));
        }
        let is_code = match l.mode {
            Mode::Code => true,
            _ => false,
        };
        let next = if is_code {
            code_step(&t, l, path, &mut out, Ghost(found))
        } else {
            string_step(&t, l, path, &mut out, Ghost(found))
        };
        proof {
            assert(found + run(t@, st) =~= (found + step(t@, st).1) + run(t@, step(t@, st).0));
            found = found + step(t@, st).1;
        }
        l = next;
    }
    proof {
        assert(run(t@, lexer_view(l)) =~= seq![]);
        assert(found + seq![] =~= found);
        lemma_findings_in_line_order(text@);
        if !text@.contains('"') {
            lemma_quote_free_text_is_clean(text@);
        }
        let xs = check_spec(text@);
        assert forall|k: int| 0 <= k < out@.len() implies (#[trigger] out@[k]).path@ == path@ && 1 <= out@[k].line_1
            <= 1 + newline_count(text@) by {
            assert(reports(out@[k], path@, xs[k]));
            assert(1 <= xs[k].0);
        }
        assert forall|a: int, b: int| 0 <= a <= b < out@.len() implies (#[trigger] out@[a]).line_1 <= (
        #[trigger] out@[b]).line_1 by {
            assert(reports(out@[a], path@, xs[a]));
            assert(reports(out@[b], path@, xs[b]));
            assert(xs[a].0 <= xs[b].0);
        }
    }
    out
}

} // verus!
