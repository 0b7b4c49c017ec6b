//! Merging pane branches back: the octopus merge message built from the panes'
//! commit subjects, the working-tree precondition, and the git invocations and
//! metadata fields of the fetch and octopus strategies.
use vstd::prelude::*;

use crate::escape::{json_escape, json_escape_spec, strings_view};
use crate::text::{
    chars_eq, dec_spec, is_ws, join_spec, lines, lines_spec, lower_spec, seqs_view, str_chars,
    string_from_chars, to_lower, trim, trim_end_spec, trim_spec, trim_start_char, trim_start_char_spec,
    usize_to_string, char_is_ws, char_pos, char_pos_exec, lemma_char_pos, slice_to_vec, push_chars,
};

verus! {

/// Whitespace runs collapsed to one space and trimmed (`split_whitespace` joined by
/// single spaces).
pub open spec fn collapse_ws(s: Seq<char>) -> Seq<char>
    decreases s.len(),
{
    if s.len() == 0 {
        seq![]
    } else {
        let p = s.drop_last();
        let r = collapse_ws(p);
        let c = s.last();
        if is_ws(c) {
            r
        } else if r.len() > 0 && p.len() > 0 && is_ws(p.last()) {
            r.push(' ').push(c)
        } else {
            r.push(c)
        }
    }
}

fn collapse_ws_exec(s: &[char]) -> (out: Vec<char>)
    ensures
        out@ == collapse_ws(s@),
{
    let mut out: Vec<char> = Vec::new();
    let mut i: usize = 0;
    while i < s.len()
        invariant
            i <= s@.len(),
            out@ == collapse_ws(s@.take(i as int)),
        decreases s@.len() - i,
    {
        assert(s@.take(i + 1).drop_last() =~= s@.take(i as int));
        let c = s[i];
        if !char_is_ws(c) {
            if out.len() > 0 && i > 0 && char_is_ws(s[i - 1]) {
                out.push(' ');
            }
            out.push(c);
        }
        i = i + 1;
    }
    assert(s@.take(s@.len() as int) =~= s@);
    out
}

/// Conventional-commit types whose prefix is dropped from a subject.
pub open spec fn conventional_type(p: Seq<char>) -> bool {
    p == "feat"@ || p == "fix"@ || p == "docs"@ || p == "style"@ || p == "refactor"@ || p == "perf"@ || p == "test"@
        || p == "chore"@ || p == "build"@ || p == "ci"@ || p == "revert"@
}

/// A subject without its conventional prefix: when the text before the first `:`
/// is (in ASCII lower case) a conventional type, what follows the colons, trimmed.
pub open spec fn strip_conventional(t: Seq<char>) -> Seq<char> {
    let pos = char_pos(t, ':', 0);
    if pos < t.len() && conventional_type(lower_spec(t.take(pos))) {
        trim_spec(trim_start_char_spec(t.skip(pos), ':'))
    } else {
        t
    }
}

/// A commit subject as it enters the summary (`None` when nothing is left).
pub open spec fn normalize_subject(line: Seq<char>) -> Option<Seq<char>> {
    let t = trim_spec(line);
    if t.len() == 0 {
        None
    } else {
        let u = collapse_ws(strip_conventional(t));
        if u.len() == 0 {
            None
        } else {
            Some(u)
        }
    }
}

/// Some part equals `t` ignoring ASCII case.
pub open spec fn has_part(parts: Seq<Seq<char>>, t: Seq<char>) -> bool {
    exists|k: int| 0 <= k < parts.len() && lower_spec(#[trigger] parts[k]) == lower_spec(t)
}

pub open spec fn add_subject(parts: Seq<Seq<char>>, line: Seq<char>) -> Seq<Seq<char>> {
    match normalize_subject(line) {
        Some(t) => if has_part(parts, t) {
            parts
        } else {
            parts.push(t)
        },
        None => parts,
    }
}

pub open spec fn add_subjects(parts: Seq<Seq<char>>, ls: Seq<Seq<char>>) -> Seq<Seq<char>>
    decreases ls.len(),
{
    if ls.len() == 0 {
        parts
    } else {
        add_subject(add_subjects(parts, ls.drop_last()), ls.last())
    }
}

/// Distinct (ignoring ASCII case) normalised subjects of all branches, in order of
/// first appearance; a branch whose log could not be read adds nothing.
pub open spec fn summary_parts_spec(outputs: Seq<Option<Seq<char>>>) -> Seq<Seq<char>>
    decreases outputs.len(),
{
    if outputs.len() == 0 {
        seq![]
    } else {
        let rest = summary_parts_spec(outputs.drop_last());
        match outputs.last() {
            Some(body) => add_subjects(rest, lines_spec(body)),
            None => rest,
        }
    }
}

pub open spec fn opt_strings_view(v: Seq<Option<String>>) -> Seq<Option<Seq<char>>> {
    v.map_values(|o: Option<String>| crate::proxy::opt_string_view(o))
}

fn strip_conventional_exec(t: &Vec<char>) -> (out: Vec<char>)
    ensures
        out@ == strip_conventional(t@),
{
    proof {
        lemma_char_pos(t@, ':', 0);
    }
    let pos = char_pos_exec(t.as_slice(), ':', 0);
    if pos < t.len() {
        let pre = slice_to_vec(t.as_slice(), 0, pos);
        let lp = to_lower(pre.as_slice());
        if is_conventional(&lp) {
            let rest = slice_to_vec(t.as_slice(), pos, t.len());
            assert(rest@ =~= t@.skip(pos as int));
            let u = trim_start_char(rest.as_slice(), ':');
            return trim(u.as_slice());
        }
    }
    t.clone()
}

fn word_is(w: &Vec<char>, lit: &str) -> (b: bool)
    ensures
        b == (w@ == lit@),
{
    let l = str_chars(lit);
    chars_eq(w.as_slice(), l.as_slice())
}

fn is_conventional(p: &Vec<char>) -> (b: bool)
    ensures
        b == conventional_type(p@),
{
    word_is(p, "feat") || word_is(p, "fix") || word_is(p, "docs") || word_is(p, "style") || word_is(p, "refactor")
        || word_is(p, "perf") || word_is(p, "test") || word_is(p, "chore") || word_is(p, "build") || word_is(p, "ci")
        || word_is(p, "revert")
}

fn normalize_subject_exec(line: &Vec<char>) -> (r: Option<Vec<char>>)
    ensures
        match r {
            Some(v) => normalize_subject(line@) == Some(v@),
            None => normalize_subject(line@) is None,
        },
{
    let t = trim(line.as_slice());
    if t.len() == 0 {
        return None;
    }
    let s = strip_conventional_exec(&t);
    let u = collapse_ws_exec(s.as_slice());
    if u.len() == 0 {
        None
    } else {
        Some(u)
    }
}

fn has_part_exec(parts: &Vec<Vec<char>>, t: &Vec<char>) -> (b: bool)
    ensures
        b == has_part(seqs_view(parts@), t@),
{
    let lt = to_lower(t.as_slice());
    let mut k: usize = 0;
    while k < parts.len()
        invariant
            k <= parts@.len(),
            lt@ == lower_spec(t@),
            forall|j: int| 0 <= j < k ==> lower_spec(#[trigger] seqs_view(parts@)[j]) != lower_spec(t@),
        decreases parts@.len() - k,
    {
        let lp = to_lower(parts[k].as_slice());
        assert(seqs_view(parts@)[k as int] == parts@[k as int]@);
        if chars_eq(lp.as_slice(), lt.as_slice()) {
            return true;
        }
        k = k + 1;
    }
    false
}

fn add_subjects_exec(parts: &mut Vec<Vec<char>>, body: &str)
    ensures
        seqs_view(final(parts)@) == add_subjects(seqs_view(old(parts)@), lines_spec(body@)),
{
    let cs = str_chars(body);
    let ls = lines(cs.as_slice());
    let mut i: usize = 0;
    while i < ls.len()
        invariant
            i <= ls@.len(),
            seqs_view(ls@) == lines_spec(body@),
            seqs_view(parts@) == add_subjects(seqs_view(old(parts)@), seqs_view(ls@).take(i as int)),
        decreases ls@.len() - i,
    {
        assert(seqs_view(ls@).take(i + 1).drop_last() =~= seqs_view(ls@).take(i as int));
        assert(seqs_view(ls@).take(i + 1).last() == ls@[i as int]@);
        match normalize_subject_exec(&ls[i]) {
            Some(t) => {
                if !has_part_exec(parts, &t) {
                    let ghost before = seqs_view(parts@);
                    parts.push(t);
                    assert(seqs_view(parts@) =~= before.push(t@));
                }
            },
            None => {},
        }
        i = i + 1;
    }
    assert(seqs_view(ls@).take(ls@.len() as int) =~= seqs_view(ls@));
}

/// The distinct commit subjects of the panes' branches.
pub fn summary_parts(outputs: &Vec<Option<String>>) -> (parts: Vec<String>)
    ensures
        strings_view(parts@) == summary_parts_spec(opt_strings_view(outputs@)),
{
    let mut acc: Vec<Vec<char>> = Vec::new();
    let mut i: usize = 0;
    while i < outputs.len()
        invariant
            i <= outputs@.len(),
            seqs_view(acc@) == summary_parts_spec(opt_strings_view(outputs@).take(i as int)),
        decreases outputs@.len() - i,
    {
        assert(opt_strings_view(outputs@).take(i + 1).drop_last() =~= opt_strings_view(outputs@).take(i as int));
        match &outputs[i] {
            Some(body) => {
                add_subjects_exec(&mut acc, body.as_str());
            },
            None => {},
        }
        i = i + 1;
    }
    assert(opt_strings_view(outputs@).take(outputs@.len() as int) =~= opt_strings_view(outputs@));
    let mut parts: Vec<String> = Vec::new();
    let mut k: usize = 0;
    while k < acc.len()
        invariant
            k <= acc@.len(),
            strings_view(parts@) == seqs_view(acc@).take(k as int),
        decreases acc@.len() - k,
    {
        crate::escape::push_string_item(&mut parts, string_from_chars(acc[k].as_slice()));
        assert(seqs_view(acc@).take(k + 1) =~= seqs_view(acc@).take(k as int).push(acc@[k as int]@));
        k = k + 1;
    }
    assert(seqs_view(acc@).take(acc@.len() as int) =~= seqs_view(acc@));
    parts
}

/// Bytes of a character in UTF-8.
pub open spec fn char_utf8_len(c: char) -> nat {
    if (c as u32) < 0x80 {
        1
    } else if (c as u32) < 0x800 {
        2
    } else if (c as u32) < 0x10000 {
        3
    } else {
        4
    }
}

/// Bytes of a character sequence in UTF-8 (`str::len`).
pub open spec fn utf8_len(s: Seq<char>) -> nat
    decreases s.len(),
{
    if s.len() == 0 {
        0
    } else {
        utf8_len(s.drop_last()) + char_utf8_len(s.last())
    }
}

/// The number of leading characters that take exactly `n` bytes, if `n` falls on
/// a character boundary.
pub open spec fn boundary_chars(s: Seq<char>, n: nat) -> Option<nat>
    decreases s.len(),
{
    if n == 0 {
        Some(0)
    } else if s.len() == 0 {
        None
    } else if char_utf8_len(s[0]) > n {
        None
    } else {
        match boundary_chars(s.drop_first(), (n - char_utf8_len(s[0])) as nat) {
            Some(k) => Some(k + 1),
            None => None,
        }
    }
}

/// The summary joined with ` / `.
pub open spec fn joined_summary(parts: Seq<Seq<char>>) -> Seq<char> {
    join_spec(parts, " / "@)
}

/// The most leading characters of `s` that fit in `budget` bytes of UTF-8.
pub open spec fn fit_chars(s: Seq<char>, budget: nat) -> nat
    decreases s.len(),
{
    if s.len() == 0 || char_utf8_len(s[0]) > budget {
        0
    } else {
        1 + fit_chars(s.drop_first(), (budget - char_utf8_len(s[0])) as nat)
    }
}

/// The longest first line of the merge message, in bytes.
pub open spec fn summary_line_max() -> nat {
    170
}

/// `Octopus merge: ` in front of a summary, unless it already starts with
/// `octopus merge` in any case.
pub open spec fn summary_prefix(j: Seq<char>) -> Seq<char> {
    if crate::text::starts_with_spec(lower_spec(j), "octopus merge"@) {
        seq![]
    } else {
        "Octopus merge: "@
    }
}

/// The first line of the merge message: a count of branches when no subject was
/// found; else the subjects joined by ` / ` behind `summary_prefix`, and when that
/// exceeds 170 bytes, the summary cut at a character boundary (trailing blanks
/// dropped) and followed by a space and an ellipsis, so that the line stays within
/// 170 bytes.
pub open spec fn summary_line_spec(parts: Seq<Seq<char>>, nbranches: nat) -> Seq<char> {
    let j = joined_summary(parts);
    let p = summary_prefix(j);
    if parts.len() == 0 {
        "Octopus merge of "@ + dec_spec(nbranches) + " branch(es)"@
    } else if fit_chars(j, (summary_line_max() - p.len()) as nat) == j.len() {
        p + j
    } else {
        p + trim_end_spec(j.take(fit_chars(j, (summary_line_max() - 4 - p.len()) as nat) as int)) + " \u{2026}"@
    }
}

fn char_len_exec(c: char) -> (n: usize)
    ensures
        n == char_utf8_len(c),
{
    if (c as u32) < 0x80 {
        1
    } else if (c as u32) < 0x800 {
        2
    } else if (c as u32) < 0x10000 {
        3
    } else {
        4
    }
}

proof fn lemma_utf8_len_take(s: Seq<char>, k: int)
    requires
        0 <= k < s.len(),
    ensures
        utf8_len(s.take(k + 1)) == utf8_len(s.take(k)) + char_utf8_len(s[k]),
{
    assert(s.take(k + 1).drop_last() =~= s.take(k));
}

proof fn lemma_boundary_take(s: Seq<char>, k: int, n: nat)
    requires
        0 <= k <= s.len(),
        utf8_len(s.take(k)) <= n,
    ensures
        boundary_chars(s, n) == match boundary_chars(s.skip(k), (n - utf8_len(s.take(k))) as nat) {
            Some(j) => Some((j + k) as nat),
            None => None::<nat>,
        },
    decreases k,
{
    if k > 0 {
        let t = s.drop_first();
        assert(t.skip(k - 1) =~= s.skip(k));
        lemma_utf8_front(s, k);
        if n == 0 {
            assert(char_utf8_len(s[0]) >= 1);
        }
        lemma_boundary_take(t, k - 1, (n - char_utf8_len(s[0])) as nat);
    } else {
        assert(s.skip(0) =~= s);
    }
}

proof fn lemma_utf8_front(s: Seq<char>, k: int)
    requires
        0 < k <= s.len(),
    ensures
        utf8_len(s.take(k)) == char_utf8_len(s[0]) + utf8_len(s.drop_first().take(k - 1)),
    decreases k,
{
    if k == 1 {
        assert(s.take(1).drop_last() =~= Seq::<char>::empty());
        assert(s.drop_first().take(0) =~= Seq::<char>::empty());
    } else {
        lemma_utf8_front(s, k - 1);
        assert(s.take(k).drop_last() =~= s.take(k - 1));
        assert(s.drop_first().take(k - 1).drop_last() =~= s.drop_first().take(k - 2));
        assert(s.drop_first().take(k - 1).last() == s[k - 1]);
    }
}

proof fn lemma_utf8_mono(s: Seq<char>, k: int)
    requires
        0 <= k <= s.len(),
    ensures
        utf8_len(s.take(k)) <= utf8_len(s),
        k < s.len() ==> utf8_len(s.take(k)) < utf8_len(s),
    decreases s.len() - k,
{
    if k < s.len() {
        lemma_utf8_len_take(s, k);
        lemma_utf8_mono(s, k + 1);
    } else {
        assert(s.take(k) =~= s);
    }
}

/// `fit_chars` on characters.
fn fit_count(s: &[char], budget: usize) -> (k: usize)
    ensures
        k == fit_chars(s@, budget as nat),
        k <= s@.len(),
{
    let mut k: usize = 0;
    let mut left: usize = budget;
    assert(s@.skip(0) =~= s@);
    while k < s.len() && char_len_exec(s[k]) <= left
        invariant
            k <= s@.len(),
            left <= budget,
            fit_chars(s@, budget as nat) == k + fit_chars(s@.skip(k as int), left as nat),
        decreases s@.len() - k,
    {
        assert(s@.skip(k as int)[0] == s@[k as int]);
        assert(s@.skip(k as int).drop_first() =~= s@.skip(k + 1));
        left = left - char_len_exec(s[k]);
        k = k + 1;
    }
    if k < s.len() {
        assert(s@.skip(k as int)[0] == s@[k as int]);
    }
    k
}

/// The first line of the merge message (see `summary_line_spec`).
pub fn summary_line(parts: &Vec<String>, nbranches: usize) -> (s: String)
    ensures
        s@ == summary_line_spec(strings_view(parts@), nbranches as nat),
{
    if parts.len() == 0 {
        let mut l = "Octopus merge of ".to_owned();
        l.push_str(usize_to_string(nbranches).as_str());
        l.push_str(" branch(es)");
        return l;
    }
    let joined = crate::escape::join_strings(parts, " / ");
    let j = str_chars(joined.as_str());
    let lower = to_lower(j.as_slice());
    let pre = str_chars("octopus merge");
    proof {
        reveal_strlit("Octopus merge: ");
    }
    let prefixed = !crate::text::starts_with(lower.as_slice(), pre.as_slice());
    let plen: usize = if prefixed { 15 } else { 0 };
    let mut out = if prefixed { "Octopus merge: ".to_owned() } else { String::new() };
    assert(out@ == summary_prefix(j@));
    assert(out@.len() == plen);
    if fit_count(j.as_slice(), 170 - plen) == j.len() {
        out.push_str(joined.as_str());
    } else {
        let k = fit_count(j.as_slice(), 166 - plen);
        let head = slice_to_vec(j.as_slice(), 0, k);
        assert(head@ =~= j@.take(k as int));
        let te = trim_end_exec(head.as_slice());
        push_chars(&mut out, te.as_slice());
        out.push_str(" \u{2026}");
    }
    out
}

proof fn lemma_utf8_concat(a: Seq<char>, b: Seq<char>)
    ensures
        utf8_len(a + b) == utf8_len(a) + utf8_len(b),
    decreases b.len(),
{
    if b.len() == 0 {
        assert(a + b =~= a);
    } else {
        assert((a + b).drop_last() =~= a + b.drop_last());
        assert((a + b).last() == b.last());
        lemma_utf8_concat(a, b.drop_last());
    }
}

proof fn lemma_utf8_ascii(s: Seq<char>)
    requires
        forall|i: int| 0 <= i < s.len() ==> (s[i] as u32) < 0x80,
    ensures
        utf8_len(s) == s.len(),
    decreases s.len(),
{
    if s.len() > 0 {
        assert(s.last() == s[s.len() - 1]);
        lemma_utf8_ascii(s.drop_last());
    }
}

proof fn lemma_fit_chars(s: Seq<char>, b: nat)
    ensures
        fit_chars(s, b) <= s.len(),
        utf8_len(s.take(fit_chars(s, b) as int)) <= b,
    decreases s.len(),
{
    let k = fit_chars(s, b);
    if s.len() == 0 || char_utf8_len(s[0]) > b {
        assert(s.take(0) =~= Seq::<char>::empty());
    } else {
        let t = s.drop_first();
        let b1 = (b - char_utf8_len(s[0])) as nat;
        lemma_fit_chars(t, b1);
        lemma_utf8_front(s, k as int);
    }
}

proof fn lemma_trim_end_utf8(s: Seq<char>)
    ensures
        utf8_len(trim_end_spec(s)) <= utf8_len(s),
    decreases s.len(),
{
    if s.len() > 0 && crate::text::is_ws(s.last()) {
        lemma_trim_end_utf8(s.drop_last());
    }
}

proof fn lemma_trim_end_keeps_front(s: Seq<char>, k: int)
    requires
        0 < k <= s.len(),
        !crate::text::is_ws(s[k - 1]),
    ensures
        trim_end_spec(s).len() >= k,
        forall|i: int| 0 <= i < k ==> trim_end_spec(s)[i] == s[i],
    decreases s.len(),
{
    if s.len() > 0 && crate::text::is_ws(s.last()) {
        assert(s.len() - 1 >= k);
        let d = s.drop_last();
        assert(d[k - 1] == s[k - 1]);
        lemma_trim_end_keeps_front(d, k);
        assert forall|i: int| 0 <= i < k implies trim_end_spec(s)[i] == s[i] by {
            assert(d[i] == s[i]);
        }
    }
}

proof fn lemma_lower_ascii(c: char)
    ensures
        (crate::text::lower_char(c) as u32) < 0x80 ==> (c as u32) < 0x80,
{
}

/// The first line of the merge message starts with `octopus merge` in any case, and
/// when subjects were found it stays within 170 bytes of UTF-8.
pub proof fn lemma_summary_line_fits(parts: Seq<Seq<char>>, nbranches: nat)
    ensures
        crate::text::starts_with_spec(lower_spec(summary_line_spec(parts, nbranches)), "octopus merge"@),
        parts.len() > 0 ==> utf8_len(summary_line_spec(parts, nbranches)) <= summary_line_max(),
{
    reveal_strlit("Octopus merge: ");
    reveal_strlit("octopus merge");
    reveal_strlit("Octopus merge of ");
    let j = joined_summary(parts);
    let p = summary_prefix(j);
    let line = summary_line_spec(parts, nbranches);
    let om = "octopus merge"@;
    assert(om.len() == 13);
    let ell = " \u{2026}"@;
    reveal_strlit(" \u{2026}");
    assert(utf8_len(ell) == 4) by {
        let sp = seq![' '];
        assert(ell.drop_last() =~= sp);
        assert(sp.drop_last() =~= Seq::<char>::empty());
        assert(utf8_len(sp) == utf8_len(sp.drop_last()) + char_utf8_len(sp.last()));
        assert(utf8_len(sp) == 1);
        assert(ell.last() == '\u{2026}');
        assert(('\u{2026}' as u32) == 0x2026u32);
        assert(char_utf8_len('\u{2026}') == 3);
        assert(utf8_len(ell) == utf8_len(ell.drop_last()) + char_utf8_len(ell.last()));
    }
    if p.len() > 0 {
        lemma_utf8_ascii(p);
    } else {
        assert(utf8_len(p) == 0);
    }
    if parts.len() == 0 {
        let head = "Octopus merge of "@;
        assert(lower_spec(line).subrange(0, 13) =~= om) by {
            assert forall|i: int| 0 <= i < 13 implies lower_spec(line).subrange(0, 13)[i] == om[i] by {
                assert(line[i] == head[i]);
            }
        }
    } else if fit_chars(j, (summary_line_max() - p.len()) as nat) == j.len() {
        lemma_fit_chars(j, (summary_line_max() - p.len()) as nat);
        assert(j.take(j.len() as int) =~= j);
        lemma_utf8_concat(p, j);
        if p.len() > 0 {
            assert(lower_spec(line).subrange(0, 13) =~= om) by {
                assert forall|i: int| 0 <= i < 13 implies lower_spec(line).subrange(0, 13)[i] == om[i] by {
                    assert(line[i] == p[i]);
                }
            }
        } else {
            assert(line =~= j);
        }
    } else {
        let b = (summary_line_max() - 4 - p.len()) as nat;
        let k = fit_chars(j, b);
        lemma_fit_chars(j, b);
        let cut = j.take(k as int);
        let te = trim_end_spec(cut);
        lemma_trim_end_utf8(cut);
        lemma_utf8_concat(p, te);
        lemma_utf8_concat(p + te, ell);
        assert(line =~= p + te + ell);
        if p.len() > 0 {
            assert(lower_spec(line).subrange(0, 13) =~= om) by {
                assert forall|i: int| 0 <= i < 13 implies lower_spec(line).subrange(0, 13)[i] == om[i] by {
                    assert(line[i] == p[i]);
                }
            }
        } else {
            let lj = lower_spec(j);
            assert(crate::text::starts_with_spec(lj, om));
            assert forall|i: int| 0 <= i < 13 implies (#[trigger] j[i] as u32) < 0x80 by {
                assert(lj.subrange(0, 13)[i] == om[i]);
                assert(lj[i] == crate::text::lower_char(j[i]));
                assert((om[i] as u32) < 0x80);
                lemma_lower_ascii(j[i]);
            }
            assert(!crate::text::is_ws(j[12])) by {
                assert(lj.subrange(0, 13)[12] == om[12]);
                assert(lj[12] == crate::text::lower_char(j[12]));
                assert(om[12] == 'e');
            }
            lemma_fit_ascii_prefix(j, b, 13);
            assert(cut[12] == j[12]);
            lemma_trim_end_keeps_front(cut, 13);
            assert(lower_spec(line).subrange(0, 13) =~= om) by {
                assert forall|i: int| 0 <= i < 13 implies lower_spec(line).subrange(0, 13)[i] == om[i] by {
                    assert(line[i] == te[i]);
                    assert(te[i] == cut[i]);
                    assert(cut[i] == j[i]);
                    assert(lj.subrange(0, 13)[i] == om[i]);
                    assert(lj[i] == crate::text::lower_char(j[i]));
                }
            }
        }
    }
}

proof fn lemma_fit_ascii_prefix(s: Seq<char>, b: nat, m: int)
    requires
        0 <= m <= s.len(),
        m <= b,
        forall|i: int| 0 <= i < m ==> (#[trigger] s[i] as u32) < 0x80,
    ensures
        fit_chars(s, b) >= m,
    decreases m,
{
    if m > 0 {
        let t = s.drop_first();
        assert(char_utf8_len(s[0]) == 1);
        assert forall|i: int| 0 <= i < m - 1 implies (#[trigger] t[i] as u32) < 0x80 by {
            assert(t[i] == s[i + 1]);
        }
        lemma_fit_ascii_prefix(t, (b - 1) as nat, m - 1);
    }
}

fn trim_end_exec(s: &[char]) -> (out: Vec<char>)
    ensures
        out@ == trim_end_spec(s@),
{
    let mut k: usize = s.len();
    assert(s@.take(s@.len() as int) =~= s@);
    while k > 0 && char_is_ws(s[k - 1])
        invariant
            k <= s@.len(),
            trim_end_spec(s@) == trim_end_spec(s@.take(k as int)),
        decreases k,
    {
        assert(s@.take(k as int).drop_last() =~= s@.take(k - 1));
        k = k - 1;
    }
    slice_to_vec(s, 0, k)
}

/// Non-empty trimmed lines of a log, in order.
pub open spec fn nonempty_trimmed(ls: Seq<Seq<char>>) -> Seq<Seq<char>>
    decreases ls.len(),
{
    if ls.len() == 0 {
        seq![]
    } else {
        let rest = nonempty_trimmed(ls.drop_last());
        let t = trim_spec(ls.last());
        if t.len() > 0 {
            rest.push(t)
        } else {
            rest
        }
    }
}

pub open spec fn bullets(ts: Seq<Seq<char>>) -> Seq<char>
    decreases ts.len(),
{
    if ts.len() == 0 {
        seq![]
    } else {
        bullets(ts.drop_last()) + "  * "@ + ts.last() + "\n"@
    }
}

/// The section of one branch: its one-line log entries, `(no changes)` when there
/// are none, or `(unable to summarize changes)` when the log could not be read.
pub open spec fn branch_section(branch: Seq<char>, log: Option<Seq<char>>) -> Seq<char> {
    "- branch '"@ + branch + "':\n"@ + match log {
        Some(body) => {
            let ts = nonempty_trimmed(lines_spec(body));
            if ts.len() == 0 {
                "  (no changes)\n"@
            } else {
                bullets(ts)
            }
        },
        None => "  (unable to summarize changes)\n"@,
    } + "\n"@
}

pub open spec fn branch_sections(branches: Seq<Seq<char>>, logs: Seq<Option<Seq<char>>>) -> Seq<char>
    decreases branches.len(),
{
    if branches.len() == 0 {
        seq![]
    } else {
        branch_sections(branches.drop_last(), logs) + branch_section(branches.last(), logs[branches.len() - 1])
    }
}

/// The octopus merge message: the summary line, a blank line, the heading naming the
/// base, and one section per branch.
pub open spec fn merge_message_spec(
    branches: Seq<Seq<char>>,
    base: Seq<char>,
    subjects: Seq<Option<Seq<char>>>,
    logs: Seq<Option<Seq<char>>>,
) -> Seq<char> {
    summary_line_spec(summary_parts_spec(subjects), branches.len()) + "\n\nBranch summaries relative to "@ + base
        + ":\n"@ + branch_sections(branches, logs)
}

fn branch_section_exec(out: &mut String, branch: &str, log: &Option<String>)
    ensures
        final(out)@ == old(out)@ + branch_section(branch@, crate::proxy::opt_string_view(*log)),
{
    out.push_str("- branch '");
    out.push_str(branch);
    out.push_str("':\n");
    match log {
        Some(body) => {
            let cs = str_chars(body.as_str());
            let ls = lines(cs.as_slice());
            let mut any = false;
            let mut i: usize = 0;
            let ghost start = out@;
            while i < ls.len()
                invariant
                    i <= ls@.len(),
                    seqs_view(ls@) == lines_spec(body@),
                    out@ == start + bullets(nonempty_trimmed(seqs_view(ls@).take(i as int))),
                    any == (nonempty_trimmed(seqs_view(ls@).take(i as int)).len() > 0),
                decreases ls@.len() - i,
            {
                assert(seqs_view(ls@).take(i + 1).drop_last() =~= seqs_view(ls@).take(i as int));
                assert(seqs_view(ls@).take(i + 1).last() == ls@[i as int]@);
                let t = trim(ls[i].as_slice());
                if t.len() > 0 {
                    any = true;
                    out.push_str("  * ");
                    push_chars(out, t.as_slice());
                    out.push_str("\n");
                    proof {
                        let ts = nonempty_trimmed(seqs_view(ls@).take(i as int));
                        assert(ts.push(t@).drop_last() =~= ts);
                    }
                }
                i = i + 1;
            }
            assert(seqs_view(ls@).take(ls@.len() as int) =~= seqs_view(ls@));
            if !any {
                out.push_str("  (no changes)\n");
            }
        },
        None => {
            out.push_str("  (unable to summarize changes)\n");
        },
    }
    out.push_str("\n");
    proof {
        let mid = match crate::proxy::opt_string_view(*log) {
            Some(body) => {
                let ts = nonempty_trimmed(lines_spec(body));
                if ts.len() == 0 {
                    "  (no changes)\n"@
                } else {
                    bullets(ts)
                }
            },
            None => "  (unable to summarize changes)\n"@,
        };
        assert(out@ =~= old(out)@ + ("- branch '"@ + branch@ + "':\n"@ + mid + "\n"@));
    }
}

/// The octopus merge message from the panes' branches, the merge base, and for each
/// branch the output of `git log --no-merges --pretty=format:%s base..branch` and of
/// `git log --no-merges --pretty=format:%h %s base..branch` (`None` when git failed).
pub fn compose_merge_message(
    branches: &Vec<String>,
    base: &str,
    subjects: &Vec<Option<String>>,
    logs: &Vec<Option<String>>,
) -> (msg: String)
    requires
        logs@.len() == branches@.len(),
    ensures
        msg@ == merge_message_spec(strings_view(branches@), base@, opt_strings_view(subjects@), opt_strings_view(logs@)),
{
    let parts = summary_parts(subjects);
    let mut msg = summary_line(&parts, branches.len());
    msg.push_str("\n\nBranch summaries relative to ");
    msg.push_str(base);
    msg.push_str(":\n");
    let ghost head = msg@;
    let mut i: usize = 0;
    while i < branches.len()
        invariant
            i <= branches@.len(),
            logs@.len() == branches@.len(),
            msg@ == head + branch_sections(strings_view(branches@).take(i as int), opt_strings_view(logs@)),
        decreases branches@.len() - i,
    {
        assert(strings_view(branches@).take(i + 1).drop_last() =~= strings_view(branches@).take(i as int));
        assert(opt_strings_view(logs@)[i as int] == crate::proxy::opt_string_view(logs@[i as int]));
        branch_section_exec(&mut msg, branches[i].as_str(), &logs[i]);
        i = i + 1;
    }
    assert(strings_view(branches@).take(branches@.len() as int) =~= strings_view(branches@));
    msg
}

/// The path part of a porcelain status line: what follows its first three bytes.
pub open spec fn porcelain_path(l: Seq<char>) -> Seq<char> {
    if utf8_len(l) > 3 {
        l.skip(boundary_chars(l, 3).unwrap() as int)
    } else {
        seq![]
    }
}

/// Slicing a status line after three bytes needs byte 3 to start a character.
pub open spec fn status_line_cut_ok(l: Seq<char>) -> bool {
    utf8_len(l) <= 3 || boundary_chars(l, 3) is Some
}

/// A status entry that counts: a non-empty path outside `.aifo-coder`.
pub open spec fn status_line_dirty(l: Seq<char>) -> bool {
    let p = porcelain_path(l);
    let ignore = p == ".aifo-coder"@ || crate::text::starts_with_spec(p, ".aifo-coder/"@)
        || crate::text::starts_with_spec(p, ".aifo-coder\\"@);
    !ignore && p.len() > 0
}

/// The base repository's working tree is dirty when `git status` could not run or failed,
/// or when some entry counts.
pub open spec fn worktree_dirty_spec(status: Option<(bool, Seq<char>)>) -> bool {
    match status {
        None => true,
        Some(p) => !p.0 || exists|k: int| 0 <= k < lines_spec(p.1).len() && #[trigger] status_line_dirty(
            lines_spec(p.1)[k],
        ),
    }
}

pub open spec fn status_output_ok(status: Option<(bool, Seq<char>)>) -> bool {
    match status {
        Some(p) => p.0 ==> forall|k: int| 0 <= k < lines_spec(p.1).len() ==> #[trigger] status_line_cut_ok(
            lines_spec(p.1)[k],
        ),
        None => true,
    }
}

fn utf8_prefix(l: &Vec<char>, n: usize) -> (r: (bool, Option<usize>))
    requires
        n <= 160,
    ensures
        r.0 == (utf8_len(l@) > n),
        match r.1 {
            Some(k) => boundary_chars(l@, n as nat) == Some(k as nat) && k <= l@.len(),
            None => r.0 ==> boundary_chars(l@, n as nat) is None,
        },
{
    let mut bytes: usize = 0;
    let mut k: usize = 0;
    assert(l@.take(0) =~= Seq::<char>::empty());
    while k < l.len() && bytes < n
        invariant
            k <= l@.len(),
            n <= 160,
            bytes == utf8_len(l@.take(k as int)),
            bytes <= n + 3,
            k > 0 ==> utf8_len(l@.take(k - 1)) < n,
        decreases l@.len() - k,
    {
        proof {
            lemma_utf8_len_take(l@, k as int);
        }
        bytes = bytes + char_len_exec(l[k]);
        k = k + 1;
    }
    proof {
        lemma_utf8_mono(l@, k as int);
    }
    if bytes < n {
        assert(l@.take(k as int) =~= l@);
        return (false, None);
    }
    if bytes == n {
        proof {
            lemma_boundary_take(l@, k as int, n as nat);
            if k == l@.len() {
                assert(l@.take(k as int) =~= l@);
            }
        }
        return (k < l.len(), Some(k));
    }
    proof {
        lemma_utf8_len_take(l@, k - 1);
        lemma_boundary_take(l@, k - 1, n as nat);
        assert(l@.skip(k - 1)[0] == l@[k - 1]);
    }
    (true, None)
}

/// Whether every line of a successful status output can be cut after three bytes.
pub fn status_output_is_ok(status: &Option<(bool, String)>) -> (b: bool)
    ensures
        b == status_output_ok(opt_pair_view(*status)),
{
    match status {
        Some((true, out)) => {
            assert(opt_pair_view(*status) == Some((true, out@)));
            let cs = str_chars(out.as_str());
            let ls = lines(cs.as_slice());
            let mut k: usize = 0;
            while k < ls.len()
                invariant
                    k <= ls@.len(),
                    opt_pair_view(*status) == Some((true, out@)),
                    seqs_view(ls@) == lines_spec(out@),
                    forall|j: int| 0 <= j < k ==> #[trigger] status_line_cut_ok(lines_spec(out@)[j]),
                decreases ls@.len() - k,
            {
                assert(seqs_view(ls@)[k as int] == ls@[k as int]@);
                let (over, at) = utf8_prefix(&ls[k], 3);
                if over && at.is_none() {
                    assert(!status_line_cut_ok(lines_spec(out@)[k as int]));
                    let ghost pv = opt_pair_view(*status);
                    assert(pv.unwrap().1 == out@ && pv.unwrap().0);
                    assert(!status_line_cut_ok(lines_spec(pv.unwrap().1)[k as int]));
                    return false;
                }
                k = k + 1;
            }
            assert(opt_pair_view(*status) == Some((true, out@)));
            true
        },
        _ => true,
    }
}

pub open spec fn opt_pair_view(s: Option<(bool, String)>) -> Option<(bool, Seq<char>)> {
    match s {
        Some(p) => Some((p.0, p.1@)),
        None => None,
    }
}

fn status_line_dirty_exec(l: &Vec<char>) -> (b: bool)
    requires
        status_line_cut_ok(l@),
    ensures
        b == status_line_dirty(l@),
{
    let (over, at) = utf8_prefix(l, 3);
    let p: Vec<char> = if over {
        let k = at.unwrap();
        let v = slice_to_vec(l.as_slice(), k, l.len());
        assert(v@ =~= l@.skip(k as int));
        v
    } else {
        Vec::new()
    };
    assert(p@ =~= porcelain_path(l@));
    let a = str_chars(".aifo-coder");
    let b1 = str_chars(".aifo-coder/");
    let b2 = str_chars(".aifo-coder\\");
    let ignore = chars_eq(p.as_slice(), a.as_slice()) || crate::text::starts_with(p.as_slice(), b1.as_slice())
        || crate::text::starts_with(p.as_slice(), b2.as_slice());
    !ignore && p.len() > 0
}

/// Dirty check of the base repository before an octopus merge, from the run of
/// `git status --porcelain=v1 -uall` (`None` when git could not be run).
pub fn worktree_dirty(status: &Option<(bool, String)>) -> (b: bool)
    requires
        status_output_ok(opt_pair_view(*status)),
    ensures
        b == worktree_dirty_spec(opt_pair_view(*status)),
{
    match status {
        None => true,
        Some((ok, out)) => {
            assert(opt_pair_view(*status) == Some((*ok, out@)));
            if !*ok {
                return true;
            }
            let ghost pv = opt_pair_view(*status);
            assert(pv.unwrap().1 == out@ && pv.unwrap().0);
            assert(status_output_ok(pv));
            assert(forall|j: int| 0 <= j < lines_spec(pv.unwrap().1).len() ==> #[trigger] status_line_cut_ok(lines_spec(pv.unwrap().1)[j]));
            let cs = str_chars(out.as_str());
            let ls = lines(cs.as_slice());
            let mut k: usize = 0;
            while k < ls.len()
                invariant
                    k <= ls@.len(),
                    opt_pair_view(*status) == Some((true, out@)),
                    seqs_view(ls@) == lines_spec(out@),
                    forall|j: int| 0 <= j < lines_spec(out@).len() ==> #[trigger] status_line_cut_ok(lines_spec(out@)[j]),
                    forall|j: int| 0 <= j < k ==> !#[trigger] status_line_dirty(lines_spec(out@)[j]),
                decreases ls@.len() - k,
            {
                assert(seqs_view(ls@)[k as int] == ls@[k as int]@);
                assert(status_line_cut_ok(lines_spec(out@)[k as int]));
                if status_line_dirty_exec(&ls[k]) {
                    assert(status_line_dirty(lines_spec(out@)[k as int]));
                    let ghost pv = opt_pair_view(*status);
                    assert(pv == Some((true, out@)));
                    assert(pv.unwrap().1 == out@);
                    assert(status_line_dirty(lines_spec(pv.unwrap().1)[k as int]));
                    assert(worktree_dirty_spec(pv));
                    return true;
                }
                k = k + 1;
            }
            false
        },
    }
}

/// A usable branch name: not empty and not a detached `HEAD`.
pub open spec fn usable_branch(b: Seq<char>) -> bool {
    b.len() > 0 && b != "HEAD"@
}

/// The branch to merge from a pane: its current branch when usable, else the
/// recorded hint.
pub open spec fn pane_branch_spec(actual: Option<Seq<char>>, hint: Seq<char>) -> Seq<char> {
    match actual {
        Some(a) => if usable_branch(a) {
            a
        } else {
            hint
        },
        None => hint,
    }
}

/// Panes (directory, branch) whose chosen branch is usable, in order.
pub open spec fn pane_branches_spec(panes: Seq<(Seq<char>, Seq<char>, Option<Seq<char>>)>) -> Seq<(Seq<char>, Seq<char>)>
    decreases panes.len(),
{
    if panes.len() == 0 {
        seq![]
    } else {
        let rest = pane_branches_spec(panes.drop_last());
        let p = panes.last();
        let b = pane_branch_spec(p.2, p.1);
        if usable_branch(b) {
            rest.push((p.0, b))
        } else {
            rest
        }
    }
}

pub open spec fn pane_input_view(p: (String, String, Option<String>)) -> (Seq<char>, Seq<char>, Option<Seq<char>>) {
    (p.0@, p.1@, crate::proxy::opt_string_view(p.2))
}

pub open spec fn pair_view(p: (String, String)) -> (Seq<char>, Seq<char>) {
    (p.0@, p.1@)
}

fn is_usable_branch(b: &str) -> (r: bool)
    ensures
        r == usable_branch(b@),
{
    !b.is_empty() && !crate::text::str_eq(b, "HEAD")
}

/// The panes' branches to merge: for each pane (directory, branch hint, current
/// branch when git could tell), the chosen branch when usable. An error when none is.
pub fn collect_pane_branches(panes: &Vec<(String, String, Option<String>)>) -> (r: Result<Vec<(String, String)>, String>)
    ensures
        match r {
            Ok(v) => v@.map_values(|p: (String, String)| pair_view(p)) == pane_branches_spec(
                panes@.map_values(|p: (String, String, Option<String>)| pane_input_view(p)),
            ) && v@.len() > 0,
            Err(e) => pane_branches_spec(panes@.map_values(|p: (String, String, Option<String>)| pane_input_view(p))).len()
                == 0 && e@ == "no pane branches to process (empty pane set or detached HEAD)"@,
        },
{
    let ghost inputs = panes@.map_values(|p: (String, String, Option<String>)| pane_input_view(p));
    let mut out: Vec<(String, String)> = Vec::new();
    let mut i: usize = 0;
    while i < panes.len()
        invariant
            i <= panes@.len(),
            inputs == panes@.map_values(|p: (String, String, Option<String>)| pane_input_view(p)),
            out@.map_values(|p: (String, String)| pair_view(p)) == pane_branches_spec(inputs.take(i as int)),
        decreases panes@.len() - i,
    {
        assert(inputs.take(i + 1).drop_last() =~= inputs.take(i as int));
        assert(inputs.take(i + 1).last() == pane_input_view(panes@[i as int]));
        let (dir, hint, actual) = (&panes[i].0, &panes[i].1, &panes[i].2);
        let b: String = match actual {
            Some(a) => if is_usable_branch(a.as_str()) {
                a.clone()
            } else {
                hint.clone()
            },
            None => hint.clone(),
        };
        if is_usable_branch(b.as_str()) {
            let ghost before = out@;
            out.push((dir.clone(), b));
            assert(out@.map_values(|p: (String, String)| pair_view(p)) =~= before.map_values(
                |p: (String, String)| pair_view(p),
            ).push(pair_view(out@.last())));
        }
        i = i + 1;
    }
    assert(inputs.take(panes@.len() as int) =~= inputs);
    if out.len() == 0 {
        return Err("no pane branches to process (empty pane set or detached HEAD)".to_owned());
    }
    Ok(out)
}

/// `git -C <repo> -c protocol.file.allow=always fetch --no-tags <pane> <b>:refs/heads/<b>`.
pub open spec fn fetch_args_spec(repo: Seq<char>, pane: Seq<char>, branch: Seq<char>) -> Seq<Seq<char>> {
    seq![
        "git"@,
        "-C"@,
        repo,
        "-c"@,
        "protocol.file.allow=always"@,
        "fetch"@,
        "--no-tags"@,
        pane,
        branch + ":refs/heads/"@ + branch,
    ]
}

pub fn fetch_args(repo: &str, pane: &str, branch: &str) -> (v: Vec<String>)
    ensures
        strings_view(v@) == fetch_args_spec(repo@, pane@, branch@),
{
    let mut refspec = branch.to_owned();
    refspec.push_str(":refs/heads/");
    refspec.push_str(branch);
    let v = vec![
        "git".to_owned(),
        "-C".to_owned(),
        repo.to_owned(),
        "-c".to_owned(),
        "protocol.file.allow=always".to_owned(),
        "fetch".to_owned(),
        "--no-tags".to_owned(),
        pane.to_owned(),
        refspec,
    ];
    assert(strings_view(v@) =~= fetch_args_spec(repo@, pane@, branch@));
    v
}

/// `git -C <repo> checkout -B merge/<sid> <base>`.
pub open spec fn checkout_args_spec(repo: Seq<char>, sid: Seq<char>, base: Seq<char>) -> Seq<Seq<char>> {
    seq!["git"@, "-C"@, repo, "checkout"@, "-B"@, "merge/"@ + sid, base]
}

pub fn checkout_args(repo: &str, sid: &str, base: &str) -> (v: Vec<String>)
    ensures
        strings_view(v@) == checkout_args_spec(repo@, sid@, base@),
{
    let mut target = "merge/".to_owned();
    target.push_str(sid);
    let v = vec!["git".to_owned(), "-C".to_owned(), repo.to_owned(), "checkout".to_owned(), "-B".to_owned(), target, base.to_owned()];
    assert(strings_view(v@) =~= checkout_args_spec(repo@, sid@, base@));
    v
}

/// `git -C <repo> merge --no-ff --no-edit [-F <message file>] <branches...>`.
pub open spec fn merge_args_spec(repo: Seq<char>, msg_file: Option<Seq<char>>, branches: Seq<Seq<char>>) -> Seq<Seq<char>> {
    seq!["git"@, "-C"@, repo, "merge"@, "--no-ff"@, "--no-edit"@] + match msg_file {
        Some(f) => seq!["-F"@, f],
        None => seq![],
    } + branches
}

pub fn merge_args(repo: &str, msg_file: Option<&str>, branches: &Vec<String>) -> (v: Vec<String>)
    ensures
        strings_view(v@) == merge_args_spec(repo@, crate::lock::opt_view(msg_file), strings_view(branches@)),
{
    let mut v = vec!["git".to_owned(), "-C".to_owned(), repo.to_owned(), "merge".to_owned(), "--no-ff".to_owned(), "--no-edit".to_owned()];
    match msg_file {
        Some(f) => {
            crate::escape::push_str_item(&mut v, "-F");
            crate::escape::push_str_item(&mut v, f);
        },
        None => {},
    }
    let ghost head = strings_view(v@);
    let mut i: usize = 0;
    while i < branches.len()
        invariant
            i <= branches@.len(),
            strings_view(v@) == head + strings_view(branches@).take(i as int),
        decreases branches@.len() - i,
    {
        crate::escape::push_str_item(&mut v, branches[i].as_str());
        assert(strings_view(branches@).take(i + 1) =~= strings_view(branches@).take(i as int).push(branches@[i as int]@));
        i = i + 1;
    }
    assert(strings_view(branches@).take(branches@.len() as int) =~= strings_view(branches@));
    assert(strings_view(v@) =~= merge_args_spec(repo@, crate::lock::opt_view(msg_file), strings_view(branches@)));
    v
}

/// `git -C <repo> branch -D <branches...>`.
pub open spec fn branch_delete_args_spec(repo: Seq<char>, branches: Seq<Seq<char>>) -> Seq<Seq<char>> {
    seq!["git"@, "-C"@, repo, "branch"@, "-D"@] + branches
}

pub fn branch_delete_args(repo: &str, branches: &Vec<String>) -> (v: Vec<String>)
    ensures
        strings_view(v@) == branch_delete_args_spec(repo@, strings_view(branches@)),
{
    let mut v = vec!["git".to_owned(), "-C".to_owned(), repo.to_owned(), "branch".to_owned(), "-D".to_owned()];
    let ghost head = strings_view(v@);
    let mut i: usize = 0;
    while i < branches.len()
        invariant
            i <= branches@.len(),
            strings_view(v@) == head + strings_view(branches@).take(i as int),
        decreases branches@.len() - i,
    {
        crate::escape::push_str_item(&mut v, branches[i].as_str());
        assert(strings_view(branches@).take(i + 1) =~= strings_view(branches@).take(i as int).push(branches@[i as int]@));
        i = i + 1;
    }
    assert(strings_view(branches@).take(branches@.len() as int) =~= strings_view(branches@));
    assert(strings_view(v@) =~= branch_delete_args_spec(repo@, strings_view(branches@)));
    v
}

/// Escaped branch names separated by `, `.
pub open spec fn fetched_list(branches: Seq<Seq<char>>) -> Seq<char> {
    join_spec(branches.map_values(|b: Seq<char>| json_escape_spec(b)), ", "@)
}

fn fetched_list_exec(branches: &Vec<String>) -> (s: String)
    ensures
        s@ == fetched_list(strings_view(branches@)),
{
    let mut s = String::new();
    let mut i: usize = 0;
    while i < branches.len()
        invariant
            i <= branches@.len(),
            s@ == fetched_list(strings_view(branches@).take(i as int)),
        decreases branches@.len() - i,
    {
        proof {
            let f = |b: Seq<char>| json_escape_spec(b);
            let pre = strings_view(branches@).take(i as int);
            assert(strings_view(branches@).take(i + 1) =~= pre.push(branches@[i as int]@));
            assert(pre.push(branches@[i as int]@).map_values(f) =~= pre.map_values(f).push(f(branches@[i as int]@)));
            crate::text::lemma_join_push(pre.map_values(f), ", "@, f(branches@[i as int]@));
        }
        if i > 0 {
            s.push_str(", ");
        }
        s.push_str(json_escape(branches[i].as_str()).as_str());
        i = i + 1;
    }
    assert(strings_view(branches@).take(branches@.len() as int) =~= strings_view(branches@));
    s
}

/// Metadata fields recorded after a fetch-only merge.
pub open spec fn fetch_fields_spec(branches: Seq<Seq<char>>) -> Seq<char> {
    "\"merge_strategy\":"@ + json_escape_spec("fetch"@) + ",\"fetched\":["@ + fetched_list(branches) + "]"@
}

pub fn fetch_meta_fields(branches: &Vec<String>) -> (s: String)
    ensures
        s@ == fetch_fields_spec(strings_view(branches@)),
{
    let mut s = "\"merge_strategy\":".to_owned();
    s.push_str(json_escape("fetch").as_str());
    s.push_str(",\"fetched\":[");
    s.push_str(fetched_list_exec(branches).as_str());
    s.push_str("]");
    s
}

/// Metadata fields recorded when the octopus merge failed.
pub open spec fn failed_fields_spec(branches: Seq<Seq<char>>) -> Seq<char> {
    "\"merge_strategy\":"@ + json_escape_spec("octopus"@) + ",\"fetched\":["@ + fetched_list(branches)
        + "],\"merge_failed\":true"@
}

pub fn failed_meta_fields(branches: &Vec<String>) -> (s: String)
    ensures
        s@ == failed_fields_spec(strings_view(branches@)),
{
    let mut s = "\"merge_strategy\":".to_owned();
    s.push_str(json_escape("octopus").as_str());
    s.push_str(",\"fetched\":[");
    s.push_str(fetched_list_exec(branches).as_str());
    s.push_str("],\"merge_failed\":true");
    s
}

/// Metadata fields recorded after an octopus merge.
pub open spec fn octopus_fields_spec(branches: Seq<Seq<char>>, sid: Seq<char>, commit: Seq<char>, merged_at: u64) -> Seq<char> {
    "\"merge_strategy\":"@ + json_escape_spec("octopus"@) + ",\"fetched\":["@ + fetched_list(branches)
        + "],\"merge_target\":"@ + json_escape_spec("merge/"@ + sid) + ",\"merge_commit_sha\":"@ + json_escape_spec(commit)
        + ",\"merged_at\":"@ + dec_spec(merged_at as nat)
}

pub fn octopus_meta_fields(branches: &Vec<String>, sid: &str, commit: &str, merged_at: u64) -> (s: String)
    ensures
        s@ == octopus_fields_spec(strings_view(branches@), sid@, commit@, merged_at),
{
    let mut target = "merge/".to_owned();
    target.push_str(sid);
    let mut s = "\"merge_strategy\":".to_owned();
    s.push_str(json_escape("octopus").as_str());
    s.push_str(",\"fetched\":[");
    s.push_str(fetched_list_exec(branches).as_str());
    s.push_str("],\"merge_target\":");
    s.push_str(json_escape(target.as_str()).as_str());
    s.push_str(",\"merge_commit_sha\":");
    s.push_str(json_escape(commit).as_str());
    s.push_str(",\"merged_at\":");
    s.push_str(crate::text::u64_to_string(merged_at).as_str());
    s
}

/// Name of the temporary merge message file.
pub fn merge_message_file_name(sid: &str, pid: u32) -> (s: String)
    ensures
        s@ == "aifo-merge-"@ + sid@ + "-"@ + dec_spec(pid as nat) + ".txt"@,
{
    let mut s = "aifo-merge-".to_owned();
    s.push_str(sid);
    s.push_str("-");
    s.push_str(crate::text::u64_to_string(pid as u64).as_str());
    s.push_str(".txt");
    s
}

/// The merge base recorded for a session: `base_ref_or_sha` of its metadata, else `HEAD`.
pub open spec fn session_base_spec(meta: Option<Seq<char>>) -> Seq<char> {
    match meta {
        Some(m) => match crate::fork_meta::extract_string_spec(m, "base_ref_or_sha"@) {
            Some(b) => b,
            None => "HEAD"@,
        },
        None => "HEAD"@,
    }
}

pub fn session_merge_base(meta: &Option<String>) -> (s: String)
    ensures
        s@ == session_base_spec(crate::proxy::opt_string_view(*meta)),
{
    match meta {
        Some(m) => match crate::fork_meta::extract_value_string(m.as_str(), "base_ref_or_sha") {
            Some(b) => b,
            None => "HEAD".to_owned(),
        },
        None => "HEAD".to_owned(),
    }
}


/// A subject without any `:` has no conventional prefix and is kept as it is.
pub proof fn lemma_subject_without_colon_kept(t: Seq<char>)
    requires
        forall|j: int| 0 <= j < t.len() ==> t[j] != ':',
    ensures
        strip_conventional(t) == t,
{
    crate::text::lemma_char_pos(t, ':', 0);
    if char_pos(t, ':', 0) < t.len() {
        assert(t[char_pos(t, ':', 0)] == ':');
    }
}

/// A subject `<type>:<rest>` whose type is one of the conventional-commit words feat,
/// fix, docs, style, refactor, perf, test, chore, build, ci or revert loses that prefix:
/// what stays is the rest after its leading colons, trimmed.
pub proof fn lemma_conventional_prefix_dropped(w: Seq<char>, rest: Seq<char>)
    requires
        w == "feat"@ || w == "fix"@ || w == "docs"@ || w == "style"@ || w == "refactor"@ || w == "perf"@
            || w == "test"@ || w == "chore"@ || w == "build"@ || w == "ci"@ || w == "revert"@,
    ensures
        strip_conventional(w + ":"@ + rest) == trim_spec(trim_start_char_spec(rest, ':')),
{
    reveal_strlit("feat");
    reveal_strlit("fix");
    reveal_strlit("docs");
    reveal_strlit("style");
    reveal_strlit("refactor");
    reveal_strlit("perf");
    reveal_strlit("test");
    reveal_strlit("chore");
    reveal_strlit("build");
    reveal_strlit("ci");
    reveal_strlit("revert");
    reveal_strlit(":");
    let t = w + ":"@ + rest;
    let n = w.len() as int;
    assert(forall|j: int| 0 <= j < n ==> w[j] != ':' && !('A' <= w[j] && w[j] <= 'Z'));
    assert(t[n] == ':');
    assert(forall|j: int| 0 <= j < n ==> t[j] == w[j]);
    crate::text::lemma_char_pos(t, ':', 0);
    let p = char_pos(t, ':', 0);
    if p < n {
        assert(t[p] == ':');
    }
    if p > n {
        assert(t[n] != ':');
    }
    assert(t.take(n) =~= w);
    assert(lower_spec(w) =~= w);
    assert(t.skip(n) =~= ":"@ + rest);
    assert((":"@ + rest).drop_first() =~= rest);
}

} // verus!
