//! Session metadata (`.meta.json`): field extraction and the single-line JSON writers.
use vstd::prelude::*;

use crate::escape::{json_escape, json_escape_spec, strings_view};
use crate::text::{
    char_pos, char_pos_exec, dec_spec, find, find_spec, lemma_char_pos, lemma_find_from_props,
    parse_u64, parse_u64_spec, slice_to_vec, str_chars, string_from_chars, trim_bounds,
    trim_start_spec, u64_to_string, usize_to_string, is_digit,
};

verus! {

/// `"<key>":`
pub open spec fn key_needle(key: Seq<char>) -> Seq<char> {
    seq!['"'] + key + seq!['"', ':']
}

/// What follows the first `"<key>":` in `text`, leading whitespace removed.
pub open spec fn after_key(text: Seq<char>, key: Seq<char>) -> Option<Seq<char>> {
    match find_spec(text, key_needle(key)) {
        Some(p) => Some(trim_start_spec(text.skip(p + key_needle(key).len()))),
        None => None,
    }
}

/// The string value of the first `"<key>":` field: the characters after the opening
/// quote up to the next quote (or the end); `None` when the key is missing or the
/// value does not start with a quote.
pub open spec fn extract_string_spec(text: Seq<char>, key: Seq<char>) -> Option<Seq<char>> {
    match after_key(text, key) {
        Some(rest) => if rest.len() > 0 && rest[0] == '"' {
            let body = rest.drop_first();
            Some(body.take(char_pos(body, '"', 0)))
        } else {
            None
        },
        None => None,
    }
}

/// Number of leading ASCII digits of `s` from position `i` on.
pub open spec fn digit_run(s: Seq<char>, i: int) -> int
    decreases s.len() - i,
{
    if i >= s.len() || !is_digit(s[i]) {
        i
    } else {
        digit_run(s, i + 1)
    }
}

/// The number value of the first `"<key>":` field: its leading digits parsed as `u64`.
pub open spec fn extract_u64_spec(text: Seq<char>, key: Seq<char>) -> Option<u64> {
    match after_key(text, key) {
        Some(rest) => parse_u64_spec(rest.take(digit_run(rest, 0))),
        None => None,
    }
}

fn needle_chars(key: &str) -> (v: Vec<char>)
    ensures
        v@ == key_needle(key@),
{
    let mut v: Vec<char> = Vec::new();
    v.push('"');
    let k = str_chars(key);
    crate::text::extend_chars(&mut v, k.as_slice());
    v.push('"');
    v.push(':');
    assert(v@ =~= key_needle(key@));
    v
}

/// The characters after the key, leading whitespace removed.
fn after_key_exec(text: &[char], key: &str) -> (r: Option<Vec<char>>)
    ensures
        match r {
            Some(v) => after_key(text@, key@) == Some(v@),
            None => after_key(text@, key@) is None,
        },
{
    let needle = needle_chars(key);
    match find(text, needle.as_slice()) {
        Some(p) => {
            proof {
                lemma_find_from_props(text@, needle@, 0);
                assert(crate::text::match_at(text@, needle@, p as int));
            }
            let tl = text.len();
            let nl = needle.len();
            assert(p + nl <= tl);
            let rest = slice_to_vec(text, p + nl, tl);
            assert(rest@ =~= text@.skip(p + needle@.len()));
            let (a, _b) = trim_bounds(rest.as_slice());
            let t = slice_to_vec(rest.as_slice(), a, rest.len());
            assert(t@ =~= rest@.skip(a as int));
            Some(t)
        },
        None => None,
    }
}

/// Read the string value of `"<key>":` from a metadata text (first occurrence).
pub fn extract_value_string(text: &str, key: &str) -> (r: Option<String>)
    ensures
        match r {
            Some(v) => extract_string_spec(text@, key@) == Some(v@),
            None => extract_string_spec(text@, key@) is None,
        },
{
    let cs = str_chars(text);
    match after_key_exec(cs.as_slice(), key) {
        Some(rest) => {
            if rest.len() > 0 && rest[0] == '"' {
                let body = slice_to_vec(rest.as_slice(), 1, rest.len());
                assert(body@ =~= rest@.drop_first());
                let q = char_pos_exec(body.as_slice(), '"', 0);
                proof {
                    lemma_char_pos(body@, '"', 0);
                }
                let out = slice_to_vec(body.as_slice(), 0, q);
                assert(out@ =~= body@.take(q as int));
                Some(string_from_chars(out.as_slice()))
            } else {
                None
            }
        },
        None => None,
    }
}

fn digit_run_exec(s: &[char]) -> (r: usize)
    ensures
        r as int == digit_run(s@, 0),
        r <= s@.len(),
{
    let mut i: usize = 0;
    while i < s.len() && '0' <= s[i] && s[i] <= '9'
        invariant
            i <= s@.len(),
            digit_run(s@, 0) == digit_run(s@, i as int),
        decreases s@.len() - i,
    {
        i = i + 1;
    }
    i
}

/// Read the number value of `"<key>":` from a metadata text (first occurrence).
pub fn extract_value_u64(text: &str, key: &str) -> (r: Option<u64>)
    ensures
        r == extract_u64_spec(text@, key@),
{
    let cs = str_chars(text);
    match after_key_exec(cs.as_slice(), key) {
        Some(rest) => {
            let n = digit_run_exec(rest.as_slice());
            let digits = slice_to_vec(rest.as_slice(), 0, n);
            assert(digits@ =~= rest@.take(n as int));
            parse_u64(digits.as_slice())
        },
        None => None,
    }
}

} // verus!

verus! {

/// The items as JSON strings separated by `, `.
pub open spec fn json_items_spec(items: Seq<Seq<char>>) -> Seq<char> {
    crate::text::join_spec(items.map_values(|x: Seq<char>| json_escape_spec(x)), ", "@)
}

/// Render the items as JSON strings separated by `, ` (no brackets).
pub fn json_items(items: &Vec<String>) -> (out: String)
    ensures
        out@ == json_items_spec(strings_view(items@)),
{
    let mut out = String::new();
    let mut i: usize = 0;
    while i < items.len()
        invariant
            i <= items@.len(),
            out@ == json_items_spec(strings_view(items@.take(i as int))),
        decreases items@.len() - i,
    {
        let q = json_escape(items[i].as_str());
        let ghost prev = strings_view(items@.take(i as int)).map_values(
            |x: Seq<char>| json_escape_spec(x),
        );
        proof {
            assert(strings_view(items@.take(i + 1)).map_values(|x: Seq<char>| json_escape_spec(x))
                =~= prev.push(q@));
            crate::text::lemma_join_push(prev, ", "@, q@);
        }
        if i > 0 {
            out.push_str(", ");
        }
        out.push_str(q.as_str());
        i = i + 1;
    }
    assert(items@.take(items@.len() as int) =~= items@);
    out
}

/// Session metadata written when a fork session is created.
#[derive(Clone, Debug)]
pub struct SessionMeta {
    pub created_at: u64,
    pub base_label: String,
    pub base_ref_or_sha: String,
    pub base_commit_sha: String,
    pub panes: usize,
    pub pane_dirs: Vec<String>,
    pub branches: Vec<String>,
    pub layout: String,
    pub snapshot_sha: Option<String>,
}

/// The `base_commit_sha` to record when it is known without asking git: the given one
/// when not empty, else the snapshot commit; `None` means it must be resolved.
pub fn initial_base_commit(m: &SessionMeta) -> (r: Option<String>)
    ensures
        m.base_commit_sha@.len() > 0 ==> (r matches Some(v) && v@ == m.base_commit_sha@),
        m.base_commit_sha@.len() == 0 ==> match m.snapshot_sha {
            Some(s) => (r matches Some(v) && v@ == s@),
            None => r is None,
        },
{
    if !m.base_commit_sha.as_str().is_empty() {
        Some(m.base_commit_sha.clone())
    } else {
        match &m.snapshot_sha {
            Some(s) => Some(s.clone()),
            None => None,
        }
    }
}

/// The single-line JSON of a new session, keys in a fixed order.
pub open spec fn initial_meta_spec(m: SessionMeta, base_commit_sha: Seq<char>) -> Seq<char> {
    "{ \"created_at\": "@ + dec_spec(m.created_at as nat) + ", \"base_label\": "@
        + json_escape_spec(m.base_label@) + ", \"base_ref_or_sha\": "@ + json_escape_spec(
        m.base_ref_or_sha@,
    ) + ", \"base_commit_sha\": "@ + json_escape_spec(base_commit_sha) + ", \"panes\": "@
        + dec_spec(m.panes as nat) + ", \"pane_dirs\": ["@ + json_items_spec(
        strings_view(m.pane_dirs@),
    ) + "], \"branches\": ["@ + json_items_spec(strings_view(m.branches@)) + "], \"layout\": "@
        + json_escape_spec(m.layout@) + match m.snapshot_sha {
        Some(s) => ", \"snapshot_sha\": "@ + json_escape_spec(s@),
        None => seq![],
    } + " }"@
}

/// Compose the initial `.meta.json` text for a session.
pub fn initial_meta_json(m: &SessionMeta, base_commit_sha: &str) -> (out: String)
    ensures
        out@ == initial_meta_spec(*m, base_commit_sha@),
{
    let mut s = "{ \"created_at\": ".to_owned();
    s.push_str(u64_to_string(m.created_at).as_str());
    s.push_str(", \"base_label\": ");
    s.push_str(json_escape(m.base_label.as_str()).as_str());
    s.push_str(", \"base_ref_or_sha\": ");
    s.push_str(json_escape(m.base_ref_or_sha.as_str()).as_str());
    s.push_str(", \"base_commit_sha\": ");
    s.push_str(json_escape(base_commit_sha).as_str());
    s.push_str(", \"panes\": ");
    s.push_str(usize_to_string(m.panes).as_str());
    s.push_str(", \"pane_dirs\": [");
    s.push_str(json_items(&m.pane_dirs).as_str());
    s.push_str("], \"branches\": [");
    s.push_str(json_items(&m.branches).as_str());
    s.push_str("], \"layout\": ");
    s.push_str(json_escape(m.layout.as_str()).as_str());
    let ghost before = s@;
    if let Some(snap) = &m.snapshot_sha {
        s.push_str(", \"snapshot_sha\": ");
        s.push_str(json_escape(snap.as_str()).as_str());
    }
    s.push_str(" }");
    assert(s@ =~= initial_meta_spec(*m, base_commit_sha@));
    s
}

/// The base commit recorded for a new session: the given one when not empty, else
/// the snapshot commit, else what `git rev-parse --verify <base>` printed (trimmed)
/// when it succeeded, else the `HEAD` commit (empty when that is unknown too).
pub open spec fn meta_base_commit_spec(m: SessionMeta, resolved: Option<Seq<char>>, head: Seq<char>) -> Seq<char> {
    if m.base_commit_sha@.len() > 0 {
        m.base_commit_sha@
    } else {
        match m.snapshot_sha {
            Some(snap) => snap@,
            None => match resolved {
                Some(r) => r,
                None => head,
            },
        }
    }
}

/// The initial `.meta.json` text of a session, with the base commit chosen by
/// `meta_base_commit_spec` from the session, the `rev-parse` answer and `HEAD`.
pub fn initial_meta_text(m: &SessionMeta, resolved: &Option<String>, head: &str) -> (out: String)
    ensures
        out@ == initial_meta_spec(*m, meta_base_commit_spec(*m, crate::proxy::opt_string_view(*resolved), head@)),
{
    match initial_base_commit(m) {
        Some(b) => initial_meta_json(m, b.as_str()),
        None => match resolved {
            Some(r) => initial_meta_json(m, r.as_str()),
            None => initial_meta_json(m, head),
        },
    }
}

/// The rewritten metadata after panes were created: fields of the old text are kept
/// (empty or 0 when missing; `panes` defaults to the number of existing panes), the
/// pane list, branches, layout and `panes_created` are the new ones, and the snapshot
/// recorded before wins over the given one.
pub open spec fn updated_meta_spec(
    text: Seq<char>,
    created_count: nat,
    pane_dirs: Seq<Seq<char>>,
    branches: Seq<Seq<char>>,
    snapshot_sha: Option<Seq<char>>,
    layout: Seq<char>,
) -> Seq<char> {
    let created_at = match extract_u64_spec(text, "created_at"@) {
        Some(v) => v as nat,
        None => 0,
    };
    let field = |k: Seq<char>|
        match extract_string_spec(text, k) {
            Some(v) => v,
            None => seq![],
        };
    let panes = match extract_u64_spec(text, "panes"@) {
        Some(v) => v as nat,
        None => pane_dirs.len(),
    };
    let snap = match extract_string_spec(text, "snapshot_sha"@) {
        Some(v) => Some(v),
        None => snapshot_sha,
    };
    "{ \"created_at\": "@ + dec_spec(created_at) + ", \"base_label\": "@ + json_escape_spec(
        field("base_label"@),
    ) + ", \"base_ref_or_sha\": "@ + json_escape_spec(field("base_ref_or_sha"@))
        + ", \"base_commit_sha\": "@ + json_escape_spec(field("base_commit_sha"@))
        + ", \"panes\": "@ + dec_spec(panes) + ", \"panes_created\": "@ + dec_spec(created_count)
        + ", \"pane_dirs\": ["@ + json_items_spec(pane_dirs) + "], \"branches\": ["@
        + json_items_spec(branches) + "], \"layout\": "@ + json_escape_spec(layout) + match snap {
        Some(s) => ", \"snapshot_sha\": "@ + json_escape_spec(s),
        None => seq![],
    } + " }"@
}

fn string_field(text: &str, key: &str) -> (r: String)
    ensures
        r@ == match extract_string_spec(text@, key@) {
            Some(v) => v,
            None => seq![],
        },
{
    match extract_value_string(text, key) {
        Some(v) => v,
        None => String::new(),
    }
}

/// Compose the metadata text after pane creation (see `updated_meta_spec`).
pub fn updated_meta_json(
    text: &str,
    created_count: usize,
    pane_dirs: &Vec<String>,
    branches: &Vec<String>,
    snapshot_sha: Option<&str>,
    layout: &str,
) -> (out: String)
    ensures
        out@ == updated_meta_spec(
            text@,
            created_count as nat,
            strings_view(pane_dirs@),
            strings_view(branches@),
            match snapshot_sha {
                Some(s) => Some(s@),
                None => None,
            },
            layout@,
        ),
{
    let created_at = match extract_value_u64(text, "created_at") {
        Some(v) => v,
        None => 0,
    };
    let base_label = string_field(text, "base_label");
    let base_ref = string_field(text, "base_ref_or_sha");
    let base_commit = string_field(text, "base_commit_sha");
    let panes: u64 = match extract_value_u64(text, "panes") {
        Some(v) => v,
        None => pane_dirs.len() as u64,
    };
    let snapshot_old = extract_value_string(text, "snapshot_sha");
    let mut s = "{ \"created_at\": ".to_owned();
    s.push_str(u64_to_string(created_at).as_str());
    s.push_str(", \"base_label\": ");
    s.push_str(json_escape(base_label.as_str()).as_str());
    s.push_str(", \"base_ref_or_sha\": ");
    s.push_str(json_escape(base_ref.as_str()).as_str());
    s.push_str(", \"base_commit_sha\": ");
    s.push_str(json_escape(base_commit.as_str()).as_str());
    s.push_str(", \"panes\": ");
    s.push_str(u64_to_string(panes).as_str());
    s.push_str(", \"panes_created\": ");
    s.push_str(usize_to_string(created_count).as_str());
    s.push_str(", \"pane_dirs\": [");
    s.push_str(json_items(pane_dirs).as_str());
    s.push_str("], \"branches\": [");
    s.push_str(json_items(branches).as_str());
    s.push_str("], \"layout\": ");
    s.push_str(json_escape(layout).as_str());
    match &snapshot_old {
        Some(snap) => {
            s.push_str(", \"snapshot_sha\": ");
            s.push_str(json_escape(snap.as_str()).as_str());
        },
        None => {
            if let Some(snap) = snapshot_sha {
                s.push_str(", \"snapshot_sha\": ");
                s.push_str(json_escape(snap).as_str());
            }
        },
    }
    s.push_str(" }");
    assert(s@ =~= updated_meta_spec(
        text@,
        created_count as nat,
        strings_view(pane_dirs@),
        strings_view(branches@),
        match snapshot_sha {
            Some(x) => Some(x@),
            None => None,
        },
        layout@,
    ));
    s
}

/// A metadata text with fields appended inside its outer object: trailing
/// whitespace and the closing brace are dropped, a comma is added unless the object
/// is empty, then the fields and a closing brace.
pub open spec fn append_fields_spec(text: Seq<char>, fields: Seq<char>) -> Seq<char> {
    let t = crate::text::trim_end_spec(text);
    let body = crate::text::trim_end_spec(
        if t.len() > 0 && t.last() == '}' {
            t.drop_last()
        } else {
            t
        },
    );
    body + (if body.len() > 0 && body.last() == '{' {
        seq![]
    } else {
        seq![',']
    }) + fields + seq!['}']
}

pub fn append_fields_compact(text: &str, fields: &str) -> (out: String)
    ensures
        out@ == append_fields_spec(text@, fields@),
{
    let cs = str_chars(text);
    let t = crate::text::trim_end_exec(cs.as_slice());
    let n = t.len();
    let inner = if n > 0 && t[n - 1] == '}' {
        slice_to_vec(t.as_slice(), 0, n - 1)
    } else {
        t
    };
    proof {
        if n > 0 && t@[n - 1] == '}' {
            assert(inner@ =~= t@.drop_last());
        }
    }
    let mut body = crate::text::trim_end_exec(inner.as_slice());
    let m = body.len();
    if !(m > 0 && body[m - 1] == '{') {
        body.push(',');
    }
    let mut out = string_from_chars(body.as_slice());
    out.push_str(fields);
    out.push('}');
    out
}

proof fn lemma_digit_run(s: Seq<char>, i: int, k: int)
    requires
        0 <= i <= k <= s.len(),
        forall|j: int| i <= j < k ==> is_digit(#[trigger] s[j]),
        k == s.len() || !is_digit(s[k]),
    ensures
        digit_run(s, i) == k,
    decreases k - i,
{
    if i < k {
        lemma_digit_run(s, i + 1, k);
    }
}

/// A text that starts with `{ "created_at": `, a number and then a comma gives
/// that number back for `created_at`.
proof fn lemma_leading_created_at(t: Seq<char>, n: u64)
    requires
        t.len() >= 17 + dec_spec(n as nat).len(),
        t.take(16) == "{ \"created_at\": "@,
        t.subrange(16, 16 + dec_spec(n as nat).len() as int) == dec_spec(n as nat),
        t[16 + dec_spec(n as nat).len() as int] == ',',
    ensures
        extract_u64_spec(t, "created_at"@) == Some(n),
{
    reveal_strlit("{ \"created_at\": ");
    reveal_strlit("created_at");
    let needle = key_needle("created_at"@);
    let d = dec_spec(n as nat);
    crate::text::lemma_dec_digits(n as nat);
    crate::text::lemma_parse_dec(n);
    assert(needle.len() == 13);
    assert(!crate::text::match_at(t, needle, 0)) by {
        assert(t[0] == t.take(16)[0]);
        assert(t.subrange(0, 13)[0] == t[0]);
    }
    assert(!crate::text::match_at(t, needle, 1)) by {
        assert(t[1] == t.take(16)[1]);
        assert(t.subrange(1, 14)[0] == t[1]);
    }
    assert(crate::text::match_at(t, needle, 2)) by {
        assert forall|j: int| 0 <= j < 13 implies t.subrange(2, 15)[j] == needle[j] by {
            assert(t[2 + j] == t.take(16)[2 + j]);
        }
        assert(t.subrange(2, 15) =~= needle);
    }
    assert(crate::text::find_from_spec(t, needle, 2) == Some(2int));
    assert(crate::text::find_from_spec(t, needle, 1) == Some(2int));
    assert(crate::text::find_from_spec(t, needle, 0) == Some(2int));
    assert(find_spec(t, needle) == Some(2int));
    let after = t.skip(15);
    assert(after[0] == ' ') by {
        assert(t[15] == t.take(16)[15]);
    }
    let rest = after.drop_first();
    assert(rest =~= t.skip(16));
    assert(rest[0] == d[0]) by {
        assert(t[16] == t.subrange(16, 16 + d.len() as int)[0]);
    }
    assert(!crate::text::is_ws(rest[0])) by {
        assert(is_digit(d[0]));
    }
    assert(trim_start_spec(after) == trim_start_spec(rest));
    assert(trim_start_spec(rest) == rest);
    assert forall|j: int| 0 <= j < d.len() implies is_digit(#[trigger] rest[j]) by {
        assert(rest[j] == t[16 + j]);
        assert(t[16 + j] == t.subrange(16, 16 + d.len() as int)[j]);
    }
    assert(rest[d.len() as int] == ',');
    lemma_digit_run(rest, 0, d.len() as int);
    assert(rest.take(d.len() as int) =~= d) by {
        assert forall|j: int| 0 <= j < d.len() implies rest.take(d.len() as int)[j] == d[j] by {
            assert(rest[j] == t[16 + j]);
            assert(t[16 + j] == t.subrange(16, 16 + d.len() as int)[j]);
        }
    }
}

/// The metadata written for a new session reads back its creation time: the
/// `created_at` that `fork list` and `fork clean` age sessions by.
pub proof fn lemma_initial_meta_created_at(m: SessionMeta, base_commit_sha: Seq<char>)
    ensures
        extract_u64_spec(initial_meta_spec(m, base_commit_sha), "created_at"@) == Some(m.created_at),
{
    let t = initial_meta_spec(m, base_commit_sha);
    let head = "{ \"created_at\": "@;
    let d = dec_spec(m.created_at as nat);
    let next = ", \"base_label\": "@;
    reveal_strlit("{ \"created_at\": ");
    reveal_strlit(", \"base_label\": ");
    let pre = head + d + next;
    assert(t.len() >= pre.len());
    assert forall|j: int| 0 <= j < pre.len() implies t[j] == pre[j] by {}
    assert(t.take(16) =~= head) by {
        assert forall|j: int| 0 <= j < 16 implies t.take(16)[j] == head[j] by {
            assert(t[j] == pre[j]);
        }
    }
    assert(t.subrange(16, 16 + d.len() as int) =~= d) by {
        assert forall|j: int| 0 <= j < d.len() implies t.subrange(16, 16 + d.len() as int)[j] == d[j] by {
            assert(t[16 + j] == pre[16 + j]);
        }
    }
    assert(t[16 + d.len() as int] == pre[16 + d.len() as int]);
    lemma_leading_created_at(t, m.created_at);
}

/// Rewriting the metadata after pane creation keeps a creation time that the old
/// text recorded in the leading position.
pub proof fn lemma_updated_meta_keeps_created_at(
    text: Seq<char>,
    created_count: nat,
    pane_dirs: Seq<Seq<char>>,
    branches: Seq<Seq<char>>,
    snapshot_sha: Option<Seq<char>>,
    layout: Seq<char>,
)
    ensures
        extract_u64_spec(
            updated_meta_spec(text, created_count, pane_dirs, branches, snapshot_sha, layout),
            "created_at"@,
        ) == Some(
            match extract_u64_spec(text, "created_at"@) {
                Some(v) => v,
                None => 0u64,
            },
        ),
{
    let c: u64 = match extract_u64_spec(text, "created_at"@) {
        Some(v) => v,
        None => 0u64,
    };
    let t = updated_meta_spec(text, created_count, pane_dirs, branches, snapshot_sha, layout);
    let head = "{ \"created_at\": "@;
    let d = dec_spec(c as nat);
    let next = ", \"base_label\": "@;
    reveal_strlit("{ \"created_at\": ");
    reveal_strlit(", \"base_label\": ");
    let pre = head + d + next;
    assert(t.len() >= pre.len());
    assert forall|j: int| 0 <= j < pre.len() implies t[j] == pre[j] by {}
    assert(t.take(16) =~= head) by {
        assert forall|j: int| 0 <= j < 16 implies t.take(16)[j] == head[j] by {
            assert(t[j] == pre[j]);
        }
    }
    assert(t.subrange(16, 16 + d.len() as int) =~= d) by {
        assert forall|j: int| 0 <= j < d.len() implies t.subrange(16, 16 + d.len() as int)[j] == d[j] by {
            assert(t[16 + j] == pre[16 + j]);
        }
    }
    assert(t[16 + d.len() as int] == pre[16 + d.len() as int]);
    lemma_leading_created_at(t, c);
}


/// Characters that a JSON string literal holds as they are: no quote, no backslash,
/// no control character.
pub open spec fn json_plain(s: Seq<char>) -> bool {
    forall|i: int| 0 <= i < s.len() ==> s[i] != '"' && s[i] != '\\' && (s[i] as u32) >= 0x20
}

proof fn lemma_plain_escape(s: Seq<char>)
    requires
        json_plain(s),
    ensures
        crate::escape::flat_map_chars(s, |c: char| crate::escape::json_char(c)) == s,
    decreases s.len(),
{
    if s.len() > 0 {
        let p = s.drop_last();
        assert(json_plain(p)) by {
            assert forall|i: int| 0 <= i < p.len() implies p[i] != '"' && p[i] != '\\' && (p[i] as u32) >= 0x20 by {
                assert(p[i] == s[i]);
            }
        }
        lemma_plain_escape(p);
        let c = s.last();
        assert(c == s[s.len() - 1]);
        assert(crate::escape::json_char(c) == seq![c]);
        assert(p.push(c) =~= s);
        assert(p + seq![c] =~= s);
    }
}

/// The first match at or after `i` is at `k` when `k` matches and nothing between does.
proof fn lemma_find_first(s: Seq<char>, p: Seq<char>, i: int, k: int)
    requires
        0 <= i <= k,
        crate::text::match_at(s, p, k),
        forall|m: int| i <= m < k ==> !crate::text::match_at(s, p, m),
    ensures
        crate::text::find_from_spec(s, p, i) == Some(k),
    decreases k - i,
{
    if i < k {
        lemma_find_first(s, p, i + 1, k);
    }
}

/// The leading part of the metadata text up to the base label.
pub open spec fn label_prefix(created_at: u64, label: Seq<char>) -> Seq<char> {
    "{ \"created_at\": "@ + dec_spec(created_at as nat) + ", \"base_label\": "@ + json_escape_spec(label)
}

proof fn lemma_leading_base_label(t: Seq<char>, n: u64, label: Seq<char>)
    requires
        json_plain(label),
        t.len() >= label_prefix(n, label).len(),
        forall|j: int| 0 <= j < label_prefix(n, label).len() ==> t[j] == label_prefix(n, label)[j],
    ensures
        extract_string_spec(t, "base_label"@) == Some(label),
{
    reveal_strlit("{ \"created_at\": ");
    reveal_strlit(", \"base_label\": ");
    reveal_strlit("base_label");
    let head = "{ \"created_at\": "@;
    let d = dec_spec(n as nat);
    let mid = ", \"base_label\": "@;
    lemma_plain_escape(label);
    let e = json_escape_spec(label);
    assert(e =~= seq!['"'] + label + seq!['"']);
    let pre = label_prefix(n, label);
    assert(pre =~= head + d + mid + e);
    crate::text::lemma_dec_digits(n as nat);
    let needle = key_needle("base_label"@);
    assert(needle.len() == 13);
    let dl = d.len() as int;
    let p0 = 18 + dl;
    assert forall|j: int| 0 <= j < 16 implies #[trigger] t[j] == head[j] by {
        assert(pre[j] == head[j]);
    }
    assert forall|j: int| 0 <= j < dl implies #[trigger] t[16 + j] == d[j] by {
        assert(pre[16 + j] == d[j]);
    }
    assert forall|j: int| 0 <= j < 16 implies #[trigger] t[16 + dl + j] == mid[j] by {
        assert(pre[16 + dl + j] == mid[j]);
    }
    assert forall|j: int| 0 <= j < label.len() implies #[trigger] t[32 + dl + 1 + j] == label[j] by {
        assert(pre[32 + dl + 1 + j] == e[1 + j]);
    }
    assert(t[32 + dl] == '"') by {
        assert(pre[32 + dl] == e[0]);
    }
    assert(t[32 + dl + 1 + label.len() as int] == '"') by {
        assert(pre[32 + dl + 1 + label.len()] == e[1 + label.len() as int]);
    }
    assert(crate::text::match_at(t, needle, p0)) by {
        assert forall|j: int| 0 <= j < 13 implies t.subrange(p0, p0 + 13)[j] == needle[j] by {
            assert(t[16 + dl + (2 + j)] == mid[2 + j]);
        }
        assert(t.subrange(p0, p0 + 13) =~= needle);
    }
    assert forall|m: int| 0 <= m < p0 implies !crate::text::match_at(t, needle, m) by {
        if crate::text::match_at(t, needle, m) {
            assert(t.subrange(m, m + 13)[0] == t[m]);
            assert(t.subrange(m, m + 13)[1] == t[m + 1]);
            assert(t[m] == '"');
            assert(t[m + 1] == 'b');
            if m < 16 {
                assert(t[m] == head[m]);
                if m + 1 < 16 {
                    assert(t[m + 1] == head[m + 1]);
                } else {
                    assert(t[16int] == d[0]);
                    assert(crate::text::is_digit(d[0]));
                }
            } else if m < 16 + dl {
                assert(t[16 + (m - 16)] == d[m - 16]);
                assert(crate::text::is_digit(d[m - 16]));
            } else {
                assert(t[16 + dl + (m - 16 - dl)] == mid[m - 16 - dl]);
            }
        }
    }
    lemma_find_first(t, needle, 0, p0);
    assert(find_spec(t, needle) == Some(p0));
    let after = t.skip(p0 + 13);
    assert(after[0] == ' ') by {
        assert(t[16 + dl + 15] == mid[15]);
    }
    let rest = after.drop_first();
    assert(rest =~= t.skip(32 + dl));
    assert(rest[0] == '"');
    assert(trim_start_spec(after) == trim_start_spec(rest));
    assert(trim_start_spec(rest) == rest);
    let body = rest.drop_first();
    assert(body =~= t.skip(33 + dl));
    assert forall|j: int| 0 <= j < label.len() implies #[trigger] body[j] == label[j] by {
        assert(body[j] == t[32 + dl + 1 + j]);
    }
    assert(body[label.len() as int] == '"');
    crate::text::lemma_char_pos(body, '"', 0);
    let cp = char_pos(body, '"', 0);
    if cp > label.len() {
        assert(body[label.len() as int] != '"');
    }
    if cp < label.len() {
        assert(body[cp] == label[cp]);
    }
    assert(cp == label.len());
    assert(body.take(cp) =~= label);
}

/// A new session's metadata reads back its base label, for a label that JSON holds
/// without escapes.
pub proof fn lemma_initial_meta_base_label(m: SessionMeta, base_commit_sha: Seq<char>)
    requires
        json_plain(m.base_label@),
    ensures
        extract_string_spec(initial_meta_spec(m, base_commit_sha), "base_label"@) == Some(m.base_label@),
{
    let t = initial_meta_spec(m, base_commit_sha);
    let pre = label_prefix(m.created_at, m.base_label@);
    assert forall|j: int| 0 <= j < pre.len() implies t[j] == pre[j] by {}
    lemma_leading_base_label(t, m.created_at, m.base_label@);
}

/// Rewriting the metadata after pane creation keeps the recorded base label (empty
/// when none was recorded), for a label that JSON holds without escapes.
pub proof fn lemma_updated_meta_keeps_base_label(
    text: Seq<char>,
    created_count: nat,
    pane_dirs: Seq<Seq<char>>,
    branches: Seq<Seq<char>>,
    snapshot_sha: Option<Seq<char>>,
    layout: Seq<char>,
)
    requires
        json_plain(
            match extract_string_spec(text, "base_label"@) {
                Some(v) => v,
                None => seq![],
            },
        ),
    ensures
        extract_string_spec(
            updated_meta_spec(text, created_count, pane_dirs, branches, snapshot_sha, layout),
            "base_label"@,
        ) == Some(
            match extract_string_spec(text, "base_label"@) {
                Some(v) => v,
                None => seq![],
            },
        ),
{
    let c: u64 = match extract_u64_spec(text, "created_at"@) {
        Some(v) => v,
        None => 0u64,
    };
    let label = match extract_string_spec(text, "base_label"@) {
        Some(v) => v,
        None => seq![],
    };
    let t = updated_meta_spec(text, created_count, pane_dirs, branches, snapshot_sha, layout);
    let pre = label_prefix(c, label);
    assert forall|j: int| 0 <= j < pre.len() implies t[j] == pre[j] by {}
    lemma_leading_base_label(t, c, label);
}

} // verus!
