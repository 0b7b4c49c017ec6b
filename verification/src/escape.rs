//! Quoting and escaping of strings for JSON, POSIX shells and PowerShell.
use vstd::prelude::*;

use crate::text::{hex_fixed, join_spec, push_chars, str_chars};

verus! {

/// Apply `f` to every character and concatenate the results.
pub open spec fn flat_map_chars(s: Seq<char>, f: spec_fn(char) -> Seq<char>) -> Seq<char>
    decreases s.len(),
{
    if s.len() == 0 {
        seq![]
    } else {
        flat_map_chars(s.drop_last(), f) + f(s.last())
    }
}

/// How one character appears inside a JSON string literal.
pub open spec fn json_char(c: char) -> Seq<char> {
    if c == '"' {
        seq!['\\', '"']
    } else if c == '\\' {
        seq!['\\', '\\']
    } else if c == '\n' {
        seq!['\\', 'n']
    } else if c == '\r' {
        seq!['\\', 'r']
    } else if c == '\t' {
        seq!['\\', 't']
    } else if c == '\u{8}' {
        seq!['\\', 'b']
    } else if c == '\u{c}' {
        seq!['\\', 'f']
    } else if (c as u32) < 0x20 {
        seq!['\\', 'u'] + hex_fixed(c as nat, 4)
    } else {
        seq![c]
    }
}

/// A JSON string literal (with quotes) holding `s`.
pub open spec fn json_escape_spec(s: Seq<char>) -> Seq<char> {
    seq!['"'] + flat_map_chars(s, |c: char| json_char(c)) + seq!['"']
}

fn push_json_char(out: &mut String, c: char)
    ensures
        final(out)@ == old(out)@ + json_char(c),
{
    if c == '"' {
        out.push('\\');
        out.push('"');
    } else if c == '\\' {
        out.push('\\');
        out.push('\\');
    } else if c == '\n' {
        out.push('\\');
        out.push('n');
    } else if c == '\r' {
        out.push('\\');
        out.push('r');
    } else if c == '\t' {
        out.push('\\');
        out.push('t');
    } else if c == '\u{8}' {
        out.push('\\');
        out.push('b');
    } else if c == '\u{c}' {
        out.push('\\');
        out.push('f');
    } else if (c as u32) < 0x20 {
        out.push('\\');
        out.push('u');
        let hex = crate::text::hex_fixed_exec(c as u32 as u64, 4);
        push_chars(out, hex.as_slice());
    } else {
        out.push(c);
    }
    assert(final(out)@ =~= old(out)@ + json_char(c));
}

/// Append `flat_map_chars(cs, json_char)` to `out`.
fn push_json_body(out: &mut String, cs: &[char])
    ensures
        final(out)@ == old(out)@ + flat_map_chars(cs@, |c: char| json_char(c)),
{
    let mut i: usize = 0;
    while i < cs.len()
        invariant
            i <= cs@.len(),
            out@ == old(out)@ + flat_map_chars(cs@.take(i as int), |c: char| json_char(c)),
        decreases cs@.len() - i,
    {
        push_json_char(out, cs[i]);
        proof {
            assert(cs@.take(i + 1).drop_last() =~= cs@.take(i as int));
        }
        i = i + 1;
        assert(out@ =~= old(out)@ + flat_map_chars(cs@.take(i as int), |c: char| json_char(c)));
    }
    assert(cs@.take(cs@.len() as int) =~= cs@);
}

/// Render `s` as a JSON string literal, quotes included.
pub fn json_escape(s: &str) -> (out: String)
    ensures
        out@ == json_escape_spec(s@),
{
    let cs = str_chars(s);
    let mut out = String::new();
    out.push('"');
    push_json_body(&mut out, cs.as_slice());
    out.push('"');
    assert(out@ =~= json_escape_spec(s@));
    out
}

/// How one character appears inside a single-quoted POSIX shell word.
pub open spec fn sh_char(c: char) -> Seq<char> {
    if c == '\'' {
        seq!['\'', '\\', '\'', '\'']
    } else {
        seq![c]
    }
}

/// A single-quoted POSIX shell word denoting exactly `s`.
pub open spec fn shell_escape_spec(s: Seq<char>) -> Seq<char> {
    seq!['\''] + flat_map_chars(s, |c: char| sh_char(c)) + seq!['\'']
}

/// Quote `s` as one POSIX shell word.
pub fn shell_escape(s: &str) -> (out: String)
    ensures
        out@ == shell_escape_spec(s@),
{
    let cs = str_chars(s);
    let mut out = String::new();
    out.push('\'');
    let mut i: usize = 0;
    while i < cs.len()
        invariant
            i <= cs@.len(),
            cs@ == s@,
            out@ == seq!['\''] + flat_map_chars(cs@.take(i as int), |c: char| sh_char(c)),
        decreases cs@.len() - i,
    {
        let c = cs[i];
        if c == '\'' {
            out.push('\'');
            out.push('\\');
            out.push('\'');
            out.push('\'');
        } else {
            out.push(c);
        }
        proof {
            assert(cs@.take(i + 1).drop_last() =~= cs@.take(i as int));
        }
        i = i + 1;
        assert(out@ =~= seq!['\''] + flat_map_chars(cs@.take(i as int), |c: char| sh_char(c)));
    }
    assert(cs@.take(cs@.len() as int) =~= cs@);
    out.push('\'');
    assert(out@ =~= shell_escape_spec(s@));
    out
}

/// View of a sequence of strings.
pub open spec fn strings_view(v: Seq<String>) -> Seq<Seq<char>> {
    v.map_values(|s: String| s@)
}

/// View of a vector of string pairs.
pub open spec fn pairs_view(v: Seq<(String, String)>) -> Seq<(Seq<char>, Seq<char>)> {
    v.map_values(|p: (String, String)| (p.0@, p.1@))
}

/// Each word quoted for the shell, separated by single spaces.
pub open spec fn shell_join_spec(words: Seq<Seq<char>>) -> Seq<char> {
    join_spec(words.map_values(|w: Seq<char>| shell_escape_spec(w)), seq![' '])
}

/// Quote every word and join them with spaces into one shell command line.
pub fn shell_join(words: &[String]) -> (out: String)
    ensures
        out@ == shell_join_spec(strings_view(words@)),
{
    let mut out = String::new();
    let mut i: usize = 0;
    while i < words.len()
        invariant
            i <= words@.len(),
            out@ == shell_join_spec(strings_view(words@.take(i as int))),
        decreases words@.len() - i,
    {
        let q = shell_escape(words[i].as_str());
        let ghost prev = strings_view(words@.take(i as int)).map_values(
            |w: Seq<char>| shell_escape_spec(w),
        );
        proof {
            assert(strings_view(words@.take(i + 1)).map_values(|w: Seq<char>| shell_escape_spec(w))
                =~= prev.push(q@));
            crate::text::lemma_join_push(prev, seq![' '], q@);
        }
        if i > 0 {
            out.push(' ');
        }
        out.push_str(q.as_str());
        i = i + 1;
    }
    assert(words@.take(words@.len() as int) =~= words@);
    out
}

/// How one character appears inside a PowerShell single-quoted literal.
pub open spec fn ps_char(c: char) -> Seq<char> {
    if c == '\'' {
        seq!['\'', '\'']
    } else {
        seq![c]
    }
}

/// A PowerShell single-quoted literal denoting exactly `s`.
pub open spec fn ps_quote_spec(s: Seq<char>) -> Seq<char> {
    seq!['\''] + flat_map_chars(s, |c: char| ps_char(c)) + seq!['\'']
}

/// Quote `s` as a PowerShell single-quoted literal (`'` doubled).
pub fn ps_quote_inner(s: &str) -> (out: String)
    ensures
        out@ == ps_quote_spec(s@),
{
    let cs = str_chars(s);
    let mut out = String::new();
    out.push('\'');
    let mut i: usize = 0;
    while i < cs.len()
        invariant
            i <= cs@.len(),
            cs@ == s@,
            out@ == seq!['\''] + flat_map_chars(cs@.take(i as int), |c: char| ps_char(c)),
        decreases cs@.len() - i,
    {
        let c = cs[i];
        if c == '\'' {
            out.push('\'');
            out.push('\'');
        } else {
            out.push(c);
        }
        proof {
            assert(cs@.take(i + 1).drop_last() =~= cs@.take(i as int));
        }
        i = i + 1;
        assert(out@ =~= seq!['\''] + flat_map_chars(cs@.take(i as int), |c: char| ps_char(c)));
    }
    assert(cs@.take(cs@.len() as int) =~= cs@);
    out.push('\'');
    assert(out@ =~= ps_quote_spec(s@));
    out
}

} // verus!

verus! {

/// Concatenate the strings with `sep` between neighbours (`slice::join`).
pub fn join_strings(parts: &Vec<String>, sep: &str) -> (out: String)
    ensures
        out@ == join_spec(strings_view(parts@), sep@),
{
    let mut out = String::new();
    let mut i: usize = 0;
    while i < parts.len()
        invariant
            i <= parts@.len(),
            out@ == join_spec(strings_view(parts@.take(i as int)), sep@),
        decreases parts@.len() - i,
    {
        proof {
            assert(strings_view(parts@.take(i + 1)) =~= strings_view(parts@.take(i as int)).push(
                parts@[i as int]@,
            ));
            crate::text::lemma_join_push(strings_view(parts@.take(i as int)), sep@, parts@[i as int]@);
        }
        if i > 0 {
            out.push_str(sep);
        }
        out.push_str(parts[i].as_str());
        i = i + 1;
    }
    assert(parts@.take(parts@.len() as int) =~= parts@);
    out
}

/// Push a copy of a string slice onto a vector of strings.
pub fn push_str_item(v: &mut Vec<String>, s: &str)
    ensures
        strings_view(final(v)@) == strings_view(old(v)@).push(s@),
{
    v.push(s.to_owned());
    assert(strings_view(v@) =~= strings_view(old(v)@).push(s@));
}

/// Push a string onto a vector of strings.
pub fn push_string_item(v: &mut Vec<String>, s: String)
    ensures
        strings_view(final(v)@) == strings_view(old(v)@).push(s@),
{
    let ghost sv = s@;
    v.push(s);
    assert(strings_view(v@) =~= strings_view(old(v)@).push(sv));
}

} // verus!
