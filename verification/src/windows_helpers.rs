//! Windows pane launchers: PowerShell and Git Bash inner commands and `wt.exe` arguments.
use vstd::prelude::*;

use crate::escape::{ps_quote_inner, ps_quote_spec, shell_escape, shell_escape_spec, shell_join, shell_join_spec, strings_view};
use crate::escape::pairs_view;
use crate::fork_names::{fork_inner_env_kv, inner_env_spec};
use crate::text::{join_spec, lemma_join_push};

verus! {

/// `wt split-pane` orientation for a layout: `-H` for `even-h`, `-V` for `even-v`,
/// otherwise alternating by pane index (even `-H`, odd `-V`).
pub open spec fn orient_spec(layout: Seq<char>, i: nat) -> Seq<char> {
    if layout == "even-h"@ {
        "-H"@
    } else if layout == "even-v"@ {
        "-V"@
    } else if i % 2 == 0 {
        "-H"@
    } else {
        "-V"@
    }
}

/// Map a layout to the wt.exe split orientation flag.
pub fn wt_orient_for_layout(layout: &str, i: usize) -> (r: &'static str)
    ensures
        r@ == orient_spec(layout@, i as nat),
{
    if crate::text::str_eq(layout, "even-h") {
        "-H"
    } else if crate::text::str_eq(layout, "even-v") {
        "-V"
    } else if i % 2 == 0 {
        "-H"
    } else {
        "-V"
    }
}

/// `-d <dir> <psbin> -NoExit -Command <inner>`.
pub open spec fn wt_tail_spec(psbin: Seq<char>, pane_dir: Seq<char>, inner: Seq<char>) -> Seq<Seq<char>> {
    seq!["-d"@, pane_dir, psbin, "-NoExit"@, "-Command"@, inner]
}

fn wt_tail(v: &mut Vec<String>, psbin: &str, pane_dir: &str, inner: &str)
    ensures
        strings_view(final(v)@) == strings_view(old(v)@) + wt_tail_spec(psbin@, pane_dir@, inner@),
{
    v.push("-d".to_owned());
    v.push(pane_dir.to_owned());
    v.push(psbin.to_owned());
    v.push("-NoExit".to_owned());
    v.push("-Command".to_owned());
    v.push(inner.to_owned());
    assert(strings_view(v@) =~= strings_view(old(v)@) + wt_tail_spec(psbin@, pane_dir@, inner@));
}

/// Argument vector for `wt new-tab -d <dir> <psbin> -NoExit -Command <inner>`.
pub fn wt_build_new_tab_args(psbin: &str, pane_dir: &str, inner: &str) -> (v: Vec<String>)
    ensures
        strings_view(v@) == seq!["wt"@, "new-tab"@] + wt_tail_spec(psbin@, pane_dir@, inner@),
{
    let mut v: Vec<String> = Vec::new();
    v.push("wt".to_owned());
    v.push("new-tab".to_owned());
    let ghost head = strings_view(v@);
    assert(head =~= seq!["wt"@, "new-tab"@]);
    wt_tail(&mut v, psbin, pane_dir, inner);
    v
}

/// Argument vector for `wt split-pane <orient> -d <dir> <psbin> -NoExit -Command <inner>`.
pub fn wt_build_split_args(orient: &str, psbin: &str, pane_dir: &str, inner: &str) -> (v: Vec<String>)
    ensures
        strings_view(v@) == seq!["wt"@, "split-pane"@, orient@] + wt_tail_spec(
            psbin@,
            pane_dir@,
            inner@,
        ),
{
    let mut v: Vec<String> = Vec::new();
    v.push("wt".to_owned());
    v.push("split-pane".to_owned());
    v.push(orient.to_owned());
    let ghost head = strings_view(v@);
    assert(head =~= seq!["wt"@, "split-pane"@, orient@]);
    wt_tail(&mut v, psbin, pane_dir, inner);
    v
}

/// `Wait-Process -Id <ids joined by ,>`.
pub fn ps_wait_process_cmd(ids: &Vec<String>) -> (s: String)
    ensures
        s@ == "Wait-Process -Id "@ + join_spec(strings_view(ids@), ","@),
{
    let mut s = "Wait-Process -Id ".to_owned();
    let ghost head = s@;
    let mut i: usize = 0;
    while i < ids.len()
        invariant
            i <= ids@.len(),
            s@ == head + join_spec(strings_view(ids@.take(i as int)), ","@),
        decreases ids@.len() - i,
    {
        proof {
            assert(strings_view(ids@.take(i + 1)) =~= strings_view(ids@.take(i as int)).push(
                ids@[i as int]@,
            ));
            lemma_join_push(strings_view(ids@.take(i as int)), ","@, ids@[i as int]@);
        }
        if i > 0 {
            s.push_str(",");
        }
        s.push_str(ids[i].as_str());
        i = i + 1;
    }
    assert(ids@.take(ids@.len() as int) =~= ids@);
    s
}

/// `$env:K='v'` assignments joined by `; `.
pub open spec fn ps_assigns_spec(kv: Seq<(Seq<char>, Seq<char>)>) -> Seq<char> {
    join_spec(kv.map_values(|p: (Seq<char>, Seq<char>)| "$env:"@ + p.0 + "="@ + ps_quote_spec(p.1)), "; "@)
}

/// `export K='v'` statements joined by `; `.
pub open spec fn bash_exports_spec(kv: Seq<(Seq<char>, Seq<char>)>) -> Seq<char> {
    join_spec(kv.map_values(|p: (Seq<char>, Seq<char>)| "export "@ + p.0 + "="@ + shell_escape_spec(p.1)), "; "@)
}

/// The PowerShell command of a pane:
/// `Set-Location '<dir>'; $env:K='v'; ...; '<bin>' '<arg>' ...`.
pub open spec fn ps_inner_spec(
    bin: Seq<char>,
    agent: Seq<char>,
    sid: Seq<char>,
    i: nat,
    pane_dir: Seq<char>,
    state_dir: Seq<char>,
    child_args: Seq<Seq<char>>,
) -> Seq<char> {
    "Set-Location "@ + ps_quote_spec(pane_dir) + "; "@ + ps_assigns_spec(inner_env_spec(agent, sid, i, state_dir))
        + "; "@ + join_spec(seq![bin].add(child_args).map_values(|w: Seq<char>| ps_quote_spec(w)), " "@)
}

fn ps_assigns(kv: &Vec<(String, String)>) -> (s: String)
    ensures
        s@ == ps_assigns_spec(pairs_view(kv@)),
{
    let mut s = String::new();
    let mut i: usize = 0;
    while i < kv.len()
        invariant
            i <= kv@.len(),
            s@ == ps_assigns_spec(pairs_view(kv@.take(i as int))),
        decreases kv@.len() - i,
    {
        let mut item = "$env:".to_owned();
        item.push_str(kv[i].0.as_str());
        item.push_str("=");
        item.push_str(ps_quote_inner(kv[i].1.as_str()).as_str());
        let ghost f = |p: (Seq<char>, Seq<char>)| "$env:"@ + p.0 + "="@ + ps_quote_spec(p.1);
        proof {
            assert(pairs_view(kv@.take(i + 1)).map_values(f) =~= pairs_view(kv@.take(i as int)).map_values(f).push(item@));
            lemma_join_push(pairs_view(kv@.take(i as int)).map_values(f), "; "@, item@);
        }
        if i > 0 {
            s.push_str("; ");
        }
        s.push_str(item.as_str());
        i = i + 1;
    }
    assert(kv@.take(kv@.len() as int) =~= kv@);
    s
}

fn ps_words(words: &Vec<String>) -> (s: String)
    ensures
        s@ == join_spec(strings_view(words@).map_values(|w: Seq<char>| ps_quote_spec(w)), " "@),
{
    let mut s = String::new();
    let mut i: usize = 0;
    while i < words.len()
        invariant
            i <= words@.len(),
            s@ == join_spec(strings_view(words@.take(i as int)).map_values(|w: Seq<char>| ps_quote_spec(w)), " "@),
        decreases words@.len() - i,
    {
        let q = ps_quote_inner(words[i].as_str());
        let ghost f = |w: Seq<char>| ps_quote_spec(w);
        proof {
            assert(strings_view(words@.take(i + 1)).map_values(f) =~= strings_view(words@.take(i as int)).map_values(f).push(q@));
            lemma_join_push(strings_view(words@.take(i as int)).map_values(f), " "@, q@);
        }
        if i > 0 {
            s.push_str(" ");
        }
        s.push_str(q.as_str());
        i = i + 1;
    }
    assert(words@.take(words@.len() as int) =~= words@);
    s
}

fn command_words(bin: &str, child_args: &Vec<String>) -> (v: Vec<String>)
    ensures
        strings_view(v@) == seq![bin@].add(strings_view(child_args@)),
{
    let mut v: Vec<String> = Vec::new();
    v.push(bin.to_owned());
    let mut i: usize = 0;
    while i < child_args.len()
        invariant
            i <= child_args@.len(),
            strings_view(v@) == seq![bin@].add(strings_view(child_args@.take(i as int))),
        decreases child_args@.len() - i,
    {
        let x = child_args[i].clone();
        let ghost prev = v@;
        v.push(x);
        assert(strings_view(v@) =~= strings_view(prev).push(child_args@[i as int]@));
        assert(strings_view(child_args@.take(i + 1)) =~= strings_view(child_args@.take(i as int)).push(child_args@[i as int]@));
        i = i + 1;
    }
    assert(child_args@.take(child_args@.len() as int) =~= child_args@);
    v
}

/// Build the PowerShell inner command of a fork pane; `bin` is the launcher binary
/// (`AIFO_CODER_BIN`, default `aifo-coder`).
pub fn fork_ps_inner_string(
    bin: &str,
    agent: &str,
    sid: &str,
    i: usize,
    pane_dir: &str,
    pane_state_dir: &str,
    child_args: &Vec<String>,
) -> (s: String)
    ensures
        s@ == ps_inner_spec(bin@, agent@, sid@, i as nat, pane_dir@, pane_state_dir@, strings_view(child_args@)),
{
    let kv = fork_inner_env_kv(agent, sid, i, pane_state_dir);
    let assigns = ps_assigns(&kv);
    let words = command_words(bin, child_args);
    let cmd = ps_words(&words);
    let mut s = "Set-Location ".to_owned();
    s.push_str(ps_quote_inner(pane_dir).as_str());
    s.push_str("; ");
    s.push_str(assigns.as_str());
    s.push_str("; ");
    s.push_str(cmd.as_str());
    s
}

/// The Git Bash command of a pane:
/// `cd '<dir>' && export K='v'; ...; '<bin>' '<arg>' ...; exec bash`.
pub open spec fn bash_inner_spec(
    bin: Seq<char>,
    agent: Seq<char>,
    sid: Seq<char>,
    i: nat,
    pane_dir: Seq<char>,
    state_dir: Seq<char>,
    child_args: Seq<Seq<char>>,
) -> Seq<char> {
    "cd "@ + shell_escape_spec(pane_dir) + " && "@ + bash_exports_spec(inner_env_spec(agent, sid, i, state_dir))
        + "; "@ + shell_join_spec(seq![bin].add(child_args)) + "; exec bash"@
}

fn bash_exports(kv: &Vec<(String, String)>) -> (s: String)
    ensures
        s@ == bash_exports_spec(pairs_view(kv@)),
{
    let mut s = String::new();
    let mut i: usize = 0;
    while i < kv.len()
        invariant
            i <= kv@.len(),
            s@ == bash_exports_spec(pairs_view(kv@.take(i as int))),
        decreases kv@.len() - i,
    {
        let mut item = "export ".to_owned();
        item.push_str(kv[i].0.as_str());
        item.push_str("=");
        item.push_str(shell_escape(kv[i].1.as_str()).as_str());
        let ghost f = |p: (Seq<char>, Seq<char>)| "export "@ + p.0 + "="@ + shell_escape_spec(p.1);
        proof {
            assert(pairs_view(kv@.take(i + 1)).map_values(f) =~= pairs_view(kv@.take(i as int)).map_values(f).push(item@));
            lemma_join_push(pairs_view(kv@.take(i as int)).map_values(f), "; "@, item@);
        }
        if i > 0 {
            s.push_str("; ");
        }
        s.push_str(item.as_str());
        i = i + 1;
    }
    assert(kv@.take(kv@.len() as int) =~= kv@);
    s
}

/// Build the Git Bash inner command of a fork pane; `bin` is the launcher binary.
pub fn fork_bash_inner_string(
    bin: &str,
    agent: &str,
    sid: &str,
    i: usize,
    pane_dir: &str,
    pane_state_dir: &str,
    child_args: &Vec<String>,
) -> (s: String)
    ensures
        s@ == bash_inner_spec(bin@, agent@, sid@, i as nat, pane_dir@, pane_state_dir@, strings_view(child_args@)),
{
    let kv = fork_inner_env_kv(agent, sid, i, pane_state_dir);
    let exports = bash_exports(&kv);
    let words = command_words(bin, child_args);
    let cmd = shell_join(words.as_slice());
    let mut s = "cd ".to_owned();
    s.push_str(shell_escape(pane_dir).as_str());
    s.push_str(" && ");
    s.push_str(exports.as_str());
    s.push_str("; ");
    s.push_str(cmd.as_str());
    s.push_str("; exec bash");
    s
}

} // verus!
