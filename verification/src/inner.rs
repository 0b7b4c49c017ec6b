//! Pane command builders with the toolchain-warning suppression injected, and the tmux
//! launch script.
use vstd::prelude::*;

use crate::escape::{shell_escape, shell_escape_spec, strings_view};
use crate::fork_names::pane_env_spec;
use crate::session::{ForkSession, Pane};
use crate::text::{find, find_spec, join_spec, lemma_find_from_props, lemma_join_push, str_chars, string_from_chars, slice_to_vec, ends_with, ends_with_spec};
use crate::windows_helpers::{bash_inner_spec, fork_bash_inner_string, fork_ps_inner_string, ps_inner_spec};

verus! {

/// Insert the suppression assignment right after the first `; ` (or append it).
pub open spec fn inject_ps_suppress(s: Seq<char>) -> Seq<char> {
    match find_spec(s, "; "@) {
        Some(pos) => s.take(pos + 2) + "$env:AIFO_CODER_SUPPRESS_TOOLCHAIN_WARNING='1'; "@ + s.skip(pos + 2),
        None => s + "; $env:AIFO_CODER_SUPPRESS_TOOLCHAIN_WARNING='1';"@,
    }
}

/// PowerShell pane command with `AIFO_CODER_SUPPRESS_TOOLCHAIN_WARNING='1'` set right
/// after `Set-Location`.
pub fn build_inner_powershell(bin: &str, session: &ForkSession, pane: &Pane, child_args: &Vec<String>) -> (out: String)
    ensures
        out@ == inject_ps_suppress(ps_inner_spec(bin@, session.agent@, session.sid@, pane.index as nat, pane.dir@, pane.state_dir@, strings_view(child_args@))),
{
    let s = fork_ps_inner_string(bin, session.agent.as_str(), session.sid.as_str(), pane.index, pane.dir.as_str(), pane.state_dir.as_str(), child_args);
    let cs = str_chars(s.as_str());
    let pat = str_chars("; ");
    match find(cs.as_slice(), pat.as_slice()) {
        Some(pos) => {
            proof {
                lemma_find_from_props(cs@, pat@, 0);
                reveal_strlit("; ");
                assert(crate::text::match_at(cs@, pat@, pos as int));
            }
            let n = cs.len();
            assert(pos + 2 <= n);
            let cut = pos + 2;
            let head = slice_to_vec(cs.as_slice(), 0, cut);
            let tail = slice_to_vec(cs.as_slice(), cut, cs.len());
            let mut out = string_from_chars(head.as_slice());
            out.push_str("$env:AIFO_CODER_SUPPRESS_TOOLCHAIN_WARNING='1'; ");
            crate::text::push_chars(&mut out, tail.as_slice());
            assert(head@ =~= cs@.take(cut as int));
            assert(tail@ =~= cs@.skip(cut as int));
            out
        },
        None => {
            let mut out = s;
            out.push_str("; $env:AIFO_CODER_SUPPRESS_TOOLCHAIN_WARNING='1';");
            out
        },
    }
}

/// Insert `; export AIFO_CODER_SUPPRESS_TOOLCHAIN_WARNING=1` before the first
/// `; aifo-coder`, then drop a trailing `; exec bash` unless the shell tail is wanted.
pub open spec fn inject_bash_suppress(s: Seq<char>, exec_shell_tail: bool) -> Seq<char> {
    let t = match find_spec(s, "; aifo-coder"@) {
        Some(pos) => s.take(pos) + "; export AIFO_CODER_SUPPRESS_TOOLCHAIN_WARNING=1"@ + s.skip(pos),
        None => s,
    };
    if !exec_shell_tail && ends_with_spec(t, "; exec bash"@) {
        t.take(t.len() - "; exec bash"@.len())
    } else {
        t
    }
}

/// Git Bash pane command with the toolchain-warning suppression exported before the
/// launcher; the trailing `; exec bash` is dropped when `exec_shell_tail` is false.
pub fn build_inner_gitbash(bin: &str, session: &ForkSession, pane: &Pane, child_args: &Vec<String>, exec_shell_tail: bool) -> (out: String)
    ensures
        out@ == inject_bash_suppress(bash_inner_spec(bin@, session.agent@, session.sid@, pane.index as nat, pane.dir@, pane.state_dir@, strings_view(child_args@)), exec_shell_tail),
{
    let s = fork_bash_inner_string(bin, session.agent.as_str(), session.sid.as_str(), pane.index, pane.dir.as_str(), pane.state_dir.as_str(), child_args);
    let cs = str_chars(s.as_str());
    let pat = str_chars("; aifo-coder");
    let mut t: Vec<char> = match find(cs.as_slice(), pat.as_slice()) {
        Some(pos) => {
            proof {
                lemma_find_from_props(cs@, pat@, 0);
            }
            let mut v = slice_to_vec(cs.as_slice(), 0, pos);
            let ins = str_chars("; export AIFO_CODER_SUPPRESS_TOOLCHAIN_WARNING=1");
            crate::text::extend_chars(&mut v, ins.as_slice());
            let tail = slice_to_vec(cs.as_slice(), pos, cs.len());
            crate::text::extend_chars(&mut v, tail.as_slice());
            assert(tail@ =~= cs@.skip(pos as int));
            v
        },
        None => cs,
    };
    let suffix = str_chars("; exec bash");
    if !exec_shell_tail && ends_with(t.as_slice(), suffix.as_slice()) {
        let cut = t.len() - suffix.len();
        t.truncate(cut);
    }
    string_from_chars(t.as_slice())
}

/// The tmux per-pane launch script: exports of the pane environment, the agent
/// command, then a prompt offering a shell for a few seconds once the agent exits.
pub open spec fn tmux_script_spec(exports: Seq<char>, child_args_joined: Seq<char>) -> Seq<char> {
    "#!/usr/bin/env bash\nset -e\n"@ + exports + "\nset +e\n"@ + child_args_joined + "\nst=$?\nif [ -t 0 ] && command -v tmux >/dev/null 2>&1; then\n  pid=\"$(tmux display -p '#{pane_id}')\"\n  secs=\"${AIFO_CODER_FORK_SHELL_PROMPT_SECS:-5}\"\n  printf \"aifo-coder: agent exited (code %s). Press 's' to open a shell, or wait: \" \"$st\"\n  for ((i=secs; i>=1; i--)); do\n    printf \"%s \" \"$i\"\n    if IFS= read -rsn1 -t 1 ch; then\n      echo\n      if [[ -z \"$ch\" || \"$ch\" == $'\\n' || \"$ch\" == $'\\r' ]]; then\n        tmux kill-pane -t \"$pid\" >/dev/null 2>&1 || exit \"$st\"\n        exit \"$st\"\n      elif [[ \"$ch\" == 's' || \"$ch\" == 'S' ]]; then\n        exec \"${SHELL:-sh}\"\n      fi\n    fi\n  done\n  echo\n  tmux kill-pane -t \"$pid\" >/dev/null 2>&1 || exit \"$st\"\nelse\n  exit \"$st\"\nfi\n"@
}

/// `export K='v'` lines of the pane environment, joined by newlines.
pub open spec fn export_lines_spec(kv: Seq<(Seq<char>, Seq<char>)>) -> Seq<char> {
    join_spec(kv.map_values(|p: (Seq<char>, Seq<char>)| "export "@ + p.0 + "="@ + shell_escape_spec(p.1)), "\n"@)
}

/// Build the tmux launch script of a pane.
pub fn build_tmux_launch_script(session: &ForkSession, pane: &Pane, child_args_joined: &str) -> (out: String)
    ensures
        out@ == tmux_script_spec(export_lines_spec(pane_env_spec(session.sid@, pane.index as nat, pane.container_name@, pane.state_dir@)), child_args_joined@),
{
    let kv = crate::fork_names::fork_env_for_pane(session.sid.as_str(), pane.index, pane.container_name.as_str(), pane.state_dir.as_str());
    let mut exports = String::new();
    let mut i: usize = 0;
    while i < kv.len()
        invariant
            i <= kv@.len(),
            exports@ == export_lines_spec(crate::escape::pairs_view(kv@.take(i as int))),
        decreases kv@.len() - i,
    {
        let mut item = "export ".to_owned();
        item.push_str(kv[i].0.as_str());
        item.push_str("=");
        item.push_str(shell_escape(kv[i].1.as_str()).as_str());
        let ghost f = |p: (Seq<char>, Seq<char>)| "export "@ + p.0 + "="@ + shell_escape_spec(p.1);
        proof {
            assert(crate::escape::pairs_view(kv@.take(i + 1)).map_values(f) =~= crate::escape::pairs_view(kv@.take(i as int)).map_values(f).push(item@));
            lemma_join_push(crate::escape::pairs_view(kv@.take(i as int)).map_values(f), "\n"@, item@);
        }
        if i > 0 {
            exports.push_str("\n");
        }
        exports.push_str(item.as_str());
        i = i + 1;
    }
    assert(kv@.take(kv@.len() as int) =~= kv@);
    let mut out = "#!/usr/bin/env bash\nset -e\n".to_owned();
    out.push_str(exports.as_str());
    out.push_str("\nset +e\n");
    out.push_str(child_args_joined);
    out.push_str("\nst=$?\nif [ -t 0 ] && command -v tmux >/dev/null 2>&1; then\n  pid=\"$(tmux display -p '#{pane_id}')\"\n  secs=\"${AIFO_CODER_FORK_SHELL_PROMPT_SECS:-5}\"\n  printf \"aifo-coder: agent exited (code %s). Press 's' to open a shell, or wait: \" \"$st\"\n  for ((i=secs; i>=1; i--)); do\n    printf \"%s \" \"$i\"\n    if IFS= read -rsn1 -t 1 ch; then\n      echo\n      if [[ -z \"$ch\" || \"$ch\" == $'\\n' || \"$ch\" == $'\\r' ]]; then\n        tmux kill-pane -t \"$pid\" >/dev/null 2>&1 || exit \"$st\"\n        exit \"$st\"\n      elif [[ \"$ch\" == 's' || \"$ch\" == 'S' ]]; then\n        exec \"${SHELL:-sh}\"\n      fi\n    fi\n  done\n  echo\n  tmux kill-pane -t \"$pid\" >/dev/null 2>&1 || exit \"$st\"\nelse\n  exit \"$st\"\nfi\n");
    out
}

} // verus!
