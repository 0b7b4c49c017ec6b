//! Pane orchestrators: which one a host gets, whether it can wait for its panes,
//! and the commands and scripts they hand to tmux, PowerShell and Git Bash.
use vstd::prelude::*;

use crate::cli::Cli;
use crate::escape::{ps_quote_inner, ps_quote_spec, shell_escape, shell_escape_spec, shell_join, shell_join_spec, strings_view};
use crate::strategy::MergingStrategy;
use crate::text::{dec_spec, lower_spec, str_chars, to_lower, chars_eq, usize_to_string};

verus! {

/// A pane orchestrator.
pub trait Orchestrator {
    /// Whether this orchestrator waits for its panes, so that a merge can follow.
    spec fn waits(&self) -> bool;

    fn supports_post_merge(&self) -> (b: bool)
        ensures
            b == self.waits(),
    ;
}

/// tmux (Unix): one session, one window split into the panes.
pub struct Tmux;

/// PowerShell: one window per pane; waits for them when `wait` is set.
pub struct PowerShell {
    pub wait: bool,
}

/// Git Bash or mintty; `exec_shell_tail` keeps the trailing `; exec bash`.
pub struct GitBashMintty {
    pub exec_shell_tail: bool,
}

/// Windows Terminal: detached tabs and split panes.
pub struct WindowsTerminal;

impl Orchestrator for Tmux {
    open spec fn waits(&self) -> bool {
        true
    }

    fn supports_post_merge(&self) -> (b: bool) {
        true
    }
}

impl Orchestrator for PowerShell {
    open spec fn waits(&self) -> bool {
        true
    }

    fn supports_post_merge(&self) -> (b: bool) {
        true
    }
}

impl Orchestrator for GitBashMintty {
    open spec fn waits(&self) -> bool {
        false
    }

    fn supports_post_merge(&self) -> (b: bool) {
        false
    }
}

impl Orchestrator for WindowsTerminal {
    open spec fn waits(&self) -> bool {
        false
    }

    fn supports_post_merge(&self) -> (b: bool) {
        false
    }
}

/// The orchestrator chosen for a host, with the reason.
pub enum Selected {
    Tmux { reason: String },
    WindowsTerminal { reason: String },
    PowerShell { reason: String },
    GitBashMintty { reason: String },
}

/// Which launchers a Windows host has: Git Bash (`git-bash.exe`, `bash.exe` or
/// `mintty.exe`), PowerShell (`pwsh`, `powershell` or `powershell.exe`), and Windows
/// Terminal (`wt` or `wt.exe`).
pub struct ToolPresence {
    pub git_bash: bool,
    pub powershell: bool,
    pub windows_terminal: bool,
}

/// Whether `have` answers yes for one of `bins`.
pub fn have_any<F: Fn(&str) -> bool>(bins: &[&str], have: F) -> (b: bool)
    requires
        forall|s: &str| call_requires(have, (s,)),
    ensures
        b ==> exists|k: int| 0 <= k < bins@.len() && #[trigger] call_ensures(have, (bins@[k],), true),
        !b ==> forall|k: int| 0 <= k < bins@.len() ==> #[trigger] call_ensures(have, (bins@[k],), false),
{
    let mut i: usize = 0;
    while i < bins.len()
        invariant
            i <= bins@.len(),
            forall|s: &str| call_requires(have, (s,)),
            forall|k: int| 0 <= k < i ==> #[trigger] call_ensures(have, (bins@[k],), false),
        decreases bins@.len() - i,
    {
        let r = have(bins[i]);
        if r {
            assert(call_ensures(have, (bins@[i as int],), true));
            return true;
        }
        i = i + 1;
    }
    false
}

/// The choice of orchestrator and its reason. Off Windows: tmux. On Windows, the
/// preference `AIFO_CODER_FORK_ORCH` (ASCII case ignored) comes first: `gitbash`
/// always chooses Git Bash; `powershell` chooses PowerShell when present. Then
/// Windows Terminal when present (PowerShell instead when a merge is requested and
/// PowerShell is present), then PowerShell, then Git Bash, else Windows Terminal.
pub open spec fn selection_spec(
    windows: bool,
    pref: Seq<char>,
    merging: MergingStrategy,
    tools: ToolPresence,
) -> (int, Seq<char>) {
    let p = lower_spec(pref);
    if !windows {
        (0, "non-Windows host, using tmux"@)
    } else if p == "gitbash"@ {
        if tools.git_bash {
            (3, "AIFO_CODER_FORK_ORCH=gitbash"@)
        } else {
            (3, "requested gitbash but not found"@)
        }
    } else if p == "powershell"@ && tools.powershell {
        (2, "AIFO_CODER_FORK_ORCH=powershell"@)
    } else if tools.windows_terminal {
        if merging != MergingStrategy::NoMerge && tools.powershell {
            (2, "wt present but merge requested; using PowerShell"@)
        } else {
            (1, "wt present"@)
        }
    } else if tools.powershell {
        (2, "PowerShell present"@)
    } else if tools.git_bash {
        (3, "Git Bash/mintty present"@)
    } else {
        (1, "none found"@)
    }
}

pub open spec fn selected_view(s: Selected) -> (int, Seq<char>) {
    match s {
        Selected::Tmux { reason } => (0, reason@),
        Selected::WindowsTerminal { reason } => (1, reason@),
        Selected::PowerShell { reason } => (2, reason@),
        Selected::GitBashMintty { reason } => (3, reason@),
    }
}

/// Choose the orchestrator for this host (`pref` is `AIFO_CODER_FORK_ORCH`, empty when unset).
pub fn select_orchestrator(cli: &Cli, windows: bool, pref: &str, tools: &ToolPresence) -> (s: Selected)
    ensures
        selected_view(s) == selection_spec(windows, pref@, cli.fork_merging_strategy, *tools),
{
    if !windows {
        return Selected::Tmux { reason: "non-Windows host, using tmux".to_owned() };
    }
    let pc = str_chars(pref);
    let p = to_lower(pc.as_slice());
    let gb = str_chars("gitbash");
    let ps = str_chars("powershell");
    if chars_eq(p.as_slice(), gb.as_slice()) {
        if tools.git_bash {
            return Selected::GitBashMintty { reason: "AIFO_CODER_FORK_ORCH=gitbash".to_owned() };
        }
        return Selected::GitBashMintty { reason: "requested gitbash but not found".to_owned() };
    }
    if chars_eq(p.as_slice(), ps.as_slice()) && tools.powershell {
        return Selected::PowerShell { reason: "AIFO_CODER_FORK_ORCH=powershell".to_owned() };
    }
    if tools.windows_terminal {
        let merging = match cli.fork_merging_strategy {
            MergingStrategy::NoMerge => false,
            _ => true,
        };
        if merging && tools.powershell {
            return Selected::PowerShell { reason: "wt present but merge requested; using PowerShell".to_owned() };
        }
        return Selected::WindowsTerminal { reason: "wt present".to_owned() };
    }
    if tools.powershell {
        return Selected::PowerShell { reason: "PowerShell present".to_owned() };
    }
    if tools.git_bash {
        return Selected::GitBashMintty { reason: "Git Bash/mintty present".to_owned() };
    }
    Selected::WindowsTerminal { reason: "none found".to_owned() }
}

/// tmux layout for a fork layout name: `even-h` and `even-v` map to the even
/// layouts, anything else is tiled.
pub open spec fn tmux_layout_spec(layout: Seq<char>) -> Seq<char> {
    if layout == "even-h"@ {
        "even-horizontal"@
    } else if layout == "even-v"@ {
        "even-vertical"@
    } else {
        "tiled"@
    }
}

pub fn tmux_layout(layout: &str) -> (s: &'static str)
    ensures
        s@ == tmux_layout_spec(layout@),
{
    if crate::text::str_eq(layout, "even-h") {
        "even-horizontal"
    } else if crate::text::str_eq(layout, "even-v") {
        "even-vertical"
    } else {
        "tiled"
    }
}

/// The command each tmux pane runs: `aifo-coder` and the child arguments, quoted.
pub open spec fn tmux_child_spec(child_args: Seq<Seq<char>>) -> Seq<char> {
    shell_join_spec(seq!["aifo-coder"@] + child_args)
}

pub fn tmux_child_command(child_args: &Vec<String>) -> (s: String)
    ensures
        s@ == tmux_child_spec(strings_view(child_args@)),
{
    let mut words: Vec<String> = vec!["aifo-coder".to_owned()];
    let mut i: usize = 0;
    while i < child_args.len()
        invariant
            i <= child_args@.len(),
            strings_view(words@) == seq!["aifo-coder"@] + strings_view(child_args@).take(i as int),
        decreases child_args@.len() - i,
    {
        crate::escape::push_str_item(&mut words, child_args[i].as_str());
        assert(strings_view(child_args@).take(i + 1) =~= strings_view(child_args@).take(i as int).push(child_args@[i as int]@));
        i = i + 1;
    }
    assert(strings_view(child_args@).take(child_args@.len() as int) =~= strings_view(child_args@));
    shell_join(words.as_slice())
}

/// `tmux new-session -d -s <name> -n aifo-fork -c <first pane dir>`.
pub open spec fn tmux_new_session_spec(name: Seq<char>, dir: Seq<char>) -> Seq<Seq<char>> {
    seq!["new-session"@, "-d"@, "-s"@, name, "-n"@, "aifo-fork"@, "-c"@, dir]
}

pub fn tmux_new_session_args(name: &str, dir: &str) -> (v: Vec<String>)
    ensures
        strings_view(v@) == tmux_new_session_spec(name@, dir@),
{
    let v = vec![
        "new-session".to_owned(),
        "-d".to_owned(),
        "-s".to_owned(),
        name.to_owned(),
        "-n".to_owned(),
        "aifo-fork".to_owned(),
        "-c".to_owned(),
        dir.to_owned(),
    ];
    assert(strings_view(v@) =~= tmux_new_session_spec(name@, dir@));
    v
}

/// The window of the session: `<name>:0`.
pub open spec fn tmux_window_spec(name: Seq<char>) -> Seq<char> {
    name + ":0"@
}

fn tmux_window(name: &str) -> (s: String)
    ensures
        s@ == tmux_window_spec(name@),
{
    let mut s = name.to_owned();
    s.push_str(":0");
    s
}

/// `tmux split-window -t <name>:0 -c <pane dir>`.
pub open spec fn tmux_split_spec(name: Seq<char>, dir: Seq<char>) -> Seq<Seq<char>> {
    seq!["split-window"@, "-t"@, tmux_window_spec(name), "-c"@, dir]
}

pub fn tmux_split_args(name: &str, dir: &str) -> (v: Vec<String>)
    ensures
        strings_view(v@) == tmux_split_spec(name@, dir@),
{
    let v = vec!["split-window".to_owned(), "-t".to_owned(), tmux_window(name), "-c".to_owned(), dir.to_owned()];
    assert(strings_view(v@) =~= tmux_split_spec(name@, dir@));
    v
}

/// The error when splitting for the pane at `idx` (0-based) fails.
pub fn tmux_split_error(idx: usize) -> (s: String)
    requires
        idx < usize::MAX,
    ensures
        s@ == "tmux split-window failed for pane "@ + dec_spec((idx + 1) as nat),
{
    let mut s = "tmux split-window failed for pane ".to_owned();
    s.push_str(usize_to_string(idx + 1).as_str());
    s
}

/// `tmux select-layout -t <name>:0 <layout>`.
pub open spec fn tmux_select_layout_spec(name: Seq<char>, layout: Seq<char>) -> Seq<Seq<char>> {
    seq!["select-layout"@, "-t"@, tmux_window_spec(name), tmux_layout_spec(layout)]
}

pub fn tmux_select_layout_args(name: &str, layout: &str) -> (v: Vec<String>)
    ensures
        strings_view(v@) == tmux_select_layout_spec(name@, layout@),
{
    let v = vec!["select-layout".to_owned(), "-t".to_owned(), tmux_window(name), tmux_layout(layout).to_owned()];
    assert(strings_view(v@) =~= tmux_select_layout_spec(name@, layout@));
    v
}

/// `tmux set-window-option -t <name>:0 synchronize-panes off`.
pub open spec fn tmux_sync_off_spec(name: Seq<char>) -> Seq<Seq<char>> {
    seq!["set-window-option"@, "-t"@, tmux_window_spec(name), "synchronize-panes"@, "off"@]
}

pub fn tmux_sync_off_args(name: &str) -> (v: Vec<String>)
    ensures
        strings_view(v@) == tmux_sync_off_spec(name@),
{
    let v = vec![
        "set-window-option".to_owned(),
        "-t".to_owned(),
        tmux_window(name),
        "synchronize-panes".to_owned(),
        "off".to_owned(),
    ];
    assert(strings_view(v@) =~= tmux_sync_off_spec(name@));
    v
}

/// `tmux send-keys -t <name>:0.<idx> "sh -lc <script>" C-m`.
pub open spec fn tmux_send_keys_spec(name: Seq<char>, idx: nat, script: Seq<char>) -> Seq<Seq<char>> {
    seq!["send-keys"@, "-t"@, name + ":0."@ + dec_spec(idx), "sh -lc "@ + shell_escape_spec(script), "C-m"@]
}

pub fn tmux_send_keys_args(name: &str, idx: usize, script_path: &str) -> (v: Vec<String>)
    ensures
        strings_view(v@) == tmux_send_keys_spec(name@, idx as nat, script_path@),
{
    let mut target = name.to_owned();
    target.push_str(":0.");
    target.push_str(usize_to_string(idx).as_str());
    let mut sh = "sh -lc ".to_owned();
    sh.push_str(shell_escape(script_path).as_str());
    let v = vec!["send-keys".to_owned(), "-t".to_owned(), target, sh, "C-m".to_owned()];
    assert(strings_view(v@) =~= tmux_send_keys_spec(name@, idx as nat, script_path@));
    v
}

/// Inside tmux (`TMUX` set and not empty) the client switches; otherwise it attaches.
pub open spec fn tmux_attach_spec(in_tmux: bool, name: Seq<char>) -> Seq<Seq<char>> {
    if in_tmux {
        seq!["switch-client"@, "-t"@, name]
    } else {
        seq!["attach-session"@, "-t"@, name]
    }
}

pub fn tmux_attach_args(tmux_env: &Option<String>, name: &str) -> (v: Vec<String>)
    ensures
        strings_view(v@) == tmux_attach_spec(
            crate::proxy::opt_string_view(*tmux_env) is Some && crate::proxy::opt_string_view(*tmux_env).unwrap().len() > 0,
            name@,
        ),
{
    let in_tmux = match tmux_env {
        Some(t) => !t.as_str().is_empty(),
        None => false,
    };
    let first = if in_tmux {
        "switch-client".to_owned()
    } else {
        "attach-session".to_owned()
    };
    let v = vec![first, "-t".to_owned(), name.to_owned()];
    assert(strings_view(v@) =~= tmux_attach_spec(in_tmux, name@));
    v
}

/// A PowerShell literal: single quotes, inner quotes doubled.
pub fn quote_literal(s: &str) -> (q: String)
    ensures
        q@ == ps_quote_spec(s@),
{
    ps_quote_inner(s)
}

/// A path as a PowerShell literal.
pub fn quote_ps(p: &str) -> (q: String)
    ensures
        q@ == ps_quote_spec(p@),
{
    quote_literal(p)
}

/// The PowerShell script that starts one pane window and prints its process id.
pub open spec fn ps_start_script_spec(dir: Seq<char>, ps_path: Seq<char>, wait: bool, inner: Seq<char>) -> Seq<char> {
    let arglist = if wait {
        "'-Command'"@
    } else {
        "'-NoExit','-Command'"@
    };
    "(Start-Process -WindowStyle Normal -WorkingDirectory "@ + ps_quote_spec(dir) + " "@ + ps_quote_spec(ps_path)
        + " -ArgumentList "@ + arglist + ","@ + ps_quote_spec(inner) + " -PassThru).Id"@
}

pub fn ps_start_script(dir: &str, ps_path: &str, wait: bool, inner: &str) -> (s: String)
    ensures
        s@ == ps_start_script_spec(dir@, ps_path@, wait, inner@),
{
    let mut s = "(Start-Process -WindowStyle Normal -WorkingDirectory ".to_owned();
    s.push_str(quote_ps(dir).as_str());
    s.push_str(" ");
    s.push_str(quote_ps(ps_path).as_str());
    s.push_str(" -ArgumentList ");
    s.push_str(if wait {
        "'-Command'"
    } else {
        "'-NoExit','-Command'"
    });
    s.push_str(",");
    s.push_str(quote_literal(inner).as_str());
    s.push_str(" -PassThru).Id");
    s
}

/// The line reporting a started PowerShell pane.
pub open spec fn ps_started_spec(index: nat, pid: Seq<char>, dir: Seq<char>) -> Seq<char> {
    if pid.len() == 0 {
        "["@ + dec_spec(index) + "] started dir="@ + dir + " (PID unknown)"@
    } else {
        "["@ + dec_spec(index) + "] started PID="@ + pid + " dir="@ + dir
    }
}

pub fn ps_started_line(index: usize, pid: &str, dir: &str) -> (s: String)
    ensures
        s@ == ps_started_spec(index as nat, pid@, dir@),
{
    let mut s = "[".to_owned();
    s.push_str(usize_to_string(index).as_str());
    if pid.is_empty() {
        s.push_str("] started dir=");
        s.push_str(dir);
        s.push_str(" (PID unknown)");
    } else {
        s.push_str("] started PID=");
        s.push_str(pid);
        s.push_str(" dir=");
        s.push_str(dir);
    }
    s
}

/// The Git Bash inner command, without its trailing `; exec bash` unless the shell
/// is to stay open.
pub open spec fn gitbash_inner_spec(inner: Seq<char>, exec_shell_tail: bool) -> Seq<char> {
    if !exec_shell_tail && crate::text::ends_with_spec(inner, "; exec bash"@) {
        inner.take(inner.len() - 11)
    } else {
        inner
    }
}

pub fn gitbash_inner(inner: &str, exec_shell_tail: bool) -> (s: String)
    ensures
        s@ == gitbash_inner_spec(inner@, exec_shell_tail),
{
    let cs = str_chars(inner);
    let tail = str_chars("; exec bash");
    proof {
        reveal_strlit("; exec bash");
    }
    if !exec_shell_tail && crate::text::ends_with(cs.as_slice(), tail.as_slice()) {
        let n = cs.len();
        let v = crate::text::slice_to_vec(cs.as_slice(), 0, n - 11);
        assert(v@ =~= cs@.take(n - 11));
        crate::text::string_from_chars(v.as_slice())
    } else {
        inner.to_owned()
    }
}

/// A warning before launching more than eight panes.
pub open spec fn panes_warning_spec(panes: nat) -> Option<Seq<char>> {
    if panes > 8 {
        Some("Launching "@ + dec_spec(panes) + " panes may impact disk/memory and I/O performance."@)
    } else {
        None
    }
}

pub fn guard_panes_count(panes: usize) -> (r: Option<String>)
    ensures
        match r {
            Some(m) => panes_warning_spec(panes as nat) == Some(m@),
            None => panes_warning_spec(panes as nat) is None,
        },
{
    if panes > 8 {
        let mut m = "Launching ".to_owned();
        m.push_str(usize_to_string(panes).as_str());
        m.push_str(" panes may impact disk/memory and I/O performance.");
        Some(m)
    } else {
        None
    }
}

/// The error when no pane was created.
pub fn guard_no_panes(clones: usize) -> (r: Option<String>)
    ensures
        clones == 0 <==> r is Some,
        r matches Some(m) ==> m@ == "aifo-coder: no panes to create."@,
{
    if clones == 0 {
        Some("aifo-coder: no panes to create.".to_owned())
    } else {
        None
    }
}

/// What is missing to run fork mode: git; on Windows all of Windows Terminal,
/// PowerShell and Git Bash; elsewhere tmux. The message and exit code.
pub open spec fn presence_error_spec(
    windows: bool,
    git: bool,
    tools: ToolPresence,
    tmux: bool,
) -> Option<(Seq<char>, u8)> {
    if !git {
        Some(("aifo-coder: error: git is required and was not found in PATH."@, 1))
    } else if windows {
        if !(tools.windows_terminal || tools.powershell || tools.git_bash) {
            Some((
                "aifo-coder: error: none of Windows Terminal (wt.exe), PowerShell, or Git Bash were found in PATH."@,
                127,
            ))
        } else {
            None
        }
    } else if !tmux {
        Some(("aifo-coder: error: tmux not found. Please install tmux to use fork mode."@, 127))
    } else {
        None
    }
}

pub fn presence_error(windows: bool, git: bool, tools: &ToolPresence, tmux: bool) -> (r: Option<(String, u8)>)
    ensures
        match r {
            Some(e) => presence_error_spec(windows, git, *tools, tmux) == Some((e.0@, e.1)),
            None => presence_error_spec(windows, git, *tools, tmux) is None,
        },
{
    if !git {
        return Some(("aifo-coder: error: git is required and was not found in PATH.".to_owned(), 1));
    }
    if windows {
        if !(tools.windows_terminal || tools.powershell || tools.git_bash) {
            return Some((
                "aifo-coder: error: none of Windows Terminal (wt.exe), PowerShell, or Git Bash were found in PATH.".to_owned(),
                127,
            ));
        }
        return None;
    }
    if !tmux {
        return Some(("aifo-coder: error: tmux not found. Please install tmux to use fork mode.".to_owned(), 127));
    }
    None
}

} // verus!
