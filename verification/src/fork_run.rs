//! Decisions and texts of a fork run: session naming, the agent and state base,
//! the commit recorded as base, the panes to launch, the summary and guidance
//! printed around them, and the post-fork merge messages.
use vstd::prelude::*;

use crate::cli::{Agent, Cli};
use crate::color::paint_spec;
use crate::escape::strings_view;
use crate::fork_names::{container_name_spec, pane_container_name, pane_state_dir, pane_state_dir_spec, path_join, path_join_spec};
use crate::proxy::opt_string_view;
use crate::session::{make_pane, Pane};
use crate::strategy::{strategy_name, strategy_name_spec, MergingStrategy};
use crate::text::{dec_spec, str_chars, trim, trim_spec, usize_to_string};

verus! {

/// Options snapshot of a fork run.
pub struct ForkOptions {
    pub verbose: bool,
    pub keep_on_failure: bool,
    pub merge_strategy: MergingStrategy,
    pub autoclean: bool,
    pub dry_run: bool,
    pub include_dirty: bool,
    pub dissociate: bool,
}

impl ForkOptions {
    /// The options of a command line.
    pub fn from_cli(cli: &Cli) -> (o: Self)
        ensures
            o.verbose == cli.verbose,
            o.keep_on_failure == cli.fork_keep_on_failure,
            o.merge_strategy == cli.fork_merging_strategy,
            o.autoclean == cli.fork_merging_autoclean,
            o.dry_run == cli.dry_run,
            o.include_dirty == cli.fork_include_dirty,
            o.dissociate == cli.fork_dissociate,
    {
        ForkOptions {
            verbose: cli.verbose,
            keep_on_failure: cli.fork_keep_on_failure,
            merge_strategy: cli.fork_merging_strategy,
            autoclean: cli.fork_merging_autoclean,
            dry_run: cli.dry_run,
            include_dirty: cli.fork_include_dirty,
            dissociate: cli.fork_dissociate,
        }
    }
}

/// The tmux session name: the requested name unless blank, else `aifo-<sid>`.
pub open spec fn session_name_spec(requested: Option<Seq<char>>, sid: Seq<char>) -> Seq<char> {
    match requested {
        Some(n) => if trim_spec(n).len() > 0 {
            n
        } else {
            "aifo-"@ + sid
        },
        None => "aifo-"@ + sid,
    }
}

pub fn session_name(requested: &Option<String>, sid: &str) -> (s: String)
    ensures
        s@ == session_name_spec(opt_string_view(*requested), sid@),
{
    match requested {
        Some(n) => {
            let cs = str_chars(n.as_str());
            if trim(cs.as_slice()).len() > 0 {
                return n.clone();
            }
        },
        None => {},
    }
    let mut s = "aifo-".to_owned();
    s.push_str(sid);
    s
}

/// The agent whose containers the panes run: codex, crush, else aider.
pub open spec fn fork_agent_spec(cmd: Agent) -> Seq<char> {
    match cmd {
        Agent::Codex { .. } => "codex"@,
        Agent::Crush { .. } => "crush"@,
        _ => "aider"@,
    }
}

pub fn fork_agent(cli: &Cli) -> (s: &'static str)
    ensures
        s@ == fork_agent_spec(cli.command),
{
    match &cli.command {
        Agent::Codex { .. } => "codex",
        Agent::Crush { .. } => "crush",
        _ => "aider",
    }
}

/// Where pane state lives: `AIFO_CODER_FORK_STATE_BASE` unless blank, else
/// `<home>/.aifo-coder/state` (home `~` when unknown).
pub open spec fn state_base_spec(env: Option<Seq<char>>, home: Option<Seq<char>>) -> Seq<char> {
    match env {
        Some(v) => if trim_spec(v).len() > 0 {
            v
        } else {
            path_join_spec(path_join_spec(home.unwrap_or("~"@), ".aifo-coder"@), "state"@)
        },
        None => path_join_spec(path_join_spec(home.unwrap_or("~"@), ".aifo-coder"@), "state"@),
    }
}

pub fn state_base(env: &Option<String>, home: &Option<String>) -> (s: String)
    ensures
        s@ == state_base_spec(opt_string_view(*env), opt_string_view(*home)),
{
    match env {
        Some(v) => {
            let cs = str_chars(v.as_str());
            if trim(cs.as_slice()).len() > 0 {
                return v.clone();
            }
        },
        None => {},
    }
    let h: String = match home {
        Some(h) => h.clone(),
        None => "~".to_owned(),
    };
    let a = path_join(h.as_str(), ".aifo-coder");
    path_join(a.as_str(), "state")
}

/// The commit recorded as the session's base: the snapshot when one was made, else
/// what `git rev-parse --verify <base>` printed (when it succeeded and printed
/// something), else the `HEAD` commit found earlier.
pub open spec fn base_commit_spec(snapshot: Option<Seq<char>>, resolved: Option<Seq<char>>, head: Seq<char>) -> Seq<char> {
    match snapshot {
        Some(s) => s,
        None => match resolved {
            Some(r) => if r.len() > 0 {
                r
            } else {
                head
            },
            None => head,
        },
    }
}

pub fn base_commit_for_meta(snapshot: &Option<String>, resolved: &Option<String>, head: &str) -> (s: String)
    ensures
        s@ == base_commit_spec(opt_string_view(*snapshot), opt_string_view(*resolved), head@),
{
    match snapshot {
        Some(s) => s.clone(),
        None => match resolved {
            Some(r) => if !r.as_str().is_empty() {
                r.clone()
            } else {
                head.to_owned()
            },
            None => head.to_owned(),
        },
    }
}

/// The panes of a session: pane `i` (from 1) gets the i-th clone with its branch,
/// its state directory and its container name.
pub open spec fn panes_spec(
    agent: Seq<char>,
    sid: Seq<char>,
    state_base: Seq<char>,
    clones: Seq<(String, String)>,
) -> Seq<(nat, Seq<char>, Seq<char>, Seq<char>, Seq<char>)> {
    Seq::new(
        clones.len(),
        |k: int|
            (
                (k + 1) as nat,
                clones[k].0@,
                clones[k].1@,
                pane_state_dir_spec(state_base, sid, (k + 1) as nat),
                container_name_spec(agent, sid, (k + 1) as nat),
            ),
    )
}

pub open spec fn pane_view(p: Pane) -> (nat, Seq<char>, Seq<char>, Seq<char>, Seq<char>) {
    (p.index as nat, p.dir@, p.branch@, p.state_dir@, p.container_name@)
}

pub fn build_panes(agent: &str, sid: &str, state_base: &str, clones: &Vec<(String, String)>) -> (v: Vec<Pane>)
    requires
        clones@.len() < usize::MAX,
    ensures
        v@.map_values(|p: Pane| pane_view(p)) == panes_spec(agent@, sid@, state_base@, clones@),
{
    let mut v: Vec<Pane> = Vec::new();
    let mut k: usize = 0;
    while k < clones.len()
        invariant
            k <= clones@.len(),
            clones@.len() < usize::MAX,
            v@.map_values(|p: Pane| pane_view(p)) == panes_spec(agent@, sid@, state_base@, clones@).take(k as int),
        decreases clones@.len() - k,
    {
        let i = k + 1;
        let sd = pane_state_dir(state_base, sid, i);
        let cn = pane_container_name(agent, sid, i);
        let p = make_pane(i, clones[k].0.as_str(), clones[k].1.as_str(), sd.as_str(), cn.as_str());
        let ghost before = v@;
        let ghost pv = pane_view(p);
        assert(pv == panes_spec(agent@, sid@, state_base@, clones@)[k as int]);
        v.push(p);
        assert(v@ == before.push(p));
        assert(v@.map_values(|p: Pane| pane_view(p)) =~= before.map_values(|p: Pane| pane_view(p)).push(pv));
        assert(panes_spec(agent@, sid@, state_base@, clones@).take(k + 1) =~= panes_spec(agent@, sid@, state_base@, clones@).take(
            k as int,
        ).push(pv));
        k = k + 1;
    }
    assert(panes_spec(agent@, sid@, state_base@, clones@).take(clones@.len() as int) =~= panes_spec(
        agent@,
        sid@,
        state_base@,
        clones@,
    ));
    v
}

/// The lines of the summary header of a fork session.
pub open spec fn header_lines_spec(
    sid: Seq<char>,
    base_label: Seq<char>,
    base_ref: Seq<char>,
    session_dir: Seq<char>,
    panes: nat,
    snapshot: Option<Seq<char>>,
    include_dirty: bool,
    dissoc_note: bool,
    color: bool,
) -> Seq<Seq<char>> {
    let first = if color {
        "\\x1b[36;1maifo-coder:\\x1b[0m fork session \\x1b[32;1m"@ + sid + "\\x1b[0m on base \\x1b[34;1m"@ + base_label
            + "\\x1b[0m (\\x1b[34m"@ + base_ref + "\\x1b[0m)"@
    } else {
        "aifo-coder: fork session "@ + sid + " on base "@ + base_label + " ("@ + base_ref + ")"@
    };
    let created = if color {
        "created \\x1b[36;1m"@ + dec_spec(panes) + "\\x1b[0m clones under \\x1b[34;1m"@ + session_dir + "\\x1b[0m"@
    } else {
        "created "@ + dec_spec(panes) + " clones under "@ + session_dir
    };
    let snap: Seq<Seq<char>> = match snapshot {
        Some(s) => seq![
            if color {
                "\\x1b[32mincluded dirty working tree via snapshot "@ + s + "\\x1b[0m"@
            } else {
                "included dirty working tree via snapshot "@ + s
            },
        ],
        None => if include_dirty {
            seq![
                if color {
                    "\\x1b[33mwarning:\\x1b[0m requested --fork-include-dirty, but snapshot failed; dirty changes not included."@
                } else {
                    "warning: requested --fork-include-dirty, but snapshot failed; dirty changes not included."@
                },
            ]
        } else {
            seq![]
        },
    };
    let note: Seq<Seq<char>> = if dissoc_note {
        seq![
            if color {
                "\\x1b[90mnote: clones reference the base repo\\u{2019}s object store; avoid pruning base objects until done.\\x1b[0m"@
            } else {
                "note: clones reference the base repo\\u{2019}s object store; avoid pruning base objects until done."@
            },
        ]
    } else {
        seq![]
    };
    seq![first, seq![], created] + snap + note + seq![seq![]]
}

pub fn header_lines(
    sid: &str,
    base_label: &str,
    base_ref: &str,
    session_dir: &str,
    panes: usize,
    snapshot: Option<&str>,
    include_dirty: bool,
    dissoc_note: bool,
    color: bool,
) -> (v: Vec<String>)
    ensures
        strings_view(v@) == header_lines_spec(
            sid@,
            base_label@,
            base_ref@,
            session_dir@,
            panes as nat,
            crate::lock::opt_view(snapshot),
            include_dirty,
            dissoc_note,
            color,
        ),
{
    let mut v: Vec<String> = Vec::new();
    let mut first = String::new();
    if color {
        first.push_str("\\x1b[36;1maifo-coder:\\x1b[0m fork session \\x1b[32;1m");
        first.push_str(sid);
        first.push_str("\\x1b[0m on base \\x1b[34;1m");
        first.push_str(base_label);
        first.push_str("\\x1b[0m (\\x1b[34m");
        first.push_str(base_ref);
        first.push_str("\\x1b[0m)");
    } else {
        first.push_str("aifo-coder: fork session ");
        first.push_str(sid);
        first.push_str(" on base ");
        first.push_str(base_label);
        first.push_str(" (");
        first.push_str(base_ref);
        first.push_str(")");
    }
    crate::escape::push_string_item(&mut v, first);
    crate::escape::push_string_item(&mut v, String::new());
    let mut created = String::new();
    if color {
        created.push_str("created \\x1b[36;1m");
        created.push_str(usize_to_string(panes).as_str());
        created.push_str("\\x1b[0m clones under \\x1b[34;1m");
        created.push_str(session_dir);
        created.push_str("\\x1b[0m");
    } else {
        created.push_str("created ");
        created.push_str(usize_to_string(panes).as_str());
        created.push_str(" clones under ");
        created.push_str(session_dir);
    }
    crate::escape::push_string_item(&mut v, created);
    match snapshot {
        Some(s) => {
            let mut l = String::new();
            if color {
                l.push_str("\\x1b[32mincluded dirty working tree via snapshot ");
                l.push_str(s);
                l.push_str("\\x1b[0m");
            } else {
                l.push_str("included dirty working tree via snapshot ");
                l.push_str(s);
            }
            crate::escape::push_string_item(&mut v, l);
        },
        None => {
            if include_dirty {
                if color {
                    crate::escape::push_str_item(
                        &mut v,
                        "\\x1b[33mwarning:\\x1b[0m requested --fork-include-dirty, but snapshot failed; dirty changes not included.",
                    );
                } else {
                    crate::escape::push_str_item(
                        &mut v,
                        "warning: requested --fork-include-dirty, but snapshot failed; dirty changes not included.",
                    );
                }
            }
        },
    }
    if dissoc_note {
        if color {
            crate::escape::push_str_item(
                &mut v,
                "\\x1b[90mnote: clones reference the base repo\\u{2019}s object store; avoid pruning base objects until done.\\x1b[0m",
            );
        } else {
            crate::escape::push_str_item(
                &mut v,
                "note: clones reference the base repo\\u{2019}s object store; avoid pruning base objects until done.",
            );
        }
    }
    crate::escape::push_string_item(&mut v, String::new());
    proof {
        reveal_strlit("");
    }
    assert(strings_view(v@) =~= header_lines_spec(
        sid@,
        base_label@,
        base_ref@,
        session_dir@,
        panes as nat,
        crate::lock::opt_view(snapshot),
        include_dirty,
        dissoc_note,
        color,
    ));
    v
}

/// The block printed for one pane.
pub open spec fn pane_block_spec(p: (nat, Seq<char>, Seq<char>, Seq<char>, Seq<char>), color: bool) -> Seq<Seq<char>> {
    if color {
        seq![
            "[\x1b[36;1m"@ + dec_spec(p.0) + "\x1b[0m] folder=\x1b[34m"@ + p.1 + "\x1b[0m"@,
            "    branch=\x1b[32m"@ + p.2 + "\x1b[0m"@,
            "    state=\x1b[90m"@ + p.3 + "\x1b[0m"@,
            "    container=\x1b[35m"@ + p.4 + "\x1b[0m"@,
            seq![],
        ]
    } else {
        seq![
            "["@ + dec_spec(p.0) + "] folder="@ + p.1,
            "    branch="@ + p.2,
            "    state="@ + p.3,
            "    container="@ + p.4,
            seq![],
        ]
    }
}

pub fn pane_block(p: &Pane, color: bool) -> (v: Vec<String>)
    ensures
        strings_view(v@) == pane_block_spec(pane_view(*p), color),
{
    let idx = usize_to_string(p.index);
    let mut a = String::new();
    let mut b = String::new();
    let mut c = String::new();
    let mut d = String::new();
    if color {
        a.push_str("[\x1b[36;1m");
        a.push_str(idx.as_str());
        a.push_str("\x1b[0m] folder=\x1b[34m");
        a.push_str(p.dir.as_str());
        a.push_str("\x1b[0m");
        b.push_str("    branch=\x1b[32m");
        b.push_str(p.branch.as_str());
        b.push_str("\x1b[0m");
        c.push_str("    state=\x1b[90m");
        c.push_str(p.state_dir.as_str());
        c.push_str("\x1b[0m");
        d.push_str("    container=\x1b[35m");
        d.push_str(p.container_name.as_str());
        d.push_str("\x1b[0m");
    } else {
        a.push_str("[");
        a.push_str(idx.as_str());
        a.push_str("] folder=");
        a.push_str(p.dir.as_str());
        b.push_str("    branch=");
        b.push_str(p.branch.as_str());
        c.push_str("    state=");
        c.push_str(p.state_dir.as_str());
        d.push_str("    container=");
        d.push_str(p.container_name.as_str());
    }
    let v = vec![a, b, c, d, String::new()];
    proof {
        reveal_strlit("");
    }
    assert(strings_view(v@) =~= pane_block_spec(pane_view(*p), color));
    v
}

/// The guidance printed after a session: how to inspect the first pane (and, with
/// remote examples, fetch and merge it), then the merge commands.
pub open spec fn guidance_spec(
    repo_root: Seq<char>,
    sid: Seq<char>,
    base_label: Seq<char>,
    base_ref: Seq<char>,
    first: Option<(Seq<char>, Seq<char>)>,
    color_header: bool,
    remote_examples: bool,
    spacing: bool,
    windows: bool,
) -> Seq<Seq<char>> {
    let head = if color_header {
        "\x1b[1mTo inspect and merge changes, you can run:\x1b[0m"@
    } else {
        "To inspect and merge changes, you can run:"@
    };
    let q = |p: Seq<char>| "\""@ + p + "\""@;
    let inspect: Seq<Seq<char>> = match first {
        Some(f) => seq![
            "  git -C "@ + q(f.0) + " status"@,
            "  git -C "@ + q(f.0) + " log --oneline --decorate --graph -n 20"@,
        ] + if remote_examples {
            seq![
                "  git -C "@ + q(repo_root) + " remote add fork-"@ + sid + "-1 "@ + q(f.0) + "  # once"@,
                "  git -C "@ + q(repo_root) + " fetch fork-"@ + sid + "-1 "@ + f.1,
            ] + if base_label != "detached"@ {
                seq![
                    "  git -C "@ + q(repo_root) + " checkout "@ + base_ref,
                    "  git -C "@ + q(repo_root) + " merge --no-ff "@ + f.1,
                ]
            } else {
                seq![]
            }
        } else {
            seq![]
        },
        None => seq![],
    };
    let wrapper = if windows {
        "aifo-coder"@
    } else {
        "./aifo-coder"@
    };
    seq![head] + inspect + (if spacing {
        seq![seq![]]
    } else {
        seq![]
    }) + seq![
        "  "@ + wrapper + " fork merge --session "@ + sid + " --strategy fetch"@,
        "  "@ + wrapper + " fork merge --session "@ + sid + " --strategy octopus --autoclean"@,
    ]
}

fn quoted(p: &str) -> (s: String)
    ensures
        s@ == "\""@ + p@ + "\""@,
{
    let mut s = "\"".to_owned();
    s.push_str(p);
    s.push_str("\"");
    s
}

pub fn print_inspect_merge_guidance(
    repo_root: &str,
    sid: &str,
    base_label: &str,
    base_ref: &str,
    clones: &Vec<(String, String)>,
    color_header: bool,
    remote_examples: bool,
    spacing: bool,
    windows: bool,
) -> (v: Vec<String>)
    ensures
        strings_view(v@) == guidance_spec(
            repo_root@,
            sid@,
            base_label@,
            base_ref@,
            if clones@.len() > 0 {
                Some((clones@[0].0@, clones@[0].1@))
            } else {
                None
            },
            color_header,
            remote_examples,
            spacing,
            windows,
        ),
{
    let mut v: Vec<String> = Vec::new();
    if color_header {
        crate::escape::push_str_item(&mut v, "\x1b[1mTo inspect and merge changes, you can run:\x1b[0m");
    } else {
        crate::escape::push_str_item(&mut v, "To inspect and merge changes, you can run:");
    }
    if clones.len() > 0 {
        let fd = clones[0].0.as_str();
        let fb = clones[0].1.as_str();
        let mut a = "  git -C ".to_owned();
        a.push_str(quoted(fd).as_str());
        a.push_str(" status");
        crate::escape::push_string_item(&mut v, a);
        let mut b = "  git -C ".to_owned();
        b.push_str(quoted(fd).as_str());
        b.push_str(" log --oneline --decorate --graph -n 20");
        crate::escape::push_string_item(&mut v, b);
        if remote_examples {
            let mut c = "  git -C ".to_owned();
            c.push_str(quoted(repo_root).as_str());
            c.push_str(" remote add fork-");
            c.push_str(sid);
            c.push_str("-1 ");
            c.push_str(quoted(fd).as_str());
            c.push_str("  # once");
            crate::escape::push_string_item(&mut v, c);
            let mut d = "  git -C ".to_owned();
            d.push_str(quoted(repo_root).as_str());
            d.push_str(" fetch fork-");
            d.push_str(sid);
            d.push_str("-1 ");
            d.push_str(fb);
            crate::escape::push_string_item(&mut v, d);
            if !crate::text::str_eq(base_label, "detached") {
                let mut e = "  git -C ".to_owned();
                e.push_str(quoted(repo_root).as_str());
                e.push_str(" checkout ");
                e.push_str(base_ref);
                crate::escape::push_string_item(&mut v, e);
                let mut f = "  git -C ".to_owned();
                f.push_str(quoted(repo_root).as_str());
                f.push_str(" merge --no-ff ");
                f.push_str(fb);
                crate::escape::push_string_item(&mut v, f);
            }
        }
    }
    if spacing {
        crate::escape::push_string_item(&mut v, String::new());
    }
    let wrapper = if windows {
        "aifo-coder"
    } else {
        "./aifo-coder"
    };
    let mut m1 = "  ".to_owned();
    m1.push_str(wrapper);
    m1.push_str(" fork merge --session ");
    m1.push_str(sid);
    m1.push_str(" --strategy fetch");
    crate::escape::push_string_item(&mut v, m1);
    let mut m2 = "  ".to_owned();
    m2.push_str(wrapper);
    m2.push_str(" fork merge --session ");
    m2.push_str(sid);
    m2.push_str(" --strategy octopus --autoclean");
    crate::escape::push_string_item(&mut v, m2);
    proof {
        reveal_strlit("");
    }
    assert(strings_view(v@) =~= guidance_spec(
        repo_root@,
        sid@,
        base_label@,
        base_ref@,
        if clones@.len() > 0 {
            Some((clones@[0].0@, clones@[0].1@))
        } else {
            None
        },
        color_header,
        remote_examples,
        spacing,
        windows,
    ));
    v
}

/// The line announcing a post-fork merge.
pub fn applying_merge_line(strategy: MergingStrategy) -> (s: String)
    ensures
        s@ == "aifo-coder: applying post-fork merge strategy: "@ + strategy_name_spec(strategy),
{
    let mut s = "aifo-coder: applying post-fork merge strategy: ".to_owned();
    s.push_str(strategy_name(strategy));
    s
}

/// The line after a merge that completed.
pub fn merge_completed_line(strategy: MergingStrategy) -> (s: String)
    ensures
        s@ == "aifo-coder: merge strategy '"@ + strategy_name_spec(strategy) + "' completed."@,
{
    let mut s = "aifo-coder: merge strategy '".to_owned();
    s.push_str(strategy_name(strategy));
    s.push_str("' completed.");
    s
}

/// The line after a merge that failed.
pub fn merge_failed_line(strategy: MergingStrategy, err: &str) -> (s: String)
    ensures
        s@ == "aifo-coder: merge strategy '"@ + strategy_name_spec(strategy) + "' failed: "@ + err@,
{
    let mut s = "aifo-coder: merge strategy '".to_owned();
    s.push_str(strategy_name(strategy));
    s.push_str("' failed: ");
    s.push_str(err);
    s
}

/// Whether a successful merge is followed by disposing of the session: an octopus
/// merge with autoclean, not in a dry run.
pub open spec fn dispose_after_merge_spec(strategy: MergingStrategy, autoclean: bool, dry_run: bool) -> bool {
    strategy == MergingStrategy::Octopus && autoclean && !dry_run
}

pub fn dispose_after_merge(strategy: MergingStrategy, autoclean: bool, dry_run: bool) -> (b: bool)
    ensures
        b == dispose_after_merge_spec(strategy, autoclean, dry_run),
{
    match strategy {
        MergingStrategy::Octopus => autoclean && !dry_run,
        _ => false,
    }
}

/// The clean options used to dispose of a merged session: that session, forced,
/// confirmed, not a dry run.
pub fn dispose_clean_opts(sid: &str) -> (o: crate::fork_sessions::ForkCleanOpts)
    ensures
        o.session matches Some(s) && s@ == sid@,
        o.older_than_days is None,
        !o.all && !o.dry_run && o.yes && o.force && !o.keep_dirty && !o.json,
{
    crate::fork_sessions::ForkCleanOpts {
        session: Some(sid.to_owned()),
        older_than_days: None,
        all: false,
        dry_run: false,
        yes: true,
        force: true,
        keep_dirty: false,
        json: false,
    }
}

/// The notes printed when no waitable orchestrator can run the requested merge.
pub open spec fn no_wait_notes_spec(sid: Seq<char>, strategy: MergingStrategy) -> Seq<Seq<char>> {
    seq![
        "aifo-coder: note: no waitable orchestrator found; automatic post-fork merging ("@ + strategy_name_spec(strategy)
            + ") is unavailable."@,
        "aifo-coder: after you close all panes, run: aifo-coder fork merge --session "@ + sid + " --strategy "@
            + strategy_name_spec(strategy),
    ]
}

pub fn no_wait_notes(sid: &str, strategy: MergingStrategy) -> (v: Vec<String>)
    ensures
        strings_view(v@) == no_wait_notes_spec(sid@, strategy),
{
    let name = strategy_name(strategy);
    let mut a = "aifo-coder: note: no waitable orchestrator found; automatic post-fork merging (".to_owned();
    a.push_str(name);
    a.push_str(") is unavailable.");
    let mut b = "aifo-coder: after you close all panes, run: aifo-coder fork merge --session ".to_owned();
    b.push_str(sid);
    b.push_str(" --strategy ");
    b.push_str(name);
    let v = vec![a, b];
    assert(strings_view(v@) =~= no_wait_notes_spec(sid@, strategy));
    v
}

/// The closing line of a session: completed (tmux) or launched elsewhere.
pub open spec fn session_end_spec(sid: Seq<char>, launched_in: Seq<char>, color: bool) -> Seq<char> {
    if launched_in == "tmux"@ {
        if color {
            "\x1b[36;1maifo-coder:\x1b[0m fork session \x1b[32;1m"@ + sid + "\x1b[0m completed."@
        } else {
            "aifo-coder: fork session "@ + sid + " completed."@
        }
    } else {
        "aifo-coder: fork session "@ + sid + " launched ("@ + launched_in + ")."@
    }
}

pub fn session_end_line(sid: &str, launched_in: &str, color: bool) -> (s: String)
    ensures
        s@ == session_end_spec(sid@, launched_in@, color),
{
    let mut s = String::new();
    if crate::text::str_eq(launched_in, "tmux") {
        if color {
            s.push_str("\x1b[36;1maifo-coder:\x1b[0m fork session \x1b[32;1m");
            s.push_str(sid);
            s.push_str("\x1b[0m completed.");
        } else {
            s.push_str("aifo-coder: fork session ");
            s.push_str(sid);
            s.push_str(" completed.");
        }
    } else {
        s.push_str("aifo-coder: fork session ");
        s.push_str(sid);
        s.push_str(" launched (");
        s.push_str(launched_in);
        s.push_str(").");
    }
    s
}

/// A working tree counts as dirty when `git status --porcelain` ran and printed
/// something besides blanks.
pub open spec fn tree_dirty_spec(porcelain: Option<Seq<char>>) -> bool {
    porcelain is Some && trim_spec(porcelain.unwrap()).len() > 0
}

pub fn tree_dirty(porcelain: &Option<String>) -> (b: bool)
    ensures
        b == tree_dirty_spec(opt_string_view(*porcelain)),
{
    match porcelain {
        Some(p) => {
            let cs = str_chars(p.as_str());
            trim(cs.as_slice()).len() > 0
        },
        None => false,
    }
}

/// What is printed after a failed launch: the panes were removed, or they stay for
/// recovery (with, when asked, an example of how to recover the first pane).
pub open spec fn cleanup_lines_spec(
    repo_root: Seq<char>,
    sid: Seq<char>,
    session_dir: Seq<char>,
    keep_on_failure: bool,
    first: Option<(Seq<char>, Seq<char>)>,
    print_recovery_example: bool,
) -> Seq<Seq<char>> {
    if !keep_on_failure {
        seq!["Removed all created pane directories under "@ + session_dir + "."@]
    } else {
        seq!["Clones remain under "@ + session_dir + " for recovery."@] + match first {
            Some(f) => if print_recovery_example {
                seq![
                    "Example recovery:"@,
                    "  git -C \""@ + f.0 + "\" status"@,
                    "  git -C \""@ + f.0 + "\" log --oneline --decorate -n 20"@,
                    "  git -C \""@ + repo_root + "\" remote add fork-"@ + sid + "-1 \""@ + f.0 + "\""@,
                    "  git -C \""@ + repo_root + "\" fetch fork-"@ + sid + "-1 "@ + f.1,
                ]
            } else {
                seq![]
            },
            None => seq![],
        }
    }
}

/// The lines `cleanup_and_update_meta` prints; the caller removes the pane
/// directories first when they are not kept.
pub fn cleanup_and_update_meta(
    repo_root: &str,
    sid: &str,
    session_dir: &str,
    keep_on_failure: bool,
    first: Option<(&str, &str)>,
    print_recovery_example: bool,
) -> (v: Vec<String>)
    ensures
        strings_view(v@) == cleanup_lines_spec(
            repo_root@,
            sid@,
            session_dir@,
            keep_on_failure,
            match first {
                Some(f) => Some((f.0@, f.1@)),
                None => None,
            },
            print_recovery_example,
        ),
{
    if !keep_on_failure {
        let mut m = "Removed all created pane directories under ".to_owned();
        m.push_str(session_dir);
        m.push_str(".");
        let v = vec![m];
        assert(strings_view(v@) =~= seq!["Removed all created pane directories under "@ + session_dir@ + "."@]);
        return v;
    }
    let mut m = "Clones remain under ".to_owned();
    m.push_str(session_dir);
    m.push_str(" for recovery.");
    let mut v = vec![m];
    let ghost head = strings_view(v@);
    match first {
        Some((dir, branch)) => {
            if print_recovery_example {
                crate::escape::push_str_item(&mut v, "Example recovery:");
                let mut a = "  git -C \"".to_owned();
                a.push_str(dir);
                a.push_str("\" status");
                crate::escape::push_string_item(&mut v, a);
                let mut b = "  git -C \"".to_owned();
                b.push_str(dir);
                b.push_str("\" log --oneline --decorate -n 20");
                crate::escape::push_string_item(&mut v, b);
                let mut c = "  git -C \"".to_owned();
                c.push_str(repo_root);
                c.push_str("\" remote add fork-");
                c.push_str(sid);
                c.push_str("-1 \"");
                c.push_str(dir);
                c.push_str("\"");
                crate::escape::push_string_item(&mut v, c);
                let mut d = "  git -C \"".to_owned();
                d.push_str(repo_root);
                d.push_str("\" fetch fork-");
                d.push_str(sid);
                d.push_str("-1 ");
                d.push_str(branch);
                crate::escape::push_string_item(&mut v, d);
            }
        },
        None => {},
    }
    assert(strings_view(v@) =~= cleanup_lines_spec(
        repo_root@,
        sid@,
        session_dir@,
        keep_on_failure,
        match first {
            Some(f) => Some((f.0@, f.1@)),
            None => None,
        },
        print_recovery_example,
    ));
    v
}

} // verus!
