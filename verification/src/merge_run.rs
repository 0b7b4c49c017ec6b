//! The post-fork merge as a sequence of decisions: fetch each pane branch, then
//! for the octopus strategy check the working tree, check out `merge/<sid>`, write
//! the message, merge, record the result and delete the merged branches. The caller
//! performs each action and answers with what came of it.
use vstd::prelude::*;

use crate::escape::{shell_join, shell_join_spec, strings_view};
use crate::merge::{
    branch_delete_args, branch_delete_args_spec, checkout_args, checkout_args_spec, failed_fields_spec,
    failed_meta_fields, fetch_args, fetch_args_spec, fetch_fields_spec, fetch_meta_fields, merge_args,
    merge_args_spec, octopus_fields_spec, octopus_meta_fields, opt_pair_view, status_output_ok,
    worktree_dirty, worktree_dirty_spec,
};
use crate::strategy::MergingStrategy;

verus! {

/// The fixed inputs of one merge.
pub struct MergeConfig {
    pub repo: String,
    pub sid: String,
    /// (pane directory, branch) of each pane to merge, in order.
    pub panes: Vec<(String, String)>,
    pub base: String,
    pub strategy: MergingStrategy,
    pub verbose: bool,
    pub dry_run: bool,
    /// Where the octopus merge message is written.
    pub msg_file: String,
}

/// What the merge waits for.
pub enum MergeState {
    Start,
    /// The fetch of pane `i`.
    Fetching(usize),
    CheckingTree,
    CheckingOut,
    Composing,
    WritingMessage,
    /// The octopus merge; whether the message file was written.
    Merging(bool),
    ReadingHead,
    Finished,
}

/// What the caller answers.
pub enum MergeEvent {
    Started,
    /// The last action only logged (a dry run): go on.
    Continue,
    /// A git command ended, successfully or not.
    GitRan(bool),
    /// `git status --porcelain=v1 -uall` in the repository: whether it succeeded and
    /// its output, `None` when it could not be run.
    TreeStatus(Option<(bool, String)>),
    /// The octopus merge message.
    Composed(String),
    /// Whether the message file was written.
    MessageWritten(bool),
    /// The commit now at `HEAD` (empty when not asked or unknown) and the time in
    /// seconds since the epoch.
    Head(String, u64),
}

/// One thing to do. Only the last action of a step is answered.
pub enum MergeAction {
    /// Print a line on stderr.
    Log(String),
    /// Run git with these arguments (the first is `git`), output discarded when
    /// `quiet`; answered with `GitRan`.
    Git(Vec<String>, bool),
    /// Run git, ignoring how it ends.
    GitBestEffort(Vec<String>, bool),
    /// Run the status of the repository; answered with `TreeStatus`.
    CheckTree,
    /// Compose the octopus merge message; answered with `Composed`.
    Compose,
    /// Write the message to the file; answered with `MessageWritten`.
    WriteMessage(String, String),
    /// Remove the message file, ignoring errors.
    RemoveFile(String),
    /// Append these fields to the session metadata.
    AppendMeta(String),
    /// Read `HEAD` (only when asked) and the clock; answered with `Head`.
    ReadHead(bool),
    Succeed,
    Fail(String),
}

pub struct MergeStep {
    pub state: MergeState,
    pub actions: Vec<MergeAction>,
}

pub enum MergeStateView {
    Start,
    Fetching(nat),
    CheckingTree,
    CheckingOut,
    Composing,
    WritingMessage,
    Merging(bool),
    ReadingHead,
    Finished,
}

pub enum MergeEventView {
    Started,
    Continue,
    GitRan(bool),
    TreeStatus(Option<(bool, Seq<char>)>),
    Composed(Seq<char>),
    MessageWritten(bool),
    Head(Seq<char>, u64),
}

pub enum MergeActionView {
    Log(Seq<char>),
    Git(Seq<Seq<char>>, bool),
    GitBestEffort(Seq<Seq<char>>, bool),
    CheckTree,
    Compose,
    WriteMessage(Seq<char>, Seq<char>),
    RemoveFile(Seq<char>),
    AppendMeta(Seq<char>),
    ReadHead(bool),
    Succeed,
    Fail(Seq<char>),
}

pub struct MergeConfigView {
    pub repo: Seq<char>,
    pub sid: Seq<char>,
    pub panes: Seq<(Seq<char>, Seq<char>)>,
    pub base: Seq<char>,
    pub strategy: MergingStrategy,
    pub verbose: bool,
    pub dry_run: bool,
    pub msg_file: Seq<char>,
}

pub open spec fn merge_config_view(c: MergeConfig) -> MergeConfigView {
    MergeConfigView {
        repo: c.repo@,
        sid: c.sid@,
        panes: c.panes@.map_values(|p: (String, String)| (p.0@, p.1@)),
        base: c.base@,
        strategy: c.strategy,
        verbose: c.verbose,
        dry_run: c.dry_run,
        msg_file: c.msg_file@,
    }
}

pub open spec fn merge_state_view(s: MergeState) -> MergeStateView {
    match s {
        MergeState::Start => MergeStateView::Start,
        MergeState::Fetching(i) => MergeStateView::Fetching(i as nat),
        MergeState::CheckingTree => MergeStateView::CheckingTree,
        MergeState::CheckingOut => MergeStateView::CheckingOut,
        MergeState::Composing => MergeStateView::Composing,
        MergeState::WritingMessage => MergeStateView::WritingMessage,
        MergeState::Merging(w) => MergeStateView::Merging(w),
        MergeState::ReadingHead => MergeStateView::ReadingHead,
        MergeState::Finished => MergeStateView::Finished,
    }
}

pub open spec fn merge_event_view(e: MergeEvent) -> MergeEventView {
    match e {
        MergeEvent::Started => MergeEventView::Started,
        MergeEvent::Continue => MergeEventView::Continue,
        MergeEvent::GitRan(ok) => MergeEventView::GitRan(ok),
        MergeEvent::TreeStatus(st) => MergeEventView::TreeStatus(opt_pair_view(st)),
        MergeEvent::Composed(m) => MergeEventView::Composed(m@),
        MergeEvent::MessageWritten(ok) => MergeEventView::MessageWritten(ok),
        MergeEvent::Head(sha, now) => MergeEventView::Head(sha@, now),
    }
}

pub open spec fn merge_action_view(a: MergeAction) -> MergeActionView {
    match a {
        MergeAction::Log(s) => MergeActionView::Log(s@),
        MergeAction::Git(v, q) => MergeActionView::Git(strings_view(v@), q),
        MergeAction::GitBestEffort(v, q) => MergeActionView::GitBestEffort(strings_view(v@), q),
        MergeAction::CheckTree => MergeActionView::CheckTree,
        MergeAction::Compose => MergeActionView::Compose,
        MergeAction::WriteMessage(p, m) => MergeActionView::WriteMessage(p@, m@),
        MergeAction::RemoveFile(p) => MergeActionView::RemoveFile(p@),
        MergeAction::AppendMeta(f) => MergeActionView::AppendMeta(f@),
        MergeAction::ReadHead(b) => MergeActionView::ReadHead(b),
        MergeAction::Succeed => MergeActionView::Succeed,
        MergeAction::Fail(m) => MergeActionView::Fail(m@),
    }
}

pub open spec fn merge_actions_view(v: Seq<MergeAction>) -> Seq<MergeActionView> {
    v.map_values(|a: MergeAction| merge_action_view(a))
}

/// The branch names of the panes, in order.
pub open spec fn branches_of(panes: Seq<(Seq<char>, Seq<char>)>) -> Seq<Seq<char>> {
    panes.map_values(|p: (Seq<char>, Seq<char>)| p.1)
}

/// `aifo-coder: git: <command line>`.
pub open spec fn git_log_line(args: Seq<Seq<char>>) -> Seq<char> {
    "aifo-coder: git: "@ + shell_join_spec(args)
}

/// A git command: shown when verbose or in a dry run, run unless in a dry run.
pub open spec fn git_command(c: MergeConfigView, args: Seq<Seq<char>>, quiet: bool) -> Seq<MergeActionView> {
    (if c.verbose || c.dry_run {
        seq![MergeActionView::Log(git_log_line(args))]
    } else {
        seq![]
    }) + if c.dry_run {
        seq![]
    } else {
        seq![MergeActionView::Git(args, quiet)]
    }
}

/// The step that fetches pane `i`, or what follows the last fetch.
pub open spec fn fetch_from(c: MergeConfigView, i: nat) -> (MergeStateView, Seq<MergeActionView>) {
    if i < c.panes.len() {
        (
            MergeStateView::Fetching(i),
            git_command(c, fetch_args_spec(c.repo, c.panes[i as int].0, c.panes[i as int].1), !c.verbose),
        )
    } else if c.strategy == MergingStrategy::Fetch {
        (
            MergeStateView::Finished,
            seq![MergeActionView::AppendMeta(fetch_fields_spec(branches_of(c.panes))), MergeActionView::Succeed],
        )
    } else {
        (MergeStateView::CheckingTree, seq![MergeActionView::CheckTree])
    }
}

pub open spec fn fetch_failed_message(pane: Seq<char>, branch: Seq<char>) -> Seq<char> {
    "git fetch failed for pane "@ + pane + " (branch "@ + branch + ")"@
}

pub open spec fn dirty_tree_message() -> Seq<char> {
    "octopus merge requires a clean working tree in the original repository"@
}

pub open spec fn checkout_failed_message() -> Seq<char> {
    "failed to checkout merge target branch"@
}

pub open spec fn octopus_failed_message() -> Seq<char> {
    "octopus merge failed (conflicts likely). Resolve manually and retry."@
}

pub open spec fn preparing_message(file: Seq<char>) -> Seq<char> {
    "aifo-coder: preparing octopus merge message at "@ + file
}

pub open spec fn write_warning() -> Seq<char> {
    "aifo-coder: warning: failed to write merge message file; falling back to default message"@
}

/// The merge command after the message file was (or, in a dry run, would be) written.
pub open spec fn merge_from(c: MergeConfigView, written: bool) -> (MergeStateView, Seq<MergeActionView>) {
    let args = merge_args_spec(
        c.repo,
        if written || c.dry_run {
            Some(c.msg_file)
        } else {
            None
        },
        branches_of(c.panes),
    );
    (
        MergeStateView::Merging(written && !c.dry_run),
        (if !c.dry_run && !written && c.verbose {
            seq![MergeActionView::Log(write_warning())]
        } else {
            seq![]
        }) + git_command(c, args, false),
    )
}

/// The transition of a post-fork merge (see the module documentation).
pub open spec fn merge_step_spec(c: MergeConfigView, st: MergeStateView, ev: MergeEventView) -> (
    MergeStateView,
    Seq<MergeActionView>,
) {
    match st {
        MergeStateView::Start => if c.strategy == MergingStrategy::NoMerge {
            (MergeStateView::Finished, seq![MergeActionView::Succeed])
        } else {
            fetch_from(c, 0)
        },
        MergeStateView::Fetching(i) => match ev {
            MergeEventView::GitRan(false) => (
                MergeStateView::Finished,
                seq![MergeActionView::Fail(fetch_failed_message(c.panes[i as int].0, c.panes[i as int].1))],
            ),
            _ => fetch_from(c, i + 1),
        },
        MergeStateView::CheckingTree => match ev {
            MergeEventView::TreeStatus(s) => if worktree_dirty_spec(s) {
                (MergeStateView::Finished, seq![MergeActionView::Fail(dirty_tree_message())])
            } else {
                (MergeStateView::CheckingOut, git_command(c, checkout_args_spec(c.repo, c.sid, c.base), false))
            },
            _ => (MergeStateView::Finished, seq![]),
        },
        MergeStateView::CheckingOut => match ev {
            MergeEventView::GitRan(false) => (
                MergeStateView::Finished,
                seq![MergeActionView::Fail(checkout_failed_message())],
            ),
            _ => (MergeStateView::Composing, seq![MergeActionView::Compose]),
        },
        MergeStateView::Composing => match ev {
            MergeEventView::Composed(m) => (
                MergeStateView::WritingMessage,
                (if c.verbose {
                    seq![MergeActionView::Log(preparing_message(c.msg_file))]
                } else {
                    seq![]
                }) + if c.dry_run {
                    seq![]
                } else {
                    seq![MergeActionView::WriteMessage(c.msg_file, m)]
                },
            ),
            _ => (MergeStateView::Finished, seq![]),
        },
        MergeStateView::WritingMessage => match ev {
            MergeEventView::MessageWritten(ok) => merge_from(c, ok),
            _ => merge_from(c, false),
        },
        MergeStateView::Merging(written) => {
            let cleanup = if written {
                seq![MergeActionView::RemoveFile(c.msg_file)]
            } else {
                seq![]
            };
            match ev {
                MergeEventView::GitRan(false) => (
                    MergeStateView::Finished,
                    cleanup + seq![
                        MergeActionView::AppendMeta(failed_fields_spec(branches_of(c.panes))),
                        MergeActionView::Fail(octopus_failed_message()),
                    ],
                ),
                _ => (MergeStateView::ReadingHead, cleanup + seq![MergeActionView::ReadHead(!c.dry_run)]),
            }
        },
        MergeStateView::ReadingHead => match ev {
            MergeEventView::Head(sha, now) => {
                let del = branch_delete_args_spec(c.repo, branches_of(c.panes));
                (
                    MergeStateView::Finished,
                    seq![MergeActionView::AppendMeta(octopus_fields_spec(branches_of(c.panes), c.sid, sha, now))]
                        + (if !c.dry_run {
                        seq![MergeActionView::GitBestEffort(del, !c.verbose)]
                    } else if c.verbose {
                        seq![MergeActionView::Log(git_log_line(del))]
                    } else {
                        seq![]
                    }) + seq![MergeActionView::Succeed],
                )
            },
            _ => (MergeStateView::Finished, seq![]),
        },
        MergeStateView::Finished => (MergeStateView::Finished, seq![]),
    }
}

/// The event answers what the state waits for; a status is given in a form whose
/// lines can be read.
pub open spec fn merge_event_fits(c: MergeConfigView, st: MergeStateView, ev: MergeEventView) -> bool {
    match st {
        MergeStateView::Start => ev is Started,
        MergeStateView::Fetching(i) => i < c.panes.len() && (ev is GitRan || (c.dry_run && ev is Continue)),
        MergeStateView::CheckingTree => ev matches MergeEventView::TreeStatus(s) && status_output_ok(s),
        MergeStateView::CheckingOut => ev is GitRan || (c.dry_run && ev is Continue),
        MergeStateView::Composing => ev is Composed,
        MergeStateView::WritingMessage => ev is MessageWritten || (c.dry_run && ev is Continue),
        MergeStateView::Merging(_) => ev is GitRan || (c.dry_run && ev is Continue),
        MergeStateView::ReadingHead => ev is Head,
        MergeStateView::Finished => false,
    }
}

/// An action that changes the repository or the file system beyond the metadata.
pub open spec fn touches_repository(a: MergeActionView) -> bool {
    a is Git || a is GitBestEffort || a is WriteMessage || a is RemoveFile
}

/// A dry run only prints: no step of it runs git, writes or removes the message
/// file; at most the session metadata is updated.
pub proof fn lemma_dry_run_only_prints(c: MergeConfigView, st: MergeStateView, ev: MergeEventView)
    requires
        c.dry_run,
        !(st is Merging) || st == MergeStateView::Merging(false),
    ensures
        forall|k: int| 0 <= k < merge_step_spec(c, st, ev).1.len() ==> !touches_repository(
            #[trigger] merge_step_spec(c, st, ev).1[k],
        ),
{
    let r = merge_step_spec(c, st, ev);
    assert forall|k: int| 0 <= k < r.1.len() implies !touches_repository(#[trigger] r.1[k]) by {
        match st {
            MergeStateView::WritingMessage => {
                let m = merge_from(c, match ev {
                    MergeEventView::MessageWritten(ok) => ok,
                    _ => false,
                });
                assert(r == m);
            },
            _ => {},
        }
    }
}

fn push_action(v: &mut Vec<MergeAction>, a: MergeAction)
    ensures
        merge_actions_view(final(v)@) == merge_actions_view(old(v)@).push(merge_action_view(a)),
{
    let ghost av = merge_action_view(a);
    v.push(a);
    assert(merge_actions_view(v@) =~= merge_actions_view(old(v)@).push(av));
}

fn branch_names(panes: &Vec<(String, String)>) -> (v: Vec<String>)
    ensures
        strings_view(v@) == branches_of(panes@.map_values(|p: (String, String)| (p.0@, p.1@))),
{
    let ghost pv = panes@.map_values(|p: (String, String)| (p.0@, p.1@));
    let mut v: Vec<String> = Vec::new();
    let mut i: usize = 0;
    while i < panes.len()
        invariant
            i <= panes@.len(),
            pv == panes@.map_values(|p: (String, String)| (p.0@, p.1@)),
            strings_view(v@) == branches_of(pv.take(i as int)),
        decreases panes@.len() - i,
    {
        let b = panes[i].1.clone();
        let ghost before = v@;
        v.push(b);
        assert(pv[i as int] == (panes@[i as int].0@, panes@[i as int].1@));
        assert(pv.take(i + 1) =~= pv.take(i as int).push(pv[i as int]));
        assert(strings_view(before.push(b)) =~= strings_view(before).push(b@));
        assert(branches_of(pv.take(i as int).push(pv[i as int])) =~= branches_of(pv.take(i as int)).push(pv[i as int].1));
        assert(strings_view(v@) =~= branches_of(pv.take(i + 1)));
        i = i + 1;
    }
    assert(pv.take(panes@.len() as int) =~= pv);
    v
}

fn log_git(v: &mut Vec<MergeAction>, args: &Vec<String>)
    ensures
        merge_actions_view(final(v)@) == merge_actions_view(old(v)@).push(
            MergeActionView::Log(git_log_line(strings_view(args@))),
        ),
{
    let mut line = "aifo-coder: git: ".to_owned();
    line.push_str(shell_join(args.as_slice()).as_str());
    push_action(v, MergeAction::Log(line));
}

fn git_command_exec(c: &MergeConfig, args: Vec<String>, quiet: bool, v: &mut Vec<MergeAction>)
    ensures
        merge_actions_view(final(v)@) == merge_actions_view(old(v)@) + git_command(
            merge_config_view(*c),
            strings_view(args@),
            quiet,
        ),
{
    let ghost a = strings_view(args@);
    let ghost start = merge_actions_view(v@);
    if c.verbose || c.dry_run {
        log_git(v, &args);
    }
    let ghost mid = merge_actions_view(v@);
    if !c.dry_run {
        push_action(v, MergeAction::Git(args, quiet));
    }
    assert(merge_actions_view(v@) =~= start + git_command(merge_config_view(*c), a, quiet));
}

fn fetch_from_exec(c: &MergeConfig, i: usize) -> (r: MergeStep)
    requires
        i <= c.panes@.len(),
    ensures
        (merge_state_view(r.state), merge_actions_view(r.actions@)) == fetch_from(merge_config_view(*c), i as nat),
{
    let ghost cv = merge_config_view(*c);
    let mut v: Vec<MergeAction> = Vec::new();
    if i < c.panes.len() {
        assert(cv.panes[i as int] == (c.panes@[i as int].0@, c.panes@[i as int].1@));
        let args = fetch_args(c.repo.as_str(), c.panes[i].0.as_str(), c.panes[i].1.as_str());
        git_command_exec(c, args, !c.verbose, &mut v);
        assert(merge_actions_view(v@) =~= git_command(
            cv,
            fetch_args_spec(cv.repo, cv.panes[i as int].0, cv.panes[i as int].1),
            !c.verbose,
        ));
        return MergeStep { state: MergeState::Fetching(i), actions: v };
    }
    if c.strategy == MergingStrategy::Fetch {
        let names = branch_names(&c.panes);
        push_action(&mut v, MergeAction::AppendMeta(fetch_meta_fields(&names)));
        push_action(&mut v, MergeAction::Succeed);
        assert(merge_actions_view(v@) =~= seq![
            MergeActionView::AppendMeta(fetch_fields_spec(branches_of(cv.panes))),
            MergeActionView::Succeed,
        ]);
        return MergeStep { state: MergeState::Finished, actions: v };
    }
    push_action(&mut v, MergeAction::CheckTree);
    assert(merge_actions_view(v@) =~= seq![MergeActionView::CheckTree]);
    MergeStep { state: MergeState::CheckingTree, actions: v }
}

fn merge_from_exec(c: &MergeConfig, written: bool) -> (r: MergeStep)
    ensures
        (merge_state_view(r.state), merge_actions_view(r.actions@)) == merge_from(merge_config_view(*c), written),
{
    let ghost cv = merge_config_view(*c);
    let mut v: Vec<MergeAction> = Vec::new();
    if !c.dry_run && !written && c.verbose {
        push_action(
            &mut v,
            MergeAction::Log(
                "aifo-coder: warning: failed to write merge message file; falling back to default message".to_owned(),
            ),
        );
    }
    let ghost pre = merge_actions_view(v@);
    let names = branch_names(&c.panes);
    let file = if written || c.dry_run {
        Some(c.msg_file.as_str())
    } else {
        None
    };
    let args = merge_args(c.repo.as_str(), file, &names);
    let ghost a = strings_view(args@);
    assert(a == merge_args_spec(
        cv.repo,
        if written || cv.dry_run {
            Some(cv.msg_file)
        } else {
            None
        },
        branches_of(cv.panes),
    ));
    git_command_exec(c, args, false, &mut v);
    assert(merge_actions_view(v@) =~= (if !c.dry_run && !written && c.verbose {
        seq![MergeActionView::Log(write_warning())]
    } else {
        seq![]
    }) + git_command(cv, a, false));
    MergeStep { state: MergeState::Merging(written && !c.dry_run), actions: v }
}

fn finish_with(a: MergeAction) -> (r: MergeStep)
    ensures
        merge_state_view(r.state) == MergeStateView::Finished,
        merge_actions_view(r.actions@) == seq![merge_action_view(a)],
{
    let mut v: Vec<MergeAction> = Vec::new();
    push_action(&mut v, a);
    assert(merge_actions_view(v@) =~= seq![merge_action_view(a)]);
    MergeStep { state: MergeState::Finished, actions: v }
}

/// One step of merging the pane branches of a fork session back into the
/// original repository with the chosen strategy (see `merge_step_spec`).
pub fn fork_merge_branches(c: &MergeConfig, state: &MergeState, event: &MergeEvent) -> (r: MergeStep)
    requires
        merge_event_fits(merge_config_view(*c), merge_state_view(*state), merge_event_view(*event)),
    ensures
        (merge_state_view(r.state), merge_actions_view(r.actions@)) == merge_step_spec(
            merge_config_view(*c),
            merge_state_view(*state),
            merge_event_view(*event),
        ),
{
    let ghost cv = merge_config_view(*c);
    match state {
        MergeState::Start => {
            if c.strategy == MergingStrategy::NoMerge {
                finish_with(MergeAction::Succeed)
            } else {
                fetch_from_exec(c, 0)
            }
        },
        MergeState::Fetching(i) => {
            let i = *i;
            assert(cv.panes.len() == c.panes@.len());
            assert(merge_state_view(*state) == MergeStateView::Fetching(i as nat));
            assert(i < c.panes@.len());
            let n = c.panes.len();
            match event {
                MergeEvent::GitRan(false) => {
                    assert(cv.panes[i as int] == (c.panes@[i as int].0@, c.panes@[i as int].1@));
                    let mut m = "git fetch failed for pane ".to_owned();
                    m.push_str(c.panes[i].0.as_str());
                    m.push_str(" (branch ");
                    m.push_str(c.panes[i].1.as_str());
                    m.push_str(")");
                    finish_with(MergeAction::Fail(m))
                },
                _ => fetch_from_exec(c, i + 1),
            }
        },
        MergeState::CheckingTree => {
            match event {
                MergeEvent::TreeStatus(s) => {
                    if worktree_dirty(s) {
                        finish_with(
                            MergeAction::Fail(
                                "octopus merge requires a clean working tree in the original repository".to_owned(),
                            ),
                        )
                    } else {
                        let mut v: Vec<MergeAction> = Vec::new();
                        let args = checkout_args(c.repo.as_str(), c.sid.as_str(), c.base.as_str());
                        git_command_exec(c, args, false, &mut v);
                        assert(merge_actions_view(v@) =~= git_command(
                            cv,
                            checkout_args_spec(cv.repo, cv.sid, cv.base),
                            false,
                        ));
                        MergeStep { state: MergeState::CheckingOut, actions: v }
                    }
                },
                _ => MergeStep { state: MergeState::Finished, actions: Vec::new() },
            }
        },
        MergeState::CheckingOut => {
            match event {
                MergeEvent::GitRan(false) => finish_with(
                    MergeAction::Fail("failed to checkout merge target branch".to_owned()),
                ),
                _ => {
                    let mut v: Vec<MergeAction> = Vec::new();
                    push_action(&mut v, MergeAction::Compose);
                    assert(merge_actions_view(v@) =~= seq![MergeActionView::Compose]);
                    MergeStep { state: MergeState::Composing, actions: v }
                },
            }
        },
        MergeState::Composing => {
            match event {
                MergeEvent::Composed(m) => {
                    let mut v: Vec<MergeAction> = Vec::new();
                    if c.verbose {
                        let mut line = "aifo-coder: preparing octopus merge message at ".to_owned();
                        line.push_str(c.msg_file.as_str());
                        push_action(&mut v, MergeAction::Log(line));
                    }
                    if !c.dry_run {
                        push_action(&mut v, MergeAction::WriteMessage(c.msg_file.clone(), m.clone()));
                    }
                    assert(merge_actions_view(v@) =~= (if c.verbose {
                        seq![MergeActionView::Log(preparing_message(cv.msg_file))]
                    } else {
                        seq![]
                    }) + if c.dry_run {
                        seq![]
                    } else {
                        seq![MergeActionView::WriteMessage(cv.msg_file, m@)]
                    });
                    MergeStep { state: MergeState::WritingMessage, actions: v }
                },
                _ => MergeStep { state: MergeState::Finished, actions: Vec::new() },
            }
        },
        MergeState::WritingMessage => {
            match event {
                MergeEvent::MessageWritten(ok) => merge_from_exec(c, *ok),
                _ => merge_from_exec(c, false),
            }
        },
        MergeState::Merging(written) => {
            let written = *written;
            let mut v: Vec<MergeAction> = Vec::new();
            if written {
                push_action(&mut v, MergeAction::RemoveFile(c.msg_file.clone()));
            }
            let ghost cleanup = merge_actions_view(v@);
            match event {
                MergeEvent::GitRan(false) => {
                    let names = branch_names(&c.panes);
                    push_action(&mut v, MergeAction::AppendMeta(failed_meta_fields(&names)));
                    push_action(
                        &mut v,
                        MergeAction::Fail(
                            "octopus merge failed (conflicts likely). Resolve manually and retry.".to_owned(),
                        ),
                    );
                    assert(merge_actions_view(v@) =~= cleanup + seq![
                        MergeActionView::AppendMeta(failed_fields_spec(branches_of(cv.panes))),
                        MergeActionView::Fail(octopus_failed_message()),
                    ]);
                    MergeStep { state: MergeState::Finished, actions: v }
                },
                _ => {
                    push_action(&mut v, MergeAction::ReadHead(!c.dry_run));
                    assert(merge_actions_view(v@) =~= cleanup + seq![MergeActionView::ReadHead(!cv.dry_run)]);
                    MergeStep { state: MergeState::ReadingHead, actions: v }
                },
            }
        },
        MergeState::ReadingHead => {
            match event {
                MergeEvent::Head(sha, now) => {
                    let names = branch_names(&c.panes);
                    let mut v: Vec<MergeAction> = Vec::new();
                    push_action(
                        &mut v,
                        MergeAction::AppendMeta(octopus_meta_fields(&names, c.sid.as_str(), sha.as_str(), *now)),
                    );
                    let ghost first = merge_actions_view(v@);
                    let del = branch_delete_args(c.repo.as_str(), &names);
                    let ghost dv = strings_view(del@);
                    if !c.dry_run {
                        push_action(&mut v, MergeAction::GitBestEffort(del, !c.verbose));
                    } else if c.verbose {
                        log_git(&mut v, &del);
                    }
                    push_action(&mut v, MergeAction::Succeed);
                    assert(merge_actions_view(v@) =~= first + (if !cv.dry_run {
                        seq![MergeActionView::GitBestEffort(dv, !cv.verbose)]
                    } else if cv.verbose {
                        seq![MergeActionView::Log(git_log_line(dv))]
                    } else {
                        seq![]
                    }) + seq![MergeActionView::Succeed]);
                    MergeStep { state: MergeState::Finished, actions: v }
                },
                _ => MergeStep { state: MergeState::Finished, actions: Vec::new() },
            }
        },
        MergeState::Finished => MergeStep { state: MergeState::Finished, actions: Vec::new() },
    }
}

/// The panes of a session to merge: each pane directory whose current branch (as
/// git reported it, trimmed) is usable, with that branch.
pub open spec fn session_panes_spec(dirs: Seq<Seq<char>>, heads: Seq<Option<Seq<char>>>) -> Seq<(Seq<char>, Seq<char>)>
    decreases dirs.len(),
{
    if dirs.len() == 0 || heads.len() < dirs.len() {
        seq![]
    } else {
        let rest = session_panes_spec(dirs.drop_last(), heads.take(dirs.len() - 1));
        match heads[dirs.len() - 1] {
            Some(b) => if crate::merge::usable_branch(b) {
                rest.push((dirs.last(), b))
            } else {
                rest
            },
            None => rest,
        }
    }
}

/// Why a merge by session could not start: the session is missing (`not_found`)
/// or has nothing to merge.
pub struct MergeRefusal {
    pub not_found: bool,
    pub message: String,
}

pub open spec fn opt_strings_view(v: Seq<Option<String>>) -> Seq<Option<Seq<char>>> {
    v.map_values(|o: Option<String>| crate::proxy::opt_string_view(o))
}

/// Merge the branches of a session found on disk: nothing for the `none` strategy;
/// else the session must exist and have panes, and at least one pane must be on a
/// usable branch. Gives the base (`base_ref_or_sha` of the metadata, else `HEAD`)
/// and the panes with their branches, for `fork_merge_branches`.
pub fn fork_merge_branches_by_session(
    strategy: MergingStrategy,
    session_dir: &str,
    session_exists: bool,
    pane_dirs: &Vec<String>,
    heads: &Vec<Option<String>>,
    meta: &Option<String>,
) -> (r: Result<Option<(String, Vec<(String, String)>)>, MergeRefusal>)
    requires
        heads@.len() == pane_dirs@.len(),
    ensures
        strategy == MergingStrategy::NoMerge ==> r matches Ok(None),
        strategy != MergingStrategy::NoMerge ==> match r {
            Ok(Some(p)) => {
                &&& session_exists
                &&& pane_dirs@.len() > 0
                &&& p.0@ == crate::merge::session_base_spec(crate::proxy::opt_string_view(*meta))
                &&& p.1@.map_values(|q: (String, String)| (q.0@, q.1@)) == session_panes_spec(
                    strings_view(pane_dirs@),
                    opt_strings_view(heads@),
                )
                &&& p.1@.len() > 0
            },
            Ok(None) => false,
            Err(e) => if !session_exists {
                e.not_found && e.message@ == "fork session directory not found: "@ + session_dir@
            } else if pane_dirs@.len() == 0 {
                !e.not_found && e.message@ == "no pane directories found under session"@
            } else {
                !e.not_found && e.message@ == "no pane branches found (detached HEAD?)"@ && session_panes_spec(
                    strings_view(pane_dirs@),
                    opt_strings_view(heads@),
                ).len() == 0
            },
        },
{
    if strategy == MergingStrategy::NoMerge {
        return Ok(None);
    }
    if !session_exists {
        let mut m = "fork session directory not found: ".to_owned();
        m.push_str(session_dir);
        return Err(MergeRefusal { not_found: true, message: m });
    }
    if pane_dirs.len() == 0 {
        return Err(MergeRefusal { not_found: false, message: "no pane directories found under session".to_owned() });
    }
    let ghost dv = strings_view(pane_dirs@);
    let ghost hv = opt_strings_view(heads@);
    let mut panes: Vec<(String, String)> = Vec::new();
    let mut i: usize = 0;
    while i < pane_dirs.len()
        invariant
            i <= pane_dirs@.len(),
            heads@.len() == pane_dirs@.len(),
            dv == strings_view(pane_dirs@),
            hv == opt_strings_view(heads@),
            panes@.map_values(|q: (String, String)| (q.0@, q.1@)) == session_panes_spec(
                dv.take(i as int),
                hv.take(i as int),
            ),
        decreases pane_dirs@.len() - i,
    {
        let ghost before = panes@;
        assert(dv.take(i + 1).drop_last() =~= dv.take(i as int));
        assert(hv.take(i + 1).take(i as int) =~= hv.take(i as int));
        assert(hv.take(i + 1)[i as int] == hv[i as int]);
        assert(dv.take(i + 1).last() == pane_dirs@[i as int]@);
        match &heads[i] {
            Some(b) => {
                assert(hv[i as int] == Some(b@));
                if !b.as_str().is_empty() && !crate::text::str_eq(b.as_str(), "HEAD") {
                    let q = (pane_dirs[i].clone(), b.clone());
                    panes.push(q);
                    assert(panes@.map_values(|q: (String, String)| (q.0@, q.1@)) =~= before.map_values(
                        |q: (String, String)| (q.0@, q.1@),
                    ).push((pane_dirs@[i as int]@, b@)));
                }
            },
            None => {
                assert(hv[i as int] is None);
            },
        }
        i = i + 1;
    }
    assert(dv.take(pane_dirs@.len() as int) =~= dv);
    assert(hv.take(pane_dirs@.len() as int) =~= hv);
    if panes.len() == 0 {
        return Err(MergeRefusal { not_found: false, message: "no pane branches found (detached HEAD?)".to_owned() });
    }
    let base = crate::merge::session_merge_base(meta);
    Ok(Some((base, panes)))
}

} // verus!
