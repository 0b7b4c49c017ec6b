//! The fork run as a sequence of decisions: find the base, snapshot or check the
//! working tree (asking the user where it matters), check toolchains, clone the
//! panes, resolve the base commit, write the metadata and launch; then merge, or
//! clean up after a failed launch. The caller performs each action and answers with
//! what came of it.
use vstd::prelude::*;

use crate::escape::strings_view;

verus! {

/// The fixed inputs of one fork run.
#[derive(Clone, Copy, Debug)]
pub struct ForkFlowConfig {
    /// `--fork-include-dirty`.
    pub include_dirty: bool,
    /// The octopus merge strategy was chosen.
    pub octopus: bool,
    /// A merge strategy other than none was chosen.
    pub merge: bool,
    /// The chosen orchestrator waits for its panes, so a merge can follow.
    pub waitable: bool,
}

/// The base of the session: its label, the ref or commit the panes start from, and
/// the `HEAD` commit.
#[derive(Clone, Debug)]
pub struct ForkBase {
    pub label: String,
    pub base: String,
    pub head: String,
}

/// The questions the run may ask before going on.
#[derive(Clone, Copy, PartialEq, Eq, Structural, Debug)]
pub enum ForkPrompt {
    /// Snapshotting the dirty tree failed; the error is shown first.
    SnapshotFailed,
    /// The tree is dirty and will not be included.
    DirtyNotIncluded,
    /// The octopus merge needs a clean tree.
    OctopusDirty,
}

/// What the run waits for.
pub enum ForkFlowState {
    Start,
    ReadingBase,
    Snapshotting(ForkBase),
    CheckingDirty(ForkBase),
    /// Waiting for the answer to a prompt; the snapshot made so far.
    Asking(ForkBase, Option<String>, ForkPrompt),
    CheckingOctopus(ForkBase, Option<String>),
    CheckingToolchains(ForkBase, Option<String>),
    Cloning(ForkBase, Option<String>),
    Resolving(ForkBase),
    Launching,
    Merging,
    Finished,
}

/// What the caller answers.
pub enum ForkFlowEvent {
    Started,
    /// The base of the repository, or why it could not be found.
    BaseInfo(Result<ForkBase, String>),
    /// The snapshot commit, or why it could not be made.
    Snapshot(Result<String, String>),
    /// Whether the working tree has uncommitted changes.
    TreeDirty(bool),
    /// Whether the user (or the toolchain check) lets the run go on.
    Proceed(bool),
    /// The panes were cloned, or why not.
    Cloned(Result<(), String>),
    /// What `git rev-parse --verify <base>` printed (trimmed) when it succeeded.
    Resolved(Option<String>),
    /// The panes were launched, or why not.
    Launched(Result<(), String>),
    Merged,
}

/// One thing to do.
pub enum ForkFlowAction {
    /// Find the base: answered with `BaseInfo`.
    ReadBase,
    /// Show that the base could not be determined.
    BaseError(String),
    /// Snapshot the dirty tree: answered with `Snapshot`.
    MakeSnapshot,
    /// Check the working tree: answered with `TreeDirty`.
    CheckTree,
    /// Ask the question (after a failed snapshot, its error first): answered with `Proceed`.
    Ask(ForkPrompt, Option<String>),
    /// Warn about missing toolchains and ask: answered with `Proceed`.
    CheckToolchains,
    /// Clone the panes from this base ref with this label: answered with `Cloned`.
    Clone(String, String),
    /// Show the cloning error.
    CloneError(String),
    /// Resolve this ref to a commit: answered with `Resolved`.
    ResolveBase(String),
    /// Write the session metadata and print the header and pane blocks.
    WriteMeta(String),
    /// Launch the panes with this base commit: answered with `Launched`.
    Launch(String),
    /// Show the launch error, then remove or keep the clones.
    LaunchError(String),
    Cleanup,
    /// Run the post-fork merge: answered with `Merged`.
    PostMerge,
    /// Say how to merge by hand once the panes are closed.
    NoWaitNotes,
    /// Print the end-of-session lines.
    EndSession,
    Exit(u8),
}

pub struct ForkFlowStep {
    pub state: ForkFlowState,
    pub actions: Vec<ForkFlowAction>,
}

/// The lines of a prompt (after the error of a failed snapshot, when there is one).
pub open spec fn prompt_lines_spec(p: ForkPrompt, err: Option<Seq<char>>) -> Seq<Seq<char>> {
    match p {
        ForkPrompt::SnapshotFailed => seq![
            "failed to create snapshot of dirty working tree: "@ + match err {
                Some(e) => e,
                None => seq![],
            },
            "the fork panes will not include your uncommitted changes."@,
        ],
        ForkPrompt::DirtyNotIncluded => seq![
            "working tree has uncommitted changes; they will not be included in the fork panes."@,
            "re-run with --fork-include-dirty to include them."@,
        ],
        ForkPrompt::OctopusDirty => seq![
            "octopus merge requires a clean working tree in the original repository."@,
            "commit or stash your changes before proceeding, or merging will likely fail."@,
        ],
    }
}

pub fn prompt_lines(p: ForkPrompt, err: &Option<String>) -> (v: Vec<String>)
    ensures
        strings_view(v@) == prompt_lines_spec(p, crate::proxy::opt_string_view(*err)),
{
    let v = match p {
        ForkPrompt::SnapshotFailed => {
            let mut a = "failed to create snapshot of dirty working tree: ".to_owned();
            if let Some(e) = err {
                a.push_str(e.as_str());
            }
            vec![a, "the fork panes will not include your uncommitted changes.".to_owned()]
        },
        ForkPrompt::DirtyNotIncluded => vec![
            "working tree has uncommitted changes; they will not be included in the fork panes.".to_owned(),
            "re-run with --fork-include-dirty to include them.".to_owned(),
        ],
        ForkPrompt::OctopusDirty => vec![
            "octopus merge requires a clean working tree in the original repository.".to_owned(),
            "commit or stash your changes before proceeding, or merging will likely fail.".to_owned(),
        ],
    };
    proof {
        let s = prompt_lines_spec(p, crate::proxy::opt_string_view(*err));
        assert(strings_view(v@)[0] == s[0]);
        assert(strings_view(v@)[1] == s[1]);
        assert(strings_view(v@) =~= s);
    }
    v
}

/// After the dirty-tree stage: the octopus check when that strategy was chosen, else
/// the toolchain check.
pub open spec fn after_tree_spec(c: ForkFlowConfig, b: ForkBase, snap: Option<String>) -> (ForkFlowState, Seq<ForkFlowAction>) {
    if c.octopus {
        (ForkFlowState::CheckingOctopus(b, snap), seq![ForkFlowAction::CheckTree])
    } else {
        (ForkFlowState::CheckingToolchains(b, snap), seq![ForkFlowAction::CheckToolchains])
    }
}

/// After the panes were launched: the merge when one was asked for and the
/// orchestrator waits, the manual-merge notes when it does not; then the end lines.
pub open spec fn after_launch_spec(c: ForkFlowConfig) -> (ForkFlowState, Seq<ForkFlowAction>) {
    if c.merge && c.waitable {
        (ForkFlowState::Merging, seq![ForkFlowAction::PostMerge])
    } else if c.merge {
        (ForkFlowState::Finished, seq![ForkFlowAction::NoWaitNotes, ForkFlowAction::EndSession, ForkFlowAction::Exit(0)])
    } else {
        (ForkFlowState::Finished, seq![ForkFlowAction::EndSession, ForkFlowAction::Exit(0)])
    }
}

/// The event each state waits for.
pub open spec fn fork_event_fits(st: ForkFlowState, ev: ForkFlowEvent) -> bool {
    match st {
        ForkFlowState::Start => ev is Started,
        ForkFlowState::ReadingBase => ev is BaseInfo,
        ForkFlowState::Snapshotting(_) => ev is Snapshot,
        ForkFlowState::CheckingDirty(_) => ev is TreeDirty,
        ForkFlowState::Asking(..) => ev is Proceed,
        ForkFlowState::CheckingOctopus(..) => ev is TreeDirty,
        ForkFlowState::CheckingToolchains(..) => ev is Proceed,
        ForkFlowState::Cloning(..) => ev is Cloned,
        ForkFlowState::Resolving(_) => ev is Resolved,
        ForkFlowState::Launching => ev is Launched,
        ForkFlowState::Merging => ev is Merged,
        ForkFlowState::Finished => false,
    }
}

/// One step of the run.
pub open spec fn fork_step_spec(c: ForkFlowConfig, st: ForkFlowState, ev: ForkFlowEvent) -> (ForkFlowState, Seq<ForkFlowAction>) {
    match (st, ev) {
        (ForkFlowState::Start, _) => (ForkFlowState::ReadingBase, seq![ForkFlowAction::ReadBase]),
        (ForkFlowState::ReadingBase, ForkFlowEvent::BaseInfo(Err(e))) => (
            ForkFlowState::Finished,
            seq![ForkFlowAction::BaseError(e), ForkFlowAction::Exit(1)],
        ),
        (ForkFlowState::ReadingBase, ForkFlowEvent::BaseInfo(Ok(b))) => if c.include_dirty {
            (ForkFlowState::Snapshotting(b), seq![ForkFlowAction::MakeSnapshot])
        } else {
            (ForkFlowState::CheckingDirty(b), seq![ForkFlowAction::CheckTree])
        },
        (ForkFlowState::Snapshotting(b), ForkFlowEvent::Snapshot(Ok(sha))) => after_tree_spec(
            c,
            ForkBase { label: b.label, base: sha, head: b.head },
            Some(sha),
        ),
        (ForkFlowState::Snapshotting(b), ForkFlowEvent::Snapshot(Err(e))) => (
            ForkFlowState::Asking(b, None, ForkPrompt::SnapshotFailed),
            seq![ForkFlowAction::Ask(ForkPrompt::SnapshotFailed, Some(e))],
        ),
        (ForkFlowState::CheckingDirty(b), ForkFlowEvent::TreeDirty(d)) => if d {
            (ForkFlowState::Asking(b, None, ForkPrompt::DirtyNotIncluded), seq![ForkFlowAction::Ask(ForkPrompt::DirtyNotIncluded, None)])
        } else {
            after_tree_spec(c, b, None)
        },
        (ForkFlowState::Asking(b, snap, p), ForkFlowEvent::Proceed(yes)) => if !yes {
            (ForkFlowState::Finished, seq![ForkFlowAction::Exit(1)])
        } else if p == ForkPrompt::OctopusDirty {
            (ForkFlowState::CheckingToolchains(b, snap), seq![ForkFlowAction::CheckToolchains])
        } else {
            after_tree_spec(c, b, snap)
        },
        (ForkFlowState::CheckingOctopus(b, snap), ForkFlowEvent::TreeDirty(d)) => if d {
            (ForkFlowState::Asking(b, snap, ForkPrompt::OctopusDirty), seq![ForkFlowAction::Ask(ForkPrompt::OctopusDirty, None)])
        } else {
            (ForkFlowState::CheckingToolchains(b, snap), seq![ForkFlowAction::CheckToolchains])
        },
        (ForkFlowState::CheckingToolchains(b, snap), ForkFlowEvent::Proceed(yes)) => if !yes {
            (ForkFlowState::Finished, seq![ForkFlowAction::Exit(1)])
        } else {
            (ForkFlowState::Cloning(b, snap), seq![ForkFlowAction::Clone(b.base, b.label)])
        },
        (ForkFlowState::Cloning(b, snap), ForkFlowEvent::Cloned(Err(e))) => (
            ForkFlowState::Finished,
            seq![ForkFlowAction::CloneError(e), ForkFlowAction::Exit(1)],
        ),
        (ForkFlowState::Cloning(b, snap), ForkFlowEvent::Cloned(Ok(()))) => match snap {
            Some(s) => (ForkFlowState::Launching, seq![ForkFlowAction::WriteMeta(s), ForkFlowAction::Launch(s)]),
            None => (ForkFlowState::Resolving(b), seq![ForkFlowAction::ResolveBase(b.base)]),
        },
        (ForkFlowState::Resolving(b), ForkFlowEvent::Resolved(r)) => {
            let bc = match r {
                Some(x) => if x@.len() > 0 {
                    x
                } else {
                    b.head
                },
                None => b.head,
            };
            (ForkFlowState::Launching, seq![ForkFlowAction::WriteMeta(bc), ForkFlowAction::Launch(bc)])
        },
        (ForkFlowState::Launching, ForkFlowEvent::Launched(Err(e))) => (
            ForkFlowState::Finished,
            seq![ForkFlowAction::LaunchError(e), ForkFlowAction::Cleanup, ForkFlowAction::Exit(1)],
        ),
        (ForkFlowState::Launching, ForkFlowEvent::Launched(Ok(()))) => after_launch_spec(c),
        (ForkFlowState::Merging, _) => (ForkFlowState::Finished, seq![ForkFlowAction::EndSession, ForkFlowAction::Exit(0)]),
        (st, _) => (ForkFlowState::Finished, seq![ForkFlowAction::Exit(1)]),
    }
}

fn one(a: ForkFlowAction) -> (v: Vec<ForkFlowAction>)
    ensures
        v@ == seq![a],
{
    let mut v: Vec<ForkFlowAction> = Vec::new();
    v.push(a);
    v
}

fn two(a: ForkFlowAction, b: ForkFlowAction) -> (v: Vec<ForkFlowAction>)
    ensures
        v@ == seq![a, b],
{
    let mut v: Vec<ForkFlowAction> = Vec::new();
    v.push(a);
    v.push(b);
    assert(v@ =~= seq![a, b]);
    v
}

fn three(a: ForkFlowAction, b: ForkFlowAction, d: ForkFlowAction) -> (v: Vec<ForkFlowAction>)
    ensures
        v@ == seq![a, b, d],
{
    let mut v: Vec<ForkFlowAction> = Vec::new();
    v.push(a);
    v.push(b);
    v.push(d);
    assert(v@ =~= seq![a, b, d]);
    v
}

fn after_tree(c: ForkFlowConfig, b: ForkBase, snap: Option<String>) -> (r: ForkFlowStep)
    ensures
        (r.state, r.actions@) == after_tree_spec(c, b, snap),
{
    if c.octopus {
        ForkFlowStep { state: ForkFlowState::CheckingOctopus(b, snap), actions: one(ForkFlowAction::CheckTree) }
    } else {
        ForkFlowStep { state: ForkFlowState::CheckingToolchains(b, snap), actions: one(ForkFlowAction::CheckToolchains) }
    }
}

/// One step of the fork run (see `fork_step_spec`).
pub fn fork_flow_step(c: ForkFlowConfig, st: ForkFlowState, ev: ForkFlowEvent) -> (r: ForkFlowStep)
    requires
        fork_event_fits(st, ev),
    ensures
        (r.state, r.actions@) == fork_step_spec(c, st, ev),
{
    match st {
        ForkFlowState::Start => ForkFlowStep { state: ForkFlowState::ReadingBase, actions: one(ForkFlowAction::ReadBase) },
        ForkFlowState::ReadingBase => match ev {
            ForkFlowEvent::BaseInfo(Err(e)) => ForkFlowStep {
                state: ForkFlowState::Finished,
                actions: two(ForkFlowAction::BaseError(e), ForkFlowAction::Exit(1)),
            },
            ForkFlowEvent::BaseInfo(Ok(b)) => if c.include_dirty {
                ForkFlowStep { state: ForkFlowState::Snapshotting(b), actions: one(ForkFlowAction::MakeSnapshot) }
            } else {
                ForkFlowStep { state: ForkFlowState::CheckingDirty(b), actions: one(ForkFlowAction::CheckTree) }
            },
            _ => ForkFlowStep { state: ForkFlowState::Finished, actions: one(ForkFlowAction::Exit(1)) },
        },
        ForkFlowState::Snapshotting(b) => match ev {
            ForkFlowEvent::Snapshot(Ok(sha)) => {
                let s2 = sha.clone();
                after_tree(c, ForkBase { label: b.label, base: sha, head: b.head }, Some(s2))
            },
            ForkFlowEvent::Snapshot(Err(e)) => ForkFlowStep {
                state: ForkFlowState::Asking(b, None, ForkPrompt::SnapshotFailed),
                actions: one(ForkFlowAction::Ask(ForkPrompt::SnapshotFailed, Some(e))),
            },
            _ => ForkFlowStep { state: ForkFlowState::Finished, actions: one(ForkFlowAction::Exit(1)) },
        },
        ForkFlowState::CheckingDirty(b) => match ev {
            ForkFlowEvent::TreeDirty(d) => if d {
                ForkFlowStep {
                    state: ForkFlowState::Asking(b, None, ForkPrompt::DirtyNotIncluded),
                    actions: one(ForkFlowAction::Ask(ForkPrompt::DirtyNotIncluded, None)),
                }
            } else {
                after_tree(c, b, None)
            },
            _ => ForkFlowStep { state: ForkFlowState::Finished, actions: one(ForkFlowAction::Exit(1)) },
        },
        ForkFlowState::Asking(b, snap, p) => match ev {
            ForkFlowEvent::Proceed(yes) => if !yes {
                ForkFlowStep { state: ForkFlowState::Finished, actions: one(ForkFlowAction::Exit(1)) }
            } else if p == ForkPrompt::OctopusDirty {
                ForkFlowStep { state: ForkFlowState::CheckingToolchains(b, snap), actions: one(ForkFlowAction::CheckToolchains) }
            } else {
                after_tree(c, b, snap)
            },
            _ => ForkFlowStep { state: ForkFlowState::Finished, actions: one(ForkFlowAction::Exit(1)) },
        },
        ForkFlowState::CheckingOctopus(b, snap) => match ev {
            ForkFlowEvent::TreeDirty(d) => if d {
                ForkFlowStep {
                    state: ForkFlowState::Asking(b, snap, ForkPrompt::OctopusDirty),
                    actions: one(ForkFlowAction::Ask(ForkPrompt::OctopusDirty, None)),
                }
            } else {
                ForkFlowStep { state: ForkFlowState::CheckingToolchains(b, snap), actions: one(ForkFlowAction::CheckToolchains) }
            },
            _ => ForkFlowStep { state: ForkFlowState::Finished, actions: one(ForkFlowAction::Exit(1)) },
        },
        ForkFlowState::CheckingToolchains(b, snap) => match ev {
            ForkFlowEvent::Proceed(yes) => if !yes {
                ForkFlowStep { state: ForkFlowState::Finished, actions: one(ForkFlowAction::Exit(1)) }
            } else {
                let base = b.base.clone();
                let label = b.label.clone();
                ForkFlowStep { state: ForkFlowState::Cloning(b, snap), actions: one(ForkFlowAction::Clone(base, label)) }
            },
            _ => ForkFlowStep { state: ForkFlowState::Finished, actions: one(ForkFlowAction::Exit(1)) },
        },
        ForkFlowState::Cloning(b, snap) => match ev {
            ForkFlowEvent::Cloned(Err(e)) => ForkFlowStep {
                state: ForkFlowState::Finished,
                actions: two(ForkFlowAction::CloneError(e), ForkFlowAction::Exit(1)),
            },
            ForkFlowEvent::Cloned(Ok(())) => match snap {
                Some(s) => {
                    let s2 = s.clone();
                    ForkFlowStep {
                        state: ForkFlowState::Launching,
                        actions: two(ForkFlowAction::WriteMeta(s), ForkFlowAction::Launch(s2)),
                    }
                },
                None => {
                    let base = b.base.clone();
                    ForkFlowStep { state: ForkFlowState::Resolving(b), actions: one(ForkFlowAction::ResolveBase(base)) }
                },
            },
            _ => ForkFlowStep { state: ForkFlowState::Finished, actions: one(ForkFlowAction::Exit(1)) },
        },
        ForkFlowState::Resolving(b) => match ev {
            ForkFlowEvent::Resolved(r) => {
                let bc = match r {
                    Some(x) => if !x.as_str().is_empty() {
                        x
                    } else {
                        b.head
                    },
                    None => b.head,
                };
                let bc2 = bc.clone();
                ForkFlowStep {
                    state: ForkFlowState::Launching,
                    actions: two(ForkFlowAction::WriteMeta(bc), ForkFlowAction::Launch(bc2)),
                }
            },
            _ => ForkFlowStep { state: ForkFlowState::Finished, actions: one(ForkFlowAction::Exit(1)) },
        },
        ForkFlowState::Launching => match ev {
            ForkFlowEvent::Launched(Err(e)) => ForkFlowStep {
                state: ForkFlowState::Finished,
                actions: three(ForkFlowAction::LaunchError(e), ForkFlowAction::Cleanup, ForkFlowAction::Exit(1)),
            },
            ForkFlowEvent::Launched(Ok(())) => if c.merge && c.waitable {
                ForkFlowStep { state: ForkFlowState::Merging, actions: one(ForkFlowAction::PostMerge) }
            } else if c.merge {
                ForkFlowStep {
                    state: ForkFlowState::Finished,
                    actions: three(ForkFlowAction::NoWaitNotes, ForkFlowAction::EndSession, ForkFlowAction::Exit(0)),
                }
            } else {
                ForkFlowStep { state: ForkFlowState::Finished, actions: two(ForkFlowAction::EndSession, ForkFlowAction::Exit(0)) }
            },
            _ => ForkFlowStep { state: ForkFlowState::Finished, actions: one(ForkFlowAction::Exit(1)) },
        },
        ForkFlowState::Merging => ForkFlowStep { state: ForkFlowState::Finished, actions: two(ForkFlowAction::EndSession, ForkFlowAction::Exit(0)) },
        ForkFlowState::Finished => ForkFlowStep { state: ForkFlowState::Finished, actions: one(ForkFlowAction::Exit(1)) },
    }
}

/// Whenever the panes are launched, the metadata was written just before with the
/// same base commit; and a failed launch always ends in clean-up and exit code 1.
pub proof fn lemma_meta_before_launch_and_cleanup_after_failure(c: ForkFlowConfig, st: ForkFlowState, ev: ForkFlowEvent)
    ensures
        forall|k: int|
            0 <= k < fork_step_spec(c, st, ev).1.len() ==> (#[trigger] fork_step_spec(c, st, ev).1[k] matches ForkFlowAction::Launch(x)
                ==> k > 0 && fork_step_spec(c, st, ev).1[k - 1] == ForkFlowAction::WriteMeta(x)),
        st is Launching ==> match ev {
            ForkFlowEvent::Launched(Err(e)) => fork_step_spec(c, st, ev).1 == seq![
                ForkFlowAction::LaunchError(e),
                ForkFlowAction::Cleanup,
                ForkFlowAction::Exit(1),
            ],
            _ => true,
        },
{
}

} // verus!
