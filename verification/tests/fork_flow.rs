use aifo_coder::fork_flow::{
    fork_flow_step, prompt_lines, ForkBase, ForkFlowAction, ForkFlowConfig, ForkFlowEvent, ForkFlowState, ForkPrompt,
};

fn cfg(include_dirty: bool, octopus: bool, merge: bool, waitable: bool) -> ForkFlowConfig {
    ForkFlowConfig { include_dirty, octopus, merge, waitable }
}

fn base() -> ForkBase {
    ForkBase { label: "main".to_string(), base: "main".to_string(), head: "abc123".to_string() }
}

#[test]
fn fork_flow_clean_tree_clone_resolve_and_failed_launch() {
    let c = cfg(false, false, false, true);
    let s = fork_flow_step(c, ForkFlowState::Start, ForkFlowEvent::Started);
    assert!(matches!(s.actions.as_slice(), [ForkFlowAction::ReadBase]));
    let s = fork_flow_step(c, s.state, ForkFlowEvent::BaseInfo(Ok(base())));
    assert!(matches!(s.actions.as_slice(), [ForkFlowAction::CheckTree]));
    let s = fork_flow_step(c, s.state, ForkFlowEvent::TreeDirty(false));
    assert!(matches!(s.actions.as_slice(), [ForkFlowAction::CheckToolchains]));
    let s = fork_flow_step(c, s.state, ForkFlowEvent::Proceed(true));
    assert!(matches!(s.actions.as_slice(), [ForkFlowAction::Clone(b, l)] if b == "main" && l == "main"));
    let s = fork_flow_step(c, s.state, ForkFlowEvent::Cloned(Ok(())));
    assert!(matches!(s.actions.as_slice(), [ForkFlowAction::ResolveBase(b)] if b == "main"));
    let s = fork_flow_step(c, s.state, ForkFlowEvent::Resolved(Some(String::new())));
    assert!(matches!(s.actions.as_slice(), [ForkFlowAction::WriteMeta(a), ForkFlowAction::Launch(b)] if a == "abc123" && b == "abc123"));
    let s = fork_flow_step(c, s.state, ForkFlowEvent::Launched(Err("tmux new-session failed".to_string())));
    assert!(matches!(
        s.actions.as_slice(),
        [ForkFlowAction::LaunchError(e), ForkFlowAction::Cleanup, ForkFlowAction::Exit(1)] if e == "tmux new-session failed"
    ));
    assert!(matches!(s.state, ForkFlowState::Finished));
}

#[test]
fn fork_flow_snapshot_becomes_the_base_and_merge_follows_launch() {
    let c = cfg(true, false, true, true);
    let s = fork_flow_step(c, ForkFlowState::ReadingBase, ForkFlowEvent::BaseInfo(Ok(base())));
    assert!(matches!(s.actions.as_slice(), [ForkFlowAction::MakeSnapshot]));
    let s = fork_flow_step(c, s.state, ForkFlowEvent::Snapshot(Ok("snap99".to_string())));
    let s = fork_flow_step(c, s.state, ForkFlowEvent::Proceed(true));
    assert!(matches!(s.actions.as_slice(), [ForkFlowAction::Clone(b, _)] if b == "snap99"));
    let s = fork_flow_step(c, s.state, ForkFlowEvent::Cloned(Ok(())));
    assert!(matches!(s.actions.as_slice(), [ForkFlowAction::WriteMeta(a), ForkFlowAction::Launch(_)] if a == "snap99"));
    let s = fork_flow_step(c, s.state, ForkFlowEvent::Launched(Ok(())));
    assert!(matches!(s.actions.as_slice(), [ForkFlowAction::PostMerge]));
    let s = fork_flow_step(c, s.state, ForkFlowEvent::Merged);
    assert!(matches!(s.actions.as_slice(), [ForkFlowAction::EndSession, ForkFlowAction::Exit(0)]));
}

#[test]
fn fork_flow_prompts_and_refusals() {
    let c = cfg(true, true, true, false);
    let s = fork_flow_step(c, ForkFlowState::Snapshotting(base()), ForkFlowEvent::Snapshot(Err("no space".to_string())));
    assert!(matches!(s.actions.as_slice(), [ForkFlowAction::Ask(ForkPrompt::SnapshotFailed, Some(e))] if e == "no space"));
    let s = fork_flow_step(c, s.state, ForkFlowEvent::Proceed(true));
    assert!(matches!(s.actions.as_slice(), [ForkFlowAction::CheckTree]));
    let s = fork_flow_step(c, s.state, ForkFlowEvent::TreeDirty(true));
    assert!(matches!(s.actions.as_slice(), [ForkFlowAction::Ask(ForkPrompt::OctopusDirty, None)]));
    let s = fork_flow_step(c, s.state, ForkFlowEvent::Proceed(false));
    assert!(matches!(s.actions.as_slice(), [ForkFlowAction::Exit(1)]));
    let s = fork_flow_step(c, ForkFlowState::Launching, ForkFlowEvent::Launched(Ok(())));
    assert!(matches!(s.actions.as_slice(), [ForkFlowAction::NoWaitNotes, ForkFlowAction::EndSession, ForkFlowAction::Exit(0)]));
    let s = fork_flow_step(c, ForkFlowState::ReadingBase, ForkFlowEvent::BaseInfo(Err("not a repo".to_string())));
    assert!(matches!(s.actions.as_slice(), [ForkFlowAction::BaseError(e), ForkFlowAction::Exit(1)] if e == "not a repo"));
    assert_eq!(
        prompt_lines(ForkPrompt::SnapshotFailed, &Some("no space".to_string())),
        vec![
            "failed to create snapshot of dirty working tree: no space".to_string(),
            "the fork panes will not include your uncommitted changes.".to_string(),
        ]
    );
}
