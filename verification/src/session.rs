//! Fork session and pane descriptions.
use vstd::prelude::*;

verus! {

/// High-level fork session information captured at creation time.
#[derive(Clone, Debug)]
pub struct ForkSession {
    pub sid: String,
    pub session_name: String,
    pub base_label: String,
    pub base_ref_or_sha: String,
    pub base_commit_sha: String,
    pub created_at: u64,
    pub layout: String,
    pub agent: String,
    pub session_dir: String,
}

/// A single pane description.
#[derive(Clone, Debug)]
pub struct Pane {
    pub index: usize,
    pub dir: String,
    pub branch: String,
    pub state_dir: String,
    pub container_name: String,
}

/// Build a ForkSession from the common fields used throughout fork orchestration.
pub fn make_session(
    sid: &str,
    session_name: &str,
    base_label: &str,
    base_ref_or_sha: &str,
    base_commit_sha: &str,
    created_at: u64,
    layout: &str,
    agent: &str,
    session_dir: &str,
) -> (s: ForkSession)
    ensures
        s.sid@ == sid@,
        s.session_name@ == session_name@,
        s.base_label@ == base_label@,
        s.base_ref_or_sha@ == base_ref_or_sha@,
        s.base_commit_sha@ == base_commit_sha@,
        s.created_at == created_at,
        s.layout@ == layout@,
        s.agent@ == agent@,
        s.session_dir@ == session_dir@,
{
    ForkSession {
        sid: sid.to_owned(),
        session_name: session_name.to_owned(),
        base_label: base_label.to_owned(),
        base_ref_or_sha: base_ref_or_sha.to_owned(),
        base_commit_sha: base_commit_sha.to_owned(),
        created_at,
        layout: layout.to_owned(),
        agent: agent.to_owned(),
        session_dir: session_dir.to_owned(),
    }
}

/// Build a Pane from the common fields used throughout fork orchestration.
pub fn make_pane(index: usize, dir: &str, branch: &str, state_dir: &str, container_name: &str) -> (p:
    Pane)
    ensures
        p.index == index,
        p.dir@ == dir@,
        p.branch@ == branch@,
        p.state_dir@ == state_dir@,
        p.container_name@ == container_name@,
{
    Pane {
        index,
        dir: dir.to_owned(),
        branch: branch.to_owned(),
        state_dir: state_dir.to_owned(),
        container_name: container_name.to_owned(),
    }
}

/// Telemetry is not compiled in: there is nothing to initialize.
pub fn telemetry_init() -> (r: Option<()>)
    ensures
        r is None,
{
    None
}

} // verus!
