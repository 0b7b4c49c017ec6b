//! Preparing a fork session: the base the panes start from, the snapshot commit of
//! uncommitted work, and cloning and checking out each pane.
use vstd::prelude::*;

use crate::escape::strings_view;
use crate::fork_names::{
    branch_name_spec, fork_branch_name, fork_sanitize_base_label, path_join, path_join_spec, sanitize_label_spec,
};
use crate::text::{contains_spec, dec_spec, str_chars, usize_to_string};

verus! {

/// `(base_label, base_ref_or_sha, base_commit_sha)` of the repository from the trimmed
/// output of `git rev-parse --abbrev-ref HEAD` (when it succeeded) and of
/// `git rev-parse --verify HEAD` (when it succeeded): a branch gives its sanitized
/// label and its name; a detached or unknown head gives `detached` and the commit.
pub open spec fn base_info_spec(branch: Option<Seq<char>>, head: Option<Seq<char>>) -> (Seq<char>, Seq<char>, Seq<char>) {
    let sha = match head {
        Some(h) => h,
        None => seq![],
    };
    match branch {
        Some(name) => if name == "HEAD"@ {
            ("detached"@, sha, sha)
        } else {
            (sanitize_label_spec(name), name, sha)
        },
        None => ("detached"@, sha, sha),
    }
}

pub fn fork_base_info(branch: &Option<String>, head: &Option<String>) -> (r: (String, String, String))
    ensures
        (r.0@, r.1@, r.2@) == base_info_spec(
            crate::proxy::opt_string_view(*branch),
            crate::proxy::opt_string_view(*head),
        ),
{
    let sha = match head {
        Some(h) => h.clone(),
        None => String::new(),
    };
    match branch {
        Some(name) => {
            if crate::text::str_eq(name.as_str(), "HEAD") {
                ("detached".to_owned(), sha.clone(), sha)
            } else {
                (fork_sanitize_base_label(name.as_str()), name.clone(), sha)
            }
        },
        None => ("detached".to_owned(), sha.clone(), sha),
    }
}

/// Name of the temporary index used for the snapshot, under the git directory.
pub open spec fn snapshot_index_spec(sid: Seq<char>, pid: u32) -> Seq<char> {
    "index.aifo-"@ + sid + "-"@ + dec_spec(pid as nat)
}

pub fn snapshot_index_name(sid: &str, pid: u32) -> (s: String)
    ensures
        s@ == snapshot_index_spec(sid@, pid),
{
    let mut s = "index.aifo-".to_owned();
    s.push_str(sid);
    s.push_str("-");
    s.push_str(crate::text::u64_to_string(pid as u64).as_str());
    s
}

/// `git -C <repo> commit-tree <tree> [-p <parent>] -m "aifo-fork snapshot <sid>"`.
pub open spec fn commit_tree_args_spec(repo: Seq<char>, tree: Seq<char>, parent: Option<Seq<char>>, sid: Seq<char>) -> Seq<Seq<char>> {
    seq!["git"@, "-C"@, repo, "commit-tree"@, tree] + match parent {
        Some(p) => seq!["-p"@, p],
        None => seq![],
    } + seq!["-m"@, "aifo-fork snapshot "@ + sid]
}

pub fn commit_tree_args(repo: &str, tree: &str, parent: Option<&str>, sid: &str) -> (v: Vec<String>)
    ensures
        strings_view(v@) == commit_tree_args_spec(repo@, tree@, crate::lock::opt_view(parent), sid@),
{
    let mut v = vec!["git".to_owned(), "-C".to_owned(), repo.to_owned(), "commit-tree".to_owned(), tree.to_owned()];
    match parent {
        Some(p) => {
            crate::escape::push_str_item(&mut v, "-p");
            crate::escape::push_str_item(&mut v, p);
        },
        None => {},
    }
    let mut m = "aifo-fork snapshot ".to_owned();
    m.push_str(sid);
    crate::escape::push_str_item(&mut v, "-m");
    crate::escape::push_string_item(&mut v, m);
    assert(strings_view(v@) =~= commit_tree_args_spec(repo@, tree@, crate::lock::opt_view(parent), sid@));
    v
}

/// A step of the snapshot that can fail before `commit-tree`.
pub enum SnapshotStage {
    /// `git add -A` with the temporary index.
    Add,
    /// `git write-tree` with the temporary index.
    WriteTree,
}

/// The error of a failed snapshot stage.
pub fn snapshot_stage_error(stage: SnapshotStage) -> (s: String)
    ensures
        s@ == match stage {
            SnapshotStage::Add => "git add -A failed for snapshot"@,
            SnapshotStage::WriteTree => "git write-tree failed for snapshot"@,
        },
{
    match stage {
        SnapshotStage::Add => "git add -A failed for snapshot".to_owned(),
        SnapshotStage::WriteTree => "git write-tree failed for snapshot".to_owned(),
    }
}

/// The snapshot commit from the run of `commit-tree`: whether it succeeded, its
/// trimmed output and its error output.
pub open spec fn snapshot_result_spec(ok: bool, sha: Seq<char>, stderr: Seq<char>) -> Result<Seq<char>, Seq<char>> {
    if !ok {
        Err("git commit-tree failed for snapshot: "@ + stderr)
    } else if sha.len() == 0 {
        Err("empty snapshot SHA from commit-tree"@)
    } else {
        Ok(sha)
    }
}

pub fn snapshot_result(ok: bool, sha: &str, stderr: &str) -> (r: Result<String, String>)
    ensures
        match r {
            Ok(s) => snapshot_result_spec(ok, sha@, stderr@) == Ok::<Seq<char>, Seq<char>>(s@),
            Err(e) => snapshot_result_spec(ok, sha@, stderr@) == Err::<Seq<char>, Seq<char>>(e@),
        },
{
    if !ok {
        let mut m = "git commit-tree failed for snapshot: ".to_owned();
        m.push_str(stderr);
        return Err(m);
    }
    if sha.is_empty() {
        return Err("empty snapshot SHA from commit-tree".to_owned());
    }
    Ok(sha.to_owned())
}

/// A `.gitattributes` text that routes files through Git LFS.
pub fn has_lfs_filter(gitattributes: &str) -> (b: bool)
    ensures
        b == contains_spec(gitattributes@, "filter=lfs"@),
{
    let cs = str_chars(gitattributes);
    let p = str_chars("filter=lfs");
    crate::text::contains(cs.as_slice(), p.as_slice())
}

/// The fixed inputs of cloning the panes.
pub struct CloneConfig {
    /// The repository path (canonical when possible).
    pub root: String,
    pub sid: String,
    pub panes: usize,
    pub base: String,
    pub base_label: String,
    pub dissociate: bool,
    /// Whether paths use Windows separators.
    pub windows: bool,
    /// The push URL of `origin` in the repository, when it has one.
    pub push_url: Option<String>,
    /// `<root>/.aifo-coder/forks/<sid>`.
    pub session_dir: String,
}

pub struct CloneConfigView {
    pub root: Seq<char>,
    pub sid: Seq<char>,
    pub panes: nat,
    pub base: Seq<char>,
    pub base_label: Seq<char>,
    pub dissociate: bool,
    pub windows: bool,
    pub push_url: Option<Seq<char>>,
    pub session_dir: Seq<char>,
}

pub open spec fn clone_config_view(c: CloneConfig) -> CloneConfigView {
    CloneConfigView {
        root: c.root@,
        sid: c.sid@,
        panes: c.panes as nat,
        base: c.base@,
        base_label: c.base_label@,
        dissociate: c.dissociate,
        windows: c.windows,
        push_url: crate::proxy::opt_string_view(c.push_url),
        session_dir: c.session_dir@,
    }
}

/// What cloning waits for.
pub enum CloneState {
    Start,
    /// Clone of pane `i` (from 1), first with the plain path, then with a `file://` URL.
    Cloning(usize, bool),
    CheckingOut(usize),
    Probing(usize),
    Finished,
}

pub enum CloneStateView {
    Start,
    Cloning(nat, bool),
    CheckingOut(nat),
    Probing(nat),
    Finished,
}

pub open spec fn clone_state_view(s: CloneState) -> CloneStateView {
    match s {
        CloneState::Start => CloneStateView::Start,
        CloneState::Cloning(i, u) => CloneStateView::Cloning(i as nat, u),
        CloneState::CheckingOut(i) => CloneStateView::CheckingOut(i as nat),
        CloneState::Probing(i) => CloneStateView::Probing(i as nat),
        CloneState::Finished => CloneStateView::Finished,
    }
}

/// What the caller answers.
pub enum CloneEvent {
    Started,
    /// A git command ended, successfully or not.
    Ran(bool),
    /// The pane has a `.gitmodules` file; git-lfs is available and the pane uses LFS.
    Probed { submodules: bool, lfs: bool },
}

/// One thing to do. Only the last action of a step is answered.
pub enum CloneAction {
    /// Run git (output discarded); answered with `Ran`.
    Git(Vec<String>),
    /// Run git, ignoring how it ends.
    GitBestEffort(Vec<String>),
    /// Remove a partial pane directory, ignoring errors.
    RemoveDir(String),
    /// Look at a pane; answered with `Probed`.
    Probe(String),
    /// Every pane is ready: (pane directory, branch) in order.
    Succeed(Vec<(String, String)>),
    Fail(String),
}

pub enum CloneActionView {
    Git(Seq<Seq<char>>),
    GitBestEffort(Seq<Seq<char>>),
    RemoveDir(Seq<char>),
    Probe(Seq<char>),
    Succeed(Seq<(Seq<char>, Seq<char>)>),
    Fail(Seq<char>),
}

pub open spec fn clone_action_view(a: CloneAction) -> CloneActionView {
    match a {
        CloneAction::Git(v) => CloneActionView::Git(strings_view(v@)),
        CloneAction::GitBestEffort(v) => CloneActionView::GitBestEffort(strings_view(v@)),
        CloneAction::RemoveDir(p) => CloneActionView::RemoveDir(p@),
        CloneAction::Probe(p) => CloneActionView::Probe(p@),
        CloneAction::Succeed(v) => CloneActionView::Succeed(v@.map_values(|q: (String, String)| (q.0@, q.1@))),
        CloneAction::Fail(m) => CloneActionView::Fail(m@),
    }
}

pub open spec fn clone_actions_view(v: Seq<CloneAction>) -> Seq<CloneActionView> {
    v.map_values(|a: CloneAction| clone_action_view(a))
}

pub struct CloneStep {
    pub state: CloneState,
    pub actions: Vec<CloneAction>,
}

/// The `file://` URL of the repository (Windows paths with `/` separators).
pub open spec fn src_url_spec(root: Seq<char>, windows: bool) -> Seq<char> {
    if windows {
        "file:///"@ + root.map_values(|c: char| if c == '\\' { '/' } else { c })
    } else {
        "file://"@ + root
    }
}

pub open spec fn pane_dir_spec(c: CloneConfigView, i: nat) -> Seq<char> {
    path_join_spec(c.session_dir, "pane-"@ + dec_spec(i))
}

/// `git [-c protocol.file.allow=always] clone --no-checkout --reference-if-able <root>
/// [--dissociate] <source> <pane>`: the plain path first, then the `file://` URL.
pub open spec fn clone_args_spec(c: CloneConfigView, i: nat, url: bool) -> Seq<Seq<char>> {
    seq!["git"@] + (if url {
        seq!["-c"@, "protocol.file.allow=always"@]
    } else {
        seq![]
    }) + seq!["clone"@, "--no-checkout"@, "--reference-if-able"@, c.root] + (if c.dissociate {
        seq!["--dissociate"@]
    } else {
        seq![]
    }) + seq![if url { src_url_spec(c.root, c.windows) } else { c.root }, pane_dir_spec(c, i)]
}

/// The panes created when all went well.
pub open spec fn clone_results(c: CloneConfigView) -> Seq<(Seq<char>, Seq<char>)> {
    Seq::new(c.panes, |k: int| (pane_dir_spec(c, (k + 1) as nat), branch_name_spec(c.base_label, c.sid, (k + 1) as nat)))
}

pub open spec fn clone_pane(c: CloneConfigView, i: nat, url: bool) -> (CloneStateView, Seq<CloneActionView>) {
    (CloneStateView::Cloning(i, url), seq![CloneActionView::Git(clone_args_spec(c, i, url))])
}

/// After pane `i` was cloned: point its `origin` push URL at the repository's (when
/// known) and check out its branch from the base.
pub open spec fn after_clone(c: CloneConfigView, i: nat) -> (CloneStateView, Seq<CloneActionView>) {
    let pane = pane_dir_spec(c, i);
    (
        CloneStateView::CheckingOut(i),
        (match c.push_url {
            Some(u) => seq![CloneActionView::GitBestEffort(seq!["git"@, "-C"@, pane, "remote"@, "set-url"@, "origin"@, u])],
            None => seq![],
        }) + seq![
            CloneActionView::Git(
                seq!["git"@, "-C"@, pane, "checkout"@, "-b"@, branch_name_spec(c.base_label, c.sid, i), c.base],
            ),
        ],
    )
}

/// Submodules and LFS content of a checked-out pane (best effort), then the next pane.
pub open spec fn after_probe(c: CloneConfigView, i: nat, submodules: bool, lfs: bool) -> (CloneStateView, Seq<CloneActionView>) {
    let pane = pane_dir_spec(c, i);
    let extra = (if submodules {
        seq![
            CloneActionView::GitBestEffort(
                seq![
                    "git"@,
                    "-c"@,
                    "protocol.file.allow=always"@,
                    "-C"@,
                    pane,
                    "submodule"@,
                    "update"@,
                    "--init"@,
                    "--recursive"@,
                ],
            ),
        ]
    } else {
        seq![]
    }) + if lfs {
        seq![
            CloneActionView::GitBestEffort(seq!["git"@, "-C"@, pane, "lfs"@, "install"@]),
            CloneActionView::GitBestEffort(seq!["git"@, "-C"@, pane, "lfs"@, "fetch"@, "--all"@]),
            CloneActionView::GitBestEffort(seq!["git"@, "-C"@, pane, "lfs"@, "checkout"@]),
        ]
    } else {
        seq![]
    };
    if i < c.panes {
        let next = clone_pane(c, i + 1, false);
        (next.0, extra + next.1)
    } else {
        (CloneStateView::Finished, extra + seq![CloneActionView::Succeed(clone_results(c))])
    }
}

/// The transition of cloning the panes of a session.
pub open spec fn clone_step_spec(c: CloneConfigView, st: CloneStateView, ev: CloneEvent) -> (CloneStateView, Seq<CloneActionView>) {
    match st {
        CloneStateView::Start => if c.panes < 1 {
            (CloneStateView::Finished, seq![CloneActionView::Succeed(seq![])])
        } else {
            clone_pane(c, 1, false)
        },
        CloneStateView::Cloning(i, url) => match ev {
            CloneEvent::Ran(true) => after_clone(c, i),
            _ => if !url {
                let next = clone_pane(c, i, true);
                (next.0, seq![CloneActionView::RemoveDir(pane_dir_spec(c, i))] + next.1)
            } else {
                (
                    CloneStateView::Finished,
                    seq![
                        CloneActionView::RemoveDir(pane_dir_spec(c, i)),
                        CloneActionView::Fail("git clone failed for pane "@ + dec_spec(i)),
                    ],
                )
            },
        },
        CloneStateView::CheckingOut(i) => match ev {
            CloneEvent::Ran(true) => (CloneStateView::Probing(i), seq![CloneActionView::Probe(pane_dir_spec(c, i))]),
            _ => (
                CloneStateView::Finished,
                seq![
                    CloneActionView::RemoveDir(pane_dir_spec(c, i)),
                    CloneActionView::Fail(
                        "git checkout failed for pane "@ + dec_spec(i) + " (branch "@ + branch_name_spec(
                            c.base_label,
                            c.sid,
                            i,
                        ) + ")"@,
                    ),
                ],
            ),
        },
        CloneStateView::Probing(i) => match ev {
            CloneEvent::Probed { submodules, lfs } => after_probe(c, i, submodules, lfs),
            _ => (CloneStateView::Finished, seq![]),
        },
        CloneStateView::Finished => (CloneStateView::Finished, seq![]),
    }
}

/// The event answers what the state waits for, for a pane in range.
pub open spec fn clone_event_fits(c: CloneConfigView, st: CloneStateView, ev: CloneEvent) -> bool {
    match st {
        CloneStateView::Start => ev is Started,
        CloneStateView::Cloning(i, _) => 1 <= i <= c.panes && ev is Ran,
        CloneStateView::CheckingOut(i) => 1 <= i <= c.panes && ev is Ran,
        CloneStateView::Probing(i) => 1 <= i <= c.panes && ev is Probed,
        CloneStateView::Finished => false,
    }
}

fn push_clone_action(v: &mut Vec<CloneAction>, a: CloneAction)
    ensures
        clone_actions_view(final(v)@) == clone_actions_view(old(v)@).push(clone_action_view(a)),
{
    let ghost av = clone_action_view(a);
    v.push(a);
    assert(clone_actions_view(v@) =~= clone_actions_view(old(v)@).push(av));
}

fn src_url(root: &str, windows: bool) -> (s: String)
    ensures
        s@ == src_url_spec(root@, windows),
{
    if !windows {
        let mut s = "file://".to_owned();
        s.push_str(root);
        return s;
    }
    let cs = str_chars(root);
    let mut out: Vec<char> = Vec::new();
    let mut i: usize = 0;
    while i < cs.len()
        invariant
            i <= cs@.len(),
            out@ == cs@.take(i as int).map_values(|c: char| if c == '\\' { '/' } else { c }),
        decreases cs@.len() - i,
    {
        let c = cs[i];
        out.push(if c == '\\' { '/' } else { c });
        assert(out@ =~= cs@.take(i + 1).map_values(|c: char| if c == '\\' { '/' } else { c }));
        i = i + 1;
    }
    assert(cs@.take(cs@.len() as int) =~= cs@);
    let mut s = "file:///".to_owned();
    crate::text::push_chars(&mut s, out.as_slice());
    s
}

fn pane_dir(c: &CloneConfig, i: usize) -> (s: String)
    ensures
        s@ == pane_dir_spec(clone_config_view(*c), i as nat),
{
    let mut name = "pane-".to_owned();
    name.push_str(usize_to_string(i).as_str());
    path_join(c.session_dir.as_str(), name.as_str())
}

fn clone_pane_exec(c: &CloneConfig, i: usize, url: bool, v: &mut Vec<CloneAction>)
    ensures
        clone_actions_view(final(v)@) == clone_actions_view(old(v)@) + clone_pane(clone_config_view(*c), i as nat, url).1,
{
    let ghost cv = clone_config_view(*c);
    let mut args: Vec<String> = vec!["git".to_owned()];
    if url {
        crate::git::push_file_allow_args(&mut args);
    }
    crate::escape::push_str_item(&mut args, "clone");
    crate::escape::push_str_item(&mut args, "--no-checkout");
    crate::escape::push_str_item(&mut args, "--reference-if-able");
    crate::escape::push_str_item(&mut args, c.root.as_str());
    if c.dissociate {
        crate::escape::push_str_item(&mut args, "--dissociate");
    }
    if url {
        crate::escape::push_string_item(&mut args, src_url(c.root.as_str(), c.windows));
    } else {
        crate::escape::push_str_item(&mut args, c.root.as_str());
    }
    crate::escape::push_string_item(&mut args, pane_dir(c, i));
    assert(strings_view(args@) =~= clone_args_spec(cv, i as nat, url));
    push_clone_action(v, CloneAction::Git(args));
    assert(clone_actions_view(v@) =~= clone_actions_view(old(v)@) + clone_pane(cv, i as nat, url).1);
}

fn results_exec(c: &CloneConfig) -> (v: Vec<(String, String)>)
    ensures
        v@.map_values(|q: (String, String)| (q.0@, q.1@)) == clone_results(clone_config_view(*c)),
{
    let ghost cv = clone_config_view(*c);
    let mut v: Vec<(String, String)> = Vec::new();
    let mut k: usize = 0;
    while k < c.panes
        invariant
            k <= c.panes,
            cv == clone_config_view(*c),
            v@.map_values(|q: (String, String)| (q.0@, q.1@)) == clone_results(cv).take(k as int),
        decreases c.panes - k,
    {
        let d = pane_dir(c, k + 1);
        let b = fork_branch_name(c.base_label.as_str(), c.sid.as_str(), k + 1);
        let ghost before = v@;
        v.push((d, b));
        assert(v@.map_values(|q: (String, String)| (q.0@, q.1@)) =~= clone_results(cv).take(k + 1)) by {
            assert(before.push((d, b)).map_values(|q: (String, String)| (q.0@, q.1@)) =~= before.map_values(
                |q: (String, String)| (q.0@, q.1@),
            ).push((d@, b@)));
        }
        k = k + 1;
    }
    assert(clone_results(cv).take(c.panes as int) =~= clone_results(cv));
    v
}

fn best_effort(v: &mut Vec<CloneAction>, words: Vec<String>)
    ensures
        clone_actions_view(final(v)@) == clone_actions_view(old(v)@).push(CloneActionView::GitBestEffort(strings_view(words@))),
{
    push_clone_action(v, CloneAction::GitBestEffort(words));
}

fn git_in(pane: &String, rest: Vec<String>) -> (v: Vec<String>)
    ensures
        strings_view(v@) == seq!["git"@, "-C"@, pane@] + strings_view(rest@),
{
    let mut v = vec!["git".to_owned(), "-C".to_owned(), pane.clone()];
    let mut i: usize = 0;
    let ghost head = strings_view(v@);
    while i < rest.len()
        invariant
            i <= rest@.len(),
            head == seq!["git"@, "-C"@, pane@],
            strings_view(v@) == head + strings_view(rest@).take(i as int),
        decreases rest@.len() - i,
    {
        let w = rest[i].clone();
        crate::escape::push_string_item(&mut v, w);
        assert(strings_view(rest@).take(i + 1) =~= strings_view(rest@).take(i as int).push(rest@[i as int]@));
        assert(strings_view(v@) =~= head + strings_view(rest@).take(i + 1));
        i = i + 1;
    }
    assert(strings_view(rest@).take(rest@.len() as int) =~= strings_view(rest@));
    v
}

/// One step of cloning and checking out the panes of a fork session: each pane is
/// cloned (plain path, then `file://`), its branch `fork/<label>/<sid>-<i>` checked
/// out from the base, and its submodules and LFS content fetched when present. A
/// failed clone or checkout removes the partial pane and stops with an error.
pub fn fork_clone_and_checkout_panes(c: &CloneConfig, state: &CloneState, event: &CloneEvent) -> (r: CloneStep)
    requires
        clone_event_fits(clone_config_view(*c), clone_state_view(*state), *event),
    ensures
        (clone_state_view(r.state), clone_actions_view(r.actions@)) == clone_step_spec(
            clone_config_view(*c),
            clone_state_view(*state),
            *event,
        ),
{
    let ghost cv = clone_config_view(*c);
    let mut v: Vec<CloneAction> = Vec::new();
    match state {
        CloneState::Start => {
            if c.panes < 1 {
                let e: Vec<(String, String)> = Vec::new();
                assert(e@.map_values(|q: (String, String)| (q.0@, q.1@)) =~= Seq::<(Seq<char>, Seq<char>)>::empty());
                push_clone_action(&mut v, CloneAction::Succeed(e));
                assert(clone_actions_view(v@) =~= seq![CloneActionView::Succeed(seq![])]);
                return CloneStep { state: CloneState::Finished, actions: v };
            }
            clone_pane_exec(c, 1, false, &mut v);
            assert(clone_actions_view(v@) =~= clone_pane(cv, 1, false).1);
            CloneStep { state: CloneState::Cloning(1, false), actions: v }
        },
        CloneState::Cloning(i, url) => {
            let i = *i;
            let url = *url;
            match event {
                CloneEvent::Ran(true) => {
                    let pane = pane_dir(c, i);
                    match &c.push_url {
                        Some(u) => {
                            let w = vec![
                                "git".to_owned(),
                                "-C".to_owned(),
                                pane.clone(),
                                "remote".to_owned(),
                                "set-url".to_owned(),
                                "origin".to_owned(),
                                u.clone(),
                            ];
                            assert(strings_view(w@) =~= seq!["git"@, "-C"@, pane@, "remote"@, "set-url"@, "origin"@, u@]);
                            best_effort(&mut v, w);
                        },
                        None => {},
                    }
                    let ghost first = clone_actions_view(v@);
                    let branch = fork_branch_name(c.base_label.as_str(), c.sid.as_str(), i);
                    let w = vec![
                        "git".to_owned(),
                        "-C".to_owned(),
                        pane.clone(),
                        "checkout".to_owned(),
                        "-b".to_owned(),
                        branch,
                        c.base.clone(),
                    ];
                    let ghost wv = strings_view(w@);
                    assert(wv =~= seq![
                        "git"@,
                        "-C"@,
                        pane@,
                        "checkout"@,
                        "-b"@,
                        branch_name_spec(cv.base_label, cv.sid, i as nat),
                        cv.base,
                    ]);
                    push_clone_action(&mut v, CloneAction::Git(w));
                    assert(clone_actions_view(v@) =~= after_clone(cv, i as nat).1);
                    CloneStep { state: CloneState::CheckingOut(i), actions: v }
                },
                _ => {
                    let pane = pane_dir(c, i);
                    push_clone_action(&mut v, CloneAction::RemoveDir(pane));
                    let ghost first = clone_actions_view(v@);
                    if !url {
                        clone_pane_exec(c, i, true, &mut v);
                        assert(clone_actions_view(v@) =~= seq![CloneActionView::RemoveDir(pane_dir_spec(cv, i as nat))]
                            + clone_pane(cv, i as nat, true).1);
                        CloneStep { state: CloneState::Cloning(i, true), actions: v }
                    } else {
                        let mut m = "git clone failed for pane ".to_owned();
                        m.push_str(usize_to_string(i).as_str());
                        push_clone_action(&mut v, CloneAction::Fail(m));
                        assert(clone_actions_view(v@) =~= seq![
                            CloneActionView::RemoveDir(pane_dir_spec(cv, i as nat)),
                            CloneActionView::Fail("git clone failed for pane "@ + dec_spec(i as nat)),
                        ]);
                        CloneStep { state: CloneState::Finished, actions: v }
                    }
                },
            }
        },
        CloneState::CheckingOut(i) => {
            let i = *i;
            let pane = pane_dir(c, i);
            match event {
                CloneEvent::Ran(true) => {
                    push_clone_action(&mut v, CloneAction::Probe(pane));
                    assert(clone_actions_view(v@) =~= seq![CloneActionView::Probe(pane_dir_spec(cv, i as nat))]);
                    CloneStep { state: CloneState::Probing(i), actions: v }
                },
                _ => {
                    push_clone_action(&mut v, CloneAction::RemoveDir(pane));
                    let branch = fork_branch_name(c.base_label.as_str(), c.sid.as_str(), i);
                    let mut m = "git checkout failed for pane ".to_owned();
                    m.push_str(usize_to_string(i).as_str());
                    m.push_str(" (branch ");
                    m.push_str(branch.as_str());
                    m.push_str(")");
                    push_clone_action(&mut v, CloneAction::Fail(m));
                    assert(clone_step_spec(cv, clone_state_view(*state), *event).1 =~= clone_actions_view(v@));
                    CloneStep { state: CloneState::Finished, actions: v }
                },
            }
        },
        CloneState::Probing(i) => {
            let i = *i;
            match event {
                CloneEvent::Probed { submodules, lfs } => {
                    let pane = pane_dir(c, i);
                    let ghost sub_part: Seq<CloneActionView> = if *submodules {
                        seq![
                            CloneActionView::GitBestEffort(
                                seq![
                                    "git"@,
                                    "-c"@,
                                    "protocol.file.allow=always"@,
                                    "-C"@,
                                    pane@,
                                    "submodule"@,
                                    "update"@,
                                    "--init"@,
                                    "--recursive"@,
                                ],
                            ),
                        ]
                    } else {
                        seq![]
                    };
                    let ghost lfs_part: Seq<CloneActionView> = if *lfs {
                        seq![
                            CloneActionView::GitBestEffort(seq!["git"@, "-C"@, pane@, "lfs"@, "install"@]),
                            CloneActionView::GitBestEffort(seq!["git"@, "-C"@, pane@, "lfs"@, "fetch"@, "--all"@]),
                            CloneActionView::GitBestEffort(seq!["git"@, "-C"@, pane@, "lfs"@, "checkout"@]),
                        ]
                    } else {
                        seq![]
                    };
                    assert(clone_actions_view(v@) =~= Seq::<CloneActionView>::empty());
                    if *submodules {
                        let w = vec![
                            "git".to_owned(),
                            "-c".to_owned(),
                            "protocol.file.allow=always".to_owned(),
                            "-C".to_owned(),
                            pane.clone(),
                            "submodule".to_owned(),
                            "update".to_owned(),
                            "--init".to_owned(),
                            "--recursive".to_owned(),
                        ];
                        assert(strings_view(w@) =~= seq![
                            "git"@,
                            "-c"@,
                            "protocol.file.allow=always"@,
                            "-C"@,
                            pane@,
                            "submodule"@,
                            "update"@,
                            "--init"@,
                            "--recursive"@,
                        ]);
                        best_effort(&mut v, w);
                    }
                    assert(clone_actions_view(v@) =~= sub_part);
                    if *lfs {
                        let w1 = git_in(&pane, vec!["lfs".to_owned(), "install".to_owned()]);
                        assert(strings_view(w1@) =~= seq!["git"@, "-C"@, pane@, "lfs"@, "install"@]);
                        best_effort(&mut v, w1);
                        let w2 = git_in(&pane, vec!["lfs".to_owned(), "fetch".to_owned(), "--all".to_owned()]);
                        assert(strings_view(w2@) =~= seq!["git"@, "-C"@, pane@, "lfs"@, "fetch"@, "--all"@]);
                        best_effort(&mut v, w2);
                        let w3 = git_in(&pane, vec!["lfs".to_owned(), "checkout".to_owned()]);
                        assert(strings_view(w3@) =~= seq!["git"@, "-C"@, pane@, "lfs"@, "checkout"@]);
                        best_effort(&mut v, w3);
                    }
                    assert(clone_actions_view(v@) =~= sub_part + lfs_part);
                    if i < c.panes {
                        clone_pane_exec(c, i + 1, false, &mut v);
                        CloneStep { state: CloneState::Cloning(i + 1, false), actions: v }
                    } else {
                        let res = results_exec(c);
                        push_clone_action(&mut v, CloneAction::Succeed(res));
                        CloneStep { state: CloneState::Finished, actions: v }
                    }
                },
                _ => CloneStep { state: CloneState::Finished, actions: v },
            }
        },
        CloneState::Finished => CloneStep { state: CloneState::Finished, actions: v },
    }
}

} // verus!
