use aifo_coder::fork_prep::{
    commit_tree_args, fork_base_info, fork_clone_and_checkout_panes, has_lfs_filter, snapshot_index_name,
    snapshot_result, snapshot_stage_error, CloneAction, CloneConfig, CloneEvent, CloneState, SnapshotStage,
};
use aifo_coder::fork_sessions::{
    check_and_prompt, confirms, execute, executed_counts, CleanGate, CleanStep, ForkCleanOpts, PaneStatus,
    SessionPlan,
};
use aifo_coder::git::{git_stdout_str, git_supports_lfs};
use aifo_coder::lock::{lock_start, lock_step, LockAction, LockEvent};
use aifo_coder::lock::{
    candidate_lock_paths, hash_repo_key_hex, normalized_repo_key_for_hash, should_acquire_lock,
};
use aifo_coder::merge::{compose_merge_message, summary_line, worktree_dirty};
use aifo_coder::merge_run::{
    fork_merge_branches, fork_merge_branches_by_session, MergeAction, MergeConfig, MergeEvent, MergeState,
};
use aifo_coder::strategy::{strategy_name, MergingStrategy};
use aifo_coder::tidy::{check_file, has_continuation_string, is_rust_path, should_skip_dir};

fn opts(dry_run: bool, yes: bool, force: bool, keep_dirty: bool) -> ForkCleanOpts {
    ForkCleanOpts { session: None, older_than_days: None, all: true, dry_run, yes, force, keep_dirty, json: false }
}

fn pane(dir: &str, clean: bool) -> PaneStatus {
    PaneStatus { dir: dir.to_string(), clean, reasons: if clean { vec![] } else { vec!["dirty".to_string()] } }
}

fn plan() -> Vec<SessionPlan> {
    vec![
        SessionPlan { dir: "/r/.aifo-coder/forks/s1".to_string(), panes: vec![pane("/p/1", true), pane("/p/2", false)] },
        SessionPlan { dir: "/r/.aifo-coder/forks/s2".to_string(), panes: vec![pane("/p/3", true)] },
    ]
}

#[test]
fn clean_refuses_protected_panes_without_force() {
    match check_and_prompt(&plan(), &opts(false, true, false, false), true) {
        Some(CleanGate::Refuse(n)) => assert_eq!(n, 1),
        _ => panic!("expected a refusal"),
    }
}

#[test]
fn clean_asks_with_the_counts_it_will_delete() {
    match check_and_prompt(&plan(), &opts(false, false, false, true), true) {
        Some(CleanGate::Ask(p)) => {
            assert_eq!(p, "aifo-coder: about to delete 1 session(s) and 2 pane(s). Proceed? [y/N] ")
        }
        _ => panic!("expected a prompt"),
    }
    match check_and_prompt(&plan(), &opts(false, false, true, false), true) {
        Some(CleanGate::Ask(p)) => {
            assert_eq!(p, "aifo-coder: about to delete 2 session(s) and 3 pane(s). Proceed? [y/N] ")
        }
        _ => panic!("expected a prompt"),
    }
    assert!(matches!(check_and_prompt(&plan(), &opts(false, false, true, false), false), Some(CleanGate::RefuseNonInteractive)));
    assert!(matches!(check_and_prompt(&plan(), &opts(true, false, true, false), false), Some(CleanGate::Proceed)));
    assert!(confirms(" YES \n"));
    assert!(confirms("y"));
    assert!(!confirms("no"));
}

#[test]
fn execute_deletes_what_was_announced() {
    let o = opts(false, true, false, true);
    let steps = execute(&plan(), &o);
    let sessions = steps.iter().filter(|s| matches!(s, CleanStep::RemoveSession { .. })).count();
    let panes = steps.iter().filter(|s| matches!(s, CleanStep::RemovePane(_))).count();
    assert_eq!((sessions, panes), (1, 2));
    assert_eq!(executed_counts(&plan(), &o), Some((1, 2)));
    match &steps[1] {
        CleanStep::KeepSession { sid, remaining, .. } => {
            assert_eq!(sid, "s1");
            assert_eq!(remaining, &vec!["/p/2".to_string()]);
        }
        _ => panic!("expected the kept session"),
    }
    let dry = execute(&plan(), &opts(true, false, true, false));
    assert!(matches!(&dry[0], CleanStep::ShowRemove(p) if p == "/r/.aifo-coder/forks/s1"));
    assert_eq!(executed_counts(&plan(), &opts(true, false, true, false)), Some((0, 0)));
}

fn merge_cfg(strategy: MergingStrategy, dry_run: bool, verbose: bool) -> MergeConfig {
    MergeConfig {
        repo: "/r".to_string(),
        sid: "sid1".to_string(),
        panes: vec![("/r/p1".to_string(), "fork/main/sid1-1".to_string()), ("/r/p2".to_string(), "fork/main/sid1-2".to_string())],
        base: "main".to_string(),
        strategy,
        verbose,
        dry_run,
        msg_file: "/tmp/aifo-merge-sid1-7.txt".to_string(),
    }
}

fn git_args(a: &MergeAction) -> Vec<String> {
    match a {
        MergeAction::Git(v, _) => v.clone(),
        _ => panic!("expected a git command"),
    }
}

#[test]
fn merge_none_does_nothing_and_fetch_records_metadata() {
    let c = merge_cfg(MergingStrategy::NoMerge, false, false);
    let s = fork_merge_branches(&c, &MergeState::Start, &MergeEvent::Started);
    assert!(matches!(s.actions.as_slice(), [MergeAction::Succeed]));

    let c = merge_cfg(MergingStrategy::Fetch, false, false);
    let s1 = fork_merge_branches(&c, &MergeState::Start, &MergeEvent::Started);
    assert_eq!(
        git_args(&s1.actions[0]),
        vec!["git", "-C", "/r", "-c", "protocol.file.allow=always", "fetch", "--no-tags", "/r/p1", "fork/main/sid1-1:refs/heads/fork/main/sid1-1"]
    );
    let s2 = fork_merge_branches(&c, &s1.state, &MergeEvent::GitRan(true));
    assert!(matches!(s2.state, MergeState::Fetching(1)));
    let s3 = fork_merge_branches(&c, &s2.state, &MergeEvent::GitRan(true));
    match s3.actions.as_slice() {
        [MergeAction::AppendMeta(f), MergeAction::Succeed] => {
            assert_eq!(f, "\"merge_strategy\":\"fetch\",\"fetched\":[\"fork/main/sid1-1\", \"fork/main/sid1-2\"]")
        }
        _ => panic!("expected metadata and success"),
    }
    let bad = fork_merge_branches(&c, &MergeState::Fetching(1), &MergeEvent::GitRan(false));
    assert!(matches!(bad.actions.as_slice(), [MergeAction::Fail(m)] if m == "git fetch failed for pane /r/p2 (branch fork/main/sid1-2)"));
}

#[test]
fn octopus_merge_runs_in_order() {
    let c = merge_cfg(MergingStrategy::Octopus, false, false);
    let s = fork_merge_branches(&c, &MergeState::Fetching(1), &MergeEvent::GitRan(true));
    assert!(matches!(s.actions.as_slice(), [MergeAction::CheckTree]));
    let dirty = fork_merge_branches(&c, &s.state, &MergeEvent::TreeStatus(Some((true, " M src/a.rs\n".to_string()))));
    assert!(matches!(dirty.actions.as_slice(), [MergeAction::Fail(m)] if m == "octopus merge requires a clean working tree in the original repository"));
    let co = fork_merge_branches(&c, &s.state, &MergeEvent::TreeStatus(Some((true, "?? .aifo-coder/x\n".to_string()))));
    assert_eq!(git_args(&co.actions[0]), vec!["git", "-C", "/r", "checkout", "-B", "merge/sid1", "main"]);
    let comp = fork_merge_branches(&c, &co.state, &MergeEvent::GitRan(true));
    assert!(matches!(comp.actions.as_slice(), [MergeAction::Compose]));
    let w = fork_merge_branches(&c, &comp.state, &MergeEvent::Composed("msg".to_string()));
    assert!(matches!(w.actions.as_slice(), [MergeAction::WriteMessage(p, m)] if p == "/tmp/aifo-merge-sid1-7.txt" && m == "msg"));
    let m = fork_merge_branches(&c, &w.state, &MergeEvent::MessageWritten(true));
    assert_eq!(
        git_args(&m.actions[0]),
        vec!["git", "-C", "/r", "merge", "--no-ff", "--no-edit", "-F", "/tmp/aifo-merge-sid1-7.txt", "fork/main/sid1-1", "fork/main/sid1-2"]
    );
    let failed = fork_merge_branches(&c, &m.state, &MergeEvent::GitRan(false));
    match failed.actions.as_slice() {
        [MergeAction::RemoveFile(_), MergeAction::AppendMeta(f), MergeAction::Fail(msg)] => {
            assert!(f.ends_with("\"merge_failed\":true"));
            assert_eq!(msg, "octopus merge failed (conflicts likely). Resolve manually and retry.");
        }
        _ => panic!("expected cleanup, metadata and failure"),
    }
    let ok = fork_merge_branches(&c, &m.state, &MergeEvent::GitRan(true));
    assert!(matches!(ok.actions.as_slice(), [MergeAction::RemoveFile(_), MergeAction::ReadHead(true)]));
    let done = fork_merge_branches(&c, &ok.state, &MergeEvent::Head("abc".to_string(), 99));
    match done.actions.as_slice() {
        [MergeAction::AppendMeta(f), MergeAction::GitBestEffort(del, true), MergeAction::Succeed] => {
            assert!(f.contains("\"merge_target\":\"merge/sid1\",\"merge_commit_sha\":\"abc\",\"merged_at\":99"));
            assert_eq!(del, &vec!["git", "-C", "/r", "branch", "-D", "fork/main/sid1-1", "fork/main/sid1-2"]);
        }
        _ => panic!("expected metadata, branch deletion and success"),
    }
}

#[test]
fn dry_run_octopus_only_prints() {
    let c = merge_cfg(MergingStrategy::Octopus, true, false);
    let s = fork_merge_branches(&c, &MergeState::Start, &MergeEvent::Started);
    match s.actions.as_slice() {
        [MergeAction::Log(l)] => assert!(l.starts_with("aifo-coder: git: 'git' '-C' '/r'")),
        _ => panic!("expected only a log line"),
    }
    let w = fork_merge_branches(&c, &MergeState::WritingMessage, &MergeEvent::Continue);
    match w.actions.as_slice() {
        [MergeAction::Log(l)] => assert!(l.contains("'-F' '/tmp/aifo-merge-sid1-7.txt'")),
        _ => panic!("expected only a log line"),
    }
    let h = fork_merge_branches(&c, &MergeState::Merging(false), &MergeEvent::Continue);
    assert!(matches!(h.actions.as_slice(), [MergeAction::ReadHead(false)]));
}

#[test]
fn merge_by_session_checks_the_session() {
    let dirs = vec!["/s/pane-1".to_string(), "/s/pane-2".to_string()];
    let heads = vec![Some("HEAD".to_string()), Some("fork/main/s-2".to_string())];
    match fork_merge_branches_by_session(MergingStrategy::Fetch, "/s", true, &dirs, &heads, &None) {
        Ok(Some((base, panes))) => {
            assert_eq!(base, "HEAD");
            assert_eq!(panes, vec![("/s/pane-2".to_string(), "fork/main/s-2".to_string())]);
        }
        _ => panic!("expected panes"),
    }
    let meta = Some("{ \"base_ref_or_sha\": \"dev\" }".to_string());
    match fork_merge_branches_by_session(MergingStrategy::Octopus, "/s", true, &dirs, &heads, &meta) {
        Ok(Some((base, _))) => assert_eq!(base, "dev"),
        _ => panic!("expected panes"),
    }
    match fork_merge_branches_by_session(MergingStrategy::Fetch, "/s", false, &dirs, &heads, &None) {
        Err(e) => {
            assert!(e.not_found);
            assert_eq!(e.message, "fork session directory not found: /s");
        }
        _ => panic!("expected not found"),
    }
    match fork_merge_branches_by_session(MergingStrategy::Fetch, "/s", true, &dirs, &vec![None, None], &None) {
        Err(e) => assert_eq!(e.message, "no pane branches found (detached HEAD?)"),
        _ => panic!("expected an error"),
    }
    assert!(matches!(fork_merge_branches_by_session(MergingStrategy::NoMerge, "/s", false, &vec![], &vec![], &None), Ok(None)));
}

#[test]
fn test_compose_merge_message_prefix_and_truncation() {
    // The log of `main..feature` holds one commit with a very long subject.
    let long_subject = "feat: ".to_string() + &"x".repeat(200);
    let subjects = vec![Some(long_subject.clone())];
    let logs = vec![Some(format!("abc1234 {}", long_subject))];
    let msg = compose_merge_message(&vec!["feature".to_string()], "main", &subjects, &logs);

    // First line must start with "Octopus merge:"
    let first_line = msg.lines().next().unwrap_or("");
    assert!(
        first_line.to_ascii_lowercase().starts_with("octopus merge"),
        "first line should start with 'Octopus merge', got: {}",
        first_line
    );

    // Ensure truncation occurred (summary line length <= ~170)
    assert!(
        first_line.len() <= 170,
        "summary line should be reasonably truncated, got len={} line={}",
        first_line.len(),
        first_line
    );
}

#[test]
fn merge_message_summary_and_sections() {
    let subjects = vec![Some("feat: add thing\nfix: repair thing\n".to_string())];
    let msg = compose_merge_message(&vec!["feature".to_string()], "main", &subjects, &vec![Some("abc1234 feat: add thing".to_string())]);
    let first = msg.lines().next().unwrap_or("");
    assert_eq!(first, "Octopus merge: add thing / repair thing");
    assert!(msg.contains("- branch 'feature':\n  * abc1234 feat: add thing\n"));
    let msg = compose_merge_message(&vec!["b".to_string()], "main", &vec![None], &vec![None]);
    assert!(msg.starts_with("Octopus merge of 1 branch(es)\n\nBranch summaries relative to main:\n"));
    assert!(msg.contains("(unable to summarize changes)"));
}

#[test]
fn merge_summary_cut_keeps_within_170_bytes_at_char_boundaries() {
    let parts = vec!["é".repeat(100)];
    let line = summary_line(&parts, 1);
    assert!(line.len() <= 170, "len={}", line.len());
    assert_eq!(line, format!("Octopus merge: {} \u{2026}", "é".repeat(75)));
    let own = vec!["Octopus merge of things".to_string()];
    assert_eq!(summary_line(&own, 1), "Octopus merge of things");
    let exact = vec!["y".repeat(155)];
    assert_eq!(summary_line(&exact, 1).len(), 170);
    let over = vec![format!("{}   {}", "z".repeat(149), "w".repeat(10))];
    assert_eq!(summary_line(&over, 1), format!("Octopus merge: {} \u{2026}", "z".repeat(149)));
}

#[test]
fn worktree_dirt_ignores_our_own_directory() {
    assert!(!worktree_dirty(&Some((true, "".to_string()))));
    assert!(!worktree_dirty(&Some((true, "?? .aifo-coder/forks/x\n".to_string()))));
    assert!(worktree_dirty(&Some((true, " M a.rs\n".to_string()))));
    assert!(worktree_dirty(&Some((false, "".to_string()))));
    assert!(worktree_dirty(&None));
}

fn clone_cfg(panes: usize, push_url: Option<&str>) -> CloneConfig {
    CloneConfig {
        root: "/r".to_string(),
        sid: "sid1".to_string(),
        panes,
        base: "abc123".to_string(),
        base_label: "Main".to_string(),
        dissociate: true,
        windows: false,
        push_url: push_url.map(|s| s.to_string()),
        session_dir: "/r/.aifo-coder/forks/sid1".to_string(),
    }
}

#[test]
fn clone_panes_tries_path_then_file_url() {
    let c = clone_cfg(1, Some("git@example.com:o/r.git"));
    let s = fork_clone_and_checkout_panes(&c, &CloneState::Start, &CloneEvent::Started);
    match s.actions.as_slice() {
        [CloneAction::Git(a)] => assert_eq!(
            a,
            &vec!["git", "clone", "--no-checkout", "--reference-if-able", "/r", "--dissociate", "/r", "/r/.aifo-coder/forks/sid1/pane-1"]
        ),
        _ => panic!("expected a clone"),
    }
    let retry = fork_clone_and_checkout_panes(&c, &s.state, &CloneEvent::Ran(false));
    match retry.actions.as_slice() {
        [CloneAction::RemoveDir(d), CloneAction::Git(a)] => {
            assert_eq!(d, "/r/.aifo-coder/forks/sid1/pane-1");
            assert_eq!(&a[..3], &["git".to_string(), "-c".to_string(), "protocol.file.allow=always".to_string()]);
            assert!(a.contains(&"file:///r".to_string()));
        }
        _ => panic!("expected removal and second clone"),
    }
    let fail = fork_clone_and_checkout_panes(&c, &retry.state, &CloneEvent::Ran(false));
    assert!(matches!(fail.actions.as_slice(), [CloneAction::RemoveDir(_), CloneAction::Fail(m)] if m == "git clone failed for pane 1"));
    let co = fork_clone_and_checkout_panes(&c, &s.state, &CloneEvent::Ran(true));
    match co.actions.as_slice() {
        [CloneAction::GitBestEffort(u), CloneAction::Git(a)] => {
            assert_eq!(u.last().map(|s| s.as_str()), Some("git@example.com:o/r.git"));
            assert_eq!(a, &vec!["git", "-C", "/r/.aifo-coder/forks/sid1/pane-1", "checkout", "-b", "fork/main/sid1-1", "abc123"]);
        }
        _ => panic!("expected push URL and checkout"),
    }
    let cf = fork_clone_and_checkout_panes(&c, &co.state, &CloneEvent::Ran(false));
    assert!(matches!(cf.actions.as_slice(), [CloneAction::RemoveDir(_), CloneAction::Fail(m)] if m == "git checkout failed for pane 1 (branch fork/main/sid1-1)"));
    let pr = fork_clone_and_checkout_panes(&c, &co.state, &CloneEvent::Ran(true));
    assert!(matches!(pr.actions.as_slice(), [CloneAction::Probe(_)]));
    let done = fork_clone_and_checkout_panes(&c, &pr.state, &CloneEvent::Probed { submodules: true, lfs: true });
    match done.actions.as_slice() {
        [CloneAction::GitBestEffort(sm), CloneAction::GitBestEffort(_), CloneAction::GitBestEffort(_), CloneAction::GitBestEffort(_), CloneAction::Succeed(r)] => {
            assert!(sm.contains(&"submodule".to_string()));
            assert_eq!(r, &vec![("/r/.aifo-coder/forks/sid1/pane-1".to_string(), "fork/main/sid1-1".to_string())]);
        }
        _ => panic!("expected submodule and lfs steps then success"),
    }
    let none = fork_clone_and_checkout_panes(&clone_cfg(0, None), &CloneState::Start, &CloneEvent::Started);
    assert!(matches!(none.actions.as_slice(), [CloneAction::Succeed(r)] if r.is_empty()));
}

#[test]
fn base_info_and_snapshot_pieces() {
    assert_eq!(
        fork_base_info(&Some("Feature/X".to_string()), &Some("abc".to_string())),
        ("feature-x".to_string(), "Feature/X".to_string(), "abc".to_string())
    );
    assert_eq!(
        fork_base_info(&Some("HEAD".to_string()), &Some("abc".to_string())),
        ("detached".to_string(), "abc".to_string(), "abc".to_string())
    );
    assert_eq!(fork_base_info(&None, &None), ("detached".to_string(), String::new(), String::new()));
    assert_eq!(snapshot_index_name("sid", 42), "index.aifo-sid-42");
    assert_eq!(
        commit_tree_args("/r", "t1", Some("p1"), "sid"),
        vec!["git", "-C", "/r", "commit-tree", "t1", "-p", "p1", "-m", "aifo-fork snapshot sid"]
    );
    assert_eq!(commit_tree_args("/r", "t1", None, "sid").len(), 7);
    assert_eq!(snapshot_result(true, "abc", ""), Ok("abc".to_string()));
    assert_eq!(snapshot_result(true, "", ""), Err("empty snapshot SHA from commit-tree".to_string()));
    assert_eq!(snapshot_result(false, "", "boom"), Err("git commit-tree failed for snapshot: boom".to_string()));
    assert_eq!(snapshot_stage_error(SnapshotStage::Add), "git add -A failed for snapshot");
    assert_eq!(snapshot_stage_error(SnapshotStage::WriteTree), "git write-tree failed for snapshot");
    assert!(has_lfs_filter("*.bin filter=lfs diff=lfs merge=lfs -text\n"));
    assert!(!has_lfs_filter("*.txt text\n"));
}

#[test]
fn tidy_finds_multiline_and_continuation_strings() {
    let f = check_file("a.rs", "let s = \"a\nb\";\n");
    assert_eq!(f.len(), 1);
    assert_eq!(f[0].line_1, 1);
    assert_eq!(f[0].msg, "forbidden multi-line string literal");
    assert_eq!(f[0].path, "a.rs");
    let f = check_file("b.rs", "fn x() {}\nlet s = \"abc\\\n  def\";\n");
    assert_eq!(f.len(), 2);
    assert_eq!(f[0].msg, "forbidden continuation string: `\"\\` at end of line");
    assert_eq!(f[0].line_1, 2);
    assert_eq!(f[1].msg, "forbidden multi-line string literal");
    assert!(check_file("c.rs", "// \"a\n/* \"b\n */ let x = \"ok\";\n").is_empty());
    assert!(check_file("d.rs", "let s = r\"one line\";\n").is_empty());
    assert!(has_continuation_string("\"abc\\"));
    assert!(has_continuation_string("let s = \"abc\\  "));
    assert!(has_continuation_string("let s = \"abc\\ \t"));
    assert!(!has_continuation_string("let s = \"abc\\ x"));
    assert!(!has_continuation_string("\"abc\""));
    assert!(is_rust_path("main.rs") && is_rust_path("build.rs") && !is_rust_path("main.py"));
    assert!(should_skip_dir("target") && !should_skip_dir("src"));
}

#[test]
fn candidate_lock_paths_includes_xdg_runtime_dir() {
    let paths = candidate_lock_paths(None, "", Some("/run/user/1000"), "/tmp", Some("/home/u"), Some("/work"));
    assert!(paths.contains(&"/run/user/1000/aifo-coder.lock".to_string()), "candidate_lock_paths missing expected XDG_RUNTIME_DIR path: {:?}", paths);
    assert_eq!(paths, vec!["/home/u/.aifo-coder.lock", "/run/user/1000/aifo-coder.lock", "/tmp/aifo-coder.lock", "/work/.aifo-coder.lock"]);
}

#[test]
fn candidate_lock_paths_includes_cwd_lock_outside_repo() {
    let paths = candidate_lock_paths(None, "", None, "/tmp", None, Some("/work"));
    assert!(paths.contains(&"/work/.aifo-coder.lock".to_string()), "candidate_lock_paths missing expected CWD lock path in {:?}", paths);
    let in_repo = candidate_lock_paths(Some("/repo"), "/repo", Some(""), "/tmp", None, None);
    assert_eq!(in_repo[0], "/repo/.aifo-coder.lock");
    assert_eq!(in_repo[1], format!("/tmp/aifo-coder.{}.lock", hash_repo_key_hex("/repo")));
    assert_eq!(in_repo[2], "/tmp/aifo-coder.lock");
}

#[test]
fn should_acquire_lock_env() {
    assert!(should_acquire_lock(None), "should acquire lock by default");
    assert!(!should_acquire_lock(Some("1")), "should not acquire lock when AIFO_CODER_SKIP_LOCK=1");
    assert!(should_acquire_lock(Some("0")));
}

#[test]
fn repo_keys_hash_with_fnv1a() {
    assert_eq!(hash_repo_key_hex(""), "cbf29ce484222325");
    assert_eq!(hash_repo_key_hex("a"), "af63dc4c8601ec8c");
    assert_eq!(normalized_repo_key_for_hash("/Repo/X", false), "/Repo/X");
    assert_eq!(normalized_repo_key_for_hash("c:/Users/Me", true), "C:\\users\\me");
    assert_eq!(normalized_repo_key_for_hash("/Repo", true), "\\repo");
}

#[test]
fn git_output_helpers_and_strategy_names() {
    assert_eq!(git_stdout_str(true, b" main\n").as_deref(), Some("main"));
    assert_eq!(git_stdout_str(false, b"main"), None);
    assert_eq!(git_stdout_str(true, &[b' ', b'a', 0xff, b'\n']).as_deref(), Some("a\u{fffd}"));
    assert!(git_supports_lfs(Some(true)) && !git_supports_lfs(Some(false)) && !git_supports_lfs(None));
    assert_eq!(strategy_name(MergingStrategy::NoMerge), "none");
    assert_eq!(strategy_name(MergingStrategy::Fetch), "fetch");
    assert_eq!(strategy_name(MergingStrategy::Octopus), "octopus");
}

fn paths2() -> Vec<String> {
    vec!["/repo/.aifo-coder.lock".to_string(), "/tmp/aifo-coder.lock".to_string()]
}

#[test]
fn lock_steps_take_the_first_lockable_candidate() {
    let p = paths2();
    assert!(matches!(lock_start(&p), LockAction::Try(0)));
    assert!(matches!(lock_step(&p, 0, LockEvent::Failed("denied".to_string())), LockAction::Try(1)));
    assert!(matches!(lock_step(&p, 1, LockEvent::Locked), LockAction::Acquired(1)));
}

#[test]
fn lock_steps_refuse_when_held_or_exhausted() {
    let p = paths2();
    match lock_step(&p, 0, LockEvent::Held) {
        LockAction::Refuse(m) => {
            assert_eq!(m, "Another coding agent is already running (lock held). Please try again later.")
        }
        _ => panic!("expected a refusal"),
    }
    match lock_step(&p, 1, LockEvent::Failed("Permission denied (os error 13)".to_string())) {
        LockAction::Refuse(m) => assert_eq!(
            m,
            "Failed to create lock file in any candidate location: /repo/.aifo-coder.lock, /tmp/aifo-coder.lock (last error: Permission denied (os error 13))"
        ),
        _ => panic!("expected a refusal"),
    }
    match lock_start(&Vec::new()) {
        LockAction::Refuse(m) => assert_eq!(m, "Failed to create lock file in any candidate location: "),
        _ => panic!("expected a refusal"),
    }
}

#[test]
fn windows_repo_key_ignores_case_and_separator_style() {
    let a = normalized_repo_key_for_hash("C:/Users/Me/Repo", true);
    let b = normalized_repo_key_for_hash("c:\\users\\ME\\repo", true);
    assert_eq!(a, "C:\\users\\me\\repo");
    assert_eq!(a, b);
    assert_eq!(hash_repo_key_hex(&a), hash_repo_key_hex(&b));
    assert_ne!(normalized_repo_key_for_hash("/Repo", false), normalized_repo_key_for_hash("/repo", false));
}

#[test]
fn tidy_findings_in_line_order_within_the_text() {
    let text = "let a = \"x\\  \n y\";\nlet b = r#\"p\nq\"#;\nlet c = \"m\nn\";\n";
    let f = check_file("e.rs", text);
    let lines: Vec<usize> = f.iter().map(|x| x.line_1).collect();
    assert_eq!(lines, vec![1, 1, 3, 5]);
    assert_eq!(f[0].msg, "forbidden continuation string: `\"\\` at end of line");
    assert_eq!(f[2].msg, "forbidden multi-line raw string literal");
    let max = 1 + text.matches('\n').count();
    assert!(f.iter().all(|x| x.path == "e.rs" && 1 <= x.line_1 && x.line_1 <= max));
    assert!(check_file("f.rs", "fn main() {}\n// no quotes here\n").is_empty());
}
