use aifo_coder::cli::{fork_build_child_args, Agent, Cli, Flavor, ToolchainSpec};
use aifo_coder::color::ColorMode;
use aifo_coder::fork_names::{fork_env_for_pane, fork_inner_env_kv};
use aifo_coder::strategy::MergingStrategy;

#[test]
fn test_fork_env_contains_expected_keys() {
    let sid = "sid-ut";
    let pane_index = 2usize;
    let container_name = "aifo-coder-aider-sid-ut-2";
    let state_dir = "./state/p2";

    let envs = fork_env_for_pane(sid, pane_index, container_name, state_dir);

    let get = |k: &str| -> Option<String> {
        envs.iter().find(|(kk, _)| kk == k).map(|(_, v)| v.clone())
    };

    assert_eq!(
        get("AIFO_CODER_SUPPRESS_TOOLCHAIN_WARNING").as_deref(),
        Some("1")
    );
    assert_eq!(get("AIFO_CODER_SKIP_LOCK").as_deref(), Some("1"));
    assert_eq!(
        get("AIFO_CODER_CONTAINER_NAME"),
        Some(container_name.to_string())
    );
    assert_eq!(get("AIFO_CODER_HOSTNAME"), Some(container_name.to_string()));
    assert_eq!(get("AIFO_CODER_FORK_SESSION"), Some(sid.to_string()));
    assert_eq!(get("AIFO_CODER_FORK_INDEX").as_deref(), Some("2"));
    assert_eq!(get("AIFO_CODER_FORK_STATE_DIR").as_deref(), Some(state_dir));
}

#[test]
fn test_fork_inner_env_kv_excludes_suppress_and_has_expected_keys() {
    let agent = "aider";
    let sid = "sid-ut";
    let i = 2usize;
    let dir = "./state/p2";
    let kv = fork_inner_env_kv(agent, sid, i, dir);

    let get = |k: &str| -> Option<String> {
        kv.iter().find(|(kk, _)| kk == k).map(|(_, v)| v.clone())
    };

    assert!(
        !kv.iter()
            .any(|(k, _)| k == "AIFO_CODER_SUPPRESS_TOOLCHAIN_WARNING"),
        "inner env kv must not include SUPPRESS var"
    );

    assert_eq!(get("AIFO_CODER_SKIP_LOCK").as_deref(), Some("1"));
    assert_eq!(
        get("AIFO_CODER_CONTAINER_NAME").as_deref(),
        Some("aifo-coder-aider-sid-ut-2")
    );
    assert_eq!(
        get("AIFO_CODER_HOSTNAME").as_deref(),
        Some("aifo-coder-aider-sid-ut-2")
    );
    assert_eq!(get("AIFO_CODER_FORK_SESSION").as_deref(), Some("sid-ut"));
    assert_eq!(get("AIFO_CODER_FORK_INDEX").as_deref(), Some("2"));
    assert_eq!(get("AIFO_CODER_FORK_STATE_DIR").as_deref(), Some(dir));
}

fn spec(s: &str) -> ToolchainSpec {
    ToolchainSpec::parse(s).expect("valid toolchain spec")
}

fn make_cli_for_test() -> Cli {
    Cli {
        image: Some("example.com/org/agent:tag".to_string()),
        toolchain: vec![
            spec("rust"),
            spec("node"),
            spec("python@3.12"),
            spec("go=golang:1.22-bookworm"),
        ],
        no_toolchain_cache: true,
        toolchain_unix_socket: false,
        toolchain_bootstrap: vec!["typescript=global".to_string()],
        verbose: true,
        debug_otel_otlp: false,
        quiet: false,
        ignore_local_images: false,
        non_interactive: false,
        flavor: Some(Flavor::Slim),
        invalidate_registry_cache: false,
        dry_run: true,
        fork: Some(3),
        fork_include_dirty: true,
        fork_dissociate: true,
        fork_session_name: Some("ut-session".to_string()),
        fork_layout: Some("even-h".to_string()),
        fork_keep_on_failure: true,
        fork_merging_strategy: MergingStrategy::NoMerge,
        fork_merging_autoclean: false,
        color: Some(ColorMode::Auto),
        command: Agent::Aider {
            args: vec!["--help".to_string(), "--".to_string(), "extra".to_string()],
        },
    }
}

#[test]
fn test_fork_build_child_args_strips_fork_flags_and_preserves_agent_args() {
    let cli = make_cli_for_test();
    let args = fork_build_child_args(&cli);
    assert!(
        args.iter().any(|s| s == "aider"),
        "child args must contain agent subcommand, got: {:?}",
        args
    );
    let joined = args.join(" ");
    assert!(
        joined.contains("--image example.com/org/agent:tag"),
        "expected --image in child args: {}",
        joined
    );
    assert!(
        joined.contains("--toolchain rust")
            && joined.contains("--toolchain node")
            && joined.contains("--toolchain python@3.12")
            && joined.contains("--toolchain go=golang:1.22-bookworm"),
        "expected --toolchain specs in child args: {}",
        joined
    );
    assert!(
        !joined.contains("--toolchain-spec"),
        "unexpected legacy flag --toolchain-spec in child args: {}",
        joined
    );
    assert!(
        !joined.contains("--toolchain-image"),
        "unexpected legacy flag --toolchain-image in child args: {}",
        joined
    );
    assert!(
        joined.contains("--no-toolchain-cache"),
        "expected --no-toolchain-cache in child args: {}",
        joined
    );
    assert!(
        joined.contains("--flavor slim"),
        "expected --flavor slim in child args: {}",
        joined
    );
    assert!(
        joined.contains("--dry-run"),
        "expected --dry-run in child args: {}",
        joined
    );
    for bad in [
        "--fork ",
        "--fork-include-dirty",
        "--fork-dissociate",
        "--fork-session-name",
        "--fork-layout",
        "--fork-keep-on-failure",
        "--fork-merge-strategy",
        "--fork-merge-no-autoclean",
    ] {
        assert!(
            !joined.contains(bad),
            "fork flag leaked into child args: {} in {}",
            bad,
            joined
        );
    }
    assert!(
        args.contains(&"--".to_string()),
        "expected literal '--' argument to be present in child args: {:?}",
        args
    );
    let idx_boundary = args.iter().position(|s| s == "--");
    let idx_extra = args.iter().position(|s| s == "extra");
    assert!(
        idx_boundary.is_some() && idx_extra.is_some() && idx_boundary < idx_extra,
        "expected '--' to appear before trailing agent args, got: {:?}",
        args
    );
    let dashdash_count = args.iter().filter(|s| s.as_str() == "--").count();
    assert_eq!(
        dashdash_count, 1,
        "expected exactly one '--' token, got: {:?}",
        args
    );
    assert!(
        joined.contains("aider --help"),
        "expected agent arg '--help' to be present: {}",
        joined
    );
    assert!(
        joined.contains("extra"),
        "expected trailing agent arg to be present: {}",
        joined
    );
}

fn bare_cli(command: Agent) -> Cli {
    Cli {
        image: None,
        toolchain: Vec::new(),
        no_toolchain_cache: false,
        toolchain_unix_socket: false,
        toolchain_bootstrap: Vec::new(),
        verbose: false,
        debug_otel_otlp: false,
        quiet: false,
        ignore_local_images: false,
        non_interactive: false,
        flavor: None,
        invalidate_registry_cache: false,
        dry_run: false,
        fork: None,
        fork_include_dirty: false,
        fork_dissociate: false,
        fork_session_name: None,
        fork_layout: None,
        fork_keep_on_failure: true,
        fork_merging_strategy: MergingStrategy::Octopus,
        fork_merging_autoclean: true,
        color: None,
        command,
    }
}

#[test]
fn test_non_agent_subcommands_default_to_aider_in_child_args() {
    let cli = bare_cli(Agent::Images);
    let args = fork_build_child_args(&cli);
    assert!(
        args.iter().any(|s| s == "aider"),
        "expected aider in child args for non-agent subcommand, got: {:?}",
        args
    );

    let cli2 = bare_cli(Agent::Doctor);
    let args2 = fork_build_child_args(&cli2);
    assert!(
        args2.iter().any(|s| s == "aider"),
        "expected aider in child args for doctor subcommand, got: {:?}",
        args2
    );
}
