use aifo_coder::docker::compute_effective_agent_image_for_run;
use aifo_coder::docker::{default_image_for, ImageEnv};
use aifo_coder::docker::pane_dirs_for_session;
use aifo_coder::docker::{
    default_image_name, hub_fallback, local_latest_candidate, login_args, looks_like_auth_error,
    parse_registry_host, pull_image_with_autologin, pull_notice, set_image_tag, PullAction, PullConfig,
    PullEvent, PullState,
};
use aifo_coder::images::{format_image_metadata, image_metadata, images_effective, ImageMetadata, InspectFacts};
use aifo_coder::proxy::{
    cli_ignore_local_images, force_direct_allowed, mark_proxy_unreachable, parse_proxy_target,
    proxy_clear_envs, proxy_fallback_enabled, proxy_targets, reset_proxy_state_for_tests,
    set_ignore_local_images, should_force_direct_proxy, ProxyEnv, ProxyState,
};
use aifo_coder::proxy::{target_next, TargetStep};
use aifo_coder::registry::{fallback_next, FallbackStep};
use aifo_coder::registry::{
    compose_internal_prefix, is_our_image, normalize_registry_prefix, preferred_internal_registry_prefix_quiet,
    preferred_internal_registry_source, registry_namespace, resolve_image, retag_image, RegistryEnv,
    RegistryState,
};

fn cfg(image: &str, verbose: bool, auto_login: bool, interactive: bool) -> PullConfig {
    PullConfig {
        image: image.to_string(),
        agent_label: Some("aider".to_string()),
        verbose,
        auto_login,
        interactive,
    }
}

fn pulled(ok: bool, stderr: &str, code: i32) -> PullEvent {
    PullEvent::Pulled { ok, stdout: String::new(), stderr: stderr.to_string(), code }
}

#[test]
fn quiet_pull_announces_and_succeeds() {
    let c = cfg("repo/img:1", false, true, true);
    let s = pull_image_with_autologin(&c, &PullState::Start, &PullEvent::Started);
    assert_eq!(s.log.as_deref(), Some("aifo-coder: pulling agent image [aider]: repo/img:1"));
    match &s.action {
        PullAction::Pull { image, capture } => {
            assert_eq!(image, "repo/img:1");
            assert!(*capture);
        }
        _ => panic!("expected a pull"),
    }
    let s2 = pull_image_with_autologin(&c, &s.state, &pulled(true, "", 0));
    assert!(matches!(s2.action, PullAction::Succeed));
    assert!(matches!(s2.state, PullState::Finished));
}

#[test]
fn quiet_pull_logs_in_and_retries_on_auth_error() {
    let c = cfg("registry.example.com/team/img:2", false, true, true);
    let s = pull_image_with_autologin(&c, &PullState::First, &pulled(false, "Error: unauthorized: authentication required", 1));
    assert_eq!(s.log.as_deref(), Some("aifo-coder: docker login registry.example.com"));
    match &s.action {
        PullAction::Login(args) => assert_eq!(args, &vec!["login".to_string(), "registry.example.com".to_string()]),
        _ => panic!("expected a login"),
    }
    let s2 = pull_image_with_autologin(&c, &s.state, &PullEvent::LoggedIn(true));
    assert_eq!(s2.log.as_deref(), Some("aifo-coder: retrying pull after login"));
    assert!(matches!(s2.action, PullAction::Pull { capture: true, .. }));
    let s3 = pull_image_with_autologin(&c, &s2.state, &pulled(false, "", 1));
    match &s3.action {
        PullAction::Fail { permission_denied, message } => {
            assert!(*permission_denied);
            assert_eq!(message, "docker pull failed after login");
        }
        _ => panic!("expected a failure"),
    }
    let s4 = pull_image_with_autologin(&c, &PullState::Login, &PullEvent::LoggedIn(false));
    assert!(matches!(&s4.action, PullAction::Fail { message, .. } if message == "docker login failed"));
}

#[test]
fn quiet_pull_falls_back_to_docker_hub_then_reports_both() {
    let c = cfg("registry.example.com/team/img:2", false, false, true);
    let s = pull_image_with_autologin(&c, &PullState::First, &pulled(false, "unauthorized", 1));
    assert_eq!(s.log, None);
    match &s.action {
        PullAction::Pull { image, capture } => {
            assert_eq!(image, "img:2");
            assert!(*capture);
        }
        _ => panic!("expected the hub pull"),
    }
    let s2 = pull_image_with_autologin(&c, &s.state, &pulled(false, "", 1));
    match &s2.action {
        PullAction::Fail { permission_denied, message } => {
            assert!(*permission_denied);
            assert_eq!(message, "docker pull failed; tried: registry.example.com/team/img:2, img:2");
        }
        _ => panic!("expected a failure"),
    }
}

#[test]
fn quiet_pull_of_unqualified_image_reports_status() {
    let c = cfg("img", false, true, false);
    let s = pull_image_with_autologin(&c, &PullState::First, &pulled(false, "manifest unknown", -1));
    assert!(matches!(&s.action, PullAction::Fail { message, .. } if message == "docker pull failed (status -1)"));
}

#[test]
fn verbose_pull_diagnoses_with_a_captured_second_pull() {
    let c = cfg("img:1", true, true, true);
    let s = pull_image_with_autologin(&c, &PullState::Start, &PullEvent::Started);
    assert_eq!(s.log.as_deref(), Some("aifo-coder: docker: docker pull img:1"));
    assert!(matches!(s.action, PullAction::Pull { capture: false, .. }));
    let s2 = pull_image_with_autologin(&c, &s.state, &pulled(false, "", 1));
    assert!(matches!(s2.state, PullState::Diagnose));
    assert!(matches!(s2.action, PullAction::Pull { capture: true, .. }));
    let s3 = pull_image_with_autologin(&c, &s2.state, &pulled(false, "pull access denied", 1));
    assert_eq!(s3.log.as_deref(), Some("aifo-coder: docker: docker login"));
    let s4 = pull_image_with_autologin(&c, &PullState::Diagnose, &pulled(false, "other", 1));
    assert!(matches!(&s4.action, PullAction::Fail { permission_denied: true, message } if message == "docker pull failed"));
    let q = cfg("ghcr.io/o/img", true, false, false);
    let h = pull_image_with_autologin(&q, &PullState::Diagnose, &pulled(false, "x", 1));
    assert_eq!(h.log.as_deref(), Some("aifo-coder: docker: docker pull img:latest"));
    let f = pull_image_with_autologin(&q, &h.state, &pulled(false, "", 1));
    assert!(matches!(&f.action, PullAction::Fail { permission_denied: false, .. }));
}

#[test]
fn image_reference_helpers() {
    assert_eq!(parse_registry_host("registry.example.com/team/img:2").as_deref(), Some("registry.example.com"));
    assert_eq!(parse_registry_host("localhost/img").as_deref(), Some("localhost"));
    assert_eq!(parse_registry_host("team/img"), None);
    assert_eq!(hub_fallback("ghcr.io/o/img@sha256:abc").as_deref(), Some("img@sha256:latest"));
    assert_eq!(hub_fallback("ghcr.io/o/img:7").as_deref(), Some("img:7"));
    assert_eq!(hub_fallback("team/img:1"), None);
    assert!(looks_like_auth_error("", "Error: requested access to the resource is denied"));
    assert!(looks_like_auth_error("UNAUTHORIZED", ""));
    assert!(!looks_like_auth_error("not found", ""));
    assert_eq!(login_args("img"), vec!["login".to_string()]);
    assert_eq!(pull_notice(None, "img"), "aifo-coder: pulling agent image: img");
    assert_eq!(set_image_tag("host:5000/a/b:1@sha256:x", "2"), "host:5000/a/b:2");
    assert_eq!(local_latest_candidate("a/b:1"), "a/b:latest");
    assert_eq!(default_image_name("aifo-coder", "aider", true, "latest"), "aifo-coder-aider-slim:latest");
}

#[test]
fn registry_prefixes_and_images() {
    assert_eq!(normalize_registry_prefix("  repo.example.com///  "), "repo.example.com/");
    assert_eq!(normalize_registry_prefix("   "), "");
    assert_eq!(normalize_registry_prefix("/"), "/");
    let once = normalize_registry_prefix("x//");
    assert_eq!(normalize_registry_prefix(&once), once);
    assert!(is_our_image("aifo-coder-aider:latest"));
    assert!(is_our_image("reg/x/aifo-coder-toolchain-rust@sha256:1"));
    assert!(!is_our_image("python:3"));
    assert_eq!(retag_image("a/b:1", "2"), "a/b:2");
    assert_eq!(retag_image("host:5000/b", "2"), "host:5000/b:2");
    assert_eq!(compose_internal_prefix("/team//ns/"), "registry.intern.migros.net/team/ns/");
    assert_eq!(registry_namespace(&None), "ai-foundation/prototypes/aifo-coder-rs");
}

#[test]
fn resolve_image_keeps_explicit_registries() {
    let internal = || "internal.example/".to_string();
    let mirror = || "mirror.example/".to_string();
    assert_eq!(resolve_image("ghcr.io/o/img:1", internal, mirror), "ghcr.io/o/img:1");
    assert_eq!(resolve_image("aifo-coder-aider:latest", internal, mirror), "internal.example/aifo-coder-aider:latest");
    assert_eq!(resolve_image("python:3", internal, mirror), "internal.example/python:3");
    assert_eq!(resolve_image("python:3", || String::new(), mirror), "mirror.example/python:3");
    assert_eq!(resolve_image("python:3", || String::new(), || String::new()), "python:3");
    assert_eq!(resolve_image("node:20", || "reg.example/".to_string(), || String::new()), "reg.example/node:20");
    assert_eq!(resolve_image("library/node:20", || String::new(), mirror), "mirror.example/library/node:20");
}

#[test]
fn internal_prefix_is_fixed_by_the_first_call() {
    let mut st = RegistryState::new();
    let env = RegistryEnv {
        test_probe: None,
        mirror_prefix: None,
        internal_prefix: Some("reg.example.com".to_string()),
        internal_namespace: None,
    };
    assert_eq!(preferred_internal_registry_prefix_quiet(&mut st, &env), "reg.example.com/");
    assert_eq!(preferred_internal_registry_source(&st), "env");
    let later = RegistryEnv { test_probe: None, mirror_prefix: None, internal_prefix: None, internal_namespace: None };
    assert_eq!(preferred_internal_registry_prefix_quiet(&mut st, &later), "reg.example.com/");
    let mut st2 = RegistryState::new();
    assert_eq!(preferred_internal_registry_prefix_quiet(&mut st2, &later), "");
    assert_eq!(preferred_internal_registry_source(&st2), "unset");
}

#[test]
fn proxy_targets_parse_through_the_url_parser() {
    assert_eq!(parse_proxy_target("proxy.local:3128"), Some(("proxy.local".to_string(), 3128)));
    assert_eq!(parse_proxy_target(" http://p.example "), Some(("p.example".to_string(), 80)));
    assert_eq!(parse_proxy_target("https://p.example"), Some(("p.example".to_string(), 443)));
    assert_eq!(parse_proxy_target("   "), None);
    let ts = proxy_targets(&vec![
        ("http_proxy".to_string(), Some("proxy.local:3128".to_string())),
        ("https_proxy".to_string(), None),
        ("HTTP_PROXY".to_string(), Some("".to_string())),
    ]);
    assert_eq!(ts, vec![("http_proxy".to_string(), "proxy.local".to_string(), 3128)]);
}

#[test]
fn proxy_state_marks_resets_and_honours_force_proxy() {
    let env = ProxyEnv { force_proxy: None, fallback: None, vars: vec![] };
    let forced = ProxyEnv { force_proxy: Some("1".to_string()), fallback: None, vars: vec![] };
    let mut st = ProxyState::new();
    assert!(!should_force_direct_proxy(&st, &env));
    mark_proxy_unreachable(&mut st, &env, &vec!["http_proxy".to_string()]);
    assert!(should_force_direct_proxy(&st, &env));
    assert!(!should_force_direct_proxy(&st, &forced));
    assert_eq!(st.recorded, vec!["http_proxy".to_string()]);
    reset_proxy_state_for_tests(&mut st);
    assert!(!should_force_direct_proxy(&st, &env));
    let mut st2 = ProxyState::new();
    mark_proxy_unreachable(&mut st2, &forced, &vec!["x".to_string()]);
    assert!(!st2.force_direct);
    assert!(!force_direct_allowed(&Some("1".to_string())));
    assert!(proxy_fallback_enabled(&None));
    assert!(!proxy_fallback_enabled(&Some("0".to_string())));
    assert_eq!(proxy_clear_envs().len(), 6);
}

#[test]
fn ignore_local_images_from_cli_or_env() {
    let mut st = ProxyState::new();
    assert!(!cli_ignore_local_images(&st, &None));
    assert!(cli_ignore_local_images(&st, &Some("1".to_string())));
    set_ignore_local_images(&mut st, true);
    assert!(cli_ignore_local_images(&st, &None));
    set_ignore_local_images(&mut st, false);
    assert!(!cli_ignore_local_images(&st, &Some("0".to_string())));
}

#[test]
fn effective_image_prefers_local_candidates_in_order() {
    let internal = || "int.example/".to_string();
    let mirror = || "mirror.example/".to_string();
    let present = |img: &str| img == "int.example/aifo-coder-aider:latest";
    assert_eq!(
        compute_effective_agent_image_for_run("reg/x/aifo-coder-aider:release-1", "release-1", "int.example/", true, false, present, internal, mirror),
        "int.example/aifo-coder-aider:latest"
    );
    let first = |img: &str| img == "aifo-coder-aider:latest" || img == "aifo-coder-aider:release-1";
    assert_eq!(
        compute_effective_agent_image_for_run("aifo-coder-aider:release-1", "release-1", "", true, false, first, internal, mirror),
        "aifo-coder-aider:latest"
    );
    assert_eq!(
        compute_effective_agent_image_for_run("aifo-coder-aider:release-1", "release-1", "", true, true, first, internal, mirror),
        "int.example/aifo-coder-aider:release-1"
    );
    assert_eq!(
        compute_effective_agent_image_for_run("python:3", "release-1", "", false, false, |_img: &str| true, internal, mirror),
        "int.example/python:3"
    );
}

#[test]
fn default_images_follow_env_precedence() {
    let env = |image: Option<&str>, tag: Option<&str>, global: Option<&str>, flavor: Option<&str>| ImageEnv {
        image: image.map(|s| s.to_string()),
        prefix: None,
        image_tag: tag.map(|s| s.to_string()),
        global_tag: global.map(|s| s.to_string()),
        flavor: flavor.map(|s| s.to_string()),
    };
    let none = |_img: &str| false;
    let ir = || "int.example/".to_string();
    assert_eq!(default_image_for(&env(Some(" my/img:1 "), None, None, None), "aider", "1.0", false, none, ir), "my/img:1");
    assert_eq!(default_image_for(&env(None, None, None, None), "aider", "1.0", false, none, ir), "int.example/aifo-coder-aider:release-1.0");
    assert_eq!(default_image_for(&env(None, Some("t1"), Some("t2"), Some(" SLIM ")), "codex", "1.0", true, none, ir), "int.example/aifo-coder-codex-slim:t1");
    assert_eq!(default_image_for(&env(None, None, Some("t2"), None), "crush", "1.0", false, |_i: &str| true, ir), "aifo-coder-crush:t2");
    let latest_only = |img: &str| img.ends_with(":latest");
    assert_eq!(default_image_for(&env(None, None, None, None), "aider", "1.0", false, latest_only, ir), "aifo-coder-aider:latest");
    let with_prefix = ImageEnv { image: None, prefix: Some("reg/x/pre".to_string()), image_tag: None, global_tag: None, flavor: None };
    assert_eq!(default_image_for(&with_prefix, "aider", "1.0", false, none, ir), "reg/x/pre-aider:release-1.0");
}

#[test]
fn pane_directories_are_the_pane_subdirectories() {
    let entries = vec![
        ("pane-1".to_string(), "/s/pane-1".to_string(), true),
        (".meta.json".to_string(), "/s/.meta.json".to_string(), false),
        ("pane-x".to_string(), "/s/pane-x".to_string(), false),
        ("other".to_string(), "/s/other".to_string(), true),
        ("pane-2".to_string(), "/s/pane-2".to_string(), true),
    ];
    assert_eq!(pane_dirs_for_session(&entries), vec!["/s/pane-1".to_string(), "/s/pane-2".to_string()]);
}

fn labels(pairs: &[(&str, &str)]) -> Vec<(String, String)> {
    pairs.iter().map(|(k, v)| (k.to_string(), v.to_string())).collect()
}

#[test]
fn image_metadata_prefers_container_labels_and_strips_id() {
    let facts = InspectFacts {
        created: Some("2024-05-01T10:00:00Z".to_string()),
        id: Some("sha256:0123456789abcdef0123".to_string()),
        container_labels: labels(&[
            ("org.opencontainers.image.version", "1.2.3"),
            ("org.opencontainers.image.revision", "abc123"),
        ]),
        config_labels: labels(&[("org.opencontainers.image.title", "ignored")]),
        repo_digests: Some(vec!["  repo@sha256:ffff  ".to_string(), "other".to_string()]),
        repo_tags: Some(vec![" repo:latest ".to_string()]),
    };
    let m = image_metadata(&facts);
    assert_eq!(m.created.as_deref(), Some("2024-05-01T10:00:00Z"));
    assert_eq!(m.id.as_deref(), Some("0123456789abcdef0123"));
    assert_eq!(m.digest.as_deref(), Some("repo@sha256:ffff"));
    assert_eq!(m.tag.as_deref(), Some("repo:latest"));
    assert_eq!(m.version.as_deref(), Some("1.2.3"));
    assert_eq!(m.revision.as_deref(), Some("abc123"));
    assert_eq!(m.title, None);
}

#[test]
fn image_metadata_falls_back_to_config_labels() {
    let facts = InspectFacts {
        created: None,
        id: Some("sha256:sha256:beef".to_string()),
        container_labels: Vec::new(),
        config_labels: labels(&[("org.opencontainers.image.title", "aifo-coder-aider")]),
        repo_digests: Some(Vec::new()),
        repo_tags: None,
    };
    let m = image_metadata(&facts);
    assert_eq!(m.created, None);
    assert_eq!(m.id.as_deref(), Some("beef"));
    assert_eq!(m.digest, None);
    assert_eq!(m.tag, None);
    assert_eq!(m.title.as_deref(), Some("aifo-coder-aider"));
    assert_eq!(m.version, None);
}

#[test]
fn format_image_metadata_orders_parts_and_shortens_id() {
    let m = ImageMetadata {
        created: Some("2024-05-01".to_string()),
        id: Some("0123456789abcdef".to_string()),
        digest: Some("repo@sha256:ff".to_string()),
        tag: Some("repo:latest".to_string()),
        title: Some("t".to_string()),
        version: Some("1.0".to_string()),
        revision: Some("r1".to_string()),
    };
    assert_eq!(
        format_image_metadata(&m),
        "build=2024-05-01 version=1.0 rev=r1 id=0123456789ab tag=repo:latest digest=repo@sha256:ff title=t"
    );
    let empty = ImageMetadata {
        created: None,
        id: Some("short".to_string()),
        digest: None,
        tag: None,
        title: None,
        version: None,
        revision: None,
    };
    assert_eq!(format_image_metadata(&empty), "id=short");
}

#[test]
fn images_effective_lists_agents_in_order() {
    let out = images_effective(|a: &str| format!("img-{}", a));
    let names: Vec<&str> = out.iter().map(|(a, _)| a.as_str()).collect();
    assert_eq!(names, vec!["codex", "crush", "aider", "openhands", "opencode", "plandex"]);
    assert_eq!(out[2].1, "img-aider");
}

#[test]
fn fallback_probes_first_as_configured_then_once_without_proxies() {
    assert!(matches!(fallback_next(true, &vec![]), FallbackStep::Probe(false)));
    assert!(matches!(fallback_next(true, &vec![Some(true)]), FallbackStep::Finish(Some((true, false)), false)));
    assert!(matches!(fallback_next(true, &vec![None]), FallbackStep::Finish(None, false)));
    assert!(matches!(fallback_next(false, &vec![Some(false)]), FallbackStep::Finish(Some((false, false)), false)));
    assert!(matches!(fallback_next(true, &vec![Some(false)]), FallbackStep::Probe(true)));
    assert!(matches!(fallback_next(true, &vec![Some(false), Some(true)]), FallbackStep::Finish(Some((true, true)), true)));
    assert!(matches!(fallback_next(true, &vec![Some(false), Some(false)]), FallbackStep::Finish(Some((false, false)), false)));
    assert!(matches!(fallback_next(true, &vec![Some(false), None]), FallbackStep::Finish(None, false)));
}

#[test]
fn targets_are_probed_in_order_until_one_answers() {
    assert_eq!(target_next(0, &vec![]), TargetStep::Retain);
    assert_eq!(target_next(3, &vec![]), TargetStep::Probe(0));
    assert_eq!(target_next(3, &vec![false]), TargetStep::Probe(1));
    assert_eq!(target_next(3, &vec![false, true]), TargetStep::Retain);
    assert_eq!(target_next(3, &vec![false, false, false]), TargetStep::Clear);
}
