use aifo_coder::banner::{banner_virtualization, docker_security_options_parse, startup_summary_lines, SecurityOptionsParsed};
use aifo_coder::mounts::{validate_mount_source_dir, validate_unix_socket_dir_owner_mode, CanonFacts};
use aifo_coder::run_info::verbose_run_info_lines;
use aifo_coder::runtime::{container_runtime_path, runtime_path_verdict, RuntimeLookupError};

fn found_dir(p: &str) -> CanonFacts {
    CanonFacts::Found { path: p.to_string(), exists: true, is_dir: true }
}

#[test]
fn mount_source_empty_is_silent() {
    let (p, w) = validate_mount_source_dir("   ", "gnupg", |_: &str| found_dir("/x"));
    assert_eq!(p, None);
    assert_eq!(w, None);
}

#[test]
fn mount_source_relative_is_refused() {
    let (p, w) = validate_mount_source_dir(" rel/dir ", "gnupg", |_: &str| found_dir("/x"));
    assert_eq!(p, None);
    assert_eq!(
        w.as_deref(),
        Some("aifo-coder: warning: refusing to mount non-absolute path for gnupg: rel/dir")
    );
}

#[test]
fn mount_source_canonical_directory_is_accepted() {
    let (p, w) = validate_mount_source_dir(" /home/u/link ", "gnupg", |s: &str| {
        assert_eq!(s, "/home/u/link");
        found_dir("/home/u/real")
    });
    assert_eq!(p.as_deref(), Some("/home/u/real"));
    assert_eq!(w, None);
}

#[test]
fn mount_source_refusals_name_the_reason() {
    let (p, w) = validate_mount_source_dir("/a", "config", |_: &str| CanonFacts::Failed("No such file".to_string()));
    assert_eq!(p, None);
    assert_eq!(
        w.as_deref(),
        Some("aifo-coder: warning: refusing to mount config: cannot canonicalize /a: No such file")
    );
    let (_, w) = validate_mount_source_dir("/a", "config", |_: &str| CanonFacts::Found {
        path: "/b".to_string(),
        exists: false,
        is_dir: false,
    });
    assert_eq!(w.as_deref(), Some("aifo-coder: warning: refusing to mount config: path does not exist: /b"));
    let (_, w) = validate_mount_source_dir("/a", "config", |_: &str| CanonFacts::Found {
        path: "/b/f".to_string(),
        exists: true,
        is_dir: false,
    });
    assert_eq!(w.as_deref(), Some("aifo-coder: warning: refusing to mount config: not a directory: /b/f"));
}

#[test]
fn socket_dir_accepts_private_modes() {
    assert_eq!(validate_unix_socket_dir_owner_mode(Some((1000, 0o40700)), 1000, "proxy socket", "/run/x"), (true, None));
    assert_eq!(validate_unix_socket_dir_owner_mode(Some((1000, 0o750)), 1000, "proxy socket", "/run/x"), (true, None));
}

#[test]
fn socket_dir_refuses_foreign_owner_and_open_modes() {
    let (ok, w) = validate_unix_socket_dir_owner_mode(Some((0, 0o700)), 1000, "proxy socket", "/run/x");
    assert!(!ok);
    assert_eq!(
        w.as_deref(),
        Some("aifo-coder: warning: refusing to mount proxy socket: not owned by current user: /run/x")
    );
    let (ok, w) = validate_unix_socket_dir_owner_mode(Some((1000, 0o40775)), 1000, "proxy socket", "/run/x");
    assert!(!ok);
    assert_eq!(
        w.as_deref(),
        Some("aifo-coder: warning: refusing to mount proxy socket: directory mode must be 0700 or 0750 (got 775): /run/x")
    );
    let (ok, w) = validate_unix_socket_dir_owner_mode(Some((1000, 0o5)), 1000, "p", "/d");
    assert!(!ok);
    assert_eq!(w.as_deref(), Some("aifo-coder: warning: refusing to mount p: directory mode must be 0700 or 0750 (got 5): /d"));
    assert_eq!(validate_unix_socket_dir_owner_mode(None, 1000, "p", "/d"), (false, None));
}

#[test]
fn runtime_disabled_by_environment() {
    let one = Some("1".to_string());
    assert_eq!(container_runtime_path(&one, &None), Err(RuntimeLookupError::Disabled));
    assert_eq!(container_runtime_path(&None, &one), Err(RuntimeLookupError::Disabled));
    assert_eq!(RuntimeLookupError::Disabled.message(), "Docker disabled by environment override.");
    assert_eq!(RuntimeLookupError::NotFound.message(), "Docker is required but was not found in PATH.");
    let r = container_runtime_path(&Some("true".to_string()), &Some("0".to_string()));
    assert_ne!(r, Err(RuntimeLookupError::Disabled));
}

#[test]
fn runtime_verdict_uses_the_lookup() {
    assert_eq!(runtime_path_verdict(false, Some("/usr/bin/docker".to_string())), Ok("/usr/bin/docker".to_string()));
    assert_eq!(runtime_path_verdict(false, None), Err(RuntimeLookupError::NotFound));
    assert_eq!(runtime_path_verdict(true, Some("/usr/bin/docker".to_string())), Err(RuntimeLookupError::Disabled));
}

#[test]
fn security_options_parse_reads_profile_mode_and_rootless() {
    let p = docker_security_options_parse(
        r#"["name=apparmor","name=seccomp,profile=builtin","name=cgroupns,mode=private","name=rootless"]"#,
    );
    assert_eq!(p.seccomp_profile, "builtin");
    assert_eq!(p.cgroupns_mode, "private");
    assert!(p.rootless);
    let q = docker_security_options_parse(r#"["name=apparmor"]"#);
    assert_eq!(q.seccomp_profile, "(unknown)");
    assert_eq!(q.cgroupns_mode, "(unknown)");
    assert!(!q.rootless);
}

#[test]
fn banner_virtualization_by_platform() {
    assert_eq!(banner_virtualization(true, false, &Some("colima is RUNNING".to_string())), "Colima VM");
    assert_eq!(banner_virtualization(true, false, &Some("stopped".to_string())), "Docker Desktop/VM");
    assert_eq!(banner_virtualization(true, false, &None), "Docker Desktop/VM");
    assert_eq!(banner_virtualization(false, true, &None), "Docker Desktop/VM");
    assert_eq!(banner_virtualization(false, false, &None), "native");
}

#[test]
fn startup_summary_lines_exact() {
    let sec = Some(SecurityOptionsParsed {
        seccomp_profile: "builtin".to_string(),
        cgroupns_mode: "private".to_string(),
        rootless: false,
    });
    let v = startup_summary_lines(
        &Some("/usr/bin/docker".to_string()),
        "native",
        "linux",
        "x86_64",
        true,
        Some("aifo-coder"),
        &sec,
        "0.6.3",
    );
    assert_eq!(
        v,
        vec![
            "    - Environment: Docker=/usr/bin/docker | Virt=native",
            "    - Platform: linux/x86_64",
            "    - Security: AppArmor=on (aifo-coder), Seccomp=builtin, cgroupns=private, rootless=no",
            "    - Version: 0.6.3",
        ]
    );
    let w = startup_summary_lines(&None, "native", "macos", "aarch64", false, None, &None, "1");
    assert_eq!(w[0], "    - Environment: Docker=(not found) | Virt=native");
    assert_eq!(w[2], "    - Security: AppArmor=off, Seccomp=(unknown), cgroupns=(unknown), rootless=no");
}

#[test]
fn verbose_run_info_lines_by_mode() {
    let v = verbose_run_info_lines(
        "aider",
        "aifo-coder-aider:latest",
        None,
        "docker run --rm x",
        true,
        false,
        "registry.intern.migros.net/ai-foundation/prototypes/aifo-coder-rs/",
        "curl",
        "",
        "none",
    );
    assert_eq!(
        v,
        vec![
            "aifo-coder: effective apparmor profile: (disabled)",
            "aifo-coder: internal registry: registry.intern.migros.net/ai-foundation/prototypes/aifo-coder-rs (source: internal:autodetect)",
            "aifo-coder: mirror registry: (none) (source: mirror:none)",
            "aifo-coder: agent image [aider]: aifo-coder-aider:latest",
            "aifo-coder: docker: docker run --rm x",
        ]
    );
    let d = verbose_run_info_lines("aider", "img", Some("p"), "docker run", false, true, "", "", "", "");
    assert_eq!(d, vec!["aifo-coder: docker: docker run"]);
    let q = verbose_run_info_lines("aider", "img", Some("p"), "docker run", false, false, "", "", "", "");
    assert!(q.is_empty());
    let e = verbose_run_info_lines("a", "i", Some("p"), "c", true, false, "r/", "env-empty", "m/", "env");
    assert_eq!(e[1], "aifo-coder: internal registry: r (source: internal:env-empty)");
    assert_eq!(e[2], "aifo-coder: mirror registry: m (source: mirror:env)");
}
