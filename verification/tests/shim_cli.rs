use aifo_coder::shim_proc::{
    disconnect_exit, exec_curl_args, exec_curl_exit, exec_form_parts, is_notify_tool, is_shell, kill_plan,
    notify_async, notify_curl_args, notify_curl_exit, parent_ids, shim_endpoint, stat_ids, words, KillStep,
    ShellSignal,
};

fn s(v: &[&str]) -> Vec<String> {
    v.iter().map(|x| x.to_string()).collect()
}

#[test]
fn words_split_like_split_whitespace() {
    let cs: Vec<char> = "  a bb\t c\n".chars().collect();
    let w: Vec<String> = words(&cs).into_iter().map(|x| x.into_iter().collect()).collect();
    assert_eq!(w, vec!["a", "bb", "c"]);
    let empty: Vec<char> = "   ".chars().collect();
    assert!(words(&empty).is_empty());
}

#[test]
fn stat_fields_after_the_command_name() {
    let stat = "4242 (my (odd) name) S 100 4242 4242 34816 4242 4194304 0";
    let ids = stat_ids(stat).expect("six fields");
    assert_eq!(ids, ("100".to_string(), "4242".to_string(), "4242".to_string()));
    assert_eq!(stat_ids("12 (x) S 1 2"), None);
    assert_eq!(stat_ids("no paren"), None);
    assert_eq!(parent_ids(&Some(stat.to_string())), (100, 4242));
    assert_eq!(parent_ids(&Some("1 (x) S abc 5 6 7 8".to_string())), (0, 5));
    assert_eq!(parent_ids(&None), (0, 0));
}

#[test]
fn shell_names() {
    assert!(is_shell("bash\n"));
    assert!(is_shell("busybox-sh"));
    assert!(!is_shell("python3"));
}

#[test]
fn kill_plan_for_a_group_leading_shell() {
    let plan = kill_plan(&None, true, 300, 300, &Some("bash\n".to_string()));
    assert_eq!(
        plan,
        vec![
            KillStep { target: 300, signal: ShellSignal::Hup, pause_ms: 50 },
            KillStep { target: 300, signal: ShellSignal::Term, pause_ms: 300 },
            KillStep { target: -300, signal: ShellSignal::Hup, pause_ms: 50 },
            KillStep { target: -300, signal: ShellSignal::Term, pause_ms: 300 },
            KillStep { target: 300, signal: ShellSignal::Kill, pause_ms: 0 },
        ]
    );
    let plan2 = kill_plan(&Some("1".to_string()), true, 300, 299, &Some("zsh".to_string()));
    assert_eq!(plan2.len(), 3);
    assert_eq!(plan2[2].signal, ShellSignal::Kill);
}

#[test]
fn kill_plan_is_empty_when_not_wanted() {
    let sh = Some("sh".to_string());
    assert!(kill_plan(&Some("0".to_string()), true, 300, 300, &sh).is_empty());
    assert!(kill_plan(&None, false, 300, 300, &sh).is_empty());
    assert!(kill_plan(&None, true, 1, 1, &sh).is_empty());
    assert!(kill_plan(&None, true, 300, 300, &Some("node".to_string())).is_empty());
    assert!(kill_plan(&None, true, 300, 300, &None).is_empty());
}

#[test]
fn notify_curl_args_async_and_sync() {
    let a = notify_curl_args("http://host.docker.internal:8080/exec", "tok", "say", &s(&["hi there"]), None);
    assert_eq!(
        a,
        s(&[
            "-sS",
            "-X",
            "POST",
            "-H",
            "Authorization: Bearer tok",
            "-H",
            "X-Aifo-Proto: 2",
            "-H",
            "X-Aifo-Client: rust-shim-curl",
            "-H",
            "Content-Type: application/x-www-form-urlencoded",
            "--data-urlencode",
            "cmd=say",
            "--data-urlencode",
            "arg=hi there",
            "http://host.docker.internal:8080/notify",
        ])
    );
    let b = notify_curl_args("unix:///run/aifo/t.sock", "tok", "say", &Vec::new(), Some("/tmp/aifo-shim.7/h"));
    assert_eq!(&b[..4], &s(&["-sS", "--no-buffer", "-D", "/tmp/aifo-shim.7/h"])[..]);
    assert_eq!(&b[b.len() - 3..], &s(&["--unix-socket", "/run/aifo/t.sock", "http://localhost/notify"])[..]);
}

#[test]
fn exec_form_and_curl_args() {
    let parts = exec_form_parts("cargo", "/workspace", &s(&["build", "--release"]));
    assert_eq!(
        parts,
        vec![
            ("tool".to_string(), "cargo".to_string()),
            ("cwd".to_string(), "/workspace".to_string()),
            ("arg".to_string(), "build".to_string()),
            ("arg".to_string(), "--release".to_string()),
        ]
    );
    let a = exec_curl_args("http://proxy:9000/exec", "tok", "abc", "/tmp/h", &parts);
    assert_eq!(
        a,
        s(&[
            "-sS",
            "--no-buffer",
            "-D",
            "/tmp/h",
            "-X",
            "POST",
            "-H",
            "Authorization: Bearer tok",
            "-H",
            "X-Aifo-Proto: 2",
            "-H",
            "TE: trailers",
            "-H",
            "Content-Type: application/x-www-form-urlencoded",
            "-H",
            "X-Aifo-Exec-Id: abc",
            "--data-urlencode",
            "tool=cargo",
            "--data-urlencode",
            "cwd=/workspace",
            "--data-urlencode",
            "arg=build",
            "--data-urlencode",
            "arg=--release",
            "http://proxy:9000/exec",
        ])
    );
    let u = exec_curl_args("unix:///s.sock", "t", "e", "/h", &Vec::new());
    assert_eq!(&u[u.len() - 3..], &s(&["--unix-socket", "/s.sock", "http://localhost/exec"])[..]);
}

#[test]
fn curl_exit_codes_from_header_dumps() {
    let hdr = Some("HTTP/1.1 200 OK\r\nx-exit-code: nope\r\nX-EXIT-CODE: 3\r\nx-exit-code: 4\r\n".to_string());
    assert_eq!(notify_curl_exit(&hdr), 3);
    assert_eq!(notify_curl_exit(&None), 1);
    let ex = Some("HTTP/1.1 200 OK\r\nX-Exit-Code: 2\r\nx-exit-code: 9\r\nX-Exit-Code: 7\r\n".to_string());
    assert_eq!(exec_curl_exit(&ex, false), (7, true));
    assert_eq!(exec_curl_exit(&Some("HTTP/1.1 200 OK\r\n".to_string()), true), (1, false));
    assert_eq!(exec_curl_exit(&None, true), (0, true));
    assert_eq!(exec_curl_exit(&None, false), (1, false));
}

#[test]
fn disconnect_exit_defaults_to_zero() {
    assert_eq!(disconnect_exit(1, false, &None), 0);
    assert_eq!(disconnect_exit(1, false, &Some("0".to_string())), 1);
    assert_eq!(disconnect_exit(5, true, &None), 5);
}

#[test]
fn shim_configuration_and_modes() {
    assert!(is_notify_tool("say"));
    assert!(!is_notify_tool("cargo"));
    assert!(notify_async(false, &None));
    assert!(!notify_async(true, &None));
    assert!(!notify_async(false, &Some("0".to_string())));
    assert_eq!(
        shim_endpoint(&None, &Some("t".to_string())),
        Err("aifo-shim: proxy not configured. Please launch agent with --toolchain.".to_string())
    );
    assert_eq!(
        shim_endpoint(&Some("http://p/exec".to_string()), &Some("  ".to_string())),
        Err("aifo-shim: proxy token missing. Please launch agent with --toolchain.".to_string())
    );
    assert_eq!(
        shim_endpoint(&Some("http://p/exec".to_string()), &Some("t".to_string())),
        Ok(("http://p/exec".to_string(), "t".to_string()))
    );
}
