use aifo_coder::color::{color_enabled_for, log_error_line, log_info_line, paint, parse_color_mode, set_color_mode, ColorMode, ColorModeCell};
use aifo_coder::orchestrators::{
    guard_no_panes, guard_panes_count, presence_error, quote_ps, tmux_attach_args, tmux_layout, ToolPresence,
};
use aifo_coder::windows_helpers::{
    fork_bash_inner_string, fork_ps_inner_string, ps_wait_process_cmd, wt_build_new_tab_args, wt_build_split_args,
    wt_orient_for_layout,
};

#[test]
fn windows_helpers_orient_and_builders() {
    let child = vec!["aider".to_string(), "--help".to_string()];
    let ps = fork_ps_inner_string("aifo-coder", "aider", "sidw", 1, "C:/tmp/p", "C:/tmp/s", &child);
    assert!(ps.contains("Set-Location '"), "ps inner should set location: {}", ps);
    assert!(ps.contains("$env:AIFO_CODER_SKIP_LOCK='1'"), "ps inner should set env");

    let bash = fork_bash_inner_string("aifo-coder", "aider", "sidw", 2, "/tmp/p", "/tmp/s", &child);
    assert!(bash.contains("cd "), "bash inner should cd");
    assert!(bash.contains("export AIFO_CODER_SKIP_LOCK='1'"), "bash inner export env");

    assert_eq!(wt_orient_for_layout("even-h", 3), "-H");
    assert_eq!(wt_orient_for_layout("even-v", 4), "-V");

    let newtab = wt_build_new_tab_args("powershell.exe", "/tmp/p", "cmds");
    assert_eq!(newtab[0], "wt");
    assert_eq!(newtab[1], "new-tab");
    let split = wt_build_split_args("-H", "powershell.exe", "/tmp/p", "cmds");
    assert_eq!(split[1], "split-pane");
    assert_eq!(split[2], "-H");

    let w = ps_wait_process_cmd(&vec!["101".to_string(), "202".to_string(), "303".to_string()]);
    assert_eq!(w, "Wait-Process -Id 101,202,303");
}

#[test]
fn orchestrator_guards_and_presence() {
    assert_eq!(guard_panes_count(8), None);
    assert_eq!(guard_panes_count(9).as_deref(), Some("Launching 9 panes may impact disk/memory and I/O performance."));
    assert_eq!(guard_no_panes(0).as_deref(), Some("aifo-coder: no panes to create."));
    assert_eq!(guard_no_panes(2), None);
    let none = ToolPresence { git_bash: false, powershell: false, windows_terminal: false };
    assert_eq!(presence_error(false, false, &none, true).map(|e| e.1), Some(1));
    assert_eq!(
        presence_error(false, true, &none, false),
        Some(("aifo-coder: error: tmux not found. Please install tmux to use fork mode.".to_string(), 127))
    );
    assert_eq!(presence_error(true, true, &none, false).map(|e| e.1), Some(127));
    assert_eq!(presence_error(false, true, &none, true), None);
    assert_eq!(quote_ps("it's"), "'it''s'");
    assert_eq!(tmux_layout("even-h"), "even-horizontal");
    assert_eq!(tmux_layout("even-v"), "even-vertical");
    assert_eq!(tmux_layout("tiled"), "tiled");
    let attach = tmux_attach_args(&None, "s1");
    assert_eq!(attach, vec!["attach-session", "-t", "s1"]);
    let inside = tmux_attach_args(&Some("/tmp/tmux-1/default,1,0".to_string()), "s1");
    assert_eq!(inside, vec!["switch-client", "-t", "s1"]);
}

#[test]
fn color_decisions_and_painting() {
    assert_eq!(parse_color_mode(" ON "), Some(ColorMode::Always));
    assert_eq!(parse_color_mode("never"), Some(ColorMode::Never));
    assert_eq!(parse_color_mode("auto"), Some(ColorMode::Auto));
    assert_eq!(parse_color_mode("purple"), None);
    assert!(!color_enabled_for(true, Some(ColorMode::Always), None, true));
    assert!(color_enabled_for(false, Some(ColorMode::Always), None, false));
    assert!(!color_enabled_for(false, None, Some("never"), true));
    assert!(color_enabled_for(false, None, Some("bogus"), true));
    assert_eq!(paint(true, "\x1b[33m", "x"), "\x1b[33mx\x1b[0m");
    assert_eq!(paint(false, "\x1b[33m", "x"), "x");
    assert_eq!(log_info_line(false, "hi"), "hi");
    assert_eq!(log_error_line(true, "e"), "\x1b[31;1me\x1b[0m");
    let mut cell = ColorModeCell::new();
    assert_eq!(cell.get(), None);
    set_color_mode(&mut cell, ColorMode::Never);
    set_color_mode(&mut cell, ColorMode::Always);
    assert_eq!(cell.get(), Some(ColorMode::Never));
}
