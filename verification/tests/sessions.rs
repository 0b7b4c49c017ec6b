use aifo_coder::fork_run::cleanup_and_update_meta;
use aifo_coder::fork_meta::{append_fields_compact, initial_meta_text};
use aifo_coder::escape::{json_escape, ps_quote_inner, shell_escape, shell_join};
use aifo_coder::fork_list::{collect_rows, format_row_json, json_array_of, list_header, row_text_line, SessionListing};
use aifo_coder::fork_meta::{
    extract_value_string, extract_value_u64, initial_base_commit, initial_meta_json, updated_meta_json, SessionMeta,
};
use aifo_coder::fork_names::{fork_branch_name, fork_sanitize_base_label, fork_session_dir, path_join};
use aifo_coder::fork_sessions::{age_days, secs_since_epoch, session_created_at};

#[test]
fn test_format_row_json_golden_single_repo() {
    let repo = "/tmp/aifo-list-repo";
    let sid = "sid-1";
    let panes = 3usize;
    let created_at = 123456789u64;
    let age_days = 42u64;
    let base_label = "main";
    let stale = true;

    let actual = format_row_json(repo, sid, panes, created_at, age_days, base_label, stale);
    let expected = format!(
        "{{\"repo_root\":{},\"sid\":\"{}\",\"panes\":{},\"created_at\":{},\"age_days\":{},\"base_label\":{},\"stale\":true}}",
        json_escape(repo),
        sid,
        panes,
        created_at,
        age_days,
        json_escape(base_label)
    );
    assert_eq!(actual, expected, "JSON row format must match exactly");
}

#[test]
fn collect_rows_orders_oldest_first_and_flags_stale() {
    let now = 1_700_000_000u64;
    let listings = vec![
        SessionListing {
            sid: "sid-new".to_string(),
            meta: Some(format!("{{ \"created_at\": {}, \"base_label\": \"dev\" }}", now - 2 * 86400)),
            mtime: None,
            panes: 1,
        },
        SessionListing {
            sid: "sid-old".to_string(),
            meta: Some(format!("{{ \"created_at\": {}, \"base_label\": \"main\" }}", now - 10 * 86400)),
            mtime: None,
            panes: 1,
        },
    ];
    let rows = collect_rows(now, 5, &listings);
    assert_eq!(rows.len(), 2, "expected two sessions");
    assert_eq!(rows[0].sid, "sid-old", "older session should come first");
    assert!(rows[0].stale, "sid-old should be stale (>=5d)");
    assert!(!rows[1].stale, "sid-new should not be stale (<5d)");
    assert_eq!(rows[0].age_days, 10);
    assert_eq!(rows[0].base_label, "main");
    assert_eq!(rows[1].base_label, "dev");
}

#[test]
fn collect_rows_falls_back_to_mtime_and_unknown_label() {
    let rows = collect_rows(
        200_000,
        30,
        &vec![SessionListing { sid: "s".to_string(), meta: None, mtime: Some(100_000), panes: 2 }],
    );
    assert_eq!(rows.len(), 1);
    assert_eq!(rows[0].created_at, 100_000);
    assert_eq!(rows[0].age_days, 1);
    assert_eq!(rows[0].base_label, "(unknown)");
    assert!(!rows[0].stale);
    assert_eq!(rows[0].panes, 2);
}

#[test]
fn collect_rows_keeps_every_session_sorted() {
    let mk = |sid: &str, c: u64| SessionListing {
        sid: sid.to_string(),
        meta: Some(format!("{{ \"created_at\": {} }}", c)),
        mtime: None,
        panes: 1,
    };
    let rows = collect_rows(1_000_000, 100, &vec![mk("c", 30), mk("a", 10), mk("b", 20), mk("a2", 10)]);
    let sids: Vec<&str> = rows.iter().map(|r| r.sid.as_str()).collect();
    assert_eq!(sids, vec!["a", "a2", "b", "c"]);
}

#[test]
fn row_text_and_header_lines() {
    let rows = collect_rows(
        86400 * 3,
        1,
        &vec![SessionListing {
            sid: "sid-x".to_string(),
            meta: Some("{ \"created_at\": 86400, \"base_label\": \"main\" }".to_string()),
            mtime: None,
            panes: 2,
        }],
    );
    assert_eq!(row_text_line(false, &rows[0]), "  sid-x  panes=2  age=2d  base=main  (stale)");
    assert_eq!(list_header(false, "/r"), "aifo-coder: fork sessions under /r/.aifo-coder/forks");
    assert_eq!(
        list_header(true, "/r"),
        "\x1b[36;1maifo-coder: fork sessions under\x1b[0m \x1b[34;1m/r/.aifo-coder/forks\x1b[0m"
    );
    assert_eq!(json_array_of(&vec!["{}".to_string(), "{\"a\":1}".to_string()]), "[{},{\"a\":1}]");
}

fn sample_meta(snapshot: Option<&str>, base_commit: &str) -> SessionMeta {
    SessionMeta {
        created_at: 1700000000,
        base_label: "main".to_string(),
        base_ref_or_sha: "main".to_string(),
        base_commit_sha: base_commit.to_string(),
        panes: 2,
        pane_dirs: vec!["/r/.aifo-coder/forks/sid-meta/pane-1".to_string(), "/r/.aifo-coder/forks/sid-meta/pane-2".to_string()],
        branches: vec!["fork/main/sid-meta-1".to_string(), "fork/main/sid-meta-2".to_string()],
        layout: "tiled".to_string(),
        snapshot_sha: snapshot.map(|s| s.to_string()),
    }
}

#[test]
fn initial_meta_uses_snapshot_and_preserves_key_order() {
    let m = sample_meta(Some("abc123"), "");
    let base = initial_base_commit(&m).expect("known without git");
    assert_eq!(base, "abc123");
    let text = initial_meta_json(&m, &base);
    let keys = [
        "\"created_at\":",
        "\"base_label\":",
        "\"base_ref_or_sha\":",
        "\"base_commit_sha\":",
        "\"panes\":",
        "\"pane_dirs\":",
        "\"branches\":",
        "\"layout\":",
        "\"snapshot_sha\":",
    ];
    let mut last = 0usize;
    for k in keys.iter() {
        let pos = text.find(k).unwrap_or_else(|| panic!("missing key {} in {}", k, text));
        assert!(pos >= last, "wrong order: {} in {}", k, text);
        last = pos;
    }
    assert!(text.contains("\"base_commit_sha\": \"abc123\""), "got {}", text);
    assert_eq!(extract_value_u64(&text, "created_at"), Some(1700000000));
    assert_eq!(extract_value_string(&text, "layout").as_deref(), Some("tiled"));
}

#[test]
fn initial_base_commit_prefers_given_sha_and_needs_git_otherwise() {
    assert_eq!(initial_base_commit(&sample_meta(Some("snap"), "given")).as_deref(), Some("given"));
    assert_eq!(initial_base_commit(&sample_meta(None, "")), None);
}

#[test]
fn updated_meta_updates_counts_and_preserves_fields() {
    let m = sample_meta(Some("cafebabe"), "");
    let text = initial_meta_json(&m, "cafebabe");
    let upd = updated_meta_json(&text, 1, &m.pane_dirs, &m.branches, None, "tiled");
    assert!(upd.contains("\"panes_created\": 1"), "expected panes_created=1, got: {}", upd);
    assert!(upd.contains("\"snapshot_sha\": \"cafebabe\""), "expected snapshot_sha preserved, got: {}", upd);
    for k in ["\"created_at\":", "\"base_label\":", "\"base_ref_or_sha\":", "\"base_commit_sha\":", "\"panes\":",
        "\"pane_dirs\":", "\"branches\":", "\"layout\":"] {
        assert!(upd.contains(k), "missing key after update: {} in {}", k, upd);
    }
    assert_eq!(extract_value_u64(&upd, "created_at"), Some(1700000000));
    assert_eq!(extract_value_u64(&upd, "panes"), Some(2));
}

#[test]
fn extract_values_from_metadata_text() {
    let t = "{ \"created_at\":   42 , \"base_label\": \"dev\", \"n\": \"x\" }";
    assert_eq!(extract_value_u64(t, "created_at"), Some(42));
    assert_eq!(extract_value_string(t, "base_label").as_deref(), Some("dev"));
    assert_eq!(extract_value_string(t, "missing"), None);
    assert_eq!(extract_value_u64(t, "base_label"), None);
    assert_eq!(session_created_at(&Some(t.to_string()), Some(7)), 42);
    assert_eq!(session_created_at(&Some("{}".to_string()), Some(7)), 7);
    assert_eq!(session_created_at(&None, None), 0);
}

#[test]
fn ages_and_epoch_seconds() {
    assert_eq!(age_days(86400 * 5 + 10, 10), 5);
    assert_eq!(age_days(10, 86400), 0);
    assert_eq!(secs_since_epoch(Some(12)), 12);
    assert_eq!(secs_since_epoch(None), 0);
    let t = std::time::UNIX_EPOCH + std::time::Duration::from_secs(1234);
    let offset = t.duration_since(std::time::UNIX_EPOCH).ok().map(|d| d.as_secs());
    assert_eq!(secs_since_epoch(offset), 1234);
    let before = std::time::UNIX_EPOCH - std::time::Duration::from_secs(5);
    let offset = before.duration_since(std::time::UNIX_EPOCH).ok().map(|d| d.as_secs());
    assert_eq!(secs_since_epoch(offset), 0);
}

#[test]
fn sanitized_labels_are_clean() {
    assert_eq!(fork_sanitize_base_label("Feature/ABC_def"), "feature-abc-def");
    assert_eq!(fork_sanitize_base_label("--//.."), "base");
    assert_eq!(fork_sanitize_base_label(""), "base");
    assert_eq!(fork_sanitize_base_label("a  b"), "a-b");
    let long = "x".repeat(40) + "-" + &"y".repeat(40);
    let s = fork_sanitize_base_label(&long);
    assert!(s.len() <= 48, "too long: {}", s);
    assert!(!s.ends_with('-'));
    for input in ["Hello World!", "rel/v1.2.3", "ÄÖÜ-main", "___", "a--b"] {
        let s = fork_sanitize_base_label(input);
        assert!(!s.is_empty() && s.len() <= 48);
        assert!(!s.starts_with('-') && !s.ends_with('-') && !s.contains("--"), "{}", s);
        assert!(s.chars().all(|c| c.is_ascii_lowercase() || c.is_ascii_digit() || c == '-'), "{}", s);
    }
}

#[test]
fn branch_and_session_paths() {
    assert_eq!(fork_branch_name("Main", "sid1", 3), "fork/main/sid1-3");
    assert_eq!(fork_session_dir("/repo", "sid1"), "/repo/.aifo-coder/forks/sid1");
    assert_eq!(path_join("/a/", "b"), "/a/b");
    assert_eq!(path_join("/a", "/b"), "/b");
}

#[test]
fn escaping_for_json_shell_and_powershell() {
    assert_eq!(json_escape("a\"b\\c\n"), "\"a\\\"b\\\\c\\n\"");
    assert_eq!(json_escape("\u{1}"), "\"\\u0001\"");
    assert_eq!(shell_escape("it's"), "'it'\\''s'");
    assert_eq!(shell_join(&["git".to_string(), "a b".to_string()]), "'git' 'a b'");
    assert_eq!(ps_quote_inner("it's"), "'it''s'");
}

#[test]
fn cleanup_lines_after_failed_launch() {
    assert_eq!(
        cleanup_and_update_meta("/r", "s1", "/r/.aifo-coder/forks/s1", false, None, true),
        vec!["Removed all created pane directories under /r/.aifo-coder/forks/s1.".to_string()]
    );
    let kept = cleanup_and_update_meta("/r", "s1", "/d", true, Some(("/d/pane-1", "fork/main/s1-1")), true);
    assert_eq!(kept.len(), 6);
    assert_eq!(kept[0], "Clones remain under /d for recovery.");
    assert_eq!(kept[1], "Example recovery:");
    assert_eq!(kept[4], "  git -C \"/r\" remote add fork-s1-1 \"/d/pane-1\"");
    assert_eq!(kept[5], "  git -C \"/r\" fetch fork-s1-1 fork/main/s1-1");
    assert_eq!(cleanup_and_update_meta("/r", "s1", "/d", true, Some(("/d/pane-1", "b")), false).len(), 1);
}

#[test]
fn metadata_fields_are_appended_inside_the_object() {
    assert_eq!(append_fields_compact("{ \"a\": 1 }\n", "\"b\":2"), "{ \"a\": 1,\"b\":2}");
    assert_eq!(append_fields_compact("{}", "\"b\":2"), "{\"b\":2}");
    assert_eq!(append_fields_compact("", "\"b\":2"), ",\"b\":2}");
}

#[test]
fn metadata_base_label_reads_back_across_updates() {
    let mut m = sample_meta(None, "cafebabe");
    m.base_label = "feature/login page".to_string();
    let text = initial_meta_json(&m, "cafebabe");
    assert_eq!(extract_value_string(&text, "base_label").as_deref(), Some("feature/login page"));
    let upd = updated_meta_json(&text, 2, &m.pane_dirs, &m.branches, None, "even-h");
    assert_eq!(extract_value_string(&upd, "base_label").as_deref(), Some("feature/login page"));
    let again = updated_meta_json(&upd, 2, &m.pane_dirs, &m.branches, None, "even-h");
    assert_eq!(extract_value_string(&again, "base_label").as_deref(), Some("feature/login page"));
}

#[test]
fn metadata_base_label_with_backslash_is_escaped_again_on_update() {
    let mut m = sample_meta(None, "cafebabe");
    m.base_label = "a\\b".to_string();
    let text = initial_meta_json(&m, "cafebabe");
    assert_eq!(extract_value_string(&text, "base_label").as_deref(), Some("a\\\\b"));
    let upd = updated_meta_json(&text, 2, &m.pane_dirs, &m.branches, None, "tiled");
    assert_eq!(extract_value_string(&upd, "base_label").as_deref(), Some("a\\\\\\\\b"));
}

#[test]
fn initial_meta_text_takes_rev_parse_answer_else_head() {
    let m = sample_meta(None, "");
    let resolved = initial_meta_text(&m, &Some("1111aaaa".to_string()), "2222bbbb");
    assert_eq!(extract_value_string(&resolved, "base_commit_sha").as_deref(), Some("1111aaaa"));
    let fallback = initial_meta_text(&m, &None, "2222bbbb");
    assert_eq!(extract_value_string(&fallback, "base_commit_sha").as_deref(), Some("2222bbbb"));
    let snap = initial_meta_text(&sample_meta(Some("3333cccc"), ""), &Some("1111aaaa".to_string()), "2222bbbb");
    assert_eq!(extract_value_string(&snap, "base_commit_sha").as_deref(), Some("3333cccc"));
    let given = initial_meta_text(&sample_meta(Some("3333cccc"), "4444dddd"), &None, "");
    assert_eq!(extract_value_string(&given, "base_commit_sha").as_deref(), Some("4444dddd"));
}

#[test]
fn sanitizing_twice_changes_nothing() {
    for s in ["Feature/My Branch!!", "", "---", "release/1.2.3", &"ab-".repeat(30)] {
        let once = fork_sanitize_base_label(s);
        assert_eq!(fork_sanitize_base_label(&once), once);
    }
}
