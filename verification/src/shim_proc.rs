//! The shim's process-side decisions: what `/proc/self/stat` tells about the agent,
//! whether and how the parent shell is ended after a forwarded signal, and the curl
//! invocations and exit codes of the curl fallback.
use vstd::prelude::*;

use crate::escape::{pairs_view, strings_view};
use crate::proxy::opt_string_view;
use crate::shim::{parse_i32, parse_i32_spec};
use crate::text::{char_is_ws, is_ws, rfind_char, rfind_char_spec, slice_to_vec, str_chars, string_from_chars, trim, trim_spec};

verus! {

/// The words of `s` that follow the word being read (`cur`), as `split_whitespace`
/// yields them.
pub open spec fn words_from(s: Seq<char>, cur: Seq<char>) -> Seq<Seq<char>>
    decreases s.len(),
{
    if s.len() == 0 {
        if cur.len() > 0 {
            seq![cur]
        } else {
            seq![]
        }
    } else if is_ws(s[0]) {
        (if cur.len() > 0 {
            seq![cur]
        } else {
            seq![]
        }) + words_from(s.drop_first(), seq![])
    } else {
        words_from(s.drop_first(), cur.push(s[0]))
    }
}

/// `str::split_whitespace`.
pub open spec fn words_spec(s: Seq<char>) -> Seq<Seq<char>> {
    words_from(s, seq![])
}

/// `str::split_whitespace` on characters.
pub fn words(s: &[char]) -> (out: Vec<Vec<char>>)
    ensures
        crate::text::seqs_view(out@) == words_spec(s@),
{
    let mut out: Vec<Vec<char>> = Vec::new();
    let mut cur: Vec<char> = Vec::new();
    let mut i: usize = 0;
    assert(s@.skip(0) =~= s@);
    while i < s.len()
        invariant
            i <= s@.len(),
            words_spec(s@) == crate::text::seqs_view(out@) + words_from(s@.skip(i as int), cur@),
        decreases s@.len() - i,
    {
        let ghost rest = s@.skip(i as int);
        let ghost before = crate::text::seqs_view(out@);
        let ghost w = cur@;
        assert(rest[0] == s@[i as int]);
        assert(rest.drop_first() =~= s@.skip(i + 1));
        let c = s[i];
        if char_is_ws(c) {
            if cur.len() > 0 {
                out.push(cur);
                assert(crate::text::seqs_view(out@) =~= before + seq![w]);
            } else {
                assert(crate::text::seqs_view(out@) =~= before + Seq::<Seq<char>>::empty());
            }
            cur = Vec::new();
            assert(cur@ =~= Seq::<char>::empty());
        } else {
            cur.push(c);
        }
        i = i + 1;
    }
    assert(s@.skip(i as int) =~= Seq::<char>::empty());
    let ghost before = crate::text::seqs_view(out@);
    let ghost w = cur@;
    if cur.len() > 0 {
        out.push(cur);
        assert(crate::text::seqs_view(out@) =~= before + seq![w]);
    } else {
        assert(crate::text::seqs_view(out@) =~= before + Seq::<Seq<char>>::empty());
    }
    out
}


/// The fields of `/proc/self/stat` after the command name (after its last `)`),
/// split at whitespace; none without a `)`.
pub open spec fn stat_words(stat: Seq<char>) -> Option<Seq<Seq<char>>> {
    match rfind_char_spec(stat, ')') {
        Some(rp) => Some(words_spec(stat.skip(rp + 1))),
        None => None,
    }
}

/// The parent pid, the process group and the terminal's foreground group as written
/// in `/proc/self/stat`, when at least six fields follow the command name.
pub open spec fn stat_ids_spec(stat: Seq<char>) -> Option<(Seq<char>, Seq<char>, Seq<char>)> {
    match stat_words(stat) {
        Some(parts) => if parts.len() >= 6 {
            Some((parts[1], parts[2], parts[5]))
        } else {
            None
        },
        None => None,
    }
}

/// Read the parent pid, process group and terminal foreground group fields of
/// `/proc/self/stat` (see `stat_ids_spec`).
pub fn stat_ids(stat: &str) -> (r: Option<(String, String, String)>)
    ensures
        match (r, stat_ids_spec(stat@)) {
            (Some(a), Some(b)) => a.0@ == b.0 && a.1@ == b.1 && a.2@ == b.2,
            (None, None) => true,
            _ => false,
        },
{
    let cs = str_chars(stat);
    match rfind_char(cs.as_slice(), ')') {
        Some(rp) => {
            proof {
                crate::text::lemma_rfind_char(cs@, ')');
            }
            let rest = slice_to_vec(cs.as_slice(), rp + 1, cs.len());
            assert(rest@ =~= cs@.skip(rp + 1));
            let parts = words(rest.as_slice());
            if parts.len() >= 6 {
                assert(crate::text::seqs_view(parts@)[1] == parts@[1]@);
                assert(crate::text::seqs_view(parts@)[2] == parts@[2]@);
                assert(crate::text::seqs_view(parts@)[5] == parts@[5]@);
                Some(
                    (
                        string_from_chars(parts[1].as_slice()),
                        string_from_chars(parts[2].as_slice()),
                        string_from_chars(parts[5].as_slice()),
                    ),
                )
            } else {
                None
            }
        },
        None => None,
    }
}

/// A number field as the shim reads it: its `i32` value, 0 when it does not parse.
pub open spec fn pid_field(s: Seq<char>) -> i32 {
    match parse_i32_spec(s) {
        Some(v) => v,
        None => 0,
    }
}

fn pid_field_exec(s: &String) -> (v: i32)
    ensures
        v == pid_field(s@),
{
    let cs = str_chars(s.as_str());
    match parse_i32(cs.as_slice()) {
        Some(v) => v,
        None => 0,
    }
}

/// The parent pid and process group from `/proc/self/stat` (0 for what is missing).
pub open spec fn parent_ids_spec(stat: Option<Seq<char>>) -> (i32, i32) {
    match stat {
        Some(t) => match stat_ids_spec(t) {
            Some(ids) => (pid_field(ids.0), pid_field(ids.1)),
            None => (0, 0),
        },
        None => (0, 0),
    }
}

pub fn parent_ids(stat: &Option<String>) -> (r: (i32, i32))
    ensures
        r == parent_ids_spec(opt_string_view(*stat)),
{
    match stat {
        Some(t) => match stat_ids(t.as_str()) {
            Some(ids) => (pid_field_exec(&ids.0), pid_field_exec(&ids.1)),
            None => (0, 0),
        },
        None => (0, 0),
    }
}

/// Shells whose name (`/proc/<pid>/comm`, trimmed) marks an interactive parent.
pub open spec fn is_shell_spec(comm: Seq<char>) -> bool {
    let c = trim_spec(comm);
    c == "sh"@ || c == "bash"@ || c == "dash"@ || c == "zsh"@ || c == "ksh"@ || c == "ash"@ || c == "busybox"@
        || c == "busybox-sh"@
}

pub fn is_shell(comm: &str) -> (b: bool)
    ensures
        b == is_shell_spec(comm@),
{
    let cs = str_chars(comm);
    let t = string_from_chars(trim(cs.as_slice()).as_slice());
    let c = t.as_str();
    crate::text::str_eq(c, "sh") || crate::text::str_eq(c, "bash") || crate::text::str_eq(c, "dash")
        || crate::text::str_eq(c, "zsh") || crate::text::str_eq(c, "ksh") || crate::text::str_eq(c, "ash")
        || crate::text::str_eq(c, "busybox") || crate::text::str_eq(c, "busybox-sh")
}

/// A signal sent to the parent shell.
#[derive(Clone, Copy, Debug, PartialEq, Eq, Structural)]
pub enum ShellSignal {
    Hup,
    Term,
    Kill,
}

/// One step of ending the parent shell: the pid to signal (negative for a process
/// group), the signal, and the pause after it in milliseconds.
#[derive(Clone, Copy, Debug, PartialEq, Eq, Structural)]
pub struct KillStep {
    pub target: i32,
    pub signal: ShellSignal,
    pub pause_ms: u64,
}

/// The parent shell is ended only when `AIFO_SHIM_KILL_PARENT_SHELL_ON_SIGINT` is
/// unset or `1`, a terminal is attached, the parent pid is above 1 and its name is a
/// shell: HUP then TERM to the parent, the same to its process group when it leads
/// one, then KILL to the parent.
pub open spec fn kill_plan_spec(
    env: Option<Seq<char>>,
    interactive: bool,
    ppid: i32,
    pgid: i32,
    comm: Option<Seq<char>>,
) -> Seq<KillStep> {
    let enabled = match env {
        Some(v) => v == "1"@,
        None => true,
    };
    let shell = match comm {
        Some(c) => is_shell_spec(c),
        None => false,
    };
    if !enabled || !interactive || ppid <= 1 || !shell {
        seq![]
    } else {
        seq![
            KillStep { target: ppid, signal: ShellSignal::Hup, pause_ms: 50 },
            KillStep { target: ppid, signal: ShellSignal::Term, pause_ms: 300 },
        ] + (if pgid > 0 && pgid == ppid {
            seq![
                KillStep { target: (-pgid) as i32, signal: ShellSignal::Hup, pause_ms: 50 },
                KillStep { target: (-pgid) as i32, signal: ShellSignal::Term, pause_ms: 300 },
            ]
        } else {
            seq![]
        }) + seq![KillStep { target: ppid, signal: ShellSignal::Kill, pause_ms: 0 }]
    }
}

/// The steps that end the parent shell after a forwarded signal (see `kill_plan_spec`).
pub fn kill_plan(env: &Option<String>, interactive: bool, ppid: i32, pgid: i32, comm: &Option<String>) -> (v: Vec<
    KillStep,
>)
    ensures
        v@ == kill_plan_spec(opt_string_view(*env), interactive, ppid, pgid, opt_string_view(*comm)),
{
    let enabled = match env {
        Some(s) => crate::text::str_eq(s.as_str(), "1"),
        None => true,
    };
    let shell = match comm {
        Some(c) => is_shell(c.as_str()),
        None => false,
    };
    let mut v: Vec<KillStep> = Vec::new();
    if !enabled || !interactive || ppid <= 1 || !shell {
        return v;
    }
    v.push(KillStep { target: ppid, signal: ShellSignal::Hup, pause_ms: 50 });
    v.push(KillStep { target: ppid, signal: ShellSignal::Term, pause_ms: 300 });
    if pgid > 0 && pgid == ppid {
        v.push(KillStep { target: -pgid, signal: ShellSignal::Hup, pause_ms: 50 });
        v.push(KillStep { target: -pgid, signal: ShellSignal::Term, pause_ms: 300 });
    }
    v.push(KillStep { target: ppid, signal: ShellSignal::Kill, pause_ms: 0 });
    proof {
        assert(v@ =~= kill_plan_spec(opt_string_view(*env), interactive, ppid, pgid, opt_string_view(*comm)));
    }
    v
}


/// `--data-urlencode <item>` for each item, in order.
pub open spec fn data_args(items: Seq<Seq<char>>) -> Seq<Seq<char>>
    decreases items.len(),
{
    if items.len() == 0 {
        seq![]
    } else {
        data_args(items.drop_last()) + seq!["--data-urlencode"@, items.last()]
    }
}

/// Where a curl fallback posts to `/<endpoint>`: through the socket of a `unix://`
/// URL to `http://localhost/<endpoint>`, else to the proxy URL cut at its last
/// `/exec`, followed by `/<endpoint>`.
pub open spec fn endpoint_args(url: Seq<char>, endpoint: Seq<char>) -> Seq<Seq<char>> {
    if crate::text::starts_with_spec(url, "unix://"@) {
        seq!["--unix-socket"@, crate::shim::strip_unix(url), "http://localhost/"@ + endpoint]
    } else {
        let base = match crate::text::find_last_spec(url, "/exec"@) {
            Some(i) => url.take(i),
            None => url,
        };
        seq![base + "/"@ + endpoint]
    }
}

/// The exec request keeps a `http://` URL as it is.
pub open spec fn exec_endpoint_args(url: Seq<char>) -> Seq<Seq<char>> {
    if crate::text::starts_with_spec(url, "unix://"@) {
        seq!["--unix-socket"@, crate::shim::strip_unix(url), "http://localhost/exec"@]
    } else {
        seq![url]
    }
}

fn push_notify_endpoint(v: &mut Vec<String>, url: &str)
    ensures
        strings_view(final(v)@) == strings_view(old(v)@) + endpoint_args(url@, "notify"@),
{
    let cs = str_chars(url);
    let up = str_chars("unix://");
    proof {
        reveal_strlit("unix://");
        reveal_strlit("notify");
        reveal_strlit("http://localhost/");
        reveal_strlit("http://localhost/notify");
        reveal_strlit("/");
        reveal_strlit("/notify");
    }
    if crate::text::starts_with(cs.as_slice(), up.as_slice()) {
        crate::escape::push_str_item(v, "--unix-socket");
        crate::escape::push_string_item(v, crate::shim::unix_socket_path(url));
        crate::escape::push_str_item(v, "http://localhost/notify");
        assert("http://localhost/"@ + "notify"@ =~= "http://localhost/notify"@);
    } else {
        let ex = str_chars("/exec");
        proof {
            crate::text::lemma_find_last_bound(cs@, ex@);
        }
        let base: Vec<char> = match crate::text::find_last(cs.as_slice(), ex.as_slice()) {
            Some(i) => slice_to_vec(cs.as_slice(), 0, i),
            None => cs.clone(),
        };
        let mut u = string_from_chars(base.as_slice());
        u.push_str("/notify");
        assert(u@ =~= base@ + "/"@ + "notify"@);
        crate::escape::push_string_item(v, u);
    }
    assert(strings_view(v@) =~= strings_view(old(v)@) + endpoint_args(url@, "notify"@));
}

fn push_exec_endpoint(v: &mut Vec<String>, url: &str)
    ensures
        strings_view(final(v)@) == strings_view(old(v)@) + exec_endpoint_args(url@),
{
    let cs = str_chars(url);
    let up = str_chars("unix://");
    proof {
        reveal_strlit("unix://");
    }
    if crate::text::starts_with(cs.as_slice(), up.as_slice()) {
        crate::escape::push_str_item(v, "--unix-socket");
        crate::escape::push_string_item(v, crate::shim::unix_socket_path(url));
        crate::escape::push_str_item(v, "http://localhost/exec");
    } else {
        crate::escape::push_str_item(v, url);
    }
    assert(strings_view(v@) =~= strings_view(old(v)@) + exec_endpoint_args(url@));
}

/// `cmd=<tool>` and `arg=<a>` for each argument.
pub open spec fn notify_items(tool: Seq<char>, args: Seq<Seq<char>>) -> Seq<Seq<char>> {
    seq!["cmd="@ + tool] + args.map_values(|a: Seq<char>| "arg="@ + a)
}

/// The curl fallback of a notification: without a header file the fire-and-forget
/// form, with one the form that dumps the response headers there.
pub open spec fn notify_curl_args_spec(
    url: Seq<char>,
    token: Seq<char>,
    tool: Seq<char>,
    args: Seq<Seq<char>>,
    header_path: Option<Seq<char>>,
) -> Seq<Seq<char>> {
    seq!["-sS"@] + match header_path {
        Some(h) => seq!["--no-buffer"@, "-D"@, h],
        None => seq![],
    } + seq![
        "-X"@,
        "POST"@,
        "-H"@,
        "Authorization: Bearer "@ + token,
        "-H"@,
        "X-Aifo-Proto: 2"@,
        "-H"@,
        "X-Aifo-Client: rust-shim-curl"@,
        "-H"@,
        "Content-Type: application/x-www-form-urlencoded"@,
    ] + data_args(notify_items(tool, args)) + endpoint_args(url, "notify"@)
}

/// The curl arguments of a notification (see `notify_curl_args_spec`).
pub fn notify_curl_args(url: &str, token: &str, tool: &str, args: &Vec<String>, header_path: Option<&str>) -> (v: Vec<
    String,
>)
    ensures
        strings_view(v@) == notify_curl_args_spec(
            url@,
            token@,
            tool@,
            strings_view(args@),
            crate::lock::opt_view(header_path),
        ),
{
    let mut v: Vec<String> = Vec::new();
    crate::escape::push_str_item(&mut v, "-sS");
    if let Some(h) = header_path {
        crate::escape::push_str_item(&mut v, "--no-buffer");
        crate::escape::push_str_item(&mut v, "-D");
        crate::escape::push_str_item(&mut v, h);
    }
    let mut auth = "Authorization: Bearer ".to_owned();
    auth.push_str(token);
    crate::escape::push_str_item(&mut v, "-X");
    crate::escape::push_str_item(&mut v, "POST");
    crate::escape::push_str_item(&mut v, "-H");
    crate::escape::push_string_item(&mut v, auth);
    crate::escape::push_str_item(&mut v, "-H");
    crate::escape::push_str_item(&mut v, "X-Aifo-Proto: 2");
    crate::escape::push_str_item(&mut v, "-H");
    crate::escape::push_str_item(&mut v, "X-Aifo-Client: rust-shim-curl");
    crate::escape::push_str_item(&mut v, "-H");
    crate::escape::push_str_item(&mut v, "Content-Type: application/x-www-form-urlencoded");
    let ghost head = strings_view(v@);
    assert(head =~= seq!["-sS"@] + match crate::lock::opt_view(header_path) {
        Some(h) => seq!["--no-buffer"@, "-D"@, h],
        None => seq![],
    } + seq![
        "-X"@,
        "POST"@,
        "-H"@,
        "Authorization: Bearer "@ + token@,
        "-H"@,
        "X-Aifo-Proto: 2"@,
        "-H"@,
        "X-Aifo-Client: rust-shim-curl"@,
        "-H"@,
        "Content-Type: application/x-www-form-urlencoded"@,
    ]);
    let ghost items = notify_items(tool@, strings_view(args@));
    let mut cmd = "cmd=".to_owned();
    cmd.push_str(tool);
    crate::escape::push_str_item(&mut v, "--data-urlencode");
    crate::escape::push_string_item(&mut v, cmd);
    assert(items.take(1) =~= seq!["cmd="@ + tool@]);
    assert(data_args(items.take(1)) =~= data_args(items.take(1).drop_last()) + seq!["--data-urlencode"@, items.take(1).last()]);
    assert(items.take(1).drop_last() =~= Seq::<Seq<char>>::empty());
    assert(strings_view(v@) =~= head + data_args(items.take(1)));
    let mut i: usize = 0;
    while i < args.len()
        invariant
            i <= args@.len(),
            items == notify_items(tool@, strings_view(args@)),
            items.len() == args@.len() + 1,
            strings_view(v@) == head + data_args(items.take(i + 1)),
        decreases args@.len() - i,
    {
        let mut a = "arg=".to_owned();
        a.push_str(args[i].as_str());
        let ghost av = a@;
        crate::escape::push_str_item(&mut v, "--data-urlencode");
        crate::escape::push_string_item(&mut v, a);
        assert(items[i + 1] == "arg="@ + args@[i as int]@) by {
            assert(strings_view(args@)[i as int] == args@[i as int]@);
        }
        assert(items.take(i + 2).drop_last() =~= items.take(i + 1));
        assert(items.take(i + 2).last() == av);
        assert(strings_view(v@) =~= head + data_args(items.take(i + 2)));
        i = i + 1;
    }
    assert(items.take(args@.len() as int + 1) =~= items);
    push_notify_endpoint(&mut v, url);
    assert(strings_view(v@) =~= notify_curl_args_spec(
        url@,
        token@,
        tool@,
        strings_view(args@),
        crate::lock::opt_view(header_path),
    ));
    v
}

/// The form of an exec request: `tool`, `cwd`, then `arg` for each argument.
pub open spec fn exec_form_spec(tool: Seq<char>, cwd: Seq<char>, args: Seq<Seq<char>>) -> Seq<(Seq<char>, Seq<char>)> {
    seq![("tool"@, tool), ("cwd"@, cwd)] + args.map_values(|a: Seq<char>| ("arg"@, a))
}

/// The form parts of an exec request (see `exec_form_spec`).
pub fn exec_form_parts(tool: &str, cwd: &str, args: &Vec<String>) -> (v: Vec<(String, String)>)
    ensures
        pairs_view(v@) == exec_form_spec(tool@, cwd@, strings_view(args@)),
{
    let mut v: Vec<(String, String)> = Vec::new();
    v.push(("tool".to_owned(), tool.to_owned()));
    v.push(("cwd".to_owned(), cwd.to_owned()));
    let mut i: usize = 0;
    while i < args.len()
        invariant
            i <= args@.len(),
            pairs_view(v@) == exec_form_spec(tool@, cwd@, strings_view(args@)).take(i + 2),
        decreases args@.len() - i,
    {
        let ghost before = pairs_view(v@);
        v.push(("arg".to_owned(), args[i].clone()));
        assert(strings_view(args@)[i as int] == args@[i as int]@);
        assert(pairs_view(v@) =~= before.push(("arg"@, args@[i as int]@)));
        assert(exec_form_spec(tool@, cwd@, strings_view(args@)).take(i + 3) =~= exec_form_spec(
            tool@,
            cwd@,
            strings_view(args@),
        ).take(i + 2).push(("arg"@, args@[i as int]@)));
        i = i + 1;
    }
    assert(exec_form_spec(tool@, cwd@, strings_view(args@)).take(args@.len() as int + 2) =~= exec_form_spec(
        tool@,
        cwd@,
        strings_view(args@),
    ));
    v
}

/// The curl fallback of an exec request, dumping the response headers to
/// `header_path`.
pub open spec fn exec_curl_args_spec(
    url: Seq<char>,
    token: Seq<char>,
    exec_id: Seq<char>,
    header_path: Seq<char>,
    parts: Seq<(Seq<char>, Seq<char>)>,
) -> Seq<Seq<char>> {
    seq![
        "-sS"@,
        "--no-buffer"@,
        "-D"@,
        header_path,
        "-X"@,
        "POST"@,
        "-H"@,
        "Authorization: Bearer "@ + token,
        "-H"@,
        "X-Aifo-Proto: 2"@,
        "-H"@,
        "TE: trailers"@,
        "-H"@,
        "Content-Type: application/x-www-form-urlencoded"@,
        "-H"@,
        "X-Aifo-Exec-Id: "@ + exec_id,
    ] + data_args(parts.map_values(|p: (Seq<char>, Seq<char>)| p.0 + "="@ + p.1)) + exec_endpoint_args(url)
}

/// The curl arguments of an exec request (see `exec_curl_args_spec`).
pub fn exec_curl_args(url: &str, token: &str, exec_id: &str, header_path: &str, parts: &Vec<(String, String)>) -> (v: Vec<
    String,
>)
    ensures
        strings_view(v@) == exec_curl_args_spec(url@, token@, exec_id@, header_path@, pairs_view(parts@)),
{
    let mut auth = "Authorization: Bearer ".to_owned();
    auth.push_str(token);
    let mut eid = "X-Aifo-Exec-Id: ".to_owned();
    eid.push_str(exec_id);
    let mut v: Vec<String> = vec![
        "-sS".to_owned(),
        "--no-buffer".to_owned(),
        "-D".to_owned(),
        header_path.to_owned(),
        "-X".to_owned(),
        "POST".to_owned(),
        "-H".to_owned(),
        auth,
        "-H".to_owned(),
        "X-Aifo-Proto: 2".to_owned(),
        "-H".to_owned(),
        "TE: trailers".to_owned(),
        "-H".to_owned(),
        "Content-Type: application/x-www-form-urlencoded".to_owned(),
        "-H".to_owned(),
        eid,
    ];
    let ghost head = strings_view(v@);
    let ghost items = pairs_view(parts@).map_values(|p: (Seq<char>, Seq<char>)| p.0 + "="@ + p.1);
    assert(items.take(0) =~= Seq::<Seq<char>>::empty());
    assert(strings_view(v@) =~= head + data_args(items.take(0)));
    let mut i: usize = 0;
    while i < parts.len()
        invariant
            i <= parts@.len(),
            items == pairs_view(parts@).map_values(|p: (Seq<char>, Seq<char>)| p.0 + "="@ + p.1),
            strings_view(v@) == head + data_args(items.take(i as int)),
        decreases parts@.len() - i,
    {
        let mut kv = parts[i].0.clone();
        kv.push_str("=");
        kv.push_str(parts[i].1.as_str());
        let ghost kvv = kv@;
        crate::escape::push_str_item(&mut v, "--data-urlencode");
        crate::escape::push_string_item(&mut v, kv);
        assert(items[i as int] == kvv);
        assert(items.take(i + 1).drop_last() =~= items.take(i as int));
        assert(strings_view(v@) =~= head + data_args(items.take(i + 1)));
        i = i + 1;
    }
    assert(items.take(parts@.len() as int) =~= items);
    push_exec_endpoint(&mut v, url);
    assert(strings_view(v@) =~= exec_curl_args_spec(url@, token@, exec_id@, header_path@, pairs_view(parts@)));
    v
}


/// The code a header line carries after its first 12 characters, when it begins
/// with `prefix` (compared after ASCII lower-casing when `fold`).
pub open spec fn header_code(l: Seq<char>, prefix: Seq<char>, fold: bool) -> Option<i32> {
    let probe = if fold {
        crate::text::lower_spec(l)
    } else {
        l
    };
    if crate::text::starts_with_spec(probe, prefix) {
        parse_i32_spec(trim_spec(l.skip(12)))
    } else {
        None
    }
}

/// The first line whose code parses.
pub open spec fn first_code(ls: Seq<Seq<char>>, prefix: Seq<char>, fold: bool) -> Option<i32>
    decreases ls.len(),
{
    if ls.len() == 0 {
        None
    } else if header_code(ls[0], prefix, fold) is Some {
        header_code(ls[0], prefix, fold)
    } else {
        first_code(ls.drop_first(), prefix, fold)
    }
}

/// The last line whose code parses.
pub open spec fn last_code(ls: Seq<Seq<char>>, prefix: Seq<char>, fold: bool) -> Option<i32>
    decreases ls.len(),
{
    if ls.len() == 0 {
        None
    } else if header_code(ls.last(), prefix, fold) is Some {
        header_code(ls.last(), prefix, fold)
    } else {
        last_code(ls.drop_last(), prefix, fold)
    }
}

fn header_code_exec(l: &Vec<char>, prefix: &str, fold: bool) -> (r: Option<i32>)
    requires
        prefix@.len() == 12,
    ensures
        r == header_code(l@, prefix@, fold),
{
    let pre = str_chars(prefix);
    let probe = if fold {
        crate::text::to_lower(l.as_slice())
    } else {
        l.clone()
    };
    if crate::text::starts_with(probe.as_slice(), pre.as_slice()) {
        let rest = slice_to_vec(l.as_slice(), 12, l.len());
        assert(rest@ =~= l@.skip(12));
        let t = trim(rest.as_slice());
        parse_i32(t.as_slice())
    } else {
        None
    }
}

/// The exit code of a notification answered through curl: from the first header
/// line that begins, in any ASCII case, with `x-exit-code:` and whose value parses;
/// 1 otherwise, also when no header file was written.
pub open spec fn notify_curl_exit_spec(headers: Option<Seq<char>>) -> i32 {
    match headers {
        Some(t) => match first_code(crate::text::lines_spec(t), "x-exit-code:"@, true) {
            Some(c) => c,
            None => 1,
        },
        None => 1,
    }
}

pub fn notify_curl_exit(headers: &Option<String>) -> (c: i32)
    ensures
        c == notify_curl_exit_spec(opt_string_view(*headers)),
{
    proof {
        reveal_strlit("x-exit-code:");
    }
    match headers {
        Some(t) => {
            let cs = str_chars(t.as_str());
            let ls = crate::text::lines(cs.as_slice());
            let ghost all = crate::text::seqs_view(ls@);
            let mut i: usize = 0;
            assert(all.skip(0) =~= all);
            while i < ls.len()
                invariant
                    i <= ls@.len(),
                    all == crate::text::seqs_view(ls@),
                    all == crate::text::lines_spec(t@),
                    "x-exit-code:"@.len() == 12,
                    opt_string_view(*headers) == Some(t@),
                    first_code(all, "x-exit-code:"@, true) == first_code(all.skip(i as int), "x-exit-code:"@, true),
                decreases ls@.len() - i,
            {
                assert(all.skip(i as int)[0] == ls@[i as int]@);
                assert(all.skip(i as int).drop_first() =~= all.skip(i + 1));
                match header_code_exec(&ls[i], "x-exit-code:", true) {
                    Some(c) => {
                        assert(first_code(all.skip(i as int), "x-exit-code:"@, true) == Some(c));
                        return c;
                    },
                    None => {},
                }
                i = i + 1;
            }
            assert(all.skip(i as int) =~= Seq::<Seq<char>>::empty());
            1
        },
        None => 1,
    }
}

/// The outcome of an exec run through curl: the code of the last `X-Exit-Code:`
/// header line whose value parses, and whether there was one. Without a header
/// file a successful curl counts as exit 0 with a header, a failed one as 1 without.
pub open spec fn exec_curl_exit_spec(headers: Option<Seq<char>>, curl_ok: bool) -> (i32, bool) {
    match headers {
        Some(t) => match last_code(crate::text::lines_spec(t), "X-Exit-Code:"@, false) {
            Some(c) => (c, true),
            None => (1, false),
        },
        None => if curl_ok {
            (0, true)
        } else {
            (1, false)
        },
    }
}

pub fn exec_curl_exit(headers: &Option<String>, curl_ok: bool) -> (r: (i32, bool))
    ensures
        r == exec_curl_exit_spec(opt_string_view(*headers), curl_ok),
{
    proof {
        reveal_strlit("X-Exit-Code:");
    }
    match headers {
        Some(t) => {
            let cs = str_chars(t.as_str());
            let ls = crate::text::lines(cs.as_slice());
            let ghost all = crate::text::seqs_view(ls@);
            let mut found: Option<i32> = None;
            let mut i: usize = 0;
            assert(all.take(0) =~= Seq::<Seq<char>>::empty());
            while i < ls.len()
                invariant
                    i <= ls@.len(),
                    all == crate::text::seqs_view(ls@),
                    all == crate::text::lines_spec(t@),
                    "X-Exit-Code:"@.len() == 12,
                    found == last_code(all.take(i as int), "X-Exit-Code:"@, false),
                decreases ls@.len() - i,
            {
                assert(all.take(i + 1).drop_last() =~= all.take(i as int));
                assert(all.take(i + 1).last() == ls@[i as int]@);
                match header_code_exec(&ls[i], "X-Exit-Code:", false) {
                    Some(c) => {
                        found = Some(c);
                    },
                    None => {},
                }
                i = i + 1;
            }
            assert(all.take(i as int) =~= all);
            match found {
                Some(c) => (c, true),
                None => (1, false),
            }
        },
        None => if curl_ok {
            (0, true)
        } else {
            (1, false)
        },
    }
}

/// After an exec without an exit-code header (a disconnect), the shim exits 0 unless
/// `AIFO_SHIM_EXIT_ZERO_ON_DISCONNECT` is `0`.
pub open spec fn disconnect_exit_spec(code: i32, had_header: bool, env: Option<Seq<char>>) -> i32 {
    if !had_header && env != Some("0"@) {
        0
    } else {
        code
    }
}

pub fn disconnect_exit(code: i32, had_header: bool, env: &Option<String>) -> (c: i32)
    ensures
        c == disconnect_exit_spec(code, had_header, opt_string_view(*env)),
{
    let zero_off = match env {
        Some(v) => crate::text::str_eq(v.as_str(), "0"),
        None => false,
    };
    if !had_header && !zero_off {
        0
    } else {
        code
    }
}


/// Tools that are notifications, posted to `/notify` rather than run.
pub open spec fn is_notify_tool_spec(tool: Seq<char>) -> bool {
    tool == "say"@
}

pub fn is_notify_tool(tool: &str) -> (b: bool)
    ensures
        b == is_notify_tool_spec(tool@),
{
    crate::text::str_eq(tool, "say")
}

/// Notifications are fired and forgotten unless verbose or
/// `AIFO_SHIM_NOTIFY_ASYNC` is `0`.
pub fn notify_async(verbose: bool, env: &Option<String>) -> (b: bool)
    ensures
        b == (!verbose && opt_string_view(*env) != Some("0"@)),
{
    let off = match env {
        Some(v) => crate::text::str_eq(v.as_str(), "0"),
        None => false,
    };
    !verbose && !off
}

/// Where the shim reaches the proxy: `AIFO_TOOLEEXEC_URL` and `AIFO_TOOLEEXEC_TOKEN`,
/// both required to be non-blank; otherwise the message to print and exit code 86.
pub open spec fn shim_endpoint_spec(url: Option<Seq<char>>, token: Option<Seq<char>>) -> Result<
    (Seq<char>, Seq<char>),
    Seq<char>,
> {
    if !(url is Some && trim_spec(url.unwrap()).len() > 0) {
        Err("aifo-shim: proxy not configured. Please launch agent with --toolchain."@)
    } else if !(token is Some && trim_spec(token.unwrap()).len() > 0) {
        Err("aifo-shim: proxy token missing. Please launch agent with --toolchain."@)
    } else {
        Ok((url.unwrap(), token.unwrap()))
    }
}

fn nonblank(v: &Option<String>) -> (b: bool)
    ensures
        b == (opt_string_view(*v) is Some && trim_spec(opt_string_view(*v).unwrap()).len() > 0),
{
    match v {
        Some(s) => {
            let cs = str_chars(s.as_str());
            trim(cs.as_slice()).len() > 0
        },
        None => false,
    }
}

/// The proxy URL and token, or the refusal message (the shim exits with 86).
pub fn shim_endpoint(url: &Option<String>, token: &Option<String>) -> (r: Result<(String, String), String>)
    ensures
        match (r, shim_endpoint_spec(opt_string_view(*url), opt_string_view(*token))) {
            (Ok(a), Ok(b)) => a.0@ == b.0 && a.1@ == b.1,
            (Err(a), Err(b)) => a@ == b,
            _ => false,
        },
{
    if !nonblank(url) {
        return Err("aifo-shim: proxy not configured. Please launch agent with --toolchain.".to_owned());
    }
    if !nonblank(token) {
        return Err("aifo-shim: proxy token missing. Please launch agent with --toolchain.".to_owned());
    }
    match (url, token) {
        (Some(u), Some(t)) => Ok((u.clone(), t.clone())),
        _ => Err("aifo-shim: proxy not configured. Please launch agent with --toolchain.".to_owned()),
    }
}

} // verus!
