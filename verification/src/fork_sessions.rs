//! Fork session maintenance decisions: ages and stale thresholds, pane protection,
//! the stale notice, automatic cleaning, and the clean plan with its confirmations.
use vstd::prelude::*;

use crate::escape::{json_escape, json_escape_spec, strings_view};
use crate::fork_meta::{extract_u64_spec, extract_value_u64};
use crate::proxy::opt_string_view;
use crate::text::{
    dec_spec, lines, lines_spec, parse_u64, parse_u64_spec, seqs_view, str_chars, str_eq, trim,
    trim_spec, u64_to_string, usize_to_string, lower_spec, to_lower, chars_eq, join_spec,
};

verus! {

/// Options of `fork clean`.
pub struct ForkCleanOpts {
    pub session: Option<String>,
    pub older_than_days: Option<u64>,
    pub all: bool,
    pub dry_run: bool,
    pub yes: bool,
    pub force: bool,
    pub keep_dirty: bool,
    pub json: bool,
}

/// A day count from the environment: the value parsed as `u64`, else the default.
pub open spec fn days_setting_spec(env: Option<Seq<char>>, default: u64) -> u64 {
    match env {
        Some(v) => match parse_u64_spec(v) {
            Some(d) => d,
            None => default,
        },
        None => default,
    }
}

pub fn days_setting(env: &Option<String>, default: u64) -> (d: u64)
    ensures
        d == days_setting_spec(opt_string_view(*env), default),
{
    match env {
        Some(v) => {
            let cs = str_chars(v.as_str());
            match parse_u64(cs.as_slice()) {
                Some(d) => d,
                None => default,
            }
        },
        None => default,
    }
}

/// Whole days from `created` to `now` (none when `created` lies ahead).
pub open spec fn age_days_spec(now: u64, created: u64) -> u64 {
    if now >= created {
        ((now - created) / 86400) as u64
    } else {
        0
    }
}

pub fn age_days(now: u64, created: u64) -> (d: u64)
    ensures
        d == age_days_spec(now, created),
{
    now.saturating_sub(created) / 86400
}

/// Whole seconds from the Unix epoch to a point in time, given what
/// `SystemTime::duration_since(UNIX_EPOCH)` gave for it in whole seconds: that count,
/// or zero where there was none (a time before the epoch). Reading the clock or a
/// file's modification time, and that conversion, happen where the time is read.
pub fn secs_since_epoch(offset: Option<u64>) -> (s: u64)
    ensures
        s == match offset {
            Some(x) => x,
            None => 0,
        },
{
    match offset {
        Some(x) => x,
        None => 0,
    }
}

/// A session's creation time: `created_at` from its metadata, else the directory's
/// modification time, else zero (unknown).
pub open spec fn created_at_spec(meta: Option<Seq<char>>, mtime: Option<u64>) -> u64 {
    let from_meta = match meta {
        Some(m) => extract_u64_spec(m, "created_at"@),
        None => None,
    };
    match from_meta {
        Some(c) => c,
        None => match mtime {
            Some(t) => t,
            None => 0,
        },
    }
}

pub fn session_created_at(meta: &Option<String>, mtime: Option<u64>) -> (c: u64)
    ensures
        c == created_at_spec(opt_string_view(*meta), mtime),
{
    let from_meta = match meta {
        Some(m) => extract_value_u64(m.as_str(), "created_at"),
        None => None,
    };
    match from_meta {
        Some(c) => c,
        None => match mtime {
            Some(t) => t,
            None => 0,
        },
    }
}

/// A session with a known creation time at least `threshold` days old.
pub open spec fn is_stale(now: u64, threshold: u64, created: u64) -> bool {
    created != 0 && age_days_spec(now, created) >= threshold
}

/// Number of stale sessions among `cs`.
pub open spec fn stale_count(now: u64, threshold: u64, cs: Seq<u64>) -> nat
    decreases cs.len(),
{
    if cs.len() == 0 {
        0
    } else {
        stale_count(now, threshold, cs.drop_last()) + if is_stale(now, threshold, cs.last()) {
            1nat
        } else {
            0nat
        }
    }
}

/// Age in days of the oldest stale session among `cs` (zero when there is none).
pub open spec fn stale_oldest(now: u64, threshold: u64, cs: Seq<u64>) -> u64
    decreases cs.len(),
{
    if cs.len() == 0 {
        0
    } else {
        let rest = stale_oldest(now, threshold, cs.drop_last());
        let a = age_days_spec(now, cs.last());
        if is_stale(now, threshold, cs.last()) && a > rest {
            a
        } else {
            rest
        }
    }
}

proof fn lemma_stale_count_le(now: u64, threshold: u64, cs: Seq<u64>)
    ensures
        stale_count(now, threshold, cs) <= cs.len(),
    decreases cs.len(),
{
    if cs.len() > 0 {
        lemma_stale_count_le(now, threshold, cs.drop_last());
    }
}

pub fn stale_summary(now: u64, threshold: u64, created: &Vec<u64>) -> (r: (usize, u64))
    ensures
        r.0 == stale_count(now, threshold, created@),
        r.1 == stale_oldest(now, threshold, created@),
{
    let mut count: usize = 0;
    let mut oldest: u64 = 0;
    let mut i: usize = 0;
    while i < created.len()
        invariant
            i <= created@.len(),
            count == stale_count(now, threshold, created@.take(i as int)),
            oldest == stale_oldest(now, threshold, created@.take(i as int)),
        decreases created@.len() - i,
    {
        assert(created@.take(i + 1).drop_last() =~= created@.take(i as int));
        proof {
            lemma_stale_count_le(now, threshold, created@.take(i as int));
        }
        let c = created[i];
        if c != 0 {
            let age = age_days(now, c);
            if age >= threshold {
                count = count + 1;
                if age > oldest {
                    oldest = age;
                }
            }
        }
        i = i + 1;
    }
    assert(created@.take(created@.len() as int) =~= created@);
    (count, oldest)
}

/// The stale notice for the current repository, when there are stale sessions.
pub open spec fn stale_notice_spec(count: nat, oldest: u64, threshold: u64) -> Seq<char> {
    "Found "@ + dec_spec(count) + " old fork sessions (oldest "@ + dec_spec(oldest as nat) + "d). Consider: aifo-coder fork clean --older-than "@
        + dec_spec(threshold as nat)
}

/// The notice about stale sessions (threshold from `AIFO_CODER_FORK_STALE_DAYS`,
/// default 30 days), or `None` when no session is stale.
pub fn fork_print_stale_notice(now: u64, created: &Vec<u64>, threshold_env: &Option<String>) -> (r: Option<String>)
    ensures
        ({
            let thr = days_setting_spec(opt_string_view(*threshold_env), 30);
            let n = stale_count(now, thr, created@);
            &&& (n == 0 <==> r is None)
            &&& (r matches Some(m) ==> m@ == stale_notice_spec(n, stale_oldest(now, thr, created@), thr))
        }),
{
    let thr = days_setting(threshold_env, 30);
    let (count, oldest) = stale_summary(now, thr, created);
    if count == 0 {
        return None;
    }
    let mut m = "Found ".to_owned();
    m.push_str(usize_to_string(count).as_str());
    m.push_str(" old fork sessions (oldest ");
    m.push_str(u64_to_string(oldest).as_str());
    m.push_str("d). Consider: aifo-coder fork clean --older-than ");
    m.push_str(u64_to_string(thr).as_str());
    Some(m)
}

/// Result of checking a pane: clean, or the reasons that protect it.
pub struct PaneCheck {
    pub clean: bool,
    pub reasons: Vec<String>,
}

/// What git reported about a pane: `git status --porcelain` output (when it ran),
/// `git submodule status --recursive` output (when it ran), whether the recorded
/// base commit exists there, the `HEAD` commit (when it resolves), and whether the
/// base is an ancestor of `HEAD`.
pub struct PaneFacts {
    pub porcelain: Option<String>,
    pub submodule_status: Option<String>,
    pub base_known: bool,
    pub head_sha: Option<String>,
    pub is_ancestor: bool,
}

/// A submodule status line marks a change (`+`, `-` or `U` in front).
pub open spec fn submodule_line_changed(l: Seq<char>) -> bool {
    l.len() > 0 && (l[0] == '+' || l[0] == '-' || l[0] == 'U')
}

pub open spec fn submodules_dirty_spec(out: Seq<char>) -> bool {
    exists|k: int| 0 <= k < lines_spec(out).len() && #[trigger] submodule_line_changed(lines_spec(out)[k])
}

pub fn submodules_dirty(out: &str) -> (b: bool)
    ensures
        b == submodules_dirty_spec(out@),
{
    let cs = str_chars(out);
    let ls = lines(cs.as_slice());
    let mut k: usize = 0;
    while k < ls.len()
        invariant
            k <= ls@.len(),
            seqs_view(ls@) == lines_spec(out@),
            cs@ == out@,
            forall|j: int| 0 <= j < k ==> !submodule_line_changed(#[trigger] lines_spec(out@)[j]),
        decreases ls@.len() - k,
    {
        let l = &ls[k];
        assert(l@ == lines_spec(out@)[k as int]);
        if l.len() > 0 && (l[0] == '+' || l[0] == '-' || l[0] == 'U') {
            assert(submodule_line_changed(lines_spec(out@)[k as int]));
            return true;
        }
        k = k + 1;
    }
    false
}

/// The pane's protection reasons, in order: `dirty` (else `submodules-dirty`),
/// then `ahead` or `base-unknown`.
pub open spec fn pane_reasons_spec(base_commit: Option<Seq<char>>, f: PaneFacts) -> Seq<Seq<char>> {
    let dirty = f.porcelain matches Some(p) && p@.len() > 0;
    let first: Seq<Seq<char>> = if dirty {
        seq!["dirty"@]
    } else if f.submodule_status matches Some(o) && submodules_dirty_spec(o@) {
        seq!["submodules-dirty"@]
    } else {
        seq![]
    };
    let (ahead, unknown) = match base_commit {
        None => (false, true),
        Some(b) => if !(f.base_known && f.head_sha is Some) {
            (false, true)
        } else if f.head_sha.unwrap()@ == b {
            (false, false)
        } else {
            (f.is_ancestor, false)
        },
    };
    first + (if ahead {
        seq!["ahead"@]
    } else {
        seq![]
    }) + (if unknown {
        seq!["base-unknown"@]
    } else {
        seq![]
    })
}

pub fn pane_check(base_commit: Option<&str>, facts: &PaneFacts) -> (r: PaneCheck)
    ensures
        strings_view(r.reasons@) == pane_reasons_spec(crate::lock::opt_view(base_commit), *facts),
        r.clean == (r.reasons@.len() == 0),
{
    let mut reasons: Vec<String> = Vec::new();
    let dirty = match &facts.porcelain {
        Some(p) => !p.as_str().is_empty(),
        None => false,
    };
    if dirty {
        reasons.push("dirty".to_owned());
    } else {
        match &facts.submodule_status {
            Some(o) => {
                if submodules_dirty(o.as_str()) {
                    reasons.push("submodules-dirty".to_owned());
                }
            },
            None => {},
        }
    }
    let ghost first = strings_view(reasons@);
    let (ahead, unknown) = match base_commit {
        None => (false, true),
        Some(b) => {
            if !(facts.base_known && facts.head_sha.is_some()) {
                (false, true)
            } else {
                let h = facts.head_sha.as_ref().unwrap();
                if str_eq(h.as_str(), b) {
                    (false, false)
                } else {
                    (facts.is_ancestor, false)
                }
            }
        },
    };
    if ahead {
        reasons.push("ahead".to_owned());
    }
    if unknown {
        reasons.push("base-unknown".to_owned());
    }
    assert(strings_view(reasons@) =~= pane_reasons_spec(crate::lock::opt_view(base_commit), *facts));
    let clean = reasons.len() == 0;
    PaneCheck { clean, reasons }
}

/// A fork session directory: its name (empty when unknown) and creation time.
pub struct SessionEntry {
    pub sid: String,
    pub created_at: u64,
}

/// What auto-clean decided: for each stale session (by index, in order) whether all
/// its panes were clean, so that it is to be removed; and the lines to report.
pub struct AutocleanPlan {
    pub decisions: Vec<(usize, bool)>,
    pub messages: Vec<String>,
}

/// Indices of the stale sessions, in order.
pub open spec fn stale_indices(now: u64, threshold: u64, ss: Seq<SessionEntry>) -> Seq<int>
    decreases ss.len(),
{
    if ss.len() == 0 {
        seq![]
    } else {
        let rest = stale_indices(now, threshold, ss.drop_last());
        if is_stale(now, threshold, ss.last().created_at) {
            rest.push(ss.len() - 1)
        } else {
            rest
        }
    }
}

/// Number of decisions with the given flag.
pub open spec fn count_flag(ds: Seq<(usize, bool)>, flag: bool) -> nat
    decreases ds.len(),
{
    if ds.len() == 0 {
        0
    } else {
        count_flag(ds.drop_last(), flag) + if ds.last().1 == flag {
            1nat
        } else {
            0nat
        }
    }
}

/// Non-empty names of the sessions decided with the given flag, in order.
pub open spec fn sids_with(ss: Seq<SessionEntry>, ds: Seq<(usize, bool)>, flag: bool) -> Seq<Seq<char>>
    decreases ds.len(),
{
    if ds.len() == 0 {
        seq![]
    } else {
        let rest = sids_with(ss, ds.drop_last(), flag);
        let sid = ss[ds.last().0 as int].sid@;
        if ds.last().1 == flag && sid.len() > 0 {
            rest.push(sid)
        } else {
            rest
        }
    }
}

/// Report lines of auto-clean: nothing unless a session was removed; then the
/// summary, and in verbose mode the removed and the kept session names.
pub open spec fn autoclean_messages_spec(
    ss: Seq<SessionEntry>,
    ds: Seq<(usize, bool)>,
    threshold: u64,
    verbose: bool,
) -> Seq<Seq<char>> {
    let deleted = count_flag(ds, true);
    let kept = count_flag(ds, false);
    let del_sids = sids_with(ss, ds, true);
    let kept_sids = sids_with(ss, ds, false);
    if deleted == 0 {
        seq![]
    } else {
        seq![
            "Auto-clean: removed "@ + dec_spec(deleted) + " clean fork session(s) older than "@ + dec_spec(
                threshold as nat,
            ) + "d; kept "@ + dec_spec(kept) + " protected session(s)."@,
        ] + (if verbose && del_sids.len() > 0 {
            seq!["  deleted sessions: "@ + join_spec(del_sids, " "@)]
        } else {
            seq![]
        }) + (if verbose && kept_sids.len() > 0 {
            seq!["  protected sessions kept: "@ + join_spec(kept_sids, " "@)]
        } else {
            seq![]
        })
    }
}

proof fn lemma_count_flag_le(ds: Seq<(usize, bool)>, flag: bool)
    ensures
        count_flag(ds, flag) <= ds.len(),
    decreases ds.len(),
{
    if ds.len() > 0 {
        lemma_count_flag_le(ds.drop_last(), flag);
    }
}

fn env_is_one(v: &Option<String>) -> (b: bool)
    ensures
        b == (opt_string_view(*v) == Some("1"@)),
{
    match v {
        Some(s) => str_eq(s.as_str(), "1"),
        None => false,
    }
}

fn autoclean_messages(
    sessions: &Vec<SessionEntry>,
    decisions: &Vec<(usize, bool)>,
    threshold: u64,
    verbose: bool,
) -> (msgs: Vec<String>)
    requires
        forall|k: int| 0 <= k < decisions@.len() ==> (#[trigger] decisions@[k]).0 < sessions@.len(),
    ensures
        strings_view(msgs@) == autoclean_messages_spec(sessions@, decisions@, threshold, verbose),
{
    let mut deleted: usize = 0;
    let mut kept: usize = 0;
    let mut del_sids: Vec<String> = Vec::new();
    let mut kept_sids: Vec<String> = Vec::new();
    let mut i: usize = 0;
    while i < decisions.len()
        invariant
            i <= decisions@.len(),
            forall|k: int| 0 <= k < decisions@.len() ==> (#[trigger] decisions@[k]).0 < sessions@.len(),
            deleted == count_flag(decisions@.take(i as int), true),
            kept == count_flag(decisions@.take(i as int), false),
            strings_view(del_sids@) == sids_with(sessions@, decisions@.take(i as int), true),
            strings_view(kept_sids@) == sids_with(sessions@, decisions@.take(i as int), false),
        decreases decisions@.len() - i,
    {
        assert(decisions@.take(i + 1).drop_last() =~= decisions@.take(i as int));
        proof {
            lemma_count_flag_le(decisions@.take(i as int), true);
            lemma_count_flag_le(decisions@.take(i as int), false);
        }
        let (idx, clean) = decisions[i];
        assert(decisions@[i as int].0 < sessions@.len());
        let sid = &sessions[idx].sid;
        let nonempty = !sid.as_str().is_empty();
        if clean {
            deleted = deleted + 1;
            if nonempty {
                crate::escape::push_str_item(&mut del_sids, sid.as_str());
            }
        } else {
            kept = kept + 1;
            if nonempty {
                crate::escape::push_str_item(&mut kept_sids, sid.as_str());
            }
        }
        i = i + 1;
    }
    assert(decisions@.take(decisions@.len() as int) =~= decisions@);
    let mut msgs: Vec<String> = Vec::new();
    if deleted == 0 {
        assert(strings_view(msgs@) =~= autoclean_messages_spec(sessions@, decisions@, threshold, verbose));
        return msgs;
    }
    let mut m = "Auto-clean: removed ".to_owned();
    m.push_str(usize_to_string(deleted).as_str());
    m.push_str(" clean fork session(s) older than ");
    m.push_str(u64_to_string(threshold).as_str());
    m.push_str("d; kept ");
    m.push_str(usize_to_string(kept).as_str());
    m.push_str(" protected session(s).");
    crate::escape::push_string_item(&mut msgs, m);
    if verbose && del_sids.len() > 0 {
        let mut l = "  deleted sessions: ".to_owned();
        l.push_str(crate::escape::join_strings(&del_sids, " ").as_str());
        crate::escape::push_string_item(&mut msgs, l);
    }
    if verbose && kept_sids.len() > 0 {
        let mut l = "  protected sessions kept: ".to_owned();
        l.push_str(crate::escape::join_strings(&kept_sids, " ").as_str());
        crate::escape::push_string_item(&mut msgs, l);
    }
    assert(strings_view(msgs@) =~= autoclean_messages_spec(sessions@, decisions@, threshold, verbose));
    msgs
}

/// Auto-clean (when `AIFO_CODER_FORK_AUTOCLEAN=1`): each session at least the stale
/// threshold old (`AIFO_CODER_FORK_STALE_DAYS`, default 30) is removed when
/// `all_clean` says all its panes are clean, and kept otherwise.
pub fn fork_autoclean_if_enabled<C: Fn(usize) -> bool>(
    autoclean_env: &Option<String>,
    verbose_env: &Option<String>,
    threshold_env: &Option<String>,
    now: u64,
    sessions: &Vec<SessionEntry>,
    all_clean: C,
) -> (plan: AutocleanPlan)
    requires
        forall|k: usize| call_requires(all_clean, (k,)),
    ensures
        opt_string_view(*autoclean_env) != Some("1"@) ==> plan.decisions@.len() == 0 && plan.messages@.len() == 0,
        opt_string_view(*autoclean_env) == Some("1"@) ==> {
            let thr = days_setting_spec(opt_string_view(*threshold_env), 30);
            &&& plan.decisions@.map_values(|d: (usize, bool)| d.0 as int) == stale_indices(now, thr, sessions@)
            &&& forall|k: int| 0 <= k < plan.decisions@.len() ==> #[trigger] call_ensures(
                all_clean,
                (plan.decisions@[k].0,),
                plan.decisions@[k].1,
            )
            &&& strings_view(plan.messages@) == autoclean_messages_spec(
                sessions@,
                plan.decisions@,
                thr,
                opt_string_view(*verbose_env) == Some("1"@),
            )
        },
{
    if !env_is_one(autoclean_env) {
        return AutocleanPlan { decisions: Vec::new(), messages: Vec::new() };
    }
    let thr = days_setting(threshold_env, 30);
    let verbose = env_is_one(verbose_env);
    let mut decisions: Vec<(usize, bool)> = Vec::new();
    let mut i: usize = 0;
    while i < sessions.len()
        invariant
            i <= sessions@.len(),
            forall|k: usize| call_requires(all_clean, (k,)),
            decisions@.map_values(|d: (usize, bool)| d.0 as int) == stale_indices(now, thr, sessions@.take(i as int)),
            forall|k: int| 0 <= k < decisions@.len() ==> (#[trigger] decisions@[k]).0 < i,
            forall|k: int| 0 <= k < decisions@.len() ==> #[trigger] call_ensures(
                all_clean,
                (decisions@[k].0,),
                decisions@[k].1,
            ),
        decreases sessions@.len() - i,
    {
        assert(sessions@.take(i + 1).drop_last() =~= sessions@.take(i as int));
        let c = sessions[i].created_at;
        if c != 0 && age_days(now, c) >= thr {
            let clean = all_clean(i);
            let ghost before = decisions@;
            decisions.push((i, clean));
            assert(decisions@.map_values(|d: (usize, bool)| d.0 as int) =~= before.map_values(
                |d: (usize, bool)| d.0 as int,
            ).push(i as int));
        }
        i = i + 1;
    }
    assert(sessions@.take(sessions@.len() as int) =~= sessions@);
    let messages = autoclean_messages(sessions, &decisions, thr, verbose);
    AutocleanPlan { decisions, messages }
}

/// A pane of a session to clean, with its protection state.
pub struct PaneStatus {
    pub dir: String,
    pub clean: bool,
    pub reasons: Vec<String>,
}

/// A session to clean and its panes.
pub struct SessionPlan {
    pub dir: String,
    pub panes: Vec<PaneStatus>,
}

/// Which sessions `fork clean` targets.
pub enum CleanSelection {
    Session(String),
    OlderThan(u64),
    All,
    Unspecified,
}

/// `--session` wins over `--older-than`, which wins over `--all`.
pub fn clean_selection(opts: &ForkCleanOpts) -> (sel: CleanSelection)
    ensures
        match opts.session {
            Some(sid) => sel matches CleanSelection::Session(s) && s@ == sid@,
            None => match opts.older_than_days {
                Some(d) => sel == CleanSelection::OlderThan(d),
                None => if opts.all {
                    sel is All
                } else {
                    sel is Unspecified
                },
            },
        },
{
    match &opts.session {
        Some(sid) => CleanSelection::Session(sid.clone()),
        None => match opts.older_than_days {
            Some(d) => CleanSelection::OlderThan(d),
            None => if opts.all {
                CleanSelection::All
            } else {
                CleanSelection::Unspecified
            },
        },
    }
}

/// Sessions of known age at least `days` old, by index in order.
pub fn select_older_than(now: u64, days: u64, sessions: &Vec<SessionEntry>) -> (out: Vec<usize>)
    ensures
        out@.map_values(|k: usize| k as int) == stale_indices(now, days, sessions@),
{
    let mut out: Vec<usize> = Vec::new();
    let mut i: usize = 0;
    while i < sessions.len()
        invariant
            i <= sessions@.len(),
            out@.map_values(|k: usize| k as int) == stale_indices(now, days, sessions@.take(i as int)),
        decreases sessions@.len() - i,
    {
        assert(sessions@.take(i + 1).drop_last() =~= sessions@.take(i as int));
        let c = sessions[i].created_at;
        if c != 0 && age_days(now, c) >= days {
            let ghost before = out@;
            out.push(i);
            assert(out@.map_values(|k: usize| k as int) =~= before.map_values(|k: usize| k as int).push(i as int));
        }
        i = i + 1;
    }
    assert(sessions@.take(sessions@.len() as int) =~= sessions@);
    out
}

/// A session's name: the last component of its directory, `(unknown)` when empty.
pub open spec fn sid_of(dir: Seq<char>) -> Seq<char> {
    let c = crate::registry::last_component(dir);
    if c.len() == 0 {
        "(unknown)"@
    } else {
        c
    }
}

pub fn session_sid(dir: &str) -> (s: String)
    ensures
        s@ == sid_of(dir@),
{
    let cs = str_chars(dir);
    proof {
        crate::text::lemma_rfind_char(cs@, '/');
    }
    let c = match crate::text::rfind_char(cs.as_slice(), '/') {
        Some(k) => {
            let n = cs.len();
            assert(crate::text::rfind_char_spec(cs@, '/') == Some(k as int));
            assert(k < n);
            let v = crate::text::slice_to_vec(cs.as_slice(), k + 1, n);
            assert(v@ =~= cs@.skip(k + 1));
            v
        },
        None => cs,
    };
    if c.len() == 0 {
        "(unknown)".to_owned()
    } else {
        crate::text::string_from_chars(c.as_slice())
    }
}

/// Number of clean panes.
pub open spec fn count_clean(ps: Seq<PaneStatus>) -> nat
    decreases ps.len(),
{
    if ps.len() == 0 {
        0
    } else {
        count_clean(ps.drop_last()) + if ps.last().clean {
            1nat
        } else {
            0nat
        }
    }
}

proof fn lemma_count_clean_le(ps: Seq<PaneStatus>)
    ensures
        count_clean(ps) <= ps.len(),
    decreases ps.len(),
{
    if ps.len() > 0 {
        lemma_count_clean_le(ps.drop_last());
    }
}

pub fn clean_count(ps: &Vec<PaneStatus>) -> (n: usize)
    ensures
        n == count_clean(ps@),
        n <= ps@.len(),
{
    let mut n: usize = 0;
    let mut i: usize = 0;
    while i < ps.len()
        invariant
            i <= ps@.len(),
            n == count_clean(ps@.take(i as int)),
            n <= i,
        decreases ps@.len() - i,
    {
        assert(ps@.take(i + 1).drop_last() =~= ps@.take(i as int));
        if ps[i].clean {
            n = n + 1;
        }
        i = i + 1;
    }
    assert(ps@.take(ps@.len() as int) =~= ps@);
    n
}

/// Whether the whole session directory goes: always with `--force` or without
/// `--keep-dirty`; with `--keep-dirty` only when every pane is clean.
pub open spec fn will_delete_session_spec(opts: ForkCleanOpts, ps: Seq<PaneStatus>) -> bool {
    if opts.force {
        true
    } else if opts.keep_dirty {
        count_clean(ps) == ps.len()
    } else {
        true
    }
}

pub open spec fn bool_word(b: bool) -> Seq<char> {
    if b {
        "true"@
    } else {
        "false"@
    }
}

/// One session of the dry-run plan as a JSON object.
pub open spec fn plan_session_json(opts: ForkCleanOpts, sp: SessionPlan) -> Seq<char> {
    let total = sp.panes@.len();
    let clean = count_clean(sp.panes@);
    "{\"sid\":"@ + json_escape_spec(sid_of(sp.dir@)) + ",\"panes_total\":"@ + dec_spec(total) + ",\"panes_clean\":"@
        + dec_spec(clean) + ",\"panes_protected\":"@ + dec_spec((total - clean) as nat)
        + ",\"will_delete_session\":"@ + bool_word(will_delete_session_spec(opts, sp.panes@)) + "}"@
}

/// The dry-run plan as JSON.
pub open spec fn dry_run_json_spec(opts: ForkCleanOpts, plan: Seq<SessionPlan>) -> Seq<char> {
    "{\"plan\":true,\"sessions\":["@ + join_spec(plan.map_values(|sp: SessionPlan| plan_session_json(opts, sp)), ","@)
        + "]}"@
}

fn plan_session_json_exec(opts: &ForkCleanOpts, sp: &SessionPlan) -> (s: String)
    ensures
        s@ == plan_session_json(*opts, *sp),
{
    let total = sp.panes.len();
    let clean = clean_count(&sp.panes);
    let will = if opts.force {
        true
    } else if opts.keep_dirty {
        clean == total
    } else {
        true
    };
    let sid = session_sid(sp.dir.as_str());
    let mut s = "{\"sid\":".to_owned();
    s.push_str(json_escape(sid.as_str()).as_str());
    s.push_str(",\"panes_total\":");
    s.push_str(usize_to_string(total).as_str());
    s.push_str(",\"panes_clean\":");
    s.push_str(usize_to_string(clean).as_str());
    s.push_str(",\"panes_protected\":");
    s.push_str(usize_to_string(total - clean).as_str());
    s.push_str(",\"will_delete_session\":");
    s.push_str(if will {
        "true"
    } else {
        "false"
    });
    s.push_str("}");
    s
}

/// The dry-run plan printed by `fork clean --dry-run --json`.
pub fn print_dry_run_json(plan: &Vec<SessionPlan>, opts: &ForkCleanOpts) -> (out: String)
    ensures
        out@ == dry_run_json_spec(*opts, plan@),
{
    let mut body = String::new();
    let mut i: usize = 0;
    while i < plan.len()
        invariant
            i <= plan@.len(),
            body@ == join_spec(
                plan@.take(i as int).map_values(|sp: SessionPlan| plan_session_json(*opts, sp)),
                ","@,
            ),
        decreases plan@.len() - i,
    {
        proof {
            let f = |sp: SessionPlan| plan_session_json(*opts, sp);
            assert(plan@.take(i + 1).map_values(f) =~= plan@.take(i as int).map_values(f).push(f(plan@[i as int])));
            crate::text::lemma_join_push(plan@.take(i as int).map_values(f), ","@, f(plan@[i as int]));
        }
        if i > 0 {
            body.push_str(",");
        }
        let item = plan_session_json_exec(opts, &plan[i]);
        body.push_str(item.as_str());
        i = i + 1;
    }
    assert(plan@.take(plan@.len() as int) =~= plan@);
    let mut out = "{\"plan\":true,\"sessions\":[".to_owned();
    out.push_str(body.as_str());
    out.push_str("]}");
    out
}

/// Protected (not clean) panes over all sessions.
pub open spec fn protected_total(plan: Seq<SessionPlan>) -> nat
    decreases plan.len(),
{
    if plan.len() == 0 {
        0
    } else {
        protected_total(plan.drop_last()) + (plan.last().panes@.len() - count_clean(plan.last().panes@)) as nat
    }
}

/// Panes over all sessions.
pub open spec fn panes_total(plan: Seq<SessionPlan>) -> nat
    decreases plan.len(),
{
    if plan.len() == 0 {
        0
    } else {
        panes_total(plan.drop_last()) + plan.last().panes@.len()
    }
}

/// Clean panes over all sessions.
pub open spec fn clean_total(plan: Seq<SessionPlan>) -> nat
    decreases plan.len(),
{
    if plan.len() == 0 {
        0
    } else {
        clean_total(plan.drop_last()) + count_clean(plan.last().panes@)
    }
}

/// Sessions whose panes are all clean.
pub open spec fn all_clean_sessions(plan: Seq<SessionPlan>) -> nat
    decreases plan.len(),
{
    if plan.len() == 0 {
        0
    } else {
        all_clean_sessions(plan.drop_last()) + if count_clean(plan.last().panes@) == plan.last().panes@.len() {
            1nat
        } else {
            0nat
        }
    }
}

proof fn lemma_totals_le(plan: Seq<SessionPlan>)
    ensures
        protected_total(plan) <= panes_total(plan),
        clean_total(plan) <= panes_total(plan),
        all_clean_sessions(plan) <= plan.len(),
    decreases plan.len(),
{
    if plan.len() > 0 {
        lemma_totals_le(plan.drop_last());
        lemma_count_clean_le(plan.last().panes@);
    }
}

/// Totals of a plan: protected panes, all panes, clean panes, and sessions whose
/// panes are all clean. `None` when a count does not fit in `usize`.
pub fn plan_totals(plan: &Vec<SessionPlan>) -> (r: Option<(usize, usize, usize, usize)>)
    ensures
        match r {
            Some(t) => t.0 == protected_total(plan@) && t.1 == panes_total(plan@) && t.2 == clean_total(plan@)
                && t.3 == all_clean_sessions(plan@),
            None => panes_total(plan@) > usize::MAX,
        },
{
    let mut prot: usize = 0;
    let mut total: usize = 0;
    let mut clean: usize = 0;
    let mut sessions: usize = 0;
    let mut i: usize = 0;
    while i < plan.len()
        invariant
            i <= plan@.len(),
            prot == protected_total(plan@.take(i as int)),
            total == panes_total(plan@.take(i as int)),
            clean == clean_total(plan@.take(i as int)),
            sessions == all_clean_sessions(plan@.take(i as int)),
            sessions <= i,
        decreases plan@.len() - i,
    {
        assert(plan@.take(i + 1).drop_last() =~= plan@.take(i as int));
        proof {
            lemma_totals_le(plan@.take(i as int));
            lemma_totals_le(plan@.take(i + 1));
        }
        let n = plan[i].panes.len();
        let c = clean_count(&plan[i].panes);
        if n > usize::MAX - total {
            proof {
                lemma_panes_total_prefix(plan@, i + 1);
            }
            return None;
        }
        total = total + n;
        prot = prot + (n - c);
        clean = clean + c;
        if c == n {
            sessions = sessions + 1;
        }
        i = i + 1;
    }
    assert(plan@.take(plan@.len() as int) =~= plan@);
    Some((prot, total, clean, sessions))
}

proof fn lemma_panes_total_prefix(plan: Seq<SessionPlan>, k: int)
    requires
        0 <= k <= plan.len(),
    ensures
        panes_total(plan.take(k)) <= panes_total(plan),
    decreases plan.len() - k,
{
    if k < plan.len() {
        lemma_panes_total_prefix(plan, k + 1);
        assert(plan.take(k + 1).drop_last() =~= plan.take(k));
    } else {
        assert(plan.take(k) =~= plan);
    }
}

/// Without `--force` or `--keep-dirty`, a plan with protected panes is refused.
pub open spec fn refuses_spec(opts: ForkCleanOpts, plan: Seq<SessionPlan>) -> bool {
    !opts.force && !opts.keep_dirty && protected_total(plan) > 0
}

/// Sessions and panes that a confirmed clean deletes.
pub open spec fn deletion_counts_spec(opts: ForkCleanOpts, plan: Seq<SessionPlan>) -> (nat, nat) {
    if opts.force || !opts.keep_dirty {
        (plan.len(), panes_total(plan))
    } else {
        (all_clean_sessions(plan), clean_total(plan))
    }
}

/// A confirmation is asked for unless the run is a dry run, `--yes` or `--json`.
pub open spec fn needs_confirmation_spec(opts: ForkCleanOpts) -> bool {
    !opts.dry_run && !opts.yes && !opts.json
}

pub fn needs_confirmation(opts: &ForkCleanOpts) -> (b: bool)
    ensures
        b == needs_confirmation_spec(*opts),
{
    !opts.dry_run && !opts.yes && !opts.json
}

pub open spec fn confirm_prompt_spec(sessions: nat, panes: nat) -> Seq<char> {
    "aifo-coder: about to delete "@ + dec_spec(sessions) + " session(s) and "@ + dec_spec(panes)
        + " pane(s). Proceed? [y/N] "@
}

/// Outcome of the checks before deleting: refused (with the protected count), a
/// confirmation to ask (with its prompt), or go ahead.
pub enum CleanGate {
    Refuse(usize),
    /// A confirmation is needed but stdin is not a terminal.
    RefuseNonInteractive,
    Ask(String),
    Proceed,
}

/// Protection and confirmation decisions of `fork clean`. Without a terminal on
/// stdin a needed confirmation is refused; a confirmation is only asked for when
/// something would be deleted.
pub fn check_and_prompt(plan: &Vec<SessionPlan>, opts: &ForkCleanOpts, stdin_interactive: bool) -> (g: Option<CleanGate>)
    ensures
        g is None <==> panes_total(plan@) > usize::MAX,
        match g {
            Some(CleanGate::Refuse(n)) => refuses_spec(*opts, plan@) && n == protected_total(plan@),
            Some(CleanGate::RefuseNonInteractive) => !refuses_spec(*opts, plan@) && needs_confirmation_spec(*opts)
                && !stdin_interactive,
            Some(CleanGate::Ask(p)) => !refuses_spec(*opts, plan@) && needs_confirmation_spec(*opts) && stdin_interactive && ({
                let c = deletion_counts_spec(*opts, plan@);
                (c.0 > 0 || c.1 > 0) && p@ == confirm_prompt_spec(c.0, c.1)
            }),
            Some(CleanGate::Proceed) => !refuses_spec(*opts, plan@) && (!needs_confirmation_spec(*opts) || (stdin_interactive && {
                let c = deletion_counts_spec(*opts, plan@);
                c.0 == 0 && c.1 == 0
            })),
            None => true,
        },
{
    let t = match plan_totals(plan) {
        Some(t) => t,
        None => {
            return None;
        },
    };
    let (prot, total, clean, all_clean) = t;
    if !opts.force && !opts.keep_dirty && prot > 0 {
        return Some(CleanGate::Refuse(prot));
    }
    if !needs_confirmation(opts) {
        return Some(CleanGate::Proceed);
    }
    if !stdin_interactive {
        return Some(CleanGate::RefuseNonInteractive);
    }
    let (s, p) = if opts.force || !opts.keep_dirty {
        (plan.len(), total)
    } else {
        (all_clean, clean)
    };
    if s == 0 && p == 0 {
        return Some(CleanGate::Proceed);
    }
    let mut m = "aifo-coder: about to delete ".to_owned();
    m.push_str(usize_to_string(s).as_str());
    m.push_str(" session(s) and ");
    m.push_str(usize_to_string(p).as_str());
    m.push_str(" pane(s). Proceed? [y/N] ");
    Some(CleanGate::Ask(m))
}

/// An answer confirms when, trimmed and in ASCII lower case, it is `y` or `yes`.
pub open spec fn confirms_spec(answer: Seq<char>) -> bool {
    let a = lower_spec(trim_spec(answer));
    a == "y"@ || a == "yes"@
}

pub fn confirms(answer: &str) -> (b: bool)
    ensures
        b == confirms_spec(answer@),
{
    let cs = str_chars(answer);
    let t = trim(cs.as_slice());
    let a = to_lower(t.as_slice());
    let y = str_chars("y");
    let yes = str_chars("yes");
    chars_eq(a.as_slice(), y.as_slice()) || chars_eq(a.as_slice(), yes.as_slice())
}

/// One step of executing a clean plan.
pub enum CleanStep {
    /// Dry run: show `rm -rf <path>`.
    ShowRemove(String),
    /// Dry run: show `rmdir <path>`.
    ShowRmdir(String),
    /// Remove a session: clean up its toolchain state, delete the directory, report it.
    RemoveSession { sid: String, dir: String },
    /// Delete one clean pane directory.
    RemovePane(String),
    /// Keep a session with protected panes: rewrite its metadata for these panes.
    KeepSession { sid: String, dir: String, remaining: Vec<String> },
}

pub enum StepView {
    ShowRemove(Seq<char>),
    ShowRmdir(Seq<char>),
    RemoveSession(Seq<char>, Seq<char>),
    RemovePane(Seq<char>),
    KeepSession(Seq<char>, Seq<char>, Seq<Seq<char>>),
}

pub open spec fn step_view(s: CleanStep) -> StepView {
    match s {
        CleanStep::ShowRemove(p) => StepView::ShowRemove(p@),
        CleanStep::ShowRmdir(p) => StepView::ShowRmdir(p@),
        CleanStep::RemoveSession { sid, dir } => StepView::RemoveSession(sid@, dir@),
        CleanStep::RemovePane(p) => StepView::RemovePane(p@),
        CleanStep::KeepSession { sid, dir, remaining } => StepView::KeepSession(sid@, dir@, strings_view(remaining@)),
    }
}

pub open spec fn steps_view(v: Seq<CleanStep>) -> Seq<StepView> {
    v.map_values(|s: CleanStep| step_view(s))
}

/// Steps for the panes of a session cleaned with `--keep-dirty`: each clean pane
/// is deleted (shown in a dry run).
pub open spec fn pane_steps(dry: bool, ps: Seq<PaneStatus>) -> Seq<StepView>
    decreases ps.len(),
{
    if ps.len() == 0 {
        seq![]
    } else {
        let rest = pane_steps(dry, ps.drop_last());
        if ps.last().clean {
            rest.push(if dry {
                StepView::ShowRemove(ps.last().dir@)
            } else {
                StepView::RemovePane(ps.last().dir@)
            })
        } else {
            rest
        }
    }
}

/// Directories of the protected panes, in order.
pub open spec fn remaining_dirs(ps: Seq<PaneStatus>) -> Seq<Seq<char>>
    decreases ps.len(),
{
    if ps.len() == 0 {
        seq![]
    } else {
        let rest = remaining_dirs(ps.drop_last());
        if !ps.last().clean {
            rest.push(ps.last().dir@)
        } else {
            rest
        }
    }
}

/// Steps for one session.
pub open spec fn session_steps(opts: ForkCleanOpts, sp: SessionPlan) -> Seq<StepView> {
    let sid = sid_of(sp.dir@);
    if opts.force || !opts.keep_dirty {
        if opts.dry_run {
            seq![StepView::ShowRemove(sp.dir@)]
        } else {
            seq![StepView::RemoveSession(sid, sp.dir@)]
        }
    } else {
        let rem = remaining_dirs(sp.panes@);
        pane_steps(opts.dry_run, sp.panes@) + if rem.len() == 0 {
            if opts.dry_run {
                seq![StepView::ShowRmdir(sp.dir@)]
            } else {
                seq![StepView::RemoveSession(sid, sp.dir@)]
            }
        } else if opts.dry_run {
            seq![]
        } else {
            seq![StepView::KeepSession(sid, sp.dir@, rem)]
        }
    }
}

/// Steps for a whole plan, session after session.
pub open spec fn plan_steps(opts: ForkCleanOpts, plan: Seq<SessionPlan>) -> Seq<StepView>
    decreases plan.len(),
{
    if plan.len() == 0 {
        seq![]
    } else {
        plan_steps(opts, plan.drop_last()) + session_steps(opts, plan.last())
    }
}

fn push_step(v: &mut Vec<CleanStep>, s: CleanStep)
    ensures
        steps_view(final(v)@) == steps_view(old(v)@).push(step_view(s)),
{
    let ghost sv = step_view(s);
    v.push(s);
    assert(steps_view(v@) =~= steps_view(old(v)@).push(sv));
}

fn session_steps_exec(opts: &ForkCleanOpts, sp: &SessionPlan, v: &mut Vec<CleanStep>)
    ensures
        steps_view(final(v)@) == steps_view(old(v)@) + session_steps(*opts, *sp),
{
    let sid = session_sid(sp.dir.as_str());
    if opts.force || !opts.keep_dirty {
        if opts.dry_run {
            push_step(v, CleanStep::ShowRemove(sp.dir.clone()));
        } else {
            push_step(v, CleanStep::RemoveSession { sid, dir: sp.dir.clone() });
        }
        assert(steps_view(v@) =~= steps_view(old(v)@) + session_steps(*opts, *sp));
        return;
    }
    let mut remaining: Vec<String> = Vec::new();
    let mut i: usize = 0;
    while i < sp.panes.len()
        invariant
            i <= sp.panes@.len(),
            steps_view(v@) == steps_view(old(v)@) + pane_steps(opts.dry_run, sp.panes@.take(i as int)),
            strings_view(remaining@) == remaining_dirs(sp.panes@.take(i as int)),
        decreases sp.panes@.len() - i,
    {
        assert(sp.panes@.take(i + 1).drop_last() =~= sp.panes@.take(i as int));
        let ps = &sp.panes[i];
        if ps.clean {
            if opts.dry_run {
                push_step(v, CleanStep::ShowRemove(ps.dir.clone()));
            } else {
                push_step(v, CleanStep::RemovePane(ps.dir.clone()));
            }
            assert(steps_view(v@) =~= steps_view(old(v)@) + pane_steps(opts.dry_run, sp.panes@.take(i + 1)));
        } else {
            crate::escape::push_str_item(&mut remaining, ps.dir.as_str());
        }
        i = i + 1;
    }
    assert(sp.panes@.take(sp.panes@.len() as int) =~= sp.panes@);
    let ghost mid = steps_view(v@);
    if remaining.len() == 0 {
        if opts.dry_run {
            push_step(v, CleanStep::ShowRmdir(sp.dir.clone()));
        } else {
            push_step(v, CleanStep::RemoveSession { sid, dir: sp.dir.clone() });
        }
    } else if !opts.dry_run {
        push_step(v, CleanStep::KeepSession { sid, dir: sp.dir.clone(), remaining });
    }
    assert(steps_view(v@) =~= steps_view(old(v)@) + session_steps(*opts, *sp));
}

/// The steps that execute a clean plan, in order.
pub fn execute(plan: &Vec<SessionPlan>, opts: &ForkCleanOpts) -> (v: Vec<CleanStep>)
    ensures
        steps_view(v@) == plan_steps(*opts, plan@),
{
    let mut v: Vec<CleanStep> = Vec::new();
    let mut i: usize = 0;
    while i < plan.len()
        invariant
            i <= plan@.len(),
            steps_view(v@) == plan_steps(*opts, plan@.take(i as int)),
        decreases plan@.len() - i,
    {
        assert(plan@.take(i + 1).drop_last() =~= plan@.take(i as int));
        session_steps_exec(opts, &plan[i], &mut v);
        i = i + 1;
    }
    assert(plan@.take(plan@.len() as int) =~= plan@);
    v
}

/// Sessions and panes deleted by executing a plan: nothing in a dry run, else the
/// deletion counts of the confirmation.
pub open spec fn executed_counts_spec(opts: ForkCleanOpts, plan: Seq<SessionPlan>) -> (nat, nat) {
    if opts.dry_run {
        (0, 0)
    } else {
        deletion_counts_spec(opts, plan)
    }
}

pub fn executed_counts(plan: &Vec<SessionPlan>, opts: &ForkCleanOpts) -> (r: Option<(usize, usize)>)
    ensures
        match r {
            Some(c) => (c.0 as nat, c.1 as nat) == executed_counts_spec(*opts, plan@),
            None => panes_total(plan@) > usize::MAX,
        },
{
    let t = match plan_totals(plan) {
        Some(t) => t,
        None => {
            return None;
        },
    };
    if opts.dry_run {
        return Some((0, 0));
    }
    if opts.force || !opts.keep_dirty {
        Some((plan.len(), t.1))
    } else {
        Some((t.3, t.2))
    }
}

pub open spec fn deleted_session_message_spec(sid: Seq<char>) -> Seq<char> {
    "aifo-coder: deleted fork session "@ + sid
}

pub fn deleted_session_message(sid: &str) -> (s: String)
    ensures
        s@ == deleted_session_message_spec(sid@),
{
    let mut s = "aifo-coder: deleted fork session ".to_owned();
    s.push_str(sid);
    s
}

pub open spec fn kept_session_message_spec(sid: Seq<char>, n: nat) -> Seq<char> {
    "aifo-coder: kept fork session "@ + sid + " ("@ + dec_spec(n) + " protected pane(s) remain)"@
}

pub fn kept_session_message(sid: &str, n: usize) -> (s: String)
    ensures
        s@ == kept_session_message_spec(sid@, n as nat),
{
    let mut s = "aifo-coder: kept fork session ".to_owned();
    s.push_str(sid);
    s.push_str(" (");
    s.push_str(usize_to_string(n).as_str());
    s.push_str(" protected pane(s) remain)");
    s
}

/// JSON array of escaped strings.
pub open spec fn json_array_spec(items: Seq<Seq<char>>) -> Seq<char> {
    "["@ + join_spec(items.map_values(|x: Seq<char>| json_escape_spec(x)), ","@) + "]"@
}

pub fn json_string_array(items: &Vec<String>) -> (s: String)
    ensures
        s@ == json_array_spec(strings_view(items@)),
{
    let mut body = String::new();
    let mut i: usize = 0;
    while i < items.len()
        invariant
            i <= items@.len(),
            body@ == join_spec(
                strings_view(items@.take(i as int)).map_values(|x: Seq<char>| json_escape_spec(x)),
                ","@,
            ),
        decreases items@.len() - i,
    {
        proof {
            let f = |x: Seq<char>| json_escape_spec(x);
            assert(strings_view(items@.take(i + 1)).map_values(f) =~= strings_view(items@.take(i as int)).map_values(
                f,
            ).push(f(items@[i as int]@)));
            crate::text::lemma_join_push(strings_view(items@.take(i as int)).map_values(f), ","@, f(items@[i as int]@));
        }
        if i > 0 {
            body.push_str(",");
        }
        body.push_str(json_escape(items[i].as_str()).as_str());
        i = i + 1;
    }
    assert(items@.take(items@.len() as int) =~= items@);
    let mut s = "[".to_owned();
    s.push_str(body.as_str());
    s.push_str("]");
    s
}

/// A string field of the previous metadata, or a default.
pub open spec fn prev_string(prev: Option<Seq<char>>, key: Seq<char>, default: Seq<char>) -> Seq<char> {
    match prev {
        Some(t) => match crate::fork_meta::extract_string_spec(t, key) {
            Some(v) => v,
            None => default,
        },
        None => default,
    }
}

fn prev_string_exec(prev: Option<&str>, key: &str, default: &str) -> (s: String)
    ensures
        s@ == prev_string(crate::lock::opt_view(prev), key@, default@),
{
    match prev {
        Some(t) => match crate::fork_meta::extract_value_string(t, key) {
            Some(v) => v,
            None => default.to_owned(),
        },
        None => default.to_owned(),
    }
}

/// Metadata of a session kept with protected panes: the previous creation time,
/// base label (default `(unknown)`), base ref and commit (default empty) and layout
/// (default `tiled`), the remaining pane directories and their branches.
pub open spec fn kept_meta_spec(
    sid: Seq<char>,
    prev: Option<Seq<char>>,
    remaining: Seq<Seq<char>>,
    branches: Seq<Seq<char>>,
) -> Seq<char> {
    let created = match prev {
        Some(t) => match extract_u64_spec(t, "created_at"@) {
            Some(c) => c,
            None => 0,
        },
        None => 0,
    };
    "{"@ + "\"sid\":"@ + json_escape_spec(sid) + ","@ + "\"created_at\":"@ + dec_spec(created as nat) + ","@
        + "\"base_label\":"@ + json_escape_spec(prev_string(prev, "base_label"@, "(unknown)"@)) + ","@
        + "\"base_ref_or_sha\":"@ + json_escape_spec(prev_string(prev, "base_ref_or_sha"@, ""@)) + ","@
        + "\"base_commit_sha\":"@ + json_escape_spec(prev_string(prev, "base_commit_sha"@, ""@)) + ","@
        + "\"layout\":"@ + json_escape_spec(prev_string(prev, "layout"@, "tiled"@)) + ","@
        + "\"panes_remaining\":"@ + dec_spec(remaining.len()) + ","@ + "\"pane_dirs\":"@ + json_array_spec(remaining)
        + ",\"branches\":"@ + json_array_spec(branches) + "}"@
}

pub fn kept_meta_json(sid: &str, prev: Option<&str>, remaining: &Vec<String>, branches: &Vec<String>) -> (s: String)
    ensures
        s@ == kept_meta_spec(sid@, crate::lock::opt_view(prev), strings_view(remaining@), strings_view(branches@)),
{
    let created = match prev {
        Some(t) => match extract_value_u64(t, "created_at") {
            Some(c) => c,
            None => 0,
        },
        None => 0,
    };
    let mut s = "{".to_owned();
    s.push_str("\"sid\":");
    s.push_str(json_escape(sid).as_str());
    s.push_str(",");
    s.push_str("\"created_at\":");
    s.push_str(u64_to_string(created).as_str());
    s.push_str(",");
    s.push_str("\"base_label\":");
    s.push_str(json_escape(prev_string_exec(prev, "base_label", "(unknown)").as_str()).as_str());
    s.push_str(",");
    s.push_str("\"base_ref_or_sha\":");
    s.push_str(json_escape(prev_string_exec(prev, "base_ref_or_sha", "").as_str()).as_str());
    s.push_str(",");
    s.push_str("\"base_commit_sha\":");
    s.push_str(json_escape(prev_string_exec(prev, "base_commit_sha", "").as_str()).as_str());
    s.push_str(",");
    s.push_str("\"layout\":");
    s.push_str(json_escape(prev_string_exec(prev, "layout", "tiled").as_str()).as_str());
    s.push_str(",");
    s.push_str("\"panes_remaining\":");
    s.push_str(usize_to_string(remaining.len()).as_str());
    s.push_str(",");
    s.push_str("\"pane_dirs\":");
    s.push_str(json_string_array(remaining).as_str());
    s.push_str(",\"branches\":");
    s.push_str(json_string_array(branches).as_str());
    s.push_str("}");
    s
}

/// A dry-run line: `DRY-RUN:` and the command that would run.
pub open spec fn dry_run_line_spec(use_color: bool, cmd: Seq<char>) -> Seq<char> {
    crate::color::paint_spec(use_color, "\x1b[33m"@, "DRY-RUN:"@) + " "@ + crate::color::paint_spec(
        use_color,
        "\x1b[34;1m"@,
        cmd,
    )
}

pub fn dry_run_line(use_color: bool, cmd: &str) -> (s: String)
    ensures
        s@ == dry_run_line_spec(use_color, cmd@),
{
    let mut s = crate::color::paint(use_color, "\x1b[33m", "DRY-RUN:");
    s.push_str(" ");
    s.push_str(crate::color::paint(use_color, "\x1b[34;1m", cmd).as_str());
    s
}

/// The refusal lines of `fork clean`: the count of protected panes, the hint, and
/// one line per protected pane with its session, directory and reasons.
pub open spec fn refusal_head_spec(use_color: bool, n: nat) -> Seq<Seq<char>> {
    seq![
        crate::color::paint_spec(use_color, "\x1b[31;1m"@, "aifo-coder: refusing to delete"@) + ": "@ + dec_spec(n)
            + " pane(s) are protected (dirty/ahead/base-unknown)."@,
        crate::color::paint_spec(
            use_color,
            "\x1b[33m"@,
            "Use --keep-dirty to remove only clean panes, or --force to delete everything."@,
        ),
    ]
}

pub open spec fn protected_pane_line(use_color: bool, sid: Seq<char>, ps: PaneStatus) -> Seq<char> {
    "  "@ + crate::color::paint_spec(use_color, "\x1b[34;1m"@, sid) + " :: "@ + ps.dir@ + " ["@ + crate::color::paint_spec(
        use_color,
        "\x1b[33m"@,
        join_spec(strings_view(ps.reasons@), ","@),
    ) + "]"@
}

pub open spec fn protected_lines_of(use_color: bool, sid: Seq<char>, ps: Seq<PaneStatus>) -> Seq<Seq<char>>
    decreases ps.len(),
{
    if ps.len() == 0 {
        seq![]
    } else {
        let rest = protected_lines_of(use_color, sid, ps.drop_last());
        if !ps.last().clean {
            rest.push(protected_pane_line(use_color, sid, ps.last()))
        } else {
            rest
        }
    }
}

pub open spec fn protected_lines_spec(use_color: bool, plan: Seq<SessionPlan>) -> Seq<Seq<char>>
    decreases plan.len(),
{
    if plan.len() == 0 {
        seq![]
    } else {
        protected_lines_spec(use_color, plan.drop_last()) + protected_lines_of(
            use_color,
            sid_of(plan.last().dir@),
            plan.last().panes@,
        )
    }
}

fn protected_lines_session(use_color: bool, sp: &SessionPlan, out: &mut Vec<String>)
    ensures
        strings_view(final(out)@) == strings_view(old(out)@) + protected_lines_of(
            use_color,
            sid_of(sp.dir@),
            sp.panes@,
        ),
{
    let sid = session_sid(sp.dir.as_str());
    let mut i: usize = 0;
    while i < sp.panes.len()
        invariant
            i <= sp.panes@.len(),
            sid@ == sid_of(sp.dir@),
            strings_view(out@) == strings_view(old(out)@) + protected_lines_of(
                use_color,
                sid_of(sp.dir@),
                sp.panes@.take(i as int),
            ),
        decreases sp.panes@.len() - i,
    {
        assert(sp.panes@.take(i + 1).drop_last() =~= sp.panes@.take(i as int));
        let ps = &sp.panes[i];
        if !ps.clean {
            let mut l = "  ".to_owned();
            l.push_str(crate::color::paint(use_color, "\x1b[34;1m", sid.as_str()).as_str());
            l.push_str(" :: ");
            l.push_str(ps.dir.as_str());
            l.push_str(" [");
            let reasons = crate::escape::join_strings(&ps.reasons, ",");
            l.push_str(crate::color::paint(use_color, "\x1b[33m", reasons.as_str()).as_str());
            l.push_str("]");
            crate::escape::push_string_item(out, l);
        }
        assert(strings_view(out@) =~= strings_view(old(out)@) + protected_lines_of(
            use_color,
            sid_of(sp.dir@),
            sp.panes@.take(i + 1),
        ));
        i = i + 1;
    }
    assert(sp.panes@.take(sp.panes@.len() as int) =~= sp.panes@);
}

/// All lines printed when `fork clean` refuses.
pub fn refusal_lines(use_color: bool, plan: &Vec<SessionPlan>, protected: usize) -> (out: Vec<String>)
    ensures
        strings_view(out@) == refusal_head_spec(use_color, protected as nat) + protected_lines_spec(use_color, plan@),
{
    let mut out: Vec<String> = Vec::new();
    let mut h = crate::color::paint(use_color, "\x1b[31;1m", "aifo-coder: refusing to delete");
    h.push_str(": ");
    h.push_str(usize_to_string(protected).as_str());
    h.push_str(" pane(s) are protected (dirty/ahead/base-unknown).");
    crate::escape::push_string_item(&mut out, h);
    crate::escape::push_string_item(
        &mut out,
        crate::color::paint(
            use_color,
            "\x1b[33m",
            "Use --keep-dirty to remove only clean panes, or --force to delete everything.",
        ),
    );
    let ghost head = strings_view(out@);
    assert(head =~= refusal_head_spec(use_color, protected as nat));
    let mut i: usize = 0;
    while i < plan.len()
        invariant
            i <= plan@.len(),
            strings_view(out@) == head + protected_lines_spec(use_color, plan@.take(i as int)),
        decreases plan@.len() - i,
    {
        assert(plan@.take(i + 1).drop_last() =~= plan@.take(i as int));
        protected_lines_session(use_color, &plan[i], &mut out);
        i = i + 1;
    }
    assert(plan@.take(plan@.len() as int) =~= plan@);
    out
}

/// Session directories removed by a list of steps.
pub open spec fn count_session_removals(steps: Seq<StepView>) -> nat
    decreases steps.len(),
{
    if steps.len() == 0 {
        0
    } else {
        count_session_removals(steps.drop_last()) + if steps.last() is RemoveSession {
            1nat
        } else {
            0nat
        }
    }
}

/// Single pane directories removed by a list of steps.
pub open spec fn count_pane_removals(steps: Seq<StepView>) -> nat
    decreases steps.len(),
{
    if steps.len() == 0 {
        0
    } else {
        count_pane_removals(steps.drop_last()) + if steps.last() is RemovePane {
            1nat
        } else {
            0nat
        }
    }
}

proof fn lemma_counts_add(a: Seq<StepView>, b: Seq<StepView>)
    ensures
        count_session_removals(a + b) == count_session_removals(a) + count_session_removals(b),
        count_pane_removals(a + b) == count_pane_removals(a) + count_pane_removals(b),
    decreases b.len(),
{
    if b.len() > 0 {
        lemma_counts_add(a, b.drop_last());
        assert((a + b).drop_last() =~= a + b.drop_last());
    } else {
        assert(a + b =~= a);
    }
}

proof fn lemma_pane_steps_counts(ps: Seq<PaneStatus>)
    ensures
        count_session_removals(pane_steps(false, ps)) == 0,
        count_pane_removals(pane_steps(false, ps)) == count_clean(ps),
        remaining_dirs(ps).len() + count_clean(ps) == ps.len(),
    decreases ps.len(),
{
    if ps.len() > 0 {
        lemma_pane_steps_counts(ps.drop_last());
        let rest = pane_steps(false, ps.drop_last());
        if ps.last().clean {
            let x = StepView::RemovePane(ps.last().dir@);
            assert(pane_steps(false, ps) == rest.push(x));
            assert(rest.push(x).drop_last() =~= rest);
        } else {
            assert(pane_steps(false, ps) == rest);
        }
    }
}

proof fn lemma_session_steps_counts(opts: ForkCleanOpts, sp: SessionPlan)
    requires
        !opts.dry_run,
    ensures
        count_session_removals(session_steps(opts, sp)) == if opts.force || !opts.keep_dirty {
            1nat
        } else if count_clean(sp.panes@) == sp.panes@.len() {
            1nat
        } else {
            0nat
        },
        count_pane_removals(session_steps(opts, sp)) == if opts.force || !opts.keep_dirty {
            0nat
        } else {
            count_clean(sp.panes@)
        },
{
    let sid = sid_of(sp.dir@);
    if opts.force || !opts.keep_dirty {
        let one = seq![StepView::RemoveSession(sid, sp.dir@)];
        assert(one.drop_last() =~= Seq::<StepView>::empty());
        assert(count_session_removals(one.drop_last()) == 0);
        assert(count_pane_removals(one.drop_last()) == 0);
        assert(session_steps(opts, sp) == one);
    } else {
        lemma_pane_steps_counts(sp.panes@);
        let rem = remaining_dirs(sp.panes@);
        let tail: Seq<StepView> = if rem.len() == 0 {
            seq![StepView::RemoveSession(sid, sp.dir@)]
        } else {
            seq![StepView::KeepSession(sid, sp.dir@, rem)]
        };
        assert(tail.drop_last() =~= Seq::<StepView>::empty());
        assert(count_session_removals(tail.drop_last()) == 0);
        assert(count_pane_removals(tail.drop_last()) == 0);
        assert(session_steps(opts, sp) == pane_steps(false, sp.panes@) + tail);
        lemma_counts_add(pane_steps(false, sp.panes@), tail);
    }
}

/// A confirmed (not dry) clean removes exactly as many session directories as the
/// confirmation announced; with `--keep-dirty` (and no `--force`) it deletes exactly
/// the announced clean panes one by one, otherwise panes go with their session.
pub proof fn lemma_execute_matches_announcement(opts: ForkCleanOpts, plan: Seq<SessionPlan>)
    requires
        !opts.dry_run,
    ensures
        count_session_removals(plan_steps(opts, plan)) == deletion_counts_spec(opts, plan).0,
        opts.keep_dirty && !opts.force ==> count_pane_removals(plan_steps(opts, plan)) == deletion_counts_spec(
            opts,
            plan,
        ).1,
        !(opts.keep_dirty && !opts.force) ==> count_pane_removals(plan_steps(opts, plan)) == 0,
    decreases plan.len(),
{
    if plan.len() > 0 {
        lemma_execute_matches_announcement(opts, plan.drop_last());
        lemma_session_steps_counts(opts, plan.last());
        lemma_counts_add(plan_steps(opts, plan.drop_last()), session_steps(opts, plan.last()));
    }
}


/// A pane with uncommitted changes is reported `dirty`, and a pane without a recorded
/// base `base-unknown`; either way it is not clean.
pub proof fn lemma_pane_dirty_or_without_base(base: Option<Seq<char>>, f: PaneFacts)
    ensures
        (f.porcelain matches Some(p) && p@.len() > 0) ==> pane_reasons_spec(base, f).contains("dirty"@),
        base is None ==> pane_reasons_spec(base, f).contains("base-unknown"@),
{
    let r = pane_reasons_spec(base, f);
    if f.porcelain matches Some(p) && p@.len() > 0 {
        assert(r[0] == "dirty"@);
    }
    if base is None {
        assert(r[r.len() - 1] == "base-unknown"@);
    }
}

/// With a recorded base, a pane is reported `ahead` exactly when the base is known
/// there, `HEAD` resolves to a commit other than the base, and the base is an ancestor
/// of `HEAD`; such a pane then has at least one reason, so it is not clean.
pub proof fn lemma_pane_ahead_when_commits_on_base(base: Seq<char>, f: PaneFacts)
    ensures
        pane_reasons_spec(Some(base), f).contains("ahead"@) <==> (f.base_known && f.head_sha is Some
            && f.head_sha.unwrap()@ != base && f.is_ancestor),
        (f.base_known && f.head_sha is Some && f.head_sha.unwrap()@ != base && f.is_ancestor)
            ==> pane_reasons_spec(Some(base), f).len() > 0,
{
    reveal_strlit("ahead");
    reveal_strlit("dirty");
    reveal_strlit("submodules-dirty");
    reveal_strlit("base-unknown");
    assert("dirty"@[0] != "ahead"@[0]);
    assert("dirty"@ != "ahead"@);
    assert("submodules-dirty"@ != "ahead"@);
    assert("base-unknown"@ != "ahead"@);
    let r = pane_reasons_spec(Some(base), f);
    let cond = f.base_known && f.head_sha is Some && f.head_sha.unwrap()@ != base && f.is_ancestor;
    let dirty = f.porcelain matches Some(p) && p@.len() > 0;
    let first: Seq<Seq<char>> = if dirty {
        seq!["dirty"@]
    } else if f.submodule_status matches Some(o) && submodules_dirty_spec(o@) {
        seq!["submodules-dirty"@]
    } else {
        seq![]
    };
    let unknown = !(f.base_known && f.head_sha is Some);
    let mid: Seq<Seq<char>> = if cond { seq!["ahead"@] } else { seq![] };
    let last: Seq<Seq<char>> = if unknown { seq!["base-unknown"@] } else { seq![] };
    assert(r =~= first + mid + last);
    if cond {
        assert(r[first.len() as int] == "ahead"@);
    } else {
        assert forall|i: int| 0 <= i < r.len() implies r[i] != "ahead"@ by {
            if i < first.len() {
                assert(r[i] == first[i]);
            } else {
                assert(r[i] == last[i - first.len()]);
            }
        }
    }
}

} // verus!
