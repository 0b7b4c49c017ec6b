//! Proxy fallback policy: which proxy variables are set, whether any proxy answers,
//! and the force-direct state that later container launches consult.
use vstd::prelude::*;

use crate::escape::strings_view;
use crate::text::{contains, contains_spec, str_chars, str_eq, string_from_chars, trim, trim_spec};

verus! {

/// Host and port that `url::Url` finds in an input (`None` when it does not parse
/// or has no host or port).
pub uninterp spec fn url_host_port(input: Seq<char>) -> Option<(Seq<char>, u16)>;

/// Calls `url::Url::parse` on `input`, then `host_str` and `port_or_known_default`
/// on the parsed URL. Stated: the result is the named value `url_host_port(input)`;
/// what the WHATWG parser accepts is left unsaid.
#[verifier::external_body]
fn parse_url_host_port(input: &str) -> (r: Option<(String, u16)>)
    ensures
        match r {
            Some(hp) => url_host_port(input@) == Some((hp.0@, hp.1)),
            None => url_host_port(input@) is None,
        },
{
    match url::Url::parse(input) {
        Ok(u) => match (u.host_str(), u.port_or_known_default()) {
            (Some(h), Some(p)) => Some((h.to_string(), p)),
            _ => None,
        },
        Err(_) => None,
    }
}

/// Environment values the proxy policy reads.
pub struct ProxyEnv {
    /// `AIFO_PROXY_FORCE_PROXY`.
    pub force_proxy: Option<String>,
    /// `AIFO_PROXY_FALLBACK`.
    pub fallback: Option<String>,
    /// The probed proxy variables (`http_proxy`, `https_proxy`, `HTTP_PROXY`,
    /// `HTTPS_PROXY`) in that order, each with its value when set.
    pub vars: Vec<(String, Option<String>)>,
}

/// Process-wide proxy state: force-direct mode, the variables recorded when it
/// was entered, and the preference to ignore local images.
pub struct ProxyState {
    pub force_direct: bool,
    pub recorded: Vec<String>,
    pub ignore_local_images: bool,
}

/// Outcome of the proxy connectivity check.
pub enum ProxyCheckOutcome {
    Skipped,
    Retained,
    Cleared(Vec<String>),
}

pub open spec fn opt_string_view(v: Option<String>) -> Option<Seq<char>> {
    match v {
        Some(s) => Some(s@),
        None => None,
    }
}

/// Force-direct mode may be used unless `AIFO_PROXY_FORCE_PROXY` is `1`.
pub open spec fn force_direct_allowed_spec(force_proxy: Option<Seq<char>>) -> bool {
    force_proxy != Some("1"@)
}

/// The fallback is on unless `AIFO_PROXY_FALLBACK` is `0` (unset counts as `1`).
pub open spec fn fallback_enabled_spec(fallback: Option<Seq<char>>) -> bool {
    fallback != Some("0"@)
}

fn opt_is(v: &Option<String>, lit: &str) -> (b: bool)
    ensures
        b == (opt_string_view(*v) == Some(lit@)),
{
    match v {
        Some(s) => str_eq(s.as_str(), lit),
        None => false,
    }
}

pub fn force_direct_allowed(force_proxy: &Option<String>) -> (b: bool)
    ensures
        b == force_direct_allowed_spec(opt_string_view(*force_proxy)),
{
    !opt_is(force_proxy, "1")
}

pub fn proxy_fallback_enabled(fallback: &Option<String>) -> (b: bool)
    ensures
        b == fallback_enabled_spec(opt_string_view(*fallback)),
{
    !opt_is(fallback, "0")
}

/// Names of the proxy variables whose value is set and not empty, in order.
pub open spec fn set_names_spec(vars: Seq<(String, Option<String>)>) -> Seq<Seq<char>>
    decreases vars.len(),
{
    if vars.len() == 0 {
        seq![]
    } else {
        let rest = set_names_spec(vars.drop_last());
        match vars.last().1 {
            Some(v) => if v@.len() > 0 {
                rest.push(vars.last().0@)
            } else {
                rest
            },
            None => rest,
        }
    }
}

pub fn proxy_env_vars_set(vars: &Vec<(String, Option<String>)>) -> (out: Vec<String>)
    ensures
        strings_view(out@) == set_names_spec(vars@),
{
    let mut out: Vec<String> = Vec::new();
    let mut i: usize = 0;
    while i < vars.len()
        invariant
            i <= vars@.len(),
            strings_view(out@) == set_names_spec(vars@.take(i as int)),
        decreases vars@.len() - i,
    {
        assert(vars@.take(i + 1).drop_last() =~= vars@.take(i as int));
        match &vars[i].1 {
            Some(v) => {
                if !v.as_str().is_empty() {
                    out.push(vars[i].0.clone());
                }
            },
            None => {},
        }
        assert(strings_view(out@) =~= set_names_spec(vars@.take(i + 1)));
        i = i + 1;
    }
    assert(vars@.take(vars@.len() as int) =~= vars@);
    out
}

/// The input handed to the URL parser for one candidate.
pub open spec fn url_input_spec(candidate: Seq<char>) -> Seq<char> {
    if contains_spec(candidate, "://"@) {
        candidate
    } else {
        "http://"@ + candidate
    }
}

/// Host and port of a proxy value: the trimmed value is tried as written, then
/// with `http://` in front; a candidate without a scheme is given `http://`.
pub open spec fn parse_proxy_target_spec(raw: Seq<char>) -> Option<(Seq<char>, u16)> {
    let t = trim_spec(raw);
    if t.len() == 0 {
        None
    } else {
        let first = url_host_port(url_input_spec(t));
        if first is Some {
            first
        } else {
            url_host_port(url_input_spec("http://"@ + t))
        }
    }
}

fn url_input(candidate: &str) -> (s: String)
    ensures
        s@ == url_input_spec(candidate@),
{
    let cs = str_chars(candidate);
    let sep = str_chars("://");
    if contains(cs.as_slice(), sep.as_slice()) {
        candidate.to_owned()
    } else {
        let mut s = "http://".to_owned();
        s.push_str(candidate);
        s
    }
}

pub fn parse_proxy_target(raw: &str) -> (r: Option<(String, u16)>)
    ensures
        match r {
            Some(hp) => parse_proxy_target_spec(raw@) == Some((hp.0@, hp.1)),
            None => parse_proxy_target_spec(raw@) is None,
        },
{
    let cs = str_chars(raw);
    let t = trim(cs.as_slice());
    if t.len() == 0 {
        return None;
    }
    let trimmed = string_from_chars(t.as_slice());
    let first = url_input(trimmed.as_str());
    let r1 = parse_url_host_port(first.as_str());
    if r1.is_some() {
        return r1;
    }
    let mut second = "http://".to_owned();
    second.push_str(trimmed.as_str());
    let input2 = url_input(second.as_str());
    parse_url_host_port(input2.as_str())
}

pub open spec fn target_view(t: (String, String, u16)) -> (Seq<char>, Seq<char>, u16) {
    (t.0@, t.1@, t.2)
}

pub open spec fn targets_view(ts: Seq<(String, String, u16)>) -> Seq<(Seq<char>, Seq<char>, u16)> {
    ts.map_values(|t: (String, String, u16)| target_view(t))
}

/// Probe targets: for each set proxy variable whose value yields a host and port,
/// the variable's name with that host and port, in order.
pub open spec fn targets_spec(vars: Seq<(String, Option<String>)>) -> Seq<(Seq<char>, Seq<char>, u16)>
    decreases vars.len(),
{
    if vars.len() == 0 {
        seq![]
    } else {
        let rest = targets_spec(vars.drop_last());
        let name = vars.last().0@;
        match vars.last().1 {
            Some(v) => if v@.len() > 0 {
                match parse_proxy_target_spec(v@) {
                    Some(hp) => rest.push((name, hp.0, hp.1)),
                    None => rest,
                }
            } else {
                rest
            },
            None => rest,
        }
    }
}

pub fn proxy_targets(vars: &Vec<(String, Option<String>)>) -> (out: Vec<(String, String, u16)>)
    ensures
        targets_view(out@) == targets_spec(vars@),
{
    let mut out: Vec<(String, String, u16)> = Vec::new();
    let mut i: usize = 0;
    while i < vars.len()
        invariant
            i <= vars@.len(),
            targets_view(out@) == targets_spec(vars@.take(i as int)),
        decreases vars@.len() - i,
    {
        assert(vars@.take(i + 1).drop_last() =~= vars@.take(i as int));
        let ghost before = out@;
        match &vars[i].1 {
            Some(v) => {
                if !v.as_str().is_empty() {
                    match parse_proxy_target(v.as_str()) {
                        Some(hp) => {
                            out.push((vars[i].0.clone(), hp.0, hp.1));
                        },
                        None => {},
                    }
                }
            },
            None => {},
        }
        assert(targets_view(out@) =~= targets_spec(vars@.take(i + 1))) by {
            assert(targets_view(before) =~= targets_spec(vars@.take(i as int)));
        }
        i = i + 1;
    }
    assert(vars@.take(vars@.len() as int) =~= vars@);
    out
}

impl ProxyState {
    pub fn new() -> (s: Self)
        ensures
            !s.force_direct,
            s.recorded@.len() == 0,
            !s.ignore_local_images,
    {
        ProxyState { force_direct: false, recorded: Vec::new(), ignore_local_images: false }
    }
}

/// Enter force-direct mode and record the unreachable variables, unless
/// `AIFO_PROXY_FORCE_PROXY=1` forbids it (then nothing changes).
pub fn mark_proxy_unreachable(state: &mut ProxyState, env: &ProxyEnv, vars: &Vec<String>)
    ensures
        force_direct_allowed_spec(opt_string_view(env.force_proxy)) ==> {
            &&& final(state).force_direct
            &&& should_force_direct_spec(*final(state), opt_string_view(env.force_proxy))
            &&& strings_view(final(state).recorded@) == strings_view(vars@)
            &&& final(state).ignore_local_images == old(state).ignore_local_images
        },
        !force_direct_allowed_spec(opt_string_view(env.force_proxy)) ==> *final(state) == *old(state),
{
    if !force_direct_allowed(&env.force_proxy) {
        return;
    }
    state.force_direct = true;
    let mut rec: Vec<String> = Vec::new();
    let mut i: usize = 0;
    while i < vars.len()
        invariant
            i <= vars@.len(),
            rec@ == vars@.take(i as int),
        decreases vars@.len() - i,
    {
        let c = vars[i].clone();
        rec.push(c);
        assert(rec@ =~= vars@.take(i + 1));
        i = i + 1;
    }
    assert(vars@.take(vars@.len() as int) =~= vars@);
    state.recorded = rec;
}

/// Whether later containers should clear the proxy variables.
pub open spec fn should_force_direct_spec(state: ProxyState, force_proxy: Option<Seq<char>>) -> bool {
    force_direct_allowed_spec(force_proxy) && state.force_direct
}

pub fn should_force_direct_proxy(state: &ProxyState, env: &ProxyEnv) -> (b: bool)
    ensures
        b == should_force_direct_spec(*state, opt_string_view(env.force_proxy)),
{
    force_direct_allowed(&env.force_proxy) && state.force_direct
}

/// The proxy variables that force-direct mode clears.
pub fn proxy_clear_envs() -> (v: Vec<String>)
    ensures
        strings_view(v@) == seq![
            "http_proxy"@,
            "https_proxy"@,
            "HTTP_PROXY"@,
            "HTTPS_PROXY"@,
            "no_proxy"@,
            "NO_PROXY"@,
        ],
{
    let v = vec![
        "http_proxy".to_owned(),
        "https_proxy".to_owned(),
        "HTTP_PROXY".to_owned(),
        "HTTPS_PROXY".to_owned(),
        "no_proxy".to_owned(),
        "NO_PROXY".to_owned(),
    ];
    assert(strings_view(v@) =~= seq![
        "http_proxy"@,
        "https_proxy"@,
        "HTTP_PROXY"@,
        "HTTPS_PROXY"@,
        "no_proxy"@,
        "NO_PROXY"@,
    ]);
    v
}

/// Back to the initial state: no force-direct mode, nothing recorded, local images used.
pub fn reset_proxy_state_for_tests(state: &mut ProxyState)
    ensures
        !final(state).force_direct,
        final(state).recorded@.len() == 0,
        !final(state).ignore_local_images,
        forall|fp: Option<Seq<char>>| !should_force_direct_spec(*final(state), fp),
        forall|e: Option<Seq<char>>| ignore_local_images_spec(*final(state), e) == (e == Some("1"@)),
{
    state.force_direct = false;
    state.ignore_local_images = false;
    state.recorded = Vec::new();
}

pub fn set_ignore_local_images(state: &mut ProxyState, val: bool)
    ensures
        final(state).ignore_local_images == val,
        final(state).force_direct == old(state).force_direct,
        final(state).recorded == old(state).recorded,
        forall|e: Option<Seq<char>>| ignore_local_images_spec(*final(state), e) == (e == Some("1"@) || val),
        forall|fp: Option<Seq<char>>| should_force_direct_spec(*final(state), fp) == should_force_direct_spec(*old(state), fp),
{
    state.ignore_local_images = val;
}

/// Local images are ignored when `AIFO_CODER_IGNORE_LOCAL_IMAGES=1` or the CLI asked for it.
pub open spec fn ignore_local_images_spec(state: ProxyState, env_val: Option<Seq<char>>) -> bool {
    env_val == Some("1"@) || state.ignore_local_images
}

pub fn cli_ignore_local_images(state: &ProxyState, env_val: &Option<String>) -> (b: bool)
    ensures
        b == ignore_local_images_spec(*state, opt_string_view(*env_val)),
{
    if opt_is(env_val, "1") {
        return true;
    }
    state.ignore_local_images
}

/// Some call of the probe on this host and port may answer `answer`.
pub open spec fn probe_answers<F: Fn(&str, u16) -> bool>(probe: F, host: Seq<char>, port: u16, answer: bool) -> bool {
    exists|h: &str| h@ == host && #[trigger] call_ensures(probe, (h, port), answer)
}

/// Whether the probe answered `true` for one of the first `n` targets.
pub open spec fn any_reached<F: Fn(&str, u16) -> bool>(
    probe: F,
    targets: Seq<(Seq<char>, Seq<char>, u16)>,
) -> bool {
    exists|k: int| 0 <= k < targets.len() && #[trigger] probe_answers(probe, targets[k].1, targets[k].2, true)
}

/// Some target answered `true` after every earlier one answered `false`.
pub open spec fn first_reached<F: Fn(&str, u16) -> bool>(
    probe: F,
    targets: Seq<(Seq<char>, Seq<char>, u16)>,
) -> bool {
    exists|k: int|
        0 <= k < targets.len() && #[trigger] probe_answers(probe, targets[k].1, targets[k].2, true) && forall|j: int|
            0 <= j < k ==> #[trigger] probe_answers(probe, targets[j].1, targets[j].2, false)
}

/// The probe answered `false` for every target.
pub open spec fn none_reached<F: Fn(&str, u16) -> bool>(
    probe: F,
    targets: Seq<(Seq<char>, Seq<char>, u16)>,
) -> bool {
    forall|k: int| 0 <= k < targets.len() ==> #[trigger] probe_answers(probe, targets[k].1, targets[k].2, false)
}

/// What the connectivity check does next: probe the target at an index, or
/// finish keeping or clearing the proxies.
#[derive(Clone, Copy, PartialEq, Eq, Structural, Debug)]
pub enum TargetStep {
    Probe(usize),
    Retain,
    Clear,
}

/// The next step after the answers for the first targets: without targets the
/// proxies are kept; a target that answered keeps them at once; otherwise the next
/// target in order is probed, and when all were silent the proxies are cleared.
pub open spec fn target_next_spec(n: nat, answers: Seq<bool>) -> TargetStep {
    if n == 0 {
        TargetStep::Retain
    } else if answers.len() > 0 && answers.last() {
        TargetStep::Retain
    } else if answers.len() < n {
        TargetStep::Probe(answers.len() as usize)
    } else {
        TargetStep::Clear
    }
}

pub fn target_next(n: usize, answers: &Vec<bool>) -> (st: TargetStep)
    ensures
        st == target_next_spec(n as nat, answers@),
{
    if n == 0 {
        TargetStep::Retain
    } else if answers.len() > 0 && answers[answers.len() - 1] {
        TargetStep::Retain
    } else if answers.len() < n {
        TargetStep::Probe(answers.len())
    } else {
        TargetStep::Clear
    }
}

/// Answers the check could have received: each follows a step that asked for a probe.
pub open spec fn target_run(n: nat, answers: Seq<bool>) -> bool {
    forall|k: int| 0 <= k < answers.len() ==> #[trigger] target_next_spec(n, answers.take(k)) is Probe
}

/// The targets are probed in order, each at most once, and probing stops at the
/// first target that answers: the `k`-th probe goes to target `k`, every answer but
/// the last was silence, and the proxies are cleared only after all `n` targets
/// were silent.
pub proof fn lemma_targets_probed_in_order(n: nat, answers: Seq<bool>)
    requires
        target_run(n, answers),
    ensures
        answers.len() <= n,
        forall|k: int| 0 <= k < answers.len() ==> #[trigger] target_next_spec(n, answers.take(k)) == TargetStep::Probe(
            k as usize,
        ),
        forall|k: int| 0 <= k < answers.len() - 1 ==> !#[trigger] answers[k],
        target_next_spec(n, answers) == TargetStep::Clear ==> answers.len() == n && forall|k: int|
            0 <= k < n ==> !#[trigger] answers[k],
{
    assert forall|k: int| 0 <= k < answers.len() implies #[trigger] target_next_spec(n, answers.take(k))
        == TargetStep::Probe(k as usize) by {
        assert(target_next_spec(n, answers.take(k)) is Probe);
        assert(answers.take(k).len() == k);
    }
    assert forall|k: int| 0 <= k < answers.len() - 1 implies !#[trigger] answers[k] by {
        assert(target_next_spec(n, answers.take(k + 1)) is Probe);
        assert(answers.take(k + 1).last() == answers[k]);
    }
    if answers.len() > n {
        assert(target_next_spec(n, answers.take(n as int)) is Probe);
        assert(answers.take(n as int).len() == n);
    }
}

/// What follows once the targets are known: no target keeps the proxies; the
/// targets are probed in order and the first that answers keeps them; when none
/// answers, force-direct mode is entered (as `mark_proxy_unreachable` does) and the
/// set variables are reported cleared.
pub fn proxy_check_with_targets<F: Fn(&str, u16) -> bool>(
    state: &mut ProxyState,
    env: &ProxyEnv,
    names: Vec<String>,
    targets: &Vec<(String, String, u16)>,
    probe: F,
) -> (r: ProxyCheckOutcome)
    requires
        forall|h: &str, p: u16| call_requires(probe, (h, p)),
    ensures
        targets@.len() == 0 ==> (r is Retained && *final(state) == *old(state)),
        r is Retained ==> *final(state) == *old(state),
        r is Retained && targets@.len() > 0 ==> any_reached(probe, targets_view(targets@)),
        r is Retained && targets@.len() > 0 ==> first_reached(probe, targets_view(targets@)),
        r is Cleared ==> none_reached(probe, targets_view(targets@)),
        r is Skipped ==> false,
        match r {
            ProxyCheckOutcome::Cleared(v) => {
                &&& targets@.len() > 0
                &&& strings_view(v@) == strings_view(names@)
                &&& (force_direct_allowed_spec(opt_string_view(env.force_proxy)) ==> {
                    &&& final(state).force_direct
                    &&& strings_view(final(state).recorded@) == strings_view(names@)
                    &&& final(state).ignore_local_images == old(state).ignore_local_images
                })
                &&& (!force_direct_allowed_spec(opt_string_view(env.force_proxy)) ==> *final(state) == *old(state))
            },
            _ => true,
        },
{
    let n = targets.len();
    let mut answers: Vec<bool> = Vec::new();
    loop
        invariant
            n == targets@.len(),
            forall|h: &str, p: u16| call_requires(probe, (h, p)),
            *state == *old(state),
            target_run(n as nat, answers@),
            answers@.len() <= n,
            forall|k: int| 0 <= k < answers@.len() ==> #[trigger] probe_answers(probe, targets_view(targets@)[k].1, targets_view(targets@)[k].2, answers@[k]),
        decreases n - answers@.len(),
    {
        proof {
            lemma_targets_probed_in_order(n as nat, answers@);
        }
        match target_next(n, &answers) {
            TargetStep::Probe(i) => {
                let host = targets[i].1.as_str();
                let port = targets[i].2;
                let hit = probe(host, port);
                let ghost before = answers@;
                answers.push(hit);
                proof {
                    assert(probe_answers(probe, targets_view(targets@)[i as int].1, targets_view(targets@)[i as int].2, hit));
                    assert forall|k: int| 0 <= k < answers@.len() implies #[trigger] target_next_spec(
                        n as nat,
                        answers@.take(k),
                    ) is Probe by {
                        if k < before.len() {
                            assert(answers@.take(k) =~= before.take(k));
                        } else {
                            assert(answers@.take(k) =~= before);
                        }
                    }
                    assert forall|k: int| 0 <= k < answers@.len() implies #[trigger] probe_answers(
                        probe,
                        targets_view(targets@)[k].1,
                        targets_view(targets@)[k].2,
                        answers@[k],
                    ) by {
                        if k < before.len() {
                            assert(answers@[k] == before[k]);
                        }
                    }
                }
            },
            TargetStep::Retain => {
                proof {
                    if n > 0 {
                        let last = answers@.len() - 1;
                        assert(answers@[last]);
                        assert(probe_answers(probe, targets_view(targets@)[last].1, targets_view(targets@)[last].2, true));
                        assert(any_reached(probe, targets_view(targets@)));
                        assert forall|j: int| 0 <= j < last implies #[trigger] probe_answers(
                            probe,
                            targets_view(targets@)[j].1,
                            targets_view(targets@)[j].2,
                            false,
                        ) by {
                            assert(!answers@[j]);
                        }
                    }
                }
                return ProxyCheckOutcome::Retained;
            },
            TargetStep::Clear => {
                proof {
                    assert forall|k: int| 0 <= k < targets@.len() implies #[trigger] probe_answers(
                        probe,
                        targets_view(targets@)[k].1,
                        targets_view(targets@)[k].2,
                        false,
                    ) by {
                        assert(!answers@[k]);
                    }
                }
                mark_proxy_unreachable(state, env, &names);
                return ProxyCheckOutcome::Cleared(names);
            },
        }
    }
}

/// The connectivity check: skipped when the fallback is off, force-direct mode is
/// forbidden, or no proxy variable is set; otherwise the proxies are kept when a
/// target answers or none could be parsed, and cleared when every target is silent.
/// The caller clears the variables of `proxy_clear_envs` in its environment on `Cleared`.
pub fn proxy_connectivity_check_with<F: Fn(&str, u16) -> bool>(
    state: &mut ProxyState,
    env: &ProxyEnv,
    probe: F,
) -> (r: ProxyCheckOutcome)
    requires
        forall|h: &str, p: u16| call_requires(probe, (h, p)),
    ensures
        ({
            let skip = !fallback_enabled_spec(opt_string_view(env.fallback))
                || !force_direct_allowed_spec(opt_string_view(env.force_proxy))
                || set_names_spec(env.vars@).len() == 0;
            let targets = targets_spec(env.vars@);
            &&& (r is Skipped <==> skip)
            &&& (!skip && targets.len() == 0 ==> r is Retained)
            &&& (r is Skipped || r is Retained ==> *final(state) == *old(state))
            &&& (r is Retained && targets.len() > 0 ==> any_reached(probe, targets))
            &&& (r is Retained && targets.len() > 0 ==> first_reached(probe, targets))
            &&& (match r {
                ProxyCheckOutcome::Cleared(v) => {
                    &&& targets.len() > 0
                    &&& none_reached(probe, targets)
                    &&& strings_view(v@) == set_names_spec(env.vars@)
                    &&& final(state).force_direct
                    &&& strings_view(final(state).recorded@) == set_names_spec(env.vars@)
                    &&& final(state).ignore_local_images == old(state).ignore_local_images
                },
                _ => true,
            })
        }),
{
    if !proxy_fallback_enabled(&env.fallback) || !force_direct_allowed(&env.force_proxy) {
        return ProxyCheckOutcome::Skipped;
    }
    let names = proxy_env_vars_set(&env.vars);
    if names.len() == 0 {
        return ProxyCheckOutcome::Skipped;
    }
    let targets = proxy_targets(&env.vars);
    proxy_check_with_targets(state, env, names, &targets, probe)
}

/// Probe timeout used by the connectivity check, in milliseconds.
pub const PROBE_TIMEOUT_MS: u64 = 750;

/// The connectivity check with a reachability test that is given the host, the
/// port and a timeout of `PROBE_TIMEOUT_MS` milliseconds.
pub fn check_proxy_connectivity<F: Fn(&str, u16, u64) -> bool>(
    state: &mut ProxyState,
    env: &ProxyEnv,
    reachable: F,
) -> (r: ProxyCheckOutcome)
    requires
        forall|h: &str, p: u16| call_requires(reachable, (h, p, PROBE_TIMEOUT_MS)),
    ensures
        ({
            let skip = !fallback_enabled_spec(opt_string_view(env.fallback))
                || !force_direct_allowed_spec(opt_string_view(env.force_proxy))
                || set_names_spec(env.vars@).len() == 0;
            &&& (r is Skipped <==> skip)
            &&& (r is Skipped || r is Retained ==> *final(state) == *old(state))
            &&& (match r {
                ProxyCheckOutcome::Cleared(v) => {
                    &&& strings_view(v@) == set_names_spec(env.vars@)
                    &&& final(state).force_direct
                    &&& strings_view(final(state).recorded@) == set_names_spec(env.vars@)
                },
                _ => true,
            })
        }),
{
    let reach = &reachable;
    let probe = |h: &str, p: u16| -> (b: bool)
        requires
            call_requires(reach, (h, p, PROBE_TIMEOUT_MS)),
        { reach(h, p, PROBE_TIMEOUT_MS) };
    proxy_connectivity_check_with(state, env, probe)
}

} // verus!
