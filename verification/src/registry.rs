//! Registry prefix resolution: normalisation of configured prefixes, the once-set
//! caches of the mirror and internal registries, test overrides, and how an image
//! reference is qualified with a registry.
use vstd::prelude::*;

use crate::escape::strings_view;
use crate::proxy::{
    fallback_enabled_spec, force_direct_allowed_spec, mark_proxy_unreachable, opt_string_view,
    proxy_env_vars_set, proxy_fallback_enabled, set_names_spec, ProxyEnv, ProxyState,
};
use crate::text::{
    chars_eq, has_char, lower_spec, rfind_char, rfind_char_spec, slice_to_vec, str_chars,
    string_from_chars, to_lower, trim, trim_char, trim_char_spec, trim_end_char, trim_end_char_spec,
    trim_spec, char_pos, char_pos_exec, lemma_char_pos, lemma_rfind_char, push_chars,
};

verus! {

/// Fixed probe results for tests.
#[derive(Clone, Copy, PartialEq, Eq, Structural, Debug)]
pub enum RegistryProbeTestMode {
    CurlOk,
    CurlFail,
    TcpOk,
    TcpFail,
}

/// The once-set registry caches of one process, and the test override.
pub struct RegistryState {
    pub probe_override: Option<RegistryProbeTestMode>,
    pub mirror_prefix: Option<String>,
    pub mirror_source: Option<String>,
    pub internal_prefix: Option<String>,
    pub internal_source: Option<String>,
}

/// Environment values the registry logic reads.
pub struct RegistryEnv {
    /// `AIFO_CODER_TEST_REGISTRY_PROBE`.
    pub test_probe: Option<String>,
    /// `AIFO_CODER_MIRROR_REGISTRY_PREFIX`.
    pub mirror_prefix: Option<String>,
    /// `AIFO_CODER_INTERNAL_REGISTRY_PREFIX`.
    pub internal_prefix: Option<String>,
    /// `AIFO_CODER_INTERNAL_REGISTRY_NAMESPACE`.
    pub internal_namespace: Option<String>,
}

impl RegistryState {
    pub fn new() -> (s: Self)
        ensures
            s.probe_override is None,
            s.mirror_prefix is None,
            s.mirror_source is None,
            s.internal_prefix is None,
            s.internal_source is None,
    {
        RegistryState {
            probe_override: None,
            mirror_prefix: None,
            mirror_source: None,
            internal_prefix: None,
            internal_source: None,
        }
    }
}

pub fn registry_probe_set_override_for_tests(state: &mut RegistryState, mode: Option<RegistryProbeTestMode>)
    ensures
        final(state).probe_override == mode,
        final(state).mirror_prefix == old(state).mirror_prefix,
        final(state).mirror_source == old(state).mirror_source,
        final(state).internal_prefix == old(state).internal_prefix,
        final(state).internal_source == old(state).internal_source,
{
    state.probe_override = mode;
}

/// A configured prefix: blank gives the empty prefix, anything else loses its
/// trailing slashes and gets exactly one.
pub open spec fn normalize_prefix_spec(raw: Seq<char>) -> Seq<char> {
    let t = trim_spec(raw);
    if t.len() == 0 {
        seq![]
    } else {
        trim_end_char_spec(t, '/').push('/')
    }
}

pub fn normalize_registry_prefix(raw: &str) -> (out: String)
    ensures
        out@ == normalize_prefix_spec(raw@),
        out@.len() == 0 || (out@.last() == '/' && (out@.len() == 1 || out@[out@.len() - 2] != '/')),
{
    proof {
        lemma_normalized_prefix_one_slash(raw@);
    }
    let cs = str_chars(raw);
    let t = trim(cs.as_slice());
    if t.len() == 0 {
        return String::new();
    }
    let mut u = trim_end_char(t.as_slice(), '/');
    u.push('/');
    string_from_chars(u.as_slice())
}

/// A normalised prefix is empty or ends with exactly one slash.
pub proof fn lemma_normalized_prefix_one_slash(raw: Seq<char>)
    ensures
        ({
            let n = normalize_prefix_spec(raw);
            n.len() == 0 || (n.last() == '/' && (n.len() == 1 || n[n.len() - 2] != '/'))
        }),
{
    let t = trim_spec(raw);
    if t.len() > 0 {
        crate::text::lemma_trim_end_char_last(t, '/');
    }
}

/// Set a once-set cell: a value already there stays.
pub open spec fn set_once(cell: Option<Seq<char>>, v: Seq<char>) -> Option<Seq<char>> {
    if cell is Some {
        cell
    } else {
        Some(v)
    }
}

fn set_once_exec(cell: &mut Option<String>, v: &str)
    ensures
        opt_string_view(*final(cell)) == set_once(opt_string_view(*old(cell)), v@),
{
    if cell.is_none() {
        *cell = Some(v.to_owned());
    }
}

pub open spec fn mirror_host_prefix() -> Seq<char> {
    "repository.migros.net/"@
}

/// Prefix a test mode stands for.
pub open spec fn test_mode_prefix_spec(mode: RegistryProbeTestMode) -> Seq<char> {
    match mode {
        RegistryProbeTestMode::CurlOk => mirror_host_prefix(),
        RegistryProbeTestMode::TcpOk => mirror_host_prefix(),
        _ => seq![],
    }
}

/// Prefix a test probe word stands for (compared in ASCII lower case).
pub open spec fn test_word_prefix_spec(word: Seq<char>) -> Seq<char> {
    let w = lower_spec(word);
    if w == "curl-ok"@ || w == "tcp-ok"@ {
        mirror_host_prefix()
    } else {
        seq![]
    }
}

/// How a test probe word says the mirror was determined.
pub open spec fn test_word_source_spec(word: Seq<char>) -> Seq<char> {
    let w = lower_spec(word);
    if w == "curl-ok"@ || w == "curl-fail"@ {
        "curl"@
    } else if w == "tcp-ok"@ || w == "tcp-fail"@ {
        "tcp"@
    } else {
        "unknown"@
    }
}

fn test_mode_prefix(mode: RegistryProbeTestMode) -> (s: String)
    ensures
        s@ == test_mode_prefix_spec(mode),
{
    match mode {
        RegistryProbeTestMode::CurlOk => "repository.migros.net/".to_owned(),
        RegistryProbeTestMode::TcpOk => "repository.migros.net/".to_owned(),
        _ => String::new(),
    }
}

fn lower_is(w: &Vec<char>, lit: &str) -> (b: bool)
    ensures
        b == (w@ == lit@),
{
    let l = str_chars(lit);
    chars_eq(w.as_slice(), l.as_slice())
}

fn test_word_prefix(word: &str) -> (s: String)
    ensures
        s@ == test_word_prefix_spec(word@),
{
    let cs = str_chars(word);
    let w = to_lower(cs.as_slice());
    if lower_is(&w, "curl-ok") || lower_is(&w, "tcp-ok") {
        "repository.migros.net/".to_owned()
    } else {
        String::new()
    }
}

fn test_word_source(word: &str) -> (s: String)
    ensures
        s@ == test_word_source_spec(word@),
{
    let cs = str_chars(word);
    let w = to_lower(cs.as_slice());
    if lower_is(&w, "curl-ok") || lower_is(&w, "curl-fail") {
        "curl".to_owned()
    } else if lower_is(&w, "tcp-ok") || lower_is(&w, "tcp-fail") {
        "tcp".to_owned()
    } else {
        "unknown".to_owned()
    }
}

/// How the mirror prefix was determined: `unknown` under a test override, the word's
/// kind under a test probe word, else the recorded source or `unknown`.
pub open spec fn mirror_source_spec(state: RegistryState, env: RegistryEnv) -> Seq<char> {
    if state.probe_override is Some {
        "unknown"@
    } else if env.test_probe is Some {
        test_word_source_spec(env.test_probe.unwrap()@)
    } else {
        match state.mirror_source {
            Some(s) => s@,
            None => "unknown"@,
        }
    }
}

pub fn preferred_mirror_registry_source(state: &RegistryState, env: &RegistryEnv) -> (s: String)
    ensures
        s@ == mirror_source_spec(*state, *env),
{
    if state.probe_override.is_some() {
        return "unknown".to_owned();
    }
    match &env.test_probe {
        Some(w) => test_word_source(w.as_str()),
        None => match &state.mirror_source {
            Some(s) => s.clone(),
            None => "unknown".to_owned(),
        },
    }
}

/// The internal registry prefix comes from `AIFO_CODER_INTERNAL_REGISTRY_PREFIX` only
/// and is fixed by the first call: blank or unset gives the empty prefix.
pub open spec fn internal_prefix_spec(state: RegistryState, env: RegistryEnv) -> Seq<char> {
    match state.internal_prefix {
        Some(p) => p@,
        None => match env.internal_prefix {
            Some(v) => normalize_prefix_spec(v@),
            None => seq![],
        },
    }
}

/// The source recorded by the first call: `env`, `env-empty` or `unset`.
pub open spec fn internal_source_after(state: RegistryState, env: RegistryEnv) -> Option<Seq<char>> {
    if state.internal_prefix is Some {
        opt_string_view(state.internal_source)
    } else {
        let src = match env.internal_prefix {
            Some(v) => if trim_spec(v@).len() == 0 {
                "env-empty"@
            } else {
                "env"@
            },
            None => "unset"@,
        };
        set_once(opt_string_view(state.internal_source), src)
    }
}

pub fn preferred_internal_registry_prefix_quiet(state: &mut RegistryState, env: &RegistryEnv) -> (s: String)
    ensures
        s@ == internal_prefix_spec(*old(state), *env),
        opt_string_view(final(state).internal_prefix) == Some(internal_prefix_spec(*old(state), *env)),
        forall|later: RegistryEnv| internal_prefix_spec(*final(state), later) == s@,
        opt_string_view(final(state).internal_source) == internal_source_after(*old(state), *env),
        final(state).probe_override == old(state).probe_override,
        final(state).mirror_prefix == old(state).mirror_prefix,
        final(state).mirror_source == old(state).mirror_source,
{
    match &state.internal_prefix {
        Some(p) => {
            return p.clone();
        },
        None => {},
    }
    match &env.internal_prefix {
        Some(val) => {
            let cs = str_chars(val.as_str());
            let t = trim(cs.as_slice());
            let v = normalize_registry_prefix(val.as_str());
            set_once_exec(&mut state.internal_prefix, v.as_str());
            if t.len() == 0 {
                set_once_exec(&mut state.internal_source, "env-empty");
            } else {
                set_once_exec(&mut state.internal_source, "env");
            }
            v
        },
        None => {
            proof {
                reveal_strlit("");
            }
            set_once_exec(&mut state.internal_prefix, "");
            set_once_exec(&mut state.internal_source, "unset");
            String::new()
        },
    }
}

/// Internal registry source: `env`, `env-empty` or `unset`.
pub fn preferred_internal_registry_source(state: &RegistryState) -> (s: String)
    ensures
        s@ == (match state.internal_source {
            Some(v) => v@,
            None => "unset"@,
        }),
{
    match &state.internal_source {
        Some(v) => v.clone(),
        None => "unset".to_owned(),
    }
}

/// What the probe-with-fallback procedure does next: probe (with the proxy
/// variables cleared or not), or finish with its result, entering force-direct
/// mode first when asked.
#[derive(Clone, Copy, Debug)]
pub enum FallbackStep {
    Probe(bool),
    Finish(Option<(bool, bool)>, bool),
}

/// The next step after the probe answers `answers` (in the order they came): first
/// a probe as configured; a positive or failed first probe finishes; a negative one
/// is retried once with the proxy variables cleared when that is allowed; the retry's
/// answer finishes, a positive one entering force-direct mode.
pub open spec fn fallback_next_spec(retry_allowed: bool, answers: Seq<Option<bool>>) -> FallbackStep {
    if answers.len() == 0 {
        FallbackStep::Probe(false)
    } else if answers.len() == 1 {
        match answers[0] {
            None => FallbackStep::Finish(None, false),
            Some(true) => FallbackStep::Finish(Some((true, false)), false),
            Some(false) => if retry_allowed {
                FallbackStep::Probe(true)
            } else {
                FallbackStep::Finish(Some((false, false)), false)
            },
        }
    } else {
        match answers[1] {
            Some(true) => FallbackStep::Finish(Some((true, true)), true),
            Some(false) => FallbackStep::Finish(Some((false, false)), false),
            None => FallbackStep::Finish(None, false),
        }
    }
}

pub fn fallback_next(retry_allowed: bool, answers: &Vec<Option<bool>>) -> (st: FallbackStep)
    ensures
        st == fallback_next_spec(retry_allowed, answers@),
{
    if answers.len() == 0 {
        FallbackStep::Probe(false)
    } else if answers.len() == 1 {
        match answers[0] {
            None => FallbackStep::Finish(None, false),
            Some(true) => FallbackStep::Finish(Some((true, false)), false),
            Some(false) => if retry_allowed {
                FallbackStep::Probe(true)
            } else {
                FallbackStep::Finish(Some((false, false)), false)
            },
        }
    } else {
        match answers[1] {
            Some(true) => FallbackStep::Finish(Some((true, true)), true),
            Some(false) => FallbackStep::Finish(Some((false, false)), false),
            None => FallbackStep::Finish(None, false),
        }
    }
}

/// A sequence of probe answers that the procedure could have received: each answer
/// follows a step that asked for a probe.
pub open spec fn fallback_run(retry_allowed: bool, answers: Seq<Option<bool>>) -> bool {
    forall|k: int| 0 <= k < answers.len() ==> #[trigger] fallback_next_spec(retry_allowed, answers.take(k)) is Probe
}

/// The procedure probes at most twice: first as configured, then, only after a
/// negative first answer and when a retry is allowed, once with the proxy variables
/// cleared; after two answers it has finished.
pub proof fn lemma_fallback_probes_at_most_twice(retry_allowed: bool, answers: Seq<Option<bool>>)
    requires
        fallback_run(retry_allowed, answers),
    ensures
        answers.len() <= 2,
        fallback_next_spec(retry_allowed, answers.take(0)) == FallbackStep::Probe(false),
        answers.len() == 2 ==> retry_allowed && answers[0] == Some(false) && fallback_next_spec(
            retry_allowed,
            answers.take(1),
        ) == FallbackStep::Probe(true),
        answers.len() == 2 ==> fallback_next_spec(retry_allowed, answers) is Finish,
{
    assert(answers.take(0) =~= Seq::<Option<bool>>::empty());
    if answers.len() >= 2 {
        assert(fallback_next_spec(retry_allowed, answers.take(1)) is Probe);
        assert(answers.take(1)[0] == answers[0]);
    }
    if answers.len() >= 3 {
        assert(fallback_next_spec(retry_allowed, answers.take(2)) is Probe);
        assert(answers.take(2).len() == 2);
    }
}

/// The probe made once more with the proxy variables cleared: `(ok, via_retry)`.
/// A first answer of `true` stands; a negative one is retried without proxies when a
/// proxy variable is set and the fallback is on, and a positive retry enters
/// force-direct mode. `None` when a run could not be made.
pub fn run_probe_with_proxy_fallback<F: Fn(bool) -> Option<bool>>(
    proxy: &mut ProxyState,
    env: &ProxyEnv,
    probe: F,
) -> (r: Option<(bool, bool)>)
    requires
        call_requires(probe, (false,)),
        call_requires(probe, (true,)),
    ensures
        ({
            let names = set_names_spec(env.vars@);
            let retry_allowed = names.len() > 0 && fallback_enabled_spec(opt_string_view(env.fallback));
            &&& (r != Some((false, true)))
            &&& (r == Some((true, false)) ==> call_ensures(probe, (false,), Some(true)))
            &&& (r == Some((false, false)) ==> call_ensures(probe, (false,), Some(false)) && (!retry_allowed
                || call_ensures(probe, (true,), Some(false))))
            &&& (r == Some((true, true)) ==> {
                &&& call_ensures(probe, (false,), Some(false))
                &&& retry_allowed
                &&& call_ensures(probe, (true,), Some(true))
                &&& (force_direct_allowed_spec(opt_string_view(env.force_proxy)) ==> {
                    &&& final(proxy).force_direct
                    &&& strings_view(final(proxy).recorded@) == names
                    &&& final(proxy).ignore_local_images == old(proxy).ignore_local_images
                })
                &&& (!force_direct_allowed_spec(opt_string_view(env.force_proxy)) ==> *final(proxy) == *old(proxy))
            })
            &&& (r != Some((true, true)) ==> *final(proxy) == *old(proxy))
            &&& (r is None ==> call_ensures(probe, (false,), None) || (retry_allowed && call_ensures(probe, (false,), Some(false))
                && call_ensures(probe, (true,), None)))
        }),
{
    let proxies = proxy_env_vars_set(&env.vars);
    let retry_allowed = proxies.len() > 0 && proxy_fallback_enabled(&env.fallback);
    let mut answers: Vec<Option<bool>> = Vec::new();
    loop
        invariant
            retry_allowed == (set_names_spec(env.vars@).len() > 0 && fallback_enabled_spec(opt_string_view(env.fallback))),
            strings_view(proxies@) == set_names_spec(env.vars@),
            call_requires(probe, (false,)),
            call_requires(probe, (true,)),
            *proxy == *old(proxy),
            fallback_run(retry_allowed, answers@),
            answers@.len() <= 2,
            answers@.len() >= 1 ==> call_ensures(probe, (false,), answers@[0]),
            answers@.len() >= 2 ==> call_ensures(probe, (true,), answers@[1]),
        decreases 2 - answers@.len(),
    {
        let st = fallback_next(retry_allowed, &answers);
        match st {
            FallbackStep::Probe(clear) => {
                proof {
                    if answers@.len() == 2 {
                        assert(fallback_next_spec(retry_allowed, answers@) is Finish);
                    }
                    if answers@.len() == 0 {
                        assert(!clear);
                    } else {
                        assert(clear);
                    }
                }
                let a = probe(clear);
                let ghost before = answers@;
                answers.push(a);
                proof {
                    assert forall|k: int| 0 <= k < answers@.len() implies #[trigger] fallback_next_spec(
                        retry_allowed,
                        answers@.take(k),
                    ) is Probe by {
                        if k < before.len() {
                            assert(answers@.take(k) =~= before.take(k));
                        } else {
                            assert(answers@.take(k) =~= before);
                        }
                    }
                    assert(answers@[answers@.len() - 1] == a);
                    if before.len() >= 1 {
                        assert(answers@[0] == before[0]);
                    }
                }
            },
            FallbackStep::Finish(r, mark) => {
                proof {
                    assert(answers@.len() >= 1);
                    if answers@.len() == 2 {
                        assert(fallback_next_spec(retry_allowed, answers@.take(1)) is Probe);
                        assert(answers@.take(1)[0] == answers@[0]);
                        assert(answers@[0] == Some(false));
                        assert(retry_allowed);
                    }
                }
                if mark {
                    mark_proxy_unreachable(proxy, env, &proxies);
                }
                return r;
            },
        }
    }
}

/// The same procedure, for tests.
pub fn test_probe_with_proxy_fallback<F: Fn(bool) -> Option<bool>>(
    proxy: &mut ProxyState,
    env: &ProxyEnv,
    probe: F,
) -> (r: Option<(bool, bool)>)
    requires
        call_requires(probe, (false,)),
        call_requires(probe, (true,)),
    ensures
        ({
            let names = set_names_spec(env.vars@);
            let retry_allowed = names.len() > 0 && fallback_enabled_spec(opt_string_view(env.fallback));
            &&& (r != Some((false, true)))
            &&& (r == Some((true, false)) ==> call_ensures(probe, (false,), Some(true)))
            &&& (r == Some((false, false)) ==> call_ensures(probe, (false,), Some(false)) && (!retry_allowed
                || call_ensures(probe, (true,), Some(false))))
            &&& (r == Some((true, true)) ==> {
                &&& call_ensures(probe, (false,), Some(false))
                &&& retry_allowed
                &&& call_ensures(probe, (true,), Some(true))
                &&& (force_direct_allowed_spec(opt_string_view(env.force_proxy)) ==> {
                    &&& final(proxy).force_direct
                    &&& strings_view(final(proxy).recorded@) == names
                })
            })
            &&& (r != Some((true, true)) ==> *final(proxy) == *old(proxy))
            &&& (r is None ==> call_ensures(probe, (false,), None) || (retry_allowed && call_ensures(probe, (false,), Some(false))
                && call_ensures(probe, (true,), None)))
        }),
{
    run_probe_with_proxy_fallback(proxy, env, probe)
}

/// The part of an image reference before its first `@` (the whole when none).
pub open spec fn before_at(image: Seq<char>) -> Seq<char> {
    image.take(char_pos(image, '@', 0))
}

/// The last `/`-separated component of a sequence.
pub open spec fn last_component(s: Seq<char>) -> Seq<char> {
    match rfind_char_spec(s, '/') {
        Some(k) => s.skip(k + 1),
        None => s,
    }
}

/// Our own images: the final name component, without digest, starts with `aifo-coder-`.
pub open spec fn is_our_image_spec(image: Seq<char>) -> bool {
    let name = last_component(before_at(image));
    crate::text::starts_with_spec(name, "aifo-coder-"@) || crate::text::starts_with_spec(
        name,
        "aifo-coder-toolchain-"@,
    )
}

fn before_char(cs: &Vec<char>, c: char) -> (out: Vec<char>)
    ensures
        out@ == cs@.take(char_pos(cs@, c, 0)),
{
    proof {
        lemma_char_pos(cs@, c, 0);
    }
    let k = char_pos_exec(cs.as_slice(), c, 0);
    slice_to_vec(cs.as_slice(), 0, k)
}

fn last_component_exec(cs: &Vec<char>) -> (out: Vec<char>)
    ensures
        out@ == last_component(cs@),
{
    proof {
        lemma_rfind_char(cs@, '/');
    }
    match rfind_char(cs.as_slice(), '/') {
        Some(k) => {
            assert(rfind_char_spec(cs@, '/') == Some(k as int));
            let n = cs.len();
            assert(k < n);
            let out = slice_to_vec(cs.as_slice(), k + 1, n);
            assert(out@ =~= cs@.skip(k + 1));
            out
        },
        None => cs.clone(),
    }
}

pub fn is_our_image(image: &str) -> (b: bool)
    ensures
        b == is_our_image_spec(image@),
{
    let cs = str_chars(image);
    let base = before_char(&cs, '@');
    let name = last_component_exec(&base);
    let p1 = str_chars("aifo-coder-");
    let p2 = str_chars("aifo-coder-toolchain-");
    crate::text::starts_with(name.as_slice(), p1.as_slice()) || crate::text::starts_with(
        name.as_slice(),
        p2.as_slice(),
    )
}

/// The reference without its tag: cut at the last `:` when it follows the last `/`,
/// at the first `:` when there is no `/`, else unchanged (any digest dropped first).
pub open spec fn without_tag_spec(image: Seq<char>) -> Seq<char> {
    let base = before_at(image);
    match (rfind_char_spec(base, '/'), rfind_char_spec(base, ':')) {
        (Some(slash), Some(colon)) => if colon > slash {
            base.take(colon)
        } else {
            base
        },
        (None, Some(_)) => base.take(char_pos(base, ':', 0)),
        _ => base,
    }
}

/// Retag: the reference without tag or digest, then `:` and the new tag.
pub open spec fn retag_spec(image: Seq<char>, tag: Seq<char>) -> Seq<char> {
    without_tag_spec(image) + ":"@ + tag
}

pub fn retag_image(image: &str, new_tag: &str) -> (out: String)
    ensures
        out@ == retag_spec(image@, new_tag@),
{
    let cs = str_chars(image);
    let base = before_char(&cs, '@');
    proof {
        lemma_rfind_char(base@, '/');
        lemma_rfind_char(base@, ':');
    }
    let slash = rfind_char(base.as_slice(), '/');
    let colon = rfind_char(base.as_slice(), ':');
    let without: Vec<char> = match (slash, colon) {
        (Some(sl), Some(co)) => if co > sl {
            slice_to_vec(base.as_slice(), 0, co)
        } else {
            base.clone()
        },
        (None, Some(_)) => before_char(&base, ':'),
        _ => base.clone(),
    };
    assert(without@ == without_tag_spec(image@));
    let mut out = string_from_chars(without.as_slice());
    out.push(':');
    out.push_str(new_tag);
    proof {
        reveal_strlit(":");
        assert(out@ =~= without@ + ":"@ + new_tag@);
    }
    out
}

/// A reference names its registry when its first component (before a `/`)
/// contains `.` or `:`, or is `localhost`.
pub open spec fn explicit_registry_spec(image: Seq<char>) -> bool {
    let k = char_pos(image, '/', 0);
    let first = image.take(k);
    k < image.len() && (first.contains('.') || first.contains(':') || first == "localhost"@)
}

/// A prefix put in front of an image; the empty prefix leaves it unchanged.
pub open spec fn with_prefix(prefix: Seq<char>, image: Seq<char>) -> Seq<char> {
    prefix + image
}

/// What `resolve_image` gives for `image`, in terms of the registry prefixes
/// that the two suppliers produced: a reference that names its registry is kept;
/// any other takes the internal prefix when it is set, else the mirror prefix (an
/// empty mirror prefix leaves it unchanged).
pub open spec fn resolves_to<I: Fn() -> String, M: Fn() -> String>(
    image: Seq<char>,
    internal: I,
    mirror: M,
    r: Seq<char>,
) -> bool {
    if explicit_registry_spec(image) {
        r == image
    } else {
        exists|p: String|
            #[trigger] call_ensures(internal, (), p) && if p@.len() > 0 {
                r == with_prefix(p@, image)
            } else {
                exists|q: String| #[trigger] call_ensures(mirror, (), q) && r == with_prefix(q@, image)
            }
    }
}

fn explicit_registry(cs: &Vec<char>) -> (b: bool)
    ensures
        b == explicit_registry_spec(cs@),
{
    proof {
        lemma_char_pos(cs@, '/', 0);
    }
    let k = char_pos_exec(cs.as_slice(), '/', 0);
    if k >= cs.len() {
        return false;
    }
    let first = slice_to_vec(cs.as_slice(), 0, k);
    let lh = str_chars("localhost");
    has_char(first.as_slice(), '.') || has_char(first.as_slice(), ':') || chars_eq(first.as_slice(), lh.as_slice())
}

/// Resolve an image reference against the configured registries: a reference that
/// names its registry is kept; any other takes the internal registry prefix when
/// one is set, else the mirror prefix; an empty mirror prefix leaves the reference
/// unchanged. The mirror supplier is called only when the internal prefix is empty.
pub fn resolve_image<I: Fn() -> String, M: Fn() -> String>(image: &str, internal: I, mirror: M) -> (out: String)
    requires
        call_requires(internal, ()),
        call_requires(mirror, ()),
    ensures
        resolves_to(image@, internal, mirror, out@),
{
    let cs = str_chars(image);
    if explicit_registry(&cs) {
        return image.to_owned();
    }
    let p = internal();
    assert(call_ensures(internal, (), p));
    if !p.as_str().is_empty() {
        let mut out = p.clone();
        out.push_str(image);
        return out;
    }
    let q = mirror();
    let mut out = q.clone();
    out.push_str(image);
    assert(call_ensures(mirror, (), q));
    out
}

/// Default host and namespace of the internal registry.
pub open spec fn default_internal_host() -> Seq<char> {
    "registry.intern.migros.net"@
}

pub open spec fn default_internal_namespace() -> Seq<char> {
    "ai-foundation/prototypes/aifo-coder-rs"@
}

/// The namespace: `AIFO_CODER_INTERNAL_REGISTRY_NAMESPACE` trimmed of blanks and
/// slashes when that leaves something, else the default.
pub open spec fn namespace_spec(env_ns: Option<Seq<char>>) -> Seq<char> {
    match env_ns {
        Some(v) => {
            let t = trim_char_spec(trim_spec(v), '/');
            if t.len() > 0 {
                t
            } else {
                default_internal_namespace()
            }
        },
        None => default_internal_namespace(),
    }
}

pub fn registry_namespace(env_ns: &Option<String>) -> (s: String)
    ensures
        s@ == namespace_spec(opt_string_view(*env_ns)),
{
    match env_ns {
        Some(v) => {
            let cs = str_chars(v.as_str());
            let t = trim(cs.as_slice());
            let u = trim_char(t.as_slice(), '/');
            if u.len() > 0 {
                return string_from_chars(u.as_slice());
            }
            "ai-foundation/prototypes/aifo-coder-rs".to_owned()
        },
        None => "ai-foundation/prototypes/aifo-coder-rs".to_owned(),
    }
}

/// Runs of `/` collapsed to one.
pub open spec fn collapse_slashes(s: Seq<char>) -> Seq<char>
    decreases s.len(),
{
    if s.len() == 0 {
        s
    } else {
        let r = collapse_slashes(s.drop_last());
        if s.last() == '/' && r.len() > 0 && r.last() == '/' {
            r
        } else {
            r.push(s.last())
        }
    }
}

fn collapse_slashes_exec(s: &[char]) -> (out: Vec<char>)
    ensures
        out@ == collapse_slashes(s@),
{
    let mut out: Vec<char> = Vec::new();
    let mut i: usize = 0;
    while i < s.len()
        invariant
            i <= s@.len(),
            out@ == collapse_slashes(s@.take(i as int)),
        decreases s@.len() - i,
    {
        assert(s@.take(i + 1).drop_last() =~= s@.take(i as int));
        let n = out.len();
        if !(s[i] == '/' && n > 0 && out[n - 1] == '/') {
            out.push(s[i]);
        }
        i = i + 1;
    }
    assert(s@.take(s@.len() as int) =~= s@);
    out
}

/// `<host>/<namespace>/` with runs of slashes collapsed.
pub open spec fn compose_internal_prefix_spec(ns: Seq<char>) -> Seq<char> {
    collapse_slashes(default_internal_host() + "/"@ + trim_char_spec(ns, '/') + "/"@)
}

pub fn compose_internal_prefix(ns: &str) -> (s: String)
    ensures
        s@ == compose_internal_prefix_spec(ns@),
{
    let mut raw = "registry.intern.migros.net/".to_owned();
    let cs = str_chars(ns);
    let t = trim_char(cs.as_slice(), '/');
    push_chars(&mut raw, t.as_slice());
    raw.push('/');
    let rc = str_chars(raw.as_str());
    let c = collapse_slashes_exec(rc.as_slice());
    proof {
        reveal_strlit("registry.intern.migros.net/");
        reveal_strlit("registry.intern.migros.net");
        reveal_strlit("/");
        assert(rc@ =~= default_internal_host() + "/"@ + trim_char_spec(ns@, '/') + "/"@);
    }
    string_from_chars(c.as_slice())
}

/// Autodetected internal prefix: the environment prefix (normalised) wins; else
/// the default host and namespace when the registry answers; else empty.
pub fn preferred_internal_registry_prefix_autodetect<P: Fn() -> bool>(env: &RegistryEnv, reachable: P) -> (s: String)
    requires
        call_requires(reachable, ()),
    ensures
        env.internal_prefix matches Some(v) ==> s@ == normalize_prefix_spec(v@),
        env.internal_prefix is None ==> (s@ == compose_internal_prefix_spec(
            namespace_spec(opt_string_view(env.internal_namespace)),
        ) && call_ensures(reachable, (), true)) || (s@.len() == 0 && call_ensures(reachable, (), false)),
{
    match &env.internal_prefix {
        Some(v) => normalize_registry_prefix(v.as_str()),
        None => {
            if reachable() {
                let ns = registry_namespace(&env.internal_namespace);
                compose_internal_prefix(ns.as_str())
            } else {
                String::new()
            }
        },
    }
}

/// A call of `curl` on a URL with this text may give `out`.
pub open spec fn curl_answers<C: Fn(&str) -> Option<bool>>(curl: C, url: Seq<char>, out: Option<bool>) -> bool {
    exists|u: &str| u@ == url && #[trigger] call_ensures(curl, (u,), out)
}

/// A call of `tcp` on this host, port and timeout may give `out`.
pub open spec fn tcp_answers<T: Fn(&str, u16, u64) -> bool>(tcp: T, host: Seq<char>, port: u16, ms: u64, out: bool) -> bool {
    exists|h: &str| h@ == host && #[trigger] call_ensures(tcp, (h, port, ms), out)
}

pub open spec fn internal_v2_url() -> Seq<char> {
    "https://registry.intern.migros.net/v2/"@
}

/// The internal registry answers: an HTTP HEAD of its `/v2/` endpoint succeeded, or
/// else a TCP connection to port 443 opened within 300 ms.
pub fn internal_registry_reachable<C: Fn(&str) -> Option<bool>, T: Fn(&str, u16, u64) -> bool>(curl: C, tcp: T) -> (b: bool)
    requires
        forall|u: &str| call_requires(curl, (u,)),
        forall|h: &str, p: u16, ms: u64| call_requires(tcp, (h, p, ms)),
    ensures
        b <== curl_answers(curl, internal_v2_url(), Some(true)) && forall|o: Option<bool>|
            curl_answers(curl, internal_v2_url(), o) ==> o == Some(true),
        b ==> curl_answers(curl, internal_v2_url(), Some(true)) || tcp_answers(
            tcp,
            default_internal_host(),
            443,
            300,
            true,
        ),
        !b ==> (exists|o: Option<bool>| o != Some(true) && curl_answers(curl, internal_v2_url(), o))
            && tcp_answers(tcp, default_internal_host(), 443, 300, false),
{
    let url = "https://registry.intern.migros.net/v2/";
    let c = curl(url);
    assert(curl_answers(curl, internal_v2_url(), c));
    if c == Some(true) {
        return true;
    }
    let host = "registry.intern.migros.net";
    let r = tcp(host, 443, 300);
    assert(tcp_answers(tcp, default_internal_host(), 443, 300, r));
    r
}

/// HEAD probe of a URL through the proxy fallback: `run(url, clear_proxies)` runs
/// the request; the answer is the probe's `ok`.
pub fn curl_head<F: Fn(&str, bool) -> Option<bool>>(
    proxy: &mut ProxyState,
    env: &ProxyEnv,
    url: &str,
    run: &F,
) -> (r: Option<bool>)
    requires
        call_requires(run, (url, false)),
        call_requires(run, (url, true)),
    ensures
        r == Some(true) ==> call_ensures(run, (url, false), Some(true)) || call_ensures(run, (url, true), Some(true)),
        r == Some(false) ==> call_ensures(run, (url, false), Some(false)),
        r is None ==> call_ensures(run, (url, false), None) || call_ensures(run, (url, true), None),
{
    let f = run;
    let probe = |clear: bool| -> (o: Option<bool>)
        requires
            call_requires(f, (url, clear)),
        ensures
            call_ensures(f, (url, clear), o),
        { f(url, clear) };
    let res = run_probe_with_proxy_fallback(proxy, env, probe);
    assert(res == Some((true, false)) ==> call_ensures(run, (url, false), Some(true))) by {
        if res == Some((true, false)) {
            assert(call_ensures(probe, (false,), Some(true)));
        }
    }
    assert(res == Some((true, true)) ==> call_ensures(run, (url, true), Some(true))) by {
        if res == Some((true, true)) {
            assert(call_ensures(probe, (true,), Some(true)));
        }
    }
    assert(res == Some((false, false)) ==> call_ensures(run, (url, false), Some(false))) by {
        if res == Some((false, false)) {
            assert(call_ensures(probe, (false,), Some(false)));
        }
    }
    assert(res is None ==> call_ensures(run, (url, false), None) || call_ensures(run, (url, true), None)) by {
        if res is None {
            if call_ensures(probe, (false,), None) {
            } else {
                assert(call_ensures(probe, (true,), None));
            }
        }
    }
    assert(res != Some((false, true)));
    let out = match res {
        Some(pair) => Some(pair.0),
        None => None,
    };
    assert(out == Some(true) ==> res == Some((true, false)) || res == Some((true, true)));
    assert(out == Some(false) ==> res == Some((false, false)));
    out
}

pub open spec fn mirror_v2_url() -> Seq<char> {
    "https://repository.migros.net/v2/"@
}

pub open spec fn mirror_host() -> Seq<char> {
    "repository.migros.net"@
}

/// The mirror prefix when the mirror answers, else empty.
pub open spec fn mirror_prefix_if(ok: bool) -> Seq<char> {
    if ok {
        mirror_host_prefix()
    } else {
        seq![]
    }
}

/// Mirror prefix and whether to write it to the disk cache, when no probe is needed:
/// a test override, a test probe word, the environment prefix, or the value already
/// cached in this process, in that order.
pub open spec fn mirror_fixed_spec(state: RegistryState, env: RegistryEnv) -> Option<(Seq<char>, bool)> {
    if state.probe_override is Some {
        Some((test_mode_prefix_spec(state.probe_override.unwrap()), false))
    } else if env.test_probe is Some {
        Some((test_word_prefix_spec(env.test_probe.unwrap()@), false))
    } else if env.mirror_prefix is Some {
        Some((normalize_prefix_spec(env.mirror_prefix.unwrap()@), true))
    } else if state.mirror_prefix is Some {
        Some((state.mirror_prefix.unwrap()@, false))
    } else {
        None
    }
}

/// Outcomes of the probing path (nothing cached in this process yet): the disk cache
/// (normalised, not written back), else a HEAD request, else a TCP connection.
pub open spec fn mirror_probed<R: Fn() -> Option<String>, C: Fn(&str) -> Option<bool>, T: Fn(&str, u16, u64) -> bool>(
    read_cache: R,
    curl: C,
    tcp: T,
    prefix: Seq<char>,
    write: bool,
    source: Seq<char>,
) -> bool {
    ||| (exists|raw: String| #[trigger] call_ensures(read_cache, (), Some(raw)) && prefix == normalize_prefix_spec(raw@)
        && !write && source == "cache"@)
    ||| (call_ensures(read_cache, (), None) && exists|b: bool| #[trigger] curl_answers(curl, mirror_v2_url(), Some(b))
        && prefix == mirror_prefix_if(b) && write && source == "curl"@)
    ||| (call_ensures(read_cache, (), None) && curl_answers(curl, mirror_v2_url(), None) && exists|b: bool|
        #[trigger] tcp_answers(tcp, mirror_host(), 443, 300, b) && prefix == mirror_prefix_if(b) && write && source
        == "tcp"@)
}

fn mirror_probe<R: Fn() -> Option<String>, C: Fn(&str) -> Option<bool>, T: Fn(&str, u16, u64) -> bool>(
    read_cache: R,
    curl: C,
    tcp: T,
) -> (r: (String, bool, String))
    requires
        call_requires(read_cache, ()),
        forall|u: &str| call_requires(curl, (u,)),
        forall|h: &str, p: u16, ms: u64| call_requires(tcp, (h, p, ms)),
    ensures
        mirror_probed(read_cache, curl, tcp, r.0@, r.1, r.2@),
{
    let cached = read_cache();
    match cached {
        Some(raw) => {
            let v = normalize_registry_prefix(raw.as_str());
            assert(call_ensures(read_cache, (), Some(raw)));
            return (v, false, "cache".to_owned());
        },
        None => {},
    }
    let url = "https://repository.migros.net/v2/";
    let c = curl(url);
    assert(curl_answers(curl, mirror_v2_url(), c));
    match c {
        Some(b) => {
            let v = if b {
                "repository.migros.net/".to_owned()
            } else {
                String::new()
            };
            proof {
                reveal_strlit("");
            }
            return (v, true, "curl".to_owned());
        },
        None => {},
    }
    let host = "repository.migros.net";
    let b = tcp(host, 443, 300);
    assert(tcp_answers(tcp, mirror_host(), 443, 300, b));
    let v = if b {
        "repository.migros.net/".to_owned()
    } else {
        String::new()
    };
    proof {
        reveal_strlit("");
    }
    (v, true, "tcp".to_owned())
}

/// Mirror registry prefix (quiet). Returns the prefix and whether the caller should
/// write it to the disk cache. Test overrides and test probe words answer at once;
/// the environment prefix is normalised, recorded (source `env`) and written; a value
/// cached in this process is returned as it is; otherwise the disk cache, a HEAD
/// request and a TCP connection are tried in turn and the result is recorded.
pub fn preferred_mirror_registry_prefix_quiet<
    R: Fn() -> Option<String>,
    C: Fn(&str) -> Option<bool>,
    T: Fn(&str, u16, u64) -> bool,
>(state: &mut RegistryState, env: &RegistryEnv, read_cache: R, curl: C, tcp: T) -> (r: (String, bool))
    requires
        call_requires(read_cache, ()),
        forall|u: &str| call_requires(curl, (u,)),
        forall|h: &str, p: u16, ms: u64| call_requires(tcp, (h, p, ms)),
    ensures
        final(state).probe_override == old(state).probe_override,
        final(state).internal_prefix == old(state).internal_prefix,
        final(state).internal_source == old(state).internal_source,
        match mirror_fixed_spec(*old(state), *env) {
            Some(fixed) => {
                &&& r.0@ == fixed.0
                &&& r.1 == fixed.1
                &&& (old(state).probe_override is None && env.test_probe is None && env.mirror_prefix is Some ==> {
                    &&& opt_string_view(final(state).mirror_prefix) == set_once(
                        opt_string_view(old(state).mirror_prefix),
                        fixed.0,
                    )
                    &&& opt_string_view(final(state).mirror_source) == set_once(
                        opt_string_view(old(state).mirror_source),
                        "env"@,
                    )
                })
                &&& (!(old(state).probe_override is None && env.test_probe is None && env.mirror_prefix is Some) ==> {
                    &&& final(state).mirror_prefix == old(state).mirror_prefix
                    &&& final(state).mirror_source == old(state).mirror_source
                })
            },
            None => exists|src: Seq<char>| {
                &&& #[trigger] mirror_probed(read_cache, curl, tcp, r.0@, r.1, src)
                &&& opt_string_view(final(state).mirror_prefix) == Some(r.0@)
                &&& forall|later: RegistryEnv|
                    later.test_probe is None && later.mirror_prefix is None ==> #[trigger] mirror_fixed_spec(
                        *final(state),
                        later,
                    ) == Some((r.0@, false))
                &&& opt_string_view(final(state).mirror_source) == set_once(
                    opt_string_view(old(state).mirror_source),
                    src,
                )
            },
        },
{
    match state.probe_override {
        Some(m) => {
            return (test_mode_prefix(m), false);
        },
        None => {},
    }
    match &env.test_probe {
        Some(w) => {
            return (test_word_prefix(w.as_str()), false);
        },
        None => {},
    }
    match &env.mirror_prefix {
        Some(val) => {
            let v = normalize_registry_prefix(val.as_str());
            set_once_exec(&mut state.mirror_prefix, v.as_str());
            set_once_exec(&mut state.mirror_source, "env");
            return (v, true);
        },
        None => {},
    }
    match &state.mirror_prefix {
        Some(p) => {
            return (p.clone(), false);
        },
        None => {},
    }
    assert(mirror_fixed_spec(*old(state), *env) is None);
    let (v, write, src) = mirror_probe(read_cache, curl, tcp);
    set_once_exec(&mut state.mirror_prefix, v.as_str());
    set_once_exec(&mut state.mirror_source, src.as_str());
    assert(mirror_probed(read_cache, curl, tcp, v@, write, src@));
    assert(opt_string_view(state.mirror_prefix) == Some(v@));
    assert(opt_string_view(state.mirror_source) == set_once(opt_string_view(old(state).mirror_source), src@));
    let ghost src_v = src@;
    let r = (v, write);
    assert(mirror_probed(read_cache, curl, tcp, r.0@, r.1, src_v));
    assert(opt_string_view(state.mirror_prefix) == Some(r.0@));
    assert(opt_string_view(state.mirror_source) == set_once(opt_string_view(old(state).mirror_source), src_v));
    assert(exists|s2: Seq<char>| {
        &&& #[trigger] mirror_probed(read_cache, curl, tcp, r.0@, r.1, s2)
        &&& opt_string_view(state.mirror_prefix) == Some(r.0@)
        &&& opt_string_view(state.mirror_source) == set_once(opt_string_view(old(state).mirror_source), s2)
    });
    r
}

/// The image shown in logs before registry resolution: a non-blank
/// `AIFO_CODER_AGENT_IMAGE` (trimmed) wins, else a non-blank `AIFO_CODER_AGENT_TAG`
/// retags the default image, else the default image.
pub open spec fn log_display_input(image: Seq<char>, agent_image: Option<Seq<char>>, agent_tag: Option<Seq<char>>) -> Seq<char> {
    if agent_image is Some && trim_spec(agent_image.unwrap()).len() > 0 {
        trim_spec(agent_image.unwrap())
    } else if agent_tag is Some && trim_spec(agent_tag.unwrap()).len() > 0 {
        retag_spec(image, trim_spec(agent_tag.unwrap()))
    } else {
        image
    }
}

fn nonblank_trimmed(v: &Option<String>) -> (r: Option<String>)
    ensures
        match r {
            Some(t) => opt_string_view(*v) is Some && t@ == trim_spec(opt_string_view(*v).unwrap()) && t@.len() > 0,
            None => opt_string_view(*v) is None || trim_spec(opt_string_view(*v).unwrap()).len() == 0,
        },
{
    match v {
        Some(s) => {
            let cs = str_chars(s.as_str());
            let t = trim(cs.as_slice());
            if t.len() > 0 {
                Some(string_from_chars(t.as_slice()))
            } else {
                None
            }
        },
        None => None,
    }
}

/// The effective agent image for logging: environment overrides, then registry resolution.
pub fn resolve_agent_image_log_display<I: Fn() -> String, M: Fn() -> String>(
    image: &str,
    agent_image: &Option<String>,
    agent_tag: &Option<String>,
    internal: I,
    mirror: M,
) -> (out: String)
    requires
        call_requires(internal, ()),
        call_requires(mirror, ()),
    ensures
        resolves_to(
            log_display_input(image@, opt_string_view(*agent_image), opt_string_view(*agent_tag)),
            internal,
            mirror,
            out@,
        ),
{
    match nonblank_trimmed(agent_image) {
        Some(t) => {
            return resolve_image(t.as_str(), internal, mirror);
        },
        None => {},
    }
    match nonblank_trimmed(agent_tag) {
        Some(t) => {
            let retagged = retag_image(image, t.as_str());
            return resolve_image(retagged.as_str(), internal, mirror);
        },
        None => {},
    }
    resolve_image(image, internal, mirror)
}


/// A reference whose first component (the text before its first `/`) holds a `:`
/// (a `host:port` registry) or a `.` (a domain), or is `localhost`, names its
/// registry: whatever the internal and mirror prefixes are, `resolve_image` gives it
/// back exactly as written.
pub proof fn lemma_host_port_reference_kept<I: Fn() -> String, M: Fn() -> String>(
    image: Seq<char>,
    k: int,
    internal: I,
    mirror: M,
    r: Seq<char>,
)
    requires
        0 <= k < image.len(),
        image[k] == '/',
        forall|j: int| 0 <= j < k ==> image[j] != '/',
        (exists|j: int| 0 <= j < k && (image[j] == ':' || image[j] == '.')) || image.take(k) == "localhost"@,
        resolves_to(image, internal, mirror, r),
    ensures
        r == image,
{
    lemma_first_component_host_port(image, k);
}

/// A reference without any `/` names no registry: it takes the internal prefix when
/// that is set, else the mirror prefix, in front of it.
pub proof fn lemma_bare_reference_prefixed<I: Fn() -> String, M: Fn() -> String>(
    image: Seq<char>,
    internal: I,
    mirror: M,
    r: Seq<char>,
)
    requires
        forall|j: int| 0 <= j < image.len() ==> image[j] != '/',
        resolves_to(image, internal, mirror, r),
    ensures
        exists|p: String| #[trigger] call_ensures(internal, (), p) && if p@.len() > 0 {
            r == p@ + image
        } else {
            exists|q: String| #[trigger] call_ensures(mirror, (), q) && r == q@ + image
        },
{
    lemma_char_pos(image, '/', 0);
    if char_pos(image, '/', 0) < image.len() {
        assert(image[char_pos(image, '/', 0)] == '/');
    }
}

/// Under the hypotheses of `lemma_host_port_reference_kept`, the reference counts as
/// naming its registry, which is the text before its first `/`.
pub proof fn lemma_first_component_host_port(image: Seq<char>, k: int)
    requires
        0 <= k < image.len(),
        image[k] == '/',
        forall|j: int| 0 <= j < k ==> image[j] != '/',
        (exists|j: int| 0 <= j < k && (image[j] == ':' || image[j] == '.')) || image.take(k) == "localhost"@,
    ensures
        explicit_registry_spec(image),
        char_pos(image, '/', 0) == k,
{
    lemma_char_pos(image, '/', 0);
    let p = char_pos(image, '/', 0);
    if p < k {
        assert(image[p] == '/');
    }
    if p > k {
        assert(image[k] != '/');
    }
    if exists|j: int| 0 <= j < k && (image[j] == ':' || image[j] == '.') {
        let j = choose|j: int| 0 <= j < k && (image[j] == ':' || image[j] == '.');
        assert(image.take(k)[j] == image[j]);
        if image[j] == ':' {
            assert(image.take(k).contains(':'));
        } else {
            assert(image.take(k).contains('.'));
        }
    }
}

} // verus!
