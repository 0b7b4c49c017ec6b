//! Container-runtime decisions: AppArmor support and profile choice, the
//! environment handed to containers, image references and their overrides, and
//! what a failed pull is answered with.
use vstd::prelude::*;

use crate::escape::{pairs_view, strings_view};
use crate::proxy::opt_string_view;
use crate::registry::{before_at, last_component, retag_image, retag_spec};
use crate::text::{
    char_pos, char_pos_exec, chars_eq, contains_spec, lemma_char_pos, lemma_rfind_char, lower_spec,
    rfind_char, rfind_char_spec, slice_to_vec, starts_with_spec, str_chars, str_eq, string_from_chars,
    to_lower, trim, trim_spec, lines, lines_spec, seqs_view,
};

verus! {

/// Docker reports AppArmor among its security options (compared in lower case;
/// no other character lower-cases into these ASCII letters).
pub open spec fn docker_reports_apparmor(info: Seq<char>) -> bool {
    contains_spec(lower_spec(info), "apparmor"@)
}

/// The kernel's AppArmor switch: when the module parameter could be read, a value
/// (trimmed, lower case) starting with `y`, containing `enforce` or `complain`, or
/// equal to `1`, `yes` or `true` counts, and the process attributes must exist; when it
/// could not be read, the attributes alone decide.
pub open spec fn kernel_apparmor_spec(param: Option<Seq<char>>, attrs_exist: bool) -> bool {
    match param {
        Some(p) => {
            let c = lower_spec(trim_spec(p));
            let on = (c.len() > 0 && c[0] == 'y') || contains_spec(c, "enforce"@) || contains_spec(c, "complain"@)
                || c == "1"@ || c == "yes"@ || c == "true"@;
            on && attrs_exist
        },
        None => attrs_exist,
    }
}

pub fn kernel_apparmor_enabled(param: &Option<String>, attrs_exist: bool) -> (b: bool)
    ensures
        b == kernel_apparmor_spec(opt_string_view(*param), attrs_exist),
{
    match param {
        Some(p) => {
            let cs = str_chars(p.as_str());
            let t = trim(cs.as_slice());
            let c = to_lower(t.as_slice());
            let en = str_chars("enforce");
            let co = str_chars("complain");
            let one = str_chars("1");
            let yes = str_chars("yes");
            let tr = str_chars("true");
            let on = (c.len() > 0 && c[0] == 'y') || crate::text::contains(c.as_slice(), en.as_slice())
                || crate::text::contains(c.as_slice(), co.as_slice()) || chars_eq(c.as_slice(), one.as_slice())
                || chars_eq(c.as_slice(), yes.as_slice()) || chars_eq(c.as_slice(), tr.as_slice());
            on && attrs_exist
        },
        None => attrs_exist,
    }
}

/// AppArmor can be used: Docker's security options were read and mention it, and on
/// Linux the kernel has it enabled.
pub open spec fn apparmor_support_spec(info: Option<Seq<char>>, linux: bool, kernel_enabled: bool) -> bool {
    match info {
        Some(i) => docker_reports_apparmor(i) && (!linux || kernel_enabled),
        None => false,
    }
}

pub fn docker_supports_apparmor(info: &Option<String>, linux: bool, kernel_enabled: bool) -> (b: bool)
    ensures
        b == apparmor_support_spec(opt_string_view(*info), linux, kernel_enabled),
{
    match info {
        Some(i) => {
            let cs = str_chars(i.as_str());
            let l = to_lower(cs.as_slice());
            let a = str_chars("apparmor");
            crate::text::contains(l.as_slice(), a.as_slice()) && (!linux || kernel_enabled)
        },
        None => false,
    }
}

/// A loaded-profiles line names the profile: it starts with `<name> (` or `<name> `.
pub open spec fn names_profile(line: Seq<char>, name: Seq<char>) -> bool {
    let l = trim_spec(line);
    l.len() > 0 && (starts_with_spec(l, name + " ("@) || starts_with_spec(l, name + " "@))
}

/// A profile is available when, on Linux, the loaded-profiles list (when readable)
/// names it; elsewhere it always is.
pub open spec fn profile_available_spec(name: Seq<char>, profiles: Option<Seq<char>>, linux: bool) -> bool {
    if !linux {
        true
    } else {
        match profiles {
            Some(list) => exists|k: int| 0 <= k < lines_spec(list).len() && #[trigger] names_profile(
                lines_spec(list)[k],
                name,
            ),
            None => false,
        }
    }
}

pub fn apparmor_profile_available(name: &str, profiles: &Option<String>, linux: bool) -> (b: bool)
    ensures
        b == profile_available_spec(name@, opt_string_view(*profiles), linux),
{
    if !linux {
        return true;
    }
    match profiles {
        Some(list) => {
            let cs = str_chars(list.as_str());
            let ls = lines(cs.as_slice());
            let mut p1 = name.to_owned();
            p1.push_str(" (");
            let mut p2 = name.to_owned();
            p2.push_str(" ");
            let a = str_chars(p1.as_str());
            let b = str_chars(p2.as_str());
            let mut k: usize = 0;
            assert(opt_string_view(*profiles) == Some(list@));
            while k < ls.len()
                invariant
                    k <= ls@.len(),
                    linux,
                    opt_string_view(*profiles) == Some(list@),
                    seqs_view(ls@) == lines_spec(list@),
                    a@ == name@ + " ("@,
                    b@ == name@ + " "@,
                    forall|j: int| 0 <= j < k ==> !#[trigger] names_profile(lines_spec(list@)[j], name@),
                decreases ls@.len() - k,
            {
                assert(seqs_view(ls@)[k as int] == ls@[k as int]@);
                let l = trim(ls[k].as_slice());
                if l.len() > 0 && (crate::text::starts_with(l.as_slice(), a.as_slice()) || crate::text::starts_with(
                    l.as_slice(),
                    b.as_slice(),
                )) {
                    assert(l@ == trim_spec(lines_spec(list@)[k as int]));
                    assert(starts_with_spec(l@, a@) || starts_with_spec(l@, b@));
                    assert(names_profile(lines_spec(list@)[k as int], name@));
                    let ghost pv = opt_string_view(*profiles);
                    assert(pv.unwrap() == list@);
                    assert(names_profile(lines_spec(pv.unwrap())[k as int], name@));
                    return true;
                }
                k = k + 1;
            }
            false
        },
        None => false,
    }
}

/// Values of `AIFO_CODER_APPARMOR_PROFILE` that turn the profile off.
pub open spec fn disabling_word(w: Seq<char>) -> bool {
    w == "none"@ || w == "no"@ || w == "off"@ || w == "false"@ || w == "0"@ || w == "disabled"@ || w == "disable"@
}

/// The host platform, as far as the profile choice cares.
#[derive(Clone, Copy, PartialEq, Eq, Structural, Debug)]
pub enum HostOs {
    Linux,
    MacOs,
    Windows,
    Other,
}

/// The AppArmor profile to request: none without support or when the environment
/// turns it off; an environment profile (on Linux only when loaded, else
/// `docker-default` when loaded); else `docker-default` on macOS and Windows, and
/// `aifo-coder` or `docker-default` (whichever is loaded first) elsewhere.
pub open spec fn desired_profile_spec(
    supported: bool,
    env: Option<Seq<char>>,
    os: HostOs,
    profiles: Option<Seq<char>>,
) -> Option<Seq<char>> {
    let linux = os == HostOs::Linux;
    if !supported {
        None
    } else if env is Some {
        let t = trim_spec(env.unwrap());
        if t.len() == 0 || disabling_word(lower_spec(t)) {
            None
        } else if linux && !profile_available_spec(t, profiles, linux) {
            if profile_available_spec("docker-default"@, profiles, linux) {
                Some("docker-default"@)
            } else {
                None
            }
        } else {
            Some(t)
        }
    } else if os == HostOs::MacOs || os == HostOs::Windows {
        Some("docker-default"@)
    } else if profile_available_spec("aifo-coder"@, profiles, linux) {
        Some("aifo-coder"@)
    } else if profile_available_spec("docker-default"@, profiles, linux) {
        Some("docker-default"@)
    } else {
        None
    }
}

/// Warnings printed on the way to the profile (only by the non-quiet choice).
pub open spec fn profile_warnings_spec(
    supported: bool,
    env: Option<Seq<char>>,
    os: HostOs,
    profiles: Option<Seq<char>>,
) -> Seq<Seq<char>> {
    let linux = os == HostOs::Linux;
    if !supported {
        seq![]
    } else if env is Some {
        let t = trim_spec(env.unwrap());
        if t.len() == 0 || disabling_word(lower_spec(t)) {
            seq![]
        } else if linux && !profile_available_spec(t, profiles, linux) {
            seq!["apparmor profile '"@ + t + "' not loaded on host; falling back to 'docker-default'."@] + if profile_available_spec(
                "docker-default"@,
                profiles,
                linux,
            ) {
                seq![]
            } else {
                seq!["'docker-default' profile not found; continuing without explicit AppArmor profile."@]
            }
        } else {
            seq![]
        }
    } else if os == HostOs::MacOs || os == HostOs::Windows {
        seq![]
    } else if profile_available_spec("aifo-coder"@, profiles, linux) {
        seq![]
    } else if profile_available_spec("docker-default"@, profiles, linux) {
        seq!["apparmor profile 'aifo-coder' not loaded; using 'docker-default'."@]
    } else {
        seq!["no known apparmor profile loaded; continuing without explicit profile."@]
    }
}

fn is_disabling(w: &Vec<char>) -> (b: bool)
    ensures
        b == disabling_word(w@),
{
    let none = str_chars("none");
    let no = str_chars("no");
    let off = str_chars("off");
    let f = str_chars("false");
    let z = str_chars("0");
    let d1 = str_chars("disabled");
    let d2 = str_chars("disable");
    chars_eq(w.as_slice(), none.as_slice()) || chars_eq(w.as_slice(), no.as_slice()) || chars_eq(w.as_slice(), off.as_slice())
        || chars_eq(w.as_slice(), f.as_slice()) || chars_eq(w.as_slice(), z.as_slice()) || chars_eq(
        w.as_slice(),
        d1.as_slice(),
    ) || chars_eq(w.as_slice(), d2.as_slice())
}

/// The profile to request and the warnings to print.
pub fn desired_apparmor_profile(
    supported: bool,
    env: &Option<String>,
    os: HostOs,
    profiles: &Option<String>,
) -> (r: (Option<String>, Vec<String>))
    ensures
        opt_string_view(r.0) == desired_profile_spec(supported, opt_string_view(*env), os, opt_string_view(*profiles)),
        strings_view(r.1@) == profile_warnings_spec(supported, opt_string_view(*env), os, opt_string_view(*profiles)),
{
    let linux = os == HostOs::Linux;
    let mut warns: Vec<String> = Vec::new();
    if !supported {
        return (None, warns);
    }
    match env {
        Some(p) => {
            let cs = str_chars(p.as_str());
            let t = trim(cs.as_slice());
            let low = to_lower(t.as_slice());
            if t.len() == 0 || is_disabling(&low) {
                return (None, warns);
            }
            let ts = string_from_chars(t.as_slice());
            if linux && !apparmor_profile_available(ts.as_str(), profiles, linux) {
                let mut w = "apparmor profile '".to_owned();
                w.push_str(ts.as_str());
                w.push_str("' not loaded on host; falling back to 'docker-default'.");
                crate::escape::push_string_item(&mut warns, w);
                if apparmor_profile_available("docker-default", profiles, linux) {
                    assert(strings_view(warns@) =~= profile_warnings_spec(
                        supported,
                        opt_string_view(*env),
                        os,
                        opt_string_view(*profiles),
                    ));
                    return (Some("docker-default".to_owned()), warns);
                }
                crate::escape::push_str_item(
                    &mut warns,
                    "'docker-default' profile not found; continuing without explicit AppArmor profile.",
                );
                assert(strings_view(warns@) =~= profile_warnings_spec(
                    supported,
                    opt_string_view(*env),
                    os,
                    opt_string_view(*profiles),
                ));
                return (None, warns);
            }
            return (Some(ts), warns);
        },
        None => {},
    }
    if os == HostOs::MacOs || os == HostOs::Windows {
        return (Some("docker-default".to_owned()), warns);
    }
    if apparmor_profile_available("aifo-coder", profiles, linux) {
        return (Some("aifo-coder".to_owned()), warns);
    }
    if apparmor_profile_available("docker-default", profiles, linux) {
        crate::escape::push_str_item(&mut warns, "apparmor profile 'aifo-coder' not loaded; using 'docker-default'.");
        assert(strings_view(warns@) =~= profile_warnings_spec(supported, opt_string_view(*env), os, opt_string_view(*profiles)));
        return (Some("docker-default".to_owned()), warns);
    }
    crate::escape::push_str_item(&mut warns, "no known apparmor profile loaded; continuing without explicit profile.");
    assert(strings_view(warns@) =~= profile_warnings_spec(supported, opt_string_view(*env), os, opt_string_view(*profiles)));
    (None, warns)
}

/// The same choice without warnings.
pub fn desired_apparmor_profile_quiet(
    supported: bool,
    env: &Option<String>,
    os: HostOs,
    profiles: &Option<String>,
) -> (r: Option<String>)
    ensures
        opt_string_view(r) == desired_profile_spec(supported, opt_string_view(*env), os, opt_string_view(*profiles)),
{
    desired_apparmor_profile(supported, env, os, profiles).0
}

/// Variables passed through to agent containers when set.
pub fn pass_env_vars() -> (v: Vec<&'static str>)
    ensures
        v@.len() == 16,
        v@.map_values(|s: &str| s@) == seq![
            "AIFO_API_KEY"@,
            "AIFO_API_BASE"@,
            "AIFO_API_VERSION"@,
            "GIT_AUTHOR_NAME"@,
            "GIT_AUTHOR_EMAIL"@,
            "GIT_COMMITTER_NAME"@,
            "GIT_COMMITTER_EMAIL"@,
            "AIFO_CODER_GIT_SIGN"@,
            "GIT_SIGNING_KEY"@,
            "AIFO_GPG_REQUIRE_PRIME"@,
            "AIFO_GPG_CACHE_TTL_SECONDS"@,
            "AIFO_GPG_CACHE_MAX_TTL_SECONDS"@,
            "TZ"@,
            "EDITOR"@,
            "VISUAL"@,
            "TERM"@,
        ],
{
    let v = vec![
        "AIFO_API_KEY",
        "AIFO_API_BASE",
        "AIFO_API_VERSION",
        "GIT_AUTHOR_NAME",
        "GIT_AUTHOR_EMAIL",
        "GIT_COMMITTER_NAME",
        "GIT_COMMITTER_EMAIL",
        "AIFO_CODER_GIT_SIGN",
        "GIT_SIGNING_KEY",
        "AIFO_GPG_REQUIRE_PRIME",
        "AIFO_GPG_CACHE_TTL_SECONDS",
        "AIFO_GPG_CACHE_MAX_TTL_SECONDS",
        "TZ",
        "EDITOR",
        "VISUAL",
        "TERM",
    ];
    assert(v@.map_values(|s: &str| s@) =~= seq![
        "AIFO_API_KEY"@,
        "AIFO_API_BASE"@,
        "AIFO_API_VERSION"@,
        "GIT_AUTHOR_NAME"@,
        "GIT_AUTHOR_EMAIL"@,
        "GIT_COMMITTER_NAME"@,
        "GIT_COMMITTER_EMAIL"@,
        "AIFO_CODER_GIT_SIGN"@,
        "GIT_SIGNING_KEY"@,
        "AIFO_GPG_REQUIRE_PRIME"@,
        "AIFO_GPG_CACHE_TTL_SECONDS"@,
        "AIFO_GPG_CACHE_MAX_TTL_SECONDS"@,
        "TZ"@,
        "EDITOR"@,
        "VISUAL"@,
        "TERM"@,
    ]);
    v
}

/// `-e <key>` for a variable set to something non-empty (the value is inherited).
pub fn push_env_if_set(args: &mut Vec<String>, key: &str, val: &Option<String>)
    ensures
        strings_view(final(args)@) == strings_view(old(args)@) + if opt_string_view(*val) is Some
            && opt_string_view(*val).unwrap().len() > 0 {
            seq!["-e"@, key@]
        } else {
            seq![]
        },
{
    let set = match val {
        Some(v) => !v.as_str().is_empty(),
        None => false,
    };
    if set {
        crate::escape::push_str_item(args, "-e");
        crate::escape::push_str_item(args, key);
    }
    assert(strings_view(args@) =~= strings_view(old(args)@) + if opt_string_view(*val) is Some
        && opt_string_view(*val).unwrap().len() > 0 {
        seq!["-e"@, key@]
    } else {
        seq![]
    });
}

/// `-e <key>=<val>`.
pub fn push_env_kv(args: &mut Vec<String>, key: &str, val: &str)
    ensures
        strings_view(final(args)@) == strings_view(old(args)@) + seq!["-e"@, key@ + "="@ + val@],
{
    let mut kv = key.to_owned();
    kv.push_str("=");
    kv.push_str(val);
    crate::escape::push_str_item(args, "-e");
    crate::escape::push_string_item(args, kv);
}

pub open spec fn env_name_char(c: char) -> bool {
    ('A' <= c && c <= 'Z') || ('a' <= c && c <= 'z') || ('0' <= c && c <= '9') || c == '_'
}

/// An `AIFO_ENV_<NAME>=<VALUE>` variable that is forwarded as `<NAME>=<VALUE>`:
/// a non-empty name of ASCII letters, digits and underscores, a non-empty value.
pub open spec fn forwarded_name(key: Seq<char>, val: Seq<char>) -> Option<Seq<char>> {
    if starts_with_spec(key, "AIFO_ENV_"@) {
        let name = key.skip(9);
        if name.len() > 0 && val.len() > 0 && forall|i: int| 0 <= i < name.len() ==> env_name_char(#[trigger] name[i]) {
            Some(name)
        } else {
            None
        }
    } else {
        None
    }
}

/// Lexicographic order of character sequences (the order of `String`s of ASCII).
pub open spec fn lex_le(a: Seq<char>, b: Seq<char>) -> bool
    decreases a.len(),
{
    if a.len() == 0 {
        true
    } else if b.len() == 0 {
        false
    } else if (a[0] as u32) < (b[0] as u32) {
        true
    } else if (a[0] as u32) > (b[0] as u32) {
        false
    } else {
        lex_le(a.drop_first(), b.drop_first())
    }
}

fn lex_le_exec(a: &[char], b: &[char]) -> (r: bool)
    ensures
        r == lex_le(a@, b@),
{
    let mut i: usize = 0;
    assert(a@.skip(0) =~= a@);
    assert(b@.skip(0) =~= b@);
    loop
        invariant
            i <= a@.len(),
            i <= b@.len(),
            lex_le(a@, b@) == lex_le(a@.skip(i as int), b@.skip(i as int)),
        decreases a@.len() - i,
    {
        if i == a.len() {
            return true;
        }
        if i == b.len() {
            return false;
        }
        let x = a[i] as u32;
        let y = b[i] as u32;
        assert(a@.skip(i as int)[0] == a@[i as int]);
        assert(b@.skip(i as int)[0] == b@[i as int]);
        if x < y {
            return true;
        }
        if x > y {
            return false;
        }
        assert(a@.skip(i as int).drop_first() =~= a@.skip(i + 1));
        assert(b@.skip(i as int).drop_first() =~= b@.skip(i + 1));
        i = i + 1;
    }
}

/// Stable insertion of a pair by its name.
pub open spec fn insert_by_name(s: Seq<(Seq<char>, Seq<char>)>, x: (Seq<char>, Seq<char>)) -> Seq<(Seq<char>, Seq<char>)>
    decreases s.len(),
{
    if s.len() == 0 {
        seq![x]
    } else if lex_le(s.last().0, x.0) {
        s.push(x)
    } else {
        insert_by_name(s.drop_last(), x).push(s.last())
    }
}

/// Forwarded pairs in environment order.
pub open spec fn forwarded_pairs(vars: Seq<(Seq<char>, Seq<char>)>) -> Seq<(Seq<char>, Seq<char>)>
    decreases vars.len(),
{
    if vars.len() == 0 {
        seq![]
    } else {
        let rest = forwarded_pairs(vars.drop_last());
        match forwarded_name(vars.last().0, vars.last().1) {
            Some(n) => rest.push((n, vars.last().1)),
            None => rest,
        }
    }
}

/// Stable sort by name (`sort_by` on the names).
pub open spec fn sort_by_name(s: Seq<(Seq<char>, Seq<char>)>) -> Seq<(Seq<char>, Seq<char>)>
    decreases s.len(),
{
    if s.len() == 0 {
        seq![]
    } else {
        insert_by_name(sort_by_name(s.drop_last()), s.last())
    }
}

pub open spec fn reserved_name(n: Seq<char>) -> bool {
    n == "HOME"@ || n == "USER"@ || n == "SHELL"@ || n == "PATH"@ || n == "TERM"@ || n == "PWD"@
}

/// `-e <NAME>=<VALUE>` for each forwarded pair in name order, reserved names skipped.
pub open spec fn prefixed_args_of(pairs: Seq<(Seq<char>, Seq<char>)>) -> Seq<Seq<char>>
    decreases pairs.len(),
{
    if pairs.len() == 0 {
        seq![]
    } else {
        let rest = prefixed_args_of(pairs.drop_last());
        let p = pairs.last();
        if reserved_name(p.0) {
            rest
        } else {
            rest + seq!["-e"@, p.0 + "="@ + p.1]
        }
    }
}

pub open spec fn prefixed_env_args_spec(vars: Seq<(Seq<char>, Seq<char>)>) -> Seq<Seq<char>> {
    prefixed_args_of(sort_by_name(forwarded_pairs(vars)))
}

fn forwarded_name_exec(key: &str, val: &str) -> (r: Option<String>)
    ensures
        match r {
            Some(n) => forwarded_name(key@, val@) == Some(n@),
            None => forwarded_name(key@, val@) is None,
        },
{
    let cs = str_chars(key);
    let pre = str_chars("AIFO_ENV_");
    proof {
        reveal_strlit("AIFO_ENV_");
    }
    if !crate::text::starts_with(cs.as_slice(), pre.as_slice()) {
        return None;
    }
    let n = cs.len();
    let name = slice_to_vec(cs.as_slice(), 9, n);
    assert(name@ =~= key@.skip(9));
    if name.len() == 0 || val.is_empty() {
        return None;
    }
    let mut i: usize = 0;
    while i < name.len()
        invariant
            i <= name@.len(),
            name@ == key@.skip(9),
            forall|j: int| 0 <= j < i ==> env_name_char(#[trigger] name@[j]),
        decreases name@.len() - i,
    {
        let c = name[i];
        if !(('A' <= c && c <= 'Z') || ('a' <= c && c <= 'z') || ('0' <= c && c <= '9') || c == '_') {
            assert(!env_name_char(name@[i as int]));
            assert(!(forall|j: int| 0 <= j < name@.len() ==> env_name_char(#[trigger] name@[j])));
            return None;
        }
        i = i + 1;
    }
    Some(string_from_chars(name.as_slice()))
}

fn insert_pair(v: &mut Vec<(String, String)>, x: (String, String))
    ensures
        pairs_view(final(v)@) == insert_by_name(pairs_view(old(v)@), (x.0@, x.1@)),
{
    let ghost xv = (x.0@, x.1@);
    let xk = str_chars(x.0.as_str());
    let mut k: usize = v.len();
    assert(v@.take(k as int) =~= v@);
    assert(pairs_view(v@.skip(k as int)) =~= seq![]);
    assert(insert_by_name(pairs_view(v@), xv) + seq![] =~= insert_by_name(pairs_view(v@), xv));
    while k > 0 && !lex_le_exec(str_chars(v[k - 1].0.as_str()).as_slice(), xk.as_slice())
        invariant
            k <= v@.len(),
            v@ == old(v)@,
            xk@ == x.0@,
            insert_by_name(pairs_view(old(v)@), xv) == insert_by_name(pairs_view(v@.take(k as int)), xv) + pairs_view(
                v@.skip(k as int),
            ),
            xv == (x.0@, x.1@),
        decreases k,
    {
        proof {
            let pre = pairs_view(v@.take(k as int));
            assert(pre.drop_last() =~= pairs_view(v@.take(k - 1)));
            assert(pre.last() == (v@[k - 1].0@, v@[k - 1].1@));
            assert(pairs_view(v@.skip(k - 1)) =~= seq![(v@[k - 1].0@, v@[k - 1].1@)] + pairs_view(v@.skip(k as int)));
            assert(insert_by_name(pre, xv) == insert_by_name(pairs_view(v@.take(k - 1)), xv).push(pre.last()));
            assert(insert_by_name(pairs_view(v@.take(k - 1)), xv).push(pre.last()) + pairs_view(v@.skip(k as int))
                =~= insert_by_name(pairs_view(v@.take(k - 1)), xv) + pairs_view(v@.skip(k - 1)));
        }
        k = k - 1;
    }
    proof {
        let pre = pairs_view(v@.take(k as int));
        if k > 0 {
            assert(pre.last() == (v@[k - 1].0@, v@[k - 1].1@));
        }
        assert(insert_by_name(pre, xv) =~= pre.push(xv));
    }
    v.insert(k, x);
    assert(pairs_view(v@) =~= pairs_view(old(v)@.take(k as int)).push(xv) + pairs_view(old(v)@.skip(k as int)));
}

/// Docker `-e` arguments for the `AIFO_ENV_<NAME>` variables among `vars`.
pub fn prefixed_env_args(vars: &Vec<(String, String)>) -> (args: Vec<String>)
    ensures
        strings_view(args@) == prefixed_env_args_spec(pairs_view(vars@)),
{
    let mut sorted: Vec<(String, String)> = Vec::new();
    let ghost mut fwd: Seq<(Seq<char>, Seq<char>)> = seq![];
    let mut i: usize = 0;
    while i < vars.len()
        invariant
            i <= vars@.len(),
            fwd == forwarded_pairs(pairs_view(vars@).take(i as int)),
            pairs_view(sorted@) == sort_by_name(fwd),
        decreases vars@.len() - i,
    {
        assert(pairs_view(vars@).take(i + 1).drop_last() =~= pairs_view(vars@).take(i as int));
        assert(pairs_view(vars@).take(i + 1).last() == (vars@[i as int].0@, vars@[i as int].1@));
        match forwarded_name_exec(vars[i].0.as_str(), vars[i].1.as_str()) {
            Some(n) => {
                let x = (n, vars[i].1.clone());
                proof {
                    let xv = (x.0@, x.1@);
                    assert(fwd.push(xv).drop_last() =~= fwd);
                    fwd = fwd.push(xv);
                }
                insert_pair(&mut sorted, x);
            },
            None => {},
        }
        i = i + 1;
    }
    assert(pairs_view(vars@).take(vars@.len() as int) =~= pairs_view(vars@));
    let mut args: Vec<String> = Vec::new();
    let mut k: usize = 0;
    while k < sorted.len()
        invariant
            k <= sorted@.len(),
            strings_view(args@) == prefixed_args_of(pairs_view(sorted@).take(k as int)),
        decreases sorted@.len() - k,
    {
        assert(pairs_view(sorted@).take(k + 1).drop_last() =~= pairs_view(sorted@).take(k as int));
        assert(pairs_view(sorted@).take(k + 1).last() == (sorted@[k as int].0@, sorted@[k as int].1@));
        let name = sorted[k].0.as_str();
        let reserved = str_eq(name, "HOME") || str_eq(name, "USER") || str_eq(name, "SHELL") || str_eq(name, "PATH")
            || str_eq(name, "TERM") || str_eq(name, "PWD");
        if !reserved {
            push_env_kv(&mut args, name, sorted[k].1.as_str());
        }
        k = k + 1;
    }
    assert(pairs_view(sorted@).take(sorted@.len() as int) =~= pairs_view(sorted@));
    args
}

/// Non-blank trimmed parts.
pub open spec fn nonblank_trimmed(parts: Seq<Seq<char>>) -> Seq<Seq<char>>
    decreases parts.len(),
{
    if parts.len() == 0 {
        seq![]
    } else {
        let rest = nonblank_trimmed(parts.drop_last());
        let t = trim_spec(parts.last());
        if t.len() > 0 {
            rest.push(t)
        } else {
            rest
        }
    }
}

/// The staging directories of `AIFO_CONFIG_STAGING_DIRS`: `:`-separated, trimmed,
/// blanks skipped; nothing for an empty value.
pub open spec fn split_paths_spec(v: Seq<char>) -> Seq<Seq<char>> {
    if v.len() == 0 {
        seq![]
    } else {
        nonblank_trimmed(crate::text::split_char_spec(v, ':'))
    }
}

pub fn split_paths_env(v: &str) -> (out: Vec<String>)
    ensures
        strings_view(out@) == split_paths_spec(v@),
{
    let mut out: Vec<String> = Vec::new();
    if v.is_empty() {
        return out;
    }
    let cs = str_chars(v);
    let parts = crate::text::split_char(&cs, ':');
    let mut i: usize = 0;
    while i < parts.len()
        invariant
            i <= parts@.len(),
            seqs_view(parts@) == crate::text::split_char_spec(v@, ':'),
            strings_view(out@) == nonblank_trimmed(seqs_view(parts@).take(i as int)),
        decreases parts@.len() - i,
    {
        assert(seqs_view(parts@).take(i + 1).drop_last() =~= seqs_view(parts@).take(i as int));
        assert(seqs_view(parts@).take(i + 1).last() == parts@[i as int]@);
        let t = trim(parts[i].as_slice());
        if t.len() > 0 {
            crate::escape::push_string_item(&mut out, string_from_chars(t.as_slice()));
        }
        i = i + 1;
    }
    assert(seqs_view(parts@).take(parts@.len() as int) =~= seqs_view(parts@));
    out
}

/// The registry host of a qualified reference: its first component when that
/// contains `.` or `:` or is `localhost`.
pub open spec fn registry_host_spec(image: Seq<char>) -> Option<Seq<char>> {
    if crate::registry::explicit_registry_spec(image) {
        Some(image.take(char_pos(image, '/', 0)))
    } else {
        None
    }
}

pub fn parse_registry_host(image: &str) -> (r: Option<String>)
    ensures
        match r {
            Some(h) => registry_host_spec(image@) == Some(h@),
            None => registry_host_spec(image@) is None,
        },
{
    let cs = str_chars(image);
    proof {
        lemma_char_pos(cs@, '/', 0);
    }
    let k = char_pos_exec(cs.as_slice(), '/', 0);
    if k >= cs.len() {
        return None;
    }
    let first = slice_to_vec(cs.as_slice(), 0, k);
    let lh = str_chars("localhost");
    if crate::text::has_char(first.as_slice(), '.') || crate::text::has_char(first.as_slice(), ':') || chars_eq(
        first.as_slice(),
        lh.as_slice(),
    ) {
        Some(string_from_chars(first.as_slice()))
    } else {
        None
    }
}

/// Set or replace the tag of a reference (any digest dropped).
pub fn set_image_tag(image: &str, new_tag: &str) -> (out: String)
    ensures
        out@ == retag_spec(image@, new_tag@),
{
    retag_image(image, new_tag)
}

/// The `:latest` candidate of a reference: cut at its last `:` when that follows
/// the last `/` (or when there is no `/`), digest dropped.
pub open spec fn latest_candidate_spec(image: Seq<char>) -> Seq<char> {
    let base = before_at(image);
    let without = match (rfind_char_spec(base, '/'), rfind_char_spec(base, ':')) {
        (Some(slash), Some(colon)) => if colon > slash {
            base.take(colon)
        } else {
            base
        },
        (None, Some(colon)) => base.take(colon),
        _ => base,
    };
    without + ":latest"@
}

pub fn local_latest_candidate(image: &str) -> (out: String)
    ensures
        out@ == latest_candidate_spec(image@),
{
    let cs = str_chars(image);
    proof {
        lemma_char_pos(cs@, '@', 0);
    }
    let at = char_pos_exec(cs.as_slice(), '@', 0);
    let base = slice_to_vec(cs.as_slice(), 0, at);
    proof {
        lemma_rfind_char(base@, '/');
        lemma_rfind_char(base@, ':');
    }
    let slash = rfind_char(base.as_slice(), '/');
    let colon = rfind_char(base.as_slice(), ':');
    let without: Vec<char> = match (slash, colon) {
        (Some(sl), Some(co)) => if co > sl {
            slice_to_vec(base.as_slice(), 0, co)
        } else {
            base.clone()
        },
        (None, Some(co)) => slice_to_vec(base.as_slice(), 0, co),
        _ => base.clone(),
    };
    let mut out = string_from_chars(without.as_slice());
    out.push_str(":latest");
    out
}

/// Agent image overrides: a non-blank `AIFO_CODER_AGENT_IMAGE` (trimmed) replaces
/// the image, else a non-blank `AIFO_CODER_AGENT_TAG`, else a non-blank `AIFO_TAG`
/// retags it.
pub open spec fn override_image_spec(
    image: Seq<char>,
    agent_image: Option<Seq<char>>,
    agent_tag: Option<Seq<char>>,
    global_tag: Option<Seq<char>>,
) -> Seq<char> {
    let nb = |v: Option<Seq<char>>| v is Some && trim_spec(v.unwrap()).len() > 0;
    if nb(agent_image) {
        trim_spec(agent_image.unwrap())
    } else if nb(agent_tag) {
        retag_spec(image, trim_spec(agent_tag.unwrap()))
    } else if nb(global_tag) {
        retag_spec(image, trim_spec(global_tag.unwrap()))
    } else {
        image
    }
}

fn nonblank(v: &Option<String>) -> (r: Option<String>)
    ensures
        match r {
            Some(t) => opt_string_view(*v) is Some && t@ == trim_spec(opt_string_view(*v).unwrap()) && t@.len() > 0,
            None => !(opt_string_view(*v) is Some && trim_spec(opt_string_view(*v).unwrap()).len() > 0),
        },
{
    match v {
        Some(s) => {
            let cs = str_chars(s.as_str());
            let t = trim(cs.as_slice());
            if t.len() > 0 {
                Some(string_from_chars(t.as_slice()))
            } else {
                None
            }
        },
        None => None,
    }
}

pub fn maybe_override_agent_image(
    image: &str,
    agent_image: &Option<String>,
    agent_tag: &Option<String>,
    global_tag: &Option<String>,
) -> (out: String)
    ensures
        out@ == override_image_spec(
            image@,
            opt_string_view(*agent_image),
            opt_string_view(*agent_tag),
            opt_string_view(*global_tag),
        ),
{
    match nonblank(agent_image) {
        Some(t) => {
            return t;
        },
        None => {},
    }
    match nonblank(agent_tag) {
        Some(t) => {
            return set_image_tag(image, t.as_str());
        },
        None => {},
    }
    match nonblank(global_tag) {
        Some(t) => {
            return set_image_tag(image, t.as_str());
        },
        None => {},
    }
    image.to_owned()
}

/// The repository name of a reference: the last component, without digest or tag.
pub open spec fn tail_repo_spec(image: Seq<char>) -> Seq<char> {
    let last = last_component(before_at(image));
    last.take(char_pos(last, ':', 0))
}

pub fn tail_repo(image: &str) -> (s: String)
    ensures
        s@ == tail_repo_spec(image@),
{
    let cs = str_chars(image);
    proof {
        lemma_char_pos(cs@, '@', 0);
    }
    let at = char_pos_exec(cs.as_slice(), '@', 0);
    let base = slice_to_vec(cs.as_slice(), 0, at);
    proof {
        lemma_rfind_char(base@, '/');
    }
    let last: Vec<char> = match rfind_char(base.as_slice(), '/') {
        Some(k) => {
            let n = base.len();
            assert(rfind_char_spec(base@, '/') == Some(k as int));
            assert(k < n);
            let v = slice_to_vec(base.as_slice(), k + 1, n);
            assert(v@ =~= base@.skip(k + 1));
            v
        },
        None => base,
    };
    proof {
        lemma_char_pos(last@, ':', 0);
    }
    let c = char_pos_exec(last.as_slice(), ':', 0);
    let t = slice_to_vec(last.as_slice(), 0, c);
    string_from_chars(t.as_slice())
}

/// Local images tried before pulling, in order (unless local images are ignored):
/// `<repo>:latest`, `<repo>:<release tag>`, and the same two under the internal prefix
/// when there is one.
pub open spec fn local_candidates_spec(repo: Seq<char>, rel_tag: Seq<char>, internal: Seq<char>) -> Seq<Seq<char>> {
    seq![repo + ":latest"@, repo + ":"@ + rel_tag] + if internal.len() == 0 {
        seq![]
    } else {
        seq![internal + repo + ":latest"@, internal + repo + ":"@ + rel_tag]
    }
}

pub fn local_candidates(repo: &str, rel_tag: &str, internal: &str) -> (v: Vec<String>)
    ensures
        strings_view(v@) == local_candidates_spec(repo@, rel_tag@, internal@),
{
    let mut a = repo.to_owned();
    a.push_str(":latest");
    let mut b = repo.to_owned();
    b.push_str(":");
    b.push_str(rel_tag);
    let mut v = vec![a, b];
    if !internal.is_empty() {
        let mut c = internal.to_owned();
        c.push_str(repo);
        c.push_str(":latest");
        let mut d = internal.to_owned();
        d.push_str(repo);
        d.push_str(":");
        d.push_str(rel_tag);
        crate::escape::push_string_item(&mut v, c);
        crate::escape::push_string_item(&mut v, d);
    }
    assert(strings_view(v@) =~= local_candidates_spec(repo@, rel_tag@, internal@));
    v
}

/// The default image of an agent before any local or registry choice:
/// `<prefix>-<agent>[-slim]:<tag>`.
pub open spec fn default_image_name_spec(prefix: Seq<char>, agent: Seq<char>, slim: bool, tag: Seq<char>) -> Seq<char> {
    prefix + "-"@ + agent + (if slim {
        "-slim"@
    } else {
        seq![]
    }) + ":"@ + tag
}

pub fn default_image_name(prefix: &str, agent: &str, slim: bool, tag: &str) -> (s: String)
    ensures
        s@ == default_image_name_spec(prefix@, agent@, slim, tag@),
{
    let mut s = prefix.to_owned();
    s.push_str("-");
    s.push_str(agent);
    if slim {
        s.push_str("-slim");
    }
    s.push_str(":");
    s.push_str(tag);
    proof {
        reveal_strlit("-slim");
    }
    s
}

/// Output of a failed pull that asks for a login.
pub open spec fn looks_like_auth_error_spec(combined: Seq<char>) -> bool {
    let c = lower_spec(combined);
    contains_spec(c, "pull access denied"@) || contains_spec(c, "permission denied"@) || contains_spec(
        c,
        "authentication required"@,
    ) || contains_spec(c, "unauthorized"@) || contains_spec(c, "requested access to the resource is denied"@)
        || contains_spec(c, "may require 'docker login'"@) || contains_spec(c, "requires 'docker login'"@)
}

fn has(c: &Vec<char>, p: &str) -> (b: bool)
    ensures
        b == contains_spec(c@, p@),
{
    let pc = str_chars(p);
    crate::text::contains(c.as_slice(), pc.as_slice())
}

pub fn looks_like_auth_error(stdout: &str, stderr: &str) -> (b: bool)
    ensures
        b == looks_like_auth_error_spec(stdout@ + "\n"@ + stderr@),
{
    let mut all = stdout.to_owned();
    all.push_str("\n");
    all.push_str(stderr);
    let cs = str_chars(all.as_str());
    let c = to_lower(cs.as_slice());
    has(&c, "pull access denied") || has(&c, "permission denied") || has(&c, "authentication required") || has(
        &c,
        "unauthorized",
    ) || has(&c, "requested access to the resource is denied") || has(&c, "may require 'docker login'") || has(
        &c,
        "requires 'docker login'",
    )
}

/// The Docker Hub reference tried after a qualified pull failed: the last component
/// without its tag, with the tag of the reference (`latest` when it has none).
pub open spec fn hub_fallback_spec(image: Seq<char>) -> Option<Seq<char>> {
    if registry_host_spec(image) is None {
        None
    } else {
        let base = before_at(image);
        let tag = match rfind_char_spec(base, ':') {
            Some(k) => base.skip(k + 1),
            None => "latest"@,
        };
        let tail = last_component(image);
        Some(tail.take(char_pos(tail, ':', 0)) + ":"@ + tag)
    }
}

pub fn hub_fallback(image: &str) -> (r: Option<String>)
    ensures
        match r {
            Some(s) => hub_fallback_spec(image@) == Some(s@),
            None => hub_fallback_spec(image@) is None,
        },
{
    if parse_registry_host(image).is_none() {
        return None;
    }
    let cs = str_chars(image);
    proof {
        lemma_char_pos(cs@, '@', 0);
    }
    let at = char_pos_exec(cs.as_slice(), '@', 0);
    let base = slice_to_vec(cs.as_slice(), 0, at);
    proof {
        lemma_rfind_char(base@, ':');
        lemma_rfind_char(cs@, '/');
    }
    let tag: Vec<char> = match rfind_char(base.as_slice(), ':') {
        Some(k) => {
            let n = base.len();
            assert(rfind_char_spec(base@, ':') == Some(k as int));
            assert(k < n);
            let v = slice_to_vec(base.as_slice(), k + 1, n);
            assert(v@ =~= base@.skip(k + 1));
            v
        },
        None => str_chars("latest"),
    };
    let tail: Vec<char> = match rfind_char(cs.as_slice(), '/') {
        Some(k) => {
            let n = cs.len();
            assert(rfind_char_spec(cs@, '/') == Some(k as int));
            assert(k < n);
            let v = slice_to_vec(cs.as_slice(), k + 1, n);
            assert(v@ =~= cs@.skip(k + 1));
            v
        },
        None => cs.clone(),
    };
    proof {
        lemma_char_pos(tail@, ':', 0);
    }
    let c = char_pos_exec(tail.as_slice(), ':', 0);
    let name = slice_to_vec(tail.as_slice(), 0, c);
    let mut s = string_from_chars(name.as_slice());
    s.push_str(":");
    crate::text::push_chars(&mut s, tag.as_slice());
    Some(s)
}

/// Arguments of `docker login` for a reference: the registry host when qualified.
pub open spec fn login_args_spec(image: Seq<char>) -> Seq<Seq<char>> {
    seq!["login"@] + match registry_host_spec(image) {
        Some(h) => seq![h],
        None => seq![],
    }
}

pub fn login_args(image: &str) -> (v: Vec<String>)
    ensures
        strings_view(v@) == login_args_spec(image@),
{
    let mut v = vec!["login".to_owned()];
    match parse_registry_host(image) {
        Some(h) => {
            crate::escape::push_string_item(&mut v, h);
        },
        None => {},
    }
    assert(strings_view(v@) =~= login_args_spec(image@));
    v
}

/// The notice before a quiet pull.
pub fn pull_notice(agent_label: Option<&str>, image: &str) -> (s: String)
    ensures
        s@ == match crate::lock::opt_view(agent_label) {
            Some(n) => "aifo-coder: pulling agent image ["@ + n + "]: "@ + image@,
            None => "aifo-coder: pulling agent image: "@ + image@,
        },
{
    match agent_label {
        Some(n) => {
            let mut s = "aifo-coder: pulling agent image [".to_owned();
            s.push_str(n);
            s.push_str("]: ");
            s.push_str(image);
            s
        },
        None => {
            let mut s = "aifo-coder: pulling agent image: ".to_owned();
            s.push_str(image);
            s
        },
    }
}

/// The notice before a quiet pull, as text.
pub open spec fn pull_notice_spec(agent_label: Option<Seq<char>>, image: Seq<char>) -> Seq<char> {
    match agent_label {
        Some(n) => "aifo-coder: pulling agent image ["@ + n + "]: "@ + image,
        None => "aifo-coder: pulling agent image: "@ + image,
    }
}

/// What a pull with automatic login is waiting for.
pub enum PullState {
    /// Nothing done yet.
    Start,
    /// The first pull of the reference.
    First,
    /// A second, captured pull whose output tells whether to log in (verbose runs).
    Diagnose,
    /// `docker login`.
    Login,
    /// The pull after a successful login.
    Retry,
    /// The pull of the Docker Hub fallback reference.
    Hub(String),
    /// Done: the last action was the outcome.
    Finished,
}

/// What the runtime answered.
pub enum PullEvent {
    /// The session begins.
    Started,
    /// A pull ended: whether it succeeded, its captured output (empty when not
    /// captured) and its exit code (`-1` when it has none).
    Pulled { ok: bool, stdout: String, stderr: String, code: i32 },
    /// `docker login` ended, successfully or not.
    LoggedIn(bool),
}

/// What to do next.
pub enum PullAction {
    /// Run `docker pull <image>`, capturing its output or letting it show.
    Pull { image: String, capture: bool },
    /// Run the runtime with these arguments (`login` and maybe a host).
    Login(Vec<String>),
    /// The image is there.
    Succeed,
    /// Give up with this error (a permission error, or another kind).
    Fail { permission_denied: bool, message: String },
}

/// The fixed inputs of one pull session.
pub struct PullConfig {
    pub image: String,
    pub agent_label: Option<String>,
    /// `--verbose`, or `AIFO_CODER_VERBOSE=1`.
    pub verbose: bool,
    /// `AIFO_CODER_AUTO_LOGIN` is not `0`.
    pub auto_login: bool,
    /// stdin is a terminal.
    pub interactive: bool,
}

/// One step: the next state, a line to log first (if any) and the action.
pub struct PullStep {
    pub state: PullState,
    pub log: Option<String>,
    pub action: PullAction,
}

pub enum PullStateView {
    Start,
    First,
    Diagnose,
    Login,
    Retry,
    Hub(Seq<char>),
    Finished,
}

pub enum PullEventView {
    Started,
    Pulled(bool, Seq<char>, Seq<char>, i32),
    LoggedIn(bool),
}

pub enum PullActionView {
    Pull(Seq<char>, bool),
    Login(Seq<Seq<char>>),
    Succeed,
    Fail(bool, Seq<char>),
}

pub open spec fn pull_state_view(s: PullState) -> PullStateView {
    match s {
        PullState::Start => PullStateView::Start,
        PullState::First => PullStateView::First,
        PullState::Diagnose => PullStateView::Diagnose,
        PullState::Login => PullStateView::Login,
        PullState::Retry => PullStateView::Retry,
        PullState::Hub(u) => PullStateView::Hub(u@),
        PullState::Finished => PullStateView::Finished,
    }
}

pub open spec fn pull_event_view(e: PullEvent) -> PullEventView {
    match e {
        PullEvent::Started => PullEventView::Started,
        PullEvent::Pulled { ok, stdout, stderr, code } => PullEventView::Pulled(ok, stdout@, stderr@, code),
        PullEvent::LoggedIn(ok) => PullEventView::LoggedIn(ok),
    }
}

pub open spec fn pull_action_view(a: PullAction) -> PullActionView {
    match a {
        PullAction::Pull { image, capture } => PullActionView::Pull(image@, capture),
        PullAction::Login(args) => PullActionView::Login(strings_view(args@)),
        PullAction::Succeed => PullActionView::Succeed,
        PullAction::Fail { permission_denied, message } => PullActionView::Fail(permission_denied, message@),
    }
}

/// The event answers what the state waits for.
pub open spec fn pull_event_fits(st: PullStateView, ev: PullEventView) -> bool {
    match st {
        PullStateView::Start => ev is Started,
        PullStateView::Login => ev is LoggedIn,
        PullStateView::Finished => false,
        _ => ev is Pulled,
    }
}

pub open spec fn pull_log_spec(image: Seq<char>) -> Seq<char> {
    "aifo-coder: docker: docker pull "@ + image
}

/// The line logged before `docker login`.
pub open spec fn login_log_spec(verbose: bool, image: Seq<char>) -> Seq<char> {
    let head = if verbose {
        "aifo-coder: docker: docker login"@
    } else {
        "aifo-coder: docker login"@
    };
    match registry_host_spec(image) {
        Some(h) => head + " "@ + h,
        None => head,
    }
}

/// After a failed pull whose output is known: log in when that is allowed and the
/// output asks for it, else try the Docker Hub reference, else fail.
pub open spec fn after_failed_pull(
    image: Seq<char>,
    verbose: bool,
    auto_login: bool,
    interactive: bool,
    stdout: Seq<char>,
    stderr: Seq<char>,
    code: i32,
) -> (PullStateView, Option<Seq<char>>, PullActionView) {
    if auto_login && interactive && looks_like_auth_error_spec(stdout + "\n"@ + stderr) {
        (PullStateView::Login, Some(login_log_spec(verbose, image)), PullActionView::Login(login_args_spec(image)))
    } else {
        match hub_fallback_spec(image) {
            Some(u) => (
                PullStateView::Hub(u),
                if verbose { Some(pull_log_spec(u)) } else { None },
                PullActionView::Pull(u, !verbose),
            ),
            None => (
                PullStateView::Finished,
                None,
                PullActionView::Fail(
                    true,
                    if verbose {
                        "docker pull failed"@
                    } else {
                        "docker pull failed (status "@ + crate::text::int_dec_spec(code as int) + ")"@
                    },
                ),
            ),
        }
    }
}

/// The transition of a pull with automatic login. Verbose runs let each pull show
/// and capture a second pull to read the error; quiet runs announce the pull once
/// and capture every pull.
pub open spec fn pull_step_spec(
    image: Seq<char>,
    agent_label: Option<Seq<char>>,
    verbose: bool,
    auto_login: bool,
    interactive: bool,
    st: PullStateView,
    ev: PullEventView,
) -> (PullStateView, Option<Seq<char>>, PullActionView) {
    match (st, ev) {
        (PullStateView::Start, _) => if verbose {
            (PullStateView::First, Some(pull_log_spec(image)), PullActionView::Pull(image, false))
        } else {
            (PullStateView::First, Some(pull_notice_spec(agent_label, image)), PullActionView::Pull(image, true))
        },
        (PullStateView::First, PullEventView::Pulled(ok, out, err, code)) => if ok {
            (PullStateView::Finished, None, PullActionView::Succeed)
        } else if verbose {
            (PullStateView::Diagnose, None, PullActionView::Pull(image, true))
        } else {
            after_failed_pull(image, verbose, auto_login, interactive, out, err, code)
        },
        (PullStateView::Diagnose, PullEventView::Pulled(_, out, err, code)) =>
            after_failed_pull(image, verbose, auto_login, interactive, out, err, code),
        (PullStateView::Login, PullEventView::LoggedIn(ok)) => if !ok {
            (PullStateView::Finished, None, PullActionView::Fail(true, "docker login failed"@))
        } else {
            (
                PullStateView::Retry,
                if verbose { None } else { Some("aifo-coder: retrying pull after login"@) },
                PullActionView::Pull(image, !verbose),
            )
        },
        (PullStateView::Retry, PullEventView::Pulled(ok, _, _, _)) => if ok {
            (PullStateView::Finished, None, PullActionView::Succeed)
        } else {
            (PullStateView::Finished, None, PullActionView::Fail(true, "docker pull failed after login"@))
        },
        (PullStateView::Hub(u), PullEventView::Pulled(ok, _, _, _)) => if ok {
            (PullStateView::Finished, None, PullActionView::Succeed)
        } else {
            (
                PullStateView::Finished,
                None,
                PullActionView::Fail(!verbose, "docker pull failed; tried: "@ + image + ", "@ + u),
            )
        },
        _ => (PullStateView::Finished, None, PullActionView::Succeed),
    }
}

/// Without automatic login, or without a terminal on stdin, a pull never runs
/// `docker login`.
pub proof fn lemma_no_login_without_consent(
    image: Seq<char>,
    agent_label: Option<Seq<char>>,
    verbose: bool,
    auto_login: bool,
    interactive: bool,
    st: PullStateView,
    ev: PullEventView,
)
    requires
        !auto_login || !interactive,
        !(st is Login),
    ensures
        !(pull_step_spec(image, agent_label, verbose, auto_login, interactive, st, ev).2 is Login),
        !(pull_step_spec(image, agent_label, verbose, auto_login, interactive, st, ev).0 is Login),
{
}

fn opt_clone(v: &Option<String>) -> (r: Option<&str>)
    ensures
        crate::lock::opt_view(r) == opt_string_view(*v),
{
    match v {
        Some(s) => Some(s.as_str()),
        None => None,
    }
}

fn login_log(verbose: bool, image: &str) -> (s: String)
    ensures
        s@ == login_log_spec(verbose, image@),
{
    let mut s = if verbose {
        "aifo-coder: docker: docker login".to_owned()
    } else {
        "aifo-coder: docker login".to_owned()
    };
    match parse_registry_host(image) {
        Some(h) => {
            s.push_str(" ");
            s.push_str(h.as_str());
        },
        None => {},
    }
    s
}

fn pull_log(image: &str) -> (s: String)
    ensures
        s@ == pull_log_spec(image@),
{
    let mut s = "aifo-coder: docker: docker pull ".to_owned();
    s.push_str(image);
    s
}

fn after_failed_pull_exec(cfg: &PullConfig, stdout: &str, stderr: &str, code: i32) -> (r: PullStep)
    ensures
        (pull_state_view(r.state), opt_string_view(r.log), pull_action_view(r.action)) == after_failed_pull(
            cfg.image@,
            cfg.verbose,
            cfg.auto_login,
            cfg.interactive,
            stdout@,
            stderr@,
            code,
        ),
{
    let image = cfg.image.as_str();
    if cfg.auto_login && cfg.interactive && looks_like_auth_error(stdout, stderr) {
        return PullStep {
            state: PullState::Login,
            log: Some(login_log(cfg.verbose, image)),
            action: PullAction::Login(login_args(image)),
        };
    }
    match hub_fallback(image) {
        Some(u) => {
            let log = if cfg.verbose {
                Some(pull_log(u.as_str()))
            } else {
                None
            };
            let uc = u.clone();
            PullStep { state: PullState::Hub(u), log, action: PullAction::Pull { image: uc, capture: !cfg.verbose } }
        },
        None => {
            let message = if cfg.verbose {
                "docker pull failed".to_owned()
            } else {
                let mut m = "docker pull failed (status ".to_owned();
                m.push_str(crate::text::i32_to_string(code).as_str());
                m.push_str(")");
                m
            };
            PullStep {
                state: PullState::Finished,
                log: None,
                action: PullAction::Fail { permission_denied: true, message },
            }
        },
    }
}

fn finished(action: PullAction) -> (r: PullStep)
    ensures
        r.state is Finished,
        r.log is None,
        r.action == action,
{
    PullStep { state: PullState::Finished, log: None, action }
}

/// One step of pulling an image: on a failed pull whose output asks for a login,
/// and where automatic login is on and stdin is a terminal, run `docker login` and
/// retry once; else try the Docker Hub reference of a qualified image; else fail.
/// The caller runs each action and answers with what came of it.
pub fn pull_image_with_autologin(cfg: &PullConfig, state: &PullState, event: &PullEvent) -> (r: PullStep)
    requires
        pull_event_fits(pull_state_view(*state), pull_event_view(*event)),
    ensures
        (pull_state_view(r.state), opt_string_view(r.log), pull_action_view(r.action)) == pull_step_spec(
            cfg.image@,
            opt_string_view(cfg.agent_label),
            cfg.verbose,
            cfg.auto_login,
            cfg.interactive,
            pull_state_view(*state),
            pull_event_view(*event),
        ),
{
    let image = cfg.image.as_str();
    match state {
        PullState::Start => {
            if cfg.verbose {
                PullStep {
                    state: PullState::First,
                    log: Some(pull_log(image)),
                    action: PullAction::Pull { image: cfg.image.clone(), capture: false },
                }
            } else {
                PullStep {
                    state: PullState::First,
                    log: Some(pull_notice(opt_clone(&cfg.agent_label), image)),
                    action: PullAction::Pull { image: cfg.image.clone(), capture: true },
                }
            }
        },
        PullState::First => match event {
            PullEvent::Pulled { ok, stdout, stderr, code } => {
                if *ok {
                    finished(PullAction::Succeed)
                } else if cfg.verbose {
                    PullStep {
                        state: PullState::Diagnose,
                        log: None,
                        action: PullAction::Pull { image: cfg.image.clone(), capture: true },
                    }
                } else {
                    after_failed_pull_exec(cfg, stdout.as_str(), stderr.as_str(), *code)
                }
            },
            _ => finished(PullAction::Succeed),
        },
        PullState::Diagnose => match event {
            PullEvent::Pulled { ok: _, stdout, stderr, code } => after_failed_pull_exec(
                cfg,
                stdout.as_str(),
                stderr.as_str(),
                *code,
            ),
            _ => finished(PullAction::Succeed),
        },
        PullState::Login => match event {
            PullEvent::LoggedIn(ok) => {
                if !*ok {
                    finished(PullAction::Fail { permission_denied: true, message: "docker login failed".to_owned() })
                } else {
                    let log = if cfg.verbose {
                        None
                    } else {
                        Some("aifo-coder: retrying pull after login".to_owned())
                    };
                    PullStep {
                        state: PullState::Retry,
                        log,
                        action: PullAction::Pull { image: cfg.image.clone(), capture: !cfg.verbose },
                    }
                }
            },
            _ => finished(PullAction::Succeed),
        },
        PullState::Retry => match event {
            PullEvent::Pulled { ok, .. } => {
                if *ok {
                    finished(PullAction::Succeed)
                } else {
                    finished(
                        PullAction::Fail {
                            permission_denied: true,
                            message: "docker pull failed after login".to_owned(),
                        },
                    )
                }
            },
            _ => finished(PullAction::Succeed),
        },
        PullState::Hub(u) => match event {
            PullEvent::Pulled { ok, .. } => {
                if *ok {
                    finished(PullAction::Succeed)
                } else {
                    let mut m = "docker pull failed; tried: ".to_owned();
                    m.push_str(image);
                    m.push_str(", ");
                    m.push_str(u.as_str());
                    finished(PullAction::Fail { permission_denied: !cfg.verbose, message: m })
                }
            },
            _ => finished(PullAction::Succeed),
        },
        PullState::Finished => finished(PullAction::Succeed),
    }
}

/// The runtime answered `answer` for whether `image` is present locally.
pub open spec fn local_answer<E: Fn(&str) -> bool>(is_local: E, image: Seq<char>, answer: bool) -> bool {
    exists|i: &str| i@ == image && #[trigger] call_ensures(is_local, (i,), answer)
}

/// What `compute_effective_agent_image_for_run` may give: the first local candidate
/// (see `local_candidates_spec`) that the runtime reports present, when a runtime is
/// there and local images are not ignored; otherwise the reference qualified by
/// `resolve_image`.
pub open spec fn effective_image<E: Fn(&str) -> bool, I: Fn() -> String, M: Fn() -> String>(
    base_image: Seq<char>,
    rel_tag: Seq<char>,
    internal: Seq<char>,
    runtime: bool,
    ignore_local: bool,
    is_local: E,
    internal_prefix: I,
    mirror_prefix: M,
    out: Seq<char>,
) -> bool {
    let cands = local_candidates_spec(tail_repo_spec(base_image), rel_tag, internal);
    ||| (runtime && !ignore_local && exists|k: int|
        0 <= k < cands.len() && out == cands[k] && #[trigger] local_answer(is_local, cands[k], true) && forall|j: int|
            0 <= j < k ==> #[trigger] local_answer(is_local, cands[j], false))
    ||| ((!runtime || ignore_local || forall|j: int| 0 <= j < cands.len() ==> #[trigger] local_answer(is_local, cands[j], false))
        && crate::registry::resolves_to(base_image, internal_prefix, mirror_prefix, out))
}

/// The image a run uses, after the environment overrides gave `base_image`: a local
/// `<repo>:latest`, `<repo>:<release tag>` or their internally qualified forms
/// (`internal` is the internal registry prefix), in that order, when one is present
/// and local images are not ignored; otherwise the reference qualified for a pull.
pub fn compute_effective_agent_image_for_run<E: Fn(&str) -> bool, I: Fn() -> String, M: Fn() -> String>(
    base_image: &str,
    rel_tag: &str,
    internal: &str,
    runtime: bool,
    ignore_local: bool,
    is_local: E,
    internal_prefix: I,
    mirror_prefix: M,
) -> (out: String)
    requires
        forall|i: &str| call_requires(is_local, (i,)),
        call_requires(internal_prefix, ()),
        call_requires(mirror_prefix, ()),
    ensures
        effective_image(base_image@, rel_tag@, internal@, runtime, ignore_local, is_local, internal_prefix, mirror_prefix, out@),
{
    let repo = tail_repo(base_image);
    let cands = local_candidates(repo.as_str(), rel_tag, internal);
    let ghost cv = local_candidates_spec(tail_repo_spec(base_image@), rel_tag@, internal@);
    assert(strings_view(cands@) == cv);
    if runtime && !ignore_local {
        let mut i: usize = 0;
        while i < cands.len()
            invariant
                i <= cands@.len(),
                runtime && !ignore_local,
                cv == local_candidates_spec(tail_repo_spec(base_image@), rel_tag@, internal@),
                strings_view(cands@) == cv,
                forall|i: &str| call_requires(is_local, (i,)),
                forall|j: int| 0 <= j < i ==> #[trigger] local_answer(is_local, cv[j], false),
            decreases cands@.len() - i,
        {
            let c = cands[i].as_str();
            let present = is_local(c);
            assert(cv[i as int] == cands@[i as int]@);
            assert(local_answer(is_local, cv[i as int], present));
            if present {
                let out = cands[i].clone();
                assert(runtime && !ignore_local && 0 <= i < cv.len() && out@ == cv[i as int] && local_answer(
                    is_local,
                    cv[i as int],
                    true,
                ));
                assert(exists|k: int|
                    0 <= k < cv.len() && out@ == cv[k] && #[trigger] local_answer(is_local, cv[k], true) && forall|j: int|
                        0 <= j < k ==> #[trigger] local_answer(is_local, cv[j], false));
                return out;
            }
            i = i + 1;
        }
    }
    crate::registry::resolve_image(base_image, internal_prefix, mirror_prefix)
}

/// The `pane-*` directories of a session among its entries (name, path, whether it
/// is a directory), in the order given.
pub open spec fn pane_dirs_spec(entries: Seq<(String, String, bool)>) -> Seq<Seq<char>>
    decreases entries.len(),
{
    if entries.len() == 0 {
        seq![]
    } else {
        let rest = pane_dirs_spec(entries.drop_last());
        let e = entries.last();
        if e.2 && starts_with_spec(e.0@, "pane-"@) {
            rest.push(e.1@)
        } else {
            rest
        }
    }
}

pub fn pane_dirs_for_session(entries: &Vec<(String, String, bool)>) -> (v: Vec<String>)
    ensures
        strings_view(v@) == pane_dirs_spec(entries@),
{
    let mut v: Vec<String> = Vec::new();
    let mut i: usize = 0;
    let pre = str_chars("pane-");
    while i < entries.len()
        invariant
            i <= entries@.len(),
            pre@ == "pane-"@,
            strings_view(v@) == pane_dirs_spec(entries@.take(i as int)),
        decreases entries@.len() - i,
    {
        assert(entries@.take(i + 1).drop_last() =~= entries@.take(i as int));
        let e = &entries[i];
        let name = str_chars(e.0.as_str());
        if e.2 && crate::text::starts_with(name.as_slice(), pre.as_slice()) {
            crate::escape::push_str_item(&mut v, e.1.as_str());
        }
        i = i + 1;
    }
    assert(entries@.take(entries@.len() as int) =~= entries@);
    v
}

/// A trimmed environment value when it is not blank.
pub open spec fn env_trim_spec(v: Option<Seq<char>>) -> Option<Seq<char>> {
    match v {
        Some(x) => if trim_spec(x).len() > 0 {
            Some(trim_spec(x))
        } else {
            None
        },
        None => None,
    }
}

fn env_trim(v: &Option<String>) -> (r: Option<String>)
    ensures
        opt_string_view(r) == env_trim_spec(opt_string_view(*v)),
{
    match v {
        Some(x) => {
            let cs = str_chars(x.as_str());
            let t = trim(cs.as_slice());
            if t.len() > 0 {
                Some(string_from_chars(t.as_slice()))
            } else {
                None
            }
        },
        None => None,
    }
}

/// The environment an agent's default image is composed from.
pub struct ImageEnv {
    /// `AIFO_CODER_IMAGE`.
    pub image: Option<String>,
    /// `AIFO_CODER_IMAGE_PREFIX`.
    pub prefix: Option<String>,
    /// `AIFO_CODER_IMAGE_TAG`.
    pub image_tag: Option<String>,
    /// `AIFO_TAG`.
    pub global_tag: Option<String>,
    /// `AIFO_CODER_IMAGE_FLAVOR`.
    pub flavor: Option<String>,
}

/// `<prefix>-<agent>[-slim]:<tag>`: the prefix defaults to `aifo-coder`, the tag is
/// `AIFO_CODER_IMAGE_TAG`, else `AIFO_TAG`, else `release-<version>`; `-slim` when
/// the flavor is `slim` in any case.
pub open spec fn composed_image_spec(env: ImageEnv, agent: Seq<char>, version: Seq<char>) -> Seq<char> {
    let prefix = match env.prefix {
        Some(p) => p@,
        None => "aifo-coder"@,
    };
    let tag = match env_trim_spec(opt_string_view(env.image_tag)) {
        Some(t) => t,
        None => match env_trim_spec(opt_string_view(env.global_tag)) {
            Some(t) => t,
            None => "release-"@ + version,
        },
    };
    let slim = match env.flavor {
        Some(f) => lower_spec(trim_spec(f@)) == "slim"@,
        None => false,
    };
    default_image_name_spec(prefix, agent, slim, tag)
}

/// The default image of an agent: `AIFO_CODER_IMAGE` when set; else the composed
/// name, as it is when it holds a `/`; else, unless the internal registry was set
/// explicitly, the name or its `:latest` form when present locally; else the name
/// under the internal registry prefix (when there is one).
pub open spec fn default_image_spec<E: Fn(&str) -> bool, R: Fn() -> String>(
    env: ImageEnv,
    agent: Seq<char>,
    version: Seq<char>,
    explicit_internal: bool,
    is_local: E,
    internal_prefix: R,
    out: Seq<char>,
) -> bool {
    let img = composed_image_spec(env, agent, version);
    let latest = latest_candidate_spec(img);
    match env_trim_spec(opt_string_view(env.image)) {
        Some(x) => out == x,
        None => if img.contains('/') {
            out == img
        } else {
            ||| (!explicit_internal && local_answer(is_local, img, true) && out == img)
            ||| (!explicit_internal && local_answer(is_local, img, false) && local_answer(is_local, latest, true)
                && out == latest)
            ||| ((explicit_internal || (local_answer(is_local, img, false) && local_answer(is_local, latest, false)))
                && exists|p: String| #[trigger] call_ensures(internal_prefix, (), p) && out == p@ + img)
        },
    }
}

pub fn default_image_for<E: Fn(&str) -> bool, R: Fn() -> String>(
    env: &ImageEnv,
    agent: &str,
    version: &str,
    explicit_internal: bool,
    is_local: E,
    internal_prefix: R,
) -> (out: String)
    requires
        forall|i: &str| call_requires(is_local, (i,)),
        call_requires(internal_prefix, ()),
    ensures
        default_image_spec(*env, agent@, version@, explicit_internal, is_local, internal_prefix, out@),
{
    match env_trim(&env.image) {
        Some(x) => {
            return x;
        },
        None => {},
    }
    let prefix = match &env.prefix {
        Some(p) => p.clone(),
        None => "aifo-coder".to_owned(),
    };
    let tag = match env_trim(&env.image_tag) {
        Some(t) => t,
        None => match env_trim(&env.global_tag) {
            Some(t) => t,
            None => {
                let mut t = "release-".to_owned();
                t.push_str(version);
                t
            },
        },
    };
    let slim = match &env.flavor {
        Some(f) => {
            let cs = str_chars(f.as_str());
            let t = trim(cs.as_slice());
            let l = to_lower(t.as_slice());
            let w = str_chars("slim");
            chars_eq(l.as_slice(), w.as_slice())
        },
        None => false,
    };
    let img = default_image_name(prefix.as_str(), agent, slim, tag.as_str());
    assert(img@ == composed_image_spec(*env, agent@, version@));
    let ics = str_chars(img.as_str());
    if crate::text::has_char(ics.as_slice(), '/') {
        return img;
    }
    if !explicit_internal {
        let here = is_local(img.as_str());
        assert(local_answer(is_local, img@, here));
        if here {
            return img;
        }
        let latest = local_latest_candidate(img.as_str());
        let here2 = is_local(latest.as_str());
        assert(local_answer(is_local, latest@, here2));
        if here2 {
            return latest;
        }
    }
    let p = internal_prefix();
    assert(call_ensures(internal_prefix, (), p));
    let mut out = p.clone();
    out.push_str(img.as_str());
    out
}


/// The registry host of a reference whose first component (the text before its first
/// `/`) holds a `:` (a `host:port` registry) or a `.`, or is `localhost`, is that
/// whole component.
pub proof fn lemma_host_port_registry_host(image: Seq<char>, k: int)
    requires
        0 <= k < image.len(),
        image[k] == '/',
        forall|j: int| 0 <= j < k ==> image[j] != '/',
        (exists|j: int| 0 <= j < k && (image[j] == ':' || image[j] == '.')) || image.take(k) == "localhost"@,
    ensures
        registry_host_spec(image) == Some(image.take(k)),
{
    crate::registry::lemma_first_component_host_port(image, k);
}

proof fn lemma_line_names_aifo(list: Seq<char>, k: int)
    requires
        0 <= k < lines_spec(list).len(),
        starts_with_spec(trim_spec(lines_spec(list)[k]), "aifo-coder "@),
    ensures
        profile_available_spec("aifo-coder"@, Some(list), true),
{
    reveal_strlit("aifo-coder ");
    reveal_strlit("aifo-coder");
    reveal_strlit(" ");
    assert("aifo-coder"@ + " "@ =~= "aifo-coder "@);
    let n = "aifo-coder"@;
    assert(names_profile(lines_spec(list)[k], n));
    let o: Option<Seq<char>> = Some(list);
    assert(o is Some && o->0 == list);
    assert(profile_available_spec(n, o, true) == (exists|j: int|
        0 <= j < lines_spec(list).len() && #[trigger] names_profile(lines_spec(list)[j], n)));
}

/// On Linux, with AppArmor usable and no profile asked for in the environment,
/// `aifo-coder` is chosen whenever the loaded-profiles list has a line that, trimmed,
/// starts with `aifo-coder `; `docker-default` is chosen only when no line does.
pub proof fn lemma_aifo_profile_preferred(list: Seq<char>)
    ensures
        (exists|k: int|
            0 <= k < lines_spec(list).len() && starts_with_spec(trim_spec(#[trigger] lines_spec(list)[k]), "aifo-coder "@))
            ==> desired_profile_spec(true, None, HostOs::Linux, Some(list)) == Some("aifo-coder"@),
        desired_profile_spec(true, None, HostOs::Linux, Some(list)) == Some("docker-default"@) ==> forall|k: int|
            0 <= k < lines_spec(list).len() ==> !starts_with_spec(trim_spec(#[trigger] lines_spec(list)[k]), "aifo-coder "@),
{
    reveal_strlit("aifo-coder");
    reveal_strlit("docker-default");
    assert("aifo-coder"@.len() != "docker-default"@.len());
    if exists|k: int|
        0 <= k < lines_spec(list).len() && starts_with_spec(trim_spec(#[trigger] lines_spec(list)[k]), "aifo-coder "@) {
        let k = choose|k: int|
            0 <= k < lines_spec(list).len() && starts_with_spec(trim_spec(#[trigger] lines_spec(list)[k]), "aifo-coder "@);
        lemma_line_names_aifo(list, k);
    }
}

} // verus!
