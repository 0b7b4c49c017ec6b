//! What `doctor` reports: Docker security options read from `docker info`, the
//! AppArmor verdict, and the aligned rows of the report.
use vstd::prelude::*;

use crate::color::paint_spec;
use crate::escape::strings_view;
use crate::text::{
    chars_eq, join_spec, lower_spec, push_chars, str_chars, string_from_chars, to_lower, trim, trim_spec,
    starts_with_spec, contains_spec, slice_to_vec,
};

verus! {

/// The contents of the double-quoted strings of a JSON string array, with
/// backslash escapes reduced to the escaped character.
pub open spec fn string_items_scan(cs: Seq<char>, in_str: bool, esc: bool, buf: Seq<char>) -> Seq<Seq<char>>
    decreases cs.len(),
{
    if cs.len() == 0 {
        seq![]
    } else {
        let c = cs[0];
        let rest = cs.drop_first();
        if in_str {
            if esc {
                string_items_scan(rest, true, false, buf.push(c))
            } else if c == '\\' {
                string_items_scan(rest, true, true, buf)
            } else if c == '"' {
                seq![buf] + string_items_scan(rest, false, false, seq![])
            } else {
                string_items_scan(rest, true, false, buf.push(c))
            }
        } else if c == '"' {
            string_items_scan(rest, true, esc, buf)
        } else {
            string_items_scan(rest, false, esc, buf)
        }
    }
}

pub open spec fn security_items_spec(raw: Seq<char>) -> Seq<Seq<char>> {
    string_items_scan(trim_spec(raw), false, false, seq![])
}

/// The strings of `docker info --format '{{json .SecurityOptions}}'` (trimmed first).
pub fn security_option_items(raw: &str) -> (items: Vec<String>)
    ensures
        strings_view(items@) == security_items_spec(raw@),
{
    let cs0 = str_chars(raw);
    let cs = trim(cs0.as_slice());
    let mut items: Vec<String> = Vec::new();
    let mut in_str = false;
    let mut esc = false;
    let mut buf: Vec<char> = Vec::new();
    let mut i: usize = 0;
    assert(cs@.skip(0) =~= cs@);
    assert(strings_view(items@) + string_items_scan(cs@, false, false, seq![]) =~= string_items_scan(cs@, false, false, seq![]));
    while i < cs.len()
        invariant
            i <= cs@.len(),
            strings_view(items@) + string_items_scan(cs@.skip(i as int), in_str, esc, buf@) == security_items_spec(raw@),
            cs@ == trim_spec(raw@),
        decreases cs@.len() - i,
    {
        let ghost before = strings_view(items@) + string_items_scan(cs@.skip(i as int), in_str, esc, buf@);
        assert(cs@.skip(i as int).drop_first() =~= cs@.skip(i + 1));
        assert(cs@.skip(i as int)[0] == cs@[i as int]);
        let ch = cs[i];
        if in_str {
            if esc {
                buf.push(ch);
                esc = false;
            } else if ch == '\\' {
                esc = true;
            } else if ch == '"' {
                let s = string_from_chars(buf.as_slice());
                crate::escape::push_string_item(&mut items, s);
                proof {
                    assert(strings_view(items@) + string_items_scan(cs@.skip(i + 1), false, false, seq![]) =~= before);
                }
                buf = Vec::new();
                in_str = false;
            } else {
                buf.push(ch);
            }
        } else if ch == '"' {
            in_str = true;
        }
        i = i + 1;
    }
    assert(cs@.skip(cs@.len() as int) =~= Seq::<char>::empty());
    assert(strings_view(items@) + seq![] =~= strings_view(items@));
    items
}

/// Split at every `,` (`str::split`).
pub open spec fn split_commas(s: Seq<char>) -> Seq<Seq<char>>
    decreases s.len(),
{
    let k = crate::text::char_pos(s, ',', 0);
    if k >= s.len() {
        seq![s]
    } else {
        proof {
            crate::text::lemma_char_pos(s, ',', 0);
        }
        seq![s.take(k)] + split_commas(s.skip(k + 1))
    }
}

fn split_commas_exec(s: &Vec<char>) -> (parts: Vec<Vec<char>>)
    ensures
        crate::text::seqs_view(parts@) == split_commas(s@),
    decreases s@.len(),
{
    proof {
        crate::text::lemma_char_pos(s@, ',', 0);
    }
    let k = crate::text::char_pos_exec(s.as_slice(), ',', 0);
    if k >= s.len() {
        let v = vec![s.clone()];
        assert(crate::text::seqs_view(v@) =~= seq![s@]);
        return v;
    }
    let head = slice_to_vec(s.as_slice(), 0, k);
    let tail = slice_to_vec(s.as_slice(), k + 1, s.len());
    assert(tail@ =~= s@.skip(k + 1));
    let rest = split_commas_exec(&tail);
    let mut v = vec![head];
    let ghost hv = crate::text::seqs_view(v@);
    let mut j: usize = 0;
    while j < rest.len()
        invariant
            j <= rest@.len(),
            crate::text::seqs_view(v@) == hv + crate::text::seqs_view(rest@).take(j as int),
        decreases rest@.len() - j,
    {
        let ghost pre = crate::text::seqs_view(v@);
        v.push(rest[j].clone());
        assert(crate::text::seqs_view(v@) =~= pre.push(rest@[j as int]@));
        assert(crate::text::seqs_view(rest@).take(j + 1) =~= crate::text::seqs_view(rest@).take(j as int).push(rest@[j as int]@));
        j = j + 1;
    }
    assert(crate::text::seqs_view(rest@).take(rest@.len() as int) =~= crate::text::seqs_view(rest@));
    assert(crate::text::seqs_view(v@) =~= split_commas(s@));
    v
}

/// The value of the first part `<key>=<value>` of an option, by key prefix.
pub open spec fn first_with_prefix(parts: Seq<Seq<char>>, prefix: Seq<char>) -> Option<Seq<char>>
    decreases parts.len(),
{
    if parts.len() == 0 {
        None
    } else if starts_with_spec(parts[0], prefix) {
        Some(parts[0].skip(prefix.len() as int))
    } else {
        first_with_prefix(parts.drop_first(), prefix)
    }
}

fn first_with_prefix_exec(parts: &Vec<Vec<char>>, prefix: &Vec<char>) -> (r: Option<Vec<char>>)
    ensures
        match r {
            Some(v) => first_with_prefix(crate::text::seqs_view(parts@), prefix@) == Some(v@),
            None => first_with_prefix(crate::text::seqs_view(parts@), prefix@) is None,
        },
{
    let mut k: usize = 0;
    assert(crate::text::seqs_view(parts@).skip(0) =~= crate::text::seqs_view(parts@));
    while k < parts.len()
        invariant
            k <= parts@.len(),
            first_with_prefix(crate::text::seqs_view(parts@), prefix@) == first_with_prefix(
                crate::text::seqs_view(parts@).skip(k as int),
                prefix@,
            ),
        decreases parts@.len() - k,
    {
        assert(crate::text::seqs_view(parts@).skip(k as int)[0] == parts@[k as int]@);
        assert(crate::text::seqs_view(parts@).skip(k as int).drop_first() =~= crate::text::seqs_view(parts@).skip(k + 1));
        if crate::text::starts_with(parts[k].as_slice(), prefix.as_slice()) {
            let v = slice_to_vec(parts[k].as_slice(), prefix.len(), parts[k].len());
            assert(v@ =~= parts@[k as int]@.skip(prefix@.len() as int));
            return Some(v);
        }
        k = k + 1;
    }
    assert(crate::text::seqs_view(parts@).skip(k as int) =~= Seq::<Seq<char>>::empty());
    None
}

/// Parts of an option other than `name=...`, in order.
pub open spec fn non_name_parts(parts: Seq<Seq<char>>) -> Seq<Seq<char>>
    decreases parts.len(),
{
    if parts.len() == 0 {
        seq![]
    } else {
        let rest = non_name_parts(parts.drop_last());
        if starts_with_spec(parts.last(), "name="@) {
            rest
        } else {
            rest.push(parts.last())
        }
    }
}

/// The last `name=` value of an option.
pub open spec fn last_name(parts: Seq<Seq<char>>) -> Option<Seq<char>>
    decreases parts.len(),
{
    if parts.len() == 0 {
        None
    } else if starts_with_spec(parts.last(), "name="@) {
        Some(parts.last().skip(5))
    } else {
        last_name(parts.drop_last())
    }
}

/// An option as shown: its name, with the other attributes in brackets.
pub open spec fn pretty_option_spec(item: Seq<char>) -> Seq<char> {
    let parts = split_commas(item);
    match last_name(parts) {
        Some(n) => if non_name_parts(parts).len() == 0 {
            n
        } else {
            n + " ("@ + join_spec(non_name_parts(parts), ", "@) + ")"@
        },
        None => item,
    }
}

pub fn pretty_security_option(item: &str) -> (s: String)
    ensures
        s@ == pretty_option_spec(item@),
{
    let cs = str_chars(item);
    let parts = split_commas_exec(&cs);
    let pre = str_chars("name=");
    let mut name: Option<Vec<char>> = None;
    let mut attrs: Vec<String> = Vec::new();
    let mut k: usize = 0;
    proof {
        reveal_strlit("name=");
    }
    while k < parts.len()
        invariant
            k <= parts@.len(),
            pre@ == "name="@,
            pre@.len() == 5,
            crate::text::seqs_view(parts@) == split_commas(item@),
            match name {
                Some(n) => last_name(crate::text::seqs_view(parts@).take(k as int)) == Some(n@),
                None => last_name(crate::text::seqs_view(parts@).take(k as int)) is None,
            },
            strings_view(attrs@) == non_name_parts(crate::text::seqs_view(parts@).take(k as int)),
        decreases parts@.len() - k,
    {
        assert(crate::text::seqs_view(parts@).take(k + 1).drop_last() =~= crate::text::seqs_view(parts@).take(k as int));
        assert(crate::text::seqs_view(parts@).take(k + 1).last() == parts@[k as int]@);
        if crate::text::starts_with(parts[k].as_slice(), pre.as_slice()) {
            let v = slice_to_vec(parts[k].as_slice(), 5, parts[k].len());
            assert(v@ =~= parts@[k as int]@.skip(5));
            name = Some(v);
        } else {
            crate::escape::push_string_item(&mut attrs, string_from_chars(parts[k].as_slice()));
        }
        k = k + 1;
    }
    assert(crate::text::seqs_view(parts@).take(parts@.len() as int) =~= crate::text::seqs_view(parts@));
    match name {
        Some(n) => {
            let mut s = string_from_chars(n.as_slice());
            if attrs.len() > 0 {
                s.push_str(" (");
                s.push_str(crate::escape::join_strings(&attrs, ", ").as_str());
                s.push_str(")");
            }
            s
        },
        None => item.to_owned(),
    }
}

/// The options line: the shown options joined by `, `, or `(none)`.
pub open spec fn security_options_line_spec(items: Seq<Seq<char>>) -> Seq<char> {
    if items.len() == 0 {
        "(none)"@
    } else {
        join_spec(items.map_values(|i: Seq<char>| pretty_option_spec(i)), ", "@)
    }
}

pub fn security_options_line(items: &Vec<String>) -> (s: String)
    ensures
        s@ == security_options_line_spec(strings_view(items@)),
{
    if items.len() == 0 {
        return "(none)".to_owned();
    }
    let mut pretty: Vec<String> = Vec::new();
    let mut i: usize = 0;
    while i < items.len()
        invariant
            i <= items@.len(),
            strings_view(pretty@) == strings_view(items@).take(i as int).map_values(|x: Seq<char>| pretty_option_spec(x)),
        decreases items@.len() - i,
    {
        crate::escape::push_string_item(&mut pretty, pretty_security_option(items[i].as_str()));
        assert(strings_view(items@).take(i + 1).map_values(|x: Seq<char>| pretty_option_spec(x)) =~= strings_view(
            items@,
        ).take(i as int).map_values(|x: Seq<char>| pretty_option_spec(x)).push(pretty_option_spec(items@[i as int]@)));
        i = i + 1;
    }
    assert(strings_view(items@).take(items@.len() as int) =~= strings_view(items@));
    crate::escape::join_strings(&pretty, ", ")
}

/// Some option contains `needle`.
pub open spec fn any_contains(items: Seq<Seq<char>>, needle: Seq<char>) -> bool {
    exists|k: int| 0 <= k < items.len() && #[trigger] contains_spec(items[k], needle)
}

/// The value of `<key>=` in the first option naming `marker`, `(unknown)` when absent.
pub open spec fn option_value(items: Seq<Seq<char>>, marker: Seq<char>, key: Seq<char>) -> Seq<char>
    decreases items.len(),
{
    if items.len() == 0 {
        "(unknown)"@
    } else if contains_spec(items[0], marker) {
        match first_with_prefix(split_commas(items[0]), key) {
            Some(v) => v,
            None => "(unknown)"@,
        }
    } else {
        option_value(items.drop_first(), marker, key)
    }
}

pub(crate) fn any_contains_exec(items: &Vec<String>, needle: &str) -> (b: bool)
    ensures
        b == any_contains(strings_view(items@), needle@),
{
    let n = str_chars(needle);
    let mut k: usize = 0;
    while k < items.len()
        invariant
            k <= items@.len(),
            n@ == needle@,
            forall|j: int| 0 <= j < k ==> !#[trigger] contains_spec(strings_view(items@)[j], needle@),
        decreases items@.len() - k,
    {
        let cs = str_chars(items[k].as_str());
        assert(strings_view(items@)[k as int] == items@[k as int]@);
        if crate::text::contains(cs.as_slice(), n.as_slice()) {
            return true;
        }
        k = k + 1;
    }
    false
}

pub(crate) fn option_value_exec(items: &Vec<String>, marker: &str, key: &str) -> (s: String)
    ensures
        s@ == option_value(strings_view(items@), marker@, key@),
{
    let m = str_chars(marker);
    let kc = str_chars(key);
    let mut k: usize = 0;
    assert(strings_view(items@).skip(0) =~= strings_view(items@));
    while k < items.len()
        invariant
            k <= items@.len(),
            m@ == marker@,
            kc@ == key@,
            option_value(strings_view(items@), marker@, key@) == option_value(strings_view(items@).skip(k as int), marker@, key@),
        decreases items@.len() - k,
    {
        assert(strings_view(items@).skip(k as int)[0] == items@[k as int]@);
        assert(strings_view(items@).skip(k as int).drop_first() =~= strings_view(items@).skip(k + 1));
        let cs = str_chars(items[k].as_str());
        if crate::text::contains(cs.as_slice(), m.as_slice()) {
            let parts = split_commas_exec(&cs);
            return match first_with_prefix_exec(&parts, &kc) {
                Some(v) => string_from_chars(v.as_slice()),
                None => "(unknown)".to_owned(),
            };
        }
        k = k + 1;
    }
    assert(strings_view(items@).skip(k as int) =~= Seq::<Seq<char>>::empty());
    "(unknown)".to_owned()
}

/// The security details line: AppArmor reported, the seccomp profile, the cgroup
/// namespace mode, rootless mode.
pub open spec fn security_details_spec(items: Seq<Seq<char>>) -> Seq<char> {
    let yn = |b: bool| if b { "yes"@ } else { "no"@ };
    "  docker security details: AppArmor="@ + yn(any_contains(items, "apparmor"@)) + ", Seccomp="@ + option_value(
        items,
        "name=seccomp"@,
        "profile="@,
    ) + ", cgroupns="@ + option_value(items, "name=cgroupns"@, "mode="@) + ", rootless="@ + yn(
        any_contains(items, "rootless"@),
    )
}

pub fn security_details_line(items: &Vec<String>) -> (s: String)
    ensures
        s@ == security_details_spec(strings_view(items@)),
{
    let apparmor = any_contains_exec(items, "apparmor");
    let rootless = any_contains_exec(items, "rootless");
    let mut s = "  docker security details: AppArmor=".to_owned();
    s.push_str(if apparmor { "yes" } else { "no" });
    s.push_str(", Seccomp=");
    s.push_str(option_value_exec(items, "name=seccomp", "profile=").as_str());
    s.push_str(", cgroupns=");
    s.push_str(option_value_exec(items, "name=cgroupns", "mode=").as_str());
    s.push_str(", rootless=");
    s.push_str(if rootless { "yes" } else { "no" });
    s
}

/// Verbose tips about the daemon: AppArmor not reported; seccomp unconfined.
pub open spec fn security_tips_spec(items: Seq<Seq<char>>) -> Seq<Seq<char>> {
    (if !any_contains(items, "apparmor"@) {
        seq![
            "    tip: AppArmor not reported by Docker. On Linux, enable the AppArmor kernel module and ensure Docker is built with AppArmor support."@,
        ]
    } else {
        seq![]
    }) + (if lower_spec(option_value(items, "name=seccomp"@, "profile="@)) == "unconfined"@ {
        seq![
            "    tip: Docker daemon seccomp profile is 'unconfined'. Consider switching to the default seccomp profile for better isolation."@,
        ]
    } else {
        seq![]
    })
}

pub fn security_tips(items: &Vec<String>) -> (v: Vec<String>)
    ensures
        strings_view(v@) == security_tips_spec(strings_view(items@)),
{
    let mut v: Vec<String> = Vec::new();
    if !any_contains_exec(items, "apparmor") {
        crate::escape::push_str_item(
            &mut v,
            "    tip: AppArmor not reported by Docker. On Linux, enable the AppArmor kernel module and ensure Docker is built with AppArmor support.",
        );
    }
    let sc = option_value_exec(items, "name=seccomp", "profile=");
    let scc = str_chars(sc.as_str());
    let low = to_lower(scc.as_slice());
    let unc = str_chars("unconfined");
    if chars_eq(low.as_slice(), unc.as_slice()) {
        crate::escape::push_str_item(
            &mut v,
            "    tip: Docker daemon seccomp profile is 'unconfined'. Consider switching to the default seccomp profile for better isolation.",
        );
    }
    assert(strings_view(v@) =~= security_tips_spec(strings_view(items@)));
    v
}

/// The AppArmor verdict from inside a container: `skipped` without AppArmor support,
/// `unknown` when nothing was read, `FAIL` when unconfined, else `PASS` unless an
/// expected profile is not the prefix of what is active (`WARN`).
pub open spec fn apparmor_status_spec(supported: bool, current: Seq<char>, expected: Option<Seq<char>>) -> Seq<char> {
    if !supported {
        "skipped"@
    } else if current == "(unknown)"@ || current.len() == 0 {
        "unknown"@
    } else if current == "unconfined"@ {
        "FAIL"@
    } else {
        match expected {
            Some(p) => if starts_with_spec(current, p) {
                "PASS"@
            } else {
                "WARN"@
            },
            None => "PASS"@,
        }
    }
}

pub fn apparmor_status(supported: bool, current: &str, expected: Option<&str>) -> (s: &'static str)
    ensures
        s@ == apparmor_status_spec(supported, current@, crate::lock::opt_view(expected)),
{
    if !supported {
        return "skipped";
    }
    if crate::text::str_eq(current, "(unknown)") || current.is_empty() {
        return "unknown";
    }
    if crate::text::str_eq(current, "unconfined") {
        return "FAIL";
    }
    match expected {
        Some(p) => {
            let c = str_chars(current);
            let pc = str_chars(p);
            if crate::text::starts_with(c.as_slice(), pc.as_slice()) {
                "PASS"
            } else {
                "WARN"
            }
        },
        None => "PASS",
    }
}

/// Every leading `Docker version ` removed (`trim_start_matches`).
pub open spec fn strip_docker_version(s: Seq<char>) -> Seq<char>
    decreases s.len(),
{
    if "Docker version "@.len() > 0 && starts_with_spec(s, "Docker version "@) {
        strip_docker_version(s.skip("Docker version "@.len() as int))
    } else {
        s
    }
}

/// The version shown: trimmed `docker --version` output without its prefix.
pub fn docker_version_pretty(raw: &str) -> (s: String)
    ensures
        s@ == strip_docker_version(trim_spec(raw@)),
{
    let cs = str_chars(raw);
    let t = trim(cs.as_slice());
    let pre = str_chars("Docker version ");
    proof {
        reveal_strlit("Docker version ");
    }
    let mut k: usize = 0;
    let tn = t.len();
    assert(t@.skip(0) =~= t@);
    while crate::text::match_at_exec(t.as_slice(), pre.as_slice(), k)
        invariant
            k <= t@.len(),
            tn == t@.len(),
            pre@ == "Docker version "@,
            pre@.len() == 15,
            strip_docker_version(t@) == strip_docker_version(t@.skip(k as int)),
        decreases t@.len() - k,
    {
        assert(t@.skip(k as int).subrange(0, 15) =~= t@.subrange(k as int, k + 15));
        assert(t@.skip(k as int).skip(15) =~= t@.skip(k + 15));
        assert(k + 15 <= tn);
        k = k + 15;
    }
    proof {
        assert(!starts_with_spec(t@.skip(k as int), "Docker version "@)) by {
            if t@.skip(k as int).len() >= 15 {
                assert(t@.skip(k as int).subrange(0, 15) =~= t@.subrange(k as int, k + 15));
            }
        }
    }
    let n = t.len();
    let v = slice_to_vec(t.as_slice(), k, n);
    assert(v@ =~= t@.skip(k as int));
    string_from_chars(v.as_slice())
}

/// The registry shown: `Docker Hub` for the empty prefix, else the prefix without
/// its trailing slashes.
pub open spec fn registry_display_spec(prefix: Seq<char>) -> Seq<char> {
    if prefix.len() == 0 {
        "Docker Hub"@
    } else {
        crate::text::trim_end_char_spec(prefix, '/')
    }
}

pub fn registry_display(prefix: &str) -> (s: String)
    ensures
        s@ == registry_display_spec(prefix@),
{
    if prefix.is_empty() {
        return "Docker Hub".to_owned();
    }
    let cs = str_chars(prefix);
    let t = crate::text::trim_end_char(cs.as_slice(), '/');
    string_from_chars(t.as_slice())
}

/// `n` spaces.
pub open spec fn spaces(n: nat) -> Seq<char> {
    Seq::new(n, |i: int| ' ')
}

/// Left-aligned in a field of `w` characters (`{:<w}`).
pub open spec fn pad_right(s: Seq<char>, w: nat) -> Seq<char> {
    if s.len() < w {
        s + spaces((w - s.len()) as nat)
    } else {
        s
    }
}

fn push_spaces(out: &mut String, n: usize)
    ensures
        final(out)@ == old(out)@ + spaces(n as nat),
{
    let mut i: usize = 0;
    while i < n
        invariant
            i <= n,
            out@ == old(out)@ + spaces(i as nat),
        decreases n - i,
    {
        out.push(' ');
        i = i + 1;
        assert(out@ =~= old(out)@ + spaces(i as nat));
    }
}

fn push_padded(out: &mut String, s: &str, w: usize)
    ensures
        final(out)@ == old(out)@ + pad_right(s@, w as nat),
{
    let cs = str_chars(s);
    out.push_str(s);
    if cs.len() < w {
        push_spaces(out, w - cs.len());
    }
    assert(out@ =~= old(out)@ + pad_right(s@, w as nat));
}

/// A path under the home directory shown with `~`.
pub open spec fn home_shown_spec(path: Seq<char>, home: Seq<char>) -> Seq<char> {
    if starts_with_spec(path, home) {
        "~"@ + path.skip(home.len() as int)
    } else {
        path
    }
}

pub fn home_shown(path: &str, home: &str) -> (s: String)
    ensures
        s@ == home_shown_spec(path@, home@),
{
    let p = str_chars(path);
    let h = str_chars(home);
    if crate::text::starts_with(p.as_slice(), h.as_slice()) {
        let n = p.len();
        let rest = slice_to_vec(p.as_slice(), h.len(), n);
        assert(rest@ =~= path@.skip(home@.len() as int));
        let mut s = "~".to_owned();
        push_chars(&mut s, rest.as_slice());
        s
    } else {
        path.to_owned()
    }
}

pub open spec fn found_cell(exists: bool, use_color: bool) -> Seq<char> {
    if exists {
        paint_spec(use_color, "\x1b[32m"@, "\u{2705} found"@)
    } else {
        paint_spec(use_color, "\x1b[31m"@, "\u{274c} missing"@)
    }
}

/// A row of config/state locations: the label in 16 columns, the path (blue with
/// color) padded to 44 visible columns (at least one space), found or missing.
pub open spec fn path_row_spec(label: Seq<char>, shown: Seq<char>, exists: bool, use_color: bool) -> Seq<char> {
    let pad = if shown.len() < 44 {
        (44 - shown.len()) as nat
    } else {
        1
    };
    "  "@ + pad_right(label, 16) + " "@ + paint_spec(use_color, "\x1b[34;1m"@, shown) + spaces(pad) + " "@ + found_cell(
        exists,
        use_color,
    )
}

pub fn path_row(label: &str, shown: &str, exists: bool, use_color: bool) -> (s: String)
    ensures
        s@ == path_row_spec(label@, shown@, exists, use_color),
{
    let mut s = "  ".to_owned();
    push_padded(&mut s, label, 16);
    s.push_str(" ");
    s.push_str(crate::color::paint(use_color, "\x1b[34;1m", shown).as_str());
    let n = str_chars(shown).len();
    let pad = if n < 44 {
        44 - n
    } else {
        1
    };
    push_spaces(&mut s, pad);
    s.push_str(" ");
    let cell = if exists {
        crate::color::paint(use_color, "\x1b[32m", "\u{2705} found")
    } else {
        crate::color::paint(use_color, "\x1b[31m", "\u{274c} missing")
    };
    s.push_str(cell.as_str());
    s
}

/// An environment row: label in 16 columns, variable name in 44, found or missing.
pub open spec fn env_row_spec(label: Seq<char>, name: Seq<char>, present: bool, use_color: bool) -> Seq<char> {
    "  "@ + pad_right(label, 16) + " "@ + pad_right(name, 44) + " "@ + found_cell(present, use_color)
}

pub fn env_row(label: &str, name: &str, present: bool, use_color: bool) -> (s: String)
    ensures
        s@ == env_row_spec(label@, name@, present, use_color),
{
    let mut s = "  ".to_owned();
    push_padded(&mut s, label, 16);
    s.push_str(" ");
    push_padded(&mut s, name, 44);
    s.push_str(" ");
    let cell = if present {
        crate::color::paint(use_color, "\x1b[32m", "\u{2705} found")
    } else {
        crate::color::paint(use_color, "\x1b[31m", "\u{274c} missing")
    };
    s.push_str(cell.as_str());
    s
}

/// A variable counts as present when set to something other than blanks.
pub open spec fn env_present_spec(v: Option<Seq<char>>) -> bool {
    v is Some && trim_spec(v.unwrap()).len() > 0
}

pub fn env_present(v: &Option<String>) -> (b: bool)
    ensures
        b == env_present_spec(crate::proxy::opt_string_view(*v)),
{
    match v {
        Some(s) => {
            let cs = str_chars(s.as_str());
            trim(cs.as_slice()).len() > 0
        },
        None => false,
    }
}

/// The workspace write-test row.
pub open spec fn workspace_row_spec(writable: bool, use_color: bool) -> Seq<char> {
    if writable {
        "  "@ + pad_right("workspace writable:"@, 16) + " "@ + pad_right(paint_spec(use_color, "\x1b[34;1m"@, "yes"@), 52)
            + " "@ + paint_spec(use_color, "\x1b[32m"@, "\u{2705} workspace ready"@)
    } else {
        "  "@ + pad_right("workspace writable:"@, 16) + " "@ + pad_right(paint_spec(use_color, "\x1b[34;1m"@, "no"@), 44)
            + " "@ + paint_spec(use_color, "\x1b[31m"@, "\u{274c} workspace not writable"@)
    }
}

pub fn workspace_row(writable: bool, use_color: bool) -> (s: String)
    ensures
        s@ == workspace_row_spec(writable, use_color),
{
    let mut s = "  ".to_owned();
    push_padded(&mut s, "workspace writable:", 16);
    s.push_str(" ");
    if writable {
        let v = crate::color::paint(use_color, "\x1b[34;1m", "yes");
        push_padded(&mut s, v.as_str(), 52);
        s.push_str(" ");
        s.push_str(crate::color::paint(use_color, "\x1b[32m", "\u{2705} workspace ready").as_str());
    } else {
        let v = crate::color::paint(use_color, "\x1b[34;1m", "no");
        push_padded(&mut s, v.as_str(), 44);
        s.push_str(" ");
        s.push_str(crate::color::paint(use_color, "\x1b[31m", "\u{274c} workspace not writable").as_str());
    }
    s
}

/// The virtualization line value: on macOS, `Colima VM` when `colima status` says
/// running, else `Docker Desktop or other`; elsewhere `native`. (Lower-casing only
/// matters for ASCII letters here: no other character lower-cases into `running`.)
pub open spec fn virtualization_spec(macos: bool, colima_out: Option<Seq<char>>) -> Seq<char> {
    if !macos {
        "native"@
    } else {
        match colima_out {
            Some(o) => if contains_spec(lower_spec(o), "running"@) {
                "Colima VM"@
            } else {
                "Docker Desktop or other"@
            },
            None => "Docker Desktop or other"@,
        }
    }
}

pub fn virtualization(macos: bool, colima_out: &Option<String>) -> (s: &'static str)
    ensures
        s@ == virtualization_spec(macos, crate::proxy::opt_string_view(*colima_out)),
{
    if !macos {
        return "native";
    }
    match colima_out {
        Some(o) => {
            let cs = str_chars(o.as_str());
            let l = to_lower(cs.as_slice());
            let r = str_chars("running");
            if crate::text::contains(l.as_slice(), r.as_slice()) {
                "Colima VM"
            } else {
                "Docker Desktop or other"
            }
        },
        None => "Docker Desktop or other",
    }
}

/// Arguments of the container run that reads the active AppArmor profile.
pub open spec fn apparmor_probe_args_spec(supported: bool, profile: Option<Seq<char>>, image: Seq<char>) -> Seq<Seq<char>> {
    seq!["run"@, "--rm"@] + (if supported && profile is Some {
        seq!["--security-opt"@, "apparmor="@ + profile.unwrap()]
    } else {
        seq![]
    }) + seq!["--entrypoint"@, "sh"@, image, "-lc"@, "cat /proc/self/attr/apparmor/current 2>/dev/null || echo unconfined"@]
}

pub fn apparmor_probe_args(supported: bool, profile: Option<&str>, image: &str) -> (v: Vec<String>)
    ensures
        strings_view(v@) == apparmor_probe_args_spec(supported, crate::lock::opt_view(profile), image@),
{
    let mut v = vec!["run".to_owned(), "--rm".to_owned()];
    if supported {
        match profile {
            Some(p) => {
                let mut a = "apparmor=".to_owned();
                a.push_str(p);
                crate::escape::push_str_item(&mut v, "--security-opt");
                crate::escape::push_string_item(&mut v, a);
            },
            None => {},
        }
    }
    crate::escape::push_str_item(&mut v, "--entrypoint");
    crate::escape::push_str_item(&mut v, "sh");
    crate::escape::push_str_item(&mut v, image);
    crate::escape::push_str_item(&mut v, "-lc");
    crate::escape::push_str_item(&mut v, "cat /proc/self/attr/apparmor/current 2>/dev/null || echo unconfined");
    assert(strings_view(v@) =~= apparmor_probe_args_spec(supported, crate::lock::opt_view(profile), image@));
    v
}

/// Tips printed in verbose mode for an AppArmor verdict.
pub open spec fn apparmor_tips_spec(status: Seq<char>, linux: bool) -> Seq<Seq<char>> {
    if status == "FAIL"@ {
        if linux {
            seq![
                "    tip: Container is unconfined. Generate and load the profile:"@,
                "    tip:   make apparmor"@,
                "    tip:   sudo apparmor_parser -r -W \"build/apparmor/aifo-coder\""@,
                "    tip: Then re-run with AppArmor enabled."@,
            ]
        } else {
            seq![
                "    tip: Container appears unconfined. Ensure your Docker VM/distribution supports AppArmor and it is enabled."@,
            ]
        }
    } else if status == "WARN"@ {
        seq![
            "    tip: Active AppArmor profile differs from expected. If you set AIFO_CODER_APPARMOR_PROFILE, verify the profile is loaded on the host ('/sys/kernel/security/apparmor/profiles')."@,
        ]
    } else if status == "unknown"@ {
        seq![
            "    tip: Unable to read AppArmor status from container. Ensure 'docker run' works and that /proc/self/attr/apparmor/current is accessible."@,
        ]
    } else {
        seq![]
    }
}

pub fn apparmor_tips(status: &str, linux: bool) -> (v: Vec<String>)
    ensures
        strings_view(v@) == apparmor_tips_spec(status@, linux),
{
    let mut v: Vec<String> = Vec::new();
    if crate::text::str_eq(status, "FAIL") {
        if linux {
            crate::escape::push_str_item(&mut v, "    tip: Container is unconfined. Generate and load the profile:");
            crate::escape::push_str_item(&mut v, "    tip:   make apparmor");
            crate::escape::push_str_item(&mut v, "    tip:   sudo apparmor_parser -r -W \"build/apparmor/aifo-coder\"");
            crate::escape::push_str_item(&mut v, "    tip: Then re-run with AppArmor enabled.");
        } else {
            crate::escape::push_str_item(
                &mut v,
                "    tip: Container appears unconfined. Ensure your Docker VM/distribution supports AppArmor and it is enabled.",
            );
        }
    } else if crate::text::str_eq(status, "WARN") {
        crate::escape::push_str_item(
            &mut v,
            "    tip: Active AppArmor profile differs from expected. If you set AIFO_CODER_APPARMOR_PROFILE, verify the profile is loaded on the host ('/sys/kernel/security/apparmor/profiles').",
        );
    } else if crate::text::str_eq(status, "unknown") {
        crate::escape::push_str_item(
            &mut v,
            "    tip: Unable to read AppArmor status from container. Ensure 'docker run' works and that /proc/self/attr/apparmor/current is accessible.",
        );
    }
    assert(strings_view(v@) =~= apparmor_tips_spec(status@, linux));
    v
}

/// The editors found in an image (`(none)` when the list is empty).
pub open spec fn editors_value_spec(list: Seq<char>, use_color: bool) -> Seq<char> {
    let t = trim_spec(list);
    paint_spec(use_color, "\x1b[34;1m"@, if t.len() == 0 {
        "(none)"@
    } else {
        t
    })
}

pub fn editors_value(list: &str, use_color: bool) -> (s: String)
    ensures
        s@ == editors_value_spec(list@, use_color),
{
    let cs = str_chars(list);
    let t = trim(cs.as_slice());
    let shown = if t.len() == 0 {
        "(none)".to_owned()
    } else {
        string_from_chars(t.as_slice())
    };
    crate::color::paint(use_color, "\x1b[34;1m", shown.as_str())
}

} // verus!
