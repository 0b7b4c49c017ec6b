//! The informational lines printed before an agent container starts.
use vstd::prelude::*;

use crate::escape::strings_view;
use crate::lock::opt_view;
use crate::text::{str_chars, string_from_chars, trim_end_char, trim_end_char_spec};

verus! {

/// A registry prefix as shown: `(none)` when empty, else without trailing slashes.
pub open spec fn registry_shown(prefix: Seq<char>) -> Seq<char> {
    if prefix.len() == 0 {
        "(none)"@
    } else {
        trim_end_char_spec(prefix, '/')
    }
}

/// The internal registry's source label: `unset` without a prefix, `env` or
/// `env-empty` as recorded, else `autodetect`.
pub open spec fn internal_source_label(prefix: Seq<char>, recorded: Seq<char>) -> Seq<char> {
    if prefix.len() == 0 {
        "unset"@
    } else if recorded == "env"@ || recorded == "env-empty"@ {
        recorded
    } else {
        "autodetect"@
    }
}

/// The messages, in order: with `verbose`, the AppArmor profile, both registries with
/// their sources and the agent image; with `verbose` or `dry_run`, the docker command.
pub open spec fn verbose_run_info_spec(
    agent: Seq<char>,
    image_display: Seq<char>,
    apparmor: Option<Seq<char>>,
    preview: Seq<char>,
    verbose: bool,
    dry_run: bool,
    ir_prefix: Seq<char>,
    ir_recorded: Seq<char>,
    mr_prefix: Seq<char>,
    mr_source: Seq<char>,
) -> Seq<Seq<char>> {
    (if verbose {
        seq![
            "aifo-coder: effective apparmor profile: "@ + match apparmor {
                Some(p) => p,
                None => "(disabled)"@,
            },
            "aifo-coder: internal registry: "@ + registry_shown(ir_prefix) + " (source: internal:"@
                + internal_source_label(ir_prefix, ir_recorded) + ")"@,
            "aifo-coder: mirror registry: "@ + registry_shown(mr_prefix) + " (source: mirror:"@ + mr_source + ")"@,
            "aifo-coder: agent image ["@ + agent + "]: "@ + image_display,
        ]
    } else {
        seq![]
    }) + (if verbose || dry_run {
        seq!["aifo-coder: docker: "@ + preview]
    } else {
        seq![]
    })
}

fn shown_exec(prefix: &str) -> (s: String)
    ensures
        s@ == registry_shown(prefix@),
{
    if prefix.is_empty() {
        return "(none)".to_owned();
    }
    let cs = str_chars(prefix);
    let t = trim_end_char(cs.as_slice(), '/');
    string_from_chars(t.as_slice())
}

fn source_label_exec(prefix: &str, recorded: &str) -> (s: String)
    ensures
        s@ == internal_source_label(prefix@, recorded@),
{
    if prefix.is_empty() {
        "unset".to_owned()
    } else if crate::text::str_eq(recorded, "env") || crate::text::str_eq(recorded, "env-empty") {
        recorded.to_owned()
    } else {
        "autodetect".to_owned()
    }
}

/// The informational lines for a run (see `verbose_run_info_spec`).
pub fn verbose_run_info_lines(
    agent: &str,
    image_display: &str,
    apparmor: Option<&str>,
    preview: &str,
    verbose: bool,
    dry_run: bool,
    ir_prefix: &str,
    ir_recorded: &str,
    mr_prefix: &str,
    mr_source: &str,
) -> (v: Vec<String>)
    ensures
        strings_view(v@) == verbose_run_info_spec(
            agent@,
            image_display@,
            opt_view(apparmor),
            preview@,
            verbose,
            dry_run,
            ir_prefix@,
            ir_recorded@,
            mr_prefix@,
            mr_source@,
        ),
{
    let mut v: Vec<String> = Vec::new();
    if verbose {
        let mut a = "aifo-coder: effective apparmor profile: ".to_owned();
        match apparmor {
            Some(p) => a.push_str(p),
            None => a.push_str("(disabled)"),
        }
        let mut ir = "aifo-coder: internal registry: ".to_owned();
        ir.push_str(shown_exec(ir_prefix).as_str());
        ir.push_str(" (source: internal:");
        ir.push_str(source_label_exec(ir_prefix, ir_recorded).as_str());
        ir.push_str(")");
        let mut mr = "aifo-coder: mirror registry: ".to_owned();
        mr.push_str(shown_exec(mr_prefix).as_str());
        mr.push_str(" (source: mirror:");
        mr.push_str(mr_source);
        mr.push_str(")");
        let mut img = "aifo-coder: agent image [".to_owned();
        img.push_str(agent);
        img.push_str("]: ");
        img.push_str(image_display);
        v.push(a);
        v.push(ir);
        v.push(mr);
        v.push(img);
    }
    let ghost first = strings_view(v@);
    if verbose || dry_run {
        let mut d = "aifo-coder: docker: ".to_owned();
        d.push_str(preview);
        v.push(d);
    }
    proof {
        let ghost spec_v = verbose_run_info_spec(
            agent@,
            image_display@,
            opt_view(apparmor),
            preview@,
            verbose,
            dry_run,
            ir_prefix@,
            ir_recorded@,
            mr_prefix@,
            mr_source@,
        );
        if verbose {
            assert(first[0] == spec_v[0]);
            assert(first[1] == spec_v[1]);
            assert(first[2] == spec_v[2]);
            assert(first[3] == spec_v[3]);
        }
        assert(strings_view(v@) =~= spec_v);
    }
    v
}

} // verus!
