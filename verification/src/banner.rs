//! The startup banner's summary of the environment the agents run in.
use vstd::prelude::*;

use crate::doctor::{any_contains, any_contains_exec, option_value, option_value_exec, security_items_spec, security_option_items};
use crate::escape::strings_view;
use crate::proxy::opt_string_view;
use crate::text::{contains_spec, lower_spec, str_chars, to_lower};

verus! {

/// What the banner reports of Docker's security options.
pub struct SecurityOptionsParsed {
    /// The seccomp profile, `(unknown)` when not reported.
    pub seccomp_profile: String,
    /// The cgroup namespace mode, `(unknown)` when not reported.
    pub cgroupns_mode: String,
    /// Some option mentions `rootless`.
    pub rootless: bool,
}

/// Parse `docker info --format '{{json .SecurityOptions}}'` as `doctor` reads it: the
/// `profile=` of the seccomp option, the `mode=` of the cgroupns option, and whether
/// any option mentions `rootless`.
pub fn docker_security_options_parse(raw: &str) -> (p: SecurityOptionsParsed)
    ensures
        p.seccomp_profile@ == option_value(security_items_spec(raw@), "name=seccomp"@, "profile="@),
        p.cgroupns_mode@ == option_value(security_items_spec(raw@), "name=cgroupns"@, "mode="@),
        p.rootless == any_contains(security_items_spec(raw@), "rootless"@),
{
    let items = security_option_items(raw);
    SecurityOptionsParsed {
        seccomp_profile: option_value_exec(&items, "name=seccomp", "profile="),
        cgroupns_mode: option_value_exec(&items, "name=cgroupns", "mode="),
        rootless: any_contains_exec(&items, "rootless"),
    }
}

/// The banner's virtualization: on macOS a running Colima (as `colima status`
/// reports, case-insensitively) or else Docker Desktop; Docker Desktop on Windows;
/// native elsewhere.
pub open spec fn banner_virtualization_spec(macos: bool, windows: bool, colima_out: Option<Seq<char>>) -> Seq<char> {
    if macos {
        match colima_out {
            Some(o) => if contains_spec(lower_spec(o), "running"@) {
                "Colima VM"@
            } else {
                "Docker Desktop/VM"@
            },
            None => "Docker Desktop/VM"@,
        }
    } else if windows {
        "Docker Desktop/VM"@
    } else {
        "native"@
    }
}

pub fn banner_virtualization(macos: bool, windows: bool, colima_out: &Option<String>) -> (s: &'static str)
    ensures
        s@ == banner_virtualization_spec(macos, windows, opt_string_view(*colima_out)),
{
    if macos {
        match colima_out {
            Some(o) => {
                let cs = str_chars(o.as_str());
                let l = to_lower(cs.as_slice());
                let r = str_chars("running");
                if crate::text::contains(l.as_slice(), r.as_slice()) {
                    "Colima VM"
                } else {
                    "Docker Desktop/VM"
                }
            },
            None => "Docker Desktop/VM",
        }
    } else if windows {
        "Docker Desktop/VM"
    } else {
        "native"
    }
}

/// `AppArmor=on (<profile>)`, `AppArmor=on` or `AppArmor=off`.
pub open spec fn apparmor_summary_spec(supported: bool, profile: Option<Seq<char>>) -> Seq<char> {
    if supported {
        match profile {
            Some(p) => "AppArmor=on ("@ + p + ")"@,
            None => "AppArmor=on"@,
        }
    } else {
        "AppArmor=off"@
    }
}

/// The security facts shown: parsed options, or unknown when Docker could not be asked.
pub open spec fn security_facts(s: Option<SecurityOptionsParsed>) -> (Seq<char>, Seq<char>, bool) {
    match s {
        Some(p) => (p.seccomp_profile@, p.cgroupns_mode@, p.rootless),
        None => ("(unknown)"@, "(unknown)"@, false),
    }
}

/// The dynamic part of the banner: environment, platform, security and version lines.
pub open spec fn startup_summary_spec(
    docker_path: Option<Seq<char>>,
    virt: Seq<char>,
    os: Seq<char>,
    arch: Seq<char>,
    apparmor_supported: bool,
    apparmor_profile: Option<Seq<char>>,
    security: Option<SecurityOptionsParsed>,
    version: Seq<char>,
) -> Seq<Seq<char>> {
    let docker = match docker_path {
        Some(p) => p,
        None => "(not found)"@,
    };
    let f = security_facts(security);
    seq![
        "    - Environment: Docker="@ + docker + " | Virt="@ + virt,
        "    - Platform: "@ + os + "/"@ + arch,
        "    - Security: "@ + apparmor_summary_spec(apparmor_supported, apparmor_profile) + ", Seccomp="@ + f.0
            + ", cgroupns="@ + f.1 + ", rootless="@ + (if f.2 {
            "yes"@
        } else {
            "no"@
        }),
        "    - Version: "@ + version,
    ]
}

/// The banner's summary lines.
pub fn startup_summary_lines(
    docker_path: &Option<String>,
    virt: &str,
    os: &str,
    arch: &str,
    apparmor_supported: bool,
    apparmor_profile: Option<&str>,
    security: &Option<SecurityOptionsParsed>,
    version: &str,
) -> (v: Vec<String>)
    ensures
        strings_view(v@) == startup_summary_spec(
            opt_string_view(*docker_path),
            virt@,
            os@,
            arch@,
            apparmor_supported,
            crate::lock::opt_view(apparmor_profile),
            *security,
            version@,
        ),
{
    let mut env_line = "    - Environment: Docker=".to_owned();
    match docker_path {
        Some(p) => env_line.push_str(p.as_str()),
        None => env_line.push_str("(not found)"),
    }
    env_line.push_str(" | Virt=");
    env_line.push_str(virt);
    let mut platform = "    - Platform: ".to_owned();
    platform.push_str(os);
    platform.push_str("/");
    platform.push_str(arch);
    let mut sec = "    - Security: ".to_owned();
    if apparmor_supported {
        match apparmor_profile {
            Some(p) => {
                sec.push_str("AppArmor=on (");
                sec.push_str(p);
                sec.push_str(")");
            },
            None => sec.push_str("AppArmor=on"),
        }
    } else {
        sec.push_str("AppArmor=off");
    }
    sec.push_str(", Seccomp=");
    match security {
        Some(s) => sec.push_str(s.seccomp_profile.as_str()),
        None => sec.push_str("(unknown)"),
    }
    sec.push_str(", cgroupns=");
    match security {
        Some(s) => sec.push_str(s.cgroupns_mode.as_str()),
        None => sec.push_str("(unknown)"),
    }
    sec.push_str(", rootless=");
    let rootless = match security {
        Some(s) => s.rootless,
        None => false,
    };
    sec.push_str(if rootless { "yes" } else { "no" });
    let mut ver = "    - Version: ".to_owned();
    ver.push_str(version);
    let mut v: Vec<String> = Vec::new();
    v.push(env_line);
    v.push(platform);
    v.push(sec);
    v.push(ver);
    proof {
        let ghost spec_v = startup_summary_spec(
            opt_string_view(*docker_path),
            virt@,
            os@,
            arch@,
            apparmor_supported,
            crate::lock::opt_view(apparmor_profile),
            *security,
            version@,
        );
        assert(v@[0]@ == spec_v[0]);
        assert(v@[1]@ == spec_v[1]);
        assert(v@[2]@ == spec_v[2]);
        assert(v@[3]@ == spec_v[3]);
        assert(strings_view(v@) =~= startup_summary_spec(
            opt_string_view(*docker_path),
            virt@,
            os@,
            arch@,
            apparmor_supported,
            crate::lock::opt_view(apparmor_profile),
            *security,
            version@,
        ));
    }
    v
}

} // verus!
