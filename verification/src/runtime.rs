//! Finding the container runtime and the programs that fork mode needs.
use vstd::prelude::*;

use crate::orchestrators::{presence_error, presence_error_spec, ToolPresence};

verus! {

/// `which::which(name)`: the path of the executable `name` found on `PATH`, as a
/// string. What it finds depends on the file system and the environment, so
/// nothing is stated of the result.
#[verifier::external_body]
fn find_program(name: &str) -> (r: Option<String>) {
    which::which(name).ok().map(|p| p.to_string_lossy().into_owned())
}

/// Why no container runtime was returned.
#[derive(Clone, Copy, Debug, PartialEq, Eq, Structural)]
pub enum RuntimeLookupError {
    /// `AIFO_CODER_TEST_DISABLE_DOCKER=1` or `AIFO_CODER_SKIP_DOCKER=1`.
    Disabled,
    /// No `docker` on `PATH`.
    NotFound,
}

pub open spec fn runtime_error_text(e: RuntimeLookupError) -> Seq<char> {
    match e {
        RuntimeLookupError::Disabled => "Docker disabled by environment override."@,
        RuntimeLookupError::NotFound => "Docker is required but was not found in PATH."@,
    }
}

impl RuntimeLookupError {
    /// The error's message.
    pub fn message(&self) -> (s: String)
        ensures
            s@ == runtime_error_text(*self),
    {
        match self {
            RuntimeLookupError::Disabled => "Docker disabled by environment override.".to_owned(),
            RuntimeLookupError::NotFound => "Docker is required but was not found in PATH.".to_owned(),
        }
    }
}

/// Docker detection is switched off when either variable is exactly `1`.
pub open spec fn docker_disabled(test_disable: Option<Seq<char>>, skip: Option<Seq<char>>) -> bool {
    test_disable == Some("1"@) || skip == Some("1"@)
}

fn is_one(v: &Option<String>) -> (b: bool)
    ensures
        b == (crate::proxy::opt_string_view(*v) == Some("1"@)),
{
    match v {
        Some(s) => crate::text::str_eq(s.as_str(), "1"),
        None => false,
    }
}

/// The runtime path, given whether detection is switched off and what the `PATH`
/// lookup of `docker` found.
pub fn runtime_path_verdict(disabled: bool, found: Option<String>) -> (r: Result<String, RuntimeLookupError>)
    ensures
        disabled ==> r == Err::<String, RuntimeLookupError>(RuntimeLookupError::Disabled),
        !disabled ==> match found {
            Some(p) => r is Ok && r->Ok_0@ == p@,
            None => r == Err::<String, RuntimeLookupError>(RuntimeLookupError::NotFound),
        },
{
    if disabled {
        return Err(RuntimeLookupError::Disabled);
    }
    match found {
        Some(p) => Ok(p),
        None => Err(RuntimeLookupError::NotFound),
    }
}

/// The path of the `docker` executable. `test_disable` and `skip` are
/// `AIFO_CODER_TEST_DISABLE_DOCKER` and `AIFO_CODER_SKIP_DOCKER`; when detection is
/// on, `PATH` is searched.
pub fn container_runtime_path(test_disable: &Option<String>, skip: &Option<String>) -> (r: Result<
    String,
    RuntimeLookupError,
>)
    ensures
        docker_disabled(crate::proxy::opt_string_view(*test_disable), crate::proxy::opt_string_view(*skip))
            <==> r == Err::<String, RuntimeLookupError>(RuntimeLookupError::Disabled),
{
    let disabled = is_one(test_disable) || is_one(skip);
    if disabled {
        return runtime_path_verdict(true, None);
    }
    let found = find_program("docker");
    runtime_path_verdict(false, found)
}

/// Check that git and a terminal orchestrator for this platform are on `PATH`: the
/// message and exit code when something is missing (see `presence_error_spec`).
pub fn ensure_git_and_orchestrator_present_on_platform(windows: bool) -> (r: Option<(String, u8)>)
    ensures
        exists|git: bool, tools: ToolPresence, tmux: bool|
            #[trigger] presence_error_spec(windows, git, tools, tmux) == match r {
                Some(e) => Some((e.0@, e.1)),
                None => None,
            },
{
    let git = find_program("git").is_some();
    let none = ToolPresence { git_bash: false, powershell: false, windows_terminal: false };
    if !git {
        return presence_error(windows, false, &none, false);
    }
    if windows {
        let tools = ToolPresence {
            git_bash: find_program("git-bash.exe").is_some() || find_program("bash.exe").is_some()
                || find_program("mintty.exe").is_some(),
            powershell: find_program("pwsh").is_some() || find_program("powershell").is_some()
                || find_program("powershell.exe").is_some(),
            windows_terminal: find_program("wt").is_some() || find_program("wt.exe").is_some(),
        };
        presence_error(true, true, &tools, false)
    } else {
        let tmux = find_program("tmux").is_some();
        presence_error(false, true, &none, tmux)
    }
}

} // verus!
