//! The command-line model and what is derived from it for fork panes.
use vstd::prelude::*;

use crate::color::ColorMode;
use crate::escape::strings_view;
use crate::strategy::MergingStrategy;
use crate::text::{char_pos, char_pos_exec, chars_eq, lemma_char_pos, str_chars, trim_bounds, trim_spec};

verus! {

/// Image flavor.
#[derive(Copy, Clone, PartialEq, Eq, Structural, Debug, PartialOrd, Ord)]
pub enum Flavor {
    Full,
    Slim,
}

/// Language toolchains that can be attached.
#[derive(Copy, Clone, PartialEq, Eq, Structural, Debug, PartialOrd, Ord)]
pub enum ToolchainKind {
    Rust,
    Node,
    Typescript,
    Python,
    CCpp,
    Go,
}

/// The canonical name of a toolchain kind.
pub open spec fn kind_name(k: ToolchainKind) -> Seq<char> {
    match k {
        ToolchainKind::Rust => "rust"@,
        ToolchainKind::Node => "node"@,
        ToolchainKind::Typescript => "typescript"@,
        ToolchainKind::Python => "python"@,
        ToolchainKind::CCpp => "c-cpp"@,
        ToolchainKind::Go => "go"@,
    }
}

impl ToolchainKind {
    /// The canonical name: `rust`, `node`, `typescript`, `python`, `c-cpp` or `go`.
    pub fn as_str(&self) -> (r: &'static str)
        ensures
            r@ == kind_name(*self),
    {
        match self {
            ToolchainKind::Rust => "rust",
            ToolchainKind::Node => "node",
            ToolchainKind::Typescript => "typescript",
            ToolchainKind::Python => "python",
            ToolchainKind::CCpp => "c-cpp",
            ToolchainKind::Go => "go",
        }
    }
}

/// The toolchain kind a word names: the canonical names and the aliases `ts`,
/// `ccpp`, `c`, `cpp`, `c_cpp` and `c++`.
pub open spec fn kind_of_word(w: Seq<char>) -> Option<ToolchainKind> {
    if w == "rust"@ {
        Some(ToolchainKind::Rust)
    } else if w == "node"@ {
        Some(ToolchainKind::Node)
    } else if w == "typescript"@ || w == "ts"@ {
        Some(ToolchainKind::Typescript)
    } else if w == "python"@ {
        Some(ToolchainKind::Python)
    } else if w == "c-cpp"@ || w == "ccpp"@ || w == "c"@ || w == "cpp"@ || w == "c_cpp"@ || w
        == "c++"@ {
        Some(ToolchainKind::CCpp)
    } else if w == "go"@ {
        Some(ToolchainKind::Go)
    } else {
        None
    }
}

fn word_is(w: &[char], lit: &str) -> (b: bool)
    ensures
        b == (w@ == lit@),
{
    let l = str_chars(lit);
    chars_eq(w, l.as_slice())
}

/// Parse a toolchain kind word.
pub fn toolchain_kind_from_word(w: &[char]) -> (r: Option<ToolchainKind>)
    ensures
        r == kind_of_word(w@),
{
    if word_is(w, "rust") {
        Some(ToolchainKind::Rust)
    } else if word_is(w, "node") {
        Some(ToolchainKind::Node)
    } else if word_is(w, "typescript") || word_is(w, "ts") {
        Some(ToolchainKind::Typescript)
    } else if word_is(w, "python") {
        Some(ToolchainKind::Python)
    } else if word_is(w, "c-cpp") || word_is(w, "ccpp") || word_is(w, "c") || word_is(w, "cpp")
        || word_is(w, "c_cpp") || word_is(w, "c++") {
        Some(ToolchainKind::CCpp)
    } else if word_is(w, "go") {
        Some(ToolchainKind::Go)
    } else {
        None
    }
}

/// A toolchain request as written on the command line: `kind`, `kind@version` or
/// `kind=image`.
#[derive(Clone, Debug)]
pub struct ToolchainSpec {
    pub kind: ToolchainKind,
    pub spec: String,
}

/// The kind word of a toolchain request: everything before the first `@` or `=`.
pub open spec fn spec_kind_word(s: Seq<char>) -> Seq<char> {
    let a = char_pos(s, '@', 0);
    let e = char_pos(s, '=', 0);
    s.take(if a < e {
        a
    } else {
        e
    })
}

impl ToolchainSpec {
    /// Parse a toolchain request; `None` when the kind word is not a known toolchain.
    pub fn parse(s: &str) -> (r: Option<ToolchainSpec>)
        ensures
            r is Some <==> kind_of_word(spec_kind_word(s@)) is Some,
            r matches Some(t) ==> t.kind == kind_of_word(spec_kind_word(s@))->0 && t.spec@
                == s@,
    {
        let cs = str_chars(s);
        let a = char_pos_exec(cs.as_slice(), '@', 0);
        let e = char_pos_exec(cs.as_slice(), '=', 0);
        proof {
            lemma_char_pos(s@, '@', 0);
            lemma_char_pos(s@, '=', 0);
        }
        let k = if a < e {
            a
        } else {
            e
        };
        let w = crate::text::slice_to_vec(cs.as_slice(), 0, k);
        assert(w@ =~= spec_kind_word(s@));
        match toolchain_kind_from_word(w.as_slice()) {
            Some(kind) => Some(ToolchainSpec { kind, spec: s.to_owned() }),
            None => None,
        }
    }

    /// The request as it was written.
    pub fn as_str(&self) -> (r: &str)
        ensures
            r@ == self.spec@,
    {
        self.spec.as_str()
    }
}

/// Fork maintenance subcommands.
#[derive(Clone, Debug)]
pub enum ForkCmd {
    List { json: bool, all_repos: bool, color: Option<ColorMode> },
    Clean {
        session: Option<String>,
        older_than: Option<u64>,
        all: bool,
        dry_run: bool,
        yes: bool,
        force: bool,
        keep_dirty: bool,
        json: bool,
    },
    Merge { session: String, strategy: MergingStrategy, autoclean: bool, dry_run: bool },
}

/// Top-level subcommands.
#[derive(Clone, Debug)]
pub enum Agent {
    Doctor,
    Support { base: bool, deep: bool, combo: bool, all: bool },
    Images,
    CacheClear,
    ToolchainCacheClear,
    Toolchain { kind: ToolchainKind, image: Option<String>, no_cache: bool, args: Vec<String> },
    Codex { args: Vec<String> },
    Crush { args: Vec<String> },
    Aider { args: Vec<String> },
    OpenHands { args: Vec<String> },
    OpenCode { args: Vec<String> },
    Plandex { args: Vec<String> },
    Fork { cmd: ForkCmd },
}

/// The parsed command line.
#[derive(Clone, Debug)]
pub struct Cli {
    pub image: Option<String>,
    pub toolchain: Vec<ToolchainSpec>,
    pub no_toolchain_cache: bool,
    pub toolchain_unix_socket: bool,
    pub toolchain_bootstrap: Vec<String>,
    pub verbose: bool,
    pub debug_otel_otlp: bool,
    pub quiet: bool,
    pub ignore_local_images: bool,
    pub non_interactive: bool,
    pub flavor: Option<Flavor>,
    pub invalidate_registry_cache: bool,
    pub dry_run: bool,
    pub color: Option<ColorMode>,
    pub fork: Option<usize>,
    pub fork_include_dirty: bool,
    pub fork_dissociate: bool,
    pub fork_session_name: Option<String>,
    pub fork_layout: Option<String>,
    pub fork_keep_on_failure: bool,
    pub fork_merging_strategy: MergingStrategy,
    pub fork_merging_autoclean: bool,
    pub command: Agent,
}

/// `--image <img>` unless the image is blank.
pub open spec fn image_args(image: Option<String>) -> Seq<Seq<char>> {
    match image {
        Some(img) => if trim_spec(img@).len() > 0 {
            seq!["--image"@, img@]
        } else {
            seq![]
        },
        None => seq![],
    }
}

/// `--toolchain <spec>` for each requested toolchain, in order.
pub open spec fn toolchain_args(ts: Seq<ToolchainSpec>) -> Seq<Seq<char>>
    decreases ts.len(),
{
    if ts.len() == 0 {
        seq![]
    } else {
        toolchain_args(ts.drop_last()) + seq!["--toolchain"@, ts.last().spec@]
    }
}

/// `--toolchain-bootstrap <b>` for each bootstrap action, in order.
pub open spec fn bootstrap_args(bs: Seq<String>) -> Seq<Seq<char>>
    decreases bs.len(),
{
    if bs.len() == 0 {
        seq![]
    } else {
        bootstrap_args(bs.drop_last()) + seq!["--toolchain-bootstrap"@, bs.last()@]
    }
}

/// A flag when it is set.
pub open spec fn flag_arg(on: bool, name: Seq<char>) -> Seq<Seq<char>> {
    if on {
        seq![name]
    } else {
        seq![]
    }
}

/// `--flavor full|slim` when a flavor is chosen.
pub open spec fn flavor_args(f: Option<Flavor>) -> Seq<Seq<char>> {
    match f {
        Some(Flavor::Full) => seq!["--flavor"@, "full"@],
        Some(Flavor::Slim) => seq!["--flavor"@, "slim"@],
        None => seq![],
    }
}

/// The agent subcommand and its arguments; other subcommands become `aider`.
pub open spec fn agent_args(cmd: Agent) -> Seq<Seq<char>> {
    match cmd {
        Agent::Codex { args } => seq!["codex"@] + strings_view(args@),
        Agent::Crush { args } => seq!["crush"@] + strings_view(args@),
        Agent::Aider { args } => seq!["aider"@] + strings_view(args@),
        _ => seq!["aider"@],
    }
}

/// The arguments a fork pane is started with: the global flags that the agent run
/// needs (fork-only flags are never included), then the agent and its arguments.
pub open spec fn child_args_spec(cli: Cli) -> Seq<Seq<char>> {
    image_args(cli.image) + toolchain_args(cli.toolchain@) + flag_arg(
        cli.no_toolchain_cache,
        "--no-toolchain-cache"@,
    ) + flag_arg(cli.toolchain_unix_socket, "--toolchain-unix-socket"@) + bootstrap_args(
        cli.toolchain_bootstrap@,
    ) + flag_arg(cli.verbose, "--verbose"@) + flavor_args(cli.flavor) + flag_arg(
        cli.invalidate_registry_cache,
        "--invalidate-registry-cache"@,
    ) + flag_arg(cli.dry_run, "--dry-run"@) + agent_args(cli.command)
}

fn push_lit(v: &mut Vec<String>, s: &str)
    ensures
        strings_view(final(v)@) == strings_view(old(v)@).push(s@),
{
    v.push(s.to_owned());
    assert(strings_view(v@) =~= strings_view(old(v)@).push(s@));
}

fn push_all(v: &mut Vec<String>, xs: &Vec<String>)
    ensures
        strings_view(final(v)@) == strings_view(old(v)@) + strings_view(xs@),
{
    let mut i: usize = 0;
    while i < xs.len()
        invariant
            i <= xs@.len(),
            strings_view(v@) == strings_view(old(v)@) + strings_view(xs@.take(i as int)),
        decreases xs@.len() - i,
    {
        let x = xs[i].clone();
        assert(x@ == xs@[i as int]@);
        let ghost prev = v@;
        v.push(x);
        assert(strings_view(v@) =~= strings_view(prev).push(x@));
        assert(strings_view(xs@.take(i + 1)) =~= strings_view(xs@.take(i as int)).push(x@));
        i = i + 1;
        assert(strings_view(v@) =~= strings_view(old(v)@) + strings_view(xs@.take(i as int)));
    }
    assert(xs@.take(xs@.len() as int) =~= xs@);
}

fn push_image_args(v: &mut Vec<String>, image: &Option<String>)
    ensures
        strings_view(final(v)@) == strings_view(old(v)@) + image_args(*image),
{
    if let Some(img) = image {
        let cs = str_chars(img.as_str());
        let (a, b) = trim_bounds(cs.as_slice());
        if a < b {
            push_lit(v, "--image");
            push_lit(v, img.as_str());
        }
    }
    assert(strings_view(v@) =~= strings_view(old(v)@) + image_args(*image));
}

fn push_toolchain_args(v: &mut Vec<String>, ts: &Vec<ToolchainSpec>)
    ensures
        strings_view(final(v)@) == strings_view(old(v)@) + toolchain_args(ts@),
{
    let mut i: usize = 0;
    while i < ts.len()
        invariant
            i <= ts@.len(),
            strings_view(v@) == strings_view(old(v)@) + toolchain_args(ts@.take(i as int)),
        decreases ts@.len() - i,
    {
        push_lit(v, "--toolchain");
        push_lit(v, ts[i].as_str());
        proof {
            assert(ts@.take(i + 1).drop_last() =~= ts@.take(i as int));
        }
        i = i + 1;
        assert(strings_view(v@) =~= strings_view(old(v)@) + toolchain_args(ts@.take(i as int)));
    }
    assert(ts@.take(ts@.len() as int) =~= ts@);
}

fn push_bootstrap_args(v: &mut Vec<String>, bs: &Vec<String>)
    ensures
        strings_view(final(v)@) == strings_view(old(v)@) + bootstrap_args(bs@),
{
    let mut i: usize = 0;
    while i < bs.len()
        invariant
            i <= bs@.len(),
            strings_view(v@) == strings_view(old(v)@) + bootstrap_args(bs@.take(i as int)),
        decreases bs@.len() - i,
    {
        push_lit(v, "--toolchain-bootstrap");
        push_lit(v, bs[i].as_str());
        proof {
            assert(bs@.take(i + 1).drop_last() =~= bs@.take(i as int));
        }
        i = i + 1;
        assert(strings_view(v@) =~= strings_view(old(v)@) + bootstrap_args(bs@.take(i as int)));
    }
    assert(bs@.take(bs@.len() as int) =~= bs@);
}

fn push_flag(v: &mut Vec<String>, on: bool, name: &str)
    ensures
        strings_view(final(v)@) == strings_view(old(v)@) + flag_arg(on, name@),
{
    if on {
        push_lit(v, name);
    }
    assert(strings_view(v@) =~= strings_view(old(v)@) + flag_arg(on, name@));
}

fn push_flavor_args(v: &mut Vec<String>, f: Option<Flavor>)
    ensures
        strings_view(final(v)@) == strings_view(old(v)@) + flavor_args(f),
{
    match f {
        Some(Flavor::Full) => {
            push_lit(v, "--flavor");
            push_lit(v, "full");
        },
        Some(Flavor::Slim) => {
            push_lit(v, "--flavor");
            push_lit(v, "slim");
        },
        None => {},
    }
    assert(strings_view(v@) =~= strings_view(old(v)@) + flavor_args(f));
}

fn push_agent_args(v: &mut Vec<String>, cmd: &Agent)
    ensures
        strings_view(final(v)@) == strings_view(old(v)@) + agent_args(*cmd),
{
    match cmd {
        Agent::Codex { args: a } => {
            push_lit(v, "codex");
            push_all(v, a);
        },
        Agent::Crush { args: a } => {
            push_lit(v, "crush");
            push_all(v, a);
        },
        Agent::Aider { args: a } => {
            push_lit(v, "aider");
            push_all(v, a);
        },
        _ => {
            push_lit(v, "aider");
        },
    }
    assert(strings_view(v@) =~= strings_view(old(v)@) + agent_args(*cmd));
}

/// Build the child argument vector for panes launched by fork orchestrators.
pub fn fork_build_child_args(cli: &Cli) -> (args: Vec<String>)
    ensures
        strings_view(args@) == child_args_spec(*cli),
{
    let mut args: Vec<String> = Vec::new();
    push_image_args(&mut args, &cli.image);
    push_toolchain_args(&mut args, &cli.toolchain);
    push_flag(&mut args, cli.no_toolchain_cache, "--no-toolchain-cache");
    push_flag(&mut args, cli.toolchain_unix_socket, "--toolchain-unix-socket");
    push_bootstrap_args(&mut args, &cli.toolchain_bootstrap);
    push_flag(&mut args, cli.verbose, "--verbose");
    push_flavor_args(&mut args, cli.flavor);
    push_flag(&mut args, cli.invalidate_registry_cache, "--invalidate-registry-cache");
    push_flag(&mut args, cli.dry_run, "--dry-run");
    push_agent_args(&mut args, &cli.command);
    assert(strings_view(args@) =~= child_args_spec(*cli));
    args
}

/// A pane is started with the agent subcommand and its arguments, verbatim and in
/// order, at the end of its arguments.
pub proof fn lemma_child_args_end_with_agent_args(cli: Cli)
    ensures
        child_args_spec(cli).len() >= agent_args(cli.command).len(),
        child_args_spec(cli).skip(child_args_spec(cli).len() - agent_args(cli.command).len())
            == agent_args(cli.command),
{
    let c = child_args_spec(cli);
    let a = agent_args(cli.command);
    assert(c.skip(c.len() - a.len()) =~= a);
}

/// The fork-only options (pane count, dirty snapshot, dissociation, session name,
/// layout, keep-on-failure, merge strategy and auto-clean) and the color, quiet,
/// interactivity and local-image options never reach a pane's arguments: two command
/// lines that differ only there start their panes alike.
pub proof fn lemma_child_args_ignore_fork_options(a: Cli, b: Cli)
    requires
        a.image == b.image,
        a.toolchain@ == b.toolchain@,
        a.no_toolchain_cache == b.no_toolchain_cache,
        a.toolchain_unix_socket == b.toolchain_unix_socket,
        a.toolchain_bootstrap@ == b.toolchain_bootstrap@,
        a.verbose == b.verbose,
        a.flavor == b.flavor,
        a.invalidate_registry_cache == b.invalidate_registry_cache,
        a.dry_run == b.dry_run,
        a.command == b.command,
    ensures
        child_args_spec(a) == child_args_spec(b),
{
}

/// The agent subcommand name; `aider` for non-agent subcommands.
pub open spec fn selected_agent_spec(cmd: Agent) -> Seq<char> {
    match cmd {
        Agent::Codex { .. } => "codex"@,
        Agent::Crush { .. } => "crush"@,
        _ => "aider"@,
    }
}

/// Return the selected agent subcommand (`aider`, `crush` or `codex`), defaulting
/// to `aider` for non-agent subcommands.
pub fn select_agent_str(cli: &Cli) -> (r: &'static str)
    ensures
        r@ == selected_agent_spec(cli.command),
{
    match &cli.command {
        Agent::Codex { .. } => "codex",
        Agent::Crush { .. } => "crush",
        _ => "aider",
    }
}

/// The agent to run and its arguments, for the six agent subcommands.
pub fn resolve_agent_and_args(cli: &Cli) -> (r: Option<(&'static str, Vec<String>)>)
    ensures
        r matches Some(p) ==> match cli.command {
            Agent::Codex { args } => p.0@ == "codex"@ && p.1@ == args@,
            Agent::Crush { args } => p.0@ == "crush"@ && p.1@ == args@,
            Agent::Aider { args } => p.0@ == "aider"@ && p.1@ == args@,
            Agent::OpenHands { args } => p.0@ == "openhands"@ && p.1@ == args@,
            Agent::OpenCode { args } => p.0@ == "opencode"@ && p.1@ == args@,
            Agent::Plandex { args } => p.0@ == "plandex"@ && p.1@ == args@,
            _ => false,
        },
        r is None <==> !(cli.command is Codex || cli.command is Crush || cli.command is Aider
            || cli.command is OpenHands || cli.command is OpenCode || cli.command is Plandex),
{
    match &cli.command {
        Agent::Codex { args } => Some(("codex", args.clone())),
        Agent::Crush { args } => Some(("crush", args.clone())),
        Agent::Aider { args } => Some(("aider", args.clone())),
        Agent::OpenHands { args } => Some(("openhands", args.clone())),
        Agent::OpenCode { args } => Some(("opencode", args.clone())),
        Agent::Plandex { args } => Some(("plandex", args.clone())),
        _ => None,
    }
}

/// Accepted tmux layouts: `tiled`, `even-h`, `even-v`.
pub open spec fn valid_layout(s: Seq<char>) -> bool {
    s == "tiled"@ || s == "even-h"@ || s == "even-v"@
}

/// Validate the fork layout flag value.
pub fn validate_layout(s: &str) -> (r: Result<String, String>)
    ensures
        r matches Ok(v) ==> valid_layout(s@) && v@ == s@,
        r matches Err(m) ==> !valid_layout(s@) && m@ == "must be one of tiled, even-h, even-v"@,
        r is Ok <==> valid_layout(s@),
{
    let cs = str_chars(s);
    if word_is(cs.as_slice(), "tiled") || word_is(cs.as_slice(), "even-h") || word_is(
        cs.as_slice(),
        "even-v",
    ) {
        Ok(s.to_owned())
    } else {
        Err("must be one of tiled, even-h, even-v".to_owned())
    }
}


proof fn lemma_regroup(
    p0: Seq<Seq<char>>,
    f1: Seq<Seq<char>>,
    f2: Seq<Seq<char>>,
    bs: Seq<Seq<char>>,
    f3: Seq<Seq<char>>,
    fl: Seq<Seq<char>>,
    f4: Seq<Seq<char>>,
    f5: Seq<Seq<char>>,
    ag: Seq<Seq<char>>,
)
    ensures
        p0 + f1 + f2 + bs + f3 + fl + f4 + f5 + ag == p0 + (f1 + f2 + bs + f3 + fl + f4 + f5 + ag),
        p0 + f1 + f2 + bs + f3 + fl + f4 + f5 + ag == p0 + f1 + (f2 + bs + f3 + fl + f4 + f5 + ag),
        p0 + f1 + f2 + bs + f3 + fl + f4 + f5 + ag == (p0 + f1) + f2 + (bs + f3 + fl + f4 + f5 + ag),
        p0 + f1 + f2 + bs + f3 + fl + f4 + f5 + ag == (p0 + f1 + f2 + bs) + f3 + (fl + f4 + f5 + ag),
        p0 + f1 + f2 + bs + f3 + fl + f4 + f5 + ag == (p0 + f1 + f2 + bs + f3 + fl) + f4 + (f5 + ag),
{
    assert(p0 + f1 + f2 + bs + f3 + fl + f4 + f5 + ag =~= p0 + (f1 + f2 + bs + f3 + fl + f4 + f5 + ag));
    assert(p0 + f1 + f2 + bs + f3 + fl + f4 + f5 + ag =~= p0 + f1 + (f2 + bs + f3 + fl + f4 + f5 + ag));
    assert(p0 + f1 + f2 + bs + f3 + fl + f4 + f5 + ag =~= (p0 + f1) + f2 + (bs + f3 + fl + f4 + f5 + ag));
    assert(p0 + f1 + f2 + bs + f3 + fl + f4 + f5 + ag =~= (p0 + f1 + f2 + bs) + f3 + (fl + f4 + f5 + ag));
    assert(p0 + f1 + f2 + bs + f3 + fl + f4 + f5 + ag =~= (p0 + f1 + f2 + bs + f3 + fl) + f4 + (f5 + ag));
}

proof fn lemma_flag_in_middle(on: bool, x: Seq<char>, a: Seq<Seq<char>>, b: Seq<Seq<char>>)
    ensures
        on ==> (a + flag_arg(on, x) + b).contains(x),
{
    if on {
        assert((a + flag_arg(on, x) + b)[a.len() as int] == x);
    }
}

/// Every global agent flag that is set on the command line reaches every pane's
/// arguments: `--no-toolchain-cache`, `--toolchain-unix-socket`, `--verbose`,
/// `--invalidate-registry-cache` and `--dry-run`.
#[verifier::spinoff_prover]
pub proof fn lemma_set_flags_reach_panes(cli: Cli)
    ensures
        cli.no_toolchain_cache ==> child_args_spec(cli).contains("--no-toolchain-cache"@),
        cli.toolchain_unix_socket ==> child_args_spec(cli).contains("--toolchain-unix-socket"@),
        cli.verbose ==> child_args_spec(cli).contains("--verbose"@),
        cli.invalidate_registry_cache ==> child_args_spec(cli).contains("--invalidate-registry-cache"@),
        cli.dry_run ==> child_args_spec(cli).contains("--dry-run"@),
        (cli.image matches Some(img) && trim_spec(img@).len() > 0) ==> child_args_spec(cli).take(2) == seq![
            "--image"@,
            cli.image.unwrap()@,
        ],
{
    let p0 = image_args(cli.image) + toolchain_args(cli.toolchain@);
    let f1 = flag_arg(cli.no_toolchain_cache, "--no-toolchain-cache"@);
    let f2 = flag_arg(cli.toolchain_unix_socket, "--toolchain-unix-socket"@);
    let bs = bootstrap_args(cli.toolchain_bootstrap@);
    let f3 = flag_arg(cli.verbose, "--verbose"@);
    let fl = flavor_args(cli.flavor);
    let f4 = flag_arg(cli.invalidate_registry_cache, "--invalidate-registry-cache"@);
    let f5 = flag_arg(cli.dry_run, "--dry-run"@);
    let ag = agent_args(cli.command);
    assert(child_args_spec(cli) == p0 + f1 + f2 + bs + f3 + fl + f4 + f5 + ag);
    if cli.image matches Some(img) && trim_spec(img@).len() > 0 {
        assert(image_args(cli.image) == seq!["--image"@, cli.image.unwrap()@]);
        assert((p0 + (f1 + f2 + bs + f3 + fl + f4 + f5 + ag)).take(2) =~= p0.take(2));
        assert(p0.take(2) =~= image_args(cli.image));
    }
    lemma_regroup(p0, f1, f2, bs, f3, fl, f4, f5, ag);
    lemma_flag_in_middle(cli.no_toolchain_cache, "--no-toolchain-cache"@, p0, f2 + bs + f3 + fl + f4 + f5 + ag);
    lemma_flag_in_middle(cli.toolchain_unix_socket, "--toolchain-unix-socket"@, p0 + f1, bs + f3 + fl + f4 + f5 + ag);
    lemma_flag_in_middle(cli.verbose, "--verbose"@, p0 + f1 + f2 + bs, fl + f4 + f5 + ag);
    lemma_flag_in_middle(cli.invalidate_registry_cache, "--invalidate-registry-cache"@, p0 + f1 + f2 + bs + f3 + fl, f5 + ag);
    lemma_flag_in_middle(cli.dry_run, "--dry-run"@, p0 + f1 + f2 + bs + f3 + fl + f4, ag);
}

} // verus!
