# aifo_coder

The decision logic of the aifo-coder launcher, written in Verus and proved
against its contracts: how fork sessions are named, planned, listed, merged and
cleaned; which container image, registry prefix and AppArmor profile a run uses;
the proxy fallback policy; the tool-exec shim's wire format and exit codes; and
the texts the tools print.

Layout:

- `src/` — the verified library. Each module states its behaviour over spec
  functions (`*_spec`) and proves it; laws that relate several functions are
  public proof functions named `lemma_*`. Calls into outside crates (`url`,
  `which`, `String::from_utf8_lossy`) go through a few small
  trusted wrappers whose doc comments say what is assumed of them.
- `tests/` — tests of the library on concrete values.
- `app/` — the command-line program around the library: argument parsing,
  environment, terminal, files, git and docker processes, and the network probes.

What the program in `app/` does not include:

- launching agents and toolchain sidecars (the container launcher and the toolchain
  modules are not part of this project), so agent and toolchain commands stop with an
  error, and so do fork runs; the fork run's decisions are in `src/fork_flow.rs`;
- the tool-exec shim binary: its decisions are in `src/shim*.rs`, its socket, signal
  and process handling is not written;
- in `doctor`: the AppArmor profile and in-container checks, the stale-session notice,
  editors, time zone, git and GnuPG rows and the workspace write test (their texts are
  composed in `src/doctor.rs`); automatic clean-up and the stale notice are not run;
- the toolchain session clean-up when a fork session is removed;
- the `--toolchain-spec` and `--toolchain-image` flags.
