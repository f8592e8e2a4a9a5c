# phi

The step-by-step core of the Phi command-line agent, written in Verus. The
functions under `src/` carry contracts that the verifier proves, except the
small wrappers marked `#[verifier::external_body]` around calls into
`serde_json`, `indexmap`, `getrandom`, `owo-colors` and the standard library:
their contracts are trusted, not proved, and each one's doc comment names the
call and says what the contract claims of it.

## Layout

- `src/expr.rs`: the step expression that holds a session: frames of steps
  with the history and variable effects each one adds, with the laws of
  lookup, store, removal, rollback and replacement.
- `src/agent/`: agent commands and their options, the decisions of a step
  (what a provider response leads to, which tool call runs next, how a
  failed step is recovered).
- `src/executor/`: the tool registry, the shell job tools, and the shaping of
  tool output to a token budget (`json.rs` models JSON values, `sanitizer.rs`
  and `truncation.rs` cut them down, `leaf_budget.rs` shares a budget among
  string leaves, `containers.rs` finds the arrays and objects to compact).
- `src/config/` and `src/config.rs`: typed configuration from defaults, a
  file and the `PHI_*` environment.
- `src/container/`: the job container: handles, leases, waits, the request
  and reply plans of its server, and the terminal event dispatcher.
- `src/features/`: governance policies (step budget, model retry, loop guard,
  auto-compact, tool limits), observers (echo, spinner) and plugin status.
- `src/text.rs`: token estimates, decimal rendering, trimming, UTF-8 aware
  truncation and the lemmas about their sizes.
- `app/`: what the library leaves to the process: clap parsing, the
  environment, the clock, files, the `vte` parser, and floating point.
- `tests/`: tests of the library from outside.

## Checking

`verus` verifies `src/lib.rs`; the tests run with `cargo test`.
