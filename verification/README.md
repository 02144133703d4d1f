# starbase_process

A process toolkit whose logic is verified with Verus: identifiers, command
building and rendering, output summaries, redraw-collapsing of streamed
output, process trees, signal bookkeeping, the output cache and lifecycle of
a process registry, shutdown escalation, capture budgets, and the planning
done by the `#[system]`, `#[listener]`, `#[subscriber]` and derive macros.

- `src/` is the verified library. Every function there carries a contract;
  calls into outside crates (regex, rustc-hash, starbase_shell,
  starbase_styles, convert_case, syn) go through small trusted wrappers
  whose doc comments say what is assumed of them.
- `app/` is the unverified shell around it: signalling and process tables
  through the operating system, spawning from a plan, the threads of the
  blocking capture, `thiserror`/`serde` copies of library types, and the
  token output of the macros (with `darling` reading their arguments).
- `tests/` runs the library on concrete values.
