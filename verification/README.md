# yai

The verified core of the `yai` command line: argument handling, the small
JSON scanners and writers, terminal and shell rendering, the HTTP framing of
provider calls, bounded graph queries, journal record identifiers, and the
decisions of the Case conversation host (turn execution, Case work limits,
provider connection, capability feedback and lowering, recovery of
completed Case work, the conversation controller's thread and cancellation
steps, guided setup).

- `src/` — the library, written in Verus; every public function carries a
  contract and the `law_*` proof functions state properties across calls.
- `tests/` — tests on concrete values.
- `app/` — the executable: it reads arguments, files, the environment and
  process state, and prints what the library renders.
