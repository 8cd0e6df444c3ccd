# icn-covm

Governance and federation logic of the ICN cooperative virtual machine,
written in Verus. Every function in `src/` carries a contract. Verus proves
each one, except for the few small functions that call into std or an
outside crate: their contracts are assumed, and their doc comments say what
they assume.

## Layout

- `src/lifecycle.rs`: proposal records and their states (draft, feedback,
  voting, executed, rejected, expired), the quorum and threshold rules, vote
  tallies, and the parsers for vote choices, weightings and quorum methods.
- `src/retry.rs`: retry bookkeeping for network operations, with
  exponential backoff, jitter and a limit on attempts.
- `src/federation.rs`: federated proposals and votes read from files, the
  executor of a federated proposal, and the decision state of a network
  node (known peers, role, retries, and what it does on each network event).
- `src/cli.rs`: the text that the governance, DAG and interactive-shell
  commands print, and the parsing of shell commands and parameters.
- `src/auth.rs`: authorization contexts.
- `src/engine.rs`: execution results and storage settings.
- `src/text.rs`: string helpers that the rest builds on.
- `src/system.rs`: the wall clock and random bytes, read so that a clock
  set before 1970 or a failing random source is an answer, not a panic.
- `tests/`: tests of the library, run against the compiled crate.
- `app/`: the command-line program around the library: argument parsing
  for the governance and DAG commands, files, clocks, sleeps, printing, and
  the floating-point parts of vote weights and vote files. The virtual
  machine, its storage and the network node's swarm are not part of this
  repository, so the commands that need them are not here.

Calls into outside crates (`rand`, `uuid`, `libp2p`) and into std's clock
and formatting go through those small functions.
