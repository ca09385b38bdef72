# sqlite-graphrag commands, verified core

The decisions behind the `enrich`, `deep-research`, `cleanup-orphans` and
`config` commands of sqlite-graphrag, written in Verus with their contracts
proved.

- `src/` is the library. Each module states what its functions return over
  spec functions and views, and the public `lemma_*` proof functions state the
  properties that hold across calls: a preview never deletes, a stored entity
  type always went through the vocabulary policy, a stored description is
  never boilerplate, a stored body rewrite is always longer than the original,
  one API key per provider, a drain step never lets the backoff leave its
  ceiling, and so on. The enrich drain itself is a step function from state
  and event to next state and action (`drain`); the loops in `app/drain.rs`
  drive it through a `DrainPorts` trait that the queue storage implements.
- `app/` is the plumbing Verus does not see: reading files, stdin and the
  environment, spawning `codex`, the drain loop that performs each step's
  action, the process-wide policy slot, and the
  serialisable copies of the report types.
- `tests/` runs the library on concrete values.

Calls into `rapidfuzz`, `blake3` and `fastrand` stand behind small trusted
wrappers whose contracts say only what those crates document.
