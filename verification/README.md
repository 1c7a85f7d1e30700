# bm_storage

The storage layer of BranchMind: branches, commits and merges; documents and their entries;
the knowledge graph of cards and edges with three-way merge and conflicts; tasks, steps and
their checkpoints; anchors of the meaning map and their lint; the job queue, its bus and its
runners; and undo / redo over the operations history.

The rules of the store are written in Verus and proved against their contracts:

- `src/` holds the verified library. Its decision functions state in `ensures` what they
  return (the few that read the clock or an opaque outside error state only what holds of
  every outcome), and the laws of the library (for example the three-way merge,
  the canonical form of thread and anchor ids, the stable order of lint issues, or that a
  merge page counts each candidate once and a dry run writes nothing) are public proof
  functions next to the code they speak of.
- Calls into `serde_json` and the few reads of `rusqlite` errors and the clock are small
  trusted wrappers whose contracts say what those crates do.
- `app/` holds part of the SQLite side: opening and migrating the database, the branch,
  commit and merge records, the anchors lint, the jobs radar, the job lifecycle, and undo /
  redo of step snapshots. For these it runs the statements and asks the library what to
  write; the other store operations have their rules in `src/` only.
- `tests/` runs the library on concrete values.
