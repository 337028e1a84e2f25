# store_journal

The transactional substrate of a managed-agents store, verified with Verus.

The store is two JSON files, `managed-agents.json` and `teams.json`, and a
SQLite journal beside them, `store-journal.sqlite`. Cooperating processes on
one machine share them under an advisory lock.

- `src/` is the verified library. Calls into `rusqlite`, `serde_json`, `uuid`
  and the standard library's clock go through small wrappers whose contracts
  are trusted; what they claim stands in their doc comments. The journal keeps a
  ghost record of its database calls, and every function says exactly which
  calls it adds. Everything else is proved, and the laws that hold across
  functions are public proof functions named `law_...`. `src/rows.rs` reads the
  journal's statements as changes of rows and states what follows while no other
  process writes.
- `app/` is what touches the machine: files, locks, JSON records, logging. It
  performs the actions that the library decides on and hands back what they
  came to.
- `tests/` runs the library with the real crates.
