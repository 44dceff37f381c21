# codex_usage

Token accounting for Codex usage rollouts, verified with Verus.

The library (`src/`) turns decoded rollout records into per-day, per-model
token deltas and keeps the state that decides which counters a rollout
owns: session lineage, forks and their parents, provider ordinals,
fast-turn evidence. Around that it holds the rules of an indexing pass
(file cursors, byte and time budgets, the order files are worked on,
finding the rollouts of required parents), response-record accounting,
the account usage cache, pricing-catalog lookups and repricing, and the
content-free failure evidence of a scan. Every function there carries a
contract that Verus checks; the `law_*` proof functions state properties
that span several calls.

`app/` is the unverified edge: decoding JSON records with serde, reading
files, SQLite, the thread-local failure slot, and the floating-point
pricing arithmetic. `tests/` exercises the library on concrete values.
