# fincrime_core

The decision logic of a tick-based retail-bank operations simulation,
verified with Verus.

`src/` is the verified library:

- `monitoring` — transaction monitoring: which checks run on a tick, the
  structuring and velocity candidates (customers grouped by id), rapid money
  movement (deposit then withdrawal within a day, per account, in tick
  order), CTR and SAR terms (deadlines, lateness, fines), report ids and SAR
  narratives.
- `transactions` — payroll days, debit categories, payment rails and when a
  debit posts to the balance, counterparty names.
- `grouping`, `ordering` — grouping rows by key in order of first
  appearance, and stable ordering by tick, with their laws.
- `store_rules` — what the store computes around its queries: tick and flag
  columns, fee columns, command ids, look-back windows, uptime windows,
  reconciliation statuses.
- `runner` — the headless runner's flags, database and run names, clock
  stamp and interactive-protocol decisions.
- `text`, `windows`, `rows`, `types` — decimal text, tick windows, store
  rows, shared types.

`app/` holds what Verus does not check: the SQLite store, the transaction
and transaction-monitoring subsystems (random draws, dollar amounts as
floating point, database reads and writes) and the runner's message loop.
They call the library for every decision listed above.
