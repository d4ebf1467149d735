# humanize_plugin

Flows describe work as nodes with contracts, routes between them and resources beside them. A
driver runs a locked flow with agents in panes of tmux. This crate holds the rules of both as a
library whose behaviour is stated in contracts and proved by Verus.

- `src/flow`: flows, their findings and repairs, suggested flows, canonical form, locks, packages
  and what their directories give back.
- `src/kernel.rs`: artifacts, boards, contracts and events.
- `src/adapters`: hooks, life cycles, and the tmux adapter with its input transactions.
- `src/driver`: the state of a driver and its replay, requests and answers, allocations and
  cleanups, agents and their bindings, prompts and messages, locks and their releases, publication.
- `src/client_config`, `src/guard.rs`, `src/cli.rs`: what the programs are told and what they print.
- `src/input_ledger.rs`: the ledger of what was typed into panes.
- `src/json.rs`, `src/hash.rs`, `src/text.rs`, `src/number.rs`, `src/split.rs`, `src/order.rs`,
  `src/table.rs`: the ground they stand on.

Laws that relate several functions are public proof functions, each beside what it speaks of:
what a restart keeps, what is never sent twice, what is kept before it is told.

`app/` is the ordinary program around the library: files, sockets, processes, threads and signals.
The engine that keeps the state of runs is not part of this crate. A program that links one serves
its runs through `app/driver.rs`.
