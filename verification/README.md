# bishop

The logic of Bishop, a desktop companion for a small `./deploy` CLI that
ships web projects to servers with Docker: projects and their environments,
`.env` editing on the server, the ssh and terminal command lines, the error
catalog, deploy history migrations, scaffold locations, pasted files, and the
tray menu. Verus proves every function in `src/` against its contract;
where the outcome rests on an outside party (the SQLite database, the
clock, the machine), the contract states what the library itself decides:
what it sends and what it makes of each answer. The migration runner is a
state machine (`db::MigrationRun`) whose step function fixes each statement
sent and where each answer leads; the runner carries its actions out. The laws
that span several calls are public proof functions (named `law_…`).

Layout:

- `src/` — the verified library (`text.rs` holds the character-level string
  model the parsers share).
- `tests/` — scenarios run against the compiled library.
- `app/` — the shell around it: file, process, ssh, pty and SQLite I/O, the
  JSON shapes of the frontend, and the handlers it calls. The window, its
  event bus and notifications come in through the `Desktop` trait.
