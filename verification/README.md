# project_launcher

The verified core of a desktop launcher for local Node.js projects (named
workspaces, several scripts of one project running side by side, live logs,
ports, and opening a project in an editor).

- `src/` — the library, verified with Verus:
  - `ids` — project identifiers (`_HEX_` encoding of the path) and run
    identifiers (`{pathId}@{script}`), with the proof that both are injective;
  - `paths` — checks of path texts and of directories;
  - `logs` — script names, package managers, colour codes, ports announced in
    logs, batching of log lines, exit reports;
  - `runs` — the table of running scripts (at most 20, one per run
    identifier, check and insert in one step) and the planning of start,
    install and stop requests;
  - `config` — projects, workspaces and the stored configuration;
  - `scan` — reading `package.json` scripts and the directory scan decisions;
  - `ide` — the table of known editors, launcher paths split into folders,
    launcher detection (the GUI launcher preferred to a wrapper script) and
    the checks before one is run (temporary folders included);
  - `text` — character-level helpers;
  - `outside` — every call into `regex`, `serde_json` and the parts of `std`
    that Verus has no specification for, with the contract that is trusted.
- `tests/` — tests of the library on concrete values.
- `app/` — the Tauri application around the library: IPC commands, processes,
  threads, the file system, the configuration store.
