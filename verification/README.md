# pulp

An archive tool built on a native 7-Zip provider. This crate holds its
logic, verified with Verus: the functions in `src/` state in contracts what
they return or change, and Verus proves them.

## Layout

- `src/` — the verified library:
  - `entry`, `format`, `detect`, `smart_extract`, `filesystem`, `policy`,
    `limits`, `operation`, `password`, `progress`, `backend`, `io`, `error`:
    archive entries and their names, handler descriptors, format detection,
    extraction planning and its safety rules, operation state and reports;
  - `native`: the decisions around the native provider (handler records,
    callback state machines, layered archives, update options);
  - `cli`, `output`, `locale`, `tasks`: the command lines' argument rules,
    what they print, locale selection and the multi-task progress
    dashboard;
  - `desktop`: the desktop application's window state, browsing, selection, settings,
    message catalogs and password exchange.
- `tests/` — tests of the library on concrete values.
- `app/` — the program around it: argument parsing, files, terminal, the
  native provider's foreign interface, the desktop application's worker
  jobs and the settings file format.

## Verifying

Run Verus on `src/lib.rs` with the crate's dependencies; the tests run with
`cargo test`.
