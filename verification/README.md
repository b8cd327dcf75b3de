# termul

The decisions behind a terminal application: terminals and their lifecycle, searches in a project,
and terminals in a web browser. The library is written in Verus. Every function states exactly what
it returns and changes, and is proved to do so; properties that span functions are proof functions
whose names begin with `law_`.

The library never touches the system. It is asked with plain values (what exists, what the clock
says, what a process wrote) and answers with plain values (what to look for, what to open, what to
send).

## Layout

- `src/` is the library.
  - `pty/`: environment, shells, the steps of a start, the manager of all terminals, their output.
  - `search/`: ripgrep and its output, batches of results, the walk for file names.
  - `remote/`: tokens and origins, the server, the session of a client.
  - `commands/`, `ipc.rs`: what the frontend asks for and is answered.
  - `text/`, `json.rs`, `lookup.rs`, `platform.rs`: what the others are made of.
- `tests/` runs the library.
- `app/` is ordinary Rust around the library: processes, files, sockets, the desktop.

## What is believed without proof

`String::push` and two conversions into `String` of the standard library have the contracts that
their documentation gives. `str::to_lowercase`, `String::from_utf8_lossy` and the reading of JSON by
`serde_json` are named and not spelled out: the same input gives the same result. `uuid` makes
identifiers of the usual form.
