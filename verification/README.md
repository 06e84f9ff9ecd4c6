# uffs

The decisions of the UFFS command line and of its privileged broker, verified with Verus.

- `src/` is the library: what arguments mean, what a command does next, what is told, which bytes
  travel over the snapshot pipe, and how leases on snapshots live and end. Every function states in
  its contract what it returns; public proof functions named `law_…` state what holds across
  functions.
- `tests/` runs the library on concrete values.
- `app/` is the program around it: files, processes, the terminal and the connection to the daemon.

What is believed without proof is marked `external_body` and named in a doc comment: `String::push`,
`String::from_utf8`, `char::from_u32`, and reading JSON with `serde_json`.
