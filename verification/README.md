# lightkeeper

The verified core of a server maintenance tool that monitors hosts and runs
commands on them over SSH. The library (`src/`) holds the configuration
model and its merging rules, the edits the configuration dialogs make, the
bookkeeping of connections, requests and host state, the layout decisions of
the user interface, and the small parsers and state machines between them.
Every function there carries a contract that Verus proves.

- `src/` — the verified library; each module starts with a comment saying
  what it decides.
- `tests/` — tests of the library on concrete values.
- `app/` — a small command-line front end: reading and writing the
  configuration files, and probing a host over SSH.

Verify with Verus on `src/lib.rs`; the tests run with `cargo test`.
