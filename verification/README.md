# kfs-squid-editor

A terminal editor for Squid proxy configuration files (`squid.conf`): ACLs,
`http_access` rules, `auth_param basic` settings and `always_direct` /
`never_direct` rules, with validation, search, undo/redo and a backup on save.

The editor's logic is a library verified with Verus; the terminal program
around it is ordinary Rust.

## Layout

- `src/` — the verified library
  - `text.rs` — characters, whitespace, lines, words, searching, numbers
  - `model.rs` — the configuration and its values
  - `parser.rs` — reading a configuration (`parse`), stated line by line
  - `writer.rs` — writing a configuration (`write_config`)
  - `roundtrip.rs` — the proof that what the writer writes reads back as
    the same configuration
  - `reading.rs` — lines that the reader skips change nothing but the line
    numbers of later errors
  - `ipaddr.rs`, `validate.rs` — checking ACL values by type
  - `help.rs` — the help texts
  - `key.rs`, `input.rs` — key presses and the text fields
  - `state.rs` — the editor's state as a value, what each key press makes
    of it, and the laws it keeps (the invariant, undo and redo)
  - `app.rs` — the editor itself, proved to follow `state.rs`
- `tests/` — tests of the library
- `app/` — the program: command line, terminal, drawing, reading and
  writing the file, and the clock that clears status messages
