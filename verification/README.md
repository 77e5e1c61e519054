# utsh

UTSH is an interactive shell that speaks Bash syntax and hosts Zsh plugins
and themes, with a command-line tool to manage plugins, themes and aliases.
This crate is its core, written in Verus: the library in `src/` is verified
against its contracts.  A few calls into `std` and `serde_json` (pushing
onto a `String`, `char::is_alphanumeric`, `{:?}` formatting, reading a JSON
line, lossy UTF-8 decoding) sit behind small trusted wrappers whose
contracts state what those functions document; `toml` and `serde_json`
values and errors are carried through as declared outside types.

## Layout

- `src/` — the verified library
  - `zle/` — the line editor: keys, widgets, key maps, undo/redo, history
    search, vi modes (`spec.rs` holds the abstract state machine,
    `engine.rs` the executable engine, `laws.rs` its laws)
  - `alias.rs` — alias names and first-word expansion with a bounded
    number of rounds
  - `history.rs` — bounded history with duplicate suppression, prefix
    search, and the text of the history file
  - `config.rs`, `paths.rs` — configuration sections, defaults, aliases,
    theme and plugin switches; the directory layout
  - `plugins.rs` — the official market, source URLs, installation checks,
    manifests, load order
  - `shell.rs` — what a command line asks for, the end of a session,
    login-shell arguments, the prompt
  - `term.rs` — key decoding from terminal bytes, display width,
    autosuggestion, one key of an interactive session
  - `parser.rs`, `job_control.rs`, `hooks.rs`, `ipc.rs`, `cli.rs` — the
    syntax tree and its use, the job table, `preexec`/`precmd` hooks,
    JSON-RPC messages and dispatch, the command tree
  - `text.rs`, `sort.rs`, `table.rs`, `strmap.rs` — strings as character
    sequences, sorting, association lists, an ordered string map
- `tests/` — tests of the library
- `app/` — the program: argument parsing, files, the terminal, processes,
  sockets and threads
