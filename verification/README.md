# sessy

A two-pane terminal browser for the recorded sessions of a coding assistant: it
lists them, searches them, previews their conversations and resumes them.

- `src/` is the library. All of it is verified with Verus: what a session file
  tells, the index and the text cache, search and ranking, the state of the
  browser and what each key makes of it, and the lines that are drawn.
- `app/` is the program around it: the command line, files, threads, the
  terminal, the clock and the clipboard.
- `tests/` runs the library on concrete values.

The program is told which assistant it serves by the environment variable
`SESSY_ASSISTANT`, the name of the assistant's command. Sessions are read from
`~/.<command>/projects`, and resumed with `<command> --resume <id>`.

What the library takes from other crates stands behind items whose contracts are
believed, not proved. Each has a doc comment that says what is claimed of the
function it calls: `serde_json` (reading documents and writing lists of texts),
`toml`, `bincode`, `regex`, `chrono`, `memchr`, `rayon`, and a few functions of
the standard library.
