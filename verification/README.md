# jarvis

A GitHub access helper: direct mode (fastest addresses written to the hosts
file), mirror mode and proxy mode (git URL rewrites and proxy settings), SSH
key checks, connection tests and an automatic speed test.

- `src/` is the verified library (Verus). `text` holds the string
  primitives (trim, lines, split, search, ordering) proved against
  specifications over `Seq<char>`; `command` the command lines; `git` the
  configuration plans and the proofs that resetting undoes them; `dns` the
  resolver output readers, the address choice and the hosts block; `speed`
  the speed test; `menu` the interactive menu; `system` the backup and SSH
  key paths, with the two trusted calls into `chrono` and `shellexpand`.
- `app/main.rs` is the command-line program: argument parsing (clap),
  prompts (dialoguer), colours (colored), running the commands and reading
  files.
- `tests/` runs the library on concrete inputs, and checks the text
  primitives against the standard library.
