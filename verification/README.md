# pyappify

Environment management for a desktop launcher that runs Python applications
through [uv](https://github.com/astral-sh/uv). The decisions are written in
Verus and proved; the processes, files and configuration around them are
ordinary Rust.

- `src/` is the library. `text` and `version` are about text and the order of
  versions, `path` about where things are, `pip_args`, `uv` and `install` about
  the command lines that `uv` is run with, `python_env` about the interpreter,
  `command` and `command_text` about running, cancelling and showing a command.
- `tests/` runs the library on concrete values.
- `app/` is what touches the machine: it looks, starts, waits, and reports back
  to the library.

The library trusts one function of the standard library, `String::from_utf8_lossy`
(see `src/decode.rs`).
