# editr

`editr` opens a remote project (`host:/absolute/path`) in a local editor by
keeping a Mutagen mirror of it on the local machine.

This crate is written in Verus. Everything that decides what `editr` does is in
`src/`, with contracts that Verus proves:

- `target`, `naming`, `hash`: targets, mirror paths and session names;
- `config`, `wildcard`, `order`: the configuration, its ignore table and the
  target patterns that select ignore rules;
- `open`, `session`, `context`, `hydrate`: resolving an open, deciding how to
  start, session records and their classification, hydration of single files;
- `mutagen`, `ssh`, `editor`, `process`, `commands`: the arguments and
  commands handed to other programs, how their output is read, and the session
  manager's decisions;
- `quantity`, `decimal`, `shell`, `text`: sizes and durations, quoting, and
  character-level helpers.

`app/` is the command-line program around the library: argument parsing, files,
TOML and JSON, and running `mutagen`, `ssh` and the editor. `tests/` exercises
the library on concrete values.
