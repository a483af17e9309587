# submodule-kit

A command-line toolkit for git submodules, with its logic verified by Verus.

```sh
submodule-kit list
submodule-kit is <condition>...   # all-up-to-date, populated, clean, synced, on-branch
```

`is` exits 0 when every condition holds, 1 when one does not, and 2 on an error.

## Layout

- `src/` — the verified library.
  - `submodule.rs`: the `.gitmodules` grammar as a specification, its parser, the
    laws of the grammar, the list of submodules libgit2 reports, the commit id the
    parent's index records, and the reading of a branch tip from the output of
    `git ls-remote`.
  - `commands/list.rs`: the `list` command.
  - `commands/is/`: the `is` command; `conditions/` holds one module per condition.
    Each condition is a walk over the submodules in which every submodule
    contributes a status line and a verdict, or an error that stops the walk; what
    was found on disk or at a remote is a *probe*, and the status line of each
    probe is a pure function with an exact contract. `all-up-to-date` needs the tip
    of a branch at each remote, which `git ls-remote` reports: the walk stops with
    the question, the caller runs git and hands back its outcome, so `is` runs as a
    verified state machine (`IsRun`) that `app/` drives.
  - `strings.rs`, `text.rs`: messages, labels, and character-level text operations
    with their mathematical meaning.
  - `git.rs`: the trusted wrappers around `git2` and `std::path`.
- `tests/` — tests of the library, run against real repositories made in temporary
  directories.
- `app/main.rs` — argument parsing (`clap`), reading `.gitmodules`, running
  `git ls-remote`, printing.
