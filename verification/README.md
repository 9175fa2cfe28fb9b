# ggit

`ggit` tracks Git repositories across a machine: it scans a directory tree
for repositories, keeps them in a SQLite registry, shows their status and
runs fast-forward-only pulls across them.

Layout:

- `src/` is the library, written in Verus. Its functions carry contracts
  and are proved against them, except the trusted items: the wrappers
  marked `#[verifier::external_body]` around `comfy_table`, `std::path` and
  `str::to_lowercase`, and the specification given to `String::push`. Their
  contracts are believed, not proved; each says in its doc comment what it
  claims of the call it makes:
  - `text` — whitespace, line, search, `LIKE`-pattern and decimal rules on
    characters;
  - `status` — reading `git status --porcelain=v1 --branch` and the status row;
  - `git` — what the output of the other `git` commands means;
  - `scan` — which directories a scan prunes or records, and the path order;
  - `commands` — the decisions of the subcommands (selection, confirmation,
    the step-by-step pull of one repository, the tallies);
  - `output` — the cells and drawing of the printed tables;
  - `paths` — what `std::path` says about paths held as text;
  - `db` — the repository record and the name filter, a case-insensitive
    `LIKE` match anywhere in the name;
  - `cli`, `error` — the command line and the errors.
- `app/` is the program around it: argument parsing, the SQLite registry,
  running `git`, walking the file system and printing.
- `tests/` exercises the library.
