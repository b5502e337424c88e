# driftpin

A runtime contract auditor: it reads the files of a repository that declare
node and python versions (`package.json`, `.nvmrc`, `.node-version`,
`.python-version`, `.tool-versions`, `pyproject.toml`, Dockerfiles, GitHub
Actions workflows) and reports a development version that lies outside the
range the project supports.

- `src/` is the library, verified with Verus: the readers of each file
  format (`parsers/`), the text helpers they share (`text.rs`), the model of
  parsed JSON/TOML/YAML documents (`data.rs`) and the calls of their parsers
  (`formats.rs`), the rules (`rules.rs`, `python_rules.rs`) with the
  node-semver and pep440 calls behind `semver.rs` and `pep440.rs` (and, in
  `semver_syntax.rs`, the range texts on which node-semver's parser aborts),
  the ordering of workflow declarations (`scanner.rs`) and the report of an
  audit (`report.rs`).
- `app/` is the command line program: reading files and directories, and
  printing.
- `tests/` runs the library on concrete files and documents.
