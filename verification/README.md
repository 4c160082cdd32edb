# pyfastgrep

A ripgrep-style file search library whose core is verified with Verus.

- `src/` is the verified library: search configuration, per-file line
  search over a `grep` regex matcher, glob filtering of walked paths
  (`globset`), per-file counts and matching-file lists, hits with context
  lines, structural (syntax-tree) result assembly, CSV output, output-mode
  choice, and command-line option handling. Contracts are stated over
  `Seq`-based views; the calls into `grep`, `globset` and a few `std`
  functions sit behind small trusted wrappers.
- `app/` is the unverified shell: the command-line program, directory
  walking (`ignore`), file reading, parallelism (`rayon`), streaming
  channels (`crossbeam-channel`), the context-search sink, the tree-sitter
  parsing driver, JSON (`serde`), and the Python bindings (`pyo3`).
  No tree-sitter grammar is linked into this build:
  `TargetLanguage::from_extension` returns `None` for every extension, so
  structural search (`--functions`, `--classes`, `--imports`) finds nothing.
- `tests/` runs the library on concrete inputs.
