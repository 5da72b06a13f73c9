# analyzer

A build-tool error analyzer: it runs a command of a supported tool (Cargo,
npm, Maven, Gradle, Mypy, Go, Pytest, C/C++ compilers and more), filters and
parses its output, and writes a report of the errors and warnings found, in
Markdown, JSON, HTML or raw lines.

## Layout

- `src/` — the library, written in Verus and verified:
  - `text.rs`, `pattern.rs`: character-sequence helpers and the regular
    expression calls the logic makes;
  - `discover/`: splitting shell commands and classifying them by the rule
    table;
  - `analysis/`: issues and results, option filtering, output
    post-processing and streaming filters, parsers, test results, run
    tracking, the analysis pipeline;
  - `config/`: configuration tables, merging, environment overrides, filter
    registry, tee decisions;
  - `report/`: the Markdown, JSON, HTML and raw reporters;
  - `cli.rs`: command-line parsing and command resolution.
- `app/` — the program around the library: argument handling, file and
  process I/O, TOML files, timing.
- `tests/` — tests of the library.
