# mutants

Mutation testing for Bazel Rust targets: `cargo-mutants` lists the mutants,
and a runner replays the recorded `rustc --test` build once per mutant,
patching the mutated span into a scratch copy of the sources.

The library (`src/`) holds the runner's logic, verified with Verus:

- `span` — replacing a span given by 1-based line and character column, and
  the laws that the text outside the span is kept and that putting the old
  text back undoes a replacement;
- `text` — the string operations the runner relies on (`replace`, `lines`,
  `split_once`, integer parsing and rendering), each against a plain
  statement of what it computes;
- `manifest`, `listing` — the runner's and the lister's flag parsing (with
  `@file` arguments spliced in place, and the library and integration suites
  a mutant is also checked against), and the lister's synthetic Cargo
  manifest;
- `shard` — Bazel test sharding, the partition of the mutant list, job count
  and timeout;
- `path`, `sources`, `replay` — paths compared by their components, the
  unmutated sources by path, and the redirection of the recorded build into a
  job's scratch tree;
- `mutant`, `report` — reading a mutant record (through serde_json), the
  mutated source, the verdict on a mutant, and the run's report, which does
  not depend on the order in which the mutants finished;
- `supervise` — waiting for a test run (when it is over, when a hung run is
  killed), the checks of the unmutated build and tests, and the order of a
  mutant's builds (test binary, library, suites) and runs (unit tests, then
  each suite), stopping at the first failure;
- `expect` — the checks of the example harnesses;
- `integration_covered`, `under_tested`, `unit_first`, `well_tested` — the
  sample crates the runner is exercised on.

`app/` holds the programs around it: file, process and environment access,
threads, and `main`.
