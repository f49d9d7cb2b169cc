# veri

The core of an impact-aware, pytest-compatible test runner, written in Verus
with its behaviour stated in `requires`/`ensures` contracts and proved.

## Layout

- `src/` — the verified library: test selection from changed files and the
  import graph (`planner`), scheduling into worker batches (`scheduler`), CI
  sharding (`sharder`, `commands`), flaky-test tracking (`flaky`), coverage
  merging and reports (`coverage`), the plugin allowlist and scanner
  (`security`), compatibility reports (`compatibility`), configuration
  precedence (`config`), watch-mode debouncing (`watch`), the worker pool's
  bookkeeping (`worker_pool`), run summaries (`execution`), the decisions of
  a command-line run (`orchestrator`), diagnostics, telemetry counters,
  event streams and JUnit reports.  Durations are whole milliseconds and
  ratios thousandths (or hundredths of a percent) throughout.
- `tests/` — tests of the library on concrete values.
- `app/` — the command-line program: argument parsing, configuration
  files, the Python processes (one pytest per scheduled batch, run in
  parallel, each launched through the library's backend
  order), the environment checks, watch mode's file events and terminal,
  the JSONL and JUnit files of a shard, git and the file system.

Each law the library keeps across calls is a public `proof fn` whose doc
comment states it (for instance `planner::lemma_changed_test_file_selected`,
`sharder::lemma_placed_partition`, `security::lemma_allow_block_round_trip`).
