# nao

`nao` runs the tasks of a KDL recipe (`.nao/nao.kdl`, or `nao.kdl`) in dependency order
and in parallel, records every run under `.nao/runs`, and shows runs in a terminal UI.

## Layout

- `src/` is the verified library. Verus proves the contracts of its functions; the calls
  into `kdl`, `miette`, `time` and std's lossy UTF-8 decoding go through a few trusted
  wrappers (in `kdl_model`, `artifacts`, `output_framer` and `text`) whose contracts are
  stated, not proved. The modules:
  - recipes: `recipe`, `recipe_parse` (the recipe grammar over the KDL model of
    `kdl_model`), `source_location`, `selectors`, `planning`;
  - execution: `scheduler` (ready queue, capacity, fail-early and fail-late skipping),
    `run_progress` (one executing run, event by event),
    `process_command`, `output_framer`, `run_outcome`, `run_recording`, `cancellation`;
  - artifacts: `artifacts`, `artifact_records`, `run_history`, `duration`, `file_path`,
    `text`;
  - output: `rendering`, `runner`, `ci_output`, `observer`, `cli`;
  - terminal UI decisions: `navigation`, `launcher`, `refresh`, `tui`, `tui_text`.
- `app/` is the `nao` program: argument parsing, files, processes and threads, JSON
  files, and the ratatui screens. It hands plain values to the library and acts on what
  comes back.
- `tests/` exercises the library on concrete values.
