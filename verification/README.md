# fabro

The decision logic of the Fabro workflow server, written in Verus: every
function in `src/` carries a `requires` / `ensures` contract that Verus
proves, and the laws that span several functions stand as public proof
functions beside them.

## Layout

- `src/status.rs`, `src/reducer.rs`, `src/projection.rs`: run statuses and
  their transition table, and the projection that a run's event stream
  folds into (stages, checkpoints, pending interviews, control requests,
  patches and conclusions).
- `src/projection_cache.rs`, `src/live_run.rs`: cached projections and the
  live view of a running run.
- `src/run_lifecycle.rs`, `src/api.rs`, `src/steer.rs`, `src/answers.rs`,
  `src/session.rs`, `src/session_runtime.rs`: the server's decisions on
  starting, finishing, cancelling and steering runs, the scheduler's choice
  of the next run, and agent sessions.
- `src/ids.rs`, `src/keys.rs`, `src/records.rs`, `src/command_log.rs`: ids
  (ULIDs, SHA-256 digests) and storage keys.
- `src/template.rs`, `src/lint.rs`, `src/environment.rs`,
  `src/materializer.rs`, `src/github_repo.rs`, `src/diagnostics.rs`,
  `src/maintenance.rs`, `src/provenance.rs`: template rendering, workflow
  lint rules, environment and repository settings, and health checks.
- `app/`: the parts that do I/O (git, disk, storage, reports) around the
  library.
- `tests/`: tests that run the library with its outside crates linked.

Calls into outside crates (ulid, sha2, base64, minijinja, serde_json) sit
behind small wrappers whose contracts say what each call returns; those
contracts are trusted, everything built on them is proved.
