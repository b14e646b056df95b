# ork

A workflow orchestrator: workflows are YAML definitions of tasks and the dependencies
between them; a scheduler turns runs of a workflow into task rows, dispatches ready tasks
to executors (processes, Python, shared libraries, remote workers), records what they
report, retries failures with exponential backoff, fails what depends on a failed task and
closes runs. Long-running outside jobs (BigQuery, Cloud Run, Dataproc, custom HTTP) are
handed back as deferrables and polled by a triggerer. A local runner runs a compiled
workflow on one machine.

## Layout

- `src/` is the library, verified with Verus. Every decision of the orchestrator lives
  here with a contract: validation of definitions and of their type schemas, compilation
  (positions, a topological order in the order of Kahn's algorithm, the stored task rows),
  run task creation, input bindings and upstream outputs, dispatch, status updates,
  retries and the rounds of failing dependents, timeouts, run
  completion, deferred-job polling, schedules, the process environment of a task and the
  updates one execution of it sends, the rounds and steps of the local runner, and the
  job trackers' reading of job data and of outside answers. Laws that span functions are
  public proof functions named `law_*`; two of them speak of whole runs, given as
  sequences of steps (`law_one_final_update`, `law_local_run`).
- `app/` is the runtime around it: YAML and JSON through serde, the store, processes,
  shared libraries, HTTP, and the loops of the scheduler, the triggerer and the local
  runner. It asks the library for the decisions it carries out; what stays in it is I/O,
  timing (when the scheduler loop sleeps) and concurrency (how many tasks run at once).
  Of the trackers it polls only custom HTTP endpoints: the BigQuery, Cloud Run and
  Dataproc clients are not part of this build, though reading their job data and their
  answers is in `src/job_tracker.rs`.
- `tests/` exercises the library on concrete values.
