//! Runs and task runs of the local runner, and the specification a task is started with.
//!
//! Timestamps are milliseconds since the Unix epoch.
use indexmap::IndexMap;
use vstd::prelude::*;

use crate::compiled::CompiledWorkflow;
use crate::ids::{lemma_hex_fixed_len, new_uuid, random_v4, uuid_string, uuid_text};
use crate::json::Json;
use crate::keyed::{entries_get, has_key};
use crate::maps::{task_entries, task_map_get};
use crate::workflow::{ExecutorKind, Workflow};

verus! {

#[derive(Debug, Clone, Copy, PartialEq, Eq)]
pub enum RunStatus {
    Pending,
    Running,
    Paused,
    Success,
    Failed,
    Cancelled,
}

#[derive(Debug, Clone, Copy, PartialEq, Eq)]
pub enum TaskStatus {
    Pending,
    Paused,
    Dispatched,
    Running,
    Success,
    Failed,
    Skipped,
    Cancelled,
}

#[derive(Debug)]
pub struct Run {
    pub id: String,
    pub workflow: String,
    pub status: RunStatus,
    pub created_at: i64,
    pub started_at: Option<i64>,
    pub finished_at: Option<i64>,
}

#[derive(Debug)]
pub struct TaskRun {
    pub run_id: String,
    pub task: String,
    pub status: TaskStatus,
    pub attempt: u32,
    pub max_retries: u32,
    pub created_at: i64,
    pub dispatched_at: Option<i64>,
    pub started_at: Option<i64>,
    pub finished_at: Option<i64>,
    pub error: Option<String>,
    pub output: Option<Json>,
}

/// What a task is started with: where it belongs, its input, and the outputs of the tasks
/// it depends on.
#[derive(Debug)]
pub struct TaskSpec {
    pub run_id: String,
    pub workflow_name: String,
    pub task_name: String,
    pub attempt: u32,
    pub executor: ExecutorKind,
    pub input: Json,
    pub upstream: IndexMap<String, Json>,
}

#[derive(Debug)]
pub struct TaskStatusFile {
    pub status: TaskStatus,
    pub started_at: Option<i64>,
    pub finished_at: Option<i64>,
    pub heartbeat_at: Option<i64>,
    pub error: Option<String>,
}

/// `Utc::now()` in milliseconds since the Unix epoch. The value depends on the clock;
/// nothing is stated of it.
#[verifier::external_body]
fn now_millis() -> (r: i64) {
    chrono::Utc::now().timestamp_millis()
}

impl TaskSpec {
    /// The specification of task `task_name` of a workflow definition; none when the
    /// workflow has no such task.
    pub fn from_workflow(
        workflow: &Workflow,
        run_id: String,
        task_name: &str,
        attempt: u32,
        upstream: IndexMap<String, Json>,
    ) -> (r: Option<Self>)
        ensures
            r is Some <==> has_key(task_entries(workflow.tasks), task_name@),
            r matches Some(s) ==> {
                let d = entries_get(task_entries(workflow.tasks), task_name@)->0;
                &&& s.run_id == run_id
                &&& s.workflow_name == workflow.name
                &&& s.task_name@ == task_name@
                &&& s.attempt == attempt
                &&& s.executor == d.executor
                &&& s.input@ == d.input@
                &&& s.upstream == upstream
            },
    {
        let definition = match task_map_get(&workflow.tasks, task_name) {
            Some(d) => d,
            None => {
                return None;
            },
        };
        Some(
            TaskSpec {
                run_id,
                workflow_name: workflow.name.clone(),
                task_name: task_name.to_owned(),
                attempt,
                executor: definition.executor,
                input: definition.input.deep_clone(),
                upstream,
            },
        )
    }

    /// The specification of the task at position `task_idx` of a compiled workflow; none
    /// when there is no such position.
    pub fn from_compiled(
        workflow: &CompiledWorkflow,
        run_id: String,
        task_idx: usize,
        attempt: u32,
        upstream: IndexMap<String, Json>,
    ) -> (r: Option<Self>)
        ensures
            r is Some <==> task_idx < workflow.tasks.len(),
            r matches Some(s) ==> {
                let d = workflow.tasks@[task_idx as int];
                &&& s.run_id == run_id
                &&& s.workflow_name == workflow.name
                &&& s.task_name == d.name
                &&& s.attempt == attempt
                &&& s.executor == d.executor
                &&& s.input@ == d.input@
                &&& s.upstream == upstream
            },
    {
        if task_idx >= workflow.tasks.len() {
            return None;
        }
        let definition = &workflow.tasks[task_idx];
        Some(
            TaskSpec {
                run_id,
                workflow_name: workflow.name.clone(),
                task_name: definition.name.clone(),
                attempt,
                executor: definition.executor,
                input: definition.input.deep_clone(),
                upstream,
            },
        )
    }
}

impl Run {
    /// A new pending run of a workflow, with a fresh random id.
    pub fn new(workflow: &Workflow) -> (r: Self)
        ensures
            r.workflow == workflow.name,
            r.status == RunStatus::Pending,
            r.started_at is None,
            r.finished_at is None,
            exists|u: u128| r.id@ == #[trigger] uuid_text(u) && random_v4(u),
            r.id@.len() == 36,
    {
        let now = now_millis();
        let u = new_uuid();
        let id = uuid_string(u);
        proof {
            lemma_hex_fixed_len(u as nat, 32);
            reveal_strlit("-");
        }
        assert(id@ == uuid_text(u) && random_v4(u));
        Run {
            id,
            workflow: workflow.name.clone(),
            status: RunStatus::Pending,
            created_at: now,
            started_at: None,
            finished_at: None,
        }
    }
}

} // verus!
