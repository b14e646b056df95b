//! Records of the orchestration store and the statuses they carry as text.
//!
//! Identifiers are UUIDs held as their 128-bit value; timestamps are milliseconds since
//! the Unix epoch.
use vstd::prelude::*;

use crate::json::Json;
use crate::text::{lowercase, str_eq, to_lowercase};

verus! {

/// The executor a stored workflow runs its tasks with.
#[derive(Debug, Clone, Copy, PartialEq, Eq)]
pub enum ExecutorType {
    CloudRun,
    Process,
    Python,
    Library,
}

/// The status of a stored task.
#[derive(Debug, Clone, Copy, PartialEq, Eq)]
pub enum TaskStatus {
    Pending,
    Running,
    Paused,
    Success,
    Failed,
}

/// The status of a stored run.
#[derive(Debug, Clone, Copy, PartialEq, Eq)]
pub enum RunStatus {
    Pending,
    Running,
    Paused,
    Success,
    Failed,
}

/// The status of a deferred job polled by the triggerer.
#[derive(Debug, Clone, Copy, PartialEq, Eq)]
pub enum DeferredJobStatus {
    Pending,
    Polling,
    Completed,
    Failed,
    Cancelled,
}

pub open spec fn executor_type_text(e: ExecutorType) -> Seq<char> {
    match e {
        ExecutorType::CloudRun => "cloudrun"@,
        ExecutorType::Process => "process"@,
        ExecutorType::Python => "python"@,
        ExecutorType::Library => "library"@,
    }
}

/// The executor type a lowercase name denotes.
pub open spec fn executor_type_named(l: Seq<char>) -> Option<ExecutorType> {
    if l == "cloudrun"@ {
        Some(ExecutorType::CloudRun)
    } else if l == "process"@ {
        Some(ExecutorType::Process)
    } else if l == "python"@ {
        Some(ExecutorType::Python)
    } else if l == "library"@ {
        Some(ExecutorType::Library)
    } else {
        None
    }
}

pub open spec fn task_status_text(s: TaskStatus) -> Seq<char> {
    match s {
        TaskStatus::Pending => "pending"@,
        TaskStatus::Running => "running"@,
        TaskStatus::Paused => "paused"@,
        TaskStatus::Success => "success"@,
        TaskStatus::Failed => "failed"@,
    }
}

pub open spec fn run_status_text(s: RunStatus) -> Seq<char> {
    match s {
        RunStatus::Pending => "pending"@,
        RunStatus::Running => "running"@,
        RunStatus::Paused => "paused"@,
        RunStatus::Success => "success"@,
        RunStatus::Failed => "failed"@,
    }
}

/// The run status a lowercase name denotes.
pub open spec fn run_status_named(l: Seq<char>) -> Option<RunStatus> {
    if l == "pending"@ {
        Some(RunStatus::Pending)
    } else if l == "running"@ {
        Some(RunStatus::Running)
    } else if l == "paused"@ {
        Some(RunStatus::Paused)
    } else if l == "success"@ {
        Some(RunStatus::Success)
    } else if l == "failed"@ {
        Some(RunStatus::Failed)
    } else {
        None
    }
}

pub open spec fn deferred_status_text(s: DeferredJobStatus) -> Seq<char> {
    match s {
        DeferredJobStatus::Pending => "pending"@,
        DeferredJobStatus::Polling => "polling"@,
        DeferredJobStatus::Completed => "completed"@,
        DeferredJobStatus::Failed => "failed"@,
        DeferredJobStatus::Cancelled => "cancelled"@,
    }
}

/// The deferred job status a lowercase name denotes.
pub open spec fn deferred_status_named(l: Seq<char>) -> Option<DeferredJobStatus> {
    if l == "pending"@ {
        Some(DeferredJobStatus::Pending)
    } else if l == "polling"@ {
        Some(DeferredJobStatus::Polling)
    } else if l == "completed"@ {
        Some(DeferredJobStatus::Completed)
    } else if l == "failed"@ {
        Some(DeferredJobStatus::Failed)
    } else if l == "cancelled"@ {
        Some(DeferredJobStatus::Cancelled)
    } else {
        None
    }
}

impl ExecutorType {
    /// The executor type of a name that is already lowercase.
    pub fn parse_lowercase(l: &str) -> (r: Option<Self>)
        ensures
            r == executor_type_named(l@),
    {
        if str_eq(l, "cloudrun") {
            Some(ExecutorType::CloudRun)
        } else if str_eq(l, "process") {
            Some(ExecutorType::Process)
        } else if str_eq(l, "python") {
            Some(ExecutorType::Python)
        } else if str_eq(l, "library") {
            Some(ExecutorType::Library)
        } else {
            None
        }
    }

    /// The executor type a name denotes, in any letter case.
    pub fn parse(s: &str) -> (r: Option<Self>)
        ensures
            r == executor_type_named(lowercase(s@)),
    {
        let l = to_lowercase(s);
        Self::parse_lowercase(l.as_str())
    }

    pub fn as_str(&self) -> (r: &'static str)
        ensures
            r@ == executor_type_text(*self),
    {
        match self {
            ExecutorType::CloudRun => "cloudrun",
            ExecutorType::Process => "process",
            ExecutorType::Python => "python",
            ExecutorType::Library => "library",
        }
    }
}

impl std::str::FromStr for ExecutorType {
    type Err = ();

    /// The value a name denotes in any letter case, as `parse` gives it; `Err(())` for
    /// any other name.
    fn from_str(s: &str) -> (r: Result<Self, Self::Err>)
        ensures
            match executor_type_named(lowercase(s@)) {
                Some(v) => r == Ok::<Self, ()>(v),
                None => r == Err::<Self, ()>(()),
            },
    {
        match Self::parse(s) {
            Some(v) => Ok(v),
            None => Err(()),
        }
    }
}

impl TaskStatus {
    pub fn as_str(&self) -> (r: &'static str)
        ensures
            r@ == task_status_text(*self),
    {
        match self {
            TaskStatus::Pending => "pending",
            TaskStatus::Running => "running",
            TaskStatus::Paused => "paused",
            TaskStatus::Success => "success",
            TaskStatus::Failed => "failed",
        }
    }
}

impl RunStatus {
    /// The run status of a name that is already lowercase.
    pub fn parse_lowercase(l: &str) -> (r: Option<Self>)
        ensures
            r == run_status_named(l@),
    {
        if str_eq(l, "pending") {
            Some(RunStatus::Pending)
        } else if str_eq(l, "running") {
            Some(RunStatus::Running)
        } else if str_eq(l, "paused") {
            Some(RunStatus::Paused)
        } else if str_eq(l, "success") {
            Some(RunStatus::Success)
        } else if str_eq(l, "failed") {
            Some(RunStatus::Failed)
        } else {
            None
        }
    }

    /// The run status a name denotes, in any letter case.
    pub fn parse(s: &str) -> (r: Option<Self>)
        ensures
            r == run_status_named(lowercase(s@)),
    {
        let l = to_lowercase(s);
        Self::parse_lowercase(l.as_str())
    }

    pub fn as_str(&self) -> (r: &'static str)
        ensures
            r@ == run_status_text(*self),
    {
        match self {
            RunStatus::Pending => "pending",
            RunStatus::Running => "running",
            RunStatus::Paused => "paused",
            RunStatus::Success => "success",
            RunStatus::Failed => "failed",
        }
    }
}

impl std::str::FromStr for RunStatus {
    type Err = ();

    /// The value a name denotes in any letter case, as `parse` gives it; `Err(())` for
    /// any other name.
    fn from_str(s: &str) -> (r: Result<Self, Self::Err>)
        ensures
            match run_status_named(lowercase(s@)) {
                Some(v) => r == Ok::<Self, ()>(v),
                None => r == Err::<Self, ()>(()),
            },
    {
        match Self::parse(s) {
            Some(v) => Ok(v),
            None => Err(()),
        }
    }
}

impl DeferredJobStatus {
    /// The deferred job status of a name that is already lowercase.
    pub fn parse_lowercase(l: &str) -> (r: Option<Self>)
        ensures
            r == deferred_status_named(l@),
    {
        if str_eq(l, "pending") {
            Some(DeferredJobStatus::Pending)
        } else if str_eq(l, "polling") {
            Some(DeferredJobStatus::Polling)
        } else if str_eq(l, "completed") {
            Some(DeferredJobStatus::Completed)
        } else if str_eq(l, "failed") {
            Some(DeferredJobStatus::Failed)
        } else if str_eq(l, "cancelled") {
            Some(DeferredJobStatus::Cancelled)
        } else {
            None
        }
    }

    /// The deferred job status a name denotes, in any letter case.
    pub fn parse(s: &str) -> (r: Option<Self>)
        ensures
            r == deferred_status_named(lowercase(s@)),
    {
        let l = to_lowercase(s);
        Self::parse_lowercase(l.as_str())
    }

    pub fn as_str(&self) -> (r: &'static str)
        ensures
            r@ == deferred_status_text(*self),
    {
        match self {
            DeferredJobStatus::Pending => "pending",
            DeferredJobStatus::Polling => "polling",
            DeferredJobStatus::Completed => "completed",
            DeferredJobStatus::Failed => "failed",
            DeferredJobStatus::Cancelled => "cancelled",
        }
    }
}

impl std::str::FromStr for DeferredJobStatus {
    type Err = ();

    /// The value a name denotes in any letter case, as `parse` gives it; `Err(())` for
    /// any other name.
    fn from_str(s: &str) -> (r: Result<Self, Self::Err>)
        ensures
            match deferred_status_named(lowercase(s@)) {
                Some(v) => r == Ok::<Self, ()>(v),
                None => r == Err::<Self, ()>(()),
            },
    {
        match Self::parse(s) {
            Some(v) => Ok(v),
            None => Err(()),
        }
    }
}

/// The stored JSON value of a record field.
pub fn json_inner(j: &Json) -> (r: &Json)
    ensures
        r == j,
{
    j
}

/// A stored workflow.
#[derive(Debug)]
pub struct Workflow {
    pub id: u128,
    pub name: String,
    pub description: Option<String>,
    pub job_name: String,
    pub region: String,
    pub project: String,
    pub executor_type: String,
    pub task_params: Option<Json>,
    pub schedule: Option<String>,
    pub schedule_enabled: bool,
    pub last_scheduled_at: Option<i64>,
    pub next_scheduled_at: Option<i64>,
    pub created_at: i64,
    pub updated_at: i64,
}

/// A stored run; its status is kept as text.
#[derive(Debug)]
pub struct Run {
    pub id: u128,
    pub workflow_id: u128,
    pub status: String,
    pub triggered_by: String,
    pub started_at: Option<i64>,
    pub finished_at: Option<i64>,
    pub error: Option<String>,
    pub created_at: i64,
}

impl Run {
    /// The run's status; text that names no status reads as pending.
    pub fn status(&self) -> (r: RunStatus)
        ensures
            r == (match run_status_named(lowercase(self.status@)) {
                Some(s) => s,
                None => RunStatus::Pending,
            }),
    {
        match RunStatus::parse(self.status.as_str()) {
            Some(s) => s,
            None => RunStatus::Pending,
        }
    }

    pub fn status_str(&self) -> (r: &str)
        ensures
            r@ == self.status@,
    {
        self.status.as_str()
    }
}

/// A stored task.
#[derive(Debug)]
pub struct Task {
    pub id: u128,
    pub run_id: u128,
    pub task_index: i32,
    pub task_name: String,
    pub executor_type: String,
    pub depends_on: Vec<String>,
    pub status: String,
    pub attempts: i32,
    pub max_retries: i32,
    pub timeout_seconds: Option<i32>,
    pub retry_at: Option<i64>,
    pub execution_name: Option<String>,
    pub params: Option<Json>,
    pub output: Option<Json>,
    pub logs: Option<String>,
    pub error: Option<String>,
    pub dispatched_at: Option<i64>,
    pub started_at: Option<i64>,
    pub finished_at: Option<i64>,
    pub created_at: i64,
}

impl Task {
    pub fn status_str(&self) -> (r: &str)
        ensures
            r@ == self.status@,
    {
        self.status.as_str()
    }
}

/// A stored task together with what the scheduler needs of its workflow.
#[derive(Debug)]
pub struct TaskWithWorkflow {
    pub task_id: u128,
    pub run_id: u128,
    pub task_index: i32,
    pub task_name: String,
    pub executor_type: String,
    pub depends_on: Vec<String>,
    pub task_status: TaskStatus,
    pub attempts: i32,
    pub max_retries: i32,
    pub timeout_seconds: Option<i32>,
    pub retry_at: Option<i64>,
    pub execution_name: Option<String>,
    pub params: Option<Json>,
    pub workflow_id: u128,
    pub job_name: String,
    pub project: String,
    pub region: String,
}

/// A stored task definition of a workflow.
#[derive(Debug)]
pub struct WorkflowTask {
    pub id: u128,
    pub workflow_id: u128,
    pub task_index: i32,
    pub task_name: String,
    pub executor_type: String,
    pub depends_on: Vec<String>,
    pub params: Option<Json>,
    pub created_at: i64,
}

/// A long-running outside job that the triggerer polls; its status is kept as text.
#[derive(Debug)]
pub struct DeferredJob {
    pub id: u128,
    pub task_id: u128,
    pub service_type: String,
    pub job_id: String,
    pub job_data: Json,
    pub status: String,
    pub error: Option<String>,
    pub created_at: i64,
    pub started_at: Option<i64>,
    pub last_polled_at: Option<i64>,
    pub finished_at: Option<i64>,
}

/// The status of a deferred job; text that names no status reads as pending.
pub open spec fn deferred_job_status(j: DeferredJob) -> DeferredJobStatus {
    match deferred_status_named(lowercase(j.status@)) {
        Some(s) => s,
        None => DeferredJobStatus::Pending,
    }
}

impl DeferredJob {
    /// The job's status; text that names no status reads as pending.
    pub fn status(&self) -> (r: DeferredJobStatus)
        ensures
            r == deferred_job_status(*self),
    {
        match DeferredJobStatus::parse(self.status.as_str()) {
            Some(s) => s,
            None => DeferredJobStatus::Pending,
        }
    }

    pub fn status_str(&self) -> (r: &str)
        ensures
            r@ == self.status@,
    {
        self.status.as_str()
    }
}

/// Reading back the name of an executor type gives that type.
pub proof fn law_executor_type_round_trip(t: ExecutorType)
    ensures
        executor_type_named(executor_type_text(t)) == Some(t),
{
    reveal_strlit("cloudrun");
    reveal_strlit("process");
    reveal_strlit("python");
    reveal_strlit("library");
    let n = executor_type_text(t);
    match t {
        ExecutorType::CloudRun => {},
        ExecutorType::Process => {
            assert(n[0] != "cloudrun"@[0]);
        },
        ExecutorType::Python => {
            assert(n[0] != "cloudrun"@[0]);
            assert(n[1] != "process"@[1]);
        },
        ExecutorType::Library => {
            assert(n[0] != "cloudrun"@[0]);
            assert(n[0] != "process"@[0]);
            assert(n[0] != "python"@[0]);
        },
    }
}

/// Reading back the name of a run status gives that status.
pub proof fn law_run_status_round_trip(s: RunStatus)
    ensures
        run_status_named(run_status_text(s)) == Some(s),
{
    reveal_strlit("pending");
    reveal_strlit("running");
    reveal_strlit("paused");
    reveal_strlit("success");
    reveal_strlit("failed");
    let t = run_status_text(s);
    if t != "pending"@ {
        assert(t[0] != 'p' || t[1] != 'e');
    }
    match s {
        RunStatus::Pending => {},
        RunStatus::Running => {
            assert(t[0] != "pending"@[0]);
        },
        RunStatus::Paused => {
            assert(t[1] != "pending"@[1]);
            assert(t[0] != "running"@[0]);
        },
        RunStatus::Success => {
            assert(t[0] != "pending"@[0]);
            assert(t[0] != "running"@[0]);
            assert(t[0] != "paused"@[0]);
        },
        RunStatus::Failed => {
            assert(t[0] != "pending"@[0]);
            assert(t[0] != "running"@[0]);
            assert(t[0] != "paused"@[0]);
            assert(t[0] != "success"@[0]);
        },
    }
}

/// Reading back the name of a deferred job status gives that status.
pub proof fn law_deferred_status_round_trip(s: DeferredJobStatus)
    ensures
        deferred_status_named(deferred_status_text(s)) == Some(s),
{
    reveal_strlit("pending");
    reveal_strlit("polling");
    reveal_strlit("completed");
    reveal_strlit("failed");
    reveal_strlit("cancelled");
    assert("polling"@[1] != "pending"@[1]);
    assert("completed"@[0] != "pending"@[0] && "completed"@[0] != "polling"@[0]);
    assert("failed"@[0] != "pending"@[0] && "failed"@[0] != "polling"@[0] && "failed"@[0] != "completed"@[0]);
    assert("cancelled"@[0] != "pending"@[0] && "cancelled"@[0] != "polling"@[0]);
    assert("cancelled"@[1] != "completed"@[1] && "cancelled"@[0] != "failed"@[0]);
}

} // verus!
