//! Decisions of the scheduler and the triggerer: which tasks a pending run gets, what an
//! executor's status update does to its task, when a running task has timed out, when a
//! run is complete, and what a poll of a deferred job leads to.
use vstd::prelude::*;

use crate::compiled::opt_json;
use crate::json::{as_str_spec, get_spec, items_view, Json, JsonV};
use crate::models::{
    deferred_job_status, DeferredJob, DeferredJobStatus, TaskStatus, Workflow, WorkflowTask,
};
use crate::task_execution::{backoff, build_run_tasks, int_param, new_task_from, retry_backoff_seconds, NewTask};
use crate::text::{concat3, str_eq, i64_to_decimal, signed_decimal};
use crate::schema::strs_view;
use crate::validation::{deps_contain, seq_has_str};

verus! {

/// A status reported by an executor for one of its tasks.
#[derive(Debug)]
pub struct StatusUpdate {
    pub task_id: u128,
    pub status: String,
    pub log: Option<String>,
    pub output: Option<Json>,
    pub error: Option<String>,
}

/// Timings of one pass of the scheduler loop, in milliseconds.
#[derive(Debug, Default)]
pub struct SchedulerMetrics {
    pub timestamp: u64,
    pub process_pending_runs_ms: u128,
    pub process_pending_tasks_ms: u128,
    pub process_status_updates_ms: u128,
    pub sleep_ms: u128,
    pub total_loop_ms: u128,
}

// ---------------------------------------------------------------------------------------
// Pending runs
// ---------------------------------------------------------------------------------------
/// The tasks a pending run gets.
#[derive(Debug)]
pub enum RunTaskPlan {
    /// One task per stored task definition of the workflow.
    Dag(Vec<NewTask>),
    /// A workflow of the `dag` type without stored task definitions cannot run.
    MissingCompiled(String),
    /// Any other workflow gets `task_count` numbered tasks.
    Legacy { task_count: i32 },
}

/// The number of tasks of a workflow without stored task definitions: the `task_count`
/// of its parameters, 3 when absent, kept to its low 32 bits.
pub open spec fn legacy_task_count(params: Option<JsonV>) -> i32 {
    match params {
        Some(JsonV::Object(e)) => match int_param(e, "task_count"@) {
            Some(v) => v as i32,
            None => 3,
        },
        _ => 3,
    }
}

pub fn plan_run_tasks(run_id: u128, workflow: &Workflow, workflow_tasks: &Vec<WorkflowTask>) -> (r:
    RunTaskPlan)
    ensures
        workflow_tasks.len() > 0 ==> (r matches RunTaskPlan::Dag(tasks) && tasks.len()
            == workflow_tasks.len() && forall|k: int|
            0 <= k < tasks.len() ==> new_task_from(
                #[trigger] tasks@[k],
                workflow_tasks@[k].task_index,
                workflow_tasks@[k].task_name@,
                workflow_tasks@[k].executor_type@,
                strs_view(workflow_tasks@[k].depends_on@),
                opt_json(workflow_tasks@[k].params),
                workflow.name@,
                run_id,
            )),
        workflow_tasks.len() == 0 && workflow.executor_type@ == "dag"@ ==> (r matches RunTaskPlan::MissingCompiled(
            m,
        ) && m@ == "workflow '"@ + workflow.name@ + "' is missing compiled workflow_tasks"@),
        workflow_tasks.len() == 0 && workflow.executor_type@ != "dag"@ ==> r == (RunTaskPlan::Legacy {
            task_count: legacy_task_count(opt_json(workflow.task_params)),
        }),
{
    proof {
        reveal_strlit("dag");
        reveal_strlit("workflow '");
        reveal_strlit("' is missing compiled workflow_tasks");
        reveal_strlit("task_count");
    }
    if workflow_tasks.len() > 0 {
        return RunTaskPlan::Dag(build_run_tasks(run_id, workflow, workflow_tasks));
    }
    if str_eq(workflow.executor_type.as_str(), "dag") {
        return RunTaskPlan::MissingCompiled(
            concat3("workflow '", workflow.name.as_str(), "' is missing compiled workflow_tasks"),
        );
    }
    let count: i32 = match &workflow.task_params {
        Some(p) => match p.get("task_count") {
            Some(v) => match v.as_i64() {
                Some(n) => n as i32,
                None => 3,
            },
            None => 3,
        },
        None => 3,
    };
    proof {
        match opt_json(workflow.task_params) {
            Some(JsonV::Object(e)) => {},
            _ => {},
        }
    }
    RunTaskPlan::Legacy { task_count: count }
}

// ---------------------------------------------------------------------------------------
// Status updates
// ---------------------------------------------------------------------------------------
/// A deferrable reported in a task's output: the service that tracks it and its job id,
/// or neither when one of them is missing.
#[derive(Debug)]
pub enum DeferredRequest {
    Valid { service_type: String, job_id: String, data: Json },
    Invalid,
}

/// What to do with a task's status after an update.
#[derive(Debug)]
pub enum StatusPlan {
    /// The status is not one the scheduler tracks.
    Ignore,
    /// The task failed with retries left: reset it for another attempt after a delay.
    Retry { error: String, backoff_seconds: u64 },
    /// Record the status; `check_run` says whether the run may be complete now.
    Record { status: TaskStatus, error: Option<String>, check_run: bool },
}

/// What an update leads to: the deferrables to create (when its output reports any, in
/// which case nothing else happens), whether its output is stored, and the plan for its
/// status.
#[derive(Debug)]
pub struct UpdatePlan {
    pub deferred: Option<Vec<DeferredRequest>>,
    pub store_output: bool,
    pub status: StatusPlan,
}

pub open spec fn deferred_items(output: Option<Json>) -> Option<Seq<JsonV>> {
    match opt_json(output) {
        Some(v) => match get_spec(v, "deferred"@) {
            Some(JsonV::Array(items)) => Some(items),
            _ => None,
        },
        None => None,
    }
}

/// The status an update names, among those the scheduler tracks.
pub open spec fn tracked_status(s: Seq<char>) -> Option<TaskStatus> {
    if s == "success"@ {
        Some(TaskStatus::Success)
    } else if s == "failed"@ {
        Some(TaskStatus::Failed)
    } else if s == "running"@ {
        Some(TaskStatus::Running)
    } else {
        None
    }
}

pub open spec fn opt_text(o: Option<String>) -> Option<Seq<char>> {
    match o {
        Some(s) => Some(s@),
        None => None,
    }
}

/// The view of a status plan.
pub open spec fn status_plan_holds(
    p: StatusPlan,
    status: Seq<char>,
    error: Option<Seq<char>>,
    attempts: i32,
    max_retries: i32,
) -> bool {
    match tracked_status(status) {
        None => p is Ignore,
        Some(s) => if s == TaskStatus::Failed && attempts < max_retries {
            p matches StatusPlan::Retry { error: e, backoff_seconds: b } && e@ == (match error {
                Some(m) => m,
                None => "retrying"@,
            }) && b == backoff(attempts + 1)
        } else {
            p matches StatusPlan::Record { status: s2, error: e, check_run: c } && s2 == s && opt_text(e)
                == error && c == (s == TaskStatus::Success || s == TaskStatus::Failed)
        },
    }
}

pub open spec fn deferred_request_holds(d: DeferredRequest, item: JsonV) -> bool {
    match (as_str_opt(get_spec(item, "service_type"@)), as_str_opt(get_spec(item, "job_id"@))) {
        (Some(s), Some(j)) => d matches DeferredRequest::Valid { service_type, job_id, data } && service_type@
            == s && job_id@ == j && data@ == item,
        _ => d is Invalid,
    }
}

pub open spec fn as_str_opt(v: Option<JsonV>) -> Option<Seq<char>> {
    match v {
        Some(x) => as_str_spec(x),
        None => None,
    }
}

fn deferred_request(item: &Json) -> (r: DeferredRequest)
    ensures
        deferred_request_holds(r, item@),
{
    proof {
        reveal_strlit("service_type");
        reveal_strlit("job_id");
    }
    let s = match item.get("service_type") {
        Some(v) => v.as_str(),
        None => None,
    };
    let j = match item.get("job_id") {
        Some(v) => v.as_str(),
        None => None,
    };
    match (s, j) {
        (Some(s), Some(j)) => DeferredRequest::Valid {
            service_type: s.clone(),
            job_id: j.clone(),
            data: item.deep_clone(),
        },
        _ => DeferredRequest::Invalid,
    }
}

/// Plans what an executor's status update does. `retry` is the task's (attempts, retries
/// allowed), (0, 0) when unknown.
pub fn plan_status_update(update: &StatusUpdate, retry: (i32, i32)) -> (r: UpdatePlan)
    ensures
        match deferred_items(update.output) {
            Some(items) => r.deferred matches Some(ds) && ds.len() == items.len() && (forall|k: int|
                0 <= k < items.len() ==> deferred_request_holds(#[trigger] ds@[k], items[k]))
                && !r.store_output && r.status is Ignore,
            None => r.deferred is None && r.store_output == update.output is Some && status_plan_holds(
                r.status,
                update.status@,
                opt_text(update.error),
                retry.0,
                retry.1,
            ),
        },
{
    proof {
        reveal_strlit("deferred");
        reveal_strlit("success");
        reveal_strlit("failed");
        reveal_strlit("running");
        reveal_strlit("retrying");
    }
    let items = match &update.output {
        Some(o) => match o.get("deferred") {
            Some(d) => d.as_array(),
            None => None,
        },
        None => None,
    };
    match items {
        Some(items) => {
            let ghost iv = items_view(items@);
            let mut ds: Vec<DeferredRequest> = Vec::new();
            let mut k: usize = 0;
            while k < items.len()
                invariant
                    iv == items_view(items@),
                    k <= items.len(),
                    ds.len() == k,
                    forall|j: int| 0 <= j < k ==> deferred_request_holds(#[trigger] ds@[j], iv[j]),
                decreases items.len() - k,
            {
                ds.push(deferred_request(&items[k]));
                k = k + 1;
            }
            return UpdatePlan { deferred: Some(ds), store_output: false, status: StatusPlan::Ignore };
        },
        None => {},
    }
    let store_output = update.output.is_some();
    let s = update.status.as_str();
    let status = if str_eq(s, "success") {
        TaskStatus::Success
    } else if str_eq(s, "failed") {
        TaskStatus::Failed
    } else if str_eq(s, "running") {
        TaskStatus::Running
    } else {
        return UpdatePlan { deferred: None, store_output, status: StatusPlan::Ignore };
    };
    let (attempts, max_retries) = retry;
    let failed = match status {
        TaskStatus::Failed => true,
        _ => false,
    };
    if failed && attempts < max_retries {
        let error = match &update.error {
            Some(e) => e.clone(),
            None => "retrying".to_owned(),
        };
        let b = retry_backoff_seconds(attempts + 1);
        return UpdatePlan {
            deferred: None,
            store_output,
            status: StatusPlan::Retry { error, backoff_seconds: b },
        };
    }
    let check_run = match status {
        TaskStatus::Success => true,
        TaskStatus::Failed => true,
        _ => false,
    };
    let error = match &update.error {
        Some(e) => Some(e.clone()),
        None => None,
    };
    UpdatePlan { deferred: None, store_output, status: StatusPlan::Record { status, error, check_run } }
}

// ---------------------------------------------------------------------------------------
// Timeouts and completion
// ---------------------------------------------------------------------------------------
/// Whole seconds between two instants in milliseconds, rounded toward zero.
pub open spec fn elapsed_seconds(from_ms: i64, to_ms: i64) -> int {
    let d = to_ms - from_ms;
    if d >= 0 {
        d / 1000
    } else {
        -((-d) / 1000)
    }
}

/// A running task with a positive timeout has timed out when more whole seconds than the
/// timeout have passed since it started (else since it was dispatched, else created).
pub open spec fn timed_out(
    timeout_seconds: Option<i32>,
    started: Option<i64>,
    dispatched: Option<i64>,
    created: i64,
    now: i64,
) -> Option<Seq<char>> {
    match timeout_seconds {
        Some(t) => if t > 0 {
            let since = match started {
                Some(s) => s,
                None => match dispatched {
                    Some(d) => d,
                    None => created,
                },
            };
            if elapsed_seconds(since, now) > t {
                Some("timeout after "@ + signed_decimal(t as int) + "s"@)
            } else {
                None
            }
        } else {
            None
        },
        None => None,
    }
}

pub fn timeout_error(
    timeout_seconds: Option<i32>,
    started: Option<i64>,
    dispatched: Option<i64>,
    created: i64,
    now: i64,
) -> (r: Option<String>)
    ensures
        opt_text(r) == timed_out(timeout_seconds, started, dispatched, created, now),
{
    let t = match timeout_seconds {
        Some(t) => {
            if t <= 0 {
                return None;
            }
            t
        },
        None => {
            return None;
        },
    };
    let since = match started {
        Some(s) => s,
        None => match dispatched {
            Some(d) => d,
            None => created,
        },
    };
    let d: i128 = now as i128 - since as i128;
    let secs: i128 = if d >= 0 {
        d / 1000
    } else {
        -((-d) / 1000)
    };
    if secs > t as i128 {
        proof {
            reveal_strlit("timeout after ");
            reveal_strlit("s");
        }
        Some(concat3("timeout after ", i64_to_decimal(t as i64).as_str(), "s"))
    } else {
        None
    }
}

/// The instant a task's timeout counts from: its start, else its dispatch, else its
/// creation.
pub open spec fn timeout_since(started: Option<i64>, dispatched: Option<i64>, created: i64) -> i64 {
    match started {
        Some(s) => s,
        None => match dispatched {
            Some(d) => d,
            None => created,
        },
    }
}

/// A task times out only with a positive timeout `t`, and then exactly once `(t + 1)`
/// seconds have passed since it started (else was dispatched, else created): one more
/// millisecond short of that it has not; and once timed out it stays timed out later.
pub proof fn law_timeout_after_whole_seconds(
    timeout_seconds: Option<i32>,
    started: Option<i64>,
    dispatched: Option<i64>,
    created: i64,
    now: i64,
    later: i64,
)
    ensures
        (timeout_seconds is None || timeout_seconds->0 <= 0) ==> timed_out(
            timeout_seconds,
            started,
            dispatched,
            created,
            now,
        ) is None,
        match timeout_seconds {
            Some(t) => t > 0 ==> (timed_out(timeout_seconds, started, dispatched, created, now) is Some <==> now
                - timeout_since(started, dispatched, created) >= (t + 1) * 1000),
            None => true,
        },
        (now <= later && timed_out(timeout_seconds, started, dispatched, created, now) is Some) ==> timed_out(
            timeout_seconds,
            started,
            dispatched,
            created,
            later,
        ) is Some,
{
    if let Some(t) = timeout_seconds {
        if t > 0 {
            let since = timeout_since(started, dispatched, created);
            lemma_elapsed_past(since, now, t as int);
            lemma_elapsed_past(since, later, t as int);
        }
    }
}

proof fn lemma_elapsed_past(since: i64, now: i64, t: int)
    requires
        t > 0,
    ensures
        elapsed_seconds(since, now) > t <==> now - since >= (t + 1) * 1000,
{
    let d = now - since;
    if d >= 0 {
        assert(d / 1000 > t <==> d >= (t + 1) * 1000) by (nonlinear_arith)
            requires
                d >= 0,
                t > 0,
        ;
    } else {
        assert((-d) / 1000 >= 0) by (nonlinear_arith)
            requires
                d < 0,
        ;
    }
}

/// A run is complete when all its tasks are; it failed when any task failed.
pub open spec fn run_outcome(total: i64, completed: i64, failed: i64) -> Option<TaskStatus> {
    if completed == total {
        Some(
            if failed > 0 {
                TaskStatus::Failed
            } else {
                TaskStatus::Success
            },
        )
    } else {
        None
    }
}

pub fn run_completion_status(total: i64, completed: i64, failed: i64) -> (r: Option<TaskStatus>)
    ensures
        r == run_outcome(total, completed, failed),
{
    if completed == total {
        Some(
            if failed > 0 {
                TaskStatus::Failed
            } else {
                TaskStatus::Success
            },
        )
    } else {
        None
    }
}

/// A run is closed only once every one of its tasks completed: while fewer (or more) tasks
/// completed than it has, it gets no status, whatever failed; once all completed, it
/// failed exactly when a task failed and succeeded otherwise.
pub proof fn law_run_closes_only_when_all_completed(total: i64, completed: i64, failed: i64)
    ensures
        completed != total ==> run_outcome(total, completed, failed) is None,
        completed == total ==> run_outcome(total, completed, failed) is Some,
        completed == total && failed > 0 ==> run_outcome(total, completed, failed) == Some(TaskStatus::Failed),
        completed == total && failed <= 0 ==> run_outcome(total, completed, failed) == Some(TaskStatus::Success),
{
}

// ---------------------------------------------------------------------------------------
// Deferred jobs
// ---------------------------------------------------------------------------------------
/// Sent by the triggerer to the scheduler when a deferred job finished.
#[derive(Debug)]
pub struct JobCompletionNotification {
    pub task_id: u128,
    pub success: bool,
    pub error: Option<String>,
}

/// How the triggerer polls.
#[derive(Debug)]
pub struct TriggererConfig {
    pub poll_interval_secs: u64,
    pub max_jobs_per_cycle: usize,
    pub poll_timeout_secs: u64,
}

impl Default for TriggererConfig {
    /// Every ten seconds, up to a hundred jobs, thirty seconds for each poll.
    fn default() -> (r: Self)
        ensures
            r.poll_interval_secs == 10,
            r.max_jobs_per_cycle == 100,
            r.poll_timeout_secs == 30,
    {
        TriggererConfig { poll_interval_secs: 10, max_jobs_per_cycle: 100, poll_timeout_secs: 30 }
    }
}

/// The view of a completion notification: the task, whether its job succeeded, and the
/// job's error.
pub open spec fn notification_view(n: JobCompletionNotification) -> (u128, bool, Option<Seq<char>>) {
    (n.task_id, n.success, opt_text(n.error))
}

/// The status a notification gives its task, and the error recorded with it.
pub open spec fn completion_outcome(n: (u128, bool, Option<Seq<char>>)) -> (TaskStatus, Option<Seq<char>>) {
    if n.1 {
        (TaskStatus::Success, None)
    } else {
        (
            TaskStatus::Failed,
            Some(
                match n.2 {
                    Some(e) => e,
                    None => "Deferred job failed"@,
                },
            ),
        )
    }
}

/// The status a finished deferred job gives its task, and the error recorded with it.
pub fn completion_update(c: &JobCompletionNotification) -> (r: (TaskStatus, Option<String>))
    ensures
        (r.0, opt_text(r.1)) == completion_outcome(notification_view(*c)),
        c.success ==> r.0 == TaskStatus::Success && r.1 is None,
        !c.success ==> r.0 == TaskStatus::Failed && opt_text(r.1) == Some(
            match c.error {
                Some(e) => e@,
                None => "Deferred job failed"@,
            },
        ),
{
    if c.success {
        (TaskStatus::Success, None)
    } else {
        proof {
            reveal_strlit("Deferred job failed");
        }
        let e = match &c.error {
            Some(e) => e.clone(),
            None => "Deferred job failed".to_owned(),
        };
        (TaskStatus::Failed, Some(e))
    }
}

/// What came of polling a deferred job.
#[derive(Debug)]
pub enum PollResult {
    Running,
    Completed,
    Failed(String),
    /// The tracker could not poll; the text says why.
    Error(String),
    /// The poll took longer than the timeout.
    TimedOut,
}

/// The failure a poll reports: the job's own, or the tracker's error.
pub open spec fn poll_failure(r: PollResult) -> Option<Seq<char>> {
    match r {
        PollResult::Failed(m) => Some(m@),
        PollResult::Error(m) => Some(m@),
        _ => None,
    }
}

/// The notification a poll's result sends the scheduler for a job of task `task_id`: a
/// completion, a failure with its error, or none while the job runs or the poll timed out.
pub open spec fn poll_notification(task_id: u128, result: PollResult) -> Option<(u128, bool, Option<Seq<char>>)> {
    match result {
        PollResult::Completed => Some((task_id, true, None)),
        _ => match poll_failure(result) {
            Some(m) => Some((task_id, false, Some(m))),
            None => None,
        },
    }
}

/// What the triggerer does with a poll's result.
#[derive(Debug)]
pub enum TriggerAction {
    /// Leave the job as it is.
    Keep,
    /// Mark the job as being polled.
    MarkPolling,
    /// Mark the job completed and tell the scheduler.
    Complete(JobCompletionNotification),
    /// Mark the job failed with the error and tell the scheduler.
    Fail(String, JobCompletionNotification),
}

/// A running job is marked as polled unless it already is; a completed job completes its
/// task; a failure, or an error of the tracker, fails it; a timeout leaves it for the next
/// cycle.
pub fn poll_action(job: &DeferredJob, result: PollResult) -> (r: TriggerAction)
    ensures
        result is Running && deferred_job_status(*job) == DeferredJobStatus::Polling ==> r is Keep,
        result is TimedOut ==> r is Keep,
        result is Running && deferred_job_status(*job) != DeferredJobStatus::Polling ==> r is MarkPolling,
        result is Completed ==> (r matches TriggerAction::Complete(n) && n.task_id == job.task_id
            && n.success && n.error is None),
        poll_failure(result) matches Some(m) ==> (r matches TriggerAction::Fail(e, n) && e@ == m
            && n.task_id == job.task_id && !n.success && opt_text(n.error) == Some(m)),
        match r {
            TriggerAction::Complete(n) => poll_notification(job.task_id, result) == Some(notification_view(n)),
            TriggerAction::Fail(_, n) => poll_notification(job.task_id, result) == Some(notification_view(n)),
            _ => poll_notification(job.task_id, result) is None,
        },
{
    match result {
        PollResult::Running => {
            match job.status() {
                DeferredJobStatus::Polling => TriggerAction::Keep,
                _ => TriggerAction::MarkPolling,
            }
        },
        PollResult::Completed => TriggerAction::Complete(
            JobCompletionNotification { task_id: job.task_id, success: true, error: None },
        ),
        PollResult::Failed(m) => {
            let copy = m.clone();
            TriggerAction::Fail(
                m,
                JobCompletionNotification { task_id: job.task_id, success: false, error: Some(copy) },
            )
        },
        PollResult::Error(m) => {
            let copy = m.clone();
            TriggerAction::Fail(
                m,
                JobCompletionNotification { task_id: job.task_id, success: false, error: Some(copy) },
            )
        },
        PollResult::TimedOut => TriggerAction::Keep,
    }
}

/// The end of a deferred job settles its task: a job that completed makes the task
/// successful; one that failed, or that its tracker could not poll, fails the task with
/// that error; while the job runs, or when a poll timed out, nothing is sent.
pub proof fn law_deferred_job_settles_task(task_id: u128, result: PollResult)
    ensures
        result is Completed ==> (poll_notification(task_id, result) matches Some(n) && n.0 == task_id
            && completion_outcome(n) == (TaskStatus::Success, None::<Seq<char>>)),
        poll_failure(result) matches Some(m) ==> (poll_notification(task_id, result) matches Some(n) && n.0
            == task_id && completion_outcome(n) == (TaskStatus::Failed, Some(m))),
        (result is Running || result is TimedOut) ==> poll_notification(task_id, result) is None,
{
}

/// Why a deferred job cannot be polled when no tracker handles its service.
pub fn missing_tracker_error(service_type: &str) -> (r: String)
    ensures
        r@ == "No tracker for service type: "@ + service_type@,
{
    crate::text::concat2("No tracker for service type: ", service_type)
}

// ---------------------------------------------------------------------------------------
// Scheduled workflows
// ---------------------------------------------------------------------------------------
/// What the `cron` crate gives for a schedule expression at a time, in milliseconds since
/// the Unix epoch in UTC: the text of its error when the expression does not parse, else
/// the first time its schedule yields after `now`, if any.
pub uninterp spec fn cron_next(expression: Seq<char>, now: i64) -> Result<Option<i64>, Seq<char>>;

pub open spec fn cron_view(r: Result<Option<i64>, String>) -> Result<Option<i64>, Seq<char>> {
    match r {
        Ok(n) => Ok(n),
        Err(m) => Err(m@),
    }
}

/// The times that `chrono` represents reach about 262,000 years to either side of the
/// epoch (about 8.27 * 10^15 milliseconds); these bounds, 8 * 10^15 milliseconds (about
/// 253,000 years), stay inside them, so that a second can be added.
pub open spec fn schedulable_time(now: i64) -> bool {
    -8_000_000_000_000_000 <= now <= 8_000_000_000_000_000
}

/// `cron::Schedule::from_str` on the expression and, when it parses, the first time of
/// `after` at `now` (as a UTC time) in milliseconds; the error's text when it does not.
/// The result is named `cron_next`; nothing more of it is stated.
#[verifier::external_body]
fn cron_next_after(expression: &str, now: i64) -> (r: Result<Option<i64>, String>)
    requires
        schedulable_time(now),
    ensures
        cron_view(r) == cron_next(expression@, now),
{
    let schedule = expression.parse::<cron::Schedule>().map_err(|e| e.to_string())?;
    let at = chrono::DateTime::from_timestamp_millis(now).expect("a time within chrono's range");
    Ok(schedule.after(&at).next().map(|t| t.timestamp_millis()))
}

/// What a due scheduled workflow leads to.
#[derive(Debug, PartialEq, Eq)]
pub enum ScheduleTrigger {
    /// Its expression does not parse: no run is created; the text says why.
    Invalid(String),
    /// A run is created, and the workflow was last scheduled at `last` and runs next at
    /// `next`, when its schedule has a next time.
    Run { last: i64, next: Option<i64> },
}

/// The trigger for a schedule as `cron` read it at `now`: its error, or the next time.
pub fn trigger_for(parsed: Result<Option<i64>, String>, now: i64) -> (r: ScheduleTrigger)
    ensures
        match parsed {
            Err(m) => r == ScheduleTrigger::Invalid(m),
            Ok(n) => r == (ScheduleTrigger::Run { last: now, next: n }),
        },
{
    match parsed {
        Err(m) => ScheduleTrigger::Invalid(m),
        Ok(n) => ScheduleTrigger::Run { last: now, next: n },
    }
}

/// Decides what a due scheduled workflow with the given cron expression leads to at `now`.
pub fn schedule_trigger(expression: &str, now: i64) -> (r: ScheduleTrigger)
    requires
        schedulable_time(now),
    ensures
        match cron_next(expression@, now) {
            Err(m) => r matches ScheduleTrigger::Invalid(e) && e@ == m,
            Ok(n) => r == (ScheduleTrigger::Run { last: now, next: n }),
        },
{
    let parsed = cron_next_after(expression, now);
    trigger_for(parsed, now)
}

// ---------------------------------------------------------------------------------------
// After a status update
// ---------------------------------------------------------------------------------------
/// The status written for a task after its update has been planned: nothing for an
/// ignored update or for a retry whose reset the store accepted; a retry whose reset the
/// store refused is recorded as failed with the update's own error, and its run is
/// checked; any other plan is recorded as it is.
#[derive(Debug, PartialEq, Eq)]
pub struct StatusRecord {
    pub status: TaskStatus,
    pub error: Option<String>,
    pub check_run: bool,
}

pub open spec fn status_record_of(
    plan: StatusPlan,
    reset_ok: bool,
    update_error: Option<Seq<char>>,
) -> Option<(TaskStatus, Option<Seq<char>>, bool)> {
    match plan {
        StatusPlan::Ignore => None,
        StatusPlan::Retry { .. } => if reset_ok {
            None
        } else {
            Some((TaskStatus::Failed, update_error, true))
        },
        StatusPlan::Record { status, error, check_run } => Some((status, opt_text(error), check_run)),
    }
}

pub open spec fn record_view(r: Option<StatusRecord>) -> Option<(TaskStatus, Option<Seq<char>>, bool)> {
    match r {
        Some(x) => Some((x.status, opt_text(x.error), x.check_run)),
        None => None,
    }
}

/// What is written for a task once its plan has been carried out; `reset_ok` says whether
/// the store reset a retried task (it is ignored for other plans).
pub fn status_record(plan: StatusPlan, reset_ok: bool, update_error: &Option<String>) -> (r: Option<StatusRecord>)
    ensures
        record_view(r) == status_record_of(plan, reset_ok, opt_text(*update_error)),
{
    match plan {
        StatusPlan::Ignore => None,
        StatusPlan::Retry { .. } => {
            if reset_ok {
                None
            } else {
                let error = match update_error {
                    Some(e) => Some(e.clone()),
                    None => None,
                };
                Some(StatusRecord { status: TaskStatus::Failed, error, check_run: true })
            }
        },
        StatusPlan::Record { status, error, check_run } => Some(StatusRecord { status, error, check_run }),
    }
}

/// The names of one round of failing dependents that are new: those of `next` that no
/// earlier round failed, each once, in the order given.
pub open spec fn fresh_names(seen: Seq<Seq<char>>, next: Seq<Seq<char>>) -> Seq<Seq<char>>
    decreases next.len(),
{
    if next.len() == 0 {
        Seq::empty()
    } else {
        let prev = fresh_names(seen, next.drop_last());
        let x = next.last();
        if seen.contains(x) || prev.contains(x) {
            prev
        } else {
            prev.push(x)
        }
    }
}

proof fn lemma_has_str_contains(s: Seq<String>, x: Seq<char>)
    ensures
        seq_has_str(s, x) <==> strs_view(s).contains(x),
{
    if seq_has_str(s, x) {
        let j = choose|j: int| 0 <= j < s.len() && (#[trigger] s[j])@ == x;
        assert(strs_view(s)[j] == x);
    }
    if strs_view(s).contains(x) {
        let j = choose|j: int| 0 <= j < strs_view(s).len() && strs_view(s)[j] == x;
        assert(s[j]@ == x);
    }
}

/// One round of failing the dependents of failed tasks: of the names the store has just
/// failed, those not failed in an earlier round are returned for the next round and
/// remembered in `seen`. The rounds end when a round brings no new name.
pub fn next_failed_round(next: Vec<String>, seen: &mut Vec<String>) -> (r: Vec<String>)
    ensures
        strs_view(r@) == fresh_names(strs_view(old(seen)@), strs_view(next@)),
        strs_view(final(seen)@) == strs_view(old(seen)@) + strs_view(r@),
{
    let ghost seen0 = strs_view(seen@);
    let ghost nv = strs_view(next@);
    let mut r: Vec<String> = Vec::new();
    let mut i: usize = 0;
    assert(nv.take(0) =~= Seq::<Seq<char>>::empty());
    assert(strs_view(seen@) =~= seen0 + strs_view(r@));
    while i < next.len()
        invariant
            i <= next.len(),
            nv == strs_view(next@),
            strs_view(r@) == fresh_names(seen0, nv.take(i as int)),
            strs_view(seen@) == seen0 + strs_view(r@),
        decreases next.len() - i,
    {
        let x = &next[i];
        let ghost prev = strs_view(r@);
        proof {
            assert(nv.take(i + 1).drop_last() =~= nv.take(i as int));
            assert(nv.take(i + 1).last() == x@);
            lemma_has_str_contains(seen@, x@);
            assert((seen0 + prev).contains(x@) <==> (seen0.contains(x@) || prev.contains(x@))) by {
                if (seen0 + prev).contains(x@) {
                    let j = choose|j: int| 0 <= j < (seen0 + prev).len() && (seen0 + prev)[j] == x@;
                    if j < seen0.len() {
                        assert(seen0[j] == x@);
                    } else {
                        assert(prev[j - seen0.len()] == x@);
                    }
                }
                if seen0.contains(x@) {
                    let j = choose|j: int| 0 <= j < seen0.len() && seen0[j] == x@;
                    assert((seen0 + prev)[j] == x@);
                }
                if prev.contains(x@) {
                    let j = choose|j: int| 0 <= j < prev.len() && prev[j] == x@;
                    assert((seen0 + prev)[seen0.len() + j] == x@);
                }
            }
        }
        if !deps_contain(seen, x.as_str()) {
            let ghost s_before = seen@;
            seen.push(x.clone());
            r.push(x.clone());
            assert(strs_view(r@) =~= prev.push(x@));
            assert(strs_view(seen@) =~= strs_view(s_before).push(x@));
            assert(strs_view(seen@) =~= seen0 + strs_view(r@));
        }
        i = i + 1;
    }
    assert(nv.take(next.len() as int) =~= nv);
    r
}

} // verus!
