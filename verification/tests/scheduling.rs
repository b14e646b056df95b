use ork::json::Json;
use ork::models::{DeferredJob, TaskStatus, Workflow, WorkflowTask};
use ork::scheduling::{
    completion_update, missing_tracker_error, plan_run_tasks, plan_status_update, poll_action,
    next_failed_round, run_completion_status, schedule_trigger, status_record, StatusRecord, timeout_error, trigger_for, DeferredRequest, JobCompletionNotification,
    PollResult, RunTaskPlan, ScheduleTrigger, StatusPlan, StatusUpdate, TriggerAction, TriggererConfig,
};
use std::time::Duration;

fn obj(entries: Vec<(&str, Json)>) -> Json {
    Json::Object(entries.into_iter().map(|(k, v)| (k.to_string(), v)).collect())
}

fn s(x: &str) -> Json {
    Json::String(x.to_string())
}

fn stored_workflow(executor_type: &str, task_params: Option<Json>) -> Workflow {
    Workflow {
        id: 7,
        name: "wf".to_string(),
        description: None,
        job_name: "job".to_string(),
        region: "r".to_string(),
        project: "p".to_string(),
        executor_type: executor_type.to_string(),
        task_params,
        schedule: None,
        schedule_enabled: false,
        last_scheduled_at: None,
        next_scheduled_at: None,
        created_at: 0,
        updated_at: 0,
    }
}

fn update(status: &str, output: Option<Json>, error: Option<&str>) -> StatusUpdate {
    StatusUpdate { task_id: 1, status: status.to_string(), log: None, output, error: error.map(|e| e.to_string()) }
}

#[test]
fn test_default_config() {
    let config = TriggererConfig::default();
    assert_eq!(Duration::from_secs(config.poll_interval_secs), Duration::from_secs(10));
    assert_eq!(config.max_jobs_per_cycle, 100);
    assert_eq!(Duration::from_secs(config.poll_timeout_secs), Duration::from_secs(30));
}

#[test]
fn test_job_completion_notification() {
    let notification = JobCompletionNotification { task_id: uuid::Uuid::new_v4().as_u128(), success: true, error: None };
    assert!(notification.success);
    assert!(notification.error.is_none());
}

#[test]
fn plan_run_tasks_by_kind_of_workflow() {
    let tasks = vec![WorkflowTask {
        id: 1,
        workflow_id: 7,
        task_index: 0,
        task_name: "a".to_string(),
        executor_type: "process".to_string(),
        depends_on: vec![],
        params: None,
        created_at: 0,
    }];
    assert!(matches!(plan_run_tasks(9, &stored_workflow("dag", None), &tasks), RunTaskPlan::Dag(t) if t.len() == 1));
    assert!(matches!(
        plan_run_tasks(9, &stored_workflow("dag", None), &vec![]),
        RunTaskPlan::MissingCompiled(m) if m == "workflow 'wf' is missing compiled workflow_tasks"
    ));
    assert!(matches!(
        plan_run_tasks(9, &stored_workflow("process", None), &vec![]),
        RunTaskPlan::Legacy { task_count: 3 }
    ));
    let params = obj(vec![("task_count", Json::from_u64(5))]);
    assert!(matches!(
        plan_run_tasks(9, &stored_workflow("process", Some(params)), &vec![]),
        RunTaskPlan::Legacy { task_count: 5 }
    ));
}

#[test]
fn status_updates_retry_record_or_defer() {
    let plan = plan_status_update(&update("failed", None, Some("boom")), (1, 3));
    assert!(matches!(plan.status, StatusPlan::Retry { ref error, backoff_seconds: 2 } if error == "boom"));
    let plan = plan_status_update(&update("failed", None, None), (0, 1));
    assert!(matches!(plan.status, StatusPlan::Retry { ref error, backoff_seconds: 1 } if error == "retrying"));
    let plan = plan_status_update(&update("failed", None, Some("boom")), (3, 3));
    assert!(matches!(plan.status, StatusPlan::Record { status: TaskStatus::Failed, check_run: true, .. }));
    let plan = plan_status_update(&update("running", None, None), (0, 0));
    assert!(matches!(plan.status, StatusPlan::Record { status: TaskStatus::Running, check_run: false, .. }));
    let plan = plan_status_update(&update("log", None, None), (0, 0));
    assert!(matches!(plan.status, StatusPlan::Ignore));
    let plan = plan_status_update(&update("success", Some(obj(vec![("x", Json::from_u64(1))])), None), (0, 0));
    assert!(plan.store_output && plan.deferred.is_none());

    let deferred = obj(vec![(
        "deferred",
        Json::Array(vec![obj(vec![("job_id", s("j1")), ("service_type", s("bigquery"))]), obj(vec![("job_id", s("j2"))])]),
    )]);
    let plan = plan_status_update(&update("success", Some(deferred), None), (0, 0));
    let ds = plan.deferred.expect("deferrables");
    assert_eq!(ds.len(), 2);
    assert!(matches!(&ds[0], DeferredRequest::Valid { service_type, job_id, .. } if service_type == "bigquery" && job_id == "j1"));
    assert!(matches!(ds[1], DeferredRequest::Invalid));
    assert!(!plan.store_output);
    assert!(matches!(plan.status, StatusPlan::Ignore));
}

#[test]
fn timeouts_and_run_completion() {
    assert_eq!(timeout_error(Some(10), Some(0), None, 0, 10_999), None);
    assert_eq!(timeout_error(Some(10), Some(0), None, 0, 11_000), Some("timeout after 10s".to_string()));
    assert_eq!(timeout_error(Some(10), None, Some(5_000), 0, 15_500), None);
    assert_eq!(timeout_error(Some(10), None, None, 0, 20_000), Some("timeout after 10s".to_string()));
    assert_eq!(timeout_error(Some(0), Some(0), None, 0, 1_000_000), None);
    assert_eq!(timeout_error(None, Some(0), None, 0, 1_000_000), None);

    assert_eq!(run_completion_status(3, 2, 0), None);
    assert_eq!(run_completion_status(3, 3, 0), Some(TaskStatus::Success));
    assert_eq!(run_completion_status(3, 3, 1), Some(TaskStatus::Failed));
}

fn job(status: &str) -> DeferredJob {
    DeferredJob {
        id: 1,
        task_id: 42,
        service_type: "bigquery".to_string(),
        job_id: "j".to_string(),
        job_data: obj(vec![]),
        status: status.to_string(),
        error: None,
        created_at: 0,
        started_at: None,
        last_polled_at: None,
        finished_at: None,
    }
}

#[test]
fn triggerer_actions_follow_poll_results() {
    assert!(matches!(poll_action(&job("pending"), PollResult::Running), TriggerAction::MarkPolling));
    assert!(matches!(poll_action(&job("polling"), PollResult::Running), TriggerAction::Keep));
    assert!(matches!(poll_action(&job("pending"), PollResult::TimedOut), TriggerAction::Keep));
    assert!(matches!(
        poll_action(&job("polling"), PollResult::Completed),
        TriggerAction::Complete(JobCompletionNotification { task_id: 42, success: true, error: None })
    ));
    match poll_action(&job("polling"), PollResult::Error("down".to_string())) {
        TriggerAction::Fail(e, n) => {
            assert_eq!(e, "down");
            assert_eq!(n.task_id, 42);
            assert!(!n.success);
            assert_eq!(n.error.as_deref(), Some("down"));
        },
        other => panic!("unexpected {:?}", other),
    }
    assert_eq!(missing_tracker_error("x"), "No tracker for service type: x");

    let done = JobCompletionNotification { task_id: 1, success: false, error: None };
    assert_eq!(completion_update(&done), (TaskStatus::Failed, Some("Deferred job failed".to_string())));
    let ok = JobCompletionNotification { task_id: 1, success: true, error: None };
    assert_eq!(completion_update(&ok), (TaskStatus::Success, None));
}

#[test]
fn schedule_trigger_every_second_fires_at_the_next_whole_second() {
    let now: i64 = 1_700_000_000_500;
    assert_eq!(
        schedule_trigger("* * * * * *", now),
        ScheduleTrigger::Run { last: now, next: Some(1_700_000_001_000) }
    );
}

#[test]
fn schedule_trigger_hourly_fires_at_the_next_hour() {
    let now: i64 = 1_700_000_000_000;
    assert_eq!(
        schedule_trigger("0 0 * * * *", now),
        ScheduleTrigger::Run { last: now, next: Some(1_700_002_800_000) }
    );
}

#[test]
fn schedule_trigger_rejects_invalid_expression() {
    assert!(matches!(schedule_trigger("not-a-cron", 1_700_000_000_000), ScheduleTrigger::Invalid(_)));
}

#[test]
fn trigger_for_keeps_error_and_next_time() {
    assert_eq!(trigger_for(Err("bad".to_string()), 5), ScheduleTrigger::Invalid("bad".to_string()));
    assert_eq!(trigger_for(Ok(Some(9)), 5), ScheduleTrigger::Run { last: 5, next: Some(9) });
    assert_eq!(trigger_for(Ok(None), 5), ScheduleTrigger::Run { last: 5, next: None });
}

#[test]
fn finished_deferred_job_settles_its_task() {
    let j = job("polling");
    match poll_action(&j, PollResult::Completed) {
        TriggerAction::Complete(n) => assert_eq!(completion_update(&n), (TaskStatus::Success, None)),
        other => panic!("unexpected {:?}", other),
    }
    match poll_action(&j, PollResult::Failed("quota exceeded".to_string())) {
        TriggerAction::Fail(e, n) => {
            assert_eq!(e, "quota exceeded");
            assert_eq!(completion_update(&n), (TaskStatus::Failed, Some("quota exceeded".to_string())));
        }
        other => panic!("unexpected {:?}", other),
    }
    match poll_action(&j, PollResult::Error("HTTP 500".to_string())) {
        TriggerAction::Fail(_, n) => {
            assert_eq!(n.task_id, 42);
            assert_eq!(completion_update(&n), (TaskStatus::Failed, Some("HTTP 500".to_string())));
        }
        other => panic!("unexpected {:?}", other),
    }
    assert!(matches!(poll_action(&j, PollResult::TimedOut), TriggerAction::Keep));
}

#[test]
fn schedule_trigger_at_the_ends_of_the_time_range() {
    let far: i64 = 8_000_000_000_000_000;
    assert_eq!(far, 8 * 10i64.pow(15));
    assert_eq!(schedule_trigger("* * * * * *", far), ScheduleTrigger::Run { last: far, next: None });
    assert_eq!(schedule_trigger("* * * * * *", -far), ScheduleTrigger::Run { last: -far, next: None });
}

#[test]
fn status_record_after_a_refused_retry_reset_records_the_failure() {
    let retry = || StatusPlan::Retry { error: "boom".to_string(), backoff_seconds: 2 };
    assert_eq!(status_record(retry(), true, &Some("boom".to_string())), None);
    assert_eq!(
        status_record(retry(), false, &Some("boom".to_string())),
        Some(StatusRecord { status: TaskStatus::Failed, error: Some("boom".to_string()), check_run: true })
    );
    assert_eq!(
        status_record(retry(), false, &None),
        Some(StatusRecord { status: TaskStatus::Failed, error: None, check_run: true })
    );
    assert_eq!(status_record(StatusPlan::Ignore, false, &None), None);
    assert_eq!(
        status_record(StatusPlan::Record { status: TaskStatus::Running, error: None, check_run: false }, false, &None),
        Some(StatusRecord { status: TaskStatus::Running, error: None, check_run: false })
    );
}

#[test]
fn failing_dependents_round_by_round_stops_at_known_names() {
    let names = |v: &[&str]| v.iter().map(|x| x.to_string()).collect::<Vec<String>>();
    let mut seen = Vec::new();
    let first = next_failed_round(names(&["b", "c", "b"]), &mut seen);
    assert_eq!(first, names(&["b", "c"]));
    assert_eq!(seen, names(&["b", "c"]));
    let second = next_failed_round(names(&["c", "d"]), &mut seen);
    assert_eq!(second, names(&["d"]));
    let third = next_failed_round(names(&["d", "b"]), &mut seen);
    assert!(third.is_empty());
    assert_eq!(seen, names(&["b", "c", "d"]));
}
