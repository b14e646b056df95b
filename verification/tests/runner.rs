use indexmap::IndexMap;
use ork::compiled::{CompiledTask, CompiledWorkflow};
use ork::json::Json;
use ork::runner::{
    classify_tasks, collect_upstream_outputs, combine_logs, dependents_of, final_run_status, handle_failure,
    has_pending, local_task_env, mark_skipped, process_status, record_success, start_attempt, start_round,
    attempt_failure, FailureOutcome, LocalTaskState, TaskContext, TaskExecutionStatus,
};
use ork::types::RunStatus;
use ork::workflow::ExecutorKind;

fn task(name: &str, depends_on: Vec<usize>, retries: u32) -> CompiledTask {
    CompiledTask {
        name: name.to_string(),
        executor: ExecutorKind::Process,
        file: None,
        command: Some("true".to_string()),
        job: None,
        module: None,
        function: None,
        input: Json::Null,
        inputs: Json::Null,
        depends_on,
        timeout: 10,
        retries,
        signature: None,
        input_type: None,
        output_type: None,
    }
}

/// a <- b <- c, a <- d, e independent
fn workflow() -> CompiledWorkflow {
    CompiledWorkflow {
        name: "wf".to_string(),
        tasks: vec![task("a", vec![], 1), task("b", vec![0], 0), task("c", vec![1], 0), task("d", vec![0], 0), task("e", vec![], 0)],
        name_index: IndexMap::new(),
        topo: vec![0, 1, 2, 3, 4],
        root: ".".to_string(),
    }
}

fn pending(n: usize) -> Vec<LocalTaskState> {
    (0..n).map(|_| LocalTaskState::Pending).collect()
}

#[test]
fn classify_tasks_finds_ready_and_skippable_tasks() {
    let wf = workflow();
    let states = pending(5);
    assert_eq!(classify_tasks(&wf, &states), (vec![0, 4], vec![]));

    let mut states = pending(5);
    states[0] = LocalTaskState::Success { attempt: 1, output: None };
    assert_eq!(classify_tasks(&wf, &states), (vec![1, 3, 4], vec![]));

    let mut states = pending(5);
    states[0] = LocalTaskState::Failed { attempt: 2, error: "boom".to_string() };
    assert_eq!(classify_tasks(&wf, &states), (vec![4], vec![1, 3]));
}

#[test]
fn dependents_of_lists_direct_dependents() {
    let wf = workflow();
    assert_eq!(dependents_of(&wf, 0), vec![1, 3]);
    assert_eq!(dependents_of(&wf, 1), vec![2]);
    assert_eq!(dependents_of(&wf, 4), Vec::<usize>::new());
}

#[test]
fn handle_failure_retries_while_retries_remain() {
    let wf = workflow();
    let mut states = pending(5);
    states[0] = LocalTaskState::Running { attempt: 1 };
    let attempts = vec![1, 0, 0, 0, 0];
    let outcome = handle_failure(0, "boom".to_string(), &wf, &mut states, &attempts);
    assert_eq!(outcome, FailureOutcome::Retry);
    assert_eq!(states[0], LocalTaskState::Pending);
    assert_eq!(states[1], LocalTaskState::Pending);
}

#[test]
fn handle_failure_skips_everything_downstream() {
    let wf = workflow();
    let mut states = pending(5);
    states[0] = LocalTaskState::Running { attempt: 2 };
    states[3] = LocalTaskState::Success { attempt: 1, output: None };
    let attempts = vec![2, 0, 0, 0, 0];
    let outcome = handle_failure(0, "boom".to_string(), &wf, &mut states, &attempts);
    assert_eq!(outcome, FailureOutcome::Failed { attempt: 2, max_retries: 1 });
    assert_eq!(states[0], LocalTaskState::Failed { attempt: 2, error: "boom".to_string() });
    let skipped = LocalTaskState::Skipped { reason: "dependency a failed".to_string() };
    assert_eq!(states[1], skipped);
    assert_eq!(states[2], skipped);
    assert_eq!(states[3], LocalTaskState::Success { attempt: 1, output: None });
    assert_eq!(states[4], LocalTaskState::Pending);
    assert!(has_pending(&states));
    assert_eq!(final_run_status(&states), RunStatus::Failed);
}

#[test]
fn handle_failure_without_recorded_attempt_counts_one() {
    let wf = workflow();
    let mut states = pending(5);
    let outcome = handle_failure(1, "x".to_string(), &wf, &mut states, &vec![]);
    assert_eq!(outcome, FailureOutcome::Failed { attempt: 1, max_retries: 0 });
    assert_eq!(states[2], LocalTaskState::Skipped { reason: "dependency b failed".to_string() });
    assert_eq!(states[3], LocalTaskState::Pending);
}

#[test]
fn run_status_and_pending_checks() {
    let states = vec![LocalTaskState::Success { attempt: 1, output: None }];
    assert!(!has_pending(&states));
    assert_eq!(final_run_status(&states), RunStatus::Success);
    let states = vec![LocalTaskState::Skipped { reason: "r".to_string() }];
    assert_eq!(final_run_status(&states), RunStatus::Failed);
}

#[test]
fn mark_skipped_and_attempts() {
    let mut states = pending(3);
    mark_skipped(&mut states, vec![0, 2]);
    assert_eq!(states[0], LocalTaskState::Skipped { reason: "dependency failed".to_string() });
    assert_eq!(states[1], LocalTaskState::Pending);
    assert_eq!(states[2], LocalTaskState::Skipped { reason: "dependency failed".to_string() });

    let mut attempts = vec![0, 4];
    let mut states = pending(2);
    assert_eq!(start_attempt(1, &mut attempts, &mut states), 5);
    assert_eq!(attempts, vec![0, 5]);
    assert_eq!(states[1], LocalTaskState::Running { attempt: 5 });

    let mut outputs = vec![None, None];
    let out = Some(Json::from_u64(9));
    assert_eq!(record_success(1, out, &mut outputs, &mut states, &attempts), 5);
    assert_eq!(outputs[1], Some(Json::from_u64(9)));
    assert_eq!(states[1], LocalTaskState::Success { attempt: 5, output: Some(Json::from_u64(9)) });
}

#[test]
fn upstream_outputs_are_named_after_dependencies() {
    let wf = workflow();
    let outputs = vec![Some(Json::from_u64(1)), None, None, None, None];
    let up = collect_upstream_outputs(3, &wf, &outputs);
    assert_eq!(up.len(), 1);
    assert_eq!(up.get("a"), Some(&Json::from_u64(1)));
    assert!(collect_upstream_outputs(2, &wf, &outputs).is_empty());
    assert!(collect_upstream_outputs(99, &wf, &outputs).is_empty());
}

#[test]
fn process_status_and_logs() {
    assert_eq!(process_status(true, Some(0)), TaskExecutionStatus::Success);
    assert_eq!(
        process_status(false, Some(-2)),
        TaskExecutionStatus::Failed("process exited with status -2".to_string())
    );
    assert_eq!(
        process_status(false, None),
        TaskExecutionStatus::Failed("process exited with status signal".to_string())
    );
    assert_eq!(combine_logs("", ""), None);
    assert_eq!(combine_logs("out", ""), Some("out".to_string()));
    assert_eq!(combine_logs("", "err"), Some("err".to_string()));
    assert_eq!(combine_logs("out", "err"), Some("out\nerr".to_string()));
}

#[test]
fn local_task_env_describes_the_task() {
    let ctx = TaskContext {
        workflow_name: "etl".to_string(),
        task_name: "extract".to_string(),
        run_id: "etl-1".to_string(),
        attempt: 12,
        task_dir: "/runs/etl-1/extract".to_string(),
        spec_path: "/runs/etl-1/extract/spec.json".to_string(),
        output_path: "/runs/etl-1/extract/output.json".to_string(),
    };
    let env = local_task_env(&ctx, "/proj");
    let expected: Vec<(String, String)> = vec![
        ("PYTHONPATH", "/proj"),
        ("ORK_INPUT_PATH", "/runs/etl-1/extract/spec.json"),
        ("ORK_OUTPUT_PATH", "/runs/etl-1/extract/output.json"),
        ("ORK_TASK_NAME", "extract"),
        ("ORK_WORKFLOW_NAME", "etl"),
        ("ORK_RUN_ID", "etl-1"),
        ("ORK_ATTEMPT", "12"),
        ("ORK_WORKDIR", "/runs/etl-1/extract"),
    ]
    .into_iter()
    .map(|(k, v)| (k.to_string(), v.to_string()))
    .collect();
    assert_eq!(env, expected);
}

#[test]
fn collect_upstream_outputs_skips_dependencies_without_output() {
    let wf = CompiledWorkflow {
        name: "w".to_string(),
        tasks: vec![task("a", vec![], 0), task("b", vec![0, 7], 0)],
        name_index: IndexMap::new(),
        topo: vec![0, 1],
        root: "/tmp".to_string(),
    };
    let outputs = vec![Some(Json::from_u64(4)), None];
    let up = collect_upstream_outputs(1, &wf, &outputs);
    assert_eq!(up.len(), 1);
    assert_eq!(up.get("a"), Some(&Json::from_u64(4)));
}

#[test]
fn handle_failure_skips_only_tasks_that_have_a_state() {
    let wf = workflow();
    let mut states = pending(3);
    states[0] = LocalTaskState::Running { attempt: 2 };
    let outcome = handle_failure(0, "boom".to_string(), &wf, &mut states, &vec![2]);
    assert_eq!(outcome, FailureOutcome::Failed { attempt: 2, max_retries: 1 });
    assert_eq!(states.len(), 3);
    assert_eq!(states[0], LocalTaskState::Failed { attempt: 2, error: "boom".to_string() });
    assert_eq!(states[1], LocalTaskState::Skipped { reason: "dependency a failed".to_string() });
    assert_eq!(states[2], LocalTaskState::Skipped { reason: "dependency a failed".to_string() });
}

#[test]
fn handle_failure_past_the_last_task_with_no_attempt_retries() {
    let wf = workflow();
    let mut states = pending(7);
    states[6] = LocalTaskState::Running { attempt: 0 };
    let outcome = handle_failure(6, "boom".to_string(), &wf, &mut states, &vec![0, 0, 0, 0, 0, 0, 0]);
    assert_eq!(outcome, FailureOutcome::Retry);
    assert_eq!(states[6], LocalTaskState::Pending);
}

#[test]
fn classify_tasks_ignores_settled_states_past_the_last_task() {
    let wf = workflow();
    let mut states = pending(6);
    states[5] = LocalTaskState::Success { attempt: 1, output: None };
    assert_eq!(classify_tasks(&wf, &states), (vec![0, 4], vec![]));
}

#[test]
fn a_failing_task_is_attempted_retries_plus_one_times() {
    let wf = workflow();
    let mut states = pending(5);
    let mut attempts = vec![0u32; 5];
    let mut runs = 0;
    loop {
        let (ready, _) = classify_tasks(&wf, &states);
        if !ready.contains(&0) {
            break;
        }
        start_attempt(0, &mut attempts, &mut states);
        runs += 1;
        if handle_failure(0, "boom".to_string(), &wf, &mut states, &attempts) != FailureOutcome::Retry {
            break;
        }
    }
    assert_eq!(runs, 2);
    assert_eq!(attempts[0], 2);
    assert_eq!(states[0], LocalTaskState::Failed { attempt: 2, error: "boom".to_string() });
    let (ready, _) = classify_tasks(&wf, &states);
    assert!(!ready.contains(&1) && !ready.contains(&3));
    assert_eq!(states[1], LocalTaskState::Skipped { reason: "dependency a failed".to_string() });
}

#[test]
fn start_round_starts_ready_tasks_and_skips_blocked_ones() {
    let wf = workflow();
    let mut states = pending(5);
    let mut attempts = vec![0u32; 5];
    assert_eq!(start_round(&wf, &mut states, &mut attempts), vec![0, 4]);
    assert_eq!(states[0], LocalTaskState::Running { attempt: 1 });
    assert_eq!(states[4], LocalTaskState::Running { attempt: 1 });
    assert_eq!(states[1], LocalTaskState::Pending);
    assert_eq!(attempts, vec![1, 0, 0, 0, 1]);

    // Nothing new is ready while the first tasks run.
    assert_eq!(start_round(&wf, &mut states, &mut attempts), Vec::<usize>::new());
    assert_eq!(attempts, vec![1, 0, 0, 0, 1]);

    let mut states = pending(5);
    states[0] = LocalTaskState::Failed { attempt: 2, error: "boom".to_string() };
    let mut attempts = vec![2, 0, 0, 0, 0];
    assert_eq!(start_round(&wf, &mut states, &mut attempts), vec![4]);
    assert_eq!(states[1], LocalTaskState::Skipped { reason: "dependency failed".to_string() });
    assert_eq!(states[3], LocalTaskState::Skipped { reason: "dependency failed".to_string() });
    assert_eq!(states[2], LocalTaskState::Pending);
    assert_eq!(attempts, vec![2, 0, 0, 0, 1]);
}

#[test]
fn a_whole_local_run_ends_with_dependents_of_a_failure_skipped() {
    let wf = workflow();
    let mut states = pending(5);
    let mut attempts = vec![0u32; 5];
    let mut outputs: Vec<Option<Json>> = (0..5).map(|_| None).collect();
    let mut executed = vec![0u32; 5];
    loop {
        let started = start_round(&wf, &mut states, &mut attempts);
        for &i in &started {
            executed[i] += 1;
        }
        let running: Vec<usize> = (0..5).filter(|&i| matches!(states[i], LocalTaskState::Running { .. })).collect();
        if running.is_empty() {
            if !has_pending(&states) {
                break;
            }
            continue;
        }
        for i in running {
            if i == 0 {
                handle_failure(i, "boom".to_string(), &wf, &mut states, &attempts);
            } else {
                record_success(i, None, &mut outputs, &mut states, &attempts);
            }
        }
    }
    assert_eq!(executed, vec![2, 0, 0, 0, 1]);
    assert_eq!(states[0], LocalTaskState::Failed { attempt: 2, error: "boom".to_string() });
    assert_eq!(states[4], LocalTaskState::Success { attempt: 1, output: None });
    for i in [1, 2, 3] {
        assert!(matches!(states[i], LocalTaskState::Skipped { .. }));
    }
    assert_eq!(final_run_status(&states), RunStatus::Failed);
}

#[test]
fn attempt_failure_gives_the_failure_text() {
    assert_eq!(attempt_failure(TaskExecutionStatus::Success), None);
    assert_eq!(attempt_failure(TaskExecutionStatus::TimedOut).as_deref(), Some("task timed out"));
    assert_eq!(attempt_failure(TaskExecutionStatus::Failed("exit 3".to_string())).as_deref(), Some("exit 3"));
}
