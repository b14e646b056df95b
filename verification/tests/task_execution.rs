use ork::compiled::NewWorkflowTask;
use ork::json::{Json, JsonNumber};
use ork::models::{TaskStatus, TaskWithWorkflow, Workflow, WorkflowTask};
use ork::task_execution::{
    build_run_tasks, build_run_tasks_from_snapshot, prepare_dispatch, resolve_bindings_for_task,
    resolve_job_name, resolve_ref_path, retry_backoff_seconds,
};

fn obj(entries: Vec<(&str, Json)>) -> Json {
    Json::Object(entries.into_iter().map(|(k, v)| (k.to_string(), v)).collect())
}

fn s(x: &str) -> Json {
    Json::String(x.to_string())
}

fn num(n: i64) -> Json {
    Json::from_i64(n)
}

fn get<'a>(v: &'a Json, key: &str) -> &'a Json {
    v.get(key).expect("key present")
}

fn sample_task_with_workflow(params: Option<Json>) -> TaskWithWorkflow {
    TaskWithWorkflow {
        task_id: uuid::Uuid::new_v4().as_u128(),
        run_id: uuid::Uuid::new_v4().as_u128(),
        task_index: 0,
        task_name: "task".to_string(),
        executor_type: "process".to_string(),
        depends_on: Vec::new(),
        task_status: TaskStatus::Pending,
        attempts: 0,
        max_retries: 0,
        timeout_seconds: None,
        retry_at: None,
        execution_name: None,
        params,
        workflow_id: uuid::Uuid::new_v4().as_u128(),
        job_name: "workflow-job".to_string(),
        project: "project".to_string(),
        region: "region".to_string(),
    }
}

fn sample_workflow(id: u128) -> Workflow {
    let now = chrono::Utc::now().timestamp_millis();
    Workflow {
        id,
        name: "wf".to_string(),
        description: None,
        job_name: "job".to_string(),
        region: "local".to_string(),
        project: "local".to_string(),
        executor_type: "process".to_string(),
        task_params: None,
        schedule: None,
        schedule_enabled: false,
        last_scheduled_at: None,
        next_scheduled_at: None,
        created_at: now,
        updated_at: now,
    }
}

#[test]
fn test_resolve_job_name_prefers_params_over_task_default() {
    let with_command = sample_task_with_workflow(Some(obj(vec![("command", s("echo hello"))])));
    assert_eq!(resolve_job_name(&with_command), "echo hello");

    let with_job_name = sample_task_with_workflow(Some(obj(vec![("job_name", s("overridden"))])));
    assert_eq!(resolve_job_name(&with_job_name), "overridden");
}

#[test]
fn test_resolve_job_name_falls_back_to_task_joined_data() {
    let task = sample_task_with_workflow(None);
    assert_eq!(resolve_job_name(&task), "workflow-job");
}

#[test]
fn test_retry_backoff_seconds_caps() {
    assert_eq!(retry_backoff_seconds(0), 1);
    assert_eq!(retry_backoff_seconds(1), 1);
    assert_eq!(retry_backoff_seconds(2), 2);
    assert_eq!(retry_backoff_seconds(6), 32);
    assert_eq!(retry_backoff_seconds(10), 60);
    assert_eq!(retry_backoff_seconds(15), 60);
}

#[test]
fn backoff_never_decreases_and_stays_within_a_minute() {
    let mut previous = 0;
    for attempt in -3..40 {
        let b = retry_backoff_seconds(attempt);
        assert!(b >= previous);
        assert!((1..=60).contains(&b));
        previous = b;
    }
    assert_eq!(retry_backoff_seconds(i32::MIN), 1);
    assert_eq!(retry_backoff_seconds(i32::MAX), 60);
    assert_eq!(retry_backoff_seconds(3), 4);
    assert_eq!(retry_backoff_seconds(7), 60);
}

#[test]
fn test_build_run_tasks_normalizes_params_and_clamps_limits() {
    let run_id = uuid::Uuid::new_v4();
    let workflow_id = uuid::Uuid::new_v4().as_u128();
    let workflow = sample_workflow(workflow_id);
    let now = chrono::Utc::now().timestamp_millis();
    let workflow_tasks = vec![
        WorkflowTask {
            id: uuid::Uuid::new_v4().as_u128(),
            workflow_id,
            task_index: 0,
            task_name: "a".to_string(),
            executor_type: "process".to_string(),
            depends_on: vec![],
            params: Some(s("bad")),
            created_at: now,
        },
        WorkflowTask {
            id: uuid::Uuid::new_v4().as_u128(),
            workflow_id,
            task_index: 1,
            task_name: "b".to_string(),
            executor_type: "process".to_string(),
            depends_on: vec!["a".to_string()],
            params: Some(obj(vec![
                ("max_retries", num(i64::MAX)),
                ("task_name", s("custom-name")),
                ("timeout_seconds", num(-20)),
            ])),
            created_at: now,
        },
    ];

    let built = build_run_tasks(run_id.as_u128(), &workflow, &workflow_tasks);
    assert_eq!(built.len(), 2);

    assert_eq!(built[0].max_retries, 0);
    assert_eq!(built[0].timeout_seconds, None);
    assert_eq!(get(&built[0].params, "task_index"), &num(0));
    assert_eq!(get(&built[0].params, "task_name"), &s("a"));
    assert_eq!(get(&built[0].params, "workflow_name"), &s("wf"));
    assert_eq!(get(&built[0].params, "run_id"), &s(&run_id.to_string()));

    assert_eq!(built[1].max_retries, i32::MAX);
    assert_eq!(built[1].timeout_seconds, Some(0));
    assert_eq!(get(&built[1].params, "task_name"), &s("custom-name"));
    assert_eq!(built[1].depends_on, vec!["a".to_string()]);
}

#[test]
fn build_run_tasks_from_snapshot_keeps_rows_and_adds_defaults() {
    let run_id = uuid::Uuid::new_v4();
    let workflow = sample_workflow(uuid::Uuid::new_v4().as_u128());
    let rows = vec![NewWorkflowTask {
        task_index: 3,
        task_name: "only".to_string(),
        executor_type: "python".to_string(),
        depends_on: vec![],
        params: obj(vec![("max_retries", num(2)), ("timeout_seconds", num(45))]),
        signature: None,
    }];
    let built = build_run_tasks_from_snapshot(run_id.as_u128(), &workflow, &rows);
    assert_eq!(built.len(), 1);
    assert_eq!(built[0].task_index, 3);
    assert_eq!(built[0].executor_type, "python");
    assert_eq!(built[0].max_retries, 2);
    assert_eq!(built[0].timeout_seconds, Some(45));
    assert_eq!(get(&built[0].params, "task_index"), &num(3));
    assert_eq!(get(&built[0].params, "run_id"), &s(&run_id.to_string()));
}

#[test]
fn resolve_ref_path_walks_fields_of_a_dependency_output() {
    let deps = vec!["extract".to_string()];
    let outputs = vec![("extract".to_string(), obj(vec![("data", obj(vec![("n", num(7))]))]))];
    let v = resolve_ref_path("t", &deps, "tasks.extract.output.data.n", Some(&outputs)).unwrap();
    assert_eq!(v, num(7));
    let whole = resolve_ref_path("t", &deps, "tasks.extract.output", Some(&outputs)).unwrap();
    assert_eq!(whole, obj(vec![("data", obj(vec![("n", num(7))]))]));

    let err = resolve_ref_path("t", &deps, "extract.output", Some(&outputs)).unwrap_err();
    assert_eq!(
        err,
        "task 't' has unsupported ref 'extract.output': expected tasks.<task>.output[.<field>...]"
    );
    let err = resolve_ref_path("t", &deps, "tasks.other.output", Some(&outputs)).unwrap_err();
    assert_eq!(
        err,
        "task 't' ref 'tasks.other.output' targets task 'other' which is not listed in depends_on"
    );
    let err = resolve_ref_path("t", &deps, "tasks.extract.output", None).unwrap_err();
    assert_eq!(err, "task 't' ref 'tasks.extract.output' cannot be resolved: run outputs are unavailable");
    let err = resolve_ref_path("t", &deps, "tasks.extract.output", Some(&vec![])).unwrap_err();
    assert_eq!(
        err,
        "task 't' ref 'tasks.extract.output' cannot be resolved: no output for dependency 'extract'"
    );
    let err = resolve_ref_path("t", &deps, "tasks.extract.output.missing", Some(&outputs)).unwrap_err();
    assert_eq!(err, "task 't' ref 'tasks.extract.output.missing' missing field 'missing'");
    let err = resolve_ref_path("t", &deps, "tasks.extract.output.data.n.x", Some(&outputs)).unwrap_err();
    assert_eq!(
        err,
        "task 't' ref 'tasks.extract.output.data.n.x' cannot access field 'x' on non-object value"
    );
}

#[test]
fn resolve_bindings_sets_task_input_and_leaves_params_on_error() {
    let deps = vec!["a".to_string()];
    let outputs = vec![("a".to_string(), obj(vec![("v", num(1))]))];
    let mut params = vec![(
        "task_bindings".to_string(),
        obj(vec![
            ("fixed", obj(vec![("const", s("x"))])),
            ("up", obj(vec![("ref", s("tasks.a.output.v"))])),
        ]),
    )];
    resolve_bindings_for_task(&mut params, "t", &deps, Some(&outputs)).unwrap();
    assert_eq!(params.len(), 2);
    assert_eq!(params[1].0, "task_input");
    assert_eq!(params[1].1, obj(vec![("fixed", s("x")), ("up", num(1))]));

    let mut bad = vec![("task_bindings".to_string(), obj(vec![("both", obj(vec![("const", num(1)), ("ref", s("x"))]))]))];
    let before = bad.len();
    let err = resolve_bindings_for_task(&mut bad, "t", &deps, Some(&outputs)).unwrap_err();
    assert_eq!(err, "task 't' binding 'both' must define exactly one of: const, ref");
    assert_eq!(bad.len(), before);

    let mut not_obj = vec![("task_bindings".to_string(), s("nope"))];
    let err = resolve_bindings_for_task(&mut not_obj, "t", &deps, None).unwrap_err();
    assert_eq!(err, "task_bindings must be an object for task 't'");

    let mut ref_not_str = vec![("task_bindings".to_string(), obj(vec![("x", obj(vec![("ref", num(3))]))]))];
    let err = resolve_bindings_for_task(&mut ref_not_str, "t", &deps, None).unwrap_err();
    assert_eq!(err, "task 't' binding 'x.ref' must be a string path");

    let mut none = vec![("other".to_string(), num(1))];
    resolve_bindings_for_task(&mut none, "t", &deps, None).unwrap();
    assert_eq!(none, vec![("other".to_string(), num(1))]);
}

#[test]
fn prepare_dispatch_checks_status_and_workflow_and_sets_attempt() {
    let mut task = sample_task_with_workflow(Some(obj(vec![("command", s("echo hi"))])));
    task.attempts = 2;
    let workflows = vec![sample_workflow(task.workflow_id)];
    let d = prepare_dispatch(&task, &workflows, &vec![]).unwrap();
    assert_eq!(d.workflow_index, 0);
    assert_eq!(d.job_name, "echo hi");
    assert_eq!(get(&d.params, "env"), &obj(vec![("ORK_ATTEMPT", num(3))]));

    let err = prepare_dispatch(&task, &vec![], &vec![]).unwrap_err();
    assert_eq!(
        err,
        format!(
            "workflow {} not found for task {}",
            uuid::Uuid::from_u128(task.workflow_id),
            uuid::Uuid::from_u128(task.task_id)
        )
    );

    let mut running = sample_task_with_workflow(None);
    running.task_status = TaskStatus::Running;
    let err = prepare_dispatch(&running, &workflows, &vec![]).unwrap_err();
    assert!(err.contains("non-pending status running"));
}

#[test]
fn prepare_dispatch_resolves_bindings_from_run_outputs() {
    let mut task = sample_task_with_workflow(Some(obj(vec![
        ("env", s("not-an-object")),
        ("task_bindings", obj(vec![("x", obj(vec![("ref", s("tasks.up.output"))]))])),
    ])));
    task.depends_on = vec!["up".to_string()];
    task.attempts = i32::MAX;
    let workflows = vec![sample_workflow(task.workflow_id)];
    let outputs = vec![(task.run_id, vec![("up".to_string(), num(5))])];
    let d = prepare_dispatch(&task, &workflows, &outputs).unwrap();
    assert_eq!(get(&d.params, "env"), &obj(vec![("ORK_ATTEMPT", num(i32::MAX as i64))]));
    assert_eq!(get(&d.params, "task_input"), &obj(vec![("x", num(5))]));
    assert_eq!(d.job_name, "workflow-job");
    let _ = JsonNumber::PosInt(0);
}

fn dispatched_params(task: &TaskWithWorkflow, outputs: Vec<(String, Json)>) -> Json {
    let workflows = vec![sample_workflow(task.workflow_id)];
    prepare_dispatch(task, &workflows, &vec![(task.run_id, outputs)]).unwrap().params
}

#[test]
fn test_execute_task_builds_attempt_env_and_upstream_inputs() {
    let mut task = sample_task_with_workflow(Some(obj(vec![("env", s("bad-type")), ("task_input", obj(vec![]))])));
    task.attempts = 1;
    task.depends_on = vec!["dep_a".to_string(), "dep_missing".to_string()];
    let params = dispatched_params(&task, vec![("dep_a".to_string(), obj(vec![("v", num(1))]))]);
    assert_eq!(get(get(&params, "env"), "ORK_ATTEMPT"), &num(2));
    let upstream = get(&params, "upstream");
    assert_eq!(get(upstream, "dep_a"), &obj(vec![("v", num(1))]));
    assert_eq!(get(upstream, "dep_missing"), &Json::Null);
    assert_eq!(get(get(get(&params, "task_input"), "upstream"), "dep_a"), &obj(vec![("v", num(1))]));
}

#[test]
fn test_execute_task_preserves_non_empty_task_input() {
    let mut task = sample_task_with_workflow(Some(obj(vec![("task_input", obj(vec![("keep", Json::Bool(true))]))])));
    task.depends_on = vec!["dep".to_string()];
    let params = dispatched_params(&task, vec![("dep".to_string(), num(5))]);
    assert_eq!(get(get(&params, "task_input"), "keep"), &Json::Bool(true));
    assert!(get(&params, "task_input").get("upstream").is_none());
    assert_eq!(get(get(&params, "upstream"), "dep"), &num(5));
}

#[test]
fn test_execute_task_normalizes_non_object_params_and_inserts_missing_task_input() {
    let mut task = sample_task_with_workflow(Some(s("bad-params")));
    task.depends_on = vec!["dep".to_string()];
    let params = dispatched_params(&task, vec![("dep".to_string(), num(7))]);
    assert_eq!(get(get(&params, "env"), "ORK_ATTEMPT"), &num(1));
    assert_eq!(get(get(get(&params, "task_input"), "upstream"), "dep"), &num(7));
}

#[test]
fn test_execute_task_replaces_null_task_input_with_upstream_payload() {
    let mut task = sample_task_with_workflow(Some(obj(vec![("task_input", Json::Null)])));
    task.depends_on = vec!["dep".to_string()];
    let params = dispatched_params(&task, vec![("dep".to_string(), obj(vec![("k", s("v"))]))]);
    assert_eq!(get(get(get(&params, "task_input"), "upstream"), "dep"), &obj(vec![("k", s("v"))]));
}

#[test]
fn prepare_dispatch_without_dependencies_adds_no_upstream() {
    let task = sample_task_with_workflow(Some(obj(vec![("command", s("echo hi"))])));
    let params = dispatched_params(&task, vec![]);
    assert!(params.get("upstream").is_none());
    assert!(params.get("task_input").is_none());
}
