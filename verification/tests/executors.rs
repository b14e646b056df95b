use ork::executors::{
    build_env_vars, library_output_payload, library_path, log_line, output_line_payload, process_finished_update, process_launch,
    resolve_command_path, select_executor, spawn_failed_update, worker_endpoint, worker_outcome, EnvValue,
    ExecuteResponse, ExecutorChoice, LaunchCommand, ProcessEvent, ProcessPhase, ProcessRun,
};
use ork::json::Json;
use ork::models::Workflow;

fn obj(entries: Vec<(&str, Json)>) -> Json {
    Json::Object(entries.into_iter().map(|(k, v)| (k.to_string(), v)).collect())
}

fn s(x: &str) -> Json {
    Json::String(x.to_string())
}

fn env_get<'a>(env: &'a [(String, EnvValue)], key: &str) -> Option<&'a EnvValue> {
    env.iter().find(|(k, _)| k == key).map(|(_, v)| v)
}

#[test]
fn test_build_env_vars_extracts_known_fields() {
    let params = obj(vec![
        ("bool_meta", Json::Bool(true)),
        ("numeric_meta", Json::from_u64(7)),
        ("python_path", s("/tmp/python-root")),
        ("runner_path", s("/tmp/runner.py")),
        ("string_meta", s("x")),
        ("task_file", s("tasks/job.py")),
        ("task_function", s("run")),
        ("task_input", obj(vec![("value", Json::from_u64(42))])),
        ("task_module", s("pkg.tasks")),
        ("upstream", obj(vec![("step_a", obj(vec![("ok", Json::Bool(true))]))])),
    ]);
    let env = build_env_vars(Some(params));
    assert_eq!(env.task_file.expect("task_file"), "tasks/job.py");
    assert_eq!(env.task_module.as_deref(), Some("pkg.tasks"));
    assert_eq!(env.task_function.as_deref(), Some("run"));
    assert_eq!(env.python_path.expect("python_path"), "/tmp/python-root");
    assert_eq!(env.runner_path.expect("runner_path"), "/tmp/runner.py");
    assert_eq!(env.task_input.expect("task_input"), obj(vec![("value", Json::from_u64(42))]));

    assert_eq!(env_get(&env.env_vars, "string_meta"), Some(&EnvValue::Text("x".to_string())));
    assert_eq!(env_get(&env.env_vars, "numeric_meta"), Some(&EnvValue::Text("7".to_string())));
    assert_eq!(env_get(&env.env_vars, "bool_meta"), Some(&EnvValue::Text("true".to_string())));
    assert!(env_get(&env.env_vars, "ORK_INPUT_JSON").is_some());
    assert!(env_get(&env.env_vars, "ORK_UPSTREAM_JSON").is_some());
}

#[test]
fn test_build_env_vars_with_none_returns_defaults() {
    let env = build_env_vars(None);
    assert!(env.env_vars.is_empty());
    assert!(env.task_file.is_none());
    assert!(env.task_module.is_none());
    assert!(env.task_function.is_none());
    assert!(env.task_input.is_none());
    assert!(env.runner_path.is_none());
    assert!(env.python_path.is_none());
}

#[test]
fn build_env_vars_takes_env_object_entries() {
    let params = obj(vec![("env", obj(vec![("A", s("1")), ("B", Json::Null), ("C", Json::from_i64(-3))]))]);
    let env = build_env_vars(Some(params));
    assert_eq!(
        env.env_vars,
        vec![("A".to_string(), EnvValue::Text("1".to_string())), ("C".to_string(), EnvValue::Text("-3".to_string()))]
    );
    assert!(build_env_vars(Some(s("not an object"))).env_vars.is_empty());
}

#[test]
fn test_resolve_command_path_behavior() {
    assert_eq!(resolve_command_path(".", "/usr/bin/echo"), "/usr/bin/echo".to_string());
    assert_eq!(resolve_command_path(".", "echo hello"), "echo hello".to_string());
    assert_eq!(resolve_command_path(".", "scripts/run.sh"), "scripts/run.sh".to_string());
    assert_eq!(resolve_command_path(".", "my-task"), "./my-task".to_string());
}

#[test]
fn output_payloads_and_log_lines() {
    assert_eq!(output_line_payload("ORK_OUTPUT: {\"a\":1}  \n"), Some("{\"a\":1}".to_string()));
    assert_eq!(output_line_payload("hello"), None);
    assert_eq!(library_output_payload("ORK_OUTPUT: [1] "), "[1]");
    assert_eq!(library_output_payload("{\"x\":2}"), "{\"x\":2}");
    assert_eq!(log_line("stdout", "line  \n"), "stdout: line\n");
}

#[test]
fn executor_selection_by_type() {
    let wf = Workflow {
        id: 1,
        name: "wf".to_string(),
        description: None,
        job_name: "j".to_string(),
        region: "eu".to_string(),
        project: "proj".to_string(),
        executor_type: "dag".to_string(),
        task_params: None,
        schedule: None,
        schedule_enabled: false,
        last_scheduled_at: None,
        next_scheduled_at: None,
        created_at: 0,
        updated_at: 0,
    };
    assert!(matches!(select_executor("python", &wf), Ok(ExecutorChoice::Process)));
    assert!(matches!(select_executor("LIBRARY", &wf), Ok(ExecutorChoice::Library)));
    assert!(matches!(
        select_executor("cloudrun", &wf),
        Ok(ExecutorChoice::CloudRun { project, region }) if project == "proj" && region == "eu"
    ));
    assert_eq!(select_executor("ftp", &wf).unwrap_err(), "Unknown executor type: ftp");
    assert_eq!(worker_endpoint("http://localhost:8081", "compile"), "http://localhost:8081/compile");
}

fn text(v: Option<&EnvValue>) -> Option<&str> {
    match v {
        Some(EnvValue::Text(t)) => Some(t.as_str()),
        _ => None,
    }
}

#[test]
fn process_launch_python_file_task_sets_runner_environment() {
    let params = obj(vec![
        ("task_file", s("tasks/job.py")),
        ("task_function", s("run")),
        ("task_input", obj(vec![("v", Json::from_u64(1))])),
        ("task_name", s("extract")),
        ("workflow_name", s("etl")),
        ("run_id", s("r1")),
        ("python_path", s("/proj")),
    ]);
    let env = build_env_vars(Some(params));
    let launch = process_launch(&env, 5, "exec-1", "/work", "ignored", Some("/found".to_string()), None);
    assert_eq!(launch.command, LaunchCommand::Python);
    assert_eq!(launch.current_dir.as_deref(), Some("/proj"));
    assert_eq!(launch.label, "extract");
    let vars = &launch.env_vars;
    assert_eq!(text(env_get(vars, "EXECUTION_ID")), Some("exec-1"));
    assert_eq!(text(env_get(vars, "ORK_TASK_FILE")), Some("tasks/job.py"));
    assert_eq!(text(env_get(vars, "ORK_TASK_FUNCTION")), Some("run"));
    assert_eq!(text(env_get(vars, "ORK_TASK_NAME")), Some("extract"));
    assert_eq!(text(env_get(vars, "ORK_WORKFLOW_NAME")), Some("etl"));
    assert_eq!(text(env_get(vars, "ORK_RUN_ID")), Some("r1"));
    assert_eq!(text(env_get(vars, "PYTHONPATH")), Some("/proj"));
    assert_eq!(env_get(vars, "ORK_INPUT_JSON"), Some(&EnvValue::Json(obj(vec![("v", Json::from_u64(1))]))));
    assert!(env_get(vars, "UV_CACHE_DIR").is_none());
    assert!(env_get(vars, "ORK_TASK_MODULE").is_none());
}

#[test]
fn process_launch_file_task_uses_found_root_without_python_path() {
    let env = build_env_vars(Some(obj(vec![("task_file", s("/abs/job.py"))])));
    let launch = process_launch(&env, 5, "e", "/work", "x", Some("/found".to_string()), Some("/cache".to_string()));
    assert_eq!(launch.command, LaunchCommand::Python);
    assert_eq!(launch.current_dir.as_deref(), Some("/found"));
    assert_eq!(text(env_get(&launch.env_vars, "PYTHONPATH")), Some("/found"));
    assert_eq!(text(env_get(&launch.env_vars, "UV_CACHE_DIR")), Some("/cache"));
}

#[test]
fn process_launch_module_task_runs_in_python_path_only() {
    let env = build_env_vars(Some(obj(vec![("task_module", s("pkg.tasks")), ("UV_CACHE_DIR", s("/mine"))])));
    let launch = process_launch(&env, 5, "e", "/work", "x", Some("/found".to_string()), Some("/cache".to_string()));
    assert_eq!(launch.command, LaunchCommand::Python);
    assert_eq!(launch.current_dir, None);
    assert_eq!(text(env_get(&launch.env_vars, "ORK_TASK_MODULE")), Some("pkg.tasks"));
    assert!(env_get(&launch.env_vars, "PYTHONPATH").is_none());
    assert_eq!(text(env_get(&launch.env_vars, "UV_CACHE_DIR")), Some("/mine"));
}

#[test]
fn process_launch_shell_task_runs_command_line_in_working_dir() {
    let env = build_env_vars(Some(obj(vec![("flag", Json::Bool(true))])));
    let launch = process_launch(&env, 1, "e", "/work", "script.sh", None, None);
    assert_eq!(launch.command, LaunchCommand::Shell("./script.sh".to_string()));
    assert_eq!(launch.current_dir.as_deref(), Some("/work"));
    assert_eq!(launch.label, "00000000-0000-0000-0000-000000000001");
    assert_eq!(text(env_get(&launch.env_vars, "flag")), Some("true"));
    assert!(env_get(&launch.env_vars, "ORK_TASK_FILE").is_none());
}

#[test]
fn process_updates_name_task_and_execution() {
    let u = spawn_failed_update(3, "extract", "exec-1", "No such file");
    assert_eq!(u.status, "failed");
    assert_eq!(u.error.as_deref(), Some("failed to spawn process for task extract (execution exec-1): No such file"));
    let ok = process_finished_update(3, true, Some(obj(vec![("x", Json::from_u64(1))])), "extract", "exec-1");
    assert_eq!(ok.status, "success");
    assert_eq!(ok.output, Some(obj(vec![("x", Json::from_u64(1))])));
    assert!(ok.error.is_none());
    let failed = process_finished_update(3, false, Some(Json::Null), "extract", "exec-1");
    assert_eq!(failed.status, "failed");
    assert!(failed.output.is_none());
    assert_eq!(failed.error.as_deref(), Some("process failed for task extract (execution exec-1)"));
}

#[test]
fn library_path_is_read_from_parameters() {
    assert_eq!(library_path(&Some(obj(vec![("library_path", s("/lib/task.so"))]))), Ok("/lib/task.so".to_string()));
    let missing = Err("Missing library_path in task parameters".to_string());
    assert_eq!(library_path(&Some(obj(vec![("library_path", Json::from_u64(1))]))), missing);
    assert_eq!(library_path(&Some(obj(vec![]))), missing);
    assert_eq!(library_path(&None), missing);
}

#[test]
fn worker_outcome_merges_deferrables_into_object_output() {
    let output = obj(vec![("rows", Json::from_u64(3))]);
    let deferred = vec![obj(vec![("job_id", s("j1"))])];
    let (update, result) =
        worker_outcome(9, ExecuteResponse::Success { output: output.deep_clone(), deferred: Some(deferred) });
    assert_eq!(update.task_id, 9);
    assert_eq!(update.status, "success");
    assert_eq!(
        update.output,
        Some(obj(vec![("rows", Json::from_u64(3)), ("deferred", Json::Array(vec![obj(vec![("job_id", s("j1"))])]))]))
    );
    assert_eq!(result, Ok(output));

    let (update, result) =
        worker_outcome(9, ExecuteResponse::Success { output: s("plain"), deferred: Some(vec![Json::Null]) });
    assert_eq!(update.output, Some(s("plain")));
    assert_eq!(result, Ok(s("plain")));
}

#[test]
fn worker_outcome_reports_failure() {
    let (update, result) = worker_outcome(4, ExecuteResponse::Failed { error: "boom".to_string() });
    assert_eq!(update.status, "failed");
    assert_eq!(update.error.as_deref(), Some("boom"));
    assert!(update.output.is_none());
    assert_eq!(result, Err("Task failed: boom".to_string()));
}

#[test]
fn written_output_is_read_back() {
    let text = "{\"rows\":3,\"path\":\"/tmp/a b\"}";
    let line = format!("ORK_OUTPUT:{}\n", text);
    assert_eq!(output_line_payload(&line).as_deref(), Some(text));
    assert_eq!(output_line_payload(&format!("ORK_OUTPUT:{} \t", text)).as_deref(), Some(text));
    assert_eq!(library_output_payload(&format!("ORK_OUTPUT:{}", text)), text);
    assert_eq!(output_line_payload("ORK_OUTPUT:").as_deref(), Some(""));
}

#[test]
fn process_run_sends_one_final_update_with_the_last_output() {
    let mut run = ProcessRun::new(7, "t".to_string(), "e".to_string());
    let started = run.handle(ProcessEvent::Started).expect("running update");
    assert_eq!(started.status, "running");
    assert_eq!(started.task_id, 7);
    let log = run
        .handle(ProcessEvent::Stdout {
            line: "ORK_OUTPUT:{\"n\":1}".to_string(),
            parsed: Some(obj(vec![("n", Json::from_u64(1))])),
        })
        .expect("log update");
    assert_eq!(log.status, "log");
    assert_eq!(log.log.as_deref(), Some("stdout: ORK_OUTPUT:{\"n\":1}\n"));
    run.handle(ProcessEvent::Stdout { line: "plain text".to_string(), parsed: None });
    let err = run.handle(ProcessEvent::Stderr("oops  ".to_string())).expect("log update");
    assert_eq!(err.log.as_deref(), Some("stderr: oops\n"));
    run.handle(ProcessEvent::Stdout {
        line: "ORK_OUTPUT:{\"n\":2}".to_string(),
        parsed: Some(obj(vec![("n", Json::from_u64(2))])),
    });
    run.handle(ProcessEvent::Stdout { line: "ORK_OUTPUT:not json".to_string(), parsed: None });
    let done = run.handle(ProcessEvent::Exited(true)).expect("final update");
    assert_eq!(done.status, "success");
    assert_eq!(done.output, Some(obj(vec![("n", Json::from_u64(2))])));
    assert!(done.error.is_none());
    assert_eq!(run.phase, ProcessPhase::Succeeded);
    assert!(run.handle(ProcessEvent::Exited(false)).is_none());
    assert!(run.handle(ProcessEvent::Stdout { line: "late".to_string(), parsed: None }).is_none());

    let mut failed = ProcessRun::new(8, "t".to_string(), "e".to_string());
    failed.handle(ProcessEvent::Stdout { line: "ORK_OUTPUT:1".to_string(), parsed: Some(Json::from_u64(1)) });
    let done = failed.handle(ProcessEvent::Exited(false)).expect("final update");
    assert_eq!(done.status, "failed");
    assert!(done.output.is_none());
    assert_eq!(done.error.as_deref(), Some("process failed for task t (execution e)"));
    assert_eq!(failed.phase, ProcessPhase::Failed);
}

#[test]
fn process_run_that_cannot_start_fails_once() {
    let mut run = ProcessRun::new(9, "job".to_string(), "x1".to_string());
    let done = run.handle(ProcessEvent::SpawnFailed("no such file".to_string())).expect("final update");
    assert_eq!(done.status, "failed");
    assert_eq!(done.task_id, 9);
    assert_eq!(done.error.as_deref(), Some("failed to spawn process for task job (execution x1): no such file"));
    assert!(run.handle(ProcessEvent::Started).is_none());
    assert!(run.handle(ProcessEvent::Exited(true)).is_none());
}
