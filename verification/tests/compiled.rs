use indexmap::IndexMap;
use ork::compiled::{
    build_workflow_tasks, introspection_outcome, resolve_process_command, signatures_mergeable, topo_sort, CompiledTask,
    CompiledWorkflow, TaskArtifacts,
};
use ork::error::{OrkError, WorkflowValidationError};
use ork::json::Json;
use ork::types::{Run, RunStatus, TaskSpec};
use ork::workflow::{ExecutorKind, TaskDefinition, Workflow};

fn obj(entries: Vec<(&str, Json)>) -> Json {
    Json::Object(entries.into_iter().map(|(k, v)| (k.to_string(), v)).collect())
}

fn s(x: &str) -> Json {
    Json::String(x.to_string())
}

fn task(name: &str, executor: ExecutorKind, depends_on: Vec<usize>) -> CompiledTask {
    CompiledTask {
        name: name.to_string(),
        executor,
        file: None,
        command: None,
        job: None,
        module: None,
        function: None,
        input: Json::Null,
        inputs: Json::Null,
        depends_on,
        timeout: 300,
        retries: 0,
        signature: None,
        input_type: None,
        output_type: None,
    }
}

fn definition(executor: ExecutorKind) -> TaskDefinition {
    TaskDefinition {
        executor,
        file: None,
        command: None,
        job: None,
        module: None,
        function: None,
        input: Json::Null,
        inputs: Json::Null,
        depends_on: Vec::new(),
        timeout: 300,
        retries: 0,
        input_type: None,
        output_type: None,
    }
}

fn no_artifacts(n: usize) -> Vec<TaskArtifacts> {
    (0..n).map(|_| TaskArtifacts { canonical_file: None, signature: None }).collect()
}

#[test]
fn test_topo_sort_returns_cycle_error_when_graph_is_cyclic() {
    let mut a = task("a", ExecutorKind::Process, vec![1]);
    a.command = Some("echo a".to_string());
    a.input = obj(vec![]);
    let mut b = task("b", ExecutorKind::Process, vec![0]);
    b.command = Some("echo b".to_string());
    b.input = obj(vec![]);
    let err = topo_sort(&vec![a, b]).expect_err("cyclic graph should fail topo sort");
    assert!(matches!(err, OrkError::InvalidWorkflow(WorkflowValidationError::Cycle { .. })));
}

#[test]
fn topo_sort_orders_dependencies_first() {
    let tasks = vec![
        task("c", ExecutorKind::Process, vec![1, 2]),
        task("b", ExecutorKind::Process, vec![2]),
        task("a", ExecutorKind::Process, vec![]),
    ];
    assert_eq!(topo_sort(&tasks).unwrap(), vec![2, 1, 0]);
}

fn compiled_fixture() -> CompiledWorkflow {
    let mut process = task("process_task", ExecutorKind::Process, vec![]);
    process.command = Some("echo hello".to_string());
    process.timeout = 30;
    process.retries = 2;
    let mut python = task("python_task", ExecutorKind::Python, vec![0]);
    python.file = Some("tasks/example.py".to_string());
    python.module = Some("tasks.example".to_string());
    python.function = Some("run".to_string());
    python.input = obj(vec![("k", s("v"))]);
    python.timeout = 45;
    python.retries = 1;
    python.signature = Some(obj(vec![("args", Json::Array(vec![]))]));
    let mut cloud = task("cloud_task", ExecutorKind::CloudRun, vec![0, 1]);
    cloud.job = Some("cloud-job".to_string());
    cloud.timeout = 60;
    let mut library = task("library_task", ExecutorKind::Library, vec![2]);
    library.file = Some("target/libtask.so".to_string());
    library.timeout = 15;
    CompiledWorkflow {
        name: "fixture".to_string(),
        tasks: vec![process, python, cloud, library],
        name_index: IndexMap::new(),
        topo: vec![0, 1, 2, 3],
        root: "/tmp/ork-workflow".to_string(),
    }
}

#[test]
fn test_build_workflow_tasks_maps_dependencies_and_executor_types() {
    let tasks = build_workflow_tasks(&compiled_fixture());
    assert_eq!(tasks.len(), 4);
    assert_eq!(tasks[0].executor_type, "process");
    assert_eq!(tasks[1].executor_type, "python");
    assert_eq!(tasks[2].executor_type, "cloudrun");
    assert_eq!(tasks[3].executor_type, "library");

    assert_eq!(tasks[0].depends_on, Vec::<String>::new());
    assert_eq!(tasks[1].depends_on, vec!["process_task".to_string()]);
    assert_eq!(tasks[2].depends_on, vec!["process_task".to_string(), "python_task".to_string()]);
    assert_eq!(tasks[3].depends_on, vec!["cloud_task".to_string()]);
}

#[test]
fn test_build_workflow_tasks_populates_executor_specific_params() {
    let tasks = build_workflow_tasks(&compiled_fixture());

    let process_params = &tasks[0].params;
    assert_eq!(process_params.get("command"), Some(&s("echo hello")));
    assert_eq!(process_params.get("max_retries"), Some(&Json::from_u64(2)));
    assert_eq!(process_params.get("timeout_seconds"), Some(&Json::from_u64(30)));

    let python_params = &tasks[1].params;
    assert_eq!(python_params.get("task_file"), Some(&s("tasks/example.py")));
    assert_eq!(python_params.get("task_module"), Some(&s("tasks.example")));
    assert_eq!(python_params.get("task_function"), Some(&s("run")));
    assert_eq!(python_params.get("python_path"), Some(&s("/tmp/ork-workflow")));
    assert_eq!(python_params.get("task_input"), Some(&obj(vec![("k", s("v"))])));

    let cloud_params = &tasks[2].params;
    assert_eq!(cloud_params.get("job_name"), Some(&s("cloud-job")));

    let library_params = &tasks[3].params;
    assert_eq!(library_params.get("library_path"), Some(&s("target/libtask.so")));
}

#[test]
fn test_build_workflow_tasks_resolves_relative_process_command_from_workflow_root() {
    let mut compiled = compiled_fixture();
    compiled.tasks[0].command = Some("bin/process-task".to_string());
    compiled.root = "/tmp/ork-workflow".to_string();
    let tasks = build_workflow_tasks(&compiled);
    assert_eq!(tasks[0].params.get("command"), Some(&s("/tmp/ork-workflow/bin/process-task")));
}

#[test]
fn test_build_workflow_tasks_maps_process_file_into_command() {
    let mut t = task("from-file", ExecutorKind::Process, vec![]);
    t.file = Some("/tmp/task.py".to_string());
    t.timeout = 5;
    let compiled = CompiledWorkflow {
        name: "wf".to_string(),
        tasks: vec![t],
        name_index: IndexMap::new(),
        topo: vec![0],
        root: "/tmp".to_string(),
    };
    let tasks = build_workflow_tasks(&compiled);
    assert_eq!(tasks.len(), 1);
    assert_eq!(tasks[0].params.get("command"), Some(&s("/tmp/task.py")));
}

#[test]
fn build_workflow_tasks_merges_declared_types_into_signature() {
    let mut compiled = compiled_fixture();
    compiled.tasks[0].output_type = Some(obj(vec![("x", s("int"))]));
    let tasks = build_workflow_tasks(&compiled);
    assert_eq!(tasks[0].signature, Some(obj(vec![("output_type", obj(vec![("x", s("int"))]))])));
    assert_eq!(tasks[1].signature, Some(obj(vec![("args", Json::Array(vec![]))])));
    assert_eq!(tasks[2].signature, None);
    assert_eq!(tasks[0].task_index, 0);
    assert_eq!(tasks[3].task_index, 3);
}

#[test]
fn test_resolve_process_command_keeps_commands_with_whitespace() {
    assert_eq!(resolve_process_command("echo hello world", "/tmp"), "echo hello world");
}

#[test]
fn test_resolve_process_command_keeps_absolute_paths() {
    assert_eq!(resolve_process_command("/usr/bin/python", "/tmp"), "/usr/bin/python");
}

#[test]
fn test_resolve_process_command_keeps_commands_without_slash() {
    assert_eq!(resolve_process_command("python", "/tmp"), "python");
}

#[test]
fn test_resolve_process_command_resolves_relative_path() {
    assert_eq!(resolve_process_command("bin/task", "/tmp/workflow"), "/tmp/workflow/bin/task");
}

#[test]
fn test_compile_python_module_without_file_skips_signature_introspection() {
    let mut tasks = IndexMap::new();
    let mut only = definition(ExecutorKind::Python);
    only.module = Some("app.tasks".to_string());
    tasks.insert("only".to_string(), only);
    let wf = Workflow { name: "python-module-only".to_string(), description: None, schedule: None, types: vec![], tasks };
    let requests = wf.compile_requests("/work");
    assert!(requests[0].file.is_none());
    assert!(requests[0].function.is_none());
    let compiled = wf.compile("/work", &no_artifacts(1)).expect("compile");
    let idx = *compiled.name_index.get("only").expect("task index");
    let task = &compiled.tasks[idx];
    assert!(task.file.is_none());
    assert!(task.signature.is_none());
}

#[test]
fn test_compile_non_python_workflow_builds_topology_and_paths() {
    let mut tasks = IndexMap::new();
    let mut extract = definition(ExecutorKind::Process);
    extract.file = Some("task.sh".to_string());
    extract.output_type = Some(obj(vec![("data", s("str"))]));
    let mut launch = definition(ExecutorKind::CloudRun);
    launch.job = Some("cloud-job".to_string());
    launch.output_type = Some(obj(vec![("status", s("str"))]));
    let mut native = definition(ExecutorKind::Library);
    native.file = Some("task.so".to_string());
    native.output_type = Some(obj(vec![("result", s("int"))]));
    let mut aggregate = definition(ExecutorKind::Process);
    aggregate.command = Some("echo done".to_string());
    aggregate.depends_on = vec!["extract".to_string(), "launch".to_string(), "native".to_string()];
    aggregate.input_type = Some(obj(vec![(
        "upstream",
        obj(vec![
            ("extract", obj(vec![("data", s("str"))])),
            ("launch", obj(vec![("status", s("str"))])),
            ("native", obj(vec![("result", s("int"))])),
        ]),
    )]));
    aggregate.inputs = obj(vec![("upstream", obj(vec![("const", obj(vec![]))]))]);
    tasks.insert("extract".to_string(), extract);
    tasks.insert("launch".to_string(), launch);
    tasks.insert("native".to_string(), native);
    tasks.insert("aggregate".to_string(), aggregate);
    let wf = Workflow { name: "mixed".to_string(), description: None, schedule: None, types: vec![], tasks };

    let requests = wf.compile_requests("/data/wf");
    assert_eq!(requests[0].file.as_deref(), Some("/data/wf/task.sh"));
    assert!(requests[1].file.is_none());
    assert_eq!(requests[2].file.as_deref(), Some("/data/wf/task.so"));
    assert!(requests[3].file.is_none());

    let mut artifacts = no_artifacts(4);
    artifacts[0].canonical_file = Some("/real/data/wf/task.sh".to_string());
    artifacts[2].canonical_file = Some("/real/data/wf/task.so".to_string());
    let compiled = wf.compile("/data/wf", &artifacts).expect("compile");

    assert_eq!(compiled.name, "mixed");
    assert_eq!(compiled.tasks.len(), 4);
    assert_eq!(compiled.topo.len(), 4);
    assert_eq!(compiled.root, "/data/wf");

    let extract_idx = *compiled.name_index.get("extract").expect("extract index");
    let launch_idx = *compiled.name_index.get("launch").expect("launch index");
    let native_idx = *compiled.name_index.get("native").expect("native index");
    let aggregate_idx = *compiled.name_index.get("aggregate").expect("aggregate index");
    assert_eq!(compiled.tasks[extract_idx].file.as_deref(), Some("/real/data/wf/task.sh"));
    assert!(compiled.tasks[launch_idx].file.is_none());
    assert_eq!(compiled.tasks[native_idx].file.as_deref(), Some("/real/data/wf/task.so"));
    assert_eq!(compiled.tasks[aggregate_idx].depends_on, vec![extract_idx, launch_idx, native_idx]);
    assert_eq!(compiled.topo, vec![0, 1, 2, 3]);
}

#[test]
fn test_compile_missing_file_surfaces_task_file_not_found() {
    let mut tasks = IndexMap::new();
    let mut one = definition(ExecutorKind::Process);
    one.file = Some("does-not-exist.sh".to_string());
    tasks.insert("one".to_string(), one);
    let wf = Workflow { name: "missing_file".to_string(), description: None, schedule: None, types: vec![], tasks };
    let err = wf.compile("/data", &no_artifacts(1)).expect_err("compile should fail");
    assert!(matches!(
        err,
        OrkError::InvalidWorkflow(WorkflowValidationError::TaskFileNotFound { task, path })
            if task == "one" && path == "/data/does-not-exist.sh"
    ));
}

#[test]
fn test_compile_accepts_absolute_process_file_path() {
    let mut tasks = IndexMap::new();
    let mut one = definition(ExecutorKind::Process);
    one.file = Some("/abs/abs_task.sh".to_string());
    tasks.insert("one".to_string(), one);
    let wf = Workflow { name: "absolute".to_string(), description: None, schedule: None, types: vec![], tasks };
    assert_eq!(wf.compile_requests("/data")[0].file.as_deref(), Some("/abs/abs_task.sh"));
    let artifacts = vec![TaskArtifacts { canonical_file: Some("/abs/abs_task.sh".to_string()), signature: None }];
    let compiled = wf.compile("/data", &artifacts).expect("compile");
    let idx = *compiled.name_index.get("one").expect("task index");
    assert_eq!(compiled.tasks[idx].file.as_deref(), Some("/abs/abs_task.sh"));
}

#[test]
fn compile_keeps_the_introspected_signature_or_reports_its_failure() {
    let mut tasks = IndexMap::new();
    let mut t = definition(ExecutorKind::Python);
    t.file = Some("task.py".to_string());
    t.function = Some("add".to_string());
    tasks.insert("test_task".to_string(), t);
    let wf = Workflow { name: "test_workflow".to_string(), description: None, schedule: None, types: vec![], tasks };
    let requests = wf.compile_requests("/w");
    assert_eq!(requests[0].function.as_deref(), Some("add"));

    let sig = obj(vec![("inputs", obj(vec![("a", s("int"))]))]);
    let ok = vec![TaskArtifacts { canonical_file: Some("/w/task.py".to_string()), signature: Some(Ok(sig)) }];
    let compiled = wf.compile("/w", &ok).expect("compile");
    assert!(compiled.tasks[0].signature.as_ref().unwrap().get("inputs").is_some());

    let failed = vec![TaskArtifacts {
        canonical_file: Some("/w/task.py".to_string()),
        signature: Some(Err("Task analysis error: untyped".to_string())),
    }];
    let err = wf.compile("/w", &failed).expect_err("compile should fail");
    assert!(matches!(
        err,
        OrkError::InvalidWorkflow(WorkflowValidationError::Custom(m)) if m == "Task analysis error: untyped"
    ));
}

#[test]
fn compile_reports_validation_errors_first() {
    let wf = Workflow { name: " ".to_string(), description: None, schedule: None, types: vec![], tasks: IndexMap::new() };
    let err = wf.compile("/w", &vec![]).expect_err("invalid");
    assert!(matches!(err, OrkError::InvalidWorkflow(WorkflowValidationError::EmptyWorkflowName)));
}

fn sample_workflow() -> Workflow {
    let mut tasks = IndexMap::new();
    let mut a = definition(ExecutorKind::Process);
    a.command = Some("echo ok".to_string());
    a.input = obj(vec![("x", Json::from_u64(1))]);
    a.retries = 1;
    tasks.insert("task_a".to_string(), a);
    Workflow { name: "wf".to_string(), description: None, schedule: None, types: vec![], tasks }
}

#[test]
fn test_task_spec_from_workflow_and_missing_task() {
    let workflow = sample_workflow();
    let mut upstream = IndexMap::new();
    upstream.insert("dep".to_string(), obj(vec![("ok", Json::Bool(true))]));
    let spec = TaskSpec::from_workflow(&workflow, "run-1".to_string(), "task_a", 2, upstream)
        .expect("task should exist");
    assert_eq!(spec.workflow_name, "wf");
    assert_eq!(spec.task_name, "task_a");
    assert_eq!(spec.attempt, 2);
    assert!(matches!(spec.executor, ExecutorKind::Process));
    assert_eq!(spec.input, obj(vec![("x", Json::from_u64(1))]));
    assert!(TaskSpec::from_workflow(&workflow, "run-1".to_string(), "missing", 1, IndexMap::new()).is_none());
}

#[test]
fn test_task_spec_from_compiled_and_missing_index() {
    let mut t = task("task0", ExecutorKind::Process, vec![]);
    t.command = Some("echo".to_string());
    t.input = obj(vec![("value", Json::from_u64(42))]);
    let mut name_index = IndexMap::new();
    name_index.insert("task0".to_string(), 0usize);
    let compiled = CompiledWorkflow {
        name: "wf-compiled".to_string(),
        tasks: vec![t],
        name_index,
        topo: vec![0],
        root: ".".to_string(),
    };
    let spec = TaskSpec::from_compiled(&compiled, "run-2".to_string(), 0, 1, IndexMap::new())
        .expect("compiled task should exist");
    assert_eq!(spec.workflow_name, "wf-compiled");
    assert_eq!(spec.task_name, "task0");
    assert_eq!(spec.input, obj(vec![("value", Json::from_u64(42))]));
    assert!(TaskSpec::from_compiled(&compiled, "run-2".to_string(), 9, 1, IndexMap::new()).is_none());
}

#[test]
fn test_run_new_initializes_pending_state() {
    let workflow = sample_workflow();
    let run = Run::new(&workflow);
    assert_eq!(run.workflow, workflow.name);
    assert_eq!(run.status, RunStatus::Pending);
    assert!(run.started_at.is_none());
    assert!(run.finished_at.is_none());
    assert!(!run.id.is_empty());
    assert_eq!(run.id.len(), 36);
}

#[test]
fn introspection_outcome_reads_script_results() {
    let sig = Json::Object(vec![("params".to_string(), Json::Array(vec![]))]);
    assert_eq!(introspection_outcome(Ok(sig.deep_clone()), true, "main", ""), Ok(sig));
    let reported = Json::Object(vec![("error".to_string(), Json::String("no such function".to_string()))]);
    assert_eq!(
        introspection_outcome(Ok(reported), false, "main", "trace"),
        Err("Task analysis error: no such function".to_string())
    );
    assert_eq!(
        introspection_outcome(Err("EOF while parsing".to_string()), true, "main", ""),
        Err("Failed to parse introspection output: EOF while parsing".to_string())
    );
    assert_eq!(
        introspection_outcome(Err("x".to_string()), false, "run", "  Traceback: boom\n"),
        Err("Introspection failed (run): Traceback: boom".to_string())
    );
}

#[test]
fn topo_sort_follows_kahn_queue_order() {
    let tasks = vec![
        task("a", ExecutorKind::Process, vec![2]),
        task("b", ExecutorKind::Process, vec![]),
        task("c", ExecutorKind::Process, vec![]),
        task("d", ExecutorKind::Process, vec![1]),
        task("e", ExecutorKind::Process, vec![3, 0]),
    ];
    assert_eq!(topo_sort(&tasks).unwrap(), vec![1, 2, 3, 0, 4]);
}

#[test]
fn signatures_mergeable_refuses_declared_types_on_a_non_object_signature() {
    let mut wf = compiled_fixture();
    assert!(signatures_mergeable(&wf));
    wf.tasks[1].input_type = Some(obj(vec![("type", s("object"))]));
    assert!(signatures_mergeable(&wf));
    wf.tasks[1].signature = Some(Json::Array(vec![]));
    assert!(!signatures_mergeable(&wf));
    wf.tasks[1].input_type = None;
    assert!(signatures_mergeable(&wf));
    wf.tasks[0].output_type = Some(s("string"));
    wf.tasks[0].signature = Some(Json::Null);
    assert!(signatures_mergeable(&wf));
}

#[test]
fn types_in_order_wants_increasing_distinct_names() {
    let mut wf = Workflow { name: "t".to_string(), description: None, schedule: None, types: vec![], tasks: IndexMap::new() };
    assert!(wf.types_in_order());
    wf.types = vec![("Alpha".to_string(), Json::Null), ("Beta".to_string(), Json::Null), ("alpha".to_string(), Json::Null)];
    assert!(wf.types_in_order());
    wf.types = vec![("B".to_string(), Json::Null), ("A".to_string(), Json::Null)];
    assert!(!wf.types_in_order());
    wf.types = vec![("A".to_string(), Json::Null), ("A".to_string(), Json::Null)];
    assert!(!wf.types_in_order());
    wf.types = vec![("ab".to_string(), Json::Null), ("abc".to_string(), Json::Null)];
    assert!(wf.types_in_order());
    wf.types = vec![("abc".to_string(), Json::Null), ("ab".to_string(), Json::Null)];
    assert!(!wf.types_in_order());
}
