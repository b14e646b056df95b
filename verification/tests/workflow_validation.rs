use indexmap::IndexMap;
use ork::error::WorkflowValidationError;
use ork::json::Json;
use ork::workflow::{default_retries, default_timeout_secs, ExecutorKind, TaskDefinition, Workflow};

fn obj(entries: Vec<(&str, Json)>) -> Json {
    Json::Object(entries.into_iter().map(|(k, v)| (k.to_string(), v)).collect())
}

fn s(x: &str) -> Json {
    Json::String(x.to_string())
}

fn arr(items: Vec<Json>) -> Json {
    Json::Array(items)
}

fn process_task() -> TaskDefinition {
    TaskDefinition {
        executor: ExecutorKind::Process,
        file: None,
        command: Some("echo ok".to_string()),
        job: None,
        module: None,
        function: None,
        input: Json::Null,
        inputs: Json::Null,
        depends_on: Vec::new(),
        timeout: 300,
        retries: 0,
        input_type: None,
        output_type: None,
    }
}

fn bare(executor: ExecutorKind) -> TaskDefinition {
    TaskDefinition { executor, command: None, ..process_task() }
}

fn workflow(tasks: IndexMap<String, TaskDefinition>) -> Workflow {
    Workflow { name: "wf".to_string(), description: None, schedule: None, types: Vec::new(), tasks }
}

#[test]
fn test_validate_rejects_empty_workflow_name_and_no_tasks() {
    let empty_name = Workflow {
        name: "  ".to_string(),
        description: None,
        schedule: None,
        types: Vec::new(),
        tasks: IndexMap::new(),
    };
    assert_eq!(empty_name.validate(), Err(WorkflowValidationError::EmptyWorkflowName));

    let no_tasks = workflow(IndexMap::new());
    assert_eq!(no_tasks.validate(), Err(WorkflowValidationError::NoTasks));
}

#[test]
fn test_validate_rejects_dependency_errors() {
    let mut tasks = IndexMap::new();
    let mut a = process_task();
    a.depends_on = vec!["missing".to_string()];
    tasks.insert("a".to_string(), a);
    assert!(matches!(
        workflow(tasks).validate(),
        Err(WorkflowValidationError::UnknownDependency { .. })
    ));

    let mut tasks = IndexMap::new();
    let mut self_dep = process_task();
    self_dep.depends_on = vec!["a".to_string()];
    tasks.insert("a".to_string(), self_dep);
    assert!(matches!(
        workflow(tasks).validate(),
        Err(WorkflowValidationError::SelfDependency { task }) if task == "a"
    ));
}

#[test]
fn test_validate_rejects_executor_specific_missing_fields() {
    let mut tasks = IndexMap::new();
    tasks.insert("python".to_string(), bare(ExecutorKind::Python));
    assert!(matches!(workflow(tasks).validate(), Err(WorkflowValidationError::MissingTaskFile { .. })));

    let mut tasks = IndexMap::new();
    tasks.insert("process".to_string(), bare(ExecutorKind::Process));
    assert!(matches!(workflow(tasks).validate(), Err(WorkflowValidationError::MissingTaskCommand { .. })));

    let mut tasks = IndexMap::new();
    tasks.insert("cloudrun".to_string(), bare(ExecutorKind::CloudRun));
    assert!(matches!(workflow(tasks).validate(), Err(WorkflowValidationError::MissingTaskJob { .. })));

    let mut tasks = IndexMap::new();
    tasks.insert("lib".to_string(), bare(ExecutorKind::Library));
    assert!(matches!(workflow(tasks).validate(), Err(WorkflowValidationError::MissingTaskFile { .. })));
}

#[test]
fn test_validate_detects_cycle() {
    let mut tasks = IndexMap::new();
    let mut a = process_task();
    let mut b = process_task();
    a.depends_on = vec!["b".to_string()];
    b.depends_on = vec!["a".to_string()];
    tasks.insert("a".to_string(), a);
    tasks.insert("b".to_string(), b);
    assert!(matches!(workflow(tasks).validate(), Err(WorkflowValidationError::Cycle { .. })));
}

#[test]
fn test_validate_types_requires_output_type_when_depended_upon() {
    let mut tasks = IndexMap::new();
    let a = process_task();
    let mut b = process_task();
    b.depends_on = vec!["a".to_string()];
    b.input_type = Some(obj(vec![("x", s("int"))]));
    tasks.insert("a".to_string(), a);
    tasks.insert("b".to_string(), b);
    assert!(matches!(
        workflow(tasks).validate(),
        Err(WorkflowValidationError::MissingOutputType { task, depended_by })
            if task == "a" && depended_by == "b"
    ));
}

#[test]
fn test_validate_types_requires_input_type_when_has_depends_on() {
    let mut tasks = IndexMap::new();
    let mut a = process_task();
    a.output_type = Some(obj(vec![("x", s("int"))]));
    let mut b = process_task();
    b.depends_on = vec!["a".to_string()];
    tasks.insert("a".to_string(), a);
    tasks.insert("b".to_string(), b);
    assert!(matches!(
        workflow(tasks).validate(),
        Err(WorkflowValidationError::MissingInputType { task }) if task == "b"
    ));
}

#[test]
fn test_validate_types_accepts_valid_typed_workflow() {
    let mut tasks = IndexMap::new();
    let mut extract = process_task();
    extract.output_type = Some(obj(vec![("count", s("int")), ("users", arr(vec![s("str")]))]));
    let mut transform = process_task();
    transform.depends_on = vec!["extract".to_string()];
    transform.input_type = Some(obj(vec![(
        "upstream",
        obj(vec![("extract", obj(vec![("count", s("int")), ("users", arr(vec![s("str")]))]))]),
    )]));
    transform.inputs = obj(vec![("upstream", obj(vec![("ref", s("tasks.extract.output"))]))]);
    tasks.insert("extract".to_string(), extract);
    tasks.insert("transform".to_string(), transform);
    assert!(workflow(tasks).validate().is_ok());
}

#[test]
fn test_validate_types_not_required_for_independent_tasks() {
    let mut tasks = IndexMap::new();
    tasks.insert("a".to_string(), process_task());
    tasks.insert("b".to_string(), process_task());
    assert!(workflow(tasks).validate().is_ok());
}

#[test]
fn test_validate_types_leaf_task_output_type_optional() {
    let mut tasks = IndexMap::new();
    let mut a = process_task();
    a.output_type = Some(obj(vec![("x", s("int"))]));
    let mut b = process_task();
    b.depends_on = vec!["a".to_string()];
    b.input_type = Some(obj(vec![("upstream", obj(vec![("a", obj(vec![("x", s("int"))]))]))]));
    b.inputs = obj(vec![("upstream", obj(vec![("ref", s("tasks.a.output"))]))]);
    tasks.insert("a".to_string(), a);
    tasks.insert("b".to_string(), b);
    assert!(workflow(tasks).validate().is_ok());
}

#[test]
fn test_validate_type_schema_rejects_unknown_primitive() {
    let mut tasks = IndexMap::new();
    let mut a = process_task();
    a.output_type = Some(obj(vec![("data", s("wat"))]));
    tasks.insert("a".to_string(), a);
    let mut b = process_task();
    b.depends_on = vec!["a".to_string()];
    b.input_type = Some(obj(vec![("upstream", obj(vec![("a", obj(vec![("data", s("str"))]))]))]));
    tasks.insert("b".to_string(), b);
    let err = workflow(tasks).validate().unwrap_err();
    assert!(matches!(err, WorkflowValidationError::InvalidTypeSchema { .. }));
    assert!(err.message().contains("wat"));
}

#[test]
fn test_validate_type_schema_accepts_all_primitives() {
    for prim in &["str", "int", "float", "bool", "date", "datetime_notz", "datetime_tz", "datetime_utc"] {
        let mut tasks = IndexMap::new();
        let mut a = process_task();
        a.output_type = Some(obj(vec![("field", s(prim))]));
        tasks.insert("a".to_string(), a);
        assert!(workflow(tasks).validate().is_ok(), "primitive '{}' should be valid", prim);
    }
}

#[test]
fn test_validate_type_schema_accepts_array_types() {
    let mut tasks = IndexMap::new();
    let mut a = process_task();
    a.output_type = Some(obj(vec![("scores", arr(vec![s("float")])), ("users", arr(vec![s("str")]))]));
    tasks.insert("a".to_string(), a);
    assert!(workflow(tasks).validate().is_ok());
}

#[test]
fn test_validate_type_schema_rejects_empty_array() {
    let mut tasks = IndexMap::new();
    let mut a = process_task();
    a.output_type = Some(obj(vec![("items", arr(vec![]))]));
    tasks.insert("a".to_string(), a);
    let err = workflow(tasks).validate().unwrap_err();
    assert!(matches!(err, WorkflowValidationError::InvalidTypeSchema { .. }));
    assert!(err.message().contains("exactly one element"));
}

#[test]
fn test_validate_type_schema_rejects_multi_element_array() {
    let mut tasks = IndexMap::new();
    let mut a = process_task();
    a.output_type = Some(obj(vec![("items", arr(vec![s("str"), s("int")]))]));
    tasks.insert("a".to_string(), a);
    let err = workflow(tasks).validate().unwrap_err();
    assert!(matches!(err, WorkflowValidationError::InvalidTypeSchema { .. }));
}

#[test]
fn test_validate_type_schema_accepts_nested_objects() {
    let mut tasks = IndexMap::new();
    let mut a = process_task();
    a.output_type = Some(obj(vec![(
        "user",
        obj(vec![("age", s("int")), ("name", s("str")), ("tags", arr(vec![s("str")]))]),
    )]));
    tasks.insert("a".to_string(), a);
    assert!(workflow(tasks).validate().is_ok());
}

#[test]
fn test_validate_type_schema_rejects_numeric_values() {
    let mut tasks = IndexMap::new();
    let mut a = process_task();
    a.output_type = Some(obj(vec![("count", Json::from_u64(42))]));
    tasks.insert("a".to_string(), a);
    let err = workflow(tasks).validate().unwrap_err();
    assert!(matches!(err, WorkflowValidationError::InvalidTypeSchema { .. }));
}

#[test]
fn test_validate_type_schema_accepts_date_and_datetimes() {
    let mut tasks = IndexMap::new();
    let mut a = process_task();
    a.output_type = Some(obj(vec![
        ("created", s("date")),
        ("timestamps", arr(vec![s("datetime_utc")])),
        ("updated_local", s("datetime_notz")),
        ("updated_tz", s("datetime_tz")),
        ("updated_utc", s("datetime_utc")),
    ]));
    tasks.insert("a".to_string(), a);
    assert!(workflow(tasks).validate().is_ok());
}

#[test]
fn validation_messages_name_the_task() {
    let mut tasks = IndexMap::new();
    let mut a = process_task();
    a.depends_on = vec!["ghost".to_string()];
    tasks.insert("a".to_string(), a);
    let err = workflow(tasks).validate().unwrap_err();
    assert_eq!(err.message(), "task a depends on unknown task ghost");
    assert_eq!(WorkflowValidationError::NoTasks.message(), "workflow must contain at least one task");
    assert_eq!(
        WorkflowValidationError::Cycle { task: "x".to_string() }.message(),
        "workflow contains a cycle involving task x"
    );
}

#[test]
fn cycle_reports_first_task_from_which_a_cycle_is_reached() {
    let mut tasks = IndexMap::new();
    tasks.insert("root".to_string(), process_task());
    let mut a = process_task();
    a.depends_on = vec!["root".to_string(), "b".to_string()];
    let mut b = process_task();
    b.depends_on = vec!["a".to_string()];
    tasks.insert("a".to_string(), a);
    tasks.insert("b".to_string(), b);
    assert_eq!(
        workflow(tasks).validate(),
        Err(WorkflowValidationError::Cycle { task: "a".to_string() })
    );
}

#[test]
fn empty_description_and_bad_inputs_are_custom_errors() {
    let mut tasks = IndexMap::new();
    tasks.insert("a".to_string(), process_task());
    let wf = Workflow { description: Some(" ".to_string()), ..workflow(tasks) };
    assert_eq!(
        wf.validate(),
        Err(WorkflowValidationError::Custom("workflow description cannot be empty".to_string()))
    );

    let mut tasks = IndexMap::new();
    let mut a = process_task();
    a.inputs = s("nope");
    tasks.insert("a".to_string(), a);
    assert_eq!(
        workflow(tasks).validate(),
        Err(WorkflowValidationError::Custom("task 'a' field 'inputs' must be an object".to_string()))
    );
}

#[test]
fn task_defaults() {
    assert_eq!(default_timeout_secs(), 300);
    assert_eq!(default_retries(), 0);
}
