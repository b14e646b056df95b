use ork::runner::default_run_id;
use ork::workflow_service::{
    compute_content_hash, existing_workflow_outcome, is_not_found_error, schedule_to_persist,
    ApplyWorkflowYamlOutcome, ExistingWorkflowBehavior, WorkflowServiceError,
};

#[test]
fn not_found_errors_are_recognized_in_any_case() {
    assert!(is_not_found_error("Row Not Found"));
    assert!(is_not_found_error("query returned NO ROWS"));
    assert!(is_not_found_error("workflow not found: x"));
    assert!(!is_not_found_error("connection refused"));
}

#[test]
fn existing_workflows_are_replaced_or_rejected() {
    assert_eq!(
        existing_workflow_outcome(false, ExistingWorkflowBehavior::Error, "wf"),
        Ok(ApplyWorkflowYamlOutcome::Created)
    );
    assert_eq!(
        existing_workflow_outcome(true, ExistingWorkflowBehavior::Replace, "wf"),
        Ok(ApplyWorkflowYamlOutcome::Replaced)
    );
    assert_eq!(
        existing_workflow_outcome(true, ExistingWorkflowBehavior::Error, "wf"),
        Err(WorkflowServiceError::WorkflowAlreadyExists { name: "wf".to_string() })
    );
    assert_eq!(schedule_to_persist(&Some("* * * * * *".to_string()), true), Some("* * * * * *".to_string()));
    assert_eq!(schedule_to_persist(&Some("x".to_string()), false), None);
}

#[test]
fn content_hash_is_hex_sha256() {
    assert_eq!(
        compute_content_hash(""),
        "e3b0c44298fc1c149afbf4c8996fb92427ae41e4649b934ca495991b7852b855"
    );
    assert_eq!(
        compute_content_hash("abc"),
        "ba7816bf8f01cfea414140de5dae2223b00361a396177a9cb410ff61f20015ad"
    );
}

#[test]
fn default_run_id_is_name_and_random_v4_uuid() {
    let id = default_run_id("nightly");
    assert!(id.starts_with("nightly-"));
    let text = &id["nightly-".len()..];
    assert_eq!(text.len(), 36);
    let u = uuid::Uuid::parse_str(text).unwrap();
    assert_eq!(u.to_string(), text);
    assert_eq!(u.get_version_num(), 4);
    assert_ne!(default_run_id("nightly"), id);
}
