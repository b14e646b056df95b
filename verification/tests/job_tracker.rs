use ork::job_tracker::{
    bigquery_job_ref, cloudrun_execution_name, cloudrun_status, custom_http_request, custom_http_status,
    dataproc_job_ref, dataproc_status, map_bigquery_status, BigQueryJobState, BigQueryJobStatus, ConditionState,
    DataprocJobStatus, DataprocState, ErrorProto, HttpMethod, JobStatus, RunCondition,
};
use ork::json::Json;

fn obj(entries: Vec<(&str, Json)>) -> Json {
    Json::Object(entries.into_iter().map(|(k, v)| (k.to_string(), v)).collect())
}

fn s(x: &str) -> Json {
    Json::String(x.to_string())
}

#[test]
fn test_map_bigquery_status_transitions_and_default_error_message() {
    let running = BigQueryJobStatus { state: BigQueryJobState::Running, error_result: None };
    assert_eq!(map_bigquery_status(&running), JobStatus::Running);

    let completed = BigQueryJobStatus { state: BigQueryJobState::Done, error_result: None };
    assert_eq!(map_bigquery_status(&completed), JobStatus::Completed);

    let failed_with_missing_message =
        BigQueryJobStatus { state: BigQueryJobState::Done, error_result: Some(ErrorProto { message: None }) };
    assert!(matches!(
        map_bigquery_status(&failed_with_missing_message),
        JobStatus::Failed(msg) if msg.contains("Unknown error")
    ));
}

#[test]
fn bigquery_and_dataproc_job_data_require_fields_in_order() {
    let err = bigquery_job_ref(&obj(vec![])).unwrap_err();
    assert!(err.contains("Missing project"));
    let err = bigquery_job_ref(&obj(vec![("project", s("p"))])).unwrap_err();
    assert!(err.contains("Missing location"));
    let err = bigquery_job_ref(&obj(vec![("location", s("us")), ("project", s("p"))])).unwrap_err();
    assert_eq!(err, "Missing job_id in job_data");
    let ok = bigquery_job_ref(&obj(vec![("job_id", s("x")), ("location", s("us")), ("project", s("p"))])).unwrap();
    assert_eq!(ok, ("p".to_string(), "us".to_string(), "x".to_string()));

    let err = dataproc_job_ref(&obj(vec![("project", s("p")), ("region", s("r"))])).unwrap_err();
    assert_eq!(err, "Missing cluster_name in job_data");
    let ok = dataproc_job_ref(&obj(vec![
        ("cluster_name", s("c")),
        ("job_id", s("j")),
        ("project", s("p")),
        ("region", s("r")),
    ]))
    .unwrap();
    assert_eq!(ok, ("p".to_string(), "r".to_string(), "j".to_string()));
}

#[test]
fn cloudrun_execution_name_and_conditions() {
    let data = obj(vec![
        ("execution_id", s("e1")),
        ("job_name", s("job")),
        ("project", s("p")),
        ("region", s("us-central1")),
    ]);
    assert_eq!(
        cloudrun_execution_name(&data).unwrap(),
        "projects/p/locations/us-central1/jobs/job/executions/e1"
    );
    assert_eq!(cloudrun_execution_name(&obj(vec![("project", s("p"))])).unwrap_err(), "Missing region in job_data");

    let cond = |kind: &str, state: ConditionState, message: &str| RunCondition {
        kind: kind.to_string(),
        state,
        message: message.to_string(),
    };
    assert_eq!(cloudrun_status(&vec![]), JobStatus::Running);
    assert_eq!(
        cloudrun_status(&vec![cond("Other", ConditionState::Failed, "x"), cond("Ready", ConditionState::Succeeded, "")]),
        JobStatus::Completed
    );
    assert_eq!(
        cloudrun_status(&vec![cond("Completed", ConditionState::Failed, "")]),
        JobStatus::Failed("Cloud Run execution failed: Execution failed".to_string())
    );
    assert_eq!(cloudrun_status(&vec![cond("Ready", ConditionState::Pending, "")]), JobStatus::Running);
}

#[test]
fn dataproc_states() {
    let st = |state: DataprocState, details: &str| Some(DataprocJobStatus { state, details: details.to_string() });
    assert_eq!(dataproc_status(&None), JobStatus::Running);
    assert_eq!(dataproc_status(&st(DataprocState::Done, "")), JobStatus::Completed);
    assert_eq!(
        dataproc_status(&st(DataprocState::Done, "Finished with ERRORS")),
        JobStatus::Failed("Dataproc job completed with errors: Finished with ERRORS".to_string())
    );
    assert_eq!(dataproc_status(&st(DataprocState::Done, "all good")), JobStatus::Completed);
    assert_eq!(dataproc_status(&st(DataprocState::Error, "")), JobStatus::Failed("Dataproc job error: Job error".to_string()));
    assert_eq!(dataproc_status(&st(DataprocState::Cancelled, "")), JobStatus::Failed("Job was cancelled".to_string()));
    assert_eq!(dataproc_status(&st(DataprocState::SetupDone, "")), JobStatus::Running);
}

#[test]
fn custom_http_request_reads_url_method_and_headers() {
    let err = custom_http_request(&obj(vec![])).unwrap_err();
    assert_eq!(err, "Missing url in job_data");
    let p = custom_http_request(&obj(vec![
        ("headers", obj(vec![("A", s("1")), ("B", Json::from_u64(2))])),
        ("url", s("http://x")),
    ]))
    .unwrap();
    assert_eq!(p.url, "http://x");
    assert_eq!(p.method, HttpMethod::Get);
    assert_eq!(p.headers, vec![("A".to_string(), "1".to_string())]);
    let err = custom_http_request(&obj(vec![("method", s("PATCH")), ("url", s("http://x"))])).unwrap_err();
    assert_eq!(err, "Unsupported HTTP method: PATCH. Use GET, POST, PUT, or DELETE.");
    let p = custom_http_request(&obj(vec![("method", s("DELETE")), ("url", s("http://x"))])).unwrap();
    assert_eq!(p.method, HttpMethod::Delete);
}

#[test]
fn custom_http_responses_map_to_statuses() {
    let data = obj(vec![("failure_value", s("failed")), ("success_value", s("done")), ("url", s("u"))]);
    let body = |v: &str| obj(vec![("status", s(v))]);
    assert_eq!(custom_http_status(&data, true, "200 OK", &body("done"), "").unwrap(), JobStatus::Completed);
    assert_eq!(
        custom_http_status(&data, true, "200 OK", &body("failed"), "").unwrap(),
        JobStatus::Failed("Job failed with status: failed".to_string())
    );
    assert_eq!(custom_http_status(&data, true, "200 OK", &body("busy"), "").unwrap(), JobStatus::Running);
    assert_eq!(
        custom_http_status(&data, false, "500 Internal Server Error", &obj(vec![]), "{}").unwrap(),
        JobStatus::Failed("HTTP request failed with status 500 Internal Server Error: Unknown error".to_string())
    );
    let err = custom_http_status(&data, true, "200 OK", &obj(vec![]), "{}").unwrap_err();
    assert_eq!(err, "Response missing expected field 'status'. Response: {}");
    let defaults = obj(vec![("url", s("u"))]);
    assert_eq!(custom_http_status(&defaults, true, "200 OK", &body("success"), "").unwrap(), JobStatus::Completed);
}
