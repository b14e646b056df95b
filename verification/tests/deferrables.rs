use ork::json::Json;
use ork::sdk::{default_success_codes, BigQueryJob, CloudRunJob, CustomHttp, DataprocJob, TaskResult};

#[test]
fn test_bigquery_job_service_type() {
    let job = BigQueryJob {
        project: "test-project".to_string(),
        job_id: "job123".to_string(),
        location: "US".to_string(),
    };
    assert_eq!(job.service_type(), "bigquery");
    assert_eq!(job.job_id(), "test-project/US/job123");
}

#[test]
fn test_cloudrun_job_service_type() {
    let job = CloudRunJob {
        project: "test-project".to_string(),
        region: "us-central1".to_string(),
        job_name: "my-job".to_string(),
        execution_id: "exec123".to_string(),
    };
    assert_eq!(job.service_type(), "cloudrun");
    assert_eq!(job.job_id(), "test-project/us-central1/my-job/exec123");
}

#[test]
fn test_dataproc_job_service_type() {
    let job = DataprocJob {
        project: "test-project".to_string(),
        region: "us-central1".to_string(),
        cluster_name: "my-cluster".to_string(),
        job_id: "job123".to_string(),
    };
    assert_eq!(job.service_type(), "dataproc");
    assert_eq!(job.job_id(), "test-project/us-central1/my-cluster/job123");
}

#[test]
fn test_custom_http_service_type() {
    let job = CustomHttp {
        url: "https://api.example.com/status".to_string(),
        method: "GET".to_string(),
        headers: Vec::new(),
        success_status_codes: vec![200],
        completion_field: "status".to_string(),
        completion_value: "done".to_string(),
        failure_value: Some("failed".to_string()),
    };
    assert_eq!(job.service_type(), "custom_http");
    assert_eq!(job.job_id(), "https://api.example.com/status");
}

#[test]
fn deferrables_as_json_and_results() {
    let job = BigQueryJob { project: "p".to_string(), job_id: "j".to_string(), location: "US".to_string() };
    assert_eq!(
        job.to_json(),
        Json::Object(vec![
            ("project".to_string(), Json::String("p".to_string())),
            ("job_id".to_string(), Json::String("j".to_string())),
            ("location".to_string(), Json::String("US".to_string())),
        ])
    );
    assert_eq!(default_success_codes(), vec![200]);
    let r: TaskResult<String> = TaskResult::data("hello".to_string());
    assert!(matches!(r, TaskResult::Data(ref d) if d == "hello"));
    let r: TaskResult<u32> = TaskResult::mixed(1, vec![job.to_json()]);
    assert!(matches!(r, TaskResult::Mixed { data: 1, ref deferred } if deferred.len() == 1));
}
