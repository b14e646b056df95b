//! Tracking outside jobs: what a poll request needs from a deferred job's data, and how
//! each service's answer is read as a job status.
use vstd::prelude::*;

use crate::json::{entries_view, get_spec, Json, JsonV};
use crate::task_execution::str_param;
use crate::text::{concat2, concat3, lowercase, str_eq, str_len, substring, to_lowercase};

verus! {

/// The status of a tracked outside job.
#[derive(Debug, Clone, PartialEq, Eq)]
pub enum JobStatus {
    Running,
    Completed,
    Failed(String),
}

/// The view of a job status: the failure message, if it failed.
pub enum JobStatusV {
    Running,
    Completed,
    Failed(Seq<char>),
}

pub open spec fn job_status_view(s: JobStatus) -> JobStatusV {
    match s {
        JobStatus::Running => JobStatusV::Running,
        JobStatus::Completed => JobStatusV::Completed,
        JobStatus::Failed(m) => JobStatusV::Failed(m@),
    }
}

pub open spec fn text_or(o: Option<Seq<char>>, default: Seq<char>) -> Seq<char> {
    match o {
        Some(s) => s,
        None => default,
    }
}

/// A string field the job data must have.
pub open spec fn required_field(job_data: JsonV, key: Seq<char>) -> Result<Seq<char>, Seq<char>> {
    match str_param(Some(job_data), key) {
        Some(s) => Ok(s),
        None => Err("Missing "@ + key + " in job_data"@),
    }
}

pub open spec fn text_result(r: Result<String, String>) -> Result<Seq<char>, Seq<char>> {
    match r {
        Ok(s) => Ok(s@),
        Err(m) => Err(m@),
    }
}

fn str_field(v: &Json, key: &str) -> (r: Option<String>)
    ensures
        match r {
            Some(s) => str_param(Some(v@), key@) == Some(s@),
            None => str_param(Some(v@), key@) is None,
        },
{
    match v.get(key) {
        Some(x) => match x.as_str() {
            Some(s) => Some(s.clone()),
            None => None,
        },
        None => None,
    }
}

/// A string field of the job data; its absence is an error naming the field.
pub fn required_str(job_data: &Json, key: &str) -> (r: Result<String, String>)
    ensures
        text_result(r) == required_field(job_data@, key@),
{
    match str_field(job_data, key) {
        Some(s) => Ok(s),
        None => {
            proof {
                reveal_strlit("Missing ");
                reveal_strlit(" in job_data");
            }
            Err(concat3("Missing ", key, " in job_data"))
        },
    }
}

// ---------------------------------------------------------------------------------------
// Custom HTTP endpoints
// ---------------------------------------------------------------------------------------
#[derive(Debug, Clone, Copy, PartialEq, Eq)]
pub enum HttpMethod {
    Get,
    Post,
    Put,
    Delete,
}

/// A poll request to a custom HTTP endpoint.
#[derive(Debug)]
pub struct HttpPoll {
    pub url: String,
    pub method: HttpMethod,
    pub headers: Vec<(String, String)>,
}

pub open spec fn method_named(m: Seq<char>) -> Option<HttpMethod> {
    if m == "GET"@ {
        Some(HttpMethod::Get)
    } else if m == "POST"@ {
        Some(HttpMethod::Post)
    } else if m == "PUT"@ {
        Some(HttpMethod::Put)
    } else if m == "DELETE"@ {
        Some(HttpMethod::Delete)
    } else {
        None
    }
}

/// The headers of the job data: its `headers` entries whose values are strings.
pub open spec fn string_headers(e: Seq<(Seq<char>, JsonV)>) -> Seq<(Seq<char>, Seq<char>)>
    decreases e.len(),
{
    if e.len() == 0 {
        Seq::empty()
    } else {
        string_headers(e.drop_last()) + match e.last().1 {
            JsonV::Str(s) => seq![(e.last().0, s)],
            _ => Seq::empty(),
        }
    }
}

pub open spec fn headers_of(job_data: JsonV) -> Seq<(Seq<char>, Seq<char>)> {
    match get_spec(job_data, "headers"@) {
        Some(JsonV::Object(e)) => string_headers(e),
        _ => Seq::empty(),
    }
}

pub open spec fn pairs_view(h: Seq<(String, String)>) -> Seq<(Seq<char>, Seq<char>)> {
    Seq::new(h.len(), |i: int| (h[i].0@, h[i].1@))
}

/// The request a custom HTTP job is polled with: its `url` (required), `method` (`GET`
/// when absent; only GET, POST, PUT and DELETE are supported) and string `headers`.
pub open spec fn http_poll_of(job_data: JsonV) -> Result<(Seq<char>, HttpMethod, Seq<(Seq<char>, Seq<char>)>), Seq<char>> {
    match str_param(Some(job_data), "url"@) {
        None => Err("Missing url in job_data"@),
        Some(url) => {
            let m = text_or(str_param(Some(job_data), "method"@), "GET"@);
            match method_named(m) {
                Some(method) => Ok((url, method, headers_of(job_data))),
                None => Err("Unsupported HTTP method: "@ + m + ". Use GET, POST, PUT, or DELETE."@),
            }
        },
    }
}

pub open spec fn http_poll_view(r: Result<HttpPoll, String>) -> Result<(Seq<char>, HttpMethod, Seq<(Seq<char>, Seq<char>)>), Seq<char>> {
    match r {
        Ok(p) => Ok((p.url@, p.method, pairs_view(p.headers@))),
        Err(m) => Err(m@),
    }
}

fn collect_headers(job_data: &Json) -> (r: Vec<(String, String)>)
    ensures
        pairs_view(r@) == headers_of(job_data@),
{
    let mut r: Vec<(String, String)> = Vec::new();
    proof {
        reveal_strlit("headers");
    }
    let h = match job_data.get("headers") {
        Some(h) => h,
        None => {
            assert(pairs_view(r@) =~= Seq::empty());
            return r;
        },
    };
    let e = match h.as_object() {
        Some(e) => e,
        None => {
            assert(pairs_view(r@) =~= Seq::empty());
            return r;
        },
    };
    let ghost ev = entries_view(e@);
    let mut i: usize = 0;
    while i < e.len()
        invariant
            ev == entries_view(e@),
            i <= e.len(),
            pairs_view(r@) == string_headers(ev.take(i as int)),
        decreases e.len() - i,
    {
        let ghost before = pairs_view(r@);
        proof {
            assert(ev.take(i + 1).drop_last() =~= ev.take(i as int));
        }
        match e[i].1.as_str() {
            Some(s) => {
                r.push((e[i].0.clone(), s.clone()));
                assert(pairs_view(r@) =~= before.push((e@[i as int].0@, s@)));
            },
            None => {},
        }
        i = i + 1;
    }
    assert(ev.take(e.len() as int) =~= ev);
    r
}

/// The request a custom HTTP job is polled with.
pub fn custom_http_request(job_data: &Json) -> (r: Result<HttpPoll, String>)
    ensures
        http_poll_view(r) == http_poll_of(job_data@),
{
    proof {
        reveal_strlit("url");
        reveal_strlit("method");
        reveal_strlit("GET");
        reveal_strlit("Missing url in job_data");
        reveal_strlit("Unsupported HTTP method: ");
        reveal_strlit(". Use GET, POST, PUT, or DELETE.");
    }
    let url = match str_field(job_data, "url") {
        Some(u) => u,
        None => {
            return Err("Missing url in job_data".to_owned());
        },
    };
    let m = match str_field(job_data, "method") {
        Some(m) => m,
        None => "GET".to_owned(),
    };
    let headers = collect_headers(job_data);
    let method = if str_eq(m.as_str(), "GET") {
        HttpMethod::Get
    } else if str_eq(m.as_str(), "POST") {
        HttpMethod::Post
    } else if str_eq(m.as_str(), "PUT") {
        HttpMethod::Put
    } else if str_eq(m.as_str(), "DELETE") {
        HttpMethod::Delete
    } else {
        return Err(concat3("Unsupported HTTP method: ", m.as_str(), ". Use GET, POST, PUT, or DELETE."));
    };
    Ok(HttpPoll { url, method, headers })
}

/// What a custom HTTP endpoint's answer says of the job. A response that is not a success
/// fails the job; otherwise the response field `status_field` (default `status`) is read:
/// equal to `success_value` (default `success`) the job completed, equal to the optional
/// `failure_value` it failed, and otherwise it is still running. `status_text` and
/// `body_text` are how the status and the body are written in messages.
pub open spec fn custom_http_outcome(
    job_data: JsonV,
    success: bool,
    status_text: Seq<char>,
    body: JsonV,
    body_text: Seq<char>,
) -> Result<JobStatusV, Seq<char>> {
    if !success {
        Ok(
            JobStatusV::Failed(
                "HTTP request failed with status "@ + status_text + ": "@ + text_or(
                    str_param(Some(body), "error"@),
                    "Unknown error"@,
                ),
            ),
        )
    } else {
        let field = text_or(str_param(Some(job_data), "status_field"@), "status"@);
        match str_param(Some(body), field) {
            None => Err("Response missing expected field '"@ + field + "'. Response: "@ + body_text),
            Some(value) => {
                let success_value = text_or(str_param(Some(job_data), "success_value"@), "success"@);
                if value == success_value {
                    Ok(JobStatusV::Completed)
                } else {
                    match str_param(Some(job_data), "failure_value"@) {
                        Some(f) => if value == f {
                            Ok(JobStatusV::Failed("Job failed with status: "@ + value))
                        } else {
                            Ok(JobStatusV::Running)
                        },
                        None => Ok(JobStatusV::Running),
                    }
                }
            },
        }
    }
}

pub open spec fn status_result_view(r: Result<JobStatus, String>) -> Result<JobStatusV, Seq<char>> {
    match r {
        Ok(s) => Ok(job_status_view(s)),
        Err(m) => Err(m@),
    }
}

pub fn custom_http_status(
    job_data: &Json,
    success: bool,
    status_text: &str,
    body: &Json,
    body_text: &str,
) -> (r: Result<JobStatus, String>)
    ensures
        status_result_view(r) == custom_http_outcome(job_data@, success, status_text@, body@, body_text@),
{
    proof {
        reveal_strlit("HTTP request failed with status ");
        reveal_strlit(": ");
        reveal_strlit("error");
        reveal_strlit("Unknown error");
        reveal_strlit("status_field");
        reveal_strlit("status");
        reveal_strlit("Response missing expected field '");
        reveal_strlit("'. Response: ");
        reveal_strlit("success_value");
        reveal_strlit("success");
        reveal_strlit("failure_value");
        reveal_strlit("Job failed with status: ");
    }
    if !success {
        let err = match str_field(body, "error") {
            Some(e) => e,
            None => "Unknown error".to_owned(),
        };
        let mut m = concat3("HTTP request failed with status ", status_text, ": ");
        m.append(err.as_str());
        return Ok(JobStatus::Failed(m));
    }
    let field = match str_field(job_data, "status_field") {
        Some(f) => f,
        None => "status".to_owned(),
    };
    let value = match str_field(body, field.as_str()) {
        Some(v) => v,
        None => {
            let mut m = concat3("Response missing expected field '", field.as_str(), "'. Response: ");
            m.append(body_text);
            return Err(m);
        },
    };
    let success_value = match str_field(job_data, "success_value") {
        Some(s) => s,
        None => "success".to_owned(),
    };
    if str_eq(value.as_str(), success_value.as_str()) {
        return Ok(JobStatus::Completed);
    }
    match str_field(job_data, "failure_value") {
        Some(f) => {
            if str_eq(value.as_str(), f.as_str()) {
                return Ok(JobStatus::Failed(concat2("Job failed with status: ", value.as_str())));
            }
        },
        None => {},
    }
    Ok(JobStatus::Running)
}

// ---------------------------------------------------------------------------------------
// BigQuery
// ---------------------------------------------------------------------------------------
#[derive(Debug, Clone, Copy, PartialEq, Eq)]
pub enum BigQueryJobState {
    Pending,
    Running,
    Done,
}

/// The error a BigQuery job reports.
#[derive(Debug)]
pub struct ErrorProto {
    pub message: Option<String>,
}

/// The status BigQuery reports for a job.
#[derive(Debug)]
pub struct BigQueryJobStatus {
    pub state: BigQueryJobState,
    pub error_result: Option<ErrorProto>,
}

/// A finished BigQuery job failed when it reports an error, and completed otherwise; an
/// unfinished one is running.
pub open spec fn bigquery_outcome(state: BigQueryJobState, error: Option<Option<Seq<char>>>) -> JobStatusV {
    match state {
        BigQueryJobState::Done => match error {
            Some(m) => JobStatusV::Failed("BigQuery job failed: "@ + text_or(m, "Unknown error"@)),
            None => JobStatusV::Completed,
        },
        _ => JobStatusV::Running,
    }
}

pub open spec fn error_view(e: Option<ErrorProto>) -> Option<Option<Seq<char>>> {
    match e {
        Some(p) => Some(match p.message {
            Some(m) => Some(m@),
            None => None,
        }),
        None => None,
    }
}

pub fn map_bigquery_status(status: &BigQueryJobStatus) -> (r: JobStatus)
    ensures
        job_status_view(r) == bigquery_outcome(status.state, error_view(status.error_result)),
{
    proof {
        reveal_strlit("BigQuery job failed: ");
        reveal_strlit("Unknown error");
    }
    match status.state {
        BigQueryJobState::Done => match &status.error_result {
            Some(e) => {
                let msg = match &e.message {
                    Some(m) => m.clone(),
                    None => "Unknown error".to_owned(),
                };
                JobStatus::Failed(concat2("BigQuery job failed: ", msg.as_str()))
            },
            None => JobStatus::Completed,
        },
        _ => JobStatus::Running,
    }
}

/// Which BigQuery job to poll: `project`, `location` and `job_id` of the job data, the
/// first missing one reported.
pub fn bigquery_job_ref(job_data: &Json) -> (r: Result<(String, String, String), String>)
    ensures
        match (required_field(job_data@, "project"@), required_field(job_data@, "location"@), required_field(job_data@, "job_id"@)) {
            (Err(m), _, _) => r matches Err(e) && e@ == m,
            (Ok(_), Err(m), _) => r matches Err(e) && e@ == m,
            (Ok(_), Ok(_), Err(m)) => r matches Err(e) && e@ == m,
            (Ok(p), Ok(l), Ok(j)) => r matches Ok(t) && t.0@ == p && t.1@ == l && t.2@ == j,
        },
{
    proof {
        reveal_strlit("project");
        reveal_strlit("location");
        reveal_strlit("job_id");
    }
    let project = match required_str(job_data, "project") {
        Ok(p) => p,
        Err(e) => {
            return Err(e);
        },
    };
    let location = match required_str(job_data, "location") {
        Ok(l) => l,
        Err(e) => {
            return Err(e);
        },
    };
    let job_id = match required_str(job_data, "job_id") {
        Ok(j) => j,
        Err(e) => {
            return Err(e);
        },
    };
    Ok((project, location, job_id))
}

// ---------------------------------------------------------------------------------------
// Cloud Run
// ---------------------------------------------------------------------------------------
/// The resource name of the Cloud Run execution the job data points at: its `project`,
/// `region`, `job_name` and `execution_id`, the first missing one reported.
pub open spec fn execution_name_of(job_data: JsonV) -> Result<Seq<char>, Seq<char>> {
    match required_field(job_data, "project"@) {
        Err(m) => Err(m),
        Ok(p) => match required_field(job_data, "region"@) {
            Err(m) => Err(m),
            Ok(r) => match required_field(job_data, "job_name"@) {
                Err(m) => Err(m),
                Ok(j) => match required_field(job_data, "execution_id"@) {
                    Err(m) => Err(m),
                    Ok(e) => Ok(
                        "projects/"@ + p + "/locations/"@ + r + "/jobs/"@ + j + "/executions/"@ + e,
                    ),
                },
            },
        },
    }
}

pub fn cloudrun_execution_name(job_data: &Json) -> (r: Result<String, String>)
    ensures
        text_result(r) == execution_name_of(job_data@),
{
    proof {
        reveal_strlit("project");
        reveal_strlit("region");
        reveal_strlit("job_name");
        reveal_strlit("execution_id");
        reveal_strlit("projects/");
        reveal_strlit("/locations/");
        reveal_strlit("/jobs/");
        reveal_strlit("/executions/");
    }
    let p = match required_str(job_data, "project") {
        Ok(v) => v,
        Err(e) => {
            return Err(e);
        },
    };
    let rg = match required_str(job_data, "region") {
        Ok(v) => v,
        Err(e) => {
            return Err(e);
        },
    };
    let j = match required_str(job_data, "job_name") {
        Ok(v) => v,
        Err(e) => {
            return Err(e);
        },
    };
    let e = match required_str(job_data, "execution_id") {
        Ok(v) => v,
        Err(err) => {
            return Err(err);
        },
    };
    let mut name = concat2("projects/", p.as_str());
    name.append("/locations/");
    name.append(rg.as_str());
    name.append("/jobs/");
    name.append(j.as_str());
    name.append("/executions/");
    name.append(e.as_str());
    Ok(name)
}

/// The state of a condition of a Cloud Run execution.
#[derive(Debug, Clone, Copy, PartialEq, Eq)]
pub enum ConditionState {
    Unspecified,
    Pending,
    Reconciling,
    Succeeded,
    Failed,
}

/// A condition of a Cloud Run execution.
#[derive(Debug)]
pub struct RunCondition {
    pub kind: String,
    pub state: ConditionState,
    pub message: String,
}

/// The first `Ready` or `Completed` condition that has succeeded or failed decides;
/// without one the execution is still running.
pub open spec fn cloudrun_outcome(conds: Seq<RunCondition>) -> JobStatusV
    decreases conds.len(),
{
    if conds.len() == 0 {
        JobStatusV::Running
    } else {
        let c = conds[0];
        let relevant = c.kind@ == "Ready"@ || c.kind@ == "Completed"@;
        if relevant && c.state == ConditionState::Succeeded {
            JobStatusV::Completed
        } else if relevant && c.state == ConditionState::Failed {
            JobStatusV::Failed(
                "Cloud Run execution failed: "@ + (if c.message@.len() == 0 {
                    "Execution failed"@
                } else {
                    c.message@
                }),
            )
        } else {
            cloudrun_outcome(conds.subrange(1, conds.len() as int))
        }
    }
}

pub fn cloudrun_status(conditions: &Vec<RunCondition>) -> (r: JobStatus)
    ensures
        job_status_view(r) == cloudrun_outcome(conditions@),
{
    proof {
        reveal_strlit("Ready");
        reveal_strlit("Completed");
        reveal_strlit("Cloud Run execution failed: ");
        reveal_strlit("Execution failed");
    }
    let mut i: usize = 0;
    assert(conditions@.subrange(0, conditions.len() as int) =~= conditions@);
    while i < conditions.len()
        invariant
            i <= conditions.len(),
            cloudrun_outcome(conditions@) == cloudrun_outcome(
                conditions@.subrange(i as int, conditions.len() as int),
            ),
        decreases conditions.len() - i,
    {
        let c = &conditions[i];
        let ghost rest = conditions@.subrange(i as int, conditions.len() as int);
        assert(rest[0] == *c);
        assert(rest.subrange(1, rest.len() as int) =~= conditions@.subrange(
            i + 1,
            conditions.len() as int,
        ));
        let relevant = str_eq(c.kind.as_str(), "Ready") || str_eq(c.kind.as_str(), "Completed");
        if relevant {
            match c.state {
                ConditionState::Succeeded => {
                    return JobStatus::Completed;
                },
                ConditionState::Failed => {
                    let msg = if str_len(c.message.as_str()) == 0 {
                        "Execution failed".to_owned()
                    } else {
                        c.message.clone()
                    };
                    return JobStatus::Failed(concat2("Cloud Run execution failed: ", msg.as_str()));
                },
                _ => {},
            }
        }
        i = i + 1;
    }
    JobStatus::Running
}

// ---------------------------------------------------------------------------------------
// Dataproc
// ---------------------------------------------------------------------------------------
/// The state of a Dataproc job.
#[derive(Debug, Clone, Copy, PartialEq, Eq)]
pub enum DataprocState {
    Unspecified,
    Pending,
    SetupDone,
    Running,
    CancelPending,
    CancelStarted,
    Cancelled,
    Done,
    Error,
    AttemptFailure,
}

/// The status Dataproc reports for a job.
#[derive(Debug)]
pub struct DataprocJobStatus {
    pub state: DataprocState,
    pub details: String,
}

/// `t` occurs in `s`.
pub open spec fn has_substring(s: Seq<char>, t: Seq<char>) -> bool {
    exists|i: int| 0 <= i && i + t.len() <= s.len() && #[trigger] s.subrange(i, i + t.len()) == t
}

/// A finished Dataproc job failed when its details mention an error (in any letter case),
/// and completed otherwise; a job in error or cancelled failed; any other state (or no
/// status yet) is running.
pub open spec fn dataproc_outcome(status: Option<(DataprocState, Seq<char>)>) -> JobStatusV {
    match status {
        None => JobStatusV::Running,
        Some((state, details)) => match state {
            DataprocState::Done => if details.len() > 0 && has_substring(lowercase(details), "error"@) {
                JobStatusV::Failed("Dataproc job completed with errors: "@ + details)
            } else {
                JobStatusV::Completed
            },
            DataprocState::Error => JobStatusV::Failed(
                "Dataproc job error: "@ + (if details.len() == 0 {
                    "Job error"@
                } else {
                    details
                }),
            ),
            DataprocState::Cancelled => JobStatusV::Failed("Job was cancelled"@),
            _ => JobStatusV::Running,
        },
    }
}

/// Whether `t` occurs in `s`.
pub fn contains_text(s: &str, t: &str) -> (r: bool)
    ensures
        r == has_substring(s@, t@),
{
    let n = str_len(s);
    let m = str_len(t);
    if m > n {
        proof {
            assert forall|i: int| 0 <= i && i + t@.len() <= s@.len() implies #[trigger] s@.subrange(
                i,
                i + t@.len(),
            ) != t@ by {}
        }
        return false;
    }
    if m == 0 {
        assert(s@.subrange(0int, 0int + t@.len()) =~= t@);
        return true;
    }
    let mut i: usize = 0;
    while i <= n - m
        invariant
            m >= 1,
            n == s@.len(),
            m == t@.len(),
            m <= n,
            i <= n - m + 1,
            forall|j: int| 0 <= j < i ==> #[trigger] s@.subrange(j, j + m) != t@,
        decreases n - i,
    {
        let piece = substring(s, i, i + m);
        if str_eq(piece.as_str(), t) {
            assert(s@.subrange(i as int, i as int + t@.len()) == t@);
            return true;
        }
        i = i + 1;
    }
    proof {
        assert forall|j: int| 0 <= j && j + t@.len() <= s@.len() implies #[trigger] s@.subrange(
            j,
            j + t@.len(),
        ) != t@ by {
            assert(j < i);
        }
    }
    false
}

pub open spec fn dataproc_view(s: Option<DataprocJobStatus>) -> Option<(DataprocState, Seq<char>)> {
    match s {
        Some(st) => Some((st.state, st.details@)),
        None => None,
    }
}

pub fn dataproc_status(status: &Option<DataprocJobStatus>) -> (r: JobStatus)
    ensures
        job_status_view(r) == dataproc_outcome(dataproc_view(*status)),
{
    proof {
        reveal_strlit("error");
        reveal_strlit("Dataproc job completed with errors: ");
        reveal_strlit("Dataproc job error: ");
        reveal_strlit("Job error");
        reveal_strlit("Job was cancelled");
    }
    match status {
        None => JobStatus::Running,
        Some(st) => match st.state {
            DataprocState::Done => {
                if str_len(st.details.as_str()) > 0 {
                    let lower = to_lowercase(st.details.as_str());
                    if contains_text(lower.as_str(), "error") {
                        return JobStatus::Failed(
                            concat2("Dataproc job completed with errors: ", st.details.as_str()),
                        );
                    }
                }
                JobStatus::Completed
            },
            DataprocState::Error => {
                let msg = if str_len(st.details.as_str()) == 0 {
                    "Job error".to_owned()
                } else {
                    st.details.clone()
                };
                JobStatus::Failed(concat2("Dataproc job error: ", msg.as_str()))
            },
            DataprocState::Cancelled => JobStatus::Failed("Job was cancelled".to_owned()),
            _ => JobStatus::Running,
        },
    }
}

/// A condition that settles a Cloud Run execution: a `Ready` or `Completed` condition that
/// succeeded or failed.
pub open spec fn settling_condition(c: RunCondition) -> bool {
    (c.kind@ == "Ready"@ || c.kind@ == "Completed"@) && (c.state == ConditionState::Succeeded || c.state
        == ConditionState::Failed)
}

/// The first settling condition decides a Cloud Run execution: when it succeeded (whether
/// it is `Ready` or `Completed`) the execution completed; when it failed, the execution
/// failed with its message (or "Execution failed" when it has none); with no settling
/// condition the execution is still running.
pub proof fn law_cloudrun_first_settling_condition_decides(conds: Seq<RunCondition>)
    ensures
        forall|i: int|
            0 <= i < conds.len() && settling_condition(#[trigger] conds[i]) && (forall|j: int|
                0 <= j < i ==> !settling_condition(#[trigger] conds[j])) ==> {
                &&& conds[i].state == ConditionState::Succeeded ==> cloudrun_outcome(conds) == JobStatusV::Completed
                &&& conds[i].state == ConditionState::Failed ==> cloudrun_outcome(conds) == JobStatusV::Failed(
                    "Cloud Run execution failed: "@ + (if conds[i].message@.len() == 0 {
                        "Execution failed"@
                    } else {
                        conds[i].message@
                    }),
                )
            },
        (forall|j: int| 0 <= j < conds.len() ==> !settling_condition(#[trigger] conds[j])) ==> cloudrun_outcome(conds)
            == JobStatusV::Running,
    decreases conds.len(),
{
    if conds.len() > 0 {
        let rest = conds.subrange(1, conds.len() as int);
        law_cloudrun_first_settling_condition_decides(rest);
        assert forall|i: int|
            0 <= i < conds.len() && settling_condition(#[trigger] conds[i]) && (forall|j: int|
                0 <= j < i ==> !settling_condition(#[trigger] conds[j])) implies {
                &&& conds[i].state == ConditionState::Succeeded ==> cloudrun_outcome(conds) == JobStatusV::Completed
                &&& conds[i].state == ConditionState::Failed ==> cloudrun_outcome(conds) == JobStatusV::Failed(
                    "Cloud Run execution failed: "@ + (if conds[i].message@.len() == 0 {
                        "Execution failed"@
                    } else {
                        conds[i].message@
                    }),
                )
            } by {
            if i > 0 {
                assert(!settling_condition(conds[0]));
                assert(rest[i - 1] == conds[i]);
                assert forall|j: int| 0 <= j < i - 1 implies !settling_condition(#[trigger] rest[j]) by {
                    assert(rest[j] == conds[j + 1]);
                    assert(!settling_condition(conds[j + 1]));
                }
            }
        }
        if forall|j: int| 0 <= j < conds.len() ==> !settling_condition(#[trigger] conds[j]) {
            assert(!settling_condition(conds[0]));
            assert forall|j: int| 0 <= j < rest.len() implies !settling_condition(#[trigger] rest[j]) by {
                assert(rest[j] == conds[j + 1]);
                assert(!settling_condition(conds[j + 1]));
            }
        }
    }
}

/// Only a finished Dataproc job can have completed: a job with no status yet, or in any
/// state but done, in error or cancelled (pending, set up, running, being cancelled, ...),
/// is running; a done job completed unless its details mention an error, and then failed
/// with them; a job in error failed with its details ("Job error" when there are none);
/// a cancelled job failed as cancelled.
pub proof fn law_dataproc_only_done_completes(status: Option<(DataprocState, Seq<char>)>)
    ensures
        dataproc_outcome(status) == JobStatusV::Completed ==> (status matches Some((st, _)) && st
            == DataprocState::Done),
        match status {
            None => dataproc_outcome(status) == JobStatusV::Running,
            Some((st, d)) => {
                &&& (st != DataprocState::Done && st != DataprocState::Error && st != DataprocState::Cancelled)
                    ==> dataproc_outcome(status) == JobStatusV::Running
                &&& (st == DataprocState::Done && !has_substring(lowercase(d), "error"@)) ==> dataproc_outcome(status)
                    == JobStatusV::Completed
                &&& (st == DataprocState::Done && has_substring(lowercase(d), "error"@) && d.len() > 0)
                    ==> dataproc_outcome(status) == JobStatusV::Failed("Dataproc job completed with errors: "@ + d)
                &&& st == DataprocState::Error ==> dataproc_outcome(status) == JobStatusV::Failed(
                    "Dataproc job error: "@ + if d.len() == 0 {
                        "Job error"@
                    } else {
                        d
                    },
                )
                &&& st == DataprocState::Cancelled ==> dataproc_outcome(status) == JobStatusV::Failed(
                    "Job was cancelled"@,
                )
            },
        },
{
}

/// A BigQuery job is running until it is done; a done job completed exactly when it
/// reports no error, and otherwise failed with the error's message ("Unknown error" when
/// it has none).
pub proof fn law_bigquery_done_decides(state: BigQueryJobState, error: Option<Option<Seq<char>>>)
    ensures
        state != BigQueryJobState::Done <==> bigquery_outcome(state, error) == JobStatusV::Running,
        bigquery_outcome(state, error) == JobStatusV::Completed <==> (state == BigQueryJobState::Done
            && error is None),
        match error {
            Some(m) => state == BigQueryJobState::Done ==> bigquery_outcome(state, error) == JobStatusV::Failed(
                "BigQuery job failed: "@ + match m {
                    Some(t) => t,
                    None => "Unknown error"@,
                },
            ),
            None => true,
        },
{
}

/// Which Dataproc job to poll: `project`, `region` and `job_id` of the job data, which
/// must also name its `cluster_name`; the first missing field is reported.
pub fn dataproc_job_ref(job_data: &Json) -> (r: Result<(String, String, String), String>)
    ensures
        match (required_field(job_data@, "project"@), required_field(job_data@, "region"@), required_field(job_data@, "cluster_name"@), required_field(job_data@, "job_id"@)) {
            (Err(m), _, _, _) => r matches Err(e) && e@ == m,
            (Ok(_), Err(m), _, _) => r matches Err(e) && e@ == m,
            (Ok(_), Ok(_), Err(m), _) => r matches Err(e) && e@ == m,
            (Ok(_), Ok(_), Ok(_), Err(m)) => r matches Err(e) && e@ == m,
            (Ok(p), Ok(g), Ok(_), Ok(j)) => r matches Ok(t) && t.0@ == p && t.1@ == g && t.2@ == j,
        },
{
    proof {
        reveal_strlit("project");
        reveal_strlit("region");
        reveal_strlit("cluster_name");
        reveal_strlit("job_id");
    }
    let project = match required_str(job_data, "project") {
        Ok(v) => v,
        Err(e) => {
            return Err(e);
        },
    };
    let region = match required_str(job_data, "region") {
        Ok(v) => v,
        Err(e) => {
            return Err(e);
        },
    };
    match required_str(job_data, "cluster_name") {
        Ok(_) => {},
        Err(e) => {
            return Err(e);
        },
    }
    let job_id = match required_str(job_data, "job_id") {
        Ok(v) => v,
        Err(e) => {
            return Err(e);
        },
    };
    Ok((project, region, job_id))
}

} // verus!
