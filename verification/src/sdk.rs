//! Deferrables: long-running outside jobs that a task hands back for the scheduler to
//! track, each with the service that tracks it, its job id, and its JSON form.
use vstd::prelude::*;

use crate::json::{entries_view, lemma_object_view, Json, JsonV};

verus! {

/// A BigQuery job.
#[derive(Debug)]
pub struct BigQueryJob {
    pub project: String,
    pub job_id: String,
    pub location: String,
}

/// A Cloud Run job execution.
#[derive(Debug)]
pub struct CloudRunJob {
    pub project: String,
    pub region: String,
    pub job_name: String,
    pub execution_id: String,
}

/// A Dataproc job.
#[derive(Debug)]
pub struct DataprocJob {
    pub project: String,
    pub region: String,
    pub cluster_name: String,
    pub job_id: String,
}

/// An outside job polled over HTTP until a field of the response reports completion.
#[derive(Debug)]
pub struct CustomHttp {
    pub url: String,
    pub method: String,
    pub headers: Vec<(String, String)>,
    pub success_status_codes: Vec<u16>,
    pub completion_field: String,
    pub completion_value: String,
    pub failure_value: Option<String>,
}

/// What a task returns: data, deferrables to track, or both.
#[derive(Debug)]
pub enum TaskResult<T> {
    Data(T),
    Deferred { deferred: Vec<Json> },
    Mixed { data: T, deferred: Vec<Json> },
}

/// The status codes of a successful poll when none are given.
pub fn default_success_codes() -> (r: Vec<u16>)
    ensures
        r@ == seq![200u16],
{
    let mut v: Vec<u16> = Vec::new();
    v.push(200);
    v
}

fn text_entry(e: &mut Vec<(String, Json)>, key: &str, value: &String)
    ensures
        entries_view(final(e)@) == entries_view(old(e)@).push((key@, JsonV::Str(value@))),
{
    let ghost before = entries_view(e@);
    e.push((key.to_owned(), Json::from_str(value.as_str())));
    assert(entries_view(e@) =~= before.push((key@, JsonV::Str(value@))));
}

fn join_slash(parts: &[&str]) -> (r: String)
    requires
        parts.len() >= 1,
    ensures
        r@ == slashed(parts@.map_values(|p: &str| p@)),
{
    let mut r = parts[0].to_owned();
    let mut i: usize = 1;
    proof {
        reveal_strlit("/");
        assert(parts@.map_values(|p: &str| p@).take(1) =~= seq![parts@[0]@]);
        assert(seq![parts@[0]@].drop_last() =~= Seq::<Seq<char>>::empty());
    }
    while i < parts.len()
        invariant
            1 <= i <= parts.len(),
            r@ == slashed(parts@.map_values(|p: &str| p@).take(i as int)),
        decreases parts.len() - i,
    {
        r.append("/");
        r.append(parts[i]);
        proof {
            assert(parts@.map_values(|p: &str| p@).take(i + 1).drop_last() =~= parts@.map_values(
                |p: &str| p@,
            ).take(i as int));
        }
        i = i + 1;
    }
    assert(parts@.map_values(|p: &str| p@).take(i as int) =~= parts@.map_values(|p: &str| p@));
    r
}

/// The parts joined with `/` between them.
pub open spec fn slashed(parts: Seq<Seq<char>>) -> Seq<char>
    decreases parts.len(),
{
    if parts.len() <= 1 {
        if parts.len() == 1 {
            parts[0]
        } else {
            Seq::empty()
        }
    } else {
        slashed(parts.drop_last()) + "/"@ + parts.last()
    }
}

impl BigQueryJob {
    pub fn service_type(&self) -> (r: &'static str)
        ensures
            r@ == "bigquery"@,
    {
        "bigquery"
    }

    /// `project/location/job_id`
    pub fn job_id(&self) -> (r: String)
        ensures
            r@ == slashed(seq![self.project@, self.location@, self.job_id@]),
    {
        let r = join_slash(&[self.project.as_str(), self.location.as_str(), self.job_id.as_str()]);
        proof {
            reveal_with_fuel(slashed, 3);
        }
        r
    }

    /// The JSON form: `project`, `job_id`, `location`.
    pub fn to_json(&self) -> (r: Json)
        ensures
            r@ == JsonV::Object(
                seq![
                    ("project"@, JsonV::Str(self.project@)),
                    ("job_id"@, JsonV::Str(self.job_id@)),
                    ("location"@, JsonV::Str(self.location@)),
                ],
            ),
    {
        let mut e: Vec<(String, Json)> = Vec::new();
        let ghost empty = entries_view(e@);
        text_entry(&mut e, "project", &self.project);
        text_entry(&mut e, "job_id", &self.job_id);
        text_entry(&mut e, "location", &self.location);
        proof {
            assert(empty =~= Seq::empty());
            lemma_object_view(e);
            assert(entries_view(e@) =~= seq![
                ("project"@, JsonV::Str(self.project@)),
                ("job_id"@, JsonV::Str(self.job_id@)),
                ("location"@, JsonV::Str(self.location@)),
            ]);
        }
        Json::Object(e)
    }
}

impl CloudRunJob {
    pub fn service_type(&self) -> (r: &'static str)
        ensures
            r@ == "cloudrun"@,
    {
        "cloudrun"
    }

    /// `project/region/job_name/execution_id`
    pub fn job_id(&self) -> (r: String)
        ensures
            r@ == slashed(seq![self.project@, self.region@, self.job_name@, self.execution_id@]),
    {
        let r = join_slash(
            &[
                self.project.as_str(),
                self.region.as_str(),
                self.job_name.as_str(),
                self.execution_id.as_str(),
            ],
        );
        proof {
            reveal_with_fuel(slashed, 4);
        }
        r
    }

    /// The JSON form: `project`, `region`, `job_name`, `execution_id`.
    pub fn to_json(&self) -> (r: Json)
        ensures
            r@ == JsonV::Object(
                seq![
                    ("project"@, JsonV::Str(self.project@)),
                    ("region"@, JsonV::Str(self.region@)),
                    ("job_name"@, JsonV::Str(self.job_name@)),
                    ("execution_id"@, JsonV::Str(self.execution_id@)),
                ],
            ),
    {
        let mut e: Vec<(String, Json)> = Vec::new();
        let ghost empty = entries_view(e@);
        text_entry(&mut e, "project", &self.project);
        text_entry(&mut e, "region", &self.region);
        text_entry(&mut e, "job_name", &self.job_name);
        text_entry(&mut e, "execution_id", &self.execution_id);
        proof {
            assert(empty =~= Seq::empty());
            lemma_object_view(e);
            assert(entries_view(e@) =~= seq![
                ("project"@, JsonV::Str(self.project@)),
                ("region"@, JsonV::Str(self.region@)),
                ("job_name"@, JsonV::Str(self.job_name@)),
                ("execution_id"@, JsonV::Str(self.execution_id@)),
            ]);
        }
        Json::Object(e)
    }
}

impl DataprocJob {
    pub fn service_type(&self) -> (r: &'static str)
        ensures
            r@ == "dataproc"@,
    {
        "dataproc"
    }

    /// `project/region/cluster_name/job_id`
    pub fn job_id(&self) -> (r: String)
        ensures
            r@ == slashed(seq![self.project@, self.region@, self.cluster_name@, self.job_id@]),
    {
        let r = join_slash(
            &[
                self.project.as_str(),
                self.region.as_str(),
                self.cluster_name.as_str(),
                self.job_id.as_str(),
            ],
        );
        proof {
            reveal_with_fuel(slashed, 4);
        }
        r
    }

    /// The JSON form: `project`, `region`, `cluster_name`, `job_id`.
    pub fn to_json(&self) -> (r: Json)
        ensures
            r@ == JsonV::Object(
                seq![
                    ("project"@, JsonV::Str(self.project@)),
                    ("region"@, JsonV::Str(self.region@)),
                    ("cluster_name"@, JsonV::Str(self.cluster_name@)),
                    ("job_id"@, JsonV::Str(self.job_id@)),
                ],
            ),
    {
        let mut e: Vec<(String, Json)> = Vec::new();
        let ghost empty = entries_view(e@);
        text_entry(&mut e, "project", &self.project);
        text_entry(&mut e, "region", &self.region);
        text_entry(&mut e, "cluster_name", &self.cluster_name);
        text_entry(&mut e, "job_id", &self.job_id);
        proof {
            assert(empty =~= Seq::empty());
            lemma_object_view(e);
            assert(entries_view(e@) =~= seq![
                ("project"@, JsonV::Str(self.project@)),
                ("region"@, JsonV::Str(self.region@)),
                ("cluster_name"@, JsonV::Str(self.cluster_name@)),
                ("job_id"@, JsonV::Str(self.job_id@)),
            ]);
        }
        Json::Object(e)
    }
}

impl CustomHttp {
    pub fn service_type(&self) -> (r: &'static str)
        ensures
            r@ == "custom_http"@,
    {
        "custom_http"
    }

    /// The URL identifies the job.
    pub fn job_id(&self) -> (r: String)
        ensures
            r@ == self.url@,
    {
        self.url.clone()
    }
}

impl<T> TaskResult<T> {
    /// A result with data only.
    pub fn data(value: T) -> (r: Self)
        ensures
            r == TaskResult::Data(value),
    {
        TaskResult::Data(value)
    }

    /// A result with deferrables only, each in its JSON form.
    pub fn deferred(deferred: Vec<Json>) -> (r: Self)
        ensures
            r == (TaskResult::<T>::Deferred { deferred }),
    {
        TaskResult::Deferred { deferred }
    }

    /// A result with data and deferrables, each deferrable in its JSON form.
    pub fn mixed(data: T, deferred: Vec<Json>) -> (r: Self)
        ensures
            r == (TaskResult::Mixed { data, deferred }),
    {
        TaskResult::Mixed { data, deferred }
    }
}

} // verus!
