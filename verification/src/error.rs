//! Errors of workflow validation and compilation.
use vstd::prelude::*;

use crate::text::{concat2, decimal, u64_to_decimal};

verus! {

/// Why a workflow definition was rejected.
#[derive(Debug, Clone, PartialEq, Eq)]
pub enum WorkflowValidationError {
    EmptyWorkflowName,
    NoTasks,
    EmptyTaskName,
    UnknownDependency { task: String, dependency: String },
    SelfDependency { task: String },
    MissingTaskFile { task: String },
    MissingTaskCommand { task: String },
    MissingTaskJob { task: String },
    TaskFileNotFound { task: String, path: String },
    Cycle { task: String },
    MissingOutputType { task: String, depended_by: String },
    MissingInputType { task: String },
    InvalidTypeSchema { task: String, path: String, reason: String },
    Custom(String),
}

/// The mathematical form of a validation error.
pub enum WveV {
    EmptyWorkflowName,
    NoTasks,
    EmptyTaskName,
    UnknownDependency { task: Seq<char>, dependency: Seq<char> },
    SelfDependency { task: Seq<char> },
    MissingTaskFile { task: Seq<char> },
    MissingTaskCommand { task: Seq<char> },
    MissingTaskJob { task: Seq<char> },
    TaskFileNotFound { task: Seq<char>, path: Seq<char> },
    Cycle { task: Seq<char> },
    MissingOutputType { task: Seq<char>, depended_by: Seq<char> },
    MissingInputType { task: Seq<char> },
    InvalidTypeSchema { task: Seq<char>, path: Seq<char>, reason: Seq<char> },
    Custom(Seq<char>),
}

impl View for WorkflowValidationError {
    type V = WveV;

    open spec fn view(&self) -> WveV {
        match self {
            WorkflowValidationError::EmptyWorkflowName => WveV::EmptyWorkflowName,
            WorkflowValidationError::NoTasks => WveV::NoTasks,
            WorkflowValidationError::EmptyTaskName => WveV::EmptyTaskName,
            WorkflowValidationError::UnknownDependency { task, dependency } => WveV::UnknownDependency {
                task: task@,
                dependency: dependency@,
            },
            WorkflowValidationError::SelfDependency { task } => WveV::SelfDependency { task: task@ },
            WorkflowValidationError::MissingTaskFile { task } => WveV::MissingTaskFile { task: task@ },
            WorkflowValidationError::MissingTaskCommand { task } => WveV::MissingTaskCommand {
                task: task@,
            },
            WorkflowValidationError::MissingTaskJob { task } => WveV::MissingTaskJob { task: task@ },
            WorkflowValidationError::TaskFileNotFound { task, path } => WveV::TaskFileNotFound {
                task: task@,
                path: path@,
            },
            WorkflowValidationError::Cycle { task } => WveV::Cycle { task: task@ },
            WorkflowValidationError::MissingOutputType { task, depended_by } => WveV::MissingOutputType {
                task: task@,
                depended_by: depended_by@,
            },
            WorkflowValidationError::MissingInputType { task } => WveV::MissingInputType {
                task: task@,
            },
            WorkflowValidationError::InvalidTypeSchema { task, path, reason } => WveV::InvalidTypeSchema {
                task: task@,
                path: path@,
                reason: reason@,
            },
            WorkflowValidationError::Custom(m) => WveV::Custom(m@),
        }
    }
}

/// `r` is the outcome that `expected` describes: `Ok` when no error is expected, else
/// that error.
pub open spec fn outcome_is(r: Result<(), WorkflowValidationError>, expected: Option<WveV>) -> bool {
    match r {
        Ok(_) => expected is None,
        Err(e) => expected == Some(e@),
    }
}

/// The text of a validation error.
pub open spec fn wve_message(e: WveV) -> Seq<char> {
    match e {
        WveV::EmptyWorkflowName => "workflow name cannot be empty"@,
        WveV::NoTasks => "workflow must contain at least one task"@,
        WveV::EmptyTaskName => "task name cannot be empty"@,
        WveV::UnknownDependency { task, dependency } => "task "@ + task
            + " depends on unknown task "@ + dependency,
        WveV::SelfDependency { task } => "task "@ + task + " cannot depend on itself"@,
        WveV::MissingTaskFile { task } => "task "@ + task
            + " requires a `file` path or `module` + `function`"@,
        WveV::MissingTaskCommand { task } => "task "@ + task + " requires a `command` or `file` path"@,
        WveV::MissingTaskJob { task } => "task "@ + task + " requires a `job` name"@,
        WveV::TaskFileNotFound { task, path } => "task "@ + task + " file not found at "@ + path,
        WveV::Cycle { task } => "workflow contains a cycle involving task "@ + task,
        WveV::MissingOutputType { task, depended_by } => "task "@ + task
            + " must declare output_type because task "@ + depended_by + " depends on it"@,
        WveV::MissingInputType { task } => "task "@ + task
            + " must declare input_type because it has depends_on"@,
        WveV::InvalidTypeSchema { task, path, reason } => "invalid type schema in task "@ + task
            + " at "@ + path + ": "@ + reason,
        WveV::Custom(m) => m,
    }
}

fn cat(parts: &[&str]) -> (r: String)
    ensures
        r@ == cat_spec(parts@.map_values(|p: &str| p@)),
{
    let mut r = String::new();
    let mut i: usize = 0;
    while i < parts.len()
        invariant
            i <= parts.len(),
            r@ == cat_spec(parts@.map_values(|p: &str| p@).take(i as int)),
        decreases parts.len() - i,
    {
        r.append(parts[i]);
        assert(parts@.map_values(|p: &str| p@).take(i + 1).drop_last() =~= parts@.map_values(
            |p: &str| p@,
        ).take(i as int));
        i = i + 1;
    }
    assert(parts@.map_values(|p: &str| p@).take(i as int) =~= parts@.map_values(|p: &str| p@));
    r
}

/// The concatenation of a list of texts.
pub open spec fn cat_spec(parts: Seq<Seq<char>>) -> Seq<char>
    decreases parts.len(),
{
    if parts.len() == 0 {
        Seq::empty()
    } else {
        cat_spec(parts.drop_last()) + parts.last()
    }
}

impl WorkflowValidationError {
    /// The text of the error, as `Display` would write it.
    pub fn message(&self) -> (r: String)
        ensures
            r@ == wve_message(self@),
    {
        let r = match self {
            WorkflowValidationError::EmptyWorkflowName => "workflow name cannot be empty".to_owned(),
            WorkflowValidationError::NoTasks => "workflow must contain at least one task".to_owned(),
            WorkflowValidationError::EmptyTaskName => "task name cannot be empty".to_owned(),
            WorkflowValidationError::UnknownDependency { task, dependency } => cat(
                &["task ", task.as_str(), " depends on unknown task ", dependency.as_str()],
            ),
            WorkflowValidationError::SelfDependency { task } => cat(
                &["task ", task.as_str(), " cannot depend on itself"],
            ),
            WorkflowValidationError::MissingTaskFile { task } => cat(
                &["task ", task.as_str(), " requires a `file` path or `module` + `function`"],
            ),
            WorkflowValidationError::MissingTaskCommand { task } => cat(
                &["task ", task.as_str(), " requires a `command` or `file` path"],
            ),
            WorkflowValidationError::MissingTaskJob { task } => cat(
                &["task ", task.as_str(), " requires a `job` name"],
            ),
            WorkflowValidationError::TaskFileNotFound { task, path } => cat(
                &["task ", task.as_str(), " file not found at ", path.as_str()],
            ),
            WorkflowValidationError::Cycle { task } => concat2(
                "workflow contains a cycle involving task ",
                task.as_str(),
            ),
            WorkflowValidationError::MissingOutputType { task, depended_by } => cat(
                &[
                    "task ",
                    task.as_str(),
                    " must declare output_type because task ",
                    depended_by.as_str(),
                    " depends on it",
                ],
            ),
            WorkflowValidationError::MissingInputType { task } => cat(
                &["task ", task.as_str(), " must declare input_type because it has depends_on"],
            ),
            WorkflowValidationError::InvalidTypeSchema { task, path, reason } => cat(
                &[
                    "invalid type schema in task ",
                    task.as_str(),
                    " at ",
                    path.as_str(),
                    ": ",
                    reason.as_str(),
                ],
            ),
            WorkflowValidationError::Custom(m) => m.clone(),
        };
        proof {
            reveal_with_fuel(cat_spec, 7);
        }
        r
    }
}

/// Errors of loading, compiling and running workflows. Causes from I/O and parsing are
/// kept as their text.
#[derive(Debug, Clone, PartialEq, Eq)]
pub enum OrkError {
    ReadFile { path: String, source: String },
    WriteFile { path: String, source: String },
    YamlParse { path: String, source: String },
    JsonParse { path: String, source: String },
    InvalidWorkflow(WorkflowValidationError),
    ExecutorError { task: String, source: String },
    Timeout { task: String, seconds: u64 },
}

/// The text of an error of loading, compiling or running workflows.
pub open spec fn ork_message(e: OrkError) -> Seq<char> {
    match e {
        OrkError::ReadFile { path, source } => "failed to read file "@ + path@ + ": "@ + source@,
        OrkError::WriteFile { path, source } => "failed to write file "@ + path@ + ": "@ + source@,
        OrkError::YamlParse { path, source } => "yaml parse error in "@ + path@ + ": "@ + source@,
        OrkError::JsonParse { path, source } => "json parse error in "@ + path@ + ": "@ + source@,
        OrkError::InvalidWorkflow(w) => "invalid workflow: "@ + wve_message(w@),
        OrkError::ExecutorError { task, source } => "executor error for task "@ + task@ + ": "@ + source@,
        OrkError::Timeout { task, seconds } => "task "@ + task@ + " timed out after "@ + decimal(
            seconds as nat,
        ) + "s"@,
    }
}

impl OrkError {
    /// The text of the error, as `Display` would write it.
    pub fn message(&self) -> (r: String)
        ensures
            r@ == ork_message(*self),
    {
        let r = match self {
            OrkError::ReadFile { path, source } => cat(&["failed to read file ", path.as_str(), ": ", source.as_str()]),
            OrkError::WriteFile { path, source } => cat(&["failed to write file ", path.as_str(), ": ", source.as_str()]),
            OrkError::YamlParse { path, source } => cat(&["yaml parse error in ", path.as_str(), ": ", source.as_str()]),
            OrkError::JsonParse { path, source } => cat(&["json parse error in ", path.as_str(), ": ", source.as_str()]),
            OrkError::InvalidWorkflow(w) => {
                let m = w.message();
                concat2("invalid workflow: ", m.as_str())
            },
            OrkError::ExecutorError { task, source } => cat(
                &["executor error for task ", task.as_str(), ": ", source.as_str()],
            ),
            OrkError::Timeout { task, seconds } => {
                let secs = u64_to_decimal(*seconds);
                cat(&["task ", task.as_str(), " timed out after ", secs.as_str(), "s"])
            },
        };
        proof {
            reveal_with_fuel(cat_spec, 6);
        }
        r
    }
}

} // verus!
