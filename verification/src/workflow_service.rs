//! Applying a workflow definition to the store: what happens when a workflow of that name
//! already exists, which schedule is kept, how store errors are recognized as "not
//! found", and the content hash of the stored task rows.
use sha2::{Digest, Sha256};
use vstd::prelude::*;
use vstd::string::StringSliceAdditionalSpecFns;

use crate::ids::hex_digit;
use crate::job_tracker::{contains_text, has_substring};
use crate::models::Workflow as StoredWorkflow;
use crate::text::{lowercase, push_char, to_lowercase};

verus! {

/// What to do when a workflow of the same name is already stored.
#[derive(Debug, Clone, Copy, PartialEq, Eq)]
pub enum ExistingWorkflowBehavior {
    Error,
    Replace,
}

/// Whether applying created a workflow or replaced the tasks of a stored one.
#[derive(Debug, Clone, Copy, PartialEq, Eq)]
pub enum ApplyWorkflowYamlOutcome {
    Created,
    Replaced,
}

#[derive(Debug)]
pub struct ApplyWorkflowYamlResult {
    pub workflow: StoredWorkflow,
    pub outcome: ApplyWorkflowYamlOutcome,
}

/// A request to apply a workflow definition; `root` is the directory its task files are
/// resolved against.
#[derive(Debug)]
pub struct ApplyWorkflowYamlRequest<'a> {
    pub yaml_content: &'a str,
    pub root: &'a str,
    pub project: &'a str,
    pub region: &'a str,
    pub existing_workflow: ExistingWorkflowBehavior,
    pub persist_schedule_on_create: bool,
}

/// Why applying a workflow definition failed; causes from outside are kept as their text.
#[derive(Debug, Clone, PartialEq, Eq)]
pub enum WorkflowServiceError {
    WorkflowAlreadyExists { name: String },
    InvalidYaml(String),
    InvalidWorkflow(String),
    Compilation(String),
    Storage(String),
}

/// How a stored workflow of the same name is dealt with: its tasks are replaced, or the
/// request fails naming the workflow; without one a workflow is created.
pub fn existing_workflow_outcome(
    exists: bool,
    behavior: ExistingWorkflowBehavior,
    name: &str,
) -> (r: Result<ApplyWorkflowYamlOutcome, WorkflowServiceError>)
    ensures
        !exists ==> r == Ok::<ApplyWorkflowYamlOutcome, WorkflowServiceError>(ApplyWorkflowYamlOutcome::Created),
        exists && behavior == ExistingWorkflowBehavior::Replace ==> r == Ok::<ApplyWorkflowYamlOutcome, WorkflowServiceError>(ApplyWorkflowYamlOutcome::Replaced),
        exists && behavior == ExistingWorkflowBehavior::Error ==> (r matches Err(WorkflowServiceError::WorkflowAlreadyExists { name: n }) && n@ == name@),
{
    if !exists {
        return Ok(ApplyWorkflowYamlOutcome::Created);
    }
    match behavior {
        ExistingWorkflowBehavior::Replace => Ok(ApplyWorkflowYamlOutcome::Replaced),
        ExistingWorkflowBehavior::Error => Err(
            WorkflowServiceError::WorkflowAlreadyExists { name: name.to_owned() },
        ),
    }
}

/// The schedule stored with a new workflow: the definition's, when asked to keep it.
pub fn schedule_to_persist(schedule: &Option<String>, persist: bool) -> (r: Option<String>)
    ensures
        r == (if persist {
            *schedule
        } else {
            None
        }),
{
    if persist {
        match schedule {
            Some(s) => Some(s.clone()),
            None => None,
        }
    } else {
        None
    }
}

/// A store error means that nothing was found when its text, in lowercase, says
/// `row not found`, `no rows` or `not found`.
pub open spec fn not_found_text(msg: Seq<char>) -> bool {
    let l = lowercase(msg);
    has_substring(l, "row not found"@) || has_substring(l, "no rows"@) || has_substring(l, "not found"@)
}

pub fn is_not_found_error(msg: &str) -> (r: bool)
    ensures
        r == not_found_text(msg@),
{
    let l = to_lowercase(msg);
    contains_text(l.as_str(), "row not found") || contains_text(l.as_str(), "no rows")
        || contains_text(l.as_str(), "not found")
}

/// What SHA-256 gives for a sequence of bytes.
pub uninterp spec fn sha256(data: Seq<u8>) -> Seq<u8>;

/// `Sha256::digest`: the SHA-256 hash of the bytes, named `sha256`; it has 32 bytes.
#[verifier::external_body]
fn sha256_digest(data: &[u8]) -> (r: Vec<u8>)
    ensures
        r@ == sha256(data@),
        r.len() == 32,
{
    Sha256::digest(data).to_vec()
}

/// Two lowercase hexadecimal digits per byte.
pub open spec fn hex_bytes(b: Seq<u8>) -> Seq<char>
    decreases b.len(),
{
    if b.len() == 0 {
        Seq::empty()
    } else {
        hex_bytes(b.drop_last()) + seq![hex_digit((b.last() / 16) as nat), hex_digit((b.last() % 16) as nat)]
    }
}

fn hex_char(d: u8) -> (c: char)
    requires
        d < 16,
    ensures
        c == hex_digit(d as nat),
{
    if d < 10 {
        (d + 48) as char
    } else {
        (d + 87) as char
    }
}

/// The content hash of stored task rows from their canonical JSON text: the SHA-256 of
/// its UTF-8 bytes in lowercase hexadecimal.
pub fn compute_content_hash(canonical: &str) -> (r: String)
    ensures
        r@ == hex_bytes(sha256(canonical.spec_bytes())),
        r@.len() == 64,
{
    let digest = sha256_digest(canonical.as_bytes());
    let mut r = String::new();
    let mut i: usize = 0;
    assert(r@ =~= hex_bytes(digest@.take(0)));
    while i < digest.len()
        invariant
            i <= digest.len(),
            digest.len() == 32,
            r@ == hex_bytes(digest@.take(i as int)),
            r@.len() == 2 * i,
        decreases digest.len() - i,
    {
        let b = digest[i];
        push_char(&mut r, hex_char(b / 16));
        push_char(&mut r, hex_char(b % 16));
        proof {
            assert(digest@.take(i + 1).drop_last() =~= digest@.take(i as int));
        }
        i = i + 1;
    }
    assert(digest@.take(32) =~= digest@);
    r
}

} // verus!
