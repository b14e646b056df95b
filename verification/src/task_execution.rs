//! Preparing tasks for dispatch: the rows of a new run, the job name and parameters a task
//! is executed with, its input bindings resolved against the outputs of its run, and the
//! delay before a retry.
//!
//! The outputs of a run are the entries (task name, output) of that run, and the outputs of
//! all runs are entries (run id, outputs); the first entry with a key holds its value.
use vstd::prelude::*;

use crate::compiled::{opt_json, NewWorkflowTask};
use crate::ids::{uuid_string, uuid_text};
use crate::json::{
    as_i64_spec, as_str_spec, entries_find, entries_set, entries_set_default, entries_view,
    get_spec, lemma_object_view, Json, JsonV,
};
use crate::keyed::{entries_get, entries_insert, has_key, lemma_first_key};
use crate::models::{task_status_text, TaskStatus, TaskWithWorkflow, Workflow, WorkflowTask};
use crate::schema::strs_view;
use crate::text::{concat2, concat3, str_eq};
use crate::validation::{deps_contain, seq_has_str, split_char, split_on};

verus! {

/// A task row of a new run.
#[derive(Debug)]
pub struct NewTask {
    pub task_index: i32,
    pub task_name: String,
    pub executor_type: String,
    pub depends_on: Vec<String>,
    pub params: Json,
    pub max_retries: i32,
    pub timeout_seconds: Option<i32>,
}

// ---------------------------------------------------------------------------------------
// Retry delay
// ---------------------------------------------------------------------------------------
pub open spec fn pow2(n: nat) -> nat
    decreases n,
{
    if n == 0 {
        1
    } else {
        2 * pow2((n - 1) as nat)
    }
}

/// Seconds to wait before retry `attempt`: one second up to the first attempt, then
/// doubling with each attempt (counted up to the tenth), and never more than a minute.
pub open spec fn backoff(attempt: int) -> nat {
    if attempt <= 1 {
        1
    } else {
        let capped: nat = if attempt > 10 {
            10
        } else {
            attempt as nat
        };
        let b = pow2((capped - 1) as nat);
        if b < 60 {
            b
        } else {
            60
        }
    }
}

pub fn retry_backoff_seconds(attempt: i32) -> (r: u64)
    ensures
        r == backoff(attempt as int),
{
    if attempt <= 1 {
        return 1;
    }
    let capped: i32 = if attempt > 10 {
        10
    } else {
        attempt
    };
    let mut b: u64 = 1;
    let mut i: i32 = 1;
    while i < capped
        invariant
            1 <= i <= capped <= 10,
            b == pow2((i - 1) as nat),
            b <= 512,
        decreases capped - i,
    {
        proof {
            reveal_with_fuel(pow2, 11);
        }
        b = b * 2;
        i = i + 1;
        proof {
            assert(b == pow2((i - 1) as nat));
            lemma_pow2_bound((i - 1) as nat);
        }
    }
    if b < 60 {
        b
    } else {
        60
    }
}

proof fn lemma_pow2_bound(n: nat)
    requires
        n <= 9,
    ensures
        pow2(n) <= 512,
        pow2(n) >= 1,
{
    reveal_with_fuel(pow2, 10);
}

proof fn lemma_pow2_monotone(a: nat, b: nat)
    requires
        a <= b,
    ensures
        pow2(a) <= pow2(b),
    decreases b,
{
    if a < b {
        lemma_pow2_monotone(a, (b - 1) as nat);
    }
}

/// The delay before a retry is at least a second and at most a minute.
pub proof fn law_backoff_bounded(attempt: int)
    ensures
        1 <= backoff(attempt) <= 60,
{
    if attempt > 1 {
        let capped: nat = if attempt > 10 {
            10
        } else {
            attempt as nat
        };
        lemma_pow2_monotone(0, (capped - 1) as nat);
    }
}

/// A later attempt never waits less than an earlier one.
pub proof fn law_backoff_monotone(a: int, b: int)
    requires
        a <= b,
    ensures
        backoff(a) <= backoff(b),
{
    law_backoff_bounded(b);
    if a > 1 {
        let ca: nat = if a > 10 {
            10
        } else {
            a as nat
        };
        let cb: nat = if b > 10 {
            10
        } else {
            b as nat
        };
        lemma_pow2_monotone((ca - 1) as nat, (cb - 1) as nat);
    }
}

/// From the first attempt on, each further attempt doubles the delay until it reaches a
/// minute.
pub proof fn law_backoff_doubles(attempt: int)
    requires
        attempt >= 1,
    ensures
        backoff(attempt + 1) == (if 2 * backoff(attempt) < 60 {
            2 * backoff(attempt)
        } else {
            60
        }),
{
    reveal_with_fuel(pow2, 11);
    if attempt >= 10 {
        assert(pow2(9) == 512);
    }
}

// ---------------------------------------------------------------------------------------
// Job name
// ---------------------------------------------------------------------------------------
/// The string at `key` of a parameter object.
pub open spec fn str_param(p: Option<JsonV>, key: Seq<char>) -> Option<Seq<char>> {
    match p {
        Some(v) => match get_spec(v, key) {
            Some(x) => as_str_spec(x),
            None => None,
        },
        None => None,
    }
}

/// The job a task runs as: the parameter `job_name`, else `command`, else `script` (each
/// when it is a string), else the workflow's job name.
pub open spec fn job_name_for(params: Option<JsonV>, default: Seq<char>) -> Seq<char> {
    match str_param(params, "job_name"@) {
        Some(s) => s,
        None => match str_param(params, "command"@) {
            Some(s) => s,
            None => match str_param(params, "script"@) {
                Some(s) => s,
                None => default,
            },
        },
    }
}

fn str_param_of(p: &Option<Json>, key: &str) -> (r: Option<String>)
    ensures
        opt_str_view(r) == str_param(opt_json(*p), key@),
{
    match p {
        Some(v) => match v.get(key) {
            Some(x) => match x.as_str() {
                Some(s) => Some(s.clone()),
                None => None,
            },
            None => None,
        },
        None => None,
    }
}

pub open spec fn opt_str_view(o: Option<String>) -> Option<Seq<char>> {
    match o {
        Some(s) => Some(s@),
        None => None,
    }
}

pub fn resolve_job_name(task: &TaskWithWorkflow) -> (r: String)
    ensures
        r@ == job_name_for(opt_json(task.params), task.job_name@),
{
    proof {
        reveal_strlit("job_name");
        reveal_strlit("command");
        reveal_strlit("script");
    }
    match str_param_of(&task.params, "job_name") {
        Some(s) => s,
        None => match str_param_of(&task.params, "command") {
            Some(s) => s,
            None => match str_param_of(&task.params, "script") {
                Some(s) => s,
                None => task.job_name.clone(),
            },
        },
    }
}

// ---------------------------------------------------------------------------------------
// Rows of a new run
// ---------------------------------------------------------------------------------------
/// The entries of a parameter value that is an object; anything else counts as empty.
pub open spec fn object_or_empty(p: Option<JsonV>) -> Seq<(Seq<char>, JsonV)> {
    match p {
        Some(JsonV::Object(e)) => e,
        _ => Seq::empty(),
    }
}

/// A JSON number of an `i32`, as serde_json holds it.
pub open spec fn int_json(i: int) -> JsonV {
    if i >= 0 {
        JsonV::PosInt(i as u64)
    } else {
        JsonV::NegInt(i as i64)
    }
}

pub open spec fn clamp_i32(v: i64) -> i32 {
    if v < 0 {
        0
    } else if v > i32::MAX {
        i32::MAX
    } else {
        v as i32
    }
}

pub open spec fn int_param(e: Seq<(Seq<char>, JsonV)>, key: Seq<char>) -> Option<i64> {
    match entries_get(e, key) {
        Some(v) => as_i64_spec(v),
        None => None,
    }
}

pub open spec fn retries_param(e: Seq<(Seq<char>, JsonV)>) -> i32 {
    match int_param(e, "max_retries"@) {
        Some(v) => clamp_i32(v),
        None => 0,
    }
}

pub open spec fn timeout_param(e: Seq<(Seq<char>, JsonV)>) -> Option<i32> {
    match int_param(e, "timeout_seconds"@) {
        Some(v) => Some(clamp_i32(v)),
        None => None,
    }
}

pub open spec fn set_default(e: Seq<(Seq<char>, JsonV)>, key: Seq<char>, v: JsonV) -> Seq<
    (Seq<char>, JsonV),
> {
    if has_key(e, key) {
        e
    } else {
        e.push((key, v))
    }
}

/// The parameters of a task of a new run: the stored ones, with the task's position and
/// name, the workflow's name and the run id added where they are not set.
pub open spec fn run_params(
    e: Seq<(Seq<char>, JsonV)>,
    index: i32,
    name: Seq<char>,
    workflow: Seq<char>,
    run_id: u128,
) -> Seq<(Seq<char>, JsonV)> {
    set_default(
        set_default(
            set_default(set_default(e, "task_index"@, int_json(index as int)), "task_name"@, JsonV::Str(name)),
            "workflow_name"@,
            JsonV::Str(workflow),
        ),
        "run_id"@,
        JsonV::Str(uuid_text(run_id)),
    )
}

pub open spec fn new_task_from(
    r: NewTask,
    index: i32,
    name: Seq<char>,
    executor_type: Seq<char>,
    deps: Seq<Seq<char>>,
    params: Option<JsonV>,
    workflow: Seq<char>,
    run_id: u128,
) -> bool {
    let e = object_or_empty(params);
    &&& r.task_index == index
    &&& r.task_name@ == name
    &&& r.executor_type@ == executor_type
    &&& strs_view(r.depends_on@) == deps
    &&& r.params@ == JsonV::Object(run_params(e, index, name, workflow, run_id))
    &&& r.max_retries == retries_param(e)
    &&& r.timeout_seconds == timeout_param(e)
}

fn clone_strings(v: &Vec<String>) -> (r: Vec<String>)
    ensures
        strs_view(r@) == strs_view(v@),
{
    let mut r: Vec<String> = Vec::new();
    let mut i: usize = 0;
    while i < v.len()
        invariant
            i <= v.len(),
            strs_view(r@) == strs_view(v@.take(i as int)),
        decreases v.len() - i,
    {
        let ghost before = strs_view(r@);
        r.push(v[i].clone());
        proof {
            assert(strs_view(r@) =~= before.push(v@[i as int]@));
            assert(strs_view(v@.take(i + 1)) =~= strs_view(v@.take(i as int)).push(v@[i as int]@));
        }
        i = i + 1;
    }
    assert(v@.take(v.len() as int) =~= v@);
    r
}

fn int_json_of(i: i32) -> (r: Json)
    ensures
        r@ == int_json(i as int),
{
    Json::from_i64(i as i64)
}

fn clamp_to_i32(v: i64) -> (r: i32)
    ensures
        r == clamp_i32(v),
{
    if v < 0 {
        0
    } else if v > 2147483647 {
        2147483647
    } else {
        v as i32
    }
}

fn int_param_of(e: &Vec<(String, Json)>, key: &str) -> (r: Option<i64>)
    ensures
        r == int_param(entries_view(e@), key@),
{
    match entries_find(e, key) {
        Some(k) => e[k].1.as_i64(),
        None => None,
    }
}

pub open spec fn ref_view(v: Option<&Json>) -> Option<JsonV> {
    match v {
        Some(j) => Some(j@),
        None => None,
    }
}

/// A copy of the entries of a value that is an object; none for anything else.
fn object_entries(v: Option<&Json>) -> (r: Vec<(String, Json)>)
    ensures
        entries_view(r@) == object_or_empty(ref_view(v)),
{
    let r = match v {
        Some(j) => match j.deep_clone() {
            Json::Object(ce) => {
                proof {
                    lemma_object_view(ce);
                }
                ce
            },
            _ => Vec::new(),
        },
        None => Vec::new(),
    };
    proof {
        if !(ref_view(v) matches Some(JsonV::Object(_))) {
            assert(entries_view(r@) =~= Seq::empty());
        }
    }
    r
}

fn new_task(
    index: i32,
    name: &String,
    executor_type: &String,
    deps: &Vec<String>,
    params: Option<&Json>,
    workflow: &String,
    run_id: u128,
) -> (r: NewTask)
    ensures
        new_task_from(
            r,
            index,
            name@,
            executor_type@,
            strs_view(deps@),
            match params {
                Some(p) => Some(p@),
                None => None,
            },
            workflow@,
            run_id,
        ),
{
    let mut e = object_entries(params);
    proof {
        reveal_strlit("max_retries");
        reveal_strlit("timeout_seconds");
        reveal_strlit("task_index");
        reveal_strlit("task_name");
        reveal_strlit("workflow_name");
        reveal_strlit("run_id");
    }
    let max_retries = match int_param_of(&e, "max_retries") {
        Some(v) => clamp_to_i32(v),
        None => 0,
    };
    let timeout_seconds = match int_param_of(&e, "timeout_seconds") {
        Some(v) => Some(clamp_to_i32(v)),
        None => None,
    };
    entries_set_default(&mut e, "task_index".to_owned(), int_json_of(index));
    entries_set_default(&mut e, "task_name".to_owned(), Json::from_str(name.as_str()));
    entries_set_default(&mut e, "workflow_name".to_owned(), Json::from_str(workflow.as_str()));
    let run_text = uuid_string(run_id);
    entries_set_default(&mut e, "run_id".to_owned(), Json::String(run_text));
    proof {
        lemma_object_view(e);
    }
    NewTask {
        task_index: index,
        task_name: name.clone(),
        executor_type: executor_type.clone(),
        depends_on: clone_strings(deps),
        params: Json::Object(e),
        max_retries,
        timeout_seconds,
    }
}

/// The task rows of a new run from the stored task definitions of its workflow.
pub fn build_run_tasks(run_id: u128, workflow: &Workflow, workflow_tasks: &Vec<WorkflowTask>) -> (r:
    Vec<NewTask>)
    ensures
        r.len() == workflow_tasks.len(),
        forall|k: int|
            0 <= k < r.len() ==> new_task_from(
                #[trigger] r@[k],
                workflow_tasks@[k].task_index,
                workflow_tasks@[k].task_name@,
                workflow_tasks@[k].executor_type@,
                strs_view(workflow_tasks@[k].depends_on@),
                opt_json(workflow_tasks@[k].params),
                workflow.name@,
                run_id,
            ),
{
    let mut r: Vec<NewTask> = Vec::new();
    let mut k: usize = 0;
    while k < workflow_tasks.len()
        invariant
            k <= workflow_tasks.len(),
            r.len() == k,
            forall|j: int|
                0 <= j < k ==> new_task_from(
                    #[trigger] r@[j],
                    workflow_tasks@[j].task_index,
                    workflow_tasks@[j].task_name@,
                    workflow_tasks@[j].executor_type@,
                    strs_view(workflow_tasks@[j].depends_on@),
                    opt_json(workflow_tasks@[j].params),
                    workflow.name@,
                    run_id,
                ),
        decreases workflow_tasks.len() - k,
    {
        let t = &workflow_tasks[k];
        let params = match &t.params {
            Some(p) => Some(p),
            None => None,
        };
        r.push(
            new_task(
                t.task_index,
                &t.task_name,
                &t.executor_type,
                &t.depends_on,
                params,
                &workflow.name,
                run_id,
            ),
        );
        k = k + 1;
    }
    r
}

/// The task rows of a new run from the task rows stored when its workflow was compiled.
pub fn build_run_tasks_from_snapshot(
    run_id: u128,
    workflow: &Workflow,
    snapshot_tasks: &Vec<NewWorkflowTask>,
) -> (r: Vec<NewTask>)
    ensures
        r.len() == snapshot_tasks.len(),
        forall|k: int|
            0 <= k < r.len() ==> new_task_from(
                #[trigger] r@[k],
                snapshot_tasks@[k].task_index,
                snapshot_tasks@[k].task_name@,
                snapshot_tasks@[k].executor_type@,
                strs_view(snapshot_tasks@[k].depends_on@),
                Some(snapshot_tasks@[k].params@),
                workflow.name@,
                run_id,
            ),
{
    let mut r: Vec<NewTask> = Vec::new();
    let mut k: usize = 0;
    while k < snapshot_tasks.len()
        invariant
            k <= snapshot_tasks.len(),
            r.len() == k,
            forall|j: int|
                0 <= j < k ==> new_task_from(
                    #[trigger] r@[j],
                    snapshot_tasks@[j].task_index,
                    snapshot_tasks@[j].task_name@,
                    snapshot_tasks@[j].executor_type@,
                    strs_view(snapshot_tasks@[j].depends_on@),
                    Some(snapshot_tasks@[j].params@),
                    workflow.name@,
                    run_id,
                ),
        decreases snapshot_tasks.len() - k,
    {
        let t = &snapshot_tasks[k];
        r.push(
            new_task(
                t.task_index,
                &t.task_name,
                &t.executor_type,
                &t.depends_on,
                Some(&t.params),
                &workflow.name,
                run_id,
            ),
        );
        k = k + 1;
    }
    r
}

// ---------------------------------------------------------------------------------------
// Input bindings
// ---------------------------------------------------------------------------------------
pub open spec fn outputs_view(o: Option<&Vec<(String, Json)>>) -> Option<Seq<(Seq<char>, JsonV)>> {
    match o {
        Some(v) => Some(entries_view(v@)),
        None => None,
    }
}

pub open spec fn result_view(r: Result<Json, String>) -> Result<JsonV, Seq<char>> {
    match r {
        Ok(j) => Ok(j@),
        Err(m) => Err(m@),
    }
}

/// `task '<name>' ref '<reference>'`, how messages about a reference begin.
pub open spec fn ref_prefix(name: Seq<char>, reference: Seq<char>) -> Seq<char> {
    "task '"@ + name + "' ref '"@ + reference + "'"@
}

/// Follows the fields `segs[i..]` into `v`.
pub open spec fn walk_fields(pre: Seq<char>, v: JsonV, segs: Seq<Seq<char>>, i: int) -> Result<
    JsonV,
    Seq<char>,
>
    decreases segs.len() - i,
{
    if i < 0 || i >= segs.len() {
        Ok(v)
    } else {
        match v {
            JsonV::Object(e) => match entries_get(e, segs[i]) {
                Some(x) => walk_fields(pre, x, segs, i + 1),
                None => Err(pre + " missing field '"@ + segs[i] + "'"@),
            },
            _ => Err(pre + " cannot access field '"@ + segs[i] + "' on non-object value"@),
        }
    }
}

/// The value a reference `tasks.<task>.output[.<field>...]` names in the outputs of the
/// run, for a task that depends on `<task>`.
pub open spec fn resolve_ref_spec(
    name: Seq<char>,
    deps: Seq<String>,
    reference: Seq<char>,
    outputs: Option<Seq<(Seq<char>, JsonV)>>,
) -> Result<JsonV, Seq<char>> {
    let parts = split_char(reference, '.');
    let pre = ref_prefix(name, reference);
    if parts.len() < 3 || parts[0] != "tasks"@ || parts[2] != "output"@ {
        Err(
            "task '"@ + name + "' has unsupported ref '"@ + reference
                + "': expected tasks.<task>.output[.<field>...]"@,
        )
    } else if !seq_has_str(deps, parts[1]) {
        Err(pre + " targets task '"@ + parts[1] + "' which is not listed in depends_on"@)
    } else {
        match outputs {
            None => Err(pre + " cannot be resolved: run outputs are unavailable"@),
            Some(o) => match entries_get(o, parts[1]) {
                None => Err(pre + " cannot be resolved: no output for dependency '"@ + parts[1] + "'"@),
                Some(v) => walk_fields(pre, v, parts, 3),
            },
        }
    }
}

fn ref_prefix_of(name: &str, reference: &str) -> (r: String)
    ensures
        r@ == ref_prefix(name@, reference@),
{
    let mut m = concat3("task '", name, "' ref '");
    m.append(reference);
    m.append("'");
    proof {
        reveal_strlit("task '");
        reveal_strlit("' ref '");
        reveal_strlit("'");
    }
    m
}

/// `pre` followed by `a`, `mid` and `b`.
fn message4(pre: &str, a: &str, mid: &str, b: &str) -> (r: String)
    ensures
        r@ == pre@ + a@ + mid@ + b@,
{
    let mut m = concat3(pre, a, mid);
    m.append(b);
    m
}

/// Resolves a reference to the output of a dependency of task `task_name`.
pub fn resolve_ref_path(
    task_name: &str,
    depends_on: &Vec<String>,
    reference: &str,
    run_outputs: Option<&Vec<(String, Json)>>,
) -> (r: Result<Json, String>)
    ensures
        result_view(r) == resolve_ref_spec(task_name@, depends_on@, reference@, outputs_view(run_outputs)),
{
    let parts = split_on(reference, '.');
    let ghost ps = split_char(reference@, '.');
    proof {
        reveal_strlit("tasks");
        reveal_strlit("output");
        reveal_strlit("task '");
        reveal_strlit("' has unsupported ref '");
        reveal_strlit("': expected tasks.<task>.output[.<field>...]");
        reveal_strlit(" targets task '");
        reveal_strlit("' which is not listed in depends_on");
        reveal_strlit(" cannot be resolved: run outputs are unavailable");
        reveal_strlit(" cannot be resolved: no output for dependency '");
        reveal_strlit("'");
        reveal_strlit(" missing field '");
        reveal_strlit(" cannot access field '");
        reveal_strlit("' on non-object value");
        assert(strs_view(parts@) == ps);
    }
    if parts.len() < 3 || !str_eq(parts[0].as_str(), "tasks") || !str_eq(parts[2].as_str(), "output") {
        let mut m = concat3("task '", task_name, "' has unsupported ref '");
        m.append(reference);
        m.append("': expected tasks.<task>.output[.<field>...]");
        return Err(m);
    }
    let pre = ref_prefix_of(task_name, reference);
    let dep_task = &parts[1];
    assert(dep_task@ == ps[1]);
    if !deps_contain(depends_on, dep_task.as_str()) {
        return Err(
            message4(
                pre.as_str(),
                " targets task '",
                dep_task.as_str(),
                "' which is not listed in depends_on",
            ),
        );
    }
    let outputs = match run_outputs {
        None => {
            return Err(concat2(pre.as_str(), " cannot be resolved: run outputs are unavailable"));
        },
        Some(o) => o,
    };
    let mut value = match entries_find(outputs, dep_task.as_str()) {
        None => {
            return Err(
                message4(
                    pre.as_str(),
                    " cannot be resolved: no output for dependency '",
                    dep_task.as_str(),
                    "'",
                ),
            );
        },
        Some(k) => outputs[k].1.deep_clone(),
    };
    let ghost v0 = value@;
    let ghost target = resolve_ref_spec(task_name@, depends_on@, reference@, outputs_view(run_outputs));
    assert(target == walk_fields(pre@, v0, ps, 3));
    let mut i: usize = 3;
    while i < parts.len()
        invariant
            target == resolve_ref_spec(task_name@, depends_on@, reference@, outputs_view(run_outputs)),
            target == walk_fields(pre@, v0, ps, 3),
            strs_view(parts@) == ps,
            3 <= i <= parts.len(),
            walk_fields(pre@, v0, ps, 3) == walk_fields(pre@, value@, ps, i as int),
        decreases parts.len() - i,
    {
        let seg = &parts[i];
        assert(seg@ == ps[i as int]);
        let next = match value.as_object() {
            None => {
                return Err(
                    message4(
                        pre.as_str(),
                        " cannot access field '",
                        seg.as_str(),
                        "' on non-object value",
                    ),
                );
            },
            Some(obj) => match entries_find(obj, seg.as_str()) {
                None => {
                    return Err(message4(pre.as_str(), " missing field '", seg.as_str(), "'"));
                },
                Some(j) => obj[j].1.deep_clone(),
            },
        };
        value = next;
        i = i + 1;
    }
    Ok(value)
}

/// What one binding gives: the `const` value, or the value its `ref` names.
pub open spec fn binding_value(
    name: Seq<char>,
    deps: Seq<String>,
    arg: Seq<char>,
    b: JsonV,
    outputs: Option<Seq<(Seq<char>, JsonV)>>,
) -> Result<JsonV, Seq<char>> {
    match b {
        JsonV::Object(e) => {
            let hc = has_key(e, "const"@);
            let hr = has_key(e, "ref"@);
            if hc && !hr {
                Ok(entries_get(e, "const"@)->0)
            } else if !hc && hr {
                match as_str_spec(entries_get(e, "ref"@)->0) {
                    Some(r) => resolve_ref_spec(name, deps, r, outputs),
                    None => Err("task '"@ + name + "' binding '"@ + arg + ".ref' must be a string path"@),
                }
            } else {
                Err("task '"@ + name + "' binding '"@ + arg + "' must define exactly one of: const, ref"@)
            }
        },
        _ => Err(
            "task '"@ + name + "' binding '"@ + arg + "' must be an object with one of: const, ref"@,
        ),
    }
}

/// The bindings from `k` on resolved into `acc`, or the first failure.
pub open spec fn resolve_bindings_spec(
    name: Seq<char>,
    deps: Seq<String>,
    bindings: Seq<(Seq<char>, JsonV)>,
    outputs: Option<Seq<(Seq<char>, JsonV)>>,
    k: int,
    acc: Seq<(Seq<char>, JsonV)>,
) -> Result<Seq<(Seq<char>, JsonV)>, Seq<char>>
    decreases bindings.len() - k,
{
    if k < 0 || k >= bindings.len() {
        Ok(acc)
    } else {
        match binding_value(name, deps, bindings[k].0, bindings[k].1, outputs) {
            Ok(v) => resolve_bindings_spec(
                name,
                deps,
                bindings,
                outputs,
                k + 1,
                entries_insert(acc, bindings[k].0, v),
            ),
            Err(m) => Err(m),
        }
    }
}

/// The parameters with their `task_bindings` resolved into `task_input`.
pub open spec fn bound_params(
    params: Seq<(Seq<char>, JsonV)>,
    name: Seq<char>,
    deps: Seq<String>,
    outputs: Option<Seq<(Seq<char>, JsonV)>>,
) -> Result<Seq<(Seq<char>, JsonV)>, Seq<char>> {
    match entries_get(params, "task_bindings"@) {
        None => Ok(params),
        Some(JsonV::Object(b)) => match resolve_bindings_spec(name, deps, b, outputs, 0, Seq::empty()) {
            Ok(resolved) => Ok(entries_insert(params, "task_input"@, JsonV::Object(resolved))),
            Err(m) => Err(m),
        },
        Some(_) => Err("task_bindings must be an object for task '"@ + name + "'"@),
    }
}

/// `task '<name>' binding '<arg><tail>`
fn binding_message(name: &str, arg: &str, tail: &str) -> (r: String)
    ensures
        r@ == "task '"@ + name@ + "' binding '"@ + arg@ + tail@,
{
    let mut m = concat3("task '", name, "' binding '");
    m.append(arg);
    m.append(tail);
    proof {
        reveal_strlit("task '");
        reveal_strlit("' binding '");
    }
    m
}

fn binding_value_of(
    name: &str,
    deps: &Vec<String>,
    arg: &str,
    b: &Json,
    outputs: Option<&Vec<(String, Json)>>,
) -> (r: Result<Json, String>)
    ensures
        result_view(r) == binding_value(name@, deps@, arg@, b@, outputs_view(outputs)),
{
    proof {
        reveal_strlit("const");
        reveal_strlit("ref");
        reveal_strlit("task '");
        reveal_strlit("' binding '");
        reveal_strlit(".ref' must be a string path");
        reveal_strlit("' must define exactly one of: const, ref");
        reveal_strlit("' must be an object with one of: const, ref");
    }
    match b.as_object() {
        None => Err(binding_message(name, arg, "' must be an object with one of: const, ref")),
        Some(e) => {
            let c = entries_find(e, "const");
            let rf = entries_find(e, "ref");
            proof {
                match c {
                    Some(k) => lemma_first_key(entries_view(e@), "const"@, k as int),
                    None => {},
                }
                match rf {
                    Some(k) => lemma_first_key(entries_view(e@), "ref"@, k as int),
                    None => {},
                }
            }
            match (c, rf) {
                (Some(k), None) => Ok(e[k].1.deep_clone()),
                (None, Some(k)) => match e[k].1.as_str() {
                    Some(s) => resolve_ref_path(name, deps, s.as_str(), outputs),
                    None => Err(binding_message(name, arg, ".ref' must be a string path")),
                },
                _ => Err(binding_message(name, arg, "' must define exactly one of: const, ref")),
            }
        },
    }
}

/// Resolves the task's `task_bindings` against the outputs of its run and sets the result
/// as `task_input`; on failure the parameters are left as they were.
pub fn resolve_bindings_for_task(
    params: &mut Vec<(String, Json)>,
    task_name: &str,
    depends_on: &Vec<String>,
    run_outputs: Option<&Vec<(String, Json)>>,
) -> (r: Result<(), String>)
    ensures
        match bound_params(entries_view(old(params)@), task_name@, depends_on@, outputs_view(run_outputs)) {
            Ok(p) => r is Ok && entries_view(final(params)@) == p,
            Err(m) => r matches Err(e) && e@ == m && final(params)@ == old(params)@,
        },
{
    proof {
        reveal_strlit("task_bindings");
        reveal_strlit("task_input");
        reveal_strlit("task_bindings must be an object for task '");
        reveal_strlit("'");
    }
    let bindings = match entries_find(params, "task_bindings") {
        None => {
            return Ok(());
        },
        Some(k) => params[k].1.deep_clone(),
    };
    let b = match bindings.as_object() {
        None => {
            return Err(concat3("task_bindings must be an object for task '", task_name, "'"));
        },
        Some(b) => b,
    };
    let ghost bv = entries_view(b@);
    let ghost ov = outputs_view(run_outputs);
    let mut resolved: Vec<(String, Json)> = Vec::new();
    proof {
        assert(entries_view(resolved@) =~= Seq::empty());
    }
    let ghost old_view = entries_view(params@);
    assert(entries_get(old_view, "task_bindings"@) == Some(JsonV::Object(bv)));
    let mut k: usize = 0;
    while k < b.len()
        invariant
            bv == entries_view(b@),
            ov == outputs_view(run_outputs),
            params@ == old(params)@,
            old_view == entries_view(params@),
            entries_get(old_view, "task_bindings"@) == Some(JsonV::Object(bv)),
            k <= b.len(),
            resolve_bindings_spec(task_name@, depends_on@, bv, ov, 0, Seq::empty())
                == resolve_bindings_spec(task_name@, depends_on@, bv, ov, k as int, entries_view(resolved@)),
        decreases b.len() - k,
    {
        assert(bv[k as int] == (b@[k as int].0@, b@[k as int].1@));
        match binding_value_of(task_name, depends_on, b[k].0.as_str(), &b[k].1, run_outputs) {
            Ok(v) => {
                entries_set(&mut resolved, b[k].0.clone(), v);
            },
            Err(m) => {
                return Err(m);
            },
        }
        k = k + 1;
    }
    proof {
        lemma_object_view(resolved);
    }
    entries_set(params, "task_input".to_owned(), Json::Object(resolved));
    Ok(())
}

// ---------------------------------------------------------------------------------------
// Dispatch
// ---------------------------------------------------------------------------------------
/// The attempt a dispatch starts: one more than those made, and at least the first.
pub open spec fn attempt_of(attempts: i32) -> int {
    let a: int = if attempts == i32::MAX {
        i32::MAX as int
    } else {
        attempts + 1
    };
    if a < 1 {
        1
    } else {
        a
    }
}

/// Sets `env.ORK_ATTEMPT`; an `env` that is missing or not an object becomes one.
pub open spec fn with_attempt_env(e: Seq<(Seq<char>, JsonV)>, attempt: int) -> Seq<(Seq<char>, JsonV)> {
    let env = match entries_get(e, "env"@) {
        Some(JsonV::Object(x)) => x,
        _ => Seq::empty(),
    };
    entries_insert(e, "env"@, JsonV::Object(entries_insert(env, "ORK_ATTEMPT"@, int_json(attempt))))
}

/// The outputs of the given dependencies in the run, by name: each one's recorded
/// output, null when it has none.
pub open spec fn upstream_object(deps: Seq<String>, outputs: Option<Seq<(Seq<char>, JsonV)>>) -> Seq<
    (Seq<char>, JsonV),
>
    decreases deps.len(),
{
    if deps.len() == 0 {
        Seq::empty()
    } else {
        let name = deps.last()@;
        let v = match outputs {
            Some(o) => match entries_get(o, name) {
                Some(x) => x,
                None => JsonV::Null,
            },
            None => JsonV::Null,
        };
        entries_insert(upstream_object(deps.drop_last(), outputs), name, v)
    }
}

/// A task input that is absent, null or an empty object is given the upstream outputs.
pub open spec fn takes_upstream_input(e: Seq<(Seq<char>, JsonV)>) -> bool {
    match entries_get(e, "task_input"@) {
        None => true,
        Some(JsonV::Null) => true,
        Some(JsonV::Object(x)) => x.len() == 0,
        _ => false,
    }
}

/// A task with dependencies gets their outputs under `upstream`, and an input of
/// `{"upstream": ...}` when it has none of its own; a task without dependencies is left
/// as it is.
pub open spec fn with_upstream(
    e: Seq<(Seq<char>, JsonV)>,
    deps: Seq<String>,
    outputs: Option<Seq<(Seq<char>, JsonV)>>,
) -> Seq<(Seq<char>, JsonV)> {
    if deps.len() == 0 {
        e
    } else {
        let up = JsonV::Object(upstream_object(deps, outputs));
        let e1 = entries_insert(e, "upstream"@, up);
        if takes_upstream_input(e) {
            entries_insert(e1, "task_input"@, JsonV::Object(seq![("upstream"@, up)]))
        } else {
            e1
        }
    }
}

/// The parameters a task is executed with.
pub open spec fn dispatch_params(
    task: TaskWithWorkflow,
    outputs: Option<Seq<(Seq<char>, JsonV)>>,
) -> Result<JsonV, Seq<char>> {
    let e = with_upstream(
        with_attempt_env(object_or_empty(opt_json(task.params)), attempt_of(task.attempts)),
        task.depends_on@,
        outputs,
    );
    match bound_params(e, task.task_name@, task.depends_on@, outputs) {
        Ok(p) => Ok(JsonV::Object(p)),
        Err(m) => Err(m),
    }
}

/// The first workflow with the given id.
pub open spec fn workflow_position(ws: Seq<Workflow>, id: u128) -> Option<int>
    decreases ws.len(),
{
    if ws.len() == 0 {
        None
    } else {
        match workflow_position(ws.drop_last(), id) {
            Some(i) => Some(i),
            None => if ws.last().id == id {
                Some(ws.len() - 1)
            } else {
                None
            },
        }
    }
}

/// The outputs recorded for a run.
pub open spec fn run_outputs_of(o: Seq<(u128, Vec<(String, Json)>)>, run: u128) -> Option<
    Seq<(Seq<char>, JsonV)>,
>
    decreases o.len(),
{
    if o.len() == 0 {
        None
    } else {
        match run_outputs_of(o.drop_last(), run) {
            Some(v) => Some(v),
            None => if o.last().0 == run {
                Some(entries_view(o.last().1@))
            } else {
                None
            },
        }
    }
}

pub open spec fn not_pending_message(task: TaskWithWorkflow) -> Seq<char> {
    "refusing to dispatch task "@ + uuid_text(task.task_id) + " in non-pending status "@
        + task_status_text(task.task_status)
}

pub open spec fn missing_workflow_message(task: TaskWithWorkflow) -> Seq<char> {
    "workflow "@ + uuid_text(task.workflow_id) + " not found for task "@ + uuid_text(task.task_id)
}

/// What a task is executed with: its workflow (by position), job name and parameters.
#[derive(Debug)]
pub struct Dispatch {
    pub workflow_index: usize,
    pub job_name: String,
    pub params: Json,
}

/// How a dispatch turns out: the workflow's position, the job name and the parameters, or
/// why the task is not dispatched.
pub open spec fn dispatch_outcome(
    task: TaskWithWorkflow,
    workflows: Seq<Workflow>,
    outputs_by_run: Seq<(u128, Vec<(String, Json)>)>,
) -> Result<(int, Seq<char>, JsonV), Seq<char>> {
    if task.task_status != TaskStatus::Pending {
        Err(not_pending_message(task))
    } else {
        match workflow_position(workflows, task.workflow_id) {
            None => Err(missing_workflow_message(task)),
            Some(w) => match dispatch_params(task, run_outputs_of(outputs_by_run, task.run_id)) {
                Ok(p) => Ok((w, job_name_for(opt_json(task.params), task.job_name@), p)),
                Err(m) => Err(m),
            },
        }
    }
}

pub open spec fn dispatch_view(r: Result<Dispatch, String>) -> Result<(int, Seq<char>, JsonV), Seq<char>> {
    match r {
        Ok(d) => Ok((d.workflow_index as int, d.job_name@, d.params@)),
        Err(m) => Err(m@),
    }
}

fn find_workflow(ws: &Vec<Workflow>, id: u128) -> (r: Option<usize>)
    ensures
        r is None <==> workflow_position(ws@, id) is None,
        r matches Some(i) ==> workflow_position(ws@, id) == Some(i as int),
{
    let mut i: usize = 0;
    while i < ws.len()
        invariant
            i <= ws.len(),
            workflow_position(ws@.take(i as int), id) is None,
        decreases ws.len() - i,
    {
        proof {
            assert(ws@.take(i + 1).drop_last() =~= ws@.take(i as int));
        }
        if ws[i].id == id {
            proof {
                lemma_position_prefix(ws@, id, (i + 1) as int);
            }
            return Some(i);
        }
        i = i + 1;
    }
    assert(ws@.take(ws.len() as int) =~= ws@);
    None
}

proof fn lemma_position_prefix(ws: Seq<Workflow>, id: u128, n: int)
    requires
        0 < n <= ws.len(),
        workflow_position(ws.take(n), id) is Some,
    ensures
        workflow_position(ws, id) == workflow_position(ws.take(n), id),
    decreases ws.len() - n,
{
    if n < ws.len() {
        assert(ws.take(n + 1).drop_last() =~= ws.take(n));
        lemma_position_prefix(ws, id, n + 1);
    } else {
        assert(ws.take(n) =~= ws);
    }
}

fn find_run_outputs(o: &Vec<(u128, Vec<(String, Json)>)>, run: u128) -> (r: Option<usize>)
    ensures
        match run_outputs_of(o@, run) {
            Some(v) => r matches Some(i) && i < o.len() && entries_view(o@[i as int].1@) == v,
            None => r is None,
        },
{
    let mut i: usize = 0;
    while i < o.len()
        invariant
            i <= o.len(),
            run_outputs_of(o@.take(i as int), run) is None,
        decreases o.len() - i,
    {
        proof {
            assert(o@.take(i + 1).drop_last() =~= o@.take(i as int));
        }
        if o[i].0 == run {
            proof {
                lemma_outputs_prefix(o@, run, (i + 1) as int);
            }
            return Some(i);
        }
        i = i + 1;
    }
    assert(o@.take(o.len() as int) =~= o@);
    None
}

proof fn lemma_outputs_prefix(o: Seq<(u128, Vec<(String, Json)>)>, run: u128, n: int)
    requires
        0 < n <= o.len(),
        run_outputs_of(o.take(n), run) is Some,
    ensures
        run_outputs_of(o, run) == run_outputs_of(o.take(n), run),
    decreases o.len() - n,
{
    if n < o.len() {
        assert(o.take(n + 1).drop_last() =~= o.take(n));
        lemma_outputs_prefix(o, run, n + 1);
    } else {
        assert(o.take(n) =~= o);
    }
}

fn status_is_pending(s: TaskStatus) -> (r: bool)
    ensures
        r == (s == TaskStatus::Pending),
{
    match s {
        TaskStatus::Pending => true,
        _ => false,
    }
}

/// The upstream outputs of the given dependencies (see `upstream_object`).
fn upstream_entries_of(deps: &Vec<String>, outputs: Option<&Vec<(String, Json)>>) -> (r: Vec<(String, Json)>)
    ensures
        entries_view(r@) == upstream_object(deps@, outputs_view(outputs)),
{
    let mut r: Vec<(String, Json)> = Vec::new();
    let mut i: usize = 0;
    assert(deps@.take(0) =~= Seq::<String>::empty());
    while i < deps.len()
        invariant
            i <= deps.len(),
            entries_view(r@) == upstream_object(deps@.take(i as int), outputs_view(outputs)),
        decreases deps.len() - i,
    {
        let name = &deps[i];
        let v = match outputs {
            Some(o) => match entries_find(o, name.as_str()) {
                Some(k) => o[k].1.deep_clone(),
                None => Json::Null,
            },
            None => Json::Null,
        };
        proof {
            assert(deps@.take(i + 1).drop_last() =~= deps@.take(i as int));
            assert(deps@.take(i + 1).last() == deps@[i as int]);
        }
        entries_set(&mut r, name.clone(), v);
        i = i + 1;
    }
    assert(deps@.take(deps.len() as int) =~= deps@);
    r
}

fn takes_upstream_input_of(e: &Vec<(String, Json)>) -> (r: bool)
    ensures
        r == takes_upstream_input(entries_view(e@)),
{
    match entries_find(e, "task_input") {
        None => true,
        Some(k) => match &e[k].1 {
            Json::Null => true,
            Json::Object(x) => {
                proof {
                    lemma_object_view(*x);
                }
                x.len() == 0
            },
            _ => false,
        },
    }
}

/// Gives a task with dependencies their outputs (see `with_upstream`).
fn add_upstream(e: &mut Vec<(String, Json)>, deps: &Vec<String>, outputs: Option<&Vec<(String, Json)>>)
    ensures
        entries_view(final(e)@) == with_upstream(entries_view(old(e)@), deps@, outputs_view(outputs)),
{
    if deps.len() == 0 {
        return;
    }
    let up = Json::Object(upstream_entries_of(deps, outputs));
    proof {
        lemma_object_view(up->Object_0);
    }
    let ghost upv = up@;
    let needs = takes_upstream_input_of(e);
    let mut inner: Vec<(String, Json)> = Vec::new();
    inner.push(("upstream".to_owned(), up.deep_clone()));
    entries_set(e, "upstream".to_owned(), up);
    if needs {
        proof {
            lemma_object_view(inner);
            assert(entries_view(inner@) =~= seq![("upstream"@, upv)]);
        }
        entries_set(e, "task_input".to_owned(), Json::Object(inner));
    }
}

/// Decides whether a task can be dispatched and prepares what it is executed with: only a
/// pending task of a known workflow is dispatched; its parameters carry the attempt number
/// in `env.ORK_ATTEMPT`, the outputs of its dependencies under `upstream` (also as its
/// input when it has none), and its input bindings resolved against the outputs of its
/// run.
pub fn prepare_dispatch(
    task: &TaskWithWorkflow,
    workflows: &Vec<Workflow>,
    outputs_by_run: &Vec<(u128, Vec<(String, Json)>)>,
) -> (r: Result<Dispatch, String>)
    ensures
        dispatch_view(r) == dispatch_outcome(*task, workflows@, outputs_by_run@),
{
    proof {
        reveal_strlit("refusing to dispatch task ");
        reveal_strlit(" in non-pending status ");
        reveal_strlit("workflow ");
        reveal_strlit(" not found for task ");
        reveal_strlit("env");
        reveal_strlit("ORK_ATTEMPT");
    }
    if !status_is_pending(task.task_status) {
        let id = uuid_string(task.task_id);
        return Err(
            message4("refusing to dispatch task ", id.as_str(), " in non-pending status ", task.task_status.as_str()),
        );
    }
    let w = match find_workflow(workflows, task.workflow_id) {
        None => {
            let wid = uuid_string(task.workflow_id);
            let tid = uuid_string(task.task_id);
            return Err(message4("workflow ", wid.as_str(), " not found for task ", tid.as_str()));
        },
        Some(w) => w,
    };
    let job_name = resolve_job_name(task);
    let mut e = object_entries(task.params.as_ref());
    let ghost e0 = entries_view(e@);
    assert(e0 == object_or_empty(opt_json(task.params)));
    let attempt: i32 = if task.attempts == 2147483647 {
        2147483647
    } else {
        task.attempts + 1
    };
    let attempt: i32 = if attempt < 1 {
        1
    } else {
        attempt
    };
    assert(attempt as int == attempt_of(task.attempts));
    let mut env = match entries_find(&e, "env") {
        Some(k) => object_entries(Some(&e[k].1)),
        None => Vec::new(),
    };
    proof {
        let ev = entries_get(e0, "env"@);
        if ev is None {
            assert(entries_view(env@) =~= Seq::empty());
        }
        assert(entries_view(env@) == match ev {
            Some(JsonV::Object(x)) => x,
            _ => Seq::<(Seq<char>, JsonV)>::empty(),
        });
    }
    entries_set(&mut env, "ORK_ATTEMPT".to_owned(), int_json_of(attempt));
    proof {
        lemma_object_view(env);
    }
    entries_set(&mut e, "env".to_owned(), Json::Object(env));
    assert(entries_view(e@) == with_attempt_env(e0, attempt_of(task.attempts)));
    let outputs = match find_run_outputs(outputs_by_run, task.run_id) {
        Some(i) => Some(&outputs_by_run[i].1),
        None => None,
    };
    assert(outputs_view(outputs) == run_outputs_of(outputs_by_run@, task.run_id));
    add_upstream(&mut e, &task.depends_on, outputs);
    let ghost before = entries_view(e@);
    match resolve_bindings_for_task(&mut e, task.task_name.as_str(), &task.depends_on, outputs) {
        Ok(()) => {},
        Err(m) => {
            return Err(m);
        },
    }
    proof {
        lemma_object_view(e);
        assert(bound_params(before, task.task_name@, task.depends_on@, run_outputs_of(outputs_by_run@, task.run_id)) == Ok::<Seq<(Seq<char>, JsonV)>, Seq<char>>(entries_view(e@)));
        assert(workflow_position(workflows@, task.workflow_id) == Some(w as int));
    }
    Ok(Dispatch { workflow_index: w, job_name, params: Json::Object(e) })
}

} // verus!
