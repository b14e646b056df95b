//! Decisions of the local runner: which tasks are ready or must be skipped, what a failure
//! does to the run (a retry, or the failure of the task and the skipping of everything
//! downstream of it), and the status a finished run gets.
use indexmap::IndexMap;
use vstd::prelude::*;

use crate::compiled::{compiled_graph, CompiledTask, CompiledWorkflow};
use crate::graph::ints;
use crate::ids::{new_uuid, random_v4, uuid_string, uuid_text};
use crate::json::{Json, JsonV};
use crate::keyed::entries_insert;
use crate::maps::{value_entries, value_map_insert, value_map_new};
use crate::text::{concat3, decimal, i64_to_decimal, signed_decimal, u64_to_decimal};
use crate::types::RunStatus;

verus! {

/// The state of a task while a workflow runs locally.
#[derive(Debug, PartialEq)]
pub enum LocalTaskState {
    Pending,
    Running { attempt: u32 },
    Success { attempt: u32, output: Option<Json> },
    Failed { attempt: u32, error: String },
    Skipped { reason: String },
}

/// Where a task runs and what it is told about itself.
#[derive(Debug)]
pub struct TaskContext {
    pub workflow_name: String,
    pub task_name: String,
    pub run_id: String,
    pub attempt: u32,
    pub task_dir: String,
    pub spec_path: String,
    pub output_path: String,
}

/// How a task's process ended.
#[derive(Debug, Clone, PartialEq, Eq)]
pub enum TaskExecutionStatus {
    Success,
    Failed(String),
    TimedOut,
}

/// The indices `k < n` for which `p(k)` holds, in increasing order.
pub open spec fn indices_where(n: int, p: spec_fn(int) -> bool) -> Seq<int>
    decreases n,
{
    if n <= 0 {
        Seq::empty()
    } else {
        indices_where(n - 1, p) + (if p(n - 1) {
            seq![n - 1]
        } else {
            Seq::empty()
        })
    }
}

pub open spec fn state_at(states: Seq<LocalTaskState>, i: int) -> Option<LocalTaskState> {
    if 0 <= i < states.len() {
        Some(states[i])
    } else {
        None
    }
}

pub open spec fn succeeded(states: Seq<LocalTaskState>, i: int) -> bool {
    match state_at(states, i) {
        Some(LocalTaskState::Success { .. }) => true,
        _ => false,
    }
}

pub open spec fn failed_or_skipped(states: Seq<LocalTaskState>, i: int) -> bool {
    match state_at(states, i) {
        Some(LocalTaskState::Failed { .. }) => true,
        Some(LocalTaskState::Skipped { .. }) => true,
        _ => false,
    }
}

/// A pending task all of whose dependencies succeeded.
pub open spec fn is_ready(t: CompiledTask, states: Seq<LocalTaskState>, k: int) -> bool {
    &&& states[k] is Pending
    &&& forall|j: int| 0 <= j < t.depends_on.len() ==> succeeded(states, #[trigger] t.depends_on@[j] as int)
}

/// A pending task that is not ready and has a dependency that failed or was skipped.
pub open spec fn must_skip(t: CompiledTask, states: Seq<LocalTaskState>, k: int) -> bool {
    &&& states[k] is Pending
    &&& !is_ready(t, states, k)
    &&& exists|j: int|
        0 <= j < t.depends_on.len() && failed_or_skipped(states, #[trigger] t.depends_on@[j] as int)
}

proof fn lemma_indices_step(n: int, p: spec_fn(int) -> bool)
    requires
        n >= 0,
    ensures
        indices_where(n + 1, p) == indices_where(n, p) + (if p(n) {
            seq![n]
        } else {
            Seq::<int>::empty()
        }),
{
}

fn all_deps_succeeded(t: &CompiledTask, states: &Vec<LocalTaskState>) -> (r: bool)
    ensures
        r == (forall|j: int| 0 <= j < t.depends_on.len() ==> succeeded(states@, #[trigger] t.depends_on@[j] as int)),
{
    let mut j: usize = 0;
    while j < t.depends_on.len()
        invariant
            j <= t.depends_on.len(),
            forall|i: int| 0 <= i < j ==> succeeded(states@, #[trigger] t.depends_on@[i] as int),
        decreases t.depends_on.len() - j,
    {
        let d = t.depends_on[j];
        let ok = d < states.len() && match &states[d] {
            LocalTaskState::Success { .. } => true,
            _ => false,
        };
        if !ok {
            assert(!succeeded(states@, t.depends_on@[j as int] as int));
            return false;
        }
        j = j + 1;
    }
    true
}

fn any_dep_failed(t: &CompiledTask, states: &Vec<LocalTaskState>) -> (r: bool)
    ensures
        r == (exists|j: int|
            0 <= j < t.depends_on.len() && failed_or_skipped(states@, #[trigger] t.depends_on@[j] as int)),
{
    let mut j: usize = 0;
    while j < t.depends_on.len()
        invariant
            j <= t.depends_on.len(),
            forall|i: int| 0 <= i < j ==> !failed_or_skipped(states@, #[trigger] t.depends_on@[i] as int),
        decreases t.depends_on.len() - j,
    {
        let d = t.depends_on[j];
        let bad = d < states.len() && match &states[d] {
            LocalTaskState::Failed { .. } => true,
            LocalTaskState::Skipped { .. } => true,
            _ => false,
        };
        if bad {
            assert(failed_or_skipped(states@, t.depends_on@[j as int] as int));
            return true;
        }
        j = j + 1;
    }
    false
}

/// The pending tasks that are ready to run, and those that must be skipped, each in index
/// order.
pub fn classify_tasks(workflow: &CompiledWorkflow, states: &Vec<LocalTaskState>) -> (r: (
    Vec<usize>,
    Vec<usize>,
))
    requires
        forall|k: int| workflow.tasks.len() <= k < states.len() ==> !(#[trigger] states@[k] is Pending),
    ensures
        ints(r.0@) == indices_where(
            states.len() as int,
            |k: int| is_ready(workflow.tasks@[k], states@, k),
        ),
        ints(r.1@) == indices_where(
            states.len() as int,
            |k: int| must_skip(workflow.tasks@[k], states@, k),
        ),
{
    let ghost pr = |k: int| is_ready(workflow.tasks@[k], states@, k);
    let ghost ps = |k: int| must_skip(workflow.tasks@[k], states@, k);
    let mut ready: Vec<usize> = Vec::new();
    let mut to_skip: Vec<usize> = Vec::new();
    let mut idx: usize = 0;
    while idx < states.len()
        invariant
            forall|k: int| workflow.tasks.len() <= k < states.len() ==> !(#[trigger] states@[k] is Pending),
            idx <= states.len(),
            pr == (|k: int| is_ready(workflow.tasks@[k], states@, k)),
            ps == (|k: int| must_skip(workflow.tasks@[k], states@, k)),
            ints(ready@) == indices_where(idx as int, pr),
            ints(to_skip@) == indices_where(idx as int, ps),
        decreases states.len() - idx,
    {
        proof {
            lemma_indices_step(idx as int, pr);
            lemma_indices_step(idx as int, ps);
        }
        let ghost r0 = ints(ready@);
        let ghost s0 = ints(to_skip@);
        let pending = match &states[idx] {
            LocalTaskState::Pending => true,
            _ => false,
        };
        if pending {
            let task = &workflow.tasks[idx];
            if all_deps_succeeded(task, states) {
                ready.push(idx);
                assert(ints(ready@) =~= r0.push(idx as int));
                assert(ints(to_skip@) =~= s0);
            } else if any_dep_failed(task, states) {
                to_skip.push(idx);
                assert(ints(to_skip@) =~= s0.push(idx as int));
                assert(ints(ready@) =~= r0);
            } else {
                assert(ints(ready@) =~= r0);
                assert(ints(to_skip@) =~= s0);
            }
        } else {
            assert(ints(ready@) =~= r0);
            assert(ints(to_skip@) =~= s0);
        }
        idx = idx + 1;
    }
    (ready, to_skip)
}

/// The outputs of the task's dependencies that produced one, by dependency name, in the
/// order of `depends_on` (a name set twice keeps its first place and its last value).
pub open spec fn upstream_entries(
    tasks: Seq<CompiledTask>,
    deps: Seq<usize>,
    outputs: Seq<Option<Json>>,
) -> Seq<(Seq<char>, JsonV)>
    decreases deps.len(),
{
    if deps.len() == 0 {
        Seq::empty()
    } else {
        let before = upstream_entries(tasks, deps.drop_last(), outputs);
        let d = deps.last() as int;
        if 0 <= d < outputs.len() && outputs[d] is Some {
            entries_insert(before, tasks[d].name@, outputs[d]->0@)
        } else {
            before
        }
    }
}

/// A dependency whose output is known names a task of the workflow.
pub open spec fn upstream_known(tasks: Seq<CompiledTask>, dep: usize, outputs: Seq<Option<Json>>) -> bool {
    dep < outputs.len() && outputs[dep as int] is Some ==> dep < tasks.len()
}

/// The outputs of a task's dependencies, by name.
pub fn collect_upstream_outputs(
    task_idx: usize,
    workflow: &CompiledWorkflow,
    outputs: &Vec<Option<Json>>,
) -> (r: IndexMap<String, Json>)
    requires
        task_idx < workflow.tasks.len() ==> forall|j: int|
            0 <= j < workflow.tasks@[task_idx as int].depends_on.len() ==> upstream_known(
                workflow.tasks@,
                #[trigger] workflow.tasks@[task_idx as int].depends_on@[j],
                outputs@,
            ),
    ensures
        value_entries(r) == (if task_idx < workflow.tasks.len() {
            upstream_entries(workflow.tasks@, workflow.tasks@[task_idx as int].depends_on@, outputs@)
        } else {
            Seq::empty()
        }),
{
    let mut upstream = value_map_new();
    if task_idx < workflow.tasks.len() {
        let task = &workflow.tasks[task_idx];
        let mut j: usize = 0;
        while j < task.depends_on.len()
            invariant
                task_idx < workflow.tasks.len(),
                *task == workflow.tasks@[task_idx as int],
                forall|jj: int|
                    0 <= jj < task.depends_on.len() ==> upstream_known(
                        workflow.tasks@,
                        #[trigger] task.depends_on@[jj],
                        outputs@,
                    ),
                j <= task.depends_on.len(),
                value_entries(upstream) == upstream_entries(
                    workflow.tasks@,
                    task.depends_on@.take(j as int),
                    outputs@,
                ),
            decreases task.depends_on.len() - j,
        {
            let dep = task.depends_on[j];
            proof {
                assert(upstream_known(workflow.tasks@, task.depends_on@[j as int], outputs@));
                assert(task.depends_on@.take(j + 1).drop_last() =~= task.depends_on@.take(j as int));
            }
            if dep < outputs.len() {
                match &outputs[dep] {
                    Some(value) => {
                        let name = workflow.tasks[dep].name.clone();
                        value_map_insert(&mut upstream, name, value.deep_clone());
                    },
                    None => {},
                }
            }
            j = j + 1;
        }
        assert(task.depends_on@.take(j as int) =~= task.depends_on@);
    }
    upstream
}

// ---------------------------------------------------------------------------------------
// Skipping downstream tasks
// ---------------------------------------------------------------------------------------
/// Task `b` depends directly on task `a`.
pub open spec fn depends_directly(g: Seq<Seq<int>>, b: int, a: int) -> bool {
    0 <= b < g.len() && g[b].contains(a)
}

/// A chain of tasks, each depending directly on the one before.
pub open spec fn is_chain(g: Seq<Seq<int>>, p: Seq<int>) -> bool {
    &&& p.len() >= 2
    &&& forall|i: int| 0 <= i < p.len() - 1 ==> depends_directly(g, #[trigger] p[i + 1], p[i])
}

/// Task `t` depends on task `src`, directly or through other tasks.
pub open spec fn downstream(g: Seq<Seq<int>>, src: int, t: int) -> bool {
    exists|p: Seq<int>| #[trigger] is_chain(g, p) && p[0] == src && p.last() == t
}

pub open spec fn skip_reason(name: Seq<char>) -> Seq<char> {
    "dependency "@ + name + " failed"@
}

pub open spec fn is_skipped_with(s: LocalTaskState, reason: Seq<char>) -> bool {
    match s {
        LocalTaskState::Skipped { reason: r } => r@ == reason,
        _ => false,
    }
}

/// State `k` after skipping what is downstream of `src`: a pending task downstream of it
/// is skipped with `reason`; every other state stays.
pub open spec fn skipped_downstream(
    g: Seq<Seq<int>>,
    src: int,
    before: Seq<LocalTaskState>,
    after: Seq<LocalTaskState>,
    reason: Seq<char>,
) -> bool {
    &&& after.len() == before.len()
    &&& forall|k: int|
        0 <= k < before.len() ==> if downstream(g, src, k) && before[k] is Pending {
            is_skipped_with(#[trigger] after[k], reason)
        } else {
            after[k] == before[k]
        }
}

/// The tasks that depend directly on task `task_idx`, in index order.
pub fn dependents_of(workflow: &CompiledWorkflow, task_idx: usize) -> (r: Vec<usize>)
    ensures
        ints(r@) == indices_where(
            workflow.tasks.len() as int,
            |b: int| depends_directly(compiled_graph(workflow.tasks@), b, task_idx as int),
        ),
{
    let ghost g = compiled_graph(workflow.tasks@);
    let ghost p = |b: int| depends_directly(compiled_graph(workflow.tasks@), b, task_idx as int);
    let mut deps: Vec<usize> = Vec::new();
    let mut idx: usize = 0;
    while idx < workflow.tasks.len()
        invariant
            idx <= workflow.tasks.len(),
            g == compiled_graph(workflow.tasks@),
            p == (|b: int| depends_directly(compiled_graph(workflow.tasks@), b, task_idx as int)),
            ints(deps@) == indices_where(idx as int, p),
        decreases workflow.tasks.len() - idx,
    {
        proof {
            lemma_indices_step(idx as int, p);
        }
        let ghost d0 = ints(deps@);
        let t = &workflow.tasks[idx];
        let mut found = false;
        let mut j: usize = 0;
        while j < t.depends_on.len()
            invariant
                j <= t.depends_on.len(),
                !found ==> forall|i: int| 0 <= i < j ==> t.depends_on@[i] != task_idx,
                found ==> exists|i: int| 0 <= i < t.depends_on.len() && t.depends_on@[i] == task_idx,
            decreases t.depends_on.len() - j,
        {
            if t.depends_on[j] == task_idx {
                found = true;
            }
            j = j + 1;
        }
        proof {
            assert(g[idx as int] == ints(t.depends_on@));
            if found {
                let i = choose|i: int| 0 <= i < t.depends_on.len() && t.depends_on@[i] == task_idx;
                assert(g[idx as int][i] == task_idx as int);
            } else {
                if g[idx as int].contains(task_idx as int) {
                    let i = choose|i: int| 0 <= i < g[idx as int].len() && g[idx as int][i] == task_idx as int;
                    assert(t.depends_on@[i] == task_idx);
                }
            }
        }
        if found {
            deps.push(idx);
            assert(ints(deps@) =~= d0.push(idx as int));
        } else {
            assert(ints(deps@) =~= d0);
        }
        idx = idx + 1;
    }
    deps
}

/// How many entries are `false`.
pub open spec fn count_false(s: Seq<bool>) -> nat
    decreases s.len(),
{
    if s.len() == 0 {
        0
    } else {
        count_false(s.drop_last()) + (if s.last() {
            0nat
        } else {
            1nat
        })
    }
}

proof fn lemma_count_false_set(s: Seq<bool>, i: int)
    requires
        0 <= i < s.len(),
        !s[i],
    ensures
        count_false(s.update(i, true)) + 1 == count_false(s),
    decreases s.len(),
{
    let t = s.update(i, true);
    if i == s.len() - 1 {
        assert(t.drop_last() =~= s.drop_last());
    } else {
        assert(t.drop_last() =~= s.drop_last().update(i, true));
        lemma_count_false_set(s.drop_last(), i);
    }
}

proof fn lemma_chain_extend(g: Seq<Seq<int>>, src: int, x: int, y: int)
    requires
        src == x || downstream(g, src, x),
        depends_directly(g, y, x),
    ensures
        downstream(g, src, y),
{
    if src == x {
        let p = seq![x, y];
        assert(is_chain(g, p));
    } else {
        let p = choose|p: Seq<int>| #[trigger] is_chain(g, p) && p[0] == src && p.last() == x;
        let q = p.push(y);
        assert forall|i: int| 0 <= i < q.len() - 1 implies depends_directly(g, #[trigger] q[i + 1], q[i]) by {
            if i < p.len() - 1 {
                assert(q[i + 1] == p[i + 1]);
            }
        }
        assert(is_chain(g, q));
    }
}

/// Every task reached along a chain from `src` is in a set that holds the direct
/// dependents of `src` and is closed under taking dependents.
proof fn lemma_closed_reaches(g: Seq<Seq<int>>, src: int, visited: Seq<bool>, p: Seq<int>, i: int)
    requires
        visited.len() == g.len(),
        is_chain(g, p),
        p[0] == src,
        1 <= i < p.len(),
        forall|y: int| depends_directly(g, y, src) ==> #[trigger] visited[y],
        forall|v: int, y: int|
            #![trigger visited[v], depends_directly(g, y, v)]
            0 <= v < visited.len() && visited[v] && depends_directly(g, y, v) ==> visited[y],
    ensures
        visited[p[i]],
    decreases i,
{
    let j = i - 1;
    assert(depends_directly(g, p[j + 1], p[j]));
    if i > 1 {
        lemma_closed_reaches(g, src, visited, p, i - 1);
        let h = i - 2;
        assert(depends_directly(g, p[h + 1], p[h]));
        assert(visited[p[j]]);
    }
}

proof fn lemma_indices_member(n: int, p: spec_fn(int) -> bool, y: int)
    requires
        0 <= y < n,
        p(y),
    ensures
        indices_where(n, p).contains(y),
    decreases n,
{
    if y < n - 1 {
        lemma_indices_member(n - 1, p, y);
        let s = indices_where(n - 1, p);
        let i = choose|i: int| 0 <= i < s.len() && s[i] == y;
        assert(indices_where(n, p)[i] == y);
    } else {
        let s = indices_where(n - 1, p);
        assert(indices_where(n, p)[s.len() as int] == y);
    }
}

proof fn lemma_indices_member_rev(n: int, p: spec_fn(int) -> bool, i: int)
    requires
        0 <= i < indices_where(n, p).len(),
    ensures
        0 <= indices_where(n, p)[i] < n,
        p(indices_where(n, p)[i]),
    decreases n,
{
    if n > 0 {
        let s = indices_where(n - 1, p);
        if i < s.len() {
            lemma_indices_member_rev(n - 1, p, i);
            assert(indices_where(n, p)[i] == s[i]);
        }
    }
}

fn skip_downstream(failed_task: usize, workflow: &CompiledWorkflow, states: &mut Vec<LocalTaskState>)
    requires
        failed_task < workflow.tasks.len(),
    ensures
        skipped_downstream(
            compiled_graph(workflow.tasks@),
            failed_task as int,
            old(states)@,
            final(states)@,
            skip_reason(workflow.tasks@[failed_task as int].name@),
        ),
{
    let ghost g = compiled_graph(workflow.tasks@);
    let ghost src = failed_task as int;
    let ghost before = states@;
    let ghost reason = skip_reason(workflow.tasks@[failed_task as int].name@);
    let msg = concat3("dependency ", workflow.tasks[failed_task].name.as_str(), " failed");
    proof {
        reveal_strlit("dependency ");
        reveal_strlit(" failed");
    }
    let n = workflow.tasks.len();
    let mut to_visit = dependents_of(workflow, failed_task);
    let mut visited: Vec<bool> = Vec::new();
    while visited.len() < n
        invariant
            visited.len() <= n,
            forall|k: int| 0 <= k < visited.len() ==> !visited@[k],
        decreases n - visited.len(),
    {
        visited.push(false);
    }
    proof {
        let pd = |b: int| depends_directly(compiled_graph(workflow.tasks@), b, failed_task as int);
        assert forall|y: int| depends_directly(g, y, src) implies #[trigger] visited@[y] || to_visit@.contains(
            y as usize,
        ) by {
            assert(0 <= y < n);
            lemma_indices_member(n as int, pd, y);
            let i = choose|i: int| 0 <= i < ints(to_visit@).len() && ints(to_visit@)[i] == y;
            assert(to_visit@[i] == y as usize);
        }
        assert forall|x: usize| #[trigger] to_visit@.contains(x) implies x < n && downstream(g, src, x as int) by {
            let i = choose|i: int| 0 <= i < to_visit@.len() && to_visit@[i] == x;
            assert(ints(to_visit@)[i] == x as int);
            lemma_indices_member_rev(n as int, pd, i);
            lemma_chain_extend(g, src, src, x as int);
        }
    }
    while to_visit.len() > 0
        invariant
            g == compiled_graph(workflow.tasks@),
            n == workflow.tasks.len(),
            src == failed_task as int,
            failed_task < n,
            before == old(states)@,
            msg@ == reason,
            states.len() == before.len(),
            visited.len() == n,
            forall|x: usize| #[trigger] to_visit@.contains(x) ==> x < n && downstream(g, src, x as int),
            forall|v: int| 0 <= v < n && #[trigger] visited@[v] ==> downstream(g, src, v),
            forall|y: int| depends_directly(g, y, src) ==> #[trigger] visited@[y] || to_visit@.contains(y as usize),
            forall|v: int, y: int|
                #![trigger visited@[v], depends_directly(g, y, v)]
                0 <= v < n && visited@[v] && depends_directly(g, y, v) ==> visited@[y]
                    || to_visit@.contains(y as usize),
            forall|k: int|
                0 <= k < before.len() ==> if k < n && visited@[k] && before[k] is Pending {
                    is_skipped_with(#[trigger] states@[k], reason)
                } else {
                    states@[k] == before[k]
                },
        decreases count_false(visited@), to_visit.len(),
    {
        let ghost tv = to_visit@;
        let ghost vis0 = visited@;
        let x = to_visit.pop().unwrap();
        proof {
            assert(tv.contains(x)) by {
                assert(tv[tv.len() - 1] == x);
            }
            assert forall|y: usize| tv.contains(y) implies y == x || #[trigger] to_visit@.contains(y) by {
                let i = choose|i: int| 0 <= i < tv.len() && tv[i] == y;
                if i < tv.len() - 1 {
                    assert(to_visit@[i] == y);
                }
            }
            assert forall|y: usize| #[trigger] to_visit@.contains(y) implies tv.contains(y) by {
                let i = choose|i: int| 0 <= i < to_visit@.len() && to_visit@[i] == y;
                assert(tv[i] == y);
            }
        }
        if !visited[x] {
            visited.set(x, true);
            proof {
                lemma_count_false_set(vis0, x as int);
            }
            let pending = if x < states.len() {
                match &states[x] {
                    LocalTaskState::Pending => true,
                    _ => false,
                }
            } else {
                false
            };
            if pending {
                states.set(x, LocalTaskState::Skipped { reason: msg.clone() });
            }
            let mut ds = dependents_of(workflow, x);
            let ghost dsv = ds@;
            let ghost mid = to_visit@;
            to_visit.append(&mut ds);
            proof {
                let pd = |b: int| depends_directly(compiled_graph(workflow.tasks@), b, x as int);
                assert(to_visit@ == mid + dsv);
                assert forall|y: usize| #[trigger] mid.contains(y) implies to_visit@.contains(y) by {
                    let i = choose|i: int| 0 <= i < mid.len() && mid[i] == y;
                    assert(to_visit@[i] == y);
                }
                assert forall|y: int| depends_directly(g, y, x as int) implies to_visit@.contains(y as usize) by {
                    assert(0 <= y < n);
                    lemma_indices_member(n as int, pd, y);
                    let i = choose|i: int| 0 <= i < ints(dsv).len() && ints(dsv)[i] == y;
                    assert(to_visit@[mid.len() + i] == y as usize);
                }
                assert forall|y: usize| #[trigger] to_visit@.contains(y) implies y < n && downstream(g, src, y as int) by {
                    let i = choose|i: int| 0 <= i < to_visit@.len() && to_visit@[i] == y;
                    if i < mid.len() {
                        assert(mid[i] == y);
                        assert(tv.contains(y));
                    } else {
                        let j = i - mid.len();
                        assert(dsv[j] == y);
                        assert(ints(dsv)[j] == y as int);
                        lemma_indices_member_rev(n as int, pd, j);
                        lemma_chain_extend(g, src, x as int, y as int);
                    }
                }
                assert forall|v: int, y: int|
                    0 <= v < n && visited@[v] && depends_directly(g, y, v) implies visited@[y]
                        || to_visit@.contains(y as usize) by {
                    if v != x as int {
                        assert(vis0[v]);
                        if !vis0[y] {
                            assert(tv.contains(y as usize));
                            if y as usize != x {
                                assert(mid.contains(y as usize));
                            }
                        }
                    }
                }
                assert forall|y: int| depends_directly(g, y, src) implies #[trigger] visited@[y] || to_visit@.contains(
                    y as usize,
                ) by {
                    if !vis0[y] {
                        assert(tv.contains(y as usize));
                        if y as usize != x {
                            assert(mid.contains(y as usize));
                        }
                    }
                }
                assert forall|k: int|
                    0 <= k < before.len() implies if k < n && visited@[k] && before[k] is Pending {
                        is_skipped_with(#[trigger] states@[k], reason)
                    } else {
                        states@[k] == before[k]
                    } by {
                    if k == x as int && vis0[k] == false && before[k] is Pending {
                        assert(states@[k] == LocalTaskState::Skipped { reason: msg });
                    }
                }
            }
        } else {
            proof {
                assert forall|v: int, y: int|
                    0 <= v < n && visited@[v] && depends_directly(g, y, v) implies visited@[y]
                        || to_visit@.contains(y as usize) by {
                    if !visited@[y] {
                        assert(tv.contains(y as usize));
                    }
                }
                assert forall|y: int| depends_directly(g, y, src) implies #[trigger] visited@[y] || to_visit@.contains(
                    y as usize,
                ) by {
                    if !visited@[y] {
                        assert(tv.contains(y as usize));
                    }
                }
            }
        }
    }
    proof {
        assert forall|k: int| 0 <= k < n && downstream(g, src, k) implies #[trigger] visited@[k] by {
            let p = choose|p: Seq<int>| #[trigger] is_chain(g, p) && p[0] == src && p.last() == k;
            assert forall|y: int| depends_directly(g, y, src) implies #[trigger] visited@[y] by {}
            assert forall|v: int, y: int|
                #![trigger visited@[v], depends_directly(g, y, v)]
                0 <= v < visited@.len() && visited@[v] && depends_directly(g, y, v) implies visited@[y] by {}
            lemma_closed_reaches(g, src, visited@, p, p.len() - 1);
        }
        assert forall|k: int| 0 <= k < before.len() && downstream(g, src, k) implies k < n by {
            let p = choose|p: Seq<int>| #[trigger] is_chain(g, p) && p[0] == src && p.last() == k;
            assert(depends_directly(g, p[(p.len() - 2) + 1], p[p.len() - 2]));
        }
    }
}

/// After `skipped_downstream`, no task downstream of the source is still pending.
pub proof fn law_nothing_pending_downstream(
    g: Seq<Seq<int>>,
    src: int,
    before: Seq<LocalTaskState>,
    after: Seq<LocalTaskState>,
    reason: Seq<char>,
)
    requires
        skipped_downstream(g, src, before, after, reason),
    ensures
        forall|k: int| 0 <= k < after.len() && downstream(g, src, k) ==> !(#[trigger] after[k] is Pending),
{
    assert forall|k: int| 0 <= k < after.len() && downstream(g, src, k) implies !(#[trigger] after[k] is Pending) by {
        if before[k] is Pending {
            assert(is_skipped_with(after[k], reason));
        }
    }
}

// ---------------------------------------------------------------------------------------
// Transitions of a run
// ---------------------------------------------------------------------------------------
/// The attempt recorded for a task; one when none is.
pub open spec fn attempt_at(attempts: Seq<u32>, i: int) -> u32 {
    if 0 <= i < attempts.len() {
        attempts[i]
    } else {
        1
    }
}

/// The retries a task allows; none for a position past the last task.
pub open spec fn retries_at(tasks: Seq<CompiledTask>, i: int) -> u32 {
    if 0 <= i < tasks.len() {
        tasks[i].retries
    } else {
        0
    }
}

/// What a failure led to.
#[derive(Debug, Clone, Copy, PartialEq, Eq)]
pub enum FailureOutcome {
    /// The task goes back to pending for another attempt.
    Retry,
    /// The task failed for good after `attempt` attempts.
    Failed { attempt: u32, max_retries: u32 },
}

/// A task failed: while it has retries left it goes back to pending; otherwise it fails
/// and every pending task downstream of it is skipped.
pub fn handle_failure(
    task_idx: usize,
    error: String,
    workflow: &CompiledWorkflow,
    states: &mut Vec<LocalTaskState>,
    attempts: &Vec<u32>,
) -> (r: FailureOutcome)
    requires
        task_idx < old(states).len(),
        task_idx >= workflow.tasks.len() ==> attempt_at(attempts@, task_idx as int) == 0,
    ensures
        attempt_at(attempts@, task_idx as int) <= retries_at(workflow.tasks@, task_idx as int) ==> {
            &&& r == FailureOutcome::Retry
            &&& final(states)@ == old(states)@.update(task_idx as int, LocalTaskState::Pending)
        },
        attempt_at(attempts@, task_idx as int) > retries_at(workflow.tasks@, task_idx as int) ==> {
            &&& r == (FailureOutcome::Failed {
                attempt: attempt_at(attempts@, task_idx as int),
                max_retries: retries_at(workflow.tasks@, task_idx as int),
            })
            &&& skipped_downstream(
                compiled_graph(workflow.tasks@),
                task_idx as int,
                old(states)@.update(
                    task_idx as int,
                    LocalTaskState::Failed { attempt: attempt_at(attempts@, task_idx as int), error },
                ),
                final(states)@,
                skip_reason(workflow.tasks@[task_idx as int].name@),
            )
        },
        old(states)@[task_idx as int] is Running && task_idx < workflow.tasks.len() ==> finish_step(
            workflow.tasks@,
            old(states)@,
            attempts@,
            final(states)@,
            attempts@,
            task_idx as int,
            false,
        ),
{
    let attempt = if task_idx < attempts.len() {
        attempts[task_idx]
    } else {
        1
    };
    let retries = if task_idx < workflow.tasks.len() {
        workflow.tasks[task_idx].retries
    } else {
        0
    };
    if attempt <= retries {
        states.set(task_idx, LocalTaskState::Pending);
        FailureOutcome::Retry
    } else {
        let ghost e = error;
        states.set(task_idx, LocalTaskState::Failed { attempt, error });
        skip_downstream(task_idx, workflow, states);
        proof {
            assert(skipped_downstream(
                compiled_graph(workflow.tasks@),
                task_idx as int,
                old(states)@.update(
                    task_idx as int,
                    LocalTaskState::Failed { attempt: attempt_at(attempts@, task_idx as int), error: e },
                ),
                states@,
                skip_reason(workflow.tasks@[task_idx as int].name@),
            ));
        }
        FailureOutcome::Failed { attempt, max_retries: retries }
    }
}

/// Skips the given tasks because a dependency failed.
pub fn mark_skipped(task_states: &mut Vec<LocalTaskState>, to_skip: Vec<usize>)
    requires
        forall|j: int| 0 <= j < to_skip.len() ==> #[trigger] to_skip@[j] < old(task_states).len(),
    ensures
        final(task_states).len() == old(task_states).len(),
        forall|k: int|
            0 <= k < old(task_states).len() ==> if to_skip@.contains(k as usize) {
                is_skipped_with(#[trigger] final(task_states)@[k], "dependency failed"@)
            } else {
                final(task_states)@[k] == old(task_states)@[k]
            },
{
    proof {
        reveal_strlit("dependency failed");
    }
    let mut j: usize = 0;
    while j < to_skip.len()
        invariant
            j <= to_skip.len(),
            task_states.len() == old(task_states).len(),
            forall|i: int| 0 <= i < to_skip.len() ==> #[trigger] to_skip@[i] < old(task_states).len(),
            forall|k: int|
                0 <= k < old(task_states).len() ==> if to_skip@.take(j as int).contains(k as usize) {
                    is_skipped_with(#[trigger] task_states@[k], "dependency failed"@)
                } else {
                    task_states@[k] == old(task_states)@[k]
                },
        decreases to_skip.len() - j,
    {
        let idx = to_skip[j];
        task_states.set(idx, LocalTaskState::Skipped { reason: "dependency failed".to_owned() });
        proof {
            assert forall|k: usize| #[trigger] to_skip@.take(j + 1).contains(k) <==> (to_skip@.take(
                j as int,
            ).contains(k) || k == idx) by {
                if to_skip@.take(j + 1).contains(k) {
                    let i = choose|i: int| 0 <= i < j + 1 && #[trigger] to_skip@.take(j + 1)[i] == k;
                    if i < j {
                        assert(to_skip@.take(j as int)[i] == k);
                    }
                }
                if to_skip@.take(j as int).contains(k) {
                    let i = choose|i: int| 0 <= i < j && #[trigger] to_skip@.take(j as int)[i] == k;
                    assert(to_skip@.take(j + 1)[i] == k);
                }
                if k == idx {
                    assert(to_skip@.take(j + 1)[j as int] == k);
                }
            }
        }
        j = j + 1;
    }
    assert(to_skip@.take(j as int) =~= to_skip@);
}

/// Whether some task is still pending.
pub fn has_pending(states: &Vec<LocalTaskState>) -> (r: bool)
    ensures
        r == exists|k: int| 0 <= k < states.len() && #[trigger] states@[k] is Pending,
{
    let mut k: usize = 0;
    while k < states.len()
        invariant
            k <= states.len(),
            forall|i: int| 0 <= i < k ==> !(#[trigger] states@[i] is Pending),
        decreases states.len() - k,
    {
        match &states[k] {
            LocalTaskState::Pending => {
                return true;
            },
            _ => {},
        }
        k = k + 1;
    }
    false
}

/// A run fails when a task failed or was skipped, and succeeds otherwise.
pub fn final_run_status(states: &Vec<LocalTaskState>) -> (r: RunStatus)
    ensures
        r == (if exists|k: int| 0 <= k < states.len() && #[trigger] failed_or_skipped(states@, k) {
            RunStatus::Failed
        } else {
            RunStatus::Success
        }),
{
    let mut k: usize = 0;
    while k < states.len()
        invariant
            k <= states.len(),
            forall|i: int| 0 <= i < k ==> !#[trigger] failed_or_skipped(states@, i),
        decreases states.len() - k,
    {
        match &states[k] {
            LocalTaskState::Failed { .. } => {
                assert(failed_or_skipped(states@, k as int));
                return RunStatus::Failed;
            },
            LocalTaskState::Skipped { .. } => {
                assert(failed_or_skipped(states@, k as int));
                return RunStatus::Failed;
            },
            _ => {},
        }
        k = k + 1;
    }
    RunStatus::Success
}

/// A task is dispatched: its attempt count goes up by one and it is running that attempt.
pub fn start_attempt(task_idx: usize, attempts: &mut Vec<u32>, states: &mut Vec<LocalTaskState>) -> (r:
    u32)
    requires
        task_idx < old(attempts).len(),
        task_idx < old(states).len(),
        old(attempts)@[task_idx as int] < u32::MAX,
    ensures
        r == old(attempts)@[task_idx as int] + 1,
        final(attempts)@ == old(attempts)@.update(task_idx as int, r),
        final(states)@ == old(states)@.update(task_idx as int, LocalTaskState::Running { attempt: r }),
{
    let attempt = attempts[task_idx] + 1;
    attempts.set(task_idx, attempt);
    states.set(task_idx, LocalTaskState::Running { attempt });
    attempt
}

fn clone_output(o: &Option<Json>) -> (r: Option<Json>)
    ensures
        crate::compiled::opt_json(r) == crate::compiled::opt_json(*o),
{
    match o {
        Some(j) => Some(j.deep_clone()),
        None => None,
    }
}

/// A task succeeded: its output is kept for the tasks that depend on it, and it is marked
/// successful at its current attempt.
pub fn record_success(
    task_idx: usize,
    output: Option<Json>,
    outputs: &mut Vec<Option<Json>>,
    states: &mut Vec<LocalTaskState>,
    attempts: &Vec<u32>,
) -> (r: u32)
    requires
        task_idx < old(outputs).len(),
        task_idx < old(states).len(),
    ensures
        r == attempt_at(attempts@, task_idx as int),
        final(outputs).len() == old(outputs).len(),
        crate::compiled::opt_json(final(outputs)@[task_idx as int]) == crate::compiled::opt_json(output),
        forall|k: int| 0 <= k < old(outputs).len() && k != task_idx ==> final(outputs)@[k] == old(outputs)@[k],
        final(states)@ == old(states)@.update(task_idx as int, LocalTaskState::Success { attempt: r, output }),
        old(states)@[task_idx as int] is Running ==> forall|tasks: Seq<CompiledTask>|
            #[trigger] finish_step(tasks, old(states)@, attempts@, final(states)@, attempts@, task_idx as int, true),
{
    outputs.set(task_idx, clone_output(&output));
    let attempt = if task_idx < attempts.len() {
        attempts[task_idx]
    } else {
        1
    };
    let ghost o = output;
    states.set(task_idx, LocalTaskState::Success { attempt, output });
    proof {
        assert(states@ == old(states)@.update(
            task_idx as int,
            LocalTaskState::Success { attempt: attempt_at(attempts@, task_idx as int), output: o },
        ));
    }
    attempt
}

/// How a finished process ended: success, or a failure naming its exit code (or that a
/// signal ended it).
pub fn process_status(success: bool, code: Option<i32>) -> (r: TaskExecutionStatus)
    ensures
        success ==> r == TaskExecutionStatus::Success,
        !success ==> r is Failed && r->Failed_0@ == "process exited with status "@ + match code {
            Some(c) => signed_decimal(c as int),
            None => "signal"@,
        },
{
    if success {
        TaskExecutionStatus::Success
    } else {
        let code_text = match code {
            Some(c) => i64_to_decimal(c as i64),
            None => "signal".to_owned(),
        };
        proof {
            reveal_strlit("signal");
        }
        let mut m = "process exited with status ".to_owned();
        m.append(code_text.as_str());
        TaskExecutionStatus::Failed(m)
    }
}

/// The log of a task: its standard output, then its standard error, separated by a line
/// break when both are present; none when both are empty.
pub fn combine_logs(stdout: &str, stderr: &str) -> (r: Option<String>)
    ensures
        (stdout@.len() == 0 && stderr@.len() == 0) ==> r is None,
        !(stdout@.len() == 0 && stderr@.len() == 0) ==> r is Some && r->0@ == stdout@ + (if stdout@.len() > 0 && stderr@.len() > 0 {
            "\n"@
        } else {
            Seq::empty()
        }) + stderr@,
{
    let a = crate::text::str_len(stdout);
    let b = crate::text::str_len(stderr);
    if a == 0 && b == 0 {
        return None;
    }
    let mut combined = stdout.to_owned();
    if b > 0 {
        if a > 0 {
            crate::text::push_char(&mut combined, '\n');
            proof {
                reveal_strlit("\n");
                assert(combined@ =~= stdout@ + "\n"@);
            }
        } else {
            assert(combined@ =~= stdout@ + Seq::<char>::empty());
        }
        combined.append(stderr);
    } else {
        assert(combined@ =~= stdout@ + Seq::<char>::empty() + stderr@);
    }
    Some(combined)
}

/// The id a local run gets when none is given: the workflow's name, a hyphen and a fresh
/// random UUID.
pub fn default_run_id(workflow_name: &str) -> (r: String)
    ensures
        exists|u: u128| r@ == workflow_name@ + "-"@ + #[trigger] uuid_text(u) && random_v4(u),
{
    let u = new_uuid();
    let text = uuid_string(u);
    let r = concat3(workflow_name, "-", text.as_str());
    assert(r@ == workflow_name@ + "-"@ + uuid_text(u) && random_v4(u));
    r
}

/// The view of a list of environment variables.
pub open spec fn vars_view(v: Seq<(String, String)>) -> Seq<(Seq<char>, Seq<char>)> {
    Seq::new(v.len(), |i: int| (v[i].0@, v[i].1@))
}

/// The environment a local task's process gets: its project root as `PYTHONPATH`, where
/// its specification is and where it writes its output, its name, workflow, run, attempt
/// and working directory.
pub open spec fn local_task_vars(ctx: TaskContext, project_root: Seq<char>) -> Seq<(Seq<char>, Seq<char>)> {
    seq![
        ("PYTHONPATH"@, project_root),
        ("ORK_INPUT_PATH"@, ctx.spec_path@),
        ("ORK_OUTPUT_PATH"@, ctx.output_path@),
        ("ORK_TASK_NAME"@, ctx.task_name@),
        ("ORK_WORKFLOW_NAME"@, ctx.workflow_name@),
        ("ORK_RUN_ID"@, ctx.run_id@),
        ("ORK_ATTEMPT"@, decimal(ctx.attempt as nat)),
        ("ORK_WORKDIR"@, ctx.task_dir@),
    ]
}

pub fn local_task_env(ctx: &TaskContext, project_root: &str) -> (r: Vec<(String, String)>)
    ensures
        vars_view(r@) == local_task_vars(*ctx, project_root@),
{
    let mut r: Vec<(String, String)> = Vec::new();
    r.push(("PYTHONPATH".to_owned(), project_root.to_owned()));
    r.push(("ORK_INPUT_PATH".to_owned(), ctx.spec_path.clone()));
    r.push(("ORK_OUTPUT_PATH".to_owned(), ctx.output_path.clone()));
    r.push(("ORK_TASK_NAME".to_owned(), ctx.task_name.clone()));
    r.push(("ORK_WORKFLOW_NAME".to_owned(), ctx.workflow_name.clone()));
    r.push(("ORK_RUN_ID".to_owned(), ctx.run_id.clone()));
    r.push(("ORK_ATTEMPT".to_owned(), u64_to_decimal(ctx.attempt as u64)));
    r.push(("ORK_WORKDIR".to_owned(), ctx.task_dir.clone()));
    assert(vars_view(r@) =~= local_task_vars(*ctx, project_root@));
    r
}

// ---------------------------------------------------------------------------------------
// Over a whole local run
// ---------------------------------------------------------------------------------------
/// A task listed as ready has only dependencies that succeeded: a task is started only
/// after everything it depends on has succeeded.
pub proof fn law_ready_after_dependencies(tasks: Seq<CompiledTask>, states: Seq<LocalTaskState>, i: int)
    requires
        0 <= i < indices_where(states.len() as int, |k: int| is_ready(tasks[k], states, k)).len(),
    ensures
        ({
            let k = indices_where(states.len() as int, |k: int| is_ready(tasks[k], states, k))[i];
            &&& states[k] is Pending
            &&& forall|j: int| 0 <= j < tasks[k].depends_on.len() ==> succeeded(states, #[trigger] tasks[k].depends_on@[j] as int)
        }),
{
    lemma_indices_member_rev(states.len() as int, |k: int| is_ready(tasks[k], states, k), i);
}

/// Attempts stay within what the tasks allow: no task has been started more often than
/// its retries plus one, and a task still pending can be started once more within that.
pub open spec fn attempts_within(tasks: Seq<CompiledTask>, attempts: Seq<u32>, states: Seq<LocalTaskState>) -> bool {
    &&& attempts.len() == tasks.len()
    &&& states.len() == tasks.len()
    &&& forall|i: int| 0 <= i < tasks.len() ==> #[trigger] attempts[i] <= tasks[i].retries + 1
    &&& forall|i: int| 0 <= i < tasks.len() && #[trigger] states[i] is Pending ==> attempts[i] <= tasks[i].retries
}

/// A run starts within its attempts: nothing attempted, everything pending.
pub proof fn law_attempts_at_start(tasks: Seq<CompiledTask>)
    ensures
        attempts_within(
            tasks,
            Seq::new(tasks.len(), |i: int| 0u32),
            Seq::new(tasks.len(), |i: int| LocalTaskState::Pending),
        ),
{
}

/// Starting a pending task (as `start_attempt` does) keeps the attempts within bounds.
pub proof fn law_attempts_on_start(tasks: Seq<CompiledTask>, attempts: Seq<u32>, states: Seq<LocalTaskState>, i: int)
    requires
        attempts_within(tasks, attempts, states),
        0 <= i < tasks.len(),
        states[i] is Pending,
    ensures
        attempts_within(
            tasks,
            attempts.update(i, (attempts[i] + 1) as u32),
            states.update(i, LocalTaskState::Running { attempt: (attempts[i] + 1) as u32 }),
        ),
{
    let a2 = attempts.update(i, (attempts[i] + 1) as u32);
    let s2 = states.update(i, LocalTaskState::Running { attempt: (attempts[i] + 1) as u32 });
    assert forall|k: int| 0 <= k < tasks.len() implies #[trigger] a2[k] <= tasks[k].retries + 1 by {
        if k != i {
            assert(attempts[k] <= tasks[k].retries + 1);
        }
    }
    assert forall|k: int| 0 <= k < tasks.len() && #[trigger] s2[k] is Pending implies a2[k] <= tasks[k].retries by {
        assert(k != i);
        assert(states[k] is Pending);
    }
}

/// Putting a failed task back to pending for a retry (as `handle_failure` does while its
/// attempt is within its retries) keeps the attempts within bounds.
pub proof fn law_attempts_on_retry(tasks: Seq<CompiledTask>, attempts: Seq<u32>, states: Seq<LocalTaskState>, i: int)
    requires
        attempts_within(tasks, attempts, states),
        0 <= i < tasks.len(),
        attempt_at(attempts, i) <= retries_at(tasks, i),
    ensures
        attempts_within(tasks, attempts, states.update(i, LocalTaskState::Pending)),
{
    let s2 = states.update(i, LocalTaskState::Pending);
    assert forall|k: int| 0 <= k < tasks.len() && #[trigger] s2[k] is Pending implies attempts[k] <= tasks[k].retries by {
        if k != i {
            assert(states[k] is Pending);
        }
    }
}

/// Any step that only takes tasks out of pending (success, failure for good, skipping)
/// keeps the attempts within bounds.
pub proof fn law_attempts_leaving_pending(
    tasks: Seq<CompiledTask>,
    attempts: Seq<u32>,
    before: Seq<LocalTaskState>,
    after: Seq<LocalTaskState>,
)
    requires
        attempts_within(tasks, attempts, before),
        after.len() == before.len(),
        forall|k: int| 0 <= k < after.len() && #[trigger] after[k] is Pending ==> before[k] is Pending,
    ensures
        attempts_within(tasks, attempts, after),
{
    assert forall|k: int| 0 <= k < tasks.len() && #[trigger] after[k] is Pending implies attempts[k] <= tasks[k].retries by {
        assert(before[k] is Pending);
    }
}

/// A task that fails for good (as `handle_failure` does once its retries are spent),
/// with everything pending downstream of it skipped, keeps the attempts within bounds.
pub proof fn law_attempts_on_failure(
    tasks: Seq<CompiledTask>,
    attempts: Seq<u32>,
    states: Seq<LocalTaskState>,
    after: Seq<LocalTaskState>,
    i: int,
    failed: LocalTaskState,
    reason: Seq<char>,
)
    requires
        attempts_within(tasks, attempts, states),
        0 <= i < tasks.len(),
        failed is Failed,
        skipped_downstream(compiled_graph(tasks), i, states.update(i, failed), after, reason),
    ensures
        attempts_within(tasks, attempts, after),
{
    let mid = states.update(i, failed);
    assert forall|k: int| 0 <= k < after.len() && #[trigger] after[k] is Pending implies states[k] is Pending by {
        if downstream(compiled_graph(tasks), i, k) && mid[k] is Pending {
            assert(is_skipped_with(after[k], reason));
        }
        assert(mid[k] is Pending);
        assert(k != i);
    }
    law_attempts_leaving_pending(tasks, attempts, states, after);
}

/// A task with a dependency that failed or was skipped is never ready to run.
pub proof fn law_failed_dependency_blocks(t: CompiledTask, states: Seq<LocalTaskState>, k: int, j: int)
    requires
        0 <= j < t.depends_on.len(),
        failed_or_skipped(states, t.depends_on@[j] as int),
    ensures
        !is_ready(t, states, k),
{
    assert(!succeeded(states, t.depends_on@[j] as int));
}


// ---------------------------------------------------------------------------------------
// A whole local run, step by step
// ---------------------------------------------------------------------------------------
proof fn lemma_indices_increasing(n: int, p: spec_fn(int) -> bool)
    ensures
        forall|i: int, j: int|
            0 <= i < j < indices_where(n, p).len() ==> #[trigger] indices_where(n, p)[i] < #[trigger] indices_where(
                n,
                p,
            )[j],
    decreases n,
{
    if n > 0 {
        lemma_indices_increasing(n - 1, p);
        lemma_indices_step(n - 1, p);
        let s = indices_where(n - 1, p);
        assert forall|i: int, j: int| 0 <= i < j < indices_where(n, p).len() implies #[trigger] indices_where(
            n,
            p,
        )[i] < #[trigger] indices_where(n, p)[j] by {
            assert(indices_where(n, p)[i] == s[i]);
            if j < s.len() {
                assert(indices_where(n, p)[j] == s[j]);
            } else {
                lemma_indices_member_rev(n - 1, p, i);
            }
        }
    }
}

/// A round of a local run, from `(s, a)` to `(s2, a2)`: every ready task is started at its
/// next attempt, every task that must be skipped is skipped, and nothing else changes.
pub open spec fn round_step(
    tasks: Seq<CompiledTask>,
    s: Seq<LocalTaskState>,
    a: Seq<u32>,
    s2: Seq<LocalTaskState>,
    a2: Seq<u32>,
) -> bool {
    &&& s2.len() == s.len()
    &&& a2.len() == a.len()
    &&& forall|k: int|
        #![trigger s2[k]]
        #![trigger a2[k]]
        0 <= k < s.len() ==> if is_ready(tasks[k], s, k) {
            &&& s2[k] == LocalTaskState::Running { attempt: (a[k] + 1) as u32 }
            &&& a2[k] == a[k] + 1
        } else if must_skip(tasks[k], s, k) {
            is_skipped_with(s2[k], "dependency failed"@) && a2[k] == a[k]
        } else {
            s2[k] == s[k] && a2[k] == a[k]
        }
}

/// The end of a running task's attempt, as `record_success` (when `success`) or
/// `handle_failure` record it: success at its attempt, a retry, or a failure for good with
/// everything pending downstream of it skipped. Attempts do not change.
pub open spec fn finish_step(
    tasks: Seq<CompiledTask>,
    s: Seq<LocalTaskState>,
    a: Seq<u32>,
    s2: Seq<LocalTaskState>,
    a2: Seq<u32>,
    i: int,
    success: bool,
) -> bool {
    &&& a2 == a
    &&& 0 <= i < s.len()
    &&& s[i] is Running
    &&& success ==> exists|o: Option<Json>|
        s2 == s.update(i, LocalTaskState::Success { attempt: attempt_at(a, i), output: o })
    &&& !success ==> if attempt_at(a, i) <= retries_at(tasks, i) {
        s2 == s.update(i, LocalTaskState::Pending)
    } else {
        exists|e: String|
            skipped_downstream(
                compiled_graph(tasks),
                i,
                s.update(i, LocalTaskState::Failed { attempt: attempt_at(a, i), error: e }),
                s2,
                skip_reason(tasks[i].name@),
            )
    }
}

/// A step of a local run: a round, or the end of a running task's attempt.
pub open spec fn run_step(
    tasks: Seq<CompiledTask>,
    before: (Seq<LocalTaskState>, Seq<u32>),
    after: (Seq<LocalTaskState>, Seq<u32>),
) -> bool {
    ||| round_step(tasks, before.0, before.1, after.0, after.1)
    ||| exists|i: int, success: bool| finish_step(tasks, before.0, before.1, after.0, after.1, i, success)
}

/// A local run of `tasks` so far: the task states and attempt counts after each step,
/// starting with every task pending and never attempted.
pub open spec fn local_run(tasks: Seq<CompiledTask>, trace: Seq<(Seq<LocalTaskState>, Seq<u32>)>) -> bool {
    &&& trace.len() >= 1
    &&& trace[0] == (
        Seq::new(tasks.len(), |k: int| LocalTaskState::Pending),
        Seq::new(tasks.len(), |k: int| 0u32),
    )
    &&& forall|m: int| 0 <= m < trace.len() - 1 ==> #[trigger] run_step(tasks, trace[m], trace[m + 1])
}

/// Task `k` was started by step `m` of the run: not running before it, running after.
pub open spec fn started_at(trace: Seq<(Seq<LocalTaskState>, Seq<u32>)>, k: int, m: int) -> bool {
    !(trace[m].0[k] is Running) && trace[m + 1].0[k] is Running
}

/// How many times task `k` was started in the first `m` steps of the run.
pub open spec fn starts(trace: Seq<(Seq<LocalTaskState>, Seq<u32>)>, k: int, m: int) -> nat
    decreases m,
{
    if m <= 0 {
        0
    } else {
        starts(trace, k, m - 1) + if started_at(trace, k, m - 1) {
            1nat
        } else {
            0nat
        }
    }
}

/// Every task that is running, succeeded or failed was started after all of its
/// dependencies had succeeded, and they still have.
pub open spec fn started_after_dependencies(tasks: Seq<CompiledTask>, s: Seq<LocalTaskState>) -> bool {
    forall|k: int, j: int|
        #![trigger s[k], tasks[k].depends_on@[j]]
        0 <= k < s.len() && 0 <= j < tasks[k].depends_on.len() && (s[k] is Running || s[k] is Success
            || s[k] is Failed) ==> succeeded(s, tasks[k].depends_on@[j] as int)
}

pub open spec fn run_invariant(tasks: Seq<CompiledTask>, s: Seq<LocalTaskState>, a: Seq<u32>) -> bool {
    &&& attempts_within(tasks, a, s)
    &&& started_after_dependencies(tasks, s)
}

proof fn lemma_round_keeps(
    tasks: Seq<CompiledTask>,
    s: Seq<LocalTaskState>,
    a: Seq<u32>,
    s2: Seq<LocalTaskState>,
    a2: Seq<u32>,
)
    requires
        run_invariant(tasks, s, a),
        round_step(tasks, s, a, s2, a2),
    ensures
        run_invariant(tasks, s2, a2),
        forall|k: int|
            0 <= k < s.len() ==> #[trigger] a2[k] == a[k] + if !(s[k] is Running) && s2[k] is Running {
                1int
            } else {
                0int
            },
{
    assert forall|d: int| succeeded(s, d) implies succeeded(s2, d) by {
        assert(s2[d] == s[d]);
    }
    assert forall|k: int, j: int|
        #![trigger s2[k], tasks[k].depends_on@[j]]
        0 <= k < s2.len() && 0 <= j < tasks[k].depends_on.len() && (s2[k] is Running || s2[k] is Success
            || s2[k] is Failed) implies succeeded(s2, tasks[k].depends_on@[j] as int) by {
        let d = tasks[k].depends_on@[j] as int;
        if is_ready(tasks[k], s, k) {
            assert(succeeded(s, d));
        } else if must_skip(tasks[k], s, k) {
            assert(is_skipped_with(s2[k], "dependency failed"@));
        } else {
            assert(s2[k] == s[k]);
            assert(s[k] is Running || s[k] is Success || s[k] is Failed);
            assert(succeeded(s, d));
        }
    }
    assert forall|k: int| 0 <= k < tasks.len() implies #[trigger] a2[k] <= tasks[k].retries + 1 by {
        if is_ready(tasks[k], s, k) {
            assert(s[k] is Pending);
        } else {
            assert(a[k] <= tasks[k].retries + 1);
        }
    }
    assert forall|k: int| 0 <= k < tasks.len() && #[trigger] s2[k] is Pending implies a2[k] <= tasks[k].retries by {
        if is_ready(tasks[k], s, k) {
        } else if must_skip(tasks[k], s, k) {
            assert(is_skipped_with(s2[k], "dependency failed"@));
        } else {
            assert(s[k] is Pending);
        }
    }
    assert forall|k: int| 0 <= k < s.len() implies #[trigger] a2[k] == a[k] + if !(s[k] is Running) && s2[k] is Running {
        1int
    } else {
        0int
    } by {
        if is_ready(tasks[k], s, k) {
        } else if must_skip(tasks[k], s, k) {
            assert(is_skipped_with(s2[k], "dependency failed"@));
        } else {
        }
    }
}

proof fn lemma_finish_keeps(
    tasks: Seq<CompiledTask>,
    s: Seq<LocalTaskState>,
    a: Seq<u32>,
    s2: Seq<LocalTaskState>,
    a2: Seq<u32>,
    i: int,
    success: bool,
)
    requires
        run_invariant(tasks, s, a),
        finish_step(tasks, s, a, s2, a2, i, success),
    ensures
        run_invariant(tasks, s2, a2),
        s2.len() == s.len(),
        forall|k: int| 0 <= k < s.len() ==> !(!(s[k] is Running) && #[trigger] s2[k] is Running),
{
    assert(forall|j: int|
        0 <= j < tasks[i].depends_on.len() ==> succeeded(s, #[trigger] tasks[i].depends_on@[j] as int)) by {
        assert forall|j: int| 0 <= j < tasks[i].depends_on.len() implies succeeded(
            s,
            #[trigger] tasks[i].depends_on@[j] as int,
        ) by {
            assert(s[i] is Running);
        }
    }
    // What succeeded before still has: the task that finished was running.
    assert forall|d: int| succeeded(s, d) implies d != i by {}
    if success {
        let o = choose|o: Option<Json>|
            s2 == s.update(i, LocalTaskState::Success { attempt: attempt_at(a, i), output: o });
        assert forall|k: int, j: int|
            #![trigger s2[k], tasks[k].depends_on@[j]]
            0 <= k < s2.len() && 0 <= j < tasks[k].depends_on.len() && (s2[k] is Running || s2[k] is Success
                || s2[k] is Failed) implies succeeded(s2, tasks[k].depends_on@[j] as int) by {
            let d = tasks[k].depends_on@[j] as int;
            if k == i {
                assert(succeeded(s, tasks[i].depends_on@[j] as int));
            } else {
                assert(s[k] == s2[k]);
                assert(succeeded(s, d));
            }
            assert(succeeded(s, d));
            assert(d != i);
            assert(s2[d] == s[d]);
        }
        law_attempts_leaving_pending(tasks, a, s, s2);
    } else if attempt_at(a, i) <= retries_at(tasks, i) {
        assert forall|k: int, j: int|
            #![trigger s2[k], tasks[k].depends_on@[j]]
            0 <= k < s2.len() && 0 <= j < tasks[k].depends_on.len() && (s2[k] is Running || s2[k] is Success
                || s2[k] is Failed) implies succeeded(s2, tasks[k].depends_on@[j] as int) by {
            let d = tasks[k].depends_on@[j] as int;
            assert(k != i);
            assert(s[k] == s2[k]);
            assert(succeeded(s, d));
            assert(d != i);
            assert(s2[d] == s[d]);
        }
        law_attempts_on_retry(tasks, a, s, i);
    } else {
        let e = choose|e: String|
            skipped_downstream(
                compiled_graph(tasks),
                i,
                s.update(i, LocalTaskState::Failed { attempt: attempt_at(a, i), error: e }),
                s2,
                skip_reason(tasks[i].name@),
            );
        let failed = LocalTaskState::Failed { attempt: attempt_at(a, i), error: e };
        let mid = s.update(i, failed);
        let g = compiled_graph(tasks);
        assert forall|k: int| 0 <= k < s2.len() && !(#[trigger] s2[k] is Skipped) implies s2[k] == mid[k] by {
            if downstream(g, i, k) && mid[k] is Pending {
                assert(is_skipped_with(s2[k], skip_reason(tasks[i].name@)));
            }
        }
        assert forall|k: int, j: int|
            #![trigger s2[k], tasks[k].depends_on@[j]]
            0 <= k < s2.len() && 0 <= j < tasks[k].depends_on.len() && (s2[k] is Running || s2[k] is Success
                || s2[k] is Failed) implies succeeded(s2, tasks[k].depends_on@[j] as int) by {
            let d = tasks[k].depends_on@[j] as int;
            assert(s2[k] == mid[k]);
            if k == i {
                assert(succeeded(s, tasks[i].depends_on@[j] as int));
            } else {
                assert(s[k] == s2[k]);
                assert(succeeded(s, d));
            }
            assert(succeeded(s, d));
            assert(d != i);
            assert(mid[d] == s[d]);
            if downstream(g, i, d) && mid[d] is Pending {
            } else {
                assert(s2[d] == mid[d]);
            }
        }
        assert forall|k: int| 0 <= k < s.len() implies !(!(s[k] is Running) && #[trigger] s2[k] is Running) by {
            if s2[k] is Running {
                assert(s2[k] == mid[k]);
            }
        }
        law_attempts_on_failure(tasks, a, s, s2, i, failed, skip_reason(tasks[i].name@));
    }
}

proof fn lemma_run_prefix(tasks: Seq<CompiledTask>, trace: Seq<(Seq<LocalTaskState>, Seq<u32>)>, m: int)
    requires
        local_run(tasks, trace),
        0 <= m < trace.len(),
    ensures
        trace[m].0.len() == tasks.len(),
        trace[m].1.len() == tasks.len(),
        run_invariant(tasks, trace[m].0, trace[m].1),
        forall|k: int| 0 <= k < tasks.len() ==> #[trigger] trace[m].1[k] == starts(trace, k, m),
    decreases m,
{
    if m == 0 {
        law_attempts_at_start(tasks);
    } else {
        lemma_run_prefix(tasks, trace, m - 1);
        let p = m - 1;
        assert(run_step(tasks, trace[p], trace[p + 1]));
        let (s, a) = trace[p];
        let (s2, a2) = trace[m];
        if round_step(tasks, s, a, s2, a2) {
            lemma_round_keeps(tasks, s, a, s2, a2);
        } else {
            let (i, ok) = choose|i: int, ok: bool| finish_step(tasks, s, a, s2, a2, i, ok);
            lemma_finish_keeps(tasks, s, a, s2, a2, i, ok);
        }
        assert forall|k: int| 0 <= k < tasks.len() implies #[trigger] trace[m].1[k] == starts(trace, k, m) by {
            assert(trace[p].1[k] == starts(trace, k, p));
            assert(starts(trace, k, m) == starts(trace, k, p) + if started_at(trace, k, p) {
                1nat
            } else {
                0nat
            });
        }
    }
}

/// Over a whole local run, whatever the order in which attempts end: every task is started
/// only when it is pending and all of its dependencies have succeeded; its attempt count
/// is the number of times it was started, and never more than its retries plus one; every
/// task that is running, succeeded or failed has all of its dependencies succeeded (so a
/// task with a dependency that failed or was skipped never runs); and once nothing is
/// pending or running, every such task is skipped.
pub proof fn law_local_run(tasks: Seq<CompiledTask>, trace: Seq<(Seq<LocalTaskState>, Seq<u32>)>)
    requires
        local_run(tasks, trace),
    ensures
        forall|m: int, k: int|
            0 <= m < trace.len() - 1 && 0 <= k < tasks.len() && #[trigger] started_at(trace, k, m) ==> is_ready(
                tasks[k],
                trace[m].0,
                k,
            ),
        forall|m: int, k: int|
            0 <= m < trace.len() && 0 <= k < tasks.len() ==> #[trigger] trace[m].1[k] == starts(trace, k, m)
                && starts(trace, k, m) <= tasks[k].retries + 1,
        forall|m: int| 0 <= m < trace.len() ==> #[trigger] started_after_dependencies(tasks, trace[m].0),
        ({
            let last = trace.last().0;
            (forall|k: int| 0 <= k < tasks.len() ==> !(#[trigger] last[k] is Pending) && !(last[k] is Running))
                ==> forall|k: int, j: int|
                0 <= k < tasks.len() && 0 <= j < tasks[k].depends_on.len() && failed_or_skipped(
                    last,
                    #[trigger] tasks[k].depends_on@[j] as int,
                ) ==> last[k] is Skipped
        }),
{
    assert forall|m: int, k: int|
        0 <= m < trace.len() - 1 && 0 <= k < tasks.len() && #[trigger] started_at(trace, k, m) implies is_ready(
            tasks[k],
            trace[m].0,
            k,
        ) by {
        lemma_run_prefix(tasks, trace, m);
        assert(run_step(tasks, trace[m], trace[m + 1]));
        let (s, a) = trace[m];
        let (s2, a2) = trace[m + 1];
        if round_step(tasks, s, a, s2, a2) {
            if !is_ready(tasks[k], s, k) {
                if must_skip(tasks[k], s, k) {
                    assert(is_skipped_with(s2[k], "dependency failed"@));
                } else {
                    assert(s2[k] == s[k]);
                }
            }
        } else {
            let (i, ok) = choose|i: int, ok: bool| finish_step(tasks, s, a, s2, a2, i, ok);
            lemma_finish_keeps(tasks, s, a, s2, a2, i, ok);
        }
    }
    assert forall|m: int, k: int| 0 <= m < trace.len() && 0 <= k < tasks.len() implies #[trigger] trace[m].1[k]
        == starts(trace, k, m) && starts(trace, k, m) <= tasks[k].retries + 1 by {
        lemma_run_prefix(tasks, trace, m);
    }
    assert forall|m: int| 0 <= m < trace.len() implies #[trigger] started_after_dependencies(tasks, trace[m].0) by {
        lemma_run_prefix(tasks, trace, m);
    }
    let last = trace.last().0;
    lemma_run_prefix(tasks, trace, trace.len() - 1);
    if forall|k: int| 0 <= k < tasks.len() ==> !(#[trigger] last[k] is Pending) && !(last[k] is Running) {
        assert forall|k: int, j: int|
            0 <= k < tasks.len() && 0 <= j < tasks[k].depends_on.len() && failed_or_skipped(
                last,
                #[trigger] tasks[k].depends_on@[j] as int,
            ) implies last[k] is Skipped by {
            assert(!(last[k] is Pending) && !(last[k] is Running));
            if last[k] is Success || last[k] is Failed {
                assert(succeeded(last, tasks[k].depends_on@[j] as int));
            }
        }
    }
}


/// One round of a local run: every task that must be skipped (a dependency failed or was
/// skipped) is skipped, and every ready task (all of its dependencies succeeded) is started
/// at its next attempt; the started tasks are returned in index order.
pub fn start_round(workflow: &CompiledWorkflow, states: &mut Vec<LocalTaskState>, attempts: &mut Vec<u32>) -> (r:
    Vec<usize>)
    requires
        old(states).len() == workflow.tasks.len(),
        old(attempts).len() == workflow.tasks.len(),
        forall|k: int| 0 <= k < old(attempts).len() ==> #[trigger] old(attempts)@[k] < u32::MAX,
    ensures
        round_step(workflow.tasks@, old(states)@, old(attempts)@, final(states)@, final(attempts)@),
        ints(r@) == indices_where(old(states).len() as int, |k: int| is_ready(workflow.tasks@[k], old(states)@, k)),
{
    let ghost s0 = states@;
    let ghost a0 = attempts@;
    let ghost n = states.len() as int;
    let ghost pr = |k: int| is_ready(workflow.tasks@[k], s0, k);
    let ghost ps = |k: int| must_skip(workflow.tasks@[k], s0, k);
    let (ready, to_skip) = classify_tasks(workflow, states);
    let ghost sk = to_skip@;
    proof {
        assert forall|j: int| 0 <= j < to_skip.len() implies #[trigger] to_skip@[j] < states.len() by {
            lemma_indices_member_rev(n, ps, j);
            assert(ints(to_skip@)[j] == to_skip@[j] as int);
        }
    }
    mark_skipped(states, to_skip);
    let ghost mid = states@;
    proof {
        reveal_strlit("dependency failed");
        assert forall|k: int| 0 <= k < n implies (sk.contains(k as usize) <==> #[trigger] ps(k)) by {
            if ps(k) {
                lemma_indices_member(n, ps, k);
                let i = choose|i: int| 0 <= i < ints(sk).len() && ints(sk)[i] == k;
                assert(sk[i] == k as usize);
            }
            if sk.contains(k as usize) {
                let i = choose|i: int| 0 <= i < sk.len() && sk[i] == k as usize;
                assert(ints(sk)[i] == k);
                lemma_indices_member_rev(n, ps, i);
            }
        }
        assert forall|k: int| 0 <= k < n implies (ready@.contains(k as usize) <==> #[trigger] pr(k)) by {
            if pr(k) {
                lemma_indices_member(n, pr, k);
                let i = choose|i: int| 0 <= i < ints(ready@).len() && ints(ready@)[i] == k;
                assert(ready@[i] == k as usize);
            }
            if ready@.contains(k as usize) {
                let i = choose|i: int| 0 <= i < ready@.len() && ready@[i] == k as usize;
                assert(ints(ready@)[i] == k);
                lemma_indices_member_rev(n, pr, i);
            }
        }
        lemma_indices_increasing(n, pr);
        assert forall|i1: int, i2: int| 0 <= i1 < i2 < ready@.len() implies #[trigger] ready@[i1] < #[trigger] ready@[i2] by {
            assert(ints(ready@)[i1] == ready@[i1] as int);
            assert(ints(ready@)[i2] == ready@[i2] as int);
        }
        assert forall|i: int| 0 <= i < ready@.len() implies #[trigger] ready@[i] < n by {
            lemma_indices_member_rev(n, pr, i);
            assert(ints(ready@)[i] == ready@[i] as int);
        }
    }
    let mut j: usize = 0;
    while j < ready.len()
        invariant
            j <= ready.len(),
            n == s0.len(),
            states.len() == n,
            attempts.len() == n,
            a0.len() == n,
            forall|k: int| 0 <= k < n ==> #[trigger] a0[k] < u32::MAX,
            forall|i1: int, i2: int| 0 <= i1 < i2 < ready@.len() ==> #[trigger] ready@[i1] < #[trigger] ready@[i2],
            forall|i: int| 0 <= i < ready@.len() ==> #[trigger] ready@[i] < n,
            forall|k: int|
                #![trigger states@[k]]
                #![trigger attempts@[k]]
                0 <= k < n ==> if ready@.take(j as int).contains(k as usize) {
                    states@[k] == LocalTaskState::Running { attempt: (a0[k] + 1) as u32 } && attempts@[k] == a0[k]
                        + 1
                } else {
                    states@[k] == mid[k] && attempts@[k] == a0[k]
                },
        decreases ready.len() - j,
    {
        let idx = ready[j];
        proof {
            if ready@.take(j as int).contains(idx) {
                let i = choose|i: int| 0 <= i < j && ready@.take(j as int)[i] == idx;
                assert(ready@[i] < ready@[j as int]);
            }
            assert(attempts@[idx as int] == a0[idx as int]);
        }
        start_attempt(idx, attempts, states);
        proof {
            assert forall|k: usize| #[trigger] ready@.take(j + 1).contains(k) <==> (ready@.take(j as int).contains(k)
                || k == idx) by {
                if ready@.take(j + 1).contains(k) {
                    let i = choose|i: int| 0 <= i < j + 1 && #[trigger] ready@.take(j + 1)[i] == k;
                    if i < j {
                        assert(ready@.take(j as int)[i] == k);
                    }
                }
                if ready@.take(j as int).contains(k) {
                    let i = choose|i: int| 0 <= i < j && #[trigger] ready@.take(j as int)[i] == k;
                    assert(ready@.take(j + 1)[i] == k);
                }
                if k == idx {
                    assert(ready@.take(j + 1)[j as int] == k);
                }
            }
        }
        j = j + 1;
    }
    proof {
        assert(ready@.take(j as int) =~= ready@);
        assert forall|k: int|
            #![trigger states@[k]]
            #![trigger attempts@[k]]
            0 <= k < n implies if is_ready(workflow.tasks@[k], s0, k) {
            &&& states@[k] == LocalTaskState::Running { attempt: (a0[k] + 1) as u32 }
            &&& attempts@[k] == a0[k] + 1
        } else if must_skip(workflow.tasks@[k], s0, k) {
            is_skipped_with(states@[k], "dependency failed"@) && attempts@[k] == a0[k]
        } else {
            states@[k] == s0[k] && attempts@[k] == a0[k]
        } by {
            assert(pr(k) == is_ready(workflow.tasks@[k], s0, k));
            assert(ps(k) == must_skip(workflow.tasks@[k], s0, k));
            if !pr(k) {
                assert(states@[k] == mid[k]);
            }
        }
    }
    ready
}


/// What an attempt's end means for the run: nothing when it succeeded, else the failure's
/// text (a timeout reads "task timed out").
pub fn attempt_failure(status: TaskExecutionStatus) -> (r: Option<String>)
    ensures
        match status {
            TaskExecutionStatus::Success => r is None,
            TaskExecutionStatus::TimedOut => r matches Some(t) && t@ == "task timed out"@,
            TaskExecutionStatus::Failed(e) => r == Some(e),
        },
{
    match status {
        TaskExecutionStatus::Success => None,
        TaskExecutionStatus::TimedOut => Some("task timed out".to_owned()),
        TaskExecutionStatus::Failed(e) => Some(e),
    }
}

} // verus!
