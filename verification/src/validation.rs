//! Validation of workflow definitions.
//!
//! The checks run in a fixed order and the first failure is reported: the workflow's
//! name and description, the presence of tasks, each task in turn (name, dependencies,
//! executor requirements, shape of `inputs`), dependency cycles, and finally the type
//! declarations and input bindings.
use indexmap::IndexMap;
use vstd::prelude::*;

use crate::error::{outcome_is, WorkflowValidationError, WveV};
use crate::graph::{graph_view, has_topo_order, lemma_all_settled_topo, settle_order, settled, valid_graph};
use crate::json::{as_str_spec, entries_find, entries_view, Json, JsonV};
use crate::keyed::{entries_get, first_key_at, has_key, key_index, lemma_first_key, lemma_first_key_exists};
use crate::maps::{task_entries, task_map_get_index, task_map_len};
use crate::schema::{check_type_schema, schema_err, strs_view};
use crate::text::{all_ws, concat2, concat3, str_eq, str_len, char_at, substring, trim_is_empty};
use crate::workflow::{types_sorted, ExecutorKind, TaskDefinition, Workflow};

verus! {

/// Whether one of the strings is `x`.
pub open spec fn seq_has_str(s: Seq<String>, x: Seq<char>) -> bool {
    exists|j: int| 0 <= j < s.len() && (#[trigger] s[j])@ == x
}

pub open spec fn or_else(a: Option<WveV>, b: Option<WveV>) -> Option<WveV> {
    if a is Some {
        a
    } else {
        b
    }
}

pub open spec fn custom(m: Seq<char>) -> Option<WveV> {
    Some(WveV::Custom(m))
}

/// `task '<name>' <rest>`
pub open spec fn tmsg(name: Seq<char>, rest: Seq<char>) -> Seq<char> {
    "task '"@ + name + "' "@ + rest
}

/// The first dependency of task `name`, from position `j` on, that is not a task of the
/// workflow or is the task itself.
pub open spec fn dep_error(
    tasks: Seq<(Seq<char>, TaskDefinition)>,
    name: Seq<char>,
    deps: Seq<String>,
    j: int,
) -> Option<WveV>
    decreases deps.len() - j,
{
    if j < 0 || j >= deps.len() {
        None
    } else if !has_key(tasks, deps[j]@) {
        Some(WveV::UnknownDependency { task: name, dependency: deps[j]@ })
    } else if deps[j]@ == name {
        Some(WveV::SelfDependency { task: name })
    } else {
        dep_error(tasks, name, deps, j + 1)
    }
}

/// What each executor requires of a task.
pub open spec fn executor_error(name: Seq<char>, t: TaskDefinition) -> Option<WveV> {
    match t.executor {
        ExecutorKind::Python => {
            let has_module = t.module matches Some(m) && m@.len() > 0;
            if t.file is None && !has_module {
                Some(WveV::MissingTaskFile { task: name })
            } else {
                None
            }
        },
        ExecutorKind::Process => {
            if t.command is None && t.file is None {
                Some(WveV::MissingTaskCommand { task: name })
            } else {
                None
            }
        },
        ExecutorKind::CloudRun => {
            if t.job is None || t.job->0@.len() == 0 {
                Some(WveV::MissingTaskJob { task: name })
            } else {
                None
            }
        },
        ExecutorKind::Library => {
            if t.file is None {
                Some(WveV::MissingTaskFile { task: name })
            } else {
                None
            }
        },
    }
}

/// The first problem with task `k` on its own.
pub open spec fn task_error(tasks: Seq<(Seq<char>, TaskDefinition)>, k: int) -> Option<WveV> {
    let name = tasks[k].0;
    let t = tasks[k].1;
    if all_ws(name) {
        Some(WveV::EmptyTaskName)
    } else {
        or_else(
            dep_error(tasks, name, t.depends_on@, 0),
            or_else(
                executor_error(name, t),
                if !(t.inputs@ is Null) && !(t.inputs@ is Object) {
                    custom(tmsg(name, "field 'inputs' must be an object"@))
                } else {
                    None
                },
            ),
        )
    }
}

pub open spec fn first_task_error(tasks: Seq<(Seq<char>, TaskDefinition)>, k: int) -> Option<WveV>
    decreases tasks.len() - k,
{
    if k < 0 || k >= tasks.len() {
        None
    } else {
        or_else(task_error(tasks, k), first_task_error(tasks, k + 1))
    }
}

/// The dependency graph of the tasks: each dependency by the position of its task.
pub open spec fn task_graph(tasks: Seq<(Seq<char>, TaskDefinition)>) -> Seq<Seq<int>> {
    Seq::new(
        tasks.len(),
        |k: int|
            Seq::new(
                tasks[k].1.depends_on@.len(),
                |j: int| key_index(tasks, tasks[k].1.depends_on@[j]@),
            ),
    )
}

/// The first node, from `k` on, that is not settled: from it a cycle can be reached.
pub open spec fn first_unsettled(g: Seq<Seq<int>>, k: int) -> Option<int>
    decreases g.len() - k,
{
    if k < 0 || k >= g.len() {
        None
    } else if !settled(g, k) {
        Some(k)
    } else {
        first_unsettled(g, k + 1)
    }
}

pub open spec fn cycle_error(tasks: Seq<(Seq<char>, TaskDefinition)>) -> Option<WveV> {
    match first_unsettled(task_graph(tasks), 0) {
        Some(k) => Some(WveV::Cycle { task: tasks[k].0 }),
        None => None,
    }
}

/// The first task, from `k` on, whose `depends_on` names `name`.
pub open spec fn first_dependent(tasks: Seq<(Seq<char>, TaskDefinition)>, name: Seq<char>, k: int) -> Option<
    Seq<char>,
>
    decreases tasks.len() - k,
{
    if k < 0 || k >= tasks.len() {
        None
    } else if seq_has_str(tasks[k].1.depends_on@, name) {
        Some(tasks[k].0)
    } else {
        first_dependent(tasks, name, k + 1)
    }
}

pub open spec fn opt_schema_err(
    o: Option<Json>,
    name: Seq<char>,
    path: Seq<char>,
    aliases: Seq<(Seq<char>, JsonV)>,
) -> Option<WveV> {
    match o {
        Some(s) => schema_err(s@, name, path, aliases, Seq::empty()),
        None => None,
    }
}

/// Type declarations of task `k`: a task that others depend on declares `output_type`,
/// a task with dependencies declares `input_type`, and declared schemas are valid.
pub open spec fn task_types_error(
    tasks: Seq<(Seq<char>, TaskDefinition)>,
    aliases: Seq<(Seq<char>, JsonV)>,
    k: int,
) -> Option<WveV> {
    let name = tasks[k].0;
    let t = tasks[k].1;
    match first_dependent(tasks, name, 0) {
        Some(d) if t.output_type is None => Some(WveV::MissingOutputType { task: name, depended_by: d }),
        _ => if t.depends_on@.len() > 0 && t.input_type is None {
            Some(WveV::MissingInputType { task: name })
        } else {
            or_else(
                opt_schema_err(t.output_type, name, "output_type"@, aliases),
                opt_schema_err(t.input_type, name, "input_type"@, aliases),
            )
        },
    }
}

pub open spec fn types_tasks_error(
    tasks: Seq<(Seq<char>, TaskDefinition)>,
    aliases: Seq<(Seq<char>, JsonV)>,
    k: int,
) -> Option<WveV>
    decreases tasks.len() - k,
{
    if k < 0 || k >= tasks.len() {
        None
    } else {
        or_else(task_types_error(tasks, aliases, k), types_tasks_error(tasks, aliases, k + 1))
    }
}

/// Each alias's schema is valid (checked in the aliases' order).
pub open spec fn alias_error(aliases: Seq<(Seq<char>, JsonV)>, k: int) -> Option<WveV>
    decreases aliases.len() - k,
{
    if k < 0 || k >= aliases.len() {
        None
    } else {
        or_else(
            schema_err(aliases[k].1, "<types>"@, "types."@ + aliases[k].0, aliases, Seq::empty()),
            alias_error(aliases, k + 1),
        )
    }
}

/// The pieces of `s` between occurrences of `c`, as `str::split` gives them.
pub open spec fn split_char(s: Seq<char>, c: char) -> Seq<Seq<char>>
    decreases s.len(),
{
    if s.len() == 0 {
        seq![Seq::empty()]
    } else {
        let r = split_char(s.drop_last(), c);
        if s.last() == c {
            r.push(Seq::empty())
        } else {
            r.update(r.len() - 1, r.last().push(s.last()))
        }
    }
}

pub proof fn lemma_split_nonempty(s: Seq<char>, c: char)
    ensures
        split_char(s, c).len() >= 1,
    decreases s.len(),
{
    if s.len() > 0 {
        lemma_split_nonempty(s.drop_last(), c);
    }
}

/// A reference `tasks.<task>.output[.<field>...]`: at least three parts, the first
/// `tasks` and the third `output`.
pub open spec fn ref_shape_ok(parts: Seq<Seq<char>>) -> bool {
    parts.len() >= 3 && parts[0] == "tasks"@ && parts[2] == "output"@
}

/// One input binding: an object with exactly one key, `const` or `ref`; a `ref` is a
/// string naming the output of a task listed in `depends_on`.
pub open spec fn binding_error(name: Seq<char>, deps: Seq<String>, key: Seq<char>, b: JsonV) -> Option<
    WveV,
> {
    match b {
        JsonV::Object(bo) => {
            let has_const = has_key(bo, "const"@);
            let has_ref = has_key(bo, "ref"@);
            if bo.len() != 1 || has_const == has_ref {
                custom(
                    tmsg(
                        name,
                        "input binding '"@ + key + "' must define exactly one of: const, ref"@,
                    ),
                )
            } else if has_ref {
                match as_str_spec(entries_get(bo, "ref"@)->0) {
                    None => custom(tmsg(name, "input binding '"@ + key + ".ref' must be a string"@)),
                    Some(r) => {
                        let parts = split_char(r, '.');
                        if !ref_shape_ok(parts) {
                            custom(
                                tmsg(
                                    name,
                                    "input binding '"@ + key + "' has invalid ref '"@ + r
                                        + "'; expected tasks.<task>.output[.<field>...]"@,
                                ),
                            )
                        } else if !seq_has_str(deps, parts[1]) {
                            custom(
                                tmsg(
                                    name,
                                    "input binding '"@ + key + "' ref '"@ + r + "' targets '"@
                                        + parts[1] + "' which is not listed in depends_on"@,
                                ),
                            )
                        } else {
                            None
                        }
                    },
                }
            } else {
                None
            }
        },
        _ => custom(
            tmsg(
                name,
                "input binding '"@ + key + "' must be an object with exactly one of: const, ref"@,
            ),
        ),
    }
}

pub open spec fn bindings_error(
    name: Seq<char>,
    deps: Seq<String>,
    be: Seq<(Seq<char>, JsonV)>,
    j: int,
) -> Option<WveV>
    decreases be.len() - j,
{
    if j < 0 || j >= be.len() {
        None
    } else {
        or_else(binding_error(name, deps, be[j].0, be[j].1), bindings_error(name, deps, be, j + 1))
    }
}

/// The first declared input (from `j` on) without a binding.
pub open spec fn missing_binding(
    name: Seq<char>,
    te: Seq<(Seq<char>, JsonV)>,
    be: Seq<(Seq<char>, JsonV)>,
    j: int,
) -> Option<WveV>
    decreases te.len() - j,
{
    if j < 0 || j >= te.len() {
        None
    } else if !has_key(be, te[j].0) {
        custom(tmsg(name, "inputs missing binding for '"@ + te[j].0 + "'"@))
    } else {
        missing_binding(name, te, be, j + 1)
    }
}

/// The first binding (from `j` on) that no declared input has.
pub open spec fn unknown_binding(
    name: Seq<char>,
    te: Seq<(Seq<char>, JsonV)>,
    be: Seq<(Seq<char>, JsonV)>,
    j: int,
) -> Option<WveV>
    decreases be.len() - j,
{
    if j < 0 || j >= be.len() {
        None
    } else if !has_key(te, be[j].0) {
        custom(tmsg(name, "inputs contains unknown binding '"@ + be[j].0 + "'"@))
    } else {
        unknown_binding(name, te, be, j + 1)
    }
}

/// An `input_type` is an object; when it declares fields, `inputs` binds exactly them.
pub open spec fn input_type_error(name: Seq<char>, t: TaskDefinition) -> Option<WveV> {
    match t.input_type {
        None => None,
        Some(it) => match it@ {
            JsonV::Object(te) => if te.len() == 0 {
                None
            } else {
                match t.inputs@ {
                    JsonV::Null => custom(
                        tmsg(name, "has input_type with fields but is missing 'inputs' bindings"@),
                    ),
                    JsonV::Object(be) => or_else(
                        missing_binding(name, te, be, 0),
                        unknown_binding(name, te, be, 0),
                    ),
                    _ => custom(tmsg(name, "inputs must be an object"@)),
                }
            },
            _ => custom(tmsg(name, "input_type must be an object type (for named arguments)"@)),
        },
    }
}

/// Given `inputs`, there is an `input_type`, and each binding is well formed.
pub open spec fn inputs_error(name: Seq<char>, t: TaskDefinition) -> Option<WveV> {
    if t.inputs@ is Null {
        None
    } else if t.input_type is None {
        custom(tmsg(name, "defines 'inputs' but is missing 'input_type'"@))
    } else {
        match t.inputs@ {
            JsonV::Object(be) => bindings_error(name, t.depends_on@, be, 0),
            _ => custom(tmsg(name, "inputs must be an object"@)),
        }
    }
}

pub open spec fn task_bindings_error(tasks: Seq<(Seq<char>, TaskDefinition)>, k: int) -> Option<
    WveV,
>
    decreases tasks.len() - k,
{
    if k < 0 || k >= tasks.len() {
        None
    } else {
        or_else(
            or_else(input_type_error(tasks[k].0, tasks[k].1), inputs_error(tasks[k].0, tasks[k].1)),
            task_bindings_error(tasks, k + 1),
        )
    }
}

pub open spec fn types_error(
    tasks: Seq<(Seq<char>, TaskDefinition)>,
    aliases: Seq<(Seq<char>, JsonV)>,
) -> Option<WveV> {
    or_else(
        types_tasks_error(tasks, aliases, 0),
        or_else(alias_error(aliases, 0), task_bindings_error(tasks, 0)),
    )
}

/// The first problem with a workflow definition, or `None` when it is valid.
pub open spec fn validation_error(w: Workflow) -> Option<WveV> {
    let tasks = task_entries(w.tasks);
    if all_ws(w.name@) {
        Some(WveV::EmptyWorkflowName)
    } else if w.description matches Some(d) && all_ws(d@) {
        custom("workflow description cannot be empty"@)
    } else if tasks.len() == 0 {
        Some(WveV::NoTasks)
    } else {
        or_else(
            first_task_error(tasks, 0),
            or_else(cycle_error(tasks), types_error(tasks, entries_view(w.types@))),
        )
    }
}

proof fn lemma_no_task_error(tasks: Seq<(Seq<char>, TaskDefinition)>, k: int, i: int)
    requires
        0 <= k <= i < tasks.len(),
        first_task_error(tasks, k) is None,
    ensures
        task_error(tasks, i) is None,
    decreases i - k,
{
    if k < i {
        lemma_no_task_error(tasks, k + 1, i);
    }
}

proof fn lemma_no_dep_error(
    tasks: Seq<(Seq<char>, TaskDefinition)>,
    name: Seq<char>,
    deps: Seq<String>,
    j: int,
    i: int,
)
    requires
        0 <= j <= i < deps.len(),
        dep_error(tasks, name, deps, j) is None,
    ensures
        has_key(tasks, deps[i]@),
        deps[i]@ != name,
    decreases i - j,
{
    if j < i {
        lemma_no_dep_error(tasks, name, deps, j + 1, i);
    }
}

proof fn lemma_none_unsettled(g: Seq<Seq<int>>, k: int, i: int)
    requires
        0 <= k <= i < g.len(),
        first_unsettled(g, k) is None,
    ensures
        settled(g, i),
    decreases i - k,
{
    if k < i {
        lemma_none_unsettled(g, k + 1, i);
    }
}

/// When no task has a problem of its own, every dependency names a task of the workflow
/// other than the dependent itself.
pub proof fn lemma_task_graph_valid(tasks: Seq<(Seq<char>, TaskDefinition)>)
    requires
        first_task_error(tasks, 0) is None,
    ensures
        valid_graph(task_graph(tasks)),
        forall|i: int, j: int|
            0 <= i < tasks.len() && 0 <= j < tasks[i].1.depends_on@.len() ==> first_key_at(
                tasks,
                tasks[i].1.depends_on@[j]@,
                #[trigger] task_graph(tasks)[i][j],
            ),
{
    let g = task_graph(tasks);
    assert forall|i: int, j: int|
        0 <= i < tasks.len() && 0 <= j < tasks[i].1.depends_on@.len() implies first_key_at(
            tasks,
            tasks[i].1.depends_on@[j]@,
            #[trigger] g[i][j],
        ) by {
        lemma_no_task_error(tasks, 0, i);
        assert(!all_ws(tasks[i].0));
        lemma_no_dep_error(tasks, tasks[i].0, tasks[i].1.depends_on@, 0, j);
        lemma_first_key_exists(tasks, tasks[i].1.depends_on@[j]@);
    }
    assert forall|i: int, j: int| 0 <= i < g.len() && 0 <= j < g[i].len() implies 0 <= #[trigger] g[i][j]
        < g.len() by {
        assert(first_key_at(tasks, tasks[i].1.depends_on@[j]@, g[i][j]));
    }
}

/// A workflow that validates has its dependencies among its own tasks and no dependency
/// cycle: every dependency names a task of the workflow, and its tasks can be listed so
/// that each comes after every task it depends on.
pub proof fn law_valid_workflow_is_acyclic(w: Workflow)
    requires
        validation_error(w) is None,
    ensures
        forall|i: int, j: int|
            0 <= i < task_entries(w.tasks).len() && 0 <= j < task_entries(w.tasks)[i].1.depends_on@.len()
                ==> has_key(task_entries(w.tasks), #[trigger] task_entries(w.tasks)[i].1.depends_on@[j]@),
        valid_graph(task_graph(task_entries(w.tasks))),
        has_topo_order(task_graph(task_entries(w.tasks))),
{
    let tasks = task_entries(w.tasks);
    let g = task_graph(tasks);
    lemma_task_graph_valid(tasks);
    assert forall|i: int, j: int| 0 <= i < tasks.len() && 0 <= j < tasks[i].1.depends_on@.len() implies has_key(
        tasks,
        #[trigger] tasks[i].1.depends_on@[j]@,
    ) by {
        assert(first_key_at(tasks, tasks[i].1.depends_on@[j]@, g[i][j]));
    }
    assert forall|k: int| 0 <= k < g.len() implies #[trigger] settled(g, k) by {
        lemma_none_unsettled(g, 0, k);
    }
    lemma_all_settled_topo(g);
}

fn task_message(name: &str, rest: &str) -> (r: String)
    ensures
        r@ == tmsg(name@, rest@),
{
    let mut r = concat3("task '", name, "' ");
    r.append(rest);
    r
}

fn custom_error(m: String) -> (r: WorkflowValidationError)
    ensures
        r@ == WveV::Custom(m@),
{
    WorkflowValidationError::Custom(m)
}

/// Splits `s` at each `c`, as `str::split` does.
pub fn split_on(s: &str, c: char) -> (r: Vec<String>)
    ensures
        strs_view(r@) == split_char(s@, c),
{
    let n = str_len(s);
    let mut pieces: Vec<String> = Vec::new();
    let mut start: usize = 0;
    let mut i: usize = 0;
    proof {
        assert(s@.take(0) =~= Seq::<char>::empty());
        assert(strs_view(pieces@).push(s@.subrange(0, 0)) =~= split_char(s@.take(0), c));
    }
    while i < n
        invariant
            n == s@.len(),
            start <= i <= n,
            strs_view(pieces@).push(s@.subrange(start as int, i as int)) == split_char(
                s@.take(i as int),
                c,
            ),
        decreases n - i,
    {
        let ch = char_at(s, i);
        let ghost before = strs_view(pieces@);
        let ghost cur = s@.subrange(start as int, i as int);
        proof {
            assert(s@.take(i + 1).drop_last() =~= s@.take(i as int));
            assert(s@.take(i + 1).last() == ch);
        }
        if ch == c {
            let piece = substring(s, start, i);
            pieces.push(piece);
            start = i + 1;
            proof {
                assert(strs_view(pieces@) =~= before.push(cur));
                assert(s@.subrange(start as int, i + 1) =~= Seq::<char>::empty());
            }
        } else {
            proof {
                assert(s@.subrange(start as int, i + 1) =~= cur.push(ch));
                let r = split_char(s@.take(i as int), c);
                assert(r =~= before.push(cur));
                assert(r.update(r.len() - 1, r.last().push(ch)) =~= before.push(cur.push(ch)));
            }
        }
        i = i + 1;
    }
    let last = substring(s, start, n);
    let ghost before = strs_view(pieces@);
    pieces.push(last);
    proof {
        assert(strs_view(pieces@) =~= before.push(s@.subrange(start as int, n as int)));
        assert(s@.take(n as int) =~= s@);
    }
    pieces
}

/// Position of the first task named `key`.
fn task_position(tasks: &IndexMap<String, TaskDefinition>, key: &str) -> (r: Option<usize>)
    ensures
        r is None ==> !has_key(task_entries(*tasks), key@),
        r matches Some(k) ==> first_key_at(task_entries(*tasks), key@, k as int) && key_index(
            task_entries(*tasks),
            key@,
        ) == k,
{
    let ghost te = task_entries(*tasks);
    let n = task_map_len(tasks);
    let mut i: usize = 0;
    while i < n
        invariant
            te == task_entries(*tasks),
            n == te.len(),
            i <= n,
            forall|j: int| 0 <= j < i ==> te[j].0 != key@,
        decreases n - i,
    {
        let (k, _) = task_map_get_index(tasks, i).unwrap();
        if str_eq(k.as_str(), key) {
            proof {
                lemma_first_key(te, key@, i as int);
            }
            return Some(i);
        }
        i = i + 1;
    }
    proof {
        if has_key(te, key@) {
            let k = choose|k: int| 0 <= k < te.len() && #[trigger] te[k].0 == key@;
            assert(te[k].0 != key@);
        }
    }
    None
}

fn check_dependencies(
    tasks: &IndexMap<String, TaskDefinition>,
    name: &String,
    deps: &Vec<String>,
) -> (r: Result<Vec<usize>, WorkflowValidationError>)
    ensures
        r is Ok <==> dep_error(task_entries(*tasks), name@, deps@, 0) is None,
        r matches Err(e) ==> dep_error(task_entries(*tasks), name@, deps@, 0) == Some(e@),
        r matches Ok(pos) ==> ints_of(pos@) == Seq::new(
            deps@.len(),
            |j: int| key_index(task_entries(*tasks), deps@[j]@),
        ),
        r matches Ok(pos) ==> forall|j: int| 0 <= j < pos.len() ==> #[trigger] pos@[j] < task_entries(*tasks).len(),
{
    let ghost te = task_entries(*tasks);
    let mut pos: Vec<usize> = Vec::new();
    let mut j: usize = 0;
    while j < deps.len()
        invariant
            te == task_entries(*tasks),
            j <= deps.len(),
            dep_error(te, name@, deps@, 0) == dep_error(te, name@, deps@, j as int),
            ints_of(pos@) == Seq::new(j as nat, |jj: int| key_index(te, deps@[jj]@)),
            forall|jj: int| 0 <= jj < pos.len() ==> #[trigger] pos@[jj] < te.len(),
        decreases deps.len() - j,
    {
        match task_position(tasks, deps[j].as_str()) {
            None => {
                return Err(
                    WorkflowValidationError::UnknownDependency {
                        task: name.clone(),
                        dependency: deps[j].clone(),
                    },
                );
            },
            Some(k) => {
                if str_eq(deps[j].as_str(), name.as_str()) {
                    return Err(WorkflowValidationError::SelfDependency { task: name.clone() });
                }
                let ghost before = ints_of(pos@);
                pos.push(k);
                proof {
                    assert(ints_of(pos@) =~= before.push(k as int));
                    assert(key_index(te, deps@[j as int]@) == k);
                    assert(ints_of(pos@) =~= Seq::new(
                        (j + 1) as nat,
                        |jj: int| key_index(te, deps@[jj]@),
                    ));
                }
            },
        }
        j = j + 1;
    }
    Ok(pos)
}

pub open spec fn ints_of(s: Seq<usize>) -> Seq<int> {
    Seq::new(s.len(), |i: int| s[i] as int)
}

fn check_executor(name: &String, t: &TaskDefinition) -> (r: Result<(), WorkflowValidationError>)
    ensures
        outcome_is(r, executor_error(name@, *t)),
{
    match t.executor {
        ExecutorKind::Python => {
            let has_module = match &t.module {
                Some(m) => str_len(m.as_str()) > 0,
                None => false,
            };
            if t.file.is_none() && !has_module {
                return Err(WorkflowValidationError::MissingTaskFile { task: name.clone() });
            }
        },
        ExecutorKind::Process => {
            if t.command.is_none() && t.file.is_none() {
                return Err(WorkflowValidationError::MissingTaskCommand { task: name.clone() });
            }
        },
        ExecutorKind::CloudRun => {
            let empty = match &t.job {
                Some(j) => str_len(j.as_str()) == 0,
                None => true,
            };
            if empty {
                return Err(WorkflowValidationError::MissingTaskJob { task: name.clone() });
            }
        },
        ExecutorKind::Library => {
            if t.file.is_none() {
                return Err(WorkflowValidationError::MissingTaskFile { task: name.clone() });
            }
        },
    }
    Ok(())
}

fn check_task(tasks: &IndexMap<String, TaskDefinition>, k: usize) -> (r: Result<
    Vec<usize>,
    WorkflowValidationError,
>)
    requires
        k < task_entries(*tasks).len(),
    ensures
        r is Ok <==> task_error(task_entries(*tasks), k as int) is None,
        r matches Err(e) ==> task_error(task_entries(*tasks), k as int) == Some(e@),
        r matches Ok(pos) ==> ints_of(pos@) == task_graph(task_entries(*tasks))[k as int],
        r matches Ok(pos) ==> forall|j: int| 0 <= j < pos.len() ==> #[trigger] pos@[j] < task_entries(*tasks).len(),
{
    let (name, t) = task_map_get_index(tasks, k).unwrap();
    if trim_is_empty(name.as_str()) {
        return Err(WorkflowValidationError::EmptyTaskName);
    }
    let pos = check_dependencies(tasks, name, &t.depends_on)?;
    check_executor(name, t)?;
    if !t.inputs.is_null() && !t.inputs.is_object() {
        proof {
            reveal_strlit("field 'inputs' must be an object");
        }
        return Err(custom_error(task_message(name.as_str(), "field 'inputs' must be an object")));
    }
    proof {
        assert(ints_of(pos@) =~= task_graph(task_entries(*tasks))[k as int]);
    }
    Ok(pos)
}

fn first_dependent_of(tasks: &IndexMap<String, TaskDefinition>, name: &str) -> (r: Option<String>)
    ensures
        r is Some == first_dependent(task_entries(*tasks), name@, 0) is Some,
        r matches Some(d) ==> first_dependent(task_entries(*tasks), name@, 0) == Some(d@),
{
    let ghost te = task_entries(*tasks);
    let n = task_map_len(tasks);
    let mut k: usize = 0;
    while k < n
        invariant
            te == task_entries(*tasks),
            n == te.len(),
            k <= n,
            first_dependent(te, name@, 0) == first_dependent(te, name@, k as int),
        decreases n - k,
    {
        let (other, t) = task_map_get_index(tasks, k).unwrap();
        let mut j: usize = 0;
        let mut found = false;
        while j < t.depends_on.len()
            invariant
                j <= t.depends_on.len(),
                found == (exists|jj: int| 0 <= jj < j && (#[trigger] t.depends_on@[jj])@ == name@),
            decreases t.depends_on.len() - j,
        {
            if str_eq(t.depends_on[j].as_str(), name) {
                found = true;
            }
            j = j + 1;
        }
        if found {
            return Some(other.clone());
        }
        k = k + 1;
    }
    None
}

fn check_opt_schema(
    o: &Option<Json>,
    name: &str,
    path: &str,
    aliases: &Vec<(String, Json)>,
) -> (r: Result<(), WorkflowValidationError>)
    ensures
        outcome_is(r, opt_schema_err(*o, name@, path@, entries_view(aliases@))),
{
    match o {
        Some(s) => {
            let stack: Vec<String> = Vec::new();
            proof {
                assert(strs_view(stack@) =~= Seq::empty());
            }
            check_type_schema(s, name, path, aliases, &stack)
        },
        None => Ok(()),
    }
}

fn check_task_types(tasks: &IndexMap<String, TaskDefinition>, aliases: &Vec<(String, Json)>, k: usize) -> (r:
    Result<(), WorkflowValidationError>)
    requires
        k < task_entries(*tasks).len(),
    ensures
        outcome_is(r, task_types_error(task_entries(*tasks), entries_view(aliases@), k as int)),
{
    let (name, t) = task_map_get_index(tasks, k).unwrap();
    match first_dependent_of(tasks, name.as_str()) {
        Some(d) => {
            if t.output_type.is_none() {
                return Err(
                    WorkflowValidationError::MissingOutputType { task: name.clone(), depended_by: d },
                );
            }
        },
        None => {},
    }
    if t.depends_on.len() > 0 && t.input_type.is_none() {
        return Err(WorkflowValidationError::MissingInputType { task: name.clone() });
    }
    proof {
        reveal_strlit("output_type");
        reveal_strlit("input_type");
    }
    check_opt_schema(&t.output_type, name.as_str(), "output_type", aliases)?;
    check_opt_schema(&t.input_type, name.as_str(), "input_type", aliases)
}

/// Whether one of the strings is `x`.
pub fn deps_contain(deps: &Vec<String>, x: &str) -> (r: bool)
    ensures
        r == seq_has_str(deps@, x@),
{
    let mut j: usize = 0;
    while j < deps.len()
        invariant
            j <= deps.len(),
            forall|jj: int| 0 <= jj < j ==> (#[trigger] deps@[jj])@ != x@,
        decreases deps.len() - j,
    {
        if str_eq(deps[j].as_str(), x) {
            return true;
        }
        j = j + 1;
    }
    false
}

fn binding_message(name: &str, a: &str, key: &str, b: &str) -> (r: WorkflowValidationError)
    ensures
        r@ == WveV::Custom(tmsg(name@, a@ + key@ + b@)),
{
    let rest = concat3(a, key, b);
    custom_error(task_message(name, rest.as_str()))
}

fn check_binding(name: &str, deps: &Vec<String>, key: &str, b: &Json) -> (r: Result<
    (),
    WorkflowValidationError,
>)
    ensures
        outcome_is(r, binding_error(name@, deps@, key@, b@)),
{
    match b.as_object() {
        None => Err(
            binding_message(
                name,
                "input binding '",
                key,
                "' must be an object with exactly one of: const, ref",
            ),
        ),
        Some(bo) => {
            let has_const = entries_find(bo, "const").is_some();
            let has_ref = entries_find(bo, "ref").is_some();
            if bo.len() != 1 || has_const == has_ref {
                return Err(
                    binding_message(
                        name,
                        "input binding '",
                        key,
                        "' must define exactly one of: const, ref",
                    ),
                );
            }
            if !has_ref {
                return Ok(());
            }
            let rv = b.get("ref").unwrap();
            match rv.as_str() {
                None => Err(binding_message(name, "input binding '", key, ".ref' must be a string")),
                Some(r) => {
                    let parts = split_on(r.as_str(), '.');
                    proof {
                        assert(strs_view(parts@).len() == parts.len());
                    }
                    if parts.len() < 3 || !str_eq(parts[0].as_str(), "tasks") || !str_eq(
                        parts[2].as_str(),
                        "output",
                    ) {
                        let mut rest = concat3("input binding '", key, "' has invalid ref '");
                        rest.append(r.as_str());
                        rest.append("'; expected tasks.<task>.output[.<field>...]");
                        return Err(custom_error(task_message(name, rest.as_str())));
                    }
                    proof {
                        assert(strs_view(parts@)[0] == parts@[0]@);
                        assert(strs_view(parts@)[1] == parts@[1]@);
                        assert(strs_view(parts@)[2] == parts@[2]@);
                    }
                    if !deps_contain(deps, parts[1].as_str()) {
                        let mut rest = concat3("input binding '", key, "' ref '");
                        rest.append(r.as_str());
                        rest.append("' targets '");
                        rest.append(parts[1].as_str());
                        rest.append("' which is not listed in depends_on");
                        return Err(custom_error(task_message(name, rest.as_str())));
                    }
                    Ok(())
                },
            }
        },
    }
}

fn check_input_type(name: &str, t: &TaskDefinition) -> (r: Result<(), WorkflowValidationError>)
    ensures
        outcome_is(r, input_type_error(name@, *t)),
{
    let it = match &t.input_type {
        None => {
            return Ok(());
        },
        Some(it) => it,
    };
    let te = match it.as_object() {
        None => {
            return Err(
                custom_error(
                    task_message(name, "input_type must be an object type (for named arguments)"),
                ),
            );
        },
        Some(te) => te,
    };
    if te.len() == 0 {
        return Ok(());
    }
    if t.inputs.is_null() {
        return Err(
            custom_error(
                task_message(name, "has input_type with fields but is missing 'inputs' bindings"),
            ),
        );
    }
    let be = match t.inputs.as_object() {
        None => {
            return Err(custom_error(task_message(name, "inputs must be an object")));
        },
        Some(be) => be,
    };
    let ghost tv = entries_view(te@);
    let ghost bv = entries_view(be@);
    let mut j: usize = 0;
    while j < te.len()
        invariant
            tv == entries_view(te@),
            bv == entries_view(be@),
            t.input_type matches Some(x) && x@ == JsonV::Object(tv),
            tv.len() > 0,
            t.inputs@ == JsonV::Object(bv),
            j <= te.len(),
            missing_binding(name@, tv, bv, 0) == missing_binding(name@, tv, bv, j as int),
        decreases te.len() - j,
    {
        proof {
            assert(tv[j as int].0 == te@[j as int].0@);
        }
        if entries_find(be, te[j].0.as_str()).is_none() {
            return Err(binding_message(name, "inputs missing binding for '", te[j].0.as_str(), "'"));
        }
        j = j + 1;
    }
    let mut j: usize = 0;
    while j < be.len()
        invariant
            tv == entries_view(te@),
            bv == entries_view(be@),
            t.input_type matches Some(x) && x@ == JsonV::Object(tv),
            tv.len() > 0,
            t.inputs@ == JsonV::Object(bv),
            missing_binding(name@, tv, bv, 0) is None,
            j <= be.len(),
            unknown_binding(name@, tv, bv, 0) == unknown_binding(name@, tv, bv, j as int),
        decreases be.len() - j,
    {
        proof {
            assert(bv[j as int].0 == be@[j as int].0@);
        }
        if entries_find(te, be[j].0.as_str()).is_none() {
            return Err(
                binding_message(name, "inputs contains unknown binding '", be[j].0.as_str(), "'"),
            );
        }
        j = j + 1;
    }
    Ok(())
}

fn check_inputs(name: &str, t: &TaskDefinition) -> (r: Result<(), WorkflowValidationError>)
    ensures
        outcome_is(r, inputs_error(name@, *t)),
{
    if t.inputs.is_null() {
        return Ok(());
    }
    if t.input_type.is_none() {
        return Err(custom_error(task_message(name, "defines 'inputs' but is missing 'input_type'")));
    }
    let be = match t.inputs.as_object() {
        None => {
            return Err(custom_error(task_message(name, "inputs must be an object")));
        },
        Some(be) => be,
    };
    let ghost bv = entries_view(be@);
    let mut j: usize = 0;
    while j < be.len()
        invariant
            bv == entries_view(be@),
            t.inputs@ == JsonV::Object(bv),
            t.input_type is Some,
            j <= be.len(),
            bindings_error(name@, t.depends_on@, bv, 0) == bindings_error(
                name@,
                t.depends_on@,
                bv,
                j as int,
            ),
        decreases be.len() - j,
    {
        proof {
            assert(bv[j as int] == (be@[j as int].0@, be@[j as int].1@));
        }
        match check_binding(name, &t.depends_on, be[j].0.as_str(), &be[j].1) {
            Ok(()) => {},
            Err(e) => {
                return Err(e);
            },
        }
        j = j + 1;
    }
    Ok(())
}

impl Workflow {
    fn check_types(&self) -> (r: Result<(), WorkflowValidationError>)
        ensures
            outcome_is(r, types_error(task_entries(self.tasks), entries_view(self.types@))),
    {
        let ghost te = task_entries(self.tasks);
        let ghost av = entries_view(self.types@);
        let n = task_map_len(&self.tasks);
        let mut k: usize = 0;
        while k < n
            invariant
                te == task_entries(self.tasks),
                av == entries_view(self.types@),
                n == te.len(),
                k <= n,
                types_tasks_error(te, av, 0) == types_tasks_error(te, av, k as int),
            decreases n - k,
        {
            match check_task_types(&self.tasks, &self.types, k) {
                Ok(()) => {},
                Err(e) => {
                    return Err(e);
                },
            }
            k = k + 1;
        }
        let mut k: usize = 0;
        while k < self.types.len()
            invariant
                te == task_entries(self.tasks),
                av == entries_view(self.types@),
                types_tasks_error(te, av, 0) is None,
                k <= self.types.len(),
                alias_error(av, 0) == alias_error(av, k as int),
            decreases self.types.len() - k,
        {
            let path = concat2("types.", self.types[k].0.as_str());
            let stack: Vec<String> = Vec::new();
            proof {
                assert(strs_view(stack@) =~= Seq::empty());
            }
            proof {
                assert(av[k as int] == (self.types@[k as int].0@, self.types@[k as int].1@));
            }
            match check_type_schema(&self.types[k].1, "<types>", path.as_str(), &self.types, &stack) {
                Ok(()) => {},
                Err(e) => {
                    return Err(e);
                },
            }
            k = k + 1;
        }
        let mut k: usize = 0;
        while k < n
            invariant
                te == task_entries(self.tasks),
                av == entries_view(self.types@),
                types_tasks_error(te, av, 0) is None,
                alias_error(av, 0) is None,
                n == te.len(),
                k <= n,
                task_bindings_error(te, 0) == task_bindings_error(te, k as int),
            decreases n - k,
        {
            let (name, t) = task_map_get_index(&self.tasks, k).unwrap();
            match check_input_type(name.as_str(), t) {
                Ok(()) => {},
                Err(e) => {
                    return Err(e);
                },
            }
            match check_inputs(name.as_str(), t) {
                Ok(()) => {},
                Err(e) => {
                    return Err(e);
                },
            }
            k = k + 1;
        }
        Ok(())
    }

    /// Validates the definition; the error is the first problem found (see
    /// `validation_error`).
    pub fn validate(&self) -> (r: Result<(), WorkflowValidationError>)
        requires
            types_sorted(self.types@),
        ensures
            outcome_is(r, validation_error(*self)),
    {
        if trim_is_empty(self.name.as_str()) {
            return Err(WorkflowValidationError::EmptyWorkflowName);
        }
        match &self.description {
            Some(d) => {
                if trim_is_empty(d.as_str()) {
                    return Err(custom_error("workflow description cannot be empty".to_owned()));
                }
            },
            None => {},
        }
        let ghost te = task_entries(self.tasks);
        let n = task_map_len(&self.tasks);
        if n == 0 {
            return Err(WorkflowValidationError::NoTasks);
        }
        let mut graph: Vec<Vec<usize>> = Vec::new();
        let mut k: usize = 0;
        while k < n
            invariant
                te == task_entries(self.tasks),
                !all_ws(self.name@),
                !(self.description matches Some(d) && all_ws(d@)),
                n == te.len(),
                k <= n,
                graph.len() == k,
                first_task_error(te, 0) == first_task_error(te, k as int),
                forall|i: int| 0 <= i < k ==> ints_of((#[trigger] graph@[i])@) == task_graph(te)[i],
                forall|i: int, j: int|
                    0 <= i < k && 0 <= j < graph@[i].len() ==> #[trigger] graph@[i]@[j] < n,
            decreases n - k,
        {
            let row = match check_task(&self.tasks, k) {
                Ok(row) => row,
                Err(e) => {
                    return Err(e);
                },
            };
            graph.push(row);
            k = k + 1;
        }
        let ghost g = task_graph(te);
        proof {
            assert(graph_view(graph@) =~= g) by {
                assert forall|i: int| 0 <= i < n implies #[trigger] graph_view(graph@)[i] == g[i] by {
                    assert(graph_view(graph@)[i] =~= ints_of(graph@[i]@));
                }
            }
            assert(valid_graph(g)) by {
                assert forall|i: int, j: int| 0 <= i < g.len() && 0 <= j < g[i].len() implies 0
                    <= #[trigger] g[i][j] < g.len() by {
                    assert(g[i][j] == ints_of(graph@[i]@)[j]);
                }
            }
        }
        let (_order, placed) = settle_order(&graph);
        let mut k: usize = 0;
        while k < n
            invariant
                te == task_entries(self.tasks),
                !all_ws(self.name@),
                !(self.description matches Some(d) && all_ws(d@)),
                g == task_graph(te),
                g == graph_view(graph@),
                n == te.len(),
                placed.len() == n,
                first_task_error(te, 0) is None,
                forall|i: int| 0 <= i < n ==> (placed[i] <==> #[trigger] settled(g, i)),
                k <= n,
                first_unsettled(g, 0) == first_unsettled(g, k as int),
            decreases n - k,
        {
            if !placed[k] {
                let (name, _) = task_map_get_index(&self.tasks, k).unwrap();
                return Err(WorkflowValidationError::Cycle { task: name.clone() });
            }
            k = k + 1;
        }
        self.check_types()
    }
}

} // verus!
