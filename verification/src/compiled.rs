//! Compilation of a validated workflow: tasks by position, dependencies as positions, a
//! topological order, and the rows stored for each task.
//!
//! Resolving a task's file against the file system and introspecting a Python task's
//! signature are done by the caller: `Workflow::compile_requests` says what to resolve and
//! introspect, and `Workflow::compile` takes what came back.
use indexmap::IndexMap;
use vstd::prelude::*;

use crate::error::{OrkError, WorkflowValidationError, WveV};
use crate::graph::{graph_view, has_topo_order, ints, is_topo_order, kahn_sorted, settle_order, valid_graph};
use crate::json::{empty_object, entries_set, entries_view, get_spec, lemma_object_view, Json, JsonV};
use crate::keyed::{entries_get, entries_insert, first_key_at, has_key, lemma_first_key};
use crate::maps::{
    position_entries, position_map_get, position_map_insert, position_map_new, task_entries,
    task_map_get_index, task_map_len,
};
use crate::schema::strs_view;
use crate::paths::{is_absolute, join, join_path, path_is_absolute};
use crate::text::{concat2, contains_char, contains_whitespace, has_char, has_ws, trim, trim_spec};
use crate::validation::{
    first_task_error, lemma_task_graph_valid, law_valid_workflow_is_acyclic, or_else, task_graph,
    validation_error,
};
use crate::workflow::{types_sorted, ExecutorKind, TaskDefinition, Workflow};

verus! {

/// A task of a compiled workflow; dependencies are positions in the workflow's task list.
#[derive(Debug)]
pub struct CompiledTask {
    pub name: String,
    pub executor: ExecutorKind,
    pub file: Option<String>,
    pub command: Option<String>,
    pub job: Option<String>,
    pub module: Option<String>,
    pub function: Option<String>,
    pub input: Json,
    pub inputs: Json,
    pub depends_on: Vec<usize>,
    pub timeout: u64,
    pub retries: u32,
    pub signature: Option<Json>,
    pub input_type: Option<Json>,
    pub output_type: Option<Json>,
}

/// A compiled workflow.
#[derive(Debug)]
pub struct CompiledWorkflow {
    pub name: String,
    pub tasks: Vec<CompiledTask>,
    pub name_index: IndexMap<String, usize>,
    pub topo: Vec<usize>,
    pub root: String,
}

/// What compiling one task needs from outside: the path of its file to be resolved, and
/// for a Python task with a file, the function whose signature is to be introspected.
#[derive(Debug)]
pub struct ArtifactRequest {
    pub file: Option<String>,
    pub function: Option<String>,
}

/// What came back for one task: the canonical path of its file (`None` when the file
/// could not be resolved), and the introspected signature or the reason it failed.
#[derive(Debug)]
pub struct TaskArtifacts {
    pub canonical_file: Option<String>,
    pub signature: Option<Result<Json, String>>,
}

pub open spec fn opt_str(o: Option<String>) -> Option<Seq<char>> {
    match o {
        Some(s) => Some(s@),
        None => None,
    }
}

pub open spec fn opt_json(o: Option<Json>) -> Option<JsonV> {
    match o {
        Some(j) => Some(j@),
        None => None,
    }
}

/// The path to resolve for a task: its file, joined to `root`, for executors that use one.
pub open spec fn file_request(t: TaskDefinition, root: Seq<char>) -> Option<Seq<char>> {
    if t.executor == ExecutorKind::CloudRun {
        None
    } else {
        match t.file {
            Some(f) => Some(join_path(root, f@)),
            None => None,
        }
    }
}

/// Whether a task's signature is introspected: a Python task with a file.
pub open spec fn introspected(t: TaskDefinition) -> bool {
    t.executor == ExecutorKind::Python && t.file is Some
}

/// The function introspected for a Python task: its `function`, or `main`.
pub open spec fn introspection_function(t: TaskDefinition) -> Seq<char> {
    match t.function {
        Some(f) => f@,
        None => "main"@,
    }
}

/// Why compiling task `name` fails, given what came back for it.
pub open spec fn artifact_error(
    name: Seq<char>,
    t: TaskDefinition,
    a: TaskArtifacts,
    root: Seq<char>,
) -> Option<WveV> {
    match file_request(t, root) {
        None => None,
        Some(p) => if a.canonical_file is None {
            Some(WveV::TaskFileNotFound { task: name, path: p })
        } else if introspected(t) {
            match a.signature {
                Some(Err(m)) => Some(WveV::Custom(m@)),
                _ => None,
            }
        } else {
            None
        },
    }
}

pub open spec fn first_artifact_error(
    tasks: Seq<(Seq<char>, TaskDefinition)>,
    arts: Seq<TaskArtifacts>,
    root: Seq<char>,
    k: int,
) -> Option<WveV>
    decreases tasks.len() - k,
{
    if k < 0 || k >= tasks.len() {
        None
    } else {
        or_else(
            artifact_error(tasks[k].0, tasks[k].1, arts[k], root),
            first_artifact_error(tasks, arts, root, k + 1),
        )
    }
}

/// Why compiling a workflow fails: validation first, then the tasks in order.
pub open spec fn compilation_error(w: Workflow, root: Seq<char>, arts: Seq<TaskArtifacts>) -> Option<
    WveV,
> {
    or_else(validation_error(w), first_artifact_error(task_entries(w.tasks), arts, root, 0))
}

/// The file a compiled task keeps: the canonical path, for executors that use a file.
pub open spec fn compiled_file(t: TaskDefinition, a: TaskArtifacts) -> Option<Seq<char>> {
    if t.executor == ExecutorKind::CloudRun || t.file is None {
        None
    } else {
        opt_str(a.canonical_file)
    }
}

/// The signature a compiled task keeps: the introspected one, for Python tasks with a file.
pub open spec fn compiled_signature(t: TaskDefinition, a: TaskArtifacts) -> Option<JsonV> {
    if introspected(t) {
        match a.signature {
            Some(Ok(s)) => Some(s@),
            _ => None,
        }
    } else {
        None
    }
}

pub open spec fn compiled_task_matches(
    c: CompiledTask,
    name: Seq<char>,
    t: TaskDefinition,
    a: TaskArtifacts,
    deps: Seq<int>,
) -> bool {
    &&& c.name@ == name
    &&& c.executor == t.executor
    &&& opt_str(c.file) == compiled_file(t, a)
    &&& c.command == t.command
    &&& c.job == t.job
    &&& c.module == t.module
    &&& c.function == t.function
    &&& c.input@ == t.input@
    &&& c.inputs@ == t.inputs@
    &&& ints(c.depends_on@) == deps
    &&& c.timeout == t.timeout
    &&& c.retries == t.retries
    &&& opt_json(c.signature) == compiled_signature(t, a)
    &&& opt_json(c.input_type) == opt_json(t.input_type)
    &&& opt_json(c.output_type) == opt_json(t.output_type)
}

/// Each task name with its position.
pub open spec fn index_entries(tasks: Seq<(Seq<char>, TaskDefinition)>) -> Seq<(Seq<char>, usize)> {
    Seq::new(tasks.len(), |k: int| (tasks[k].0, k as usize))
}

/// The dependency graph of compiled tasks.
pub open spec fn compiled_graph(tasks: Seq<CompiledTask>) -> Seq<Seq<int>> {
    Seq::new(tasks.len(), |i: int| ints(tasks[i].depends_on@))
}

/// What a successful compilation holds.
pub open spec fn compiled_from(
    c: CompiledWorkflow,
    w: Workflow,
    root: Seq<char>,
    arts: Seq<TaskArtifacts>,
) -> bool {
    let te = task_entries(w.tasks);
    &&& c.name == w.name
    &&& c.root@ == root
    &&& c.tasks.len() == te.len()
    &&& forall|k: int|
        0 <= k < te.len() ==> compiled_task_matches(
            #[trigger] c.tasks@[k],
            te[k].0,
            te[k].1,
            arts[k],
            task_graph(te)[k],
        )
    &&& forall|k: int| 0 <= k < te.len() ==> #[trigger] first_key_at(te, te[k].0, k)
    &&& position_entries(c.name_index) == index_entries(te)
    &&& valid_graph(task_graph(te))
    &&& compiled_graph(c.tasks@) == task_graph(te)
    &&& is_topo_order(task_graph(te), ints(c.topo@))
    &&& kahn_sorted(task_graph(te), ints(c.topo@))
}

fn clone_opt_str(o: &Option<String>) -> (r: Option<String>)
    ensures
        r == *o,
{
    match o {
        Some(s) => Some(s.clone()),
        None => None,
    }
}

fn clone_opt_json(o: &Option<Json>) -> (r: Option<Json>)
    ensures
        opt_json(r) == opt_json(*o),
{
    match o {
        Some(j) => Some(j.deep_clone()),
        None => None,
    }
}

fn copy_indices(v: &Vec<usize>) -> (r: Vec<usize>)
    ensures
        r@ == v@,
{
    let mut r: Vec<usize> = Vec::new();
    let mut i: usize = 0;
    while i < v.len()
        invariant
            i <= v.len(),
            r@ == v@.take(i as int),
        decreases v.len() - i,
    {
        r.push(v[i]);
        i = i + 1;
        assert(r@ =~= v@.take(i as int));
    }
    assert(v@.take(v.len() as int) =~= v@);
    r
}

fn is_python(e: ExecutorKind) -> (r: bool)
    ensures
        r == (e == ExecutorKind::Python),
{
    match e {
        ExecutorKind::Python => true,
        _ => false,
    }
}

fn is_cloudrun(e: ExecutorKind) -> (r: bool)
    ensures
        r == (e == ExecutorKind::CloudRun),
{
    match e {
        ExecutorKind::CloudRun => true,
        _ => false,
    }
}

/// Orders the tasks so that each comes after the tasks it depends on, in the order of
/// Kahn's algorithm with a first-in first-out queue, or reports a cycle when no such
/// order exists.
pub fn topo_sort(tasks: &Vec<CompiledTask>) -> (r: Result<Vec<usize>, OrkError>)
    requires
        valid_graph(compiled_graph(tasks@)),
    ensures
        r is Ok <==> has_topo_order(compiled_graph(tasks@)),
        r matches Ok(o) ==> is_topo_order(compiled_graph(tasks@), ints(o@)),
        r matches Ok(o) ==> kahn_sorted(compiled_graph(tasks@), ints(o@)),
        r matches Err(e) ==> e matches OrkError::InvalidWorkflow(v) && v@ == (WveV::Cycle {
            task: "<unknown>"@,
        }),
{
    let mut deps: Vec<Vec<usize>> = Vec::new();
    let mut i: usize = 0;
    while i < tasks.len()
        invariant
            i <= tasks.len(),
            deps.len() == i,
            forall|j: int| 0 <= j < i ==> (#[trigger] deps@[j])@ == tasks@[j].depends_on@,
        decreases tasks.len() - i,
    {
        deps.push(copy_indices(&tasks[i].depends_on));
        i = i + 1;
    }
    proof {
        assert(graph_view(deps@) =~= compiled_graph(tasks@)) by {
            assert forall|j: int| 0 <= j < tasks.len() implies #[trigger] graph_view(deps@)[j]
                == compiled_graph(tasks@)[j] by {
                assert(graph_view(deps@)[j] =~= compiled_graph(tasks@)[j]);
            }
        }
    }
    let (order, _placed) = settle_order(&deps);
    if order.len() != tasks.len() {
        proof {
            reveal_strlit("<unknown>");
        }
        return Err(
            OrkError::InvalidWorkflow(
                WorkflowValidationError::Cycle { task: "<unknown>".to_owned() },
            ),
        );
    }
    Ok(order)
}

impl Workflow {
    /// For each task, what compiling it needs from the file system and from signature
    /// introspection.
    pub fn compile_requests(&self, root: &str) -> (r: Vec<ArtifactRequest>)
        ensures
            r.len() == task_entries(self.tasks).len(),
            forall|k: int|
                0 <= k < r.len() ==> opt_str((#[trigger] r@[k]).file) == file_request(
                    task_entries(self.tasks)[k].1,
                    root@,
                ),
            forall|k: int|
                0 <= k < r.len() ==> opt_str((#[trigger] r@[k]).function) == (if introspected(
                    task_entries(self.tasks)[k].1,
                ) {
                    Some(introspection_function(task_entries(self.tasks)[k].1))
                } else {
                    None
                }),
    {
        let ghost te = task_entries(self.tasks);
        let n = task_map_len(&self.tasks);
        let mut r: Vec<ArtifactRequest> = Vec::new();
        let mut k: usize = 0;
        while k < n
            invariant
                te == task_entries(self.tasks),
                n == te.len(),
                k <= n,
                r.len() == k,
                forall|j: int| 0 <= j < k ==> opt_str((#[trigger] r@[j]).file) == file_request(te[j].1, root@),
                forall|j: int|
                    0 <= j < k ==> opt_str((#[trigger] r@[j]).function) == (if introspected(te[j].1) {
                        Some(introspection_function(te[j].1))
                    } else {
                        None
                    }),
            decreases n - k,
        {
            let (_, t) = task_map_get_index(&self.tasks, k).unwrap();
            let file = if is_cloudrun(t.executor) {
                None
            } else {
                match &t.file {
                    Some(f) => Some(join(root, f.as_str())),
                    None => None,
                }
            };
            let function = if is_python(t.executor) && t.file.is_some() {
                match &t.function {
                    Some(f) => Some(f.clone()),
                    None => {
                        proof {
                            reveal_strlit("main");
                        }
                        Some("main".to_owned())
                    },
                }
            } else {
                None
            };
            r.push(ArtifactRequest { file, function });
            k = k + 1;
        }
        r
    }
}

fn compile_task(
    tasks: &IndexMap<String, TaskDefinition>,
    name_index: &IndexMap<String, usize>,
    k: usize,
    a: &TaskArtifacts,
    root: &str,
) -> (r: Result<CompiledTask, WorkflowValidationError>)
    requires
        k < task_entries(*tasks).len(),
        first_task_error(task_entries(*tasks), 0) is None,
        position_entries(*name_index) == index_entries(task_entries(*tasks)),
    ensures
        r is Err <==> artifact_error(
            task_entries(*tasks)[k as int].0,
            task_entries(*tasks)[k as int].1,
            *a,
            root@,
        ) is Some,
        r matches Err(e) ==> artifact_error(
            task_entries(*tasks)[k as int].0,
            task_entries(*tasks)[k as int].1,
            *a,
            root@,
        ) == Some(e@),
        r matches Ok(c) ==> compiled_task_matches(
            c,
            task_entries(*tasks)[k as int].0,
            task_entries(*tasks)[k as int].1,
            *a,
            task_graph(task_entries(*tasks))[k as int],
        ),
{
    let ghost te = task_entries(*tasks);
    let ghost g = task_graph(te);
    let ghost pos = index_entries(te);
    let n = task_map_len(tasks);
    let (name, t) = task_map_get_index(tasks, k).unwrap();
    let mut signature: Option<Json> = None;
    let file: Option<String> = if is_cloudrun(t.executor) {
        None
    } else {
        match &t.file {
            None => None,
            Some(f) => {
                let resolved = join(root, f.as_str());
                match &a.canonical_file {
                    None => {
                        return Err(
                            WorkflowValidationError::TaskFileNotFound {
                                task: name.clone(),
                                path: resolved,
                            },
                        );
                    },
                    Some(c) => {
                        if is_python(t.executor) {
                            match &a.signature {
                                Some(Ok(s)) => {
                                    signature = Some(s.deep_clone());
                                },
                                Some(Err(m)) => {
                                    return Err(WorkflowValidationError::Custom(m.clone()));
                                },
                                None => {},
                            }
                        }
                        Some(c.clone())
                    },
                }
            },
        }
    };
    proof {
        lemma_task_graph_valid(te);
    }
    let mut deps: Vec<usize> = Vec::new();
    let mut j: usize = 0;
    while j < t.depends_on.len()
        invariant
            te == task_entries(*tasks),
            g == task_graph(te),
            pos == index_entries(te),
            position_entries(*name_index) == pos,
            k < te.len(),
            n == te.len(),
            te[k as int].1 == *t,
            j <= t.depends_on.len(),
            ints(deps@) == g[k as int].take(j as int),
            forall|i: int, jj: int|
                0 <= i < te.len() && 0 <= jj < te[i].1.depends_on@.len() ==> first_key_at(
                    te,
                    te[i].1.depends_on@[jj]@,
                    #[trigger] g[i][jj],
                ),
        decreases t.depends_on.len() - j,
    {
        let d = &t.depends_on[j];
        let ghost gi = g[k as int][j as int];
        proof {
            assert(first_key_at(te, d@, gi));
            assert(first_key_at(pos, d@, gi));
            lemma_first_key(pos, d@, gi);
        }
        let p = position_map_get(name_index, d.as_str()).unwrap();
        let ghost before = ints(deps@);
        deps.push(p);
        j = j + 1;
        proof {
            assert(ints(deps@) =~= before.push(gi));
            assert(ints(deps@) =~= g[k as int].take(j as int));
        }
    }
    proof {
        assert(g[k as int].take(j as int) =~= g[k as int]);
    }
    Ok(
        CompiledTask {
            name: name.clone(),
            executor: t.executor,
            file,
            command: clone_opt_str(&t.command),
            job: clone_opt_str(&t.job),
            module: clone_opt_str(&t.module),
            function: clone_opt_str(&t.function),
            input: t.input.deep_clone(),
            inputs: t.inputs.deep_clone(),
            depends_on: deps,
            timeout: t.timeout,
            retries: t.retries,
            signature,
            input_type: clone_opt_json(&t.input_type),
            output_type: clone_opt_json(&t.output_type),
        },
    )
}

impl Workflow {
    /// Validates the workflow, then compiles its tasks in order with what came back for
    /// each (`artifacts`, one per task, as `compile_requests` asked), and orders them.
    pub fn compile(&self, root: &str, artifacts: &Vec<TaskArtifacts>) -> (r: Result<
        CompiledWorkflow,
        OrkError,
    >)
        requires
            artifacts.len() == task_entries(self.tasks).len(),
            types_sorted(self.types@),
        ensures
            r is Err <==> compilation_error(*self, root@, artifacts@) is Some,
            r matches Err(e) ==> e matches OrkError::InvalidWorkflow(v) && compilation_error(
                *self,
                root@,
                artifacts@,
            ) == Some(v@),
            r matches Ok(c) ==> compiled_from(c, *self, root@, artifacts@),
    {
        match self.validate() {
            Ok(()) => {},
            Err(e) => {
                return Err(OrkError::InvalidWorkflow(e));
            },
        }
        let ghost te = task_entries(self.tasks);
        let ghost g = task_graph(te);
        proof {
            law_valid_workflow_is_acyclic(*self);
        }
        let n = task_map_len(&self.tasks);
        let mut name_index = position_map_new();
        let mut i: usize = 0;
        while i < n
            invariant
                te == task_entries(self.tasks),
                n == te.len(),
                i <= n,
                position_entries(name_index) == index_entries(te).take(i as int),
                forall|j: int| 0 <= j < i ==> #[trigger] first_key_at(te, te[j].0, j),
            decreases n - i,
        {
            let (name, _) = task_map_get_index(&self.tasks, i).unwrap();
            let ghost before = position_entries(name_index);
            proof {
                if has_key(before, name@) {
                    let j = choose|j: int| 0 <= j < before.len() && #[trigger] before[j].0 == name@;
                    assert(before[j].0 == te[j].0);
                }
            }
            position_map_insert(&mut name_index, name.clone(), i);
            i = i + 1;
            proof {
                assert(position_entries(name_index) =~= index_entries(te).take(i as int));
            }
        }
        proof {
            assert(index_entries(te).take(n as int) =~= index_entries(te));
        }
        let mut tasks: Vec<CompiledTask> = Vec::new();
        let mut k: usize = 0;
        while k < n
            invariant
                te == task_entries(self.tasks),
                g == task_graph(te),
                n == te.len(),
                artifacts.len() == n,
                validation_error(*self) is None,
                first_task_error(te, 0) is None,
                position_entries(name_index) == index_entries(te),
                forall|j: int| 0 <= j < n ==> #[trigger] first_key_at(te, te[j].0, j),
                valid_graph(g),
                k <= n,
                tasks.len() == k,
                first_artifact_error(te, artifacts@, root@, 0) == first_artifact_error(
                    te,
                    artifacts@,
                    root@,
                    k as int,
                ),
                forall|j: int|
                    0 <= j < k ==> compiled_task_matches(
                        #[trigger] tasks@[j],
                        te[j].0,
                        te[j].1,
                        artifacts@[j],
                        g[j],
                    ),
            decreases n - k,
        {
            match compile_task(&self.tasks, &name_index, k, &artifacts[k], root) {
                Ok(c) => {
                    tasks.push(c);
                },
                Err(e) => {
                    return Err(OrkError::InvalidWorkflow(e));
                },
            }
            k = k + 1;
        }
        proof {
            assert(compiled_graph(tasks@) =~= g) by {
                assert forall|j: int| 0 <= j < n implies #[trigger] compiled_graph(tasks@)[j]
                    == g[j] by {
                    assert(compiled_task_matches(tasks@[j], te[j].0, te[j].1, artifacts@[j], g[j]));
                }
            }
        }
        let topo = match topo_sort(&tasks) {
            Ok(o) => o,
            Err(e) => {
                return Err(e);
            },
        };
        Ok(
            CompiledWorkflow {
                name: self.name.clone(),
                tasks,
                name_index,
                topo,
                root: root.to_owned(),
            },
        )
    }
}

/// A task row stored for a compiled workflow.
#[derive(Debug)]
pub struct NewWorkflowTask {
    pub task_index: i32,
    pub task_name: String,
    pub executor_type: String,
    pub depends_on: Vec<String>,
    pub params: Json,
    pub signature: Option<Json>,
}

/// A process command as it is run from the workflow's root: a command with whitespace is
/// a shell command and an absolute path or a bare program name is kept; any other
/// relative path is joined to `root`.
pub open spec fn process_command(command: Seq<char>, root: Seq<char>) -> Seq<char> {
    if has_ws(command) || is_absolute(command) || !has_char(command, '/') {
        command
    } else {
        join_path(root, command)
    }
}

/// Resolves a relative process command against the workflow root.
pub fn resolve_process_command(command: &str, root: &str) -> (r: String)
    ensures
        r@ == process_command(command@, root@),
{
    if contains_whitespace(command) {
        return command.to_owned();
    }
    if path_is_absolute(command) || !contains_char(command, '/') {
        return command.to_owned();
    }
    join(root, command)
}

pub open spec fn executor_type_name(e: ExecutorKind) -> Seq<char> {
    match e {
        ExecutorKind::CloudRun => "cloudrun"@,
        ExecutorKind::Process => "process"@,
        ExecutorKind::Python => "python"@,
        ExecutorKind::Library => "library"@,
    }
}

/// A string entry when the value is present.
pub open spec fn opt_entry(key: Seq<char>, o: Option<Seq<char>>) -> Seq<(Seq<char>, JsonV)> {
    match o {
        Some(s) => seq![(key, JsonV::Str(s))],
        None => Seq::empty(),
    }
}

/// The parameters each executor takes from a compiled task.
pub open spec fn executor_params(t: CompiledTask, root: Seq<char>) -> Seq<(Seq<char>, JsonV)> {
    match t.executor {
        ExecutorKind::CloudRun => opt_entry("job_name"@, opt_str(t.job)),
        ExecutorKind::Process => match t.command {
            Some(c) => seq![("command"@, JsonV::Str(process_command(c@, root)))],
            None => opt_entry("command"@, opt_str(t.file)),
        },
        ExecutorKind::Python => opt_entry("task_file"@, opt_str(t.file)) + opt_entry(
            "task_module"@,
            opt_str(t.module),
        ) + opt_entry("task_function"@, opt_str(t.function)) + seq![
            ("python_path"@, JsonV::Str(root)),
        ],
        ExecutorKind::Library => opt_entry("library_path"@, opt_str(t.file)),
    }
}

/// The stored parameters of a task, in the order they are set.
pub open spec fn task_params(t: CompiledTask, root: Seq<char>) -> Seq<(Seq<char>, JsonV)> {
    (if t.inputs@ is Null {
        Seq::empty()
    } else {
        seq![("task_bindings"@, t.inputs@)]
    }) + (if t.input@ is Null {
        Seq::empty()
    } else {
        seq![("task_input"@, t.input@)]
    }) + seq![
        ("max_retries"@, JsonV::PosInt(t.retries as u64)),
        ("timeout_seconds"@, JsonV::PosInt(t.timeout)),
    ] + executor_params(t, root)
}

/// Sets `key` of a signature to a declared type; a null signature becomes an object.
pub open spec fn with_type(sig: JsonV, key: Seq<char>, ty: Option<JsonV>) -> JsonV {
    match ty {
        None => sig,
        Some(v) => match sig {
            JsonV::Null => JsonV::Object(seq![(key, v)]),
            JsonV::Object(e) => JsonV::Object(entries_insert(e, key, v)),
            _ => sig,
        },
    }
}

/// A declared type can only be set on a signature that is an object or null.
pub open spec fn signature_mergeable(t: CompiledTask) -> bool {
    (t.input_type is Some || t.output_type is Some) ==> match opt_json(t.signature) {
        Some(s) => s is Null || s is Object,
        None => true,
    }
}

/// The stored signature: the introspected one (or an empty object) with the declared
/// input and output types set, and none when that leaves an empty object.
pub open spec fn stored_signature(t: CompiledTask) -> Option<JsonV> {
    let base = match opt_json(t.signature) {
        Some(s) => s,
        None => empty_object(),
    };
    let s = with_type(
        with_type(base, "input_type"@, opt_json(t.input_type)),
        "output_type"@,
        opt_json(t.output_type),
    );
    if s == empty_object() {
        None
    } else {
        Some(s)
    }
}

/// The names of the tasks at the given positions; positions outside the list are skipped.
pub open spec fn dep_names(tasks: Seq<CompiledTask>, deps: Seq<usize>) -> Seq<Seq<char>>
    decreases deps.len(),
{
    if deps.len() == 0 {
        Seq::empty()
    } else {
        dep_names(tasks, deps.drop_last()) + (if deps.last() < tasks.len() {
            seq![tasks[deps.last() as int].name@]
        } else {
            Seq::empty()
        })
    }
}

pub open spec fn row_matches(r: NewWorkflowTask, c: CompiledWorkflow, k: int) -> bool {
    let t = c.tasks@[k];
    &&& r.task_index == k as i32
    &&& r.task_name@ == t.name@
    &&& r.executor_type@ == executor_type_name(t.executor)
    &&& strs_view(r.depends_on@) == dep_names(c.tasks@, t.depends_on@)
    &&& r.params@ == JsonV::Object(task_params(t, c.root@))
    &&& opt_json(r.signature) == stored_signature(t)
}

/// A stored row carries what dispatch needs of its task: the task's input bindings under
/// `task_bindings` when it has any (inputs not null), its static input under `task_input`
/// when it has one, and its retries and timeout under `max_retries` and
/// `timeout_seconds`.
pub proof fn law_row_params_carry_task_settings(r: NewWorkflowTask, c: CompiledWorkflow, k: int)
    requires
        0 <= k < c.tasks.len(),
        row_matches(r, c, k),
    ensures
        !(c.tasks@[k].inputs@ is Null) ==> get_spec(r.params@, "task_bindings"@) == Some(c.tasks@[k].inputs@),
        !(c.tasks@[k].input@ is Null) ==> get_spec(r.params@, "task_input"@) == Some(c.tasks@[k].input@),
        get_spec(r.params@, "max_retries"@) == Some(JsonV::PosInt(c.tasks@[k].retries as u64)),
        get_spec(r.params@, "timeout_seconds"@) == Some(JsonV::PosInt(c.tasks@[k].timeout)),
{
    reveal_strlit("task_bindings");
    reveal_strlit("task_input");
    reveal_strlit("max_retries");
    reveal_strlit("timeout_seconds");
    let t = c.tasks@[k];
    let e = task_params(t, c.root@);
    let a: Seq<(Seq<char>, JsonV)> = if t.inputs@ is Null {
        Seq::empty()
    } else {
        seq![("task_bindings"@, t.inputs@)]
    };
    let b: Seq<(Seq<char>, JsonV)> = if t.input@ is Null {
        Seq::empty()
    } else {
        seq![("task_input"@, t.input@)]
    };
    let m = seq![
        ("max_retries"@, JsonV::PosInt(t.retries as u64)),
        ("timeout_seconds"@, JsonV::PosInt(t.timeout)),
    ];
    assert(e == a + b + m + executor_params(t, c.root@));
    let na = a.len() as int;
    let nb = b.len() as int;
    if !(t.inputs@ is Null) {
        assert(e[0] == ("task_bindings"@, t.inputs@));
        lemma_first_key(e, "task_bindings"@, 0);
    }
    if !(t.input@ is Null) {
        assert(e[na] == ("task_input"@, t.input@));
        assert forall|j: int| 0 <= j < na implies e[j].0 != "task_input"@ by {
            assert(e[j].0 == "task_bindings"@);
            assert("task_bindings"@.len() != "task_input"@.len());
        }
        lemma_first_key(e, "task_input"@, na);
    }
    assert(e[na + nb] == ("max_retries"@, JsonV::PosInt(t.retries as u64)));
    assert forall|j: int| 0 <= j < na + nb implies e[j].0 != "max_retries"@ by {
        if j < na {
            assert(e[j].0 == "task_bindings"@);
        } else {
            assert(e[j].0 == "task_input"@);
        }
    }
    lemma_first_key(e, "max_retries"@, na + nb);
    assert(e[na + nb + 1] == ("timeout_seconds"@, JsonV::PosInt(t.timeout)));
    assert forall|j: int| 0 <= j < na + nb + 1 implies e[j].0 != "timeout_seconds"@ by {
        if j < na {
            assert(e[j].0 == "task_bindings"@);
        } else if j < na + nb {
            assert(e[j].0 == "task_input"@);
        } else {
            assert(e[j].0 == "max_retries"@);
        }
    }
    lemma_first_key(e, "timeout_seconds"@, na + nb + 1);
}

proof fn lemma_row_param_names()
    ensures
        "task_bindings"@.len() == 13,
        "task_input"@.len() == 10,
        "max_retries"@.len() == 11,
        "timeout_seconds"@.len() == 15,
        "job_name"@.len() == 8,
        "command"@.len() == 7,
        "task_file"@.len() == 9,
        "task_module"@.len() == 11,
        "task_function"@.len() == 13,
        "python_path"@.len() == 11,
        "library_path"@.len() == 12,
        "task_bindings"@ != "task_function"@,
        "max_retries"@ != "task_module"@,
        "max_retries"@ != "python_path"@,
        "task_module"@ != "python_path"@,
{
    reveal_strlit("task_bindings");
    reveal_strlit("task_input");
    reveal_strlit("max_retries");
    reveal_strlit("timeout_seconds");
    reveal_strlit("job_name");
    reveal_strlit("command");
    reveal_strlit("task_file");
    reveal_strlit("task_module");
    reveal_strlit("task_function");
    reveal_strlit("python_path");
    reveal_strlit("library_path");
    assert("task_bindings"@[5] != "task_function"@[5]);
    assert("max_retries"@[0] != "task_module"@[0]);
    assert("max_retries"@[0] != "python_path"@[0]);
    assert("task_module"@[0] != "python_path"@[0]);
}

/// The key of entry `k` is `key`, and no entry before it has that key.
proof fn lemma_first_of(e: Seq<(Seq<char>, JsonV)>, key: Seq<char>, k: int)
    requires
        0 <= k < e.len(),
        e[k].0 == key,
        forall|j: int| 0 <= j < k ==> e[j].0 != key,
    ensures
        get_spec(JsonV::Object(e), key) == Some(e[k].1),
{
    lemma_first_key(e, key, k);
}

/// A stored row carries what its executor needs: a process task its command line (or its
/// file), a Cloud Run task its job name, a Python task its file, module and function and
/// the workflow's root as its Python path, and a library task its library's path.
pub proof fn law_row_params_carry_executor_settings(r: NewWorkflowTask, c: CompiledWorkflow, k: int)
    requires
        0 <= k < c.tasks.len(),
        row_matches(r, c, k),
    ensures
        ({
            let t = c.tasks@[k];
            let root = c.root@;
            &&& (t.executor == ExecutorKind::Process && t.command is Some) ==> get_spec(r.params@, "command"@)
                == Some(JsonV::Str(process_command(t.command->0@, root)))
            &&& (t.executor == ExecutorKind::Process && t.command is None && t.file is Some) ==> get_spec(
                r.params@,
                "command"@,
            ) == Some(JsonV::Str(t.file->0@))
            &&& (t.executor == ExecutorKind::CloudRun && t.job is Some) ==> get_spec(r.params@, "job_name"@) == Some(
                JsonV::Str(t.job->0@),
            )
            &&& (t.executor == ExecutorKind::Python && t.file is Some) ==> get_spec(r.params@, "task_file"@) == Some(
                JsonV::Str(t.file->0@),
            )
            &&& (t.executor == ExecutorKind::Python && t.module is Some) ==> get_spec(r.params@, "task_module"@)
                == Some(JsonV::Str(t.module->0@))
            &&& (t.executor == ExecutorKind::Python && t.function is Some) ==> get_spec(r.params@, "task_function"@)
                == Some(JsonV::Str(t.function->0@))
            &&& t.executor == ExecutorKind::Python ==> get_spec(r.params@, "python_path"@) == Some(JsonV::Str(root))
            &&& (t.executor == ExecutorKind::Library && t.file is Some) ==> get_spec(r.params@, "library_path"@)
                == Some(JsonV::Str(t.file->0@))
        }),
{
    lemma_row_param_names();
    let t = c.tasks@[k];
    let root = c.root@;
    let e = task_params(t, root);
    let a: Seq<(Seq<char>, JsonV)> = if t.inputs@ is Null {
        Seq::empty()
    } else {
        seq![("task_bindings"@, t.inputs@)]
    };
    let b: Seq<(Seq<char>, JsonV)> = if t.input@ is Null {
        Seq::empty()
    } else {
        seq![("task_input"@, t.input@)]
    };
    let m = seq![
        ("max_retries"@, JsonV::PosInt(t.retries as u64)),
        ("timeout_seconds"@, JsonV::PosInt(t.timeout)),
    ];
    let common = a + b + m;
    let x = executor_params(t, root);
    assert(e == common + x);
    let n = common.len() as int;
    // The common entries are named task_bindings, task_input, max_retries, timeout_seconds.
    assert forall|j: int| 0 <= j < n implies {
        let key = #[trigger] e[j].0;
        key == "task_bindings"@ || key == "task_input"@ || key == "max_retries"@ || key == "timeout_seconds"@
    } by {
        assert(e[j] == common[j]);
    }
    match t.executor {
        ExecutorKind::Process => {
            if t.command is Some || t.file is Some {
                assert(e[n].0 == "command"@);
                lemma_first_of(e, "command"@, n);
            }
        },
        ExecutorKind::CloudRun => {
            if t.job is Some {
                assert(e[n].0 == "job_name"@);
                lemma_first_of(e, "job_name"@, n);
            }
        },
        ExecutorKind::Library => {
            if t.file is Some {
                assert(e[n].0 == "library_path"@);
                lemma_first_of(e, "library_path"@, n);
            }
        },
        ExecutorKind::Python => {
            let f = opt_entry("task_file"@, opt_str(t.file));
            let md = opt_entry("task_module"@, opt_str(t.module));
            let fu = opt_entry("task_function"@, opt_str(t.function));
            let pp = seq![("python_path"@, JsonV::Str(root))];
            assert(x == f + md + fu + pp);
            let nf = f.len() as int;
            let nm = md.len() as int;
            let nu = fu.len() as int;
            assert forall|j: int| n <= j < n + nf implies #[trigger] e[j].0 == "task_file"@ by {
                assert(e[j] == x[j - n]);
            }
            assert forall|j: int| n + nf <= j < n + nf + nm implies #[trigger] e[j].0 == "task_module"@ by {
                assert(e[j] == x[j - n]);
            }
            assert forall|j: int| n + nf + nm <= j < n + nf + nm + nu implies #[trigger] e[j].0
                == "task_function"@ by {
                assert(e[j] == x[j - n]);
            }
            if t.file is Some {
                assert(e[n] == x[0]);
                lemma_first_of(e, "task_file"@, n);
            }
            if t.module is Some {
                assert(e[n + nf] == x[nf]);
                lemma_first_of(e, "task_module"@, n + nf);
            }
            if t.function is Some {
                assert(e[n + nf + nm] == x[nf + nm]);
                lemma_first_of(e, "task_function"@, n + nf + nm);
            }
            assert(e[n + nf + nm + nu] == x[nf + nm + nu]);
            lemma_first_of(e, "python_path"@, n + nf + nm + nu);
        },
    }
}

fn push_entry(e: &mut Vec<(String, Json)>, key: &str, v: Json)
    ensures
        entries_view(final(e)@) == entries_view(old(e)@).push((key@, v@)),
{
    let ghost kv = key@;
    let ghost vv = v@;
    e.push((key.to_owned(), v));
    assert(entries_view(e@) =~= entries_view(old(e)@).push((kv, vv)));
}

fn push_opt_entry(e: &mut Vec<(String, Json)>, key: &str, o: &Option<String>)
    ensures
        entries_view(final(e)@) == entries_view(old(e)@) + opt_entry(key@, opt_str(*o)),
{
    match o {
        Some(s) => {
            push_entry(e, key, Json::from_str(s.as_str()));
            assert(entries_view(e@) =~= entries_view(old(e)@) + opt_entry(key@, opt_str(*o)));
        },
        None => {
            assert(entries_view(e@) =~= entries_view(old(e)@) + opt_entry(key@, opt_str(*o)));
        },
    }
}

fn executor_type_of(e: ExecutorKind) -> (r: String)
    ensures
        r@ == executor_type_name(e),
{
    match e {
        ExecutorKind::CloudRun => "cloudrun".to_owned(),
        ExecutorKind::Process => "process".to_owned(),
        ExecutorKind::Python => "python".to_owned(),
        ExecutorKind::Library => "library".to_owned(),
    }
}

#[verifier::spinoff_prover]
#[verifier::rlimit(40)]
fn params_of(t: &CompiledTask, root: &String) -> (r: Json)
    ensures
        r@ == JsonV::Object(task_params(*t, root@)),
{
    let mut e: Vec<(String, Json)> = Vec::new();
    let ghost start = entries_view(e@);
    proof {
        assert(start =~= Seq::empty());
        reveal_strlit("task_bindings");
        reveal_strlit("task_input");
        reveal_strlit("max_retries");
        reveal_strlit("timeout_seconds");
        reveal_strlit("job_name");
        reveal_strlit("command");
        reveal_strlit("task_file");
        reveal_strlit("task_module");
        reveal_strlit("task_function");
        reveal_strlit("python_path");
        reveal_strlit("library_path");
    }
    if !t.inputs.is_null() {
        push_entry(&mut e, "task_bindings", t.inputs.deep_clone());
    }
    if !t.input.is_null() {
        push_entry(&mut e, "task_input", t.input.deep_clone());
    }
    push_entry(&mut e, "max_retries", Json::from_u64(t.retries as u64));
    push_entry(&mut e, "timeout_seconds", Json::from_u64(t.timeout));
    let ghost common = entries_view(e@);
    match t.executor {
        ExecutorKind::CloudRun => {
            push_opt_entry(&mut e, "job_name", &t.job);
        },
        ExecutorKind::Process => {
            match &t.command {
                Some(c) => {
                    push_entry(
                        &mut e,
                        "command",
                        Json::String(resolve_process_command(c.as_str(), root.as_str())),
                    );
                },
                None => {
                    push_opt_entry(&mut e, "command", &t.file);
                },
            }
        },
        ExecutorKind::Python => {
            push_opt_entry(&mut e, "task_file", &t.file);
            push_opt_entry(&mut e, "task_module", &t.module);
            push_opt_entry(&mut e, "task_function", &t.function);
            push_entry(&mut e, "python_path", Json::from_str(root.as_str()));
        },
        ExecutorKind::Library => {
            push_opt_entry(&mut e, "library_path", &t.file);
        },
    }
    proof {
        assert(entries_view(e@) =~= task_params(*t, root@));
        lemma_object_view(e);
    }
    Json::Object(e)
}

/// Sets `key` of a signature (an object, or null which becomes one) to `v`.
fn set_type(sig: Json, key: &str, v: Json) -> (r: Json)
    requires
        sig@ is Null || sig@ is Object,
    ensures
        r@ == with_type(sig@, key@, Some(v@)),
        r@ is Object,
{
    let ghost kv = key@;
    let ghost vv = v@;
    match sig {
        Json::Object(mut e) => {
            proof {
                lemma_object_view(e);
            }
            let ghost before = entries_view(e@);
            entries_set(&mut e, key.to_owned(), v);
            proof {
                lemma_object_view(e);
            }
            Json::Object(e)
        },
        _ => {
            let mut e: Vec<(String, Json)> = Vec::new();
            push_entry(&mut e, key, v);
            proof {
                lemma_object_view(e);
                assert(entries_view(e@) =~= seq![(kv, vv)]);
            }
            Json::Object(e)
        },
    }
}

fn signature_of(t: &CompiledTask) -> (r: Option<Json>)
    requires
        signature_mergeable(*t),
    ensures
        opt_json(r) == stored_signature(*t),
{
    proof {
        reveal_strlit("input_type");
        reveal_strlit("output_type");
    }
    let mut sig = match &t.signature {
        Some(s) => s.deep_clone(),
        None => Json::empty_object(),
    };
    match &t.input_type {
        Some(it) => {
            sig = set_type(sig, "input_type", it.deep_clone());
        },
        None => {},
    }
    match &t.output_type {
        Some(ot) => {
            sig = set_type(sig, "output_type", ot.deep_clone());
        },
        None => {},
    }
    let empty = match &sig {
        Json::Object(e) => e.len() == 0,
        _ => false,
    };
    proof {
        match &sig {
            Json::Object(e) => {
                lemma_object_view(*e);
                if e.len() == 0 {
                    assert(entries_view(e@) =~= Seq::empty());
                } else {
                    assert(entries_view(e@).len() != 0);
                }
            },
            _ => {},
        }
    }
    if empty {
        None
    } else {
        Some(sig)
    }
}

fn dep_names_of(tasks: &Vec<CompiledTask>, deps: &Vec<usize>) -> (r: Vec<String>)
    ensures
        strs_view(r@) == dep_names(tasks@, deps@),
{
    let mut r: Vec<String> = Vec::new();
    let mut j: usize = 0;
    while j < deps.len()
        invariant
            j <= deps.len(),
            strs_view(r@) == dep_names(tasks@, deps@.take(j as int)),
        decreases deps.len() - j,
    {
        let ghost before = strs_view(r@);
        if deps[j] < tasks.len() {
            r.push(tasks[deps[j]].name.clone());
        }
        proof {
            assert(deps@.take(j + 1).drop_last() =~= deps@.take(j as int));
            assert(strs_view(r@) =~= dep_names(tasks@, deps@.take(j + 1)));
        }
        j = j + 1;
    }
    assert(deps@.take(deps.len() as int) =~= deps@);
    r
}

fn task_signature_mergeable(t: &CompiledTask) -> (r: bool)
    ensures
        r == signature_mergeable(*t),
{
    if t.input_type.is_none() && t.output_type.is_none() {
        return true;
    }
    match &t.signature {
        None => true,
        Some(Json::Null) => true,
        Some(Json::Object(_)) => true,
        Some(_) => false,
    }
}

/// Whether every task's declared types can be set on its signature (see
/// `signature_mergeable`), as `build_workflow_tasks` needs.
pub fn signatures_mergeable(compiled: &CompiledWorkflow) -> (r: bool)
    ensures
        r == forall|k: int| 0 <= k < compiled.tasks.len() ==> signature_mergeable(#[trigger] compiled.tasks@[k]),
{
    let mut idx: usize = 0;
    while idx < compiled.tasks.len()
        invariant
            idx <= compiled.tasks.len(),
            forall|k: int| 0 <= k < idx ==> signature_mergeable(#[trigger] compiled.tasks@[k]),
        decreases compiled.tasks.len() - idx,
    {
        if !task_signature_mergeable(&compiled.tasks[idx]) {
            return false;
        }
        idx = idx + 1;
    }
    true
}

/// The task rows of a compiled workflow: position, name, executor type, dependencies by
/// name, the executor's parameters, and the signature with the declared types.
pub fn build_workflow_tasks(compiled: &CompiledWorkflow) -> (r: Vec<NewWorkflowTask>)
    requires
        forall|k: int| 0 <= k < compiled.tasks.len() ==> signature_mergeable(#[trigger] compiled.tasks@[k]),
    ensures
        r.len() == compiled.tasks.len(),
        forall|k: int| 0 <= k < r.len() ==> row_matches(#[trigger] r@[k], *compiled, k),
{
    let mut rows: Vec<NewWorkflowTask> = Vec::new();
    let mut idx: usize = 0;
    while idx < compiled.tasks.len()
        invariant
            idx <= compiled.tasks.len(),
            rows.len() == idx,
            forall|k: int| 0 <= k < compiled.tasks.len() ==> signature_mergeable(#[trigger] compiled.tasks@[k]),
            forall|k: int| 0 <= k < idx ==> row_matches(#[trigger] rows@[k], *compiled, k),
        decreases compiled.tasks.len() - idx,
    {
        let t = &compiled.tasks[idx];
        let row = NewWorkflowTask {
            task_index: idx as i32,
            task_name: t.name.clone(),
            executor_type: executor_type_of(t.executor),
            depends_on: dep_names_of(&compiled.tasks, &t.depends_on),
            params: params_of(t, &compiled.root),
            signature: signature_of(t),
        };
        rows.push(row);
        idx = idx + 1;
    }
    rows
}

proof fn lemma_dep_names_in_range(tasks: Seq<CompiledTask>, deps: Seq<usize>)
    requires
        forall|j: int| 0 <= j < deps.len() ==> #[trigger] deps[j] < tasks.len(),
    ensures
        dep_names(tasks, deps) == Seq::new(deps.len(), |j: int| tasks[deps[j] as int].name@),
    decreases deps.len(),
{
    if deps.len() > 0 {
        let d0 = deps.drop_last();
        assert forall|j: int| 0 <= j < d0.len() implies #[trigger] d0[j] < tasks.len() by {
            assert(d0[j] == deps[j]);
        }
        lemma_dep_names_in_range(tasks, d0);
        assert(deps.last() < tasks.len()) by {
            assert(deps[deps.len() - 1] < tasks.len());
        }
        assert(dep_names(tasks, deps) =~= Seq::new(deps.len(), |j: int| tasks[deps[j] as int].name@));
    }
}

/// The stored rows of a compiled workflow name each dependency by a name that the
/// workflow's name index maps back to the dependency's position: no dependency is lost
/// or changed on the way to the store.
pub proof fn law_rows_resolve_dependencies(
    c: CompiledWorkflow,
    w: Workflow,
    root: Seq<char>,
    arts: Seq<TaskArtifacts>,
    rows: Seq<NewWorkflowTask>,
    k: int,
    j: int,
)
    requires
        compiled_from(c, w, root, arts),
        rows.len() == c.tasks.len(),
        forall|i: int| 0 <= i < rows.len() ==> #[trigger] row_matches(rows[i], c, i),
        0 <= k < rows.len(),
        0 <= j < c.tasks@[k].depends_on.len(),
    ensures
        strs_view(rows[k].depends_on@).len() == c.tasks@[k].depends_on.len(),
        entries_get(position_entries(c.name_index), strs_view(rows[k].depends_on@)[j]) == Some(
            c.tasks@[k].depends_on@[j],
        ),
{
    let te = task_entries(w.tasks);
    let g = task_graph(te);
    let t = c.tasks@[k];
    assert(row_matches(rows[k], c, k));
    assert(compiled_graph(c.tasks@)[k] == ints(t.depends_on@));
    assert forall|i: int| 0 <= i < t.depends_on@.len() implies #[trigger] t.depends_on@[i] < c.tasks@.len() by {
        assert(g[k][i] == t.depends_on@[i] as int);
    }
    lemma_dep_names_in_range(c.tasks@, t.depends_on@);
    let d = t.depends_on@[j] as int;
    assert(g[k][j] == d);
    assert(0 <= d < te.len());
    assert(compiled_task_matches(c.tasks@[d], te[d].0, te[d].1, arts[d], g[d]));
    assert(first_key_at(te, te[d].0, d));
    assert(first_key_at(index_entries(te), te[d].0, d));
    lemma_first_key(index_entries(te), te[d].0, d);
}

/// What a run of the introspection script gives: an `error` the script reported, else
/// on success the signature it printed (or why that could not be read), else the
/// script's failure with its error output.
pub open spec fn introspection_outcome_of(
    parsed: Result<JsonV, Seq<char>>,
    success: bool,
    function: Seq<char>,
    stderr: Seq<char>,
) -> Result<JsonV, Seq<char>> {
    let reported = match parsed {
        Ok(v) => match get_spec(v, "error"@) {
            Some(JsonV::Str(e)) => Some(e),
            _ => None,
        },
        Err(_) => None,
    };
    match reported {
        Some(e) => Err("Task analysis error: "@ + e),
        None => if success {
            match parsed {
                Ok(v) => Ok(v),
                Err(pe) => Err("Failed to parse introspection output: "@ + pe),
            }
        } else {
            Err("Introspection failed ("@ + function + "): "@ + trim_spec(stderr))
        },
    }
}

/// Reads a run of the introspection script: `parsed` is its standard output read as JSON
/// (or why it could not be), `success` whether it exited successfully.
pub fn introspection_outcome(parsed: Result<Json, String>, success: bool, function: &str, stderr: &str) -> (r:
    Result<Json, String>)
    ensures
        match r {
            Ok(v) => Ok::<JsonV, Seq<char>>(v@),
            Err(m) => Err(m@),
        } == introspection_outcome_of(
            match parsed {
                Ok(v) => Ok(v@),
                Err(m) => Err(m@),
            },
            success,
            function@,
            stderr@,
        ),
{
    let reported = match &parsed {
        Ok(v) => match v.get("error") {
            Some(e) => match e.as_str() {
                Some(t) => Some(t.clone()),
                None => None,
            },
            None => None,
        },
        Err(_) => None,
    };
    proof {
        reveal_strlit("error");
    }
    match reported {
        Some(e) => Err(concat2("Task analysis error: ", e.as_str())),
        None => {
            if success {
                match parsed {
                    Ok(v) => Ok(v),
                    Err(pe) => Err(concat2("Failed to parse introspection output: ", pe.as_str())),
                }
            } else {
                let mut m = concat2("Introspection failed (", function);
                m.append("): ");
                let t = trim(stderr);
                m.append(t.as_str());
                Err(m)
            }
        },
    }
}

} // verus!
