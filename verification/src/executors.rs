//! What the process and library executors compute before and after running a task: the
//! environment a process gets from the task's parameters, the command line of a shell
//! task, and the output a task reports.
use vstd::prelude::*;

use crate::json::{entries_set, entries_view, get_spec, is_number_spec, items_view, scalar_text, Json, JsonV};
use crate::ids::{uuid_string, uuid_text};
use crate::keyed::{entries_get, entries_insert, has_key};
use crate::scheduling::StatusUpdate;
use crate::models::{executor_type_named, ExecutorType, Workflow as StoredWorkflow};
use crate::paths::{is_absolute, path_is_absolute};
use crate::text::{
    all_ws, concat2, contains_char, contains_whitespace, has_char, has_ws, is_ws, lemma_trim_end_noop,
    lemma_trim_end_ws_suffix, lemma_trim_noop, lowercase, str_eq, strip_prefix, strip_prefix_spec, trim, trim_end,
    trim_end_spec, trim_spec,
};

verus! {

/// The value of an environment variable: text as it is, or a JSON value to be written as
/// JSON text.
#[derive(Debug, PartialEq)]
pub enum EnvValue {
    Text(String),
    Json(Json),
}

pub enum EnvV {
    Text(Seq<char>),
    Json(JsonV),
}

pub open spec fn env_value_view(v: EnvValue) -> EnvV {
    match v {
        EnvValue::Text(s) => EnvV::Text(s@),
        EnvValue::Json(j) => EnvV::Json(j@),
    }
}

pub open spec fn env_entries_view(e: Seq<(String, EnvValue)>) -> Seq<(Seq<char>, EnvV)> {
    Seq::new(e.len(), |i: int| (e[i].0@, env_value_view(e[i].1)))
}

/// What a process task takes from its parameters.
#[derive(Debug)]
pub struct ProcessEnv {
    pub env_vars: Vec<(String, EnvValue)>,
    pub task_file: Option<String>,
    pub task_module: Option<String>,
    pub task_function: Option<String>,
    pub task_input: Option<Json>,
    pub runner_path: Option<String>,
    pub python_path: Option<String>,
}

/// The mathematical form of `ProcessEnv`.
#[verifier::ext_equal]
pub struct ProcessEnvV {
    pub env: Seq<(Seq<char>, EnvV)>,
    pub task_file: Option<Seq<char>>,
    pub task_module: Option<Seq<char>>,
    pub task_function: Option<Seq<char>>,
    pub task_input: Option<JsonV>,
    pub runner_path: Option<Seq<char>>,
    pub python_path: Option<Seq<char>>,
}

pub open spec fn opt_text(o: Option<String>) -> Option<Seq<char>> {
    match o {
        Some(s) => Some(s@),
        None => None,
    }
}

pub open spec fn process_env_view(p: ProcessEnv) -> ProcessEnvV {
    ProcessEnvV {
        env: env_entries_view(p.env_vars@),
        task_file: opt_text(p.task_file),
        task_module: opt_text(p.task_module),
        task_function: opt_text(p.task_function),
        task_input: match p.task_input {
            Some(j) => Some(j@),
            None => None,
        },
        runner_path: opt_text(p.runner_path),
        python_path: opt_text(p.python_path),
    }
}

pub open spec fn empty_env() -> ProcessEnvV {
    ProcessEnvV {
        env: Seq::empty(),
        task_file: None,
        task_module: None,
        task_function: None,
        task_input: None,
        runner_path: None,
        python_path: None,
    }
}

/// The text of a value that becomes an environment variable: strings as they are,
/// numbers and booleans as they are written; nothing for other values.
pub open spec fn scalar_env(v: JsonV) -> Option<Seq<char>> {
    match v {
        JsonV::Str(s) => Some(s),
        _ => if is_number_spec(v) || v is Bool {
            Some(scalar_text(v))
        } else {
            None
        },
    }
}

pub open spec fn set_text(env: Seq<(Seq<char>, EnvV)>, key: Seq<char>, v: JsonV) -> Seq<(Seq<char>, EnvV)> {
    match scalar_env(v) {
        Some(t) => entries_insert(env, key, EnvV::Text(t)),
        None => env,
    }
}

/// The variables of an `env` object added to `env`.
pub open spec fn with_env_object(env: Seq<(Seq<char>, EnvV)>, obj: Seq<(Seq<char>, JsonV)>) -> Seq<(Seq<char>, EnvV)>
    decreases obj.len(),
{
    if obj.len() == 0 {
        env
    } else {
        set_text(with_env_object(env, obj.drop_last()), obj.last().0, obj.last().1)
    }
}

pub open spec fn str_of(v: JsonV) -> Option<Seq<char>> {
    match v {
        JsonV::Str(s) => Some(s),
        _ => None,
    }
}

pub open spec fn keep_or(o: Option<Seq<char>>, old: Option<Seq<char>>) -> Option<Seq<char>> {
    match o {
        Some(s) => Some(s),
        None => old,
    }
}

/// One parameter taken into the process environment.
pub open spec fn env_step(a: ProcessEnvV, k: Seq<char>, v: JsonV) -> ProcessEnvV {
    if k == "task_file"@ {
        ProcessEnvV { task_file: keep_or(str_of(v), a.task_file), ..a }
    } else if k == "task_input"@ {
        ProcessEnvV {
            task_input: Some(v),
            env: entries_insert(a.env, "ORK_INPUT_JSON"@, EnvV::Json(v)),
            ..a
        }
    } else if k == "task_module"@ {
        ProcessEnvV { task_module: keep_or(str_of(v), a.task_module), ..a }
    } else if k == "task_function"@ {
        ProcessEnvV { task_function: keep_or(str_of(v), a.task_function), ..a }
    } else if k == "python_path"@ {
        ProcessEnvV { python_path: keep_or(str_of(v), a.python_path), ..a }
    } else if k == "runner_path"@ {
        ProcessEnvV { runner_path: keep_or(str_of(v), a.runner_path), ..a }
    } else if k == "upstream"@ {
        ProcessEnvV { env: entries_insert(a.env, "ORK_UPSTREAM_JSON"@, EnvV::Json(v)), ..a }
    } else if k == "env"@ {
        match v {
            JsonV::Object(obj) => ProcessEnvV { env: with_env_object(a.env, obj), ..a },
            _ => a,
        }
    } else {
        ProcessEnvV { env: set_text(a.env, k, v), ..a }
    }
}

/// The parameters `params[..n]` taken into the environment in order.
pub open spec fn env_from(params: Seq<(Seq<char>, JsonV)>) -> ProcessEnvV
    decreases params.len(),
{
    if params.len() == 0 {
        empty_env()
    } else {
        env_step(env_from(params.drop_last()), params.last().0, params.last().1)
    }
}

/// The environment of a process task from its parameters (only an object has any).
pub open spec fn process_env_of(params: Option<JsonV>) -> ProcessEnvV {
    match params {
        Some(JsonV::Object(e)) => env_from(e),
        _ => empty_env(),
    }
}

fn env_insert(env: &mut Vec<(String, EnvValue)>, key: String, value: EnvValue)
    ensures
        env_entries_view(final(env)@) == entries_insert(env_entries_view(old(env)@), key@, env_value_view(value)),
{
    let ghost kv = key@;
    let ghost vv = env_value_view(value);
    let ghost ev = env_entries_view(env@);
    let mut i: usize = 0;
    while i < env.len()
        invariant
            ev == env_entries_view(env@),
            env@ == old(env)@,
            kv == key@,
            vv == env_value_view(value),
            i <= env.len(),
            forall|j: int| 0 <= j < i ==> ev[j].0 != kv,
        decreases env.len() - i,
    {
        assert(ev[i as int].0 == env@[i as int].0@);
        if str_eq(env[i].0.as_str(), key.as_str()) {
            proof {
                crate::keyed::lemma_first_key(ev, kv, i as int);
            }
            env.set(i, (key, value));
            assert(env_entries_view(env@) =~= ev.update(i as int, (kv, vv)));
            return;
        }
        i = i + 1;
    }
    proof {
        if crate::keyed::has_key(ev, kv) {
            let k = choose|k: int| 0 <= k < ev.len() && #[trigger] ev[k].0 == kv;
            assert(ev[k].0 != kv);
        }
    }
    env.push((key, value));
    assert(env_entries_view(env@) =~= ev.push((kv, vv)));
}

fn set_text_of(env: &mut Vec<(String, EnvValue)>, key: &String, v: &Json)
    ensures
        env_entries_view(final(env)@) == set_text(env_entries_view(old(env)@), key@, v@),
{
    match v {
        Json::String(s) => {
            env_insert(env, key.clone(), EnvValue::Text(s.clone()));
        },
        _ => {
            if v.is_number_or_bool() {
                env_insert(env, key.clone(), EnvValue::Text(v.scalar_to_string()));
            }
        },
    }
}

fn str_value(v: &Json) -> (r: Option<String>)
    ensures
        opt_text(r) == str_of(v@),
{
    match v {
        Json::String(s) => Some(s.clone()),
        _ => None,
    }
}

fn keep_or_set(slot: &mut Option<String>, v: &Json)
    ensures
        opt_text(*final(slot)) == keep_or(str_of(v@), opt_text(*old(slot))),
{
    match str_value(v) {
        Some(s) => {
            *slot = Some(s);
        },
        None => {},
    }
}

/// What a process task takes from its parameters: the environment variables (the input
/// and upstream outputs as JSON, the entries of `env`, and every other parameter that is
/// a string, a number or a boolean) and the Python task settings.
pub fn build_env_vars(params: Option<Json>) -> (r: ProcessEnv)
    ensures
        process_env_view(r) == process_env_of(match params {
            Some(p) => Some(p@),
            None => None,
        }),
{
    let mut r = ProcessEnv {
        env_vars: Vec::new(),
        task_file: None,
        task_module: None,
        task_function: None,
        task_input: None,
        runner_path: None,
        python_path: None,
    };
    proof {
        assert(process_env_view(r) =~= empty_env()) by {
            assert(env_entries_view(r.env_vars@) =~= Seq::empty());
        }
    }
    let obj = match &params {
        Some(Json::Object(e)) => e,
        _ => {
            return r;
        },
    };
    proof {
        crate::json::lemma_object_view(*obj);
        reveal_strlit("task_file");
        reveal_strlit("task_input");
        reveal_strlit("task_module");
        reveal_strlit("task_function");
        reveal_strlit("python_path");
        reveal_strlit("runner_path");
        reveal_strlit("upstream");
        reveal_strlit("env");
        reveal_strlit("ORK_INPUT_JSON");
        reveal_strlit("ORK_UPSTREAM_JSON");
    }
    let ghost pv = entries_view(obj@);
    let mut i: usize = 0;
    while i < obj.len()
        invariant
            pv == entries_view(obj@),
            i <= obj.len(),
            process_env_view(r) == env_from(pv.take(i as int)),
        decreases obj.len() - i,
    {
        let k = &obj[i].0;
        let v = &obj[i].1;
        let ghost before = process_env_view(r);
        proof {
            assert(pv.take(i + 1).drop_last() =~= pv.take(i as int));
            assert(pv.take(i + 1).last() == (k@, v@));
        }
        if str_eq(k.as_str(), "task_file") {
            keep_or_set(&mut r.task_file, v);
        } else if str_eq(k.as_str(), "task_input") {
            r.task_input = Some(v.deep_clone());
            env_insert(&mut r.env_vars, "ORK_INPUT_JSON".to_owned(), EnvValue::Json(v.deep_clone()));
        } else if str_eq(k.as_str(), "task_module") {
            keep_or_set(&mut r.task_module, v);
        } else if str_eq(k.as_str(), "task_function") {
            keep_or_set(&mut r.task_function, v);
        } else if str_eq(k.as_str(), "python_path") {
            keep_or_set(&mut r.python_path, v);
        } else if str_eq(k.as_str(), "runner_path") {
            keep_or_set(&mut r.runner_path, v);
        } else if str_eq(k.as_str(), "upstream") {
            env_insert(&mut r.env_vars, "ORK_UPSTREAM_JSON".to_owned(), EnvValue::Json(v.deep_clone()));
        } else if str_eq(k.as_str(), "env") {
            match v {
                Json::Object(eo) => {
                    proof {
                        crate::json::lemma_object_view(*eo);
                    }
                    let ghost ov = entries_view(eo@);
                    let ghost env0 = env_entries_view(r.env_vars@);
                    let mut j: usize = 0;
                    while j < eo.len()
                        invariant
                            ov == entries_view(eo@),
                            v@ == JsonV::Object(ov),
                            process_env_view(r) == (ProcessEnvV { env: env_entries_view(r.env_vars@), ..before }),
                            env0 == before.env,
                            j <= eo.len(),
                            env_entries_view(r.env_vars@) == with_env_object(env0, ov.take(j as int)),
                        decreases eo.len() - j,
                    {
                        proof {
                            assert(ov.take(j + 1).drop_last() =~= ov.take(j as int));
                        }
                        set_text_of(&mut r.env_vars, &eo[j].0, &eo[j].1);
                        j = j + 1;
                    }
                    assert(ov.take(eo.len() as int) =~= ov);
                },
                _ => {},
            }
        } else {
            set_text_of(&mut r.env_vars, k, v);
        }
        proof {
            assert(process_env_view(r) =~= env_step(before, k@, v@));
        }
        i = i + 1;
    }
    assert(pv.take(obj.len() as int) =~= pv);
    r
}

/// Setting the variables of an `env` object that does not name `key` leaves `key` as it was.
proof fn lemma_env_object_keeps(env: Seq<(Seq<char>, EnvV)>, obj: Seq<(Seq<char>, JsonV)>, key: Seq<char>)
    requires
        !has_key(obj, key),
    ensures
        entries_get(with_env_object(env, obj), key) == entries_get(env, key),
    decreases obj.len(),
{
    if obj.len() > 0 {
        let init = obj.drop_last();
        assert(!has_key(init, key)) by {
            if has_key(init, key) {
                let k = choose|k: int| 0 <= k < init.len() && #[trigger] init[k].0 == key;
                assert(obj[k].0 == key);
            }
        }
        lemma_env_object_keeps(env, init, key);
        assert(obj.last().0 != key) by {
            if obj.last().0 == key {
                assert(obj[obj.len() - 1].0 == key);
            }
        }
        let w = with_env_object(env, init);
        match scalar_env(obj.last().1) {
            Some(t) => {
                crate::keyed::law_insert_keeps_other_keys(w, obj.last().0, EnvV::Text(t), key);
            },
            None => {},
        }
    }
}

/// The parameters that `build_env_vars` reads for itself rather than passing them on as
/// variables of their own name.
pub open spec fn is_setting_param(k: Seq<char>) -> bool {
    ||| k == "task_file"@
    ||| k == "task_input"@
    ||| k == "task_module"@
    ||| k == "task_function"@
    ||| k == "python_path"@
    ||| k == "runner_path"@
    ||| k == "upstream"@
    ||| k == "env"@
}

/// A parameter that sets the environment variable `var`: `task_input` sets
/// `ORK_INPUT_JSON`, `upstream` sets `ORK_UPSTREAM_JSON`, any other parameter named `var`
/// with a string, number or boolean value sets it, and so does an `env` object naming it.
pub open spec fn sets_var(var: Seq<char>, k: Seq<char>, v: JsonV) -> bool {
    ||| (var == "ORK_INPUT_JSON"@ && k == "task_input"@)
    ||| (var == "ORK_UPSTREAM_JSON"@ && k == "upstream"@)
    ||| (k == var && !is_setting_param(k) && scalar_env(v) is Some)
    ||| (k == "env"@ && v is Object && has_key(v->Object_0, var))
}

proof fn lemma_reveal_param_names()
    ensures
        "upstream"@.len() == 8,
        "env"@.len() == 3,
        "task_file"@.len() == 9,
        "task_input"@.len() == 10,
        "task_module"@.len() == 11,
        "task_function"@.len() == 13,
        "python_path"@.len() == 11,
        "runner_path"@.len() == 11,
        "ORK_UPSTREAM_JSON"@.len() == 17,
        "ORK_INPUT_JSON"@.len() == 14,
        "task_module"@ != "python_path"@,
        "task_module"@ != "runner_path"@,
        "python_path"@ != "runner_path"@,
{
    reveal_strlit("upstream");
    reveal_strlit("ORK_UPSTREAM_JSON");
    reveal_strlit("ORK_INPUT_JSON");
    reveal_strlit("env");
    reveal_strlit("task_file");
    reveal_strlit("task_input");
    reveal_strlit("task_module");
    reveal_strlit("task_function");
    reveal_strlit("python_path");
    reveal_strlit("runner_path");
    assert("task_module"@[0] != "python_path"@[0]);
    assert("task_module"@[0] != "runner_path"@[0]);
    assert("python_path"@[0] != "runner_path"@[0]);
}

/// A parameter that does not set `var` leaves it as it was.
proof fn lemma_step_keeps_var(a: ProcessEnvV, k: Seq<char>, v: JsonV, var: Seq<char>)
    requires
        !sets_var(var, k, v),
    ensures
        entries_get(env_step(a, k, v).env, var) == entries_get(a.env, var),
{
    lemma_reveal_param_names();
    if k == "task_input"@ {
        crate::keyed::law_insert_keeps_other_keys(a.env, "ORK_INPUT_JSON"@, EnvV::Json(v), var);
    } else if k == "upstream"@ {
        crate::keyed::law_insert_keeps_other_keys(a.env, "ORK_UPSTREAM_JSON"@, EnvV::Json(v), var);
    } else if k == "env"@ {
        match v {
            JsonV::Object(obj) => {
                lemma_env_object_keeps(a.env, obj, var);
            },
            _ => {},
        }
    } else if is_setting_param(k) {
    } else {
        match scalar_env(v) {
            Some(t) => {
                crate::keyed::law_insert_keeps_other_keys(a.env, k, EnvV::Text(t), var);
            },
            None => {},
        }
    }
}

/// What entry `i` set `var` to stays while no later parameter sets it again.
proof fn lemma_var_persists(params: Seq<(Seq<char>, JsonV)>, var: Seq<char>, i: int, n: int)
    requires
        0 <= i < n <= params.len(),
        forall|j: int| i < j < params.len() ==> !sets_var(var, #[trigger] params[j].0, params[j].1),
    ensures
        entries_get(env_from(params.take(n)).env, var) == entries_get(env_from(params.take(i + 1)).env, var),
    decreases n,
{
    if n > i + 1 {
        lemma_var_persists(params, var, i, n - 1);
        let p = params.take(n);
        assert(p.drop_last() =~= params.take(n - 1));
        assert(p.last() == params[n - 1]);
        assert(!sets_var(var, params[n - 1].0, params[n - 1].1));
        lemma_step_keeps_var(env_from(params.take(n - 1)), params[n - 1].0, params[n - 1].1, var);
    }
}

proof fn lemma_take_step(params: Seq<(Seq<char>, JsonV)>, i: int)
    requires
        0 <= i < params.len(),
    ensures
        env_from(params.take(i + 1)) == env_step(env_from(params.take(i)), params[i].0, params[i].1),
{
    let p = params.take(i + 1);
    assert(p.drop_last() =~= params.take(i));
    assert(p.last() == params[i]);
}

/// The task input and the upstream outputs reach the process as JSON: when the parameters
/// set `task_input` (or `upstream`) to `v` and nothing after it sets `ORK_INPUT_JSON` (or
/// `ORK_UPSTREAM_JSON`) again, that variable holds exactly `v`.
pub proof fn law_json_params_reach_environment(params: Seq<(Seq<char>, JsonV)>, i: int)
    requires
        0 <= i < params.len(),
        params[i].0 == "task_input"@ || params[i].0 == "upstream"@,
        forall|j: int|
            i < j < params.len() ==> !sets_var(
                if params[i].0 == "task_input"@ {
                    "ORK_INPUT_JSON"@
                } else {
                    "ORK_UPSTREAM_JSON"@
                },
                #[trigger] params[j].0,
                params[j].1,
            ),
    ensures
        entries_get(
            process_env_of(Some(JsonV::Object(params))).env,
            if params[i].0 == "task_input"@ {
                "ORK_INPUT_JSON"@
            } else {
                "ORK_UPSTREAM_JSON"@
            },
        ) == Some(EnvV::Json(params[i].1)),
{
    lemma_reveal_param_names();
    let var = if params[i].0 == "task_input"@ {
        "ORK_INPUT_JSON"@
    } else {
        "ORK_UPSTREAM_JSON"@
    };
    lemma_var_persists(params, var, i, params.len() as int);
    lemma_take_step(params, i);
    crate::keyed::law_get_after_insert(env_from(params.take(i)).env, var, EnvV::Json(params[i].1));
    assert(params.take(params.len() as int) =~= params);
}

/// Every other parameter with a string, number or boolean value reaches the process as a
/// variable of its own name holding that text, unless a later parameter sets it again.
pub proof fn law_scalar_params_reach_environment(params: Seq<(Seq<char>, JsonV)>, i: int)
    requires
        0 <= i < params.len(),
        !is_setting_param(params[i].0),
        scalar_env(params[i].1) is Some,
        forall|j: int| i < j < params.len() ==> !sets_var(params[i].0, #[trigger] params[j].0, params[j].1),
    ensures
        entries_get(process_env_of(Some(JsonV::Object(params))).env, params[i].0) == Some(
            EnvV::Text(scalar_env(params[i].1)->0),
        ),
{
    lemma_reveal_param_names();
    let var = params[i].0;
    lemma_var_persists(params, var, i, params.len() as int);
    lemma_take_step(params, i);
    crate::keyed::law_get_after_insert(
        env_from(params.take(i)).env,
        var,
        EnvV::Text(scalar_env(params[i].1)->0),
    );
    assert(params.take(params.len() as int) =~= params);
}

/// The task's own settings: when the last `task_input` parameter has value `v`, the task's
/// input is `v`; when the last string value of `task_file`, `task_module`,
/// `task_function`, `python_path` or `runner_path` is `s`, that setting is `s`.
pub proof fn law_settings_from_params(params: Seq<(Seq<char>, JsonV)>, i: int)
    requires
        0 <= i < params.len(),
    ensures
        (params[i].0 == "task_input"@ && forall|j: int| i < j < params.len() ==> #[trigger] params[j].0
            != "task_input"@) ==> process_env_of(Some(JsonV::Object(params))).task_input == Some(params[i].1),
        ({
            let e = process_env_of(Some(JsonV::Object(params)));
            let later_str = forall|j: int|
                i < j < params.len() ==> !(#[trigger] params[j].0 == params[i].0 && params[j].1 is Str);
            params[i].1 is Str && later_str ==> {
                &&& params[i].0 == "task_file"@ ==> e.task_file == Some(params[i].1->Str_0)
                &&& params[i].0 == "task_module"@ ==> e.task_module == Some(params[i].1->Str_0)
                &&& params[i].0 == "task_function"@ ==> e.task_function == Some(params[i].1->Str_0)
                &&& params[i].0 == "python_path"@ ==> e.python_path == Some(params[i].1->Str_0)
                &&& params[i].0 == "runner_path"@ ==> e.runner_path == Some(params[i].1->Str_0)
            }
        }),
{
    lemma_reveal_param_names();
    lemma_settings_persist(params, i, params.len() as int);
    assert(params.take(params.len() as int) =~= params);
}

proof fn lemma_settings_persist(params: Seq<(Seq<char>, JsonV)>, i: int, n: int)
    requires
        0 <= i < n <= params.len(),
    ensures
        (params[i].0 == "task_input"@ && forall|j: int| i < j < params.len() ==> #[trigger] params[j].0
            != "task_input"@) ==> env_from(params.take(n)).task_input == Some(params[i].1),
        ({
            let e = env_from(params.take(n));
            let later_str = forall|j: int|
                i < j < params.len() ==> !(#[trigger] params[j].0 == params[i].0 && params[j].1 is Str);
            params[i].1 is Str && later_str ==> {
                &&& params[i].0 == "task_file"@ ==> e.task_file == Some(params[i].1->Str_0)
                &&& params[i].0 == "task_module"@ ==> e.task_module == Some(params[i].1->Str_0)
                &&& params[i].0 == "task_function"@ ==> e.task_function == Some(params[i].1->Str_0)
                &&& params[i].0 == "python_path"@ ==> e.python_path == Some(params[i].1->Str_0)
                &&& params[i].0 == "runner_path"@ ==> e.runner_path == Some(params[i].1->Str_0)
            }
        }),
    decreases n,
{
    lemma_reveal_param_names();
    lemma_take_step(params, n - 1);
    if n - 1 > i {
        lemma_settings_persist(params, i, n - 1);
    }
}

/// The command line of a shell task: absolute paths, commands with whitespace and paths
/// with a directory are run as they are; a bare name is run from the working directory.
pub open spec fn command_line(command: Seq<char>) -> Seq<char> {
    if is_absolute(command) || has_ws(command) || has_char(command, '/') {
        command
    } else {
        "./"@ + command
    }
}

pub fn resolve_command_path(working_dir: &str, command: &str) -> (r: String)
    ensures
        r@ == command_line(command@),
{
    if path_is_absolute(command) || contains_whitespace(command) {
        return command.to_owned();
    }
    if contains_char(command, '/') {
        return command.to_owned();
    }
    proof {
        reveal_strlit("./");
    }
    concat2("./", command)
}

/// The output a task reports on a line of its standard output: the text after an
/// `ORK_OUTPUT:` prefix (once trailing whitespace is removed from the line), trimmed.
pub open spec fn output_payload(line: Seq<char>) -> Option<Seq<char>> {
    match strip_prefix_spec(trim_end_spec(line), "ORK_OUTPUT:"@) {
        Some(rest) => Some(trim_spec(rest)),
        None => None,
    }
}

pub fn output_line_payload(line: &str) -> (r: Option<String>)
    ensures
        opt_text(r) == output_payload(line@),
{
    let t = trim_end(line);
    match strip_prefix(t.as_str(), "ORK_OUTPUT:") {
        Some(rest) => Some(trim(rest.as_str())),
        None => None,
    }
}

/// The log line a line of a task's output becomes: the stream's name, the line without
/// trailing whitespace, and a line break.
pub fn log_line(stream: &str, line: &str) -> (r: String)
    ensures
        r@ == stream@ + ": "@ + trim_end_spec(line@) + "\n"@,
{
    let t = trim_end(line);
    let mut r = concat2(stream, ": ");
    r.append(t.as_str());
    r.append("\n");
    proof {
        reveal_strlit(": ");
        reveal_strlit("\n");
    }
    r
}

/// The output a library task returned: the text after an `ORK_OUTPUT:` prefix, trimmed,
/// or the whole text when it has no such prefix.
pub open spec fn library_payload(output: Seq<char>) -> Seq<char> {
    match strip_prefix_spec(output, "ORK_OUTPUT:"@) {
        Some(rest) => trim_spec(rest),
        None => output,
    }
}

pub fn library_output_payload(output: &str) -> (r: String)
    ensures
        r@ == library_payload(output@),
{
    match strip_prefix(output, "ORK_OUTPUT:") {
        Some(rest) => trim(rest.as_str()),
        None => output.to_owned(),
    }
}

/// The executor a task of a stored workflow runs on.
#[derive(Debug)]
pub enum ExecutorChoice {
    /// The process executor runs process and Python tasks.
    Process,
    Library,
    /// Cloud Run, in the workflow's project and region.
    CloudRun { project: String, region: String },
}

/// The executor for a task's executor type, named in any letter case.
pub fn select_executor(executor_type: &str, workflow: &StoredWorkflow) -> (r: Result<ExecutorChoice, String>)
    ensures
        match executor_type_named(lowercase(executor_type@)) {
            None => r matches Err(m) && m@ == "Unknown executor type: "@ + executor_type@,
            Some(ExecutorType::Process) => r matches Ok(ExecutorChoice::Process),
            Some(ExecutorType::Python) => r matches Ok(ExecutorChoice::Process),
            Some(ExecutorType::Library) => r matches Ok(ExecutorChoice::Library),
            Some(ExecutorType::CloudRun) => r matches Ok(ExecutorChoice::CloudRun { project, region })
                && project@ == workflow.project@ && region@ == workflow.region@,
        },
{
    match ExecutorType::parse(executor_type) {
        None => {
            proof {
                reveal_strlit("Unknown executor type: ");
            }
            Err(concat2("Unknown executor type: ", executor_type))
        },
        Some(ExecutorType::Process) => Ok(ExecutorChoice::Process),
        Some(ExecutorType::Python) => Ok(ExecutorChoice::Process),
        Some(ExecutorType::Library) => Ok(ExecutorChoice::Library),
        Some(ExecutorType::CloudRun) => Ok(
            ExecutorChoice::CloudRun {
                project: workflow.project.clone(),
                region: workflow.region.clone(),
            },
        ),
    }
}

/// A request to a worker to compile a workflow.
#[derive(Debug)]
pub struct CompileRequest {
    pub workflow_path: Option<String>,
}

/// The URL of an endpoint of a worker: its base URL, a slash and the endpoint.
pub fn worker_endpoint(worker_url: &str, endpoint: &str) -> (r: String)
    ensures
        r@ == worker_url@ + "/"@ + endpoint@,
{
    proof {
        reveal_strlit("/");
    }
    crate::text::concat3(worker_url, "/", endpoint)
}

// ---------------------------------------------------------------------------------------
// Starting a process task
// ---------------------------------------------------------------------------------------
pub open spec fn opt_env(o: Option<EnvValue>) -> Option<EnvV> {
    match o {
        Some(v) => Some(env_value_view(v)),
        None => None,
    }
}

fn copy_env_value(v: &EnvValue) -> (r: EnvValue)
    ensures
        env_value_view(r) == env_value_view(*v),
{
    match v {
        EnvValue::Text(s) => EnvValue::Text(s.clone()),
        EnvValue::Json(j) => EnvValue::Json(j.deep_clone()),
    }
}

/// The value of an environment variable (its first entry).
fn env_lookup(env: &Vec<(String, EnvValue)>, key: &str) -> (r: Option<EnvValue>)
    ensures
        opt_env(r) == entries_get(env_entries_view(env@), key@),
{
    let ghost ev = env_entries_view(env@);
    let mut i: usize = 0;
    while i < env.len()
        invariant
            ev == env_entries_view(env@),
            i <= env.len(),
            forall|j: int| 0 <= j < i ==> ev[j].0 != key@,
        decreases env.len() - i,
    {
        assert(ev[i as int].0 == env@[i as int].0@);
        if str_eq(env[i].0.as_str(), key) {
            proof {
                crate::keyed::lemma_first_key(ev, key@, i as int);
            }
            return Some(copy_env_value(&env[i].1));
        }
        i = i + 1;
    }
    proof {
        if has_key(ev, key@) {
            let k = choose|k: int| 0 <= k < ev.len() && #[trigger] ev[k].0 == key@;
            assert(ev[k].0 != key@);
        }
    }
    None
}

/// `to` takes the value of `from`, when `from` is set.
pub open spec fn copy_var(env: Seq<(Seq<char>, EnvV)>, from: Seq<char>, to: Seq<char>) -> Seq<(Seq<char>, EnvV)> {
    match entries_get(env, from) {
        Some(v) => entries_insert(env, to, v),
        None => env,
    }
}

/// The task's name, workflow and run, as given among its variables, under the names the
/// runner script reads.
pub open spec fn with_identity(env: Seq<(Seq<char>, EnvV)>) -> Seq<(Seq<char>, EnvV)> {
    copy_var(
        copy_var(copy_var(env, "task_name"@, "ORK_TASK_NAME"@), "workflow_name"@, "ORK_WORKFLOW_NAME"@),
        "run_id"@,
        "ORK_RUN_ID"@,
    )
}

pub open spec fn set_opt_text(env: Seq<(Seq<char>, EnvV)>, key: Seq<char>, o: Option<Seq<char>>) -> Seq<
    (Seq<char>, EnvV),
> {
    match o {
        Some(t) => entries_insert(env, key, EnvV::Text(t)),
        None => env,
    }
}

pub open spec fn set_opt_json(env: Seq<(Seq<char>, EnvV)>, key: Seq<char>, o: Option<JsonV>) -> Seq<
    (Seq<char>, EnvV),
> {
    match o {
        Some(j) => entries_insert(env, key, EnvV::Json(j)),
        None => env,
    }
}

/// A task with a Python file or module runs through the runner script.
pub open spec fn is_python(p: ProcessEnvV) -> bool {
    p.task_file is Some || p.task_module is Some
}

/// The directory a Python task runs in, which is also its `PYTHONPATH`: its `python_path`,
/// else (for a task file) the project root found for the file.
pub open spec fn launch_root(p: ProcessEnvV, found_root: Option<Seq<char>>) -> Option<Seq<char>> {
    if p.task_file is Some {
        keep_or(p.python_path, found_root)
    } else if p.task_module is Some {
        p.python_path
    } else {
        None
    }
}

/// The environment a process task is started with: its variables, its execution id, and
/// for a Python task its file or module, function, input, identity and root; a uv cache
/// directory is added when the task runs with uv and sets none itself.
pub open spec fn launch_env(
    p: ProcessEnvV,
    execution_id: Seq<char>,
    found_root: Option<Seq<char>>,
    uv_cache_dir: Option<Seq<char>>,
) -> Seq<(Seq<char>, EnvV)> {
    let base = entries_insert(p.env, "EXECUTION_ID"@, EnvV::Text(execution_id));
    let e = match p.task_file {
        Some(f) => with_identity(
            set_opt_text(
                set_opt_json(entries_insert(base, "ORK_TASK_FILE"@, EnvV::Text(f)), "ORK_INPUT_JSON"@, p.task_input),
                "ORK_TASK_FUNCTION"@,
                p.task_function,
            ),
        ),
        None => match p.task_module {
            Some(m) => with_identity(
                set_opt_json(
                    set_opt_text(
                        entries_insert(base, "ORK_TASK_MODULE"@, EnvV::Text(m)),
                        "ORK_TASK_FUNCTION"@,
                        p.task_function,
                    ),
                    "ORK_INPUT_JSON"@,
                    p.task_input,
                ),
            ),
            None => base,
        },
    };
    let rooted = set_opt_text(e, "PYTHONPATH"@, launch_root(p, found_root));
    match uv_cache_dir {
        Some(d) => if has_key(rooted, "UV_CACHE_DIR"@) {
            rooted
        } else {
            entries_insert(rooted, "UV_CACHE_DIR"@, EnvV::Text(d))
        },
        None => rooted,
    }
}

/// The label of a task in messages: its `task_name` variable, else its id.
pub open spec fn task_label(env: Seq<(Seq<char>, EnvV)>, task_id: u128) -> Seq<char> {
    match entries_get(env, "task_name"@) {
        Some(EnvV::Text(s)) => s,
        _ => uuid_text(task_id),
    }
}

/// How a process task is started.
#[derive(Debug, PartialEq)]
pub enum LaunchCommand {
    /// Python, running the runner script.
    Python,
    /// `sh -c` with this command line.
    Shell(String),
}

/// A process task ready to start: the command, the directory it runs in (the current one
/// when none), its environment, and its label in messages.
#[derive(Debug)]
pub struct ProcessLaunch {
    pub command: LaunchCommand,
    pub current_dir: Option<String>,
    pub env_vars: Vec<(String, EnvValue)>,
    pub label: String,
}

fn set_text_var(env: &mut Vec<(String, EnvValue)>, key: &str, o: &Option<String>)
    ensures
        env_entries_view(final(env)@) == set_opt_text(env_entries_view(old(env)@), key@, opt_text(*o)),
{
    match o {
        Some(t) => env_insert(env, key.to_owned(), EnvValue::Text(t.clone())),
        None => {},
    }
}

fn set_json_var(env: &mut Vec<(String, EnvValue)>, key: &str, o: &Option<Json>)
    ensures
        env_entries_view(final(env)@) == set_opt_json(
            env_entries_view(old(env)@),
            key@,
            match *o {
                Some(j) => Some(j@),
                None => None,
            },
        ),
{
    match o {
        Some(j) => env_insert(env, key.to_owned(), EnvValue::Json(j.deep_clone())),
        None => {},
    }
}

fn copy_var_exec(env: &mut Vec<(String, EnvValue)>, from: &str, to: &str)
    ensures
        env_entries_view(final(env)@) == copy_var(env_entries_view(old(env)@), from@, to@),
{
    match env_lookup(env, from) {
        Some(v) => env_insert(env, to.to_owned(), v),
        None => {},
    }
}

fn add_identity(env: &mut Vec<(String, EnvValue)>)
    ensures
        env_entries_view(final(env)@) == with_identity(env_entries_view(old(env)@)),
{
    copy_var_exec(env, "task_name", "ORK_TASK_NAME");
    copy_var_exec(env, "workflow_name", "ORK_WORKFLOW_NAME");
    copy_var_exec(env, "run_id", "ORK_RUN_ID");
}

/// Prepares a process task: a task with a Python file or module runs the runner script
/// with its settings in the environment, in its root; any other runs its command line in
/// the working directory. `found_root` is the project root found for the task file, and
/// `uv_cache_dir` the cache directory for a task that runs with uv.
pub fn process_launch(
    env: &ProcessEnv,
    task_id: u128,
    execution_id: &str,
    working_dir: &str,
    command: &str,
    found_root: Option<String>,
    uv_cache_dir: Option<String>,
) -> (r: ProcessLaunch)
    ensures
        ({
            let p = process_env_view(*env);
            &&& is_python(p) ==> r.command == LaunchCommand::Python && opt_text(r.current_dir) == launch_root(
                p,
                opt_text(found_root),
            )
            &&& !is_python(p) ==> (r.command matches LaunchCommand::Shell(c) && c@ == command_line(command@))
                && opt_text(r.current_dir) == Some(working_dir@)
            &&& env_entries_view(r.env_vars@) == launch_env(
                p,
                execution_id@,
                opt_text(found_root),
                opt_text(uv_cache_dir),
            )
            &&& r.label@ == task_label(p.env, task_id)
        }),
{
    let ghost p = process_env_view(*env);
    let label = match env_lookup(&env.env_vars, "task_name") {
        Some(EnvValue::Text(s)) => s,
        _ => uuid_string(task_id),
    };
    let mut vars: Vec<(String, EnvValue)> = Vec::new();
    let mut i: usize = 0;
    while i < env.env_vars.len()
        invariant
            i <= env.env_vars.len(),
            vars@.len() == i,
            forall|j: int|
                0 <= j < i ==> (#[trigger] vars@[j]).0@ == env.env_vars@[j].0@ && env_value_view(vars@[j].1)
                    == env_value_view(env.env_vars@[j].1),
        decreases env.env_vars.len() - i,
    {
        let k = env.env_vars[i].0.clone();
        let v = copy_env_value(&env.env_vars[i].1);
        vars.push((k, v));
        i = i + 1;
    }
    assert(env_entries_view(vars@) =~= p.env);
    env_insert(&mut vars, "EXECUTION_ID".to_owned(), EnvValue::Text(execution_id.to_owned()));
    let (launch, root) = match &env.task_file {
        Some(f) => {
            env_insert(&mut vars, "ORK_TASK_FILE".to_owned(), EnvValue::Text(f.clone()));
            set_json_var(&mut vars, "ORK_INPUT_JSON", &env.task_input);
            set_text_var(&mut vars, "ORK_TASK_FUNCTION", &env.task_function);
            add_identity(&mut vars);
            let root = match &env.python_path {
                Some(pp) => Some(pp.clone()),
                None => found_root,
            };
            (LaunchCommand::Python, root)
        },
        None => match &env.task_module {
            Some(m) => {
                env_insert(&mut vars, "ORK_TASK_MODULE".to_owned(), EnvValue::Text(m.clone()));
                set_text_var(&mut vars, "ORK_TASK_FUNCTION", &env.task_function);
                set_json_var(&mut vars, "ORK_INPUT_JSON", &env.task_input);
                add_identity(&mut vars);
                let root = match &env.python_path {
                    Some(pp) => Some(pp.clone()),
                    None => None,
                };
                (LaunchCommand::Python, root)
            },
            None => (LaunchCommand::Shell(resolve_command_path(working_dir, command)), None),
        },
    };
    set_text_var(&mut vars, "PYTHONPATH", &root);
    match &uv_cache_dir {
        Some(d) => {
            if env_lookup(&vars, "UV_CACHE_DIR").is_none() {
                env_insert(&mut vars, "UV_CACHE_DIR".to_owned(), EnvValue::Text(d.clone()));
            }
        },
        None => {},
    }
    let current_dir = match launch {
        LaunchCommand::Python => root,
        LaunchCommand::Shell(_) => Some(working_dir.to_owned()),
    };
    ProcessLaunch { command: launch, current_dir, env_vars: vars, label }
}

/// The error of a process task that could not be started.
pub open spec fn spawn_failed_text(label: Seq<char>, execution_id: Seq<char>, error: Seq<char>) -> Seq<char> {
    "failed to spawn process for task "@ + label + " (execution "@ + execution_id + "): "@ + error
}

/// The error of a process task that exited unsuccessfully.
pub open spec fn process_failed_text(label: Seq<char>, execution_id: Seq<char>) -> Seq<char> {
    "process failed for task "@ + label + " (execution "@ + execution_id + ")"@
}

/// The update sent when a process task could not be started.
pub fn spawn_failed_update(task_id: u128, label: &str, execution_id: &str, error: &str) -> (r: StatusUpdate)
    ensures
        r.task_id == task_id,
        r.status@ == "failed"@,
        r.log is None,
        r.output is None,
        r.error matches Some(e) && e@ == spawn_failed_text(label@, execution_id@, error@),
{
    proof {
        reveal_strlit("failed");
    }
    let mut e = concat2("failed to spawn process for task ", label);
    e.append(" (execution ");
    e.append(execution_id);
    e.append("): ");
    e.append(error);
    StatusUpdate { task_id, status: "failed".to_owned(), log: None, output: None, error: Some(e) }
}

/// The update sent when a process task has exited: a success carries the last output the
/// task reported; a failure says which task and execution failed.
pub fn process_finished_update(
    task_id: u128,
    success: bool,
    output: Option<Json>,
    label: &str,
    execution_id: &str,
) -> (r: StatusUpdate)
    ensures
        r.task_id == task_id,
        r.log is None,
        success ==> r.status@ == "success"@ && r.output == output && r.error is None,
        !success ==> r.status@ == "failed"@ && r.output is None && (r.error matches Some(e) && e@
            == process_failed_text(label@, execution_id@)),
{
    if success {
        StatusUpdate { task_id, status: "success".to_owned(), log: None, output, error: None }
    } else {
        let mut e = concat2("process failed for task ", label);
        e.append(" (execution ");
        e.append(execution_id);
        e.append(")");
        StatusUpdate { task_id, status: "failed".to_owned(), log: None, output: None, error: Some(e) }
    }
}

/// The library a library task loads: the `library_path` string of its parameters.
pub open spec fn library_path_of(params: Option<JsonV>) -> Option<Seq<char>> {
    match params {
        Some(p) => match get_spec(p, "library_path"@) {
            Some(JsonV::Str(path)) => Some(path),
            _ => None,
        },
        None => None,
    }
}

pub fn library_path(params: &Option<Json>) -> (r: Result<String, String>)
    ensures
        match library_path_of(
            match *params {
                Some(p) => Some(p@),
                None => None,
            },
        ) {
            Some(path) => r matches Ok(s) && s@ == path,
            None => r matches Err(m) && m@ == "Missing library_path in task parameters"@,
        },
{
    let found = match params {
        Some(p) => match p.get("library_path") {
            Some(v) => v.as_str(),
            None => None,
        },
        None => None,
    };
    match found {
        Some(path) => Ok(path.clone()),
        None => Err("Missing library_path in task parameters".to_owned()),
    }
}

/// What a worker answered to a request to execute a task.
#[derive(Debug)]
pub enum ExecuteResponse {
    Success { output: Json, deferred: Option<Vec<Json>> },
    Failed { error: String },
}

/// The output a worker's successful run is recorded with: its output, with the
/// deferrables it reported set under `deferred` when the output is an object.
pub open spec fn worker_output(output: JsonV, deferred: Option<Seq<JsonV>>) -> JsonV {
    match deferred {
        Some(d) => match output {
            JsonV::Object(e) => JsonV::Object(entries_insert(e, "deferred"@, JsonV::Array(d))),
            _ => output,
        },
        None => output,
    }
}

/// What a worker's answer leads to: the status update recorded for the task, and the
/// result of the execution (the worker's own output, or the error of a failed task).
pub fn worker_outcome(task_id: u128, response: ExecuteResponse) -> (r: (StatusUpdate, Result<Json, String>))
    ensures
        r.0.task_id == task_id,
        r.0.log is None,
        match response {
            ExecuteResponse::Success { output, deferred } => {
                &&& r.0.status@ == "success"@
                &&& r.0.error is None
                &&& r.0.output matches Some(o) && o@ == worker_output(
                    output@,
                    match deferred {
                        Some(d) => Some(items_view(d@)),
                        None => None,
                    },
                )
                &&& r.1 matches Ok(j) && j@ == output@
            },
            ExecuteResponse::Failed { error } => {
                &&& r.0.status@ == "failed"@
                &&& r.0.output is None
                &&& r.0.error == Some(error)
                &&& r.1 matches Err(m) && m@ == "Task failed: "@ + error@
            },
        },
{
    match response {
        ExecuteResponse::Success { output, deferred } => {
            let result = output.deep_clone();
            let recorded = match deferred {
                Some(d) => match output {
                    Json::Object(mut e) => {
                        proof {
                            crate::json::lemma_object_view(e);
                            crate::json::lemma_array_view(d);
                        }
                        entries_set(&mut e, "deferred".to_owned(), Json::Array(d));
                        proof {
                            crate::json::lemma_object_view(e);
                        }
                        Json::Object(e)
                    },
                    other => other,
                },
                None => output,
            };
            (StatusUpdate { task_id, status: "success".to_owned(), log: None, output: Some(recorded), error: None }, Ok(result))
        },
        ExecuteResponse::Failed { error } => {
            let message = concat2("Task failed: ", error.as_str());
            (StatusUpdate { task_id, status: "failed".to_owned(), log: None, output: None, error: Some(error) }, Err(message))
        },
    }
}

/// The output a task writes is the output it is read back as: a line with `ORK_OUTPUT:`
/// and then the output's text, followed by any whitespace (a line break), reports that
/// text, and so does a library task's result of that form, when the text neither starts
/// nor ends with whitespace (as compact JSON text does not).
pub proof fn law_output_line_round_trip(t: Seq<char>, w: Seq<char>)
    requires
        t.len() > 0 ==> !is_ws(t[0]) && !is_ws(t.last()),
        all_ws(w),
    ensures
        output_payload("ORK_OUTPUT:"@ + t + w) == Some(t),
        library_payload("ORK_OUTPUT:"@ + t) == t,
{
    reveal_strlit("ORK_OUTPUT:");
    let prefix = "ORK_OUTPUT:"@;
    let line = prefix + t;
    lemma_trim_end_ws_suffix(line, w);
    assert(line.last() == (if t.len() > 0 { t.last() } else { ':' }));
    lemma_trim_end_noop(line);
    assert(line.subrange(0, prefix.len() as int) =~= prefix);
    assert(line.subrange(prefix.len() as int, line.len() as int) =~= t);
    lemma_trim_noop(t);
}

// ---------------------------------------------------------------------------------------
// One execution of a process task
// ---------------------------------------------------------------------------------------
/// The output a run of a process reports: that of the last line of its standard output
/// whose `ORK_OUTPUT:` payload parsed (`parsed` holds, line by line, what parsing gave).
pub open spec fn last_reported(parsed: Seq<Option<JsonV>>) -> Option<JsonV>
    decreases parsed.len(),
{
    if parsed.len() == 0 {
        None
    } else {
        match parsed.last() {
            Some(v) => Some(v),
            None => last_reported(parsed.drop_last()),
        }
    }
}

/// The output remembered after a line: the line's own when it reported one.
pub open spec fn next_output(prev: Option<JsonV>, parsed: Option<JsonV>) -> Option<JsonV> {
    match parsed {
        Some(v) => Some(v),
        None => prev,
    }
}

/// The output remembered after reading the lines in order, from `init`.
pub open spec fn outputs_read(init: Option<JsonV>, parsed: Seq<Option<JsonV>>) -> Option<JsonV>
    decreases parsed.len(),
{
    if parsed.len() == 0 {
        init
    } else {
        outputs_read(next_output(init, parsed[0]), parsed.drop_first())
    }
}

proof fn lemma_outputs_read_push(init: Option<JsonV>, parsed: Seq<Option<JsonV>>, x: Option<JsonV>)
    ensures
        outputs_read(init, parsed.push(x)) == next_output(outputs_read(init, parsed), x),
    decreases parsed.len(),
{
    if parsed.len() > 0 {
        assert(parsed.push(x).drop_first() =~= parsed.drop_first().push(x));
        assert(parsed.push(x)[0] == parsed[0]);
        lemma_outputs_read_push(next_output(init, parsed[0]), parsed.drop_first(), x);
        assert(outputs_read(init, parsed) == outputs_read(next_output(init, parsed[0]), parsed.drop_first()));
        assert(outputs_read(init, parsed.push(x)) == outputs_read(
            next_output(init, parsed.push(x)[0]),
            parsed.push(x).drop_first(),
        ));
    } else {
        let e = Seq::<Option<JsonV>>::empty();
        assert(parsed.push(x).drop_first() =~= e);
        assert(parsed.push(x)[0] == x);
        assert(outputs_read(next_output(init, x), e) == next_output(init, x));
        assert(outputs_read(init, parsed.push(x)) == outputs_read(next_output(init, x), e));
    }
}

/// The last output wins: reading a process's lines one after the other, remembering each
/// output a line reports, leaves the output of the last line that reported one.
pub proof fn law_last_output_wins(parsed: Seq<Option<JsonV>>)
    ensures
        outputs_read(None, parsed) == last_reported(parsed),
    decreases parsed.len(),
{
    if parsed.len() > 0 {
        let init = parsed.drop_last();
        law_last_output_wins(init);
        lemma_outputs_read_push(None, init, parsed.last());
        assert(init.push(parsed.last()) =~= parsed);
    }
}

/// Where an execution of a process task stands: running until its final update is sent,
/// then succeeded or failed for good.
#[derive(Debug, Clone, Copy, PartialEq, Eq, Structural)]
pub enum ProcessPhase {
    Running,
    Succeeded,
    Failed,
}

/// What happens to a process task once it was handed over to run.
#[derive(Debug)]
pub enum ProcessEvent {
    /// The process was started.
    Started,
    /// The process could not be started, with the error's text.
    SpawnFailed(String),
    /// A line of its standard output, and what reading its `ORK_OUTPUT:` payload gave.
    Stdout { line: String, parsed: Option<Json> },
    /// A line of its standard error.
    Stderr(String),
    /// The process ended (after both of its streams were read), successfully or not.
    Exited(bool),
}

/// An execution of a process task: the task and execution it reports for, the last output
/// one of its lines reported, and where it stands.
#[derive(Debug)]
pub struct ProcessRun {
    pub task_id: u128,
    pub label: String,
    pub execution_id: String,
    pub last_output: Option<Json>,
    pub phase: ProcessPhase,
}

pub open spec fn opt_json_view(o: Option<Json>) -> Option<JsonV> {
    match o {
        Some(j) => Some(j@),
        None => None,
    }
}

/// What a run has seen: the last output reported, and where it stands.
pub open spec fn run_state(r: ProcessRun) -> (Option<JsonV>, ProcessPhase) {
    (opt_json_view(r.last_output), r.phase)
}

/// An update of a task's status that carries no log, output or error.
pub open spec fn plain_update(u: StatusUpdate, task_id: u128, status: Seq<char>) -> bool {
    &&& u.task_id == task_id
    &&& u.status@ == status
    &&& u.log is None
    &&& u.output is None
    &&& u.error is None
}

/// A log update of a line of the given stream.
pub open spec fn log_update(u: StatusUpdate, task_id: u128, stream: Seq<char>, line: Seq<char>) -> bool {
    &&& u.task_id == task_id
    &&& u.status@ == "log"@
    &&& (u.log matches Some(l) && l@ == stream + ": "@ + trim_end_spec(line) + "\n"@)
    &&& u.output is None
    &&& u.error is None
}

/// One step of an execution: from what it has seen (`before`), an event leads to what it
/// has seen then (`after`) and to the update sent, if any. Once the final update was sent
/// nothing changes and nothing more is sent.
pub open spec fn process_step(
    task_id: u128,
    label: Seq<char>,
    execution_id: Seq<char>,
    before: (Option<JsonV>, ProcessPhase),
    event: ProcessEvent,
    after: (Option<JsonV>, ProcessPhase),
    out: Option<StatusUpdate>,
) -> bool {
    if before.1 != ProcessPhase::Running {
        after == before && out is None
    } else {
        match event {
            ProcessEvent::Started => after == before && (out matches Some(u) && plain_update(u, task_id, "running"@)),
            ProcessEvent::Stdout { line, parsed } => {
                &&& after == (next_output(before.0, opt_json_view(parsed)), ProcessPhase::Running)
                &&& out matches Some(u) && log_update(u, task_id, "stdout"@, line@)
            },
            ProcessEvent::Stderr(line) => after == before && (out matches Some(u) && log_update(
                u,
                task_id,
                "stderr"@,
                line@,
            )),
            ProcessEvent::SpawnFailed(e) => {
                &&& after == (before.0, ProcessPhase::Failed)
                &&& out matches Some(u)
                &&& u.task_id == task_id
                &&& u.status@ == "failed"@
                &&& u.log is None
                &&& u.output is None
                &&& u.error matches Some(m) && m@ == spawn_failed_text(label, execution_id, e@)
            },
            ProcessEvent::Exited(success) => {
                &&& after == (before.0, if success {
                    ProcessPhase::Succeeded
                } else {
                    ProcessPhase::Failed
                })
                &&& out matches Some(u)
                &&& u.task_id == task_id
                &&& u.log is None
                &&& success ==> u.status@ == "success"@ && opt_json_view(u.output) == before.0 && u.error is None
                &&& !success ==> u.status@ == "failed"@ && u.output is None && (u.error matches Some(m) && m@
                    == process_failed_text(label, execution_id))
            },
        }
    }
}

impl ProcessRun {
    /// An execution that has seen nothing yet and is running.
    pub fn new(task_id: u128, label: String, execution_id: String) -> (r: Self)
        ensures
            r.task_id == task_id,
            r.label == label,
            r.execution_id == execution_id,
            run_state(r) == (None::<JsonV>, ProcessPhase::Running),
    {
        ProcessRun { task_id, label, execution_id, last_output: None, phase: ProcessPhase::Running }
    }

    /// An event of the execution, and the update to send for it, if any.
    pub fn handle(&mut self, event: ProcessEvent) -> (r: Option<StatusUpdate>)
        ensures
            final(self).task_id == old(self).task_id,
            final(self).label == old(self).label,
            final(self).execution_id == old(self).execution_id,
            process_step(
                old(self).task_id,
                old(self).label@,
                old(self).execution_id@,
                run_state(*old(self)),
                event,
                run_state(*final(self)),
                r,
            ),
    {
        if self.phase != ProcessPhase::Running {
            return None;
        }
        proof {
            reveal_strlit("running");
            reveal_strlit("log");
        }
        let task_id = self.task_id;
        match event {
            ProcessEvent::Started => Some(
                StatusUpdate { task_id, status: "running".to_owned(), log: None, output: None, error: None },
            ),
            ProcessEvent::Stdout { line, parsed } => {
                if parsed.is_some() {
                    self.last_output = parsed;
                }
                Some(
                    StatusUpdate {
                        task_id,
                        status: "log".to_owned(),
                        log: Some(log_line("stdout", line.as_str())),
                        output: None,
                        error: None,
                    },
                )
            },
            ProcessEvent::Stderr(line) => Some(
                StatusUpdate {
                    task_id,
                    status: "log".to_owned(),
                    log: Some(log_line("stderr", line.as_str())),
                    output: None,
                    error: None,
                },
            ),
            ProcessEvent::SpawnFailed(e) => {
                self.phase = ProcessPhase::Failed;
                Some(spawn_failed_update(task_id, self.label.as_str(), self.execution_id.as_str(), e.as_str()))
            },
            ProcessEvent::Exited(success) => {
                self.phase = if success {
                    ProcessPhase::Succeeded
                } else {
                    ProcessPhase::Failed
                };
                let output = clone_opt_json(&self.last_output);
                Some(process_finished_update(task_id, success, output, self.label.as_str(), self.execution_id.as_str()))
            },
        }
    }
}

fn clone_opt_json(o: &Option<Json>) -> (r: Option<Json>)
    ensures
        opt_json_view(r) == opt_json_view(*o),
{
    match o {
        Some(j) => Some(j.deep_clone()),
        None => None,
    }
}


// ---------------------------------------------------------------------------------------
// Over one execution
// ---------------------------------------------------------------------------------------
/// The final update of an execution: it says the task succeeded or failed.
pub open spec fn is_final_update(u: StatusUpdate) -> bool {
    u.status@ == "success"@ || u.status@ == "failed"@
}

/// An event that ends an execution.
pub open spec fn is_terminal(event: ProcessEvent) -> bool {
    event is SpawnFailed || event is Exited
}

/// What reading the `ORK_OUTPUT:` payload gave for each line of standard output, in order.
pub open spec fn stdout_parsed(events: Seq<ProcessEvent>) -> Seq<Option<JsonV>>
    decreases events.len(),
{
    if events.len() == 0 {
        Seq::empty()
    } else {
        stdout_parsed(events.drop_last()) + match events.last() {
            ProcessEvent::Stdout { parsed, .. } => seq![opt_json_view(parsed)],
            _ => Seq::empty(),
        }
    }
}

/// A whole execution: the events in the order they were handled, what the execution had
/// seen before each of them and after the last (`states`), and the update sent for each.
pub open spec fn process_trace(
    task_id: u128,
    label: Seq<char>,
    execution_id: Seq<char>,
    events: Seq<ProcessEvent>,
    states: Seq<(Option<JsonV>, ProcessPhase)>,
    outs: Seq<Option<StatusUpdate>>,
) -> bool {
    &&& states.len() == events.len() + 1
    &&& outs.len() == events.len()
    &&& states[0] == (None::<JsonV>, ProcessPhase::Running)
    &&& forall|i: int|
        0 <= i < events.len() ==> #[trigger] process_step(
            task_id,
            label,
            execution_id,
            states[i],
            events[i],
            states[i + 1],
            outs[i],
        )
}

proof fn lemma_trace_prefix(
    task_id: u128,
    label: Seq<char>,
    execution_id: Seq<char>,
    events: Seq<ProcessEvent>,
    states: Seq<(Option<JsonV>, ProcessPhase)>,
    outs: Seq<Option<StatusUpdate>>,
    k: int,
)
    requires
        process_trace(task_id, label, execution_id, events, states, outs),
        0 <= k <= events.len(),
    ensures
        (states[k].1 == ProcessPhase::Running) == (forall|j: int| 0 <= j < k ==> !is_terminal(#[trigger] events[j])),
        states[k].1 == ProcessPhase::Running ==> states[k].0 == last_reported(stdout_parsed(events.take(k))),
    decreases k,
{
    if k > 0 {
        lemma_trace_prefix(task_id, label, execution_id, events, states, outs, k - 1);
        let i = k - 1;
        let e = events[i];
        assert(process_step(task_id, label, execution_id, states[i], events[i], states[i + 1], outs[i]));
        assert(states[i + 1] == states[k]);
        assert(events.take(k).drop_last() =~= events.take(k - 1));
        assert(events.take(k).last() == e);
        if states[k - 1].1 == ProcessPhase::Running {
            if is_terminal(e) {
                assert(states[k].1 != ProcessPhase::Running);
            } else {
                assert forall|j: int| 0 <= j < k implies !is_terminal(#[trigger] events[j]) by {
                    if j < k - 1 {
                        assert(!is_terminal(events[j]));
                    }
                }
                match e {
                    ProcessEvent::Stdout { parsed, .. } => {
                        let ps = stdout_parsed(events.take(k));
                        assert(ps =~= stdout_parsed(events.take(k - 1)).push(opt_json_view(parsed)));
                        assert(ps.drop_last() =~= stdout_parsed(events.take(k - 1)));
                    },
                    _ => {
                        assert(stdout_parsed(events.take(k)) =~= stdout_parsed(events.take(k - 1)));
                    },
                }
            }
        } else {
            let j0 = choose|j: int| 0 <= j < k - 1 && is_terminal(#[trigger] events[j]);
            assert(is_terminal(events[j0]));
        }
    }
}

/// One execution sends one final update: whatever the order in which its events came, no
/// update follows a final one; the event that ends the execution first gets the final
/// update, and only such an event gets one; every update is for the task; the final update
/// carries an output only when it says success, an error exactly when it says failed, and
/// on success the output of the last line of standard output that reported one.
pub proof fn law_one_final_update(
    task_id: u128,
    label: Seq<char>,
    execution_id: Seq<char>,
    events: Seq<ProcessEvent>,
    states: Seq<(Option<JsonV>, ProcessPhase)>,
    outs: Seq<Option<StatusUpdate>>,
)
    requires
        process_trace(task_id, label, execution_id, events, states, outs),
    ensures
        forall|i: int, j: int|
            0 <= i < j < outs.len() && (#[trigger] outs[i] matches Some(u) && is_final_update(u)) ==> #[trigger] outs[j] is None,
        forall|i: int|
            0 <= i < events.len() && is_terminal(#[trigger] events[i]) && (forall|j: int|
                0 <= j < i ==> !is_terminal(#[trigger] events[j])) ==> (outs[i] matches Some(u) && is_final_update(u)),
        forall|i: int| 0 <= i < outs.len() && (#[trigger] outs[i] matches Some(u) && is_final_update(u)) ==> is_terminal(events[i]),
        forall|i: int| 0 <= i < outs.len() && #[trigger] outs[i] is Some ==> outs[i]->0.task_id == task_id,
        forall|i: int|
            0 <= i < outs.len() && (#[trigger] outs[i] matches Some(u) && is_final_update(u)) ==> {
                let u = outs[i]->0;
                &&& u.output is Some ==> u.status@ == "success"@
                &&& u.error is Some <==> u.status@ == "failed"@
                &&& u.status@ == "success"@ ==> opt_json_view(u.output) == last_reported(stdout_parsed(events.take(i)))
            },
{
    reveal_strlit("running");
    reveal_strlit("log");
    reveal_strlit("success");
    reveal_strlit("failed");
    assert("running"@[0] != "success"@[0] && "running"@[0] != "failed"@[0]);
    assert("log"@[0] != "success"@[0] && "log"@[0] != "failed"@[0]);
    assert("success"@[0] != "failed"@[0]);
    assert forall|i: int, j: int|
        0 <= i < j < outs.len() && (#[trigger] outs[i] matches Some(u) && is_final_update(u)) implies #[trigger] outs[j] is None by {
        assert(process_step(task_id, label, execution_id, states[i], events[i], states[i + 1], outs[i]));
        assert(is_terminal(events[i]));
        lemma_trace_prefix(task_id, label, execution_id, events, states, outs, j);
        assert(states[j].1 != ProcessPhase::Running);
        assert(process_step(task_id, label, execution_id, states[j], events[j], states[j + 1], outs[j]));
    }
    assert forall|i: int|
        0 <= i < events.len() && is_terminal(#[trigger] events[i]) && (forall|j: int|
            0 <= j < i ==> !is_terminal(#[trigger] events[j])) implies (outs[i] matches Some(u) && is_final_update(u)) by {
        lemma_trace_prefix(task_id, label, execution_id, events, states, outs, i);
        assert(process_step(task_id, label, execution_id, states[i], events[i], states[i + 1], outs[i]));
    }
    assert forall|i: int| 0 <= i < outs.len() && (#[trigger] outs[i] matches Some(u) && is_final_update(u)) implies is_terminal(events[i]) by {
        assert(process_step(task_id, label, execution_id, states[i], events[i], states[i + 1], outs[i]));
    }
    assert forall|i: int| 0 <= i < outs.len() && #[trigger] outs[i] is Some implies outs[i]->0.task_id == task_id by {
        assert(process_step(task_id, label, execution_id, states[i], events[i], states[i + 1], outs[i]));
    }
    assert forall|i: int|
        0 <= i < outs.len() && (#[trigger] outs[i] matches Some(u) && is_final_update(u)) implies {
            let u = outs[i]->0;
            &&& u.output is Some ==> u.status@ == "success"@
            &&& u.error is Some <==> u.status@ == "failed"@
            &&& u.status@ == "success"@ ==> opt_json_view(u.output) == last_reported(stdout_parsed(events.take(i)))
        } by {
        lemma_trace_prefix(task_id, label, execution_id, events, states, outs, i);
        assert(process_step(task_id, label, execution_id, states[i], events[i], states[i + 1], outs[i]));
    }
}

} // verus!
