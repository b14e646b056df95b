//! Type schemas of task inputs and outputs.
//!
//! A schema is a primitive type name, an alias `types.<name>`, a one-element array (the
//! element type), or an object whose values are schemas.
use vstd::prelude::*;

use crate::error::{outcome_is, WorkflowValidationError, WveV};
use crate::json::{entries_find, entries_view, lemma_array_view, lemma_object_view, scalar_debug, Json, JsonV};
use crate::keyed::{has_key, key_index, lemma_first_key_exists};
use crate::text::{concat2, concat3, decimal, str_eq, strip_prefix, strip_prefix_spec, u64_to_decimal};

verus! {

pub open spec fn is_primitive(s: Seq<char>) -> bool {
    ||| s == "str"@
    ||| s == "int"@
    ||| s == "float"@
    ||| s == "bool"@
    ||| s == "date"@
    ||| s == "datetime_notz"@
    ||| s == "datetime_tz"@
    ||| s == "datetime_utc"@
}

pub fn is_primitive_name(s: &str) -> (r: bool)
    ensures
        r == is_primitive(s@),
{
    proof {
        reveal_strlit("str");
        reveal_strlit("int");
        reveal_strlit("float");
        reveal_strlit("bool");
        reveal_strlit("date");
        reveal_strlit("datetime_notz");
        reveal_strlit("datetime_tz");
        reveal_strlit("datetime_utc");
    }
    str_eq(s, "str") || str_eq(s, "int") || str_eq(s, "float") || str_eq(s, "bool") || str_eq(
        s,
        "date",
    ) || str_eq(s, "datetime_notz") || str_eq(s, "datetime_tz") || str_eq(s, "datetime_utc")
}

/// The primitive names as a list, for messages.
pub open spec fn primitive_list() -> Seq<char> {
    "str, int, float, bool, date, datetime_notz, datetime_tz, datetime_utc"@
}

/// The views of a list of strings.
pub open spec fn strs_view(s: Seq<String>) -> Seq<Seq<char>> {
    Seq::new(s.len(), |i: int| s[i]@)
}

/// The parts joined with `sep` between them.
pub open spec fn join(parts: Seq<Seq<char>>, sep: Seq<char>) -> Seq<char>
    decreases parts.len(),
{
    if parts.len() == 0 {
        Seq::empty()
    } else if parts.len() == 1 {
        parts[0]
    } else {
        join(parts.drop_last(), sep) + sep + parts.last()
    }
}

pub fn join_strings(parts: &Vec<String>, sep: &str) -> (r: String)
    ensures
        r@ == join(strs_view(parts@), sep@),
{
    let mut r = String::new();
    let mut i: usize = 0;
    while i < parts.len()
        invariant
            i <= parts.len(),
            r@ == join(strs_view(parts@).take(i as int), sep@),
        decreases parts.len() - i,
    {
        assert(strs_view(parts@).take(i + 1).drop_last() =~= strs_view(parts@).take(i as int));
        if i > 0 {
            r.append(sep);
        } else {
            assert(strs_view(parts@).take(0) =~= Seq::empty());
        }
        r.append(parts[i].as_str());
        i = i + 1;
    }
    assert(strs_view(parts@).take(i as int) =~= strs_view(parts@));
    r
}

/// The number of aliases (entries among the first `n`) whose name is not on the stack.
pub open spec fn unvisited(aliases: Seq<(Seq<char>, JsonV)>, stack: Seq<Seq<char>>, n: int) -> nat
    decreases n,
{
    if n <= 0 {
        0
    } else {
        unvisited(aliases, stack, n - 1) + (if stack.contains(aliases[n - 1].0) {
            0nat
        } else {
            1nat
        })
    }
}

pub proof fn lemma_unvisited_push(
    aliases: Seq<(Seq<char>, JsonV)>,
    stack: Seq<Seq<char>>,
    name: Seq<char>,
    k: int,
    n: int,
)
    requires
        0 <= k < aliases.len(),
        aliases[k].0 == name,
        !stack.contains(name),
        n <= aliases.len(),
    ensures
        unvisited(aliases, stack.push(name), n) <= unvisited(aliases, stack, n),
        n > k ==> unvisited(aliases, stack.push(name), n) < unvisited(aliases, stack, n),
    decreases n,
{
    if n > 0 {
        lemma_unvisited_push(aliases, stack, name, k, n - 1);
        let x = aliases[n - 1].0;
        if stack.push(name).contains(x) && !stack.contains(x) {
            let i = choose|i: int| 0 <= i < stack.push(name).len() && stack.push(name)[i] == x;
            if i < stack.len() {
                assert(stack[i] == x);
            }
        }
        if stack.contains(x) {
            let i = choose|i: int| 0 <= i < stack.len() && stack[i] == x;
            assert(stack.push(name)[i] == x);
        }
        if n - 1 == k {
            assert(stack.push(name)[stack.len() as int] == name);
        }
    }
}

pub open spec fn its(task: Seq<char>, path: Seq<char>, reason: Seq<char>) -> Option<WveV> {
    Some(WveV::InvalidTypeSchema { task, path, reason })
}

pub open spec fn schema_rank(v: JsonV) -> nat {
    match v {
        JsonV::Object(e) => e.len() + 1,
        _ => 0,
    }
}

/// The first error in a schema, checking in order: a string is a primitive or a known
/// alias that is not already being expanded; an array has one element type; an object's
/// values are schemas, in entry order.
pub open spec fn schema_err(
    v: JsonV,
    task: Seq<char>,
    path: Seq<char>,
    aliases: Seq<(Seq<char>, JsonV)>,
    stack: Seq<Seq<char>>,
) -> Option<WveV>
    decreases unvisited(aliases, stack, aliases.len() as int), v, schema_rank(v),
{
    match v {
        JsonV::Str(s) => {
            if is_primitive(s) {
                None
            } else {
                match strip_prefix_spec(s, "types."@) {
                    Some(alias) => {
                        if !has_key(aliases, alias) {
                            its(task, path, "unknown type alias '"@ + s + "'"@)
                        } else if stack.contains(alias) {
                            its(
                                task,
                                path,
                                "recursive type alias chain: "@ + join(stack.push(alias), " -> "@),
                            )
                        } else {
                            proof {
                                lemma_first_key_exists(aliases, alias);
                                lemma_unvisited_push(
                                    aliases,
                                    stack,
                                    alias,
                                    key_index(aliases, alias),
                                    aliases.len() as int,
                                );
                            }
                            schema_err(
                                aliases[key_index(aliases, alias)].1,
                                task,
                                path + " -> "@ + s,
                                aliases,
                                stack.push(alias),
                            )
                        }
                    },
                    None => its(
                        task,
                        path,
                        "unknown type '"@ + s + "'. Valid types: "@ + primitive_list(),
                    ),
                }
            }
        },
        JsonV::Array(items) => {
            if items.len() != 1 {
                its(
                    task,
                    path,
                    "array type must have exactly one element (the element type), got "@
                        + decimal(items.len()),
                )
            } else {
                schema_err(items[0], task, path + "[]"@, aliases, stack)
            }
        },
        JsonV::Object(e) => entries_schema_err(e, 0, task, path, aliases, stack),
        _ => its(
            task,
            path,
            "expected a type name (string), array type, or object, got "@ + scalar_debug(v),
        ),
    }
}

/// The first error among the values of an object schema, from entry `j` on.
pub open spec fn entries_schema_err(
    e: Seq<(Seq<char>, JsonV)>,
    j: int,
    task: Seq<char>,
    path: Seq<char>,
    aliases: Seq<(Seq<char>, JsonV)>,
    stack: Seq<Seq<char>>,
) -> Option<WveV>
    decreases unvisited(aliases, stack, aliases.len() as int), JsonV::Object(e), e.len() - j,
{
    if j < 0 || j >= e.len() {
        None
    } else {
        proof {
            lemma_dec_obj(JsonV::Object(e), j);
        }
        match schema_err(e[j].1, task, path + "."@ + e[j].0, aliases, stack) {
            Some(err) => Some(err),
            None => entries_schema_err(e, j + 1, task, path, aliases, stack),
        }
    }
}

fn invalid_schema(task: &str, path: &str, reason: String) -> (r: WorkflowValidationError)
    ensures
        r@ == (WveV::InvalidTypeSchema { task: task@, path: path@, reason: reason@ }),
{
    WorkflowValidationError::InvalidTypeSchema {
        task: task.to_owned(),
        path: path.to_owned(),
        reason,
    }
}

pub proof fn lemma_dec_obj(v: JsonV, j: int)
    requires
        v is Object,
        0 <= j < v->Object_0.len(),
    ensures
        decreases_to!(v => v->Object_0[j].1),
{
    let e = v->Object_0;
    assert(decreases_to!(v => e));
    assert(decreases_to!(e => e[j]));
    assert(decreases_to!(e[j] => e[j].1));
}

pub proof fn lemma_dec_arr(v: JsonV)
    requires
        v is Array,
        v->Array_0.len() > 0,
    ensures
        decreases_to!(v => v->Array_0[0]),
{
    let e = v->Array_0;
    assert(decreases_to!(v => e));
    assert(decreases_to!(e => e[0]));
}

/// Checks a type schema (see `schema_err`).
pub fn check_type_schema(
    value: &Json,
    task: &str,
    path: &str,
    aliases: &Vec<(String, Json)>,
    stack: &Vec<String>,
) -> (r: Result<(), WorkflowValidationError>)
    ensures
        outcome_is(r, schema_err(value@, task@, path@, entries_view(aliases@), strs_view(stack@))),
    decreases unvisited(entries_view(aliases@), strs_view(stack@), aliases@.len() as int), value@,
{
    let ghost av = entries_view(aliases@);
    let ghost sv = strs_view(stack@);
    match value {
        Json::String(s) => {
            if is_primitive_name(s.as_str()) {
                return Ok(());
            }
            proof {
                reveal_strlit("types.");
                reveal_strlit("'");
                reveal_strlit("unknown type alias '");
            }
            match strip_prefix(s.as_str(), "types.") {
                Some(alias) => {
                    match entries_find(aliases, alias.as_str()) {
                        None => {
                            let reason = concat3("unknown type alias '", s.as_str(), "'");
                            return Err(invalid_schema(task, path, reason));
                        },
                        Some(k) => {
                            let mut on_stack = false;
                            let mut i: usize = 0;
                            while i < stack.len()
                                invariant
                                    i <= stack.len(),
                                    on_stack == (exists|j: int| 0 <= j < i && stack@[j]@ == alias@),
                                decreases stack.len() - i,
                            {
                                if str_eq(stack[i].as_str(), alias.as_str()) {
                                    on_stack = true;
                                }
                                i = i + 1;
                            }
                            proof {
                                if on_stack {
                                    let j = choose|j: int| 0 <= j < i && stack@[j]@ == alias@;
                                    assert(sv[j] == alias@);
                                }
                                if sv.contains(alias@) {
                                    let j = choose|j: int| 0 <= j < sv.len() && sv[j] == alias@;
                                    assert(stack@[j]@ == alias@);
                                }
                            }
                            let mut chain = stack.clone();
                            chain.push(alias.clone());
                            proof {
                                assert(strs_view(chain@) =~= sv.push(alias@));
                            }
                            if on_stack {
                                let joined = join_strings(&chain, " -> ");
                                let reason = concat2("recursive type alias chain: ", joined.as_str());
                                return Err(invalid_schema(task, path, reason));
                            }
                            let sub_path = concat3(path, " -> ", s.as_str());
                            proof {
                                lemma_first_key_exists(av, alias@);
                                lemma_unvisited_push(av, sv, alias@, k as int, av.len() as int);
                            }
                            return check_type_schema(&aliases[k].1, task, sub_path.as_str(), aliases, &chain);
                        },
                    }
                },
                None => {
                    let mut reason = concat3("unknown type '", s.as_str(), "'. Valid types: ");
                    reason.append("str, int, float, bool, date, datetime_notz, datetime_tz, datetime_utc");
                    proof {
                        reveal_strlit("str, int, float, bool, date, datetime_notz, datetime_tz, datetime_utc");
                    }
                    return Err(invalid_schema(task, path, reason));
                },
            }
        },
        Json::Array(items) => {
            proof {
                lemma_array_view(*items);
            }
            if items.len() != 1 {
                let n = u64_to_decimal(items.len() as u64);
                let reason = concat2(
                    "array type must have exactly one element (the element type), got ",
                    n.as_str(),
                );
                return Err(invalid_schema(task, path, reason));
            }
            let sub_path = concat2(path, "[]");
            proof {
                lemma_dec_arr(value@);
            }
            check_type_schema(&items[0], task, sub_path.as_str(), aliases, stack)
        },
        Json::Object(entries) => {
            proof {
                lemma_object_view(*entries);
            }
            let ghost ev = entries_view(entries@);
            let mut j: usize = 0;
            while j < entries.len()
                invariant
                    value@ == JsonV::Object(ev),
                    ev == entries_view(entries@),
                    av == entries_view(aliases@),
                    sv == strs_view(stack@),
                    j <= entries.len(),
                    entries_schema_err(ev, 0, task@, path@, av, sv) == entries_schema_err(
                        ev,
                        j as int,
                        task@,
                        path@,
                        av,
                        sv,
                    ),
                decreases entries.len() - j,
            {
                let sub_path = concat3(path, ".", entries[j].0.as_str());
                proof {
                    lemma_dec_obj(value@, j as int);
                }
                let r = check_type_schema(&entries[j].1, task, sub_path.as_str(), aliases, stack);
                if r.is_err() {
                    return r;
                }
                j = j + 1;
            }
            Ok(())
        },
        _ => {
            let d = value.scalar_debug_string();
            let reason = concat2(
                "expected a type name (string), array type, or object, got ",
                d.as_str(),
            );
            Err(invalid_schema(task, path, reason))
        },
    }
}

} // verus!
