//! Workflow definitions.
use indexmap::IndexMap;
use vstd::prelude::*;

use crate::json::Json;

verus! {

/// How a task is executed.
#[derive(Debug, Clone, Copy, PartialEq, Eq)]
pub enum ExecutorKind {
    Process,
    CloudRun,
    Python,
    Library,
}

/// One task of a workflow definition.
#[derive(Debug)]
pub struct TaskDefinition {
    pub executor: ExecutorKind,
    pub file: Option<String>,
    pub command: Option<String>,
    pub job: Option<String>,
    pub module: Option<String>,
    pub function: Option<String>,
    pub input: Json,
    pub inputs: Json,
    pub depends_on: Vec<String>,
    pub timeout: u64,
    pub retries: u32,
    pub input_type: Option<Json>,
    pub output_type: Option<Json>,
}

/// A workflow definition: named tasks in declaration order, and named type aliases, kept
/// as a sorted map keeps them (see `types_sorted`).
#[derive(Debug)]
pub struct Workflow {
    pub name: String,
    pub description: Option<String>,
    pub schedule: Option<String>,
    pub types: Vec<(String, Json)>,
    pub tasks: IndexMap<String, TaskDefinition>,
}

/// Texts in the order of their characters (which is the byte order of their UTF-8 form):
/// a proper prefix comes first.
pub open spec fn text_lt(a: Seq<char>, b: Seq<char>) -> bool
    decreases a.len(),
{
    if a.len() == 0 {
        b.len() > 0
    } else if b.len() == 0 {
        false
    } else if a[0] != b[0] {
        (a[0] as u32) < (b[0] as u32)
    } else {
        text_lt(a.drop_first(), b.drop_first())
    }
}

/// The type aliases of a definition are a sorted map: their names in increasing order,
/// so that no name occurs twice.
pub open spec fn types_sorted(types: Seq<(String, Json)>) -> bool {
    &&& forall|i: int, j: int| 0 <= i < j < types.len() ==> text_lt(types[i].0@, types[j].0@)
    &&& forall|i: int, j: int| 0 <= i < j < types.len() ==> types[i].0@ != types[j].0@
}

/// The timeout of a task that declares none, in seconds.
pub fn default_timeout_secs() -> (r: u64)
    ensures
        r == 300,
{
    300
}

/// The retries of a task that declares none.
pub fn default_retries() -> (r: u32)
    ensures
        r == 0,
{
    0
}


proof fn lemma_text_lt_irreflexive(a: Seq<char>)
    ensures
        !text_lt(a, a),
    decreases a.len(),
{
    if a.len() > 0 {
        lemma_text_lt_irreflexive(a.drop_first());
    }
}

proof fn lemma_text_lt_transitive(a: Seq<char>, b: Seq<char>, c: Seq<char>)
    requires
        text_lt(a, b),
        text_lt(b, c),
    ensures
        text_lt(a, c),
    decreases a.len(),
{
    if a.len() > 0 && b.len() > 0 && c.len() > 0 && a[0] == b[0] && b[0] == c[0] {
        lemma_text_lt_transitive(a.drop_first(), b.drop_first(), c.drop_first());
    }
}

/// Whether `a` comes before `b` in the order of their characters.
fn text_less(a: &str, b: &str) -> (r: bool)
    ensures
        r == text_lt(a@, b@),
{
    let n = a.unicode_len();
    let m = b.unicode_len();
    let mut i: usize = 0;
    assert(a@.skip(0) =~= a@);
    assert(b@.skip(0) =~= b@);
    while i < n && i < m
        invariant
            n == a@.len(),
            m == b@.len(),
            i <= n,
            i <= m,
            text_lt(a@, b@) == text_lt(a@.skip(i as int), b@.skip(i as int)),
        decreases n - i,
    {
        let ca = a.get_char(i);
        let cb = b.get_char(i);
        let ghost x = a@.skip(i as int);
        let ghost y = b@.skip(i as int);
        assert(x[0] == ca && y[0] == cb);
        if ca != cb {
            return (ca as u32) < (cb as u32);
        }
        assert(x.drop_first() =~= a@.skip(i + 1));
        assert(y.drop_first() =~= b@.skip(i + 1));
        i = i + 1;
    }
    assert(a@.skip(i as int).len() == n - i);
    assert(b@.skip(i as int).len() == m - i);
    i == n && i < m
}

impl Workflow {
    /// Whether the type aliases form a sorted map: names in increasing order, none twice.
    pub fn types_in_order(&self) -> (r: bool)
        ensures
            r == types_sorted(self.types@),
    {
        let t = &self.types;
        let mut i: usize = 1;
        if t.len() == 0 {
            return true;
        }
        while i < t.len()
            invariant
                1 <= i <= t.len(),
                t@ == self.types@,
                forall|p: int, q: int| 0 <= p < q < i ==> text_lt(t@[p].0@, t@[q].0@),
            decreases t.len() - i,
        {
            if !text_less(t[i - 1].0.as_str(), t[i].0.as_str()) {
                proof {
                    let p = i - 1;
                    let q = i as int;
                    assert(!text_lt(self.types@[p].0@, self.types@[q].0@));
                    assert(!(0 <= p < q < self.types@.len() ==> text_lt(self.types@[p].0@, self.types@[q].0@)));
                }
                return false;
            }
            proof {
                assert forall|p: int, q: int| 0 <= p < q < i + 1 implies text_lt(t@[p].0@, t@[q].0@) by {
                    if q == i && p < i - 1 {
                        lemma_text_lt_transitive(t@[p].0@, t@[i - 1].0@, t@[i as int].0@);
                    }
                }
            }
            i = i + 1;
        }
        proof {
            assert forall|p: int, q: int| 0 <= p < q < t.len() implies t@[p].0@ != t@[q].0@ by {
                lemma_text_lt_irreflexive(t@[p].0@);
            }
        }
        true
    }
}

} // verus!
