use vstd::prelude::*;

use crate::message::ToolCall;
use crate::text::{str_eq, views};

verus! {

/// Whether the tool named `name` only reads, so that it may run before the others.
pub open spec fn is_read_only_spec(name: Seq<char>) -> bool {
    ||| name == "read_file"@
    ||| name == "list_files"@
    ||| name == "grep"@
    ||| name == "glob"@
}

/// Whether the tool named `name` only reads.
pub fn is_read_only(name: &str) -> (r: bool)
    ensures
        r == is_read_only_spec(name@),
{
    str_eq(name, "read_file") || str_eq(name, "list_files") || str_eq(name, "grep") || str_eq(name, "glob")
}

/// The position of the first tool named `name` among the tool names `names`.
pub fn find_tool(names: &Vec<String>, name: &str) -> (r: Option<usize>)
    ensures
        match r {
            Some(i) => i < names@.len() && names@[i as int]@ == name@ && forall|j: int|
                0 <= j < i ==> #[trigger] names@[j]@ != name@,
            None => forall|j: int| 0 <= j < names@.len() ==> #[trigger] names@[j]@ != name@,
        },
{
    let n = names.len();
    for i in 0..n
        invariant
            n == names@.len(),
            forall|j: int| 0 <= j < i ==> #[trigger] names@[j]@ != name@,
    {
        if str_eq(names[i].as_str(), name) {
            return Some(i);
        }
    }
    None
}

/// The error for a call of a tool that is not registered.
pub fn unknown_tool(name: &str) -> (r: String)
    ensures
        r@ == "Unknown tool: "@ + name@,
{
    let mut r = String::new();
    r.append("Unknown tool: ");
    r.append(name);
    r
}

/// The indices `0..n` that satisfy `pred`, in increasing order.
pub open spec fn indices_where(n: nat, pred: spec_fn(int) -> bool) -> Seq<usize>
    decreases n,
{
    if n == 0 {
        seq![]
    } else {
        let prev = indices_where((n - 1) as nat, pred);
        if pred(n - 1) {
            prev.push((n - 1) as usize)
        } else {
            prev
        }
    }
}

/// The order in which a batch of calls runs: first the read-only calls, then
/// the others, each group in the order the calls were made.
pub open spec fn batch_schedule_spec(calls: Seq<ToolCall>) -> Seq<usize> {
    indices_where(calls.len(), |i: int| is_read_only_spec(calls[i].name@))
        + indices_where(calls.len(), |i: int| !is_read_only_spec(calls[i].name@))
}

/// The order in which the batch `calls` runs (see `batch_schedule_spec`).
pub fn batch_schedule(calls: &Vec<ToolCall>) -> (order: Vec<usize>)
    ensures
        order@ == batch_schedule_spec(calls@),
{
    let ghost ro = |i: int| is_read_only_spec(calls@[i].name@);
    let ghost rw = |i: int| !is_read_only_spec(calls@[i].name@);
    let n = calls.len();
    let mut first: Vec<usize> = Vec::new();
    let mut second: Vec<usize> = Vec::new();
    for i in 0..n
        invariant
            n == calls@.len(),
            ro == (|i: int| is_read_only_spec(calls@[i].name@)),
            rw == (|i: int| !is_read_only_spec(calls@[i].name@)),
            first@ == indices_where(i as nat, ro),
            second@ == indices_where(i as nat, rw),
    {
        if is_read_only(calls[i].name.as_str()) {
            first.push(i);
        } else {
            second.push(i);
        }
    }
    let m = second.len();
    let ghost f = first@;
    for k in 0..m
        invariant
            m == second@.len(),
            first@ == f + second@.take(k as int),
    {
        first.push(second[k]);
        assert(second@.take(k + 1) =~= second@.take(k as int).push(second@[k as int]));
        assert(first@ =~= f + second@.take(k + 1));
    }
    assert(second@.take(m as int) =~= second@);
    first
}

/// How the outcome of a call is reported: its output, or "Error: " and the error.
pub open spec fn outcome_text(r: Result<String, String>) -> Seq<char> {
    match r {
        Ok(o) => o@,
        Err(e) => "Error: "@ + e@,
    }
}

/// The position in `order` that holds `i`.
pub open spec fn slot_of(order: Seq<usize>, i: int) -> int {
    choose|k: int| 0 <= k < order.len() && order[k] == i
}

/// Whether `order` holds each of the indices `0..n` exactly once.
pub open spec fn is_permutation_of(order: Seq<usize>, n: nat) -> bool {
    crate::sort::is_permutation(order, n)
}

proof fn lemma_indices_where_props(n: nat, pred: spec_fn(int) -> bool)
    requires
        n <= usize::MAX + 1,
    ensures
        forall|k: int| 0 <= k < indices_where(n, pred).len() ==> indices_where(n, pred)[k] < n && pred(
            indices_where(n, pred)[k] as int,
        ),
        forall|k: int, l: int|
            0 <= k < l < indices_where(n, pred).len() ==> indices_where(n, pred)[k] < indices_where(n, pred)[l],
        forall|i: int| 0 <= i < n && pred(i) ==> #[trigger] crate::sort::holds_index(indices_where(n, pred), i),
    decreases n,
{
    if n > 0 {
        lemma_indices_where_props((n - 1) as nat, pred);
        let prev = indices_where((n - 1) as nat, pred);
        let cur = indices_where(n, pred);
        assert forall|i: int| 0 <= i < n && pred(i) implies #[trigger] crate::sort::holds_index(cur, i) by {
            if i < n - 1 {
                assert(crate::sort::holds_index(prev, i));
                let k = choose|k: int| 0 <= k < prev.len() && prev[k] == i;
                assert(cur[k] == i);
            } else {
                assert(cur[cur.len() - 1] == i);
            }
        }
    }
}

/// The schedule of a batch runs every call exactly once.
pub proof fn lemma_batch_schedule_is_permutation(calls: Seq<ToolCall>)
    requires
        calls.len() <= usize::MAX,
    ensures
        is_permutation_of(batch_schedule_spec(calls), calls.len()),
{
    let pr = |i: int| is_read_only_spec(calls[i].name@);
    let pw = |i: int| !is_read_only_spec(calls[i].name@);
    let a = indices_where(calls.len(), pr);
    let b = indices_where(calls.len(), pw);
    lemma_indices_where_props(calls.len(), pr);
    lemma_indices_where_props(calls.len(), pw);
    let s = a + b;
    assert(s == batch_schedule_spec(calls));
    assert forall|i: int, j: int| 0 <= i < j < s.len() implies s[i] != s[j] by {
        if j < a.len() {
        } else if i >= a.len() {
            assert(s[i] == b[i - a.len()]);
            assert(s[j] == b[j - a.len()]);
        } else {
            assert(pr(s[i] as int));
            assert(pw(b[j - a.len()] as int));
        }
    }
    assert forall|i: int| 0 <= i < s.len() implies s[i] < calls.len() by {
        if i >= a.len() {
            assert(s[i] == b[i - a.len()]);
        }
    }
    // Every index is in one of the two groups, so the lengths add up.
    lemma_count_split(calls.len(), pr, pw);
}

proof fn lemma_count_split(n: nat, pr: spec_fn(int) -> bool, pw: spec_fn(int) -> bool)
    requires
        forall|i: int| #[trigger] pr(i) == !pw(i),
    ensures
        indices_where(n, pr).len() + indices_where(n, pw).len() == n,
    decreases n,
{
    if n > 0 {
        lemma_count_split((n - 1) as nat, pr, pw);
    }
}

/// The results of a batch in the order the calls were made: the id of each
/// call and the text of its outcome. `outcomes[k]` is the outcome of the call
/// `order[k]`, the `k`-th to run.
pub fn batch_results(calls: &Vec<ToolCall>, order: &Vec<usize>, outcomes: &Vec<Result<String, String>>) -> (r: Vec<(String, String)>)
    requires
        is_permutation_of(order@, calls@.len()),
        outcomes@.len() == order@.len(),
    ensures
        r@.len() == calls@.len(),
        forall|i: int| 0 <= i < calls@.len() ==> {
            &&& (#[trigger] r@[i]).0@ == calls@[i].id@
            &&& r@[i].1@ == outcome_text(outcomes@[slot_of(order@, i)])
        },
{
    let n = calls.len();
    let mut texts: Vec<Option<String>> = Vec::new();
    for i in 0..n
        invariant
            texts@.len() == i,
            forall|j: int| 0 <= j < i ==> texts@[j] is None,
    {
        texts.push(None);
    }
    let m = order.len();
    for k in 0..m
        invariant
            m == order@.len(),
            m == outcomes@.len(),
            n == calls@.len(),
            texts@.len() == n,
            is_permutation_of(order@, n as nat),
            forall|j: int| 0 <= j < n ==> match #[trigger] texts@[j] {
                Some(t) => exists|q: int| 0 <= q < k && order@[q] == j && t@ == outcome_text(outcomes@[q]),
                None => forall|q: int| 0 <= q < k ==> order@[q] != j,
            },
    {
        let text = match &outcomes[k] {
            Ok(o) => o.clone(),
            Err(e) => {
                let mut t = String::new();
                t.append("Error: ");
                t.append(e.as_str());
                t
            },
        };
        assert(text@ == outcome_text(outcomes@[k as int]));
        let j = order[k];
        texts.set(j, Some(text));
        assert forall|jj: int| 0 <= jj < n implies match #[trigger] texts@[jj] {
            Some(t) => exists|q: int| 0 <= q < k + 1 && order@[q] == jj && t@ == outcome_text(outcomes@[q]),
            None => forall|q: int| 0 <= q < k + 1 ==> order@[q] != jj,
        } by {
            if jj == j as int {
                assert(order@[k as int] == jj);
            }
        }
    }
    proof {
        crate::sort::lemma_permutation_covers(order@, n as nat);
    }
    let mut out: Vec<(String, String)> = Vec::new();
    for i in 0..n
        invariant
            n == calls@.len(),
            m == order@.len(),
            texts@.len() == n,
            is_permutation_of(order@, n as nat),
            forall|j: int| 0 <= j < n ==> #[trigger] crate::sort::holds_index(order@, j),
            forall|j: int| 0 <= j < n ==> match #[trigger] texts@[j] {
                Some(t) => exists|q: int| 0 <= q < m && order@[q] == j && t@ == outcome_text(outcomes@[q]),
                None => forall|q: int| 0 <= q < m ==> order@[q] != j,
            },
            out@.len() == i,
            forall|j: int| 0 <= j < i ==> {
                &&& (#[trigger] out@[j]).0@ == calls@[j].id@
                &&& out@[j].1@ == outcome_text(outcomes@[slot_of(order@, j)])
            },
    {
        proof {
            assert(crate::sort::holds_index(order@, i as int));
            let k = choose|k: int| 0 <= k < order@.len() && order@[k] == i;
            assert(order@[k] == i);
        }
        let t = match &texts[i] {
            Some(t) => t.clone(),
            None => String::new(),
        };
        proof {
            let q = choose|q: int| 0 <= q < m && order@[q] == i && t@ == outcome_text(outcomes@[q]);
            let s = slot_of(order@, i as int);
            assert(0 <= s < order@.len() && order@[s] == i);
            if s != q {
                if s < q {
                    assert(order@[s] != order@[q]);
                } else {
                    assert(order@[q] != order@[s]);
                }
            }
        }
        out.push((calls[i].id.clone(), t));
    }
    out
}

} // verus!
