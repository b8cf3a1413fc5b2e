//! The output of a run in CI mode: the logs of the tasks that ran, completed ones first
//! and each group by name, followed by the run summary.

use crate::rendering::{ci_summary, render_ci_summary};
use crate::run_outcome::{RunExecutionResult, RunTaskResult};
use crate::text::{chars_of, extend_str, str_equals, string_from_chars};
use vstd::prelude::*;
use vstd::string::*;

verus! {

/// Strict lexicographic order of character sequences by code point, the order in which
/// `str` compares its UTF-8 bytes.
pub open spec fn chars_lt(a: Seq<char>, b: Seq<char>) -> bool
    decreases a.len(),
{
    if a.len() == 0 {
        b.len() > 0
    } else if b.len() == 0 {
        false
    } else if a[0] != b[0] {
        (a[0] as int) < (b[0] as int)
    } else {
        chars_lt(a.drop_first(), b.drop_first())
    }
}

/// No sequence comes before itself.
pub proof fn lemma_chars_lt_irreflexive(a: Seq<char>)
    ensures
        !chars_lt(a, a),
    decreases a.len(),
{
    if a.len() > 0 {
        lemma_chars_lt_irreflexive(a.drop_first());
    }
}

/// The lexicographic order is transitive.
pub proof fn lemma_chars_lt_transitive(a: Seq<char>, b: Seq<char>, c: Seq<char>)
    requires
        chars_lt(a, b),
        chars_lt(b, c),
    ensures
        chars_lt(a, c),
    decreases a.len(),
{
    if a.len() > 0 && b.len() > 0 && c.len() > 0 && a[0] == b[0] && b[0] == c[0] {
        lemma_chars_lt_transitive(a.drop_first(), b.drop_first(), c.drop_first());
    }
}

/// Of two different sequences, one comes before the other.
pub proof fn lemma_chars_lt_total(a: Seq<char>, b: Seq<char>)
    ensures
        a == b || chars_lt(a, b) || chars_lt(b, a),
    decreases a.len(),
{
    if a.len() > 0 && b.len() > 0 && a[0] == b[0] {
        lemma_chars_lt_total(a.drop_first(), b.drop_first());
        if a.drop_first() == b.drop_first() {
            assert(a =~= seq![a[0]] + a.drop_first());
            assert(b =~= seq![b[0]] + b.drop_first());
        }
    } else if a.len() == 0 && b.len() == 0 {
        assert(a =~= b);
    } else if a.len() > 0 && b.len() > 0 {
        assert((a[0] as int) != (b[0] as int));
    }
}

/// Whether `a` comes before `b` as `str` values.
pub fn chars_less(a: &str, b: &str) -> (lt: bool)
    ensures
        lt == chars_lt(a@, b@),
{
    let x = chars_of(a);
    let y = chars_of(b);
    let mut i: usize = 0;
    assert(a@.skip(0) =~= a@ && b@.skip(0) =~= b@);
    while i < x.len() && i < y.len() && x[i] == y[i]
        invariant
            i <= x@.len(),
            i <= y@.len(),
            x@ == a@,
            y@ == b@,
            chars_lt(a@, b@) == chars_lt(a@.skip(i as int), b@.skip(i as int)),
        decreases x@.len() - i,
    {
        assert(a@.skip(i as int).drop_first() =~= a@.skip(i + 1));
        assert(b@.skip(i as int).drop_first() =~= b@.skip(i + 1));
        i = i + 1;
    }
    if i == x.len() {
        i < y.len()
    } else if i == y.len() {
        false
    } else {
        x[i] < y[i]
    }
}

/// Whether a task's record says that it ran: it completed or failed.
pub open spec fn ci_executed(r: RunTaskResult) -> bool {
    r.status@ == "completed"@ || r.status@ == "failed"@
}

/// Whether a task's record says that it failed.
pub open spec fn ci_failed(r: RunTaskResult) -> bool {
    r.status@ == "failed"@
}

/// Whether `x`'s log is shown before `y`'s: completed before failed, then by name.
pub open spec fn ci_log_before(x: RunTaskResult, y: RunTaskResult) -> bool {
    (!ci_failed(x) && ci_failed(y)) || (ci_failed(x) == ci_failed(y) && chars_lt(x.name@, y.name@))
}

/// Whether the log of record `i` is shown before that of record `j`: by
/// `ci_log_before`, and between records with the same status and name, in record order.
pub open spec fn ci_index_before(rs: Seq<RunTaskResult>, i: int, j: int) -> bool {
    ci_log_before(rs[i], rs[j]) || (!ci_log_before(rs[j], rs[i]) && i < j)
}

/// Whether `order` lists the records that ran, each once, in the order their logs are
/// shown.
pub open spec fn is_ci_log_order(rs: Seq<RunTaskResult>, order: Seq<usize>) -> bool {
    &&& forall|k: int| 0 <= k < order.len() ==> #[trigger] order[k] < rs.len() && ci_executed(rs[order[k] as int])
    &&& forall|i: int| 0 <= i < rs.len() && ci_executed(rs[i]) ==> order.contains(i as usize)
    &&& forall|k: int, l: int|
        0 <= k < l < order.len() ==> ci_index_before(rs, #[trigger] order[k] as int, #[trigger] order[l] as int)
}

proof fn lemma_log_before_transitive(x: RunTaskResult, y: RunTaskResult, z: RunTaskResult)
    requires
        ci_log_before(x, y),
        ci_log_before(y, z),
    ensures
        ci_log_before(x, z),
{
    if ci_failed(x) == ci_failed(y) && ci_failed(y) == ci_failed(z) {
        lemma_chars_lt_transitive(x.name@, y.name@, z.name@);
    }
}

proof fn lemma_log_before_not_both(x: RunTaskResult, y: RunTaskResult)
    ensures
        !(ci_log_before(x, y) && ci_log_before(y, x)),
{
    if ci_log_before(x, y) && ci_log_before(y, x) {
        lemma_chars_lt_transitive(x.name@, y.name@, x.name@);
        lemma_chars_lt_irreflexive(x.name@);
    }
}

/// Neither before the other, and `z` before `y`, puts `z` before `x`.
proof fn lemma_log_before_tied_right(x: RunTaskResult, y: RunTaskResult, z: RunTaskResult)
    requires
        !ci_log_before(x, y),
        !ci_log_before(y, x),
        ci_log_before(z, y),
    ensures
        ci_log_before(z, x),
{
    lemma_chars_lt_total(x.name@, y.name@);
}

/// CI log grouping: in a log order, every completed task's log comes before every failed
/// task's, no log is shown twice, and within each group the names never go down.
pub proof fn lemma_ci_logs_completed_first_then_by_name(rs: Seq<RunTaskResult>, order: Seq<usize>)
    requires
        is_ci_log_order(rs, order),
    ensures
        order.no_duplicates(),
        forall|k: int, l: int|
            0 <= k < l < order.len() && ci_failed(rs[#[trigger] order[k] as int]) ==> ci_failed(
                rs[#[trigger] order[l] as int],
            ),
        forall|k: int, l: int|
            0 <= k < l < order.len() && ci_failed(rs[#[trigger] order[k] as int]) == ci_failed(
                rs[#[trigger] order[l] as int],
            ) ==> !chars_lt(rs[order[l] as int].name@, rs[order[k] as int].name@),
{
    assert forall|k: int, l: int| 0 <= k < l < order.len() implies order[k] != order[l] by {
        let a = order[k] as int;
        assert(ci_index_before(rs, order[k] as int, order[l] as int));
        lemma_log_before_not_both(rs[a], rs[a]);
    }
    assert forall|k: int, l: int|
        0 <= k < l < order.len() && ci_failed(rs[#[trigger] order[k] as int]) implies ci_failed(
        rs[#[trigger] order[l] as int],
    ) by {
        assert(ci_index_before(rs, order[k] as int, order[l] as int));
    }
    assert forall|k: int, l: int|
        0 <= k < l < order.len() && ci_failed(rs[#[trigger] order[k] as int]) == ci_failed(
            rs[#[trigger] order[l] as int],
        ) implies !chars_lt(rs[order[l] as int].name@, rs[order[k] as int].name@) by {
        let a = order[k] as int;
        let b = order[l] as int;
        assert(ci_index_before(rs, a, b));
        lemma_log_before_not_both(rs[a], rs[b]);
    }
}

/// The order in which `render_ci_output` shows task logs: the indices of the records that
/// ran, completed before failed, each group by name.
pub fn ci_log_order(result: &RunExecutionResult) -> (order: Vec<usize>)
    ensures
        is_ci_log_order(result.task_results@, order@),
{
    let ghost rs = result.task_results@;
    let mut order: Vec<usize> = Vec::new();
    let mut i: usize = 0;
    proof {
        reveal_strlit("completed");
        reveal_strlit("failed");
    }
    while i < result.task_results.len()
        invariant
            i <= rs.len(),
            rs == result.task_results@,
            forall|k: int| 0 <= k < order@.len() ==> #[trigger] order@[k] < i && ci_executed(rs[order@[k] as int]),
            forall|j: int| 0 <= j < i && ci_executed(rs[j]) ==> order@.contains(j as usize),
            forall|k: int, l: int|
                0 <= k < l < order@.len() ==> ci_index_before(rs, #[trigger] order@[k] as int, #[trigger] order@[l] as int),
        decreases rs.len() - i,
    {
        let r = &result.task_results[i];
        let executed = str_equals(r.status.as_str(), "completed") || str_equals(r.status.as_str(), "failed");
        if executed {
            let failed = str_equals(r.status.as_str(), "failed");
            let n = order.len();
            let mut pos: usize = 0;
            while pos < n
                invariant
                    n == order@.len(),
                    pos <= n,
                    i < rs.len(),
                    rs == result.task_results@,
                    failed == ci_failed(rs[i as int]),
                    *r == rs[i as int],
                    forall|k: int| 0 <= k < pos ==> !ci_log_before(rs[i as int], rs[#[trigger] order@[k] as int]),
                    forall|k: int| 0 <= k < order@.len() ==> #[trigger] order@[k] < i,
                ensures
                    pos <= n,
                    forall|k: int| 0 <= k < pos ==> !ci_log_before(rs[i as int], rs[#[trigger] order@[k] as int]),
                    pos < n ==> ci_log_before(rs[i as int], rs[order@[pos as int] as int]),
                decreases n - pos,
            {
                let other = &result.task_results[order[pos]];
                let other_failed = str_equals(other.status.as_str(), "failed");
                let before = (!failed && other_failed) || (failed == other_failed && chars_less(
                    r.name.as_str(),
                    other.name.as_str(),
                ));
                if before {
                    break;
                }
                pos = pos + 1;
            }
            let ghost old_order = order@;
            order.insert(pos, i);
            proof {
                assert(order@ =~= old_order.subrange(0, pos as int).push(i).add(old_order.subrange(pos as int, n as int)));
                assert forall|k: int| 0 <= k < order@.len() implies #[trigger] order@[k] < i + 1 && ci_executed(rs[order@[k] as int]) by {
                    if k < pos {
                        assert(order@[k] == old_order[k]);
                    } else if k > pos {
                        assert(order@[k] == old_order[k - 1]);
                    }
                }
                assert forall|j: int| 0 <= j < i + 1 && ci_executed(rs[j]) implies order@.contains(j as usize) by {
                    if j == i {
                        assert(order@[pos as int] == i);
                    } else {
                        assert(old_order.contains(j as usize));
                        let w = choose|w: int| 0 <= w < old_order.len() && old_order[w] == j as usize;
                        if w < pos {
                            assert(order@[w] == j as usize);
                        } else {
                            assert(order@[w + 1] == j as usize);
                        }
                    }
                }
                assert forall|k: int, l: int| 0 <= k < l < order@.len() implies ci_index_before(rs, #[trigger] order@[k] as int, #[trigger] order@[l] as int) by {
                    let x = rs[i as int];
                    if k < pos && l < pos {
                        assert(order@[k] == old_order[k] && order@[l] == old_order[l]);
                    } else if k > pos && l > pos {
                        assert(order@[k] == old_order[k - 1] && order@[l] == old_order[l - 1]);
                    } else if k < pos && l > pos {
                        assert(order@[k] == old_order[k] && order@[l] == old_order[l - 1]);
                    } else if k == pos {
                        // the new index against a later one
                        assert(order@[l] == old_order[l - 1]);
                        let q = old_order[pos as int] as int;
                        let y = rs[old_order[l - 1] as int];
                        assert(ci_log_before(x, rs[q]));
                        if l - 1 > pos {
                            assert(ci_index_before(rs, q, old_order[l - 1] as int));
                            if ci_log_before(rs[q], y) {
                                lemma_log_before_transitive(x, rs[q], y);
                            } else {
                                lemma_log_before_tied_right(y, rs[q], x);
                                lemma_log_before_not_both(x, y);
                            }
                        }
                        lemma_log_before_not_both(x, y);
                    } else {
                        // an earlier index against the new one
                        assert(l == pos);
                        assert(order@[k] == old_order[k]);
                        assert(!ci_log_before(x, rs[old_order[k] as int]));
                    }
                }
            }
        }
        i = i + 1;
    }
    order
}

/// One shown log: a blank line before all but the first, a heading with the task's name
/// and status, and the log's contents.
pub open spec fn ci_log_section(r: RunTaskResult, first: bool, log: Seq<char>) -> Seq<char> {
    (if first {
        Seq::empty()
    } else {
        "\n"@
    }) + "== "@ + r.name@ + " ("@ + r.status@ + ") ==\n"@ + log
}

/// The first `k` shown logs.
pub open spec fn ci_log_sections(rs: Seq<RunTaskResult>, order: Seq<usize>, logs: Seq<Seq<char>>, k: nat) -> Seq<
    char,
>
    decreases k,
{
    if k == 0 {
        Seq::empty()
    } else {
        ci_log_sections(rs, order, logs, (k - 1) as nat) + ci_log_section(
            rs[order[k - 1] as int],
            k == 1,
            logs[k - 1],
        )
    }
}

/// The CI output: when any task ran, a `Task logs` block with their logs, then the run
/// summary.
pub open spec fn ci_output(
    rs: Seq<RunTaskResult>,
    order: Seq<usize>,
    logs: Seq<Seq<char>>,
    summary: Seq<char>,
) -> Seq<char> {
    (if order.len() == 0 {
        Seq::empty()
    } else {
        "Task logs\n"@ + ci_log_sections(rs, order, logs, order.len()) + "\n"@
    }) + summary
}

/// Renders the CI output of a run, given the contents of the shown logs in the order
/// that `ci_log_order` gives.
pub fn render_ci_output(result: &RunExecutionResult, order: &Vec<usize>, logs: &Vec<String>) -> (s:
    String)
    requires
        is_ci_log_order(result.task_results@, order@),
        logs@.len() == order@.len(),
    ensures
        s@ == ci_output(
            result.task_results@,
            order@,
            logs@.map_values(|l: String| l@),
            ci_summary(result.task_results@, result.duration_nanos as nat, result.status),
        ),
{
    let ghost rs = result.task_results@;
    let ghost ls = logs@.map_values(|l: String| l@);
    let mut out: Vec<char> = Vec::new();
    if order.len() > 0 {
        extend_str(&mut out, "Task logs\n");
        let ghost start = out@;
        let mut k: usize = 0;
        while k < order.len()
            invariant
                k <= order@.len(),
                logs@.len() == order@.len(),
                rs == result.task_results@,
                ls == logs@.map_values(|l: String| l@),
                is_ci_log_order(rs, order@),
                out@ == start + ci_log_sections(rs, order@, ls, k as nat),
            decreases order@.len() - k,
        {
            let ghost before = out@;
            let r = &result.task_results[order[k]];
            if k > 0 {
                extend_str(&mut out, "\n");
            }
            extend_str(&mut out, "== ");
            extend_str(&mut out, r.name.as_str());
            extend_str(&mut out, " (");
            extend_str(&mut out, r.status.as_str());
            extend_str(&mut out, ") ==\n");
            extend_str(&mut out, logs[k].as_str());
            proof {
                reveal_strlit("");
                assert(ls[k as int] == logs@[k as int]@);
                assert(out@ =~= before + ci_log_section(rs[order@[k as int] as int], k == 0, ls[k as int]));
                assert(ci_log_sections(rs, order@, ls, (k + 1) as nat) == ci_log_sections(rs, order@, ls, k as nat)
                    + ci_log_section(rs[order@[k as int] as int], k + 1 == 1, ls[k as int]));
            }
            k = k + 1;
        }
        extend_str(&mut out, "\n");
    }
    let summary = render_ci_summary(result);
    extend_str(&mut out, summary.as_str());
    proof {
        if order@.len() == 0 {
            assert(out@ =~= ci_output(rs, order@, ls, summary@));
        } else {
            assert(out@ =~= ci_output(rs, order@, ls, summary@));
        }
    }
    string_from_chars(&out)
}

} // verus!
