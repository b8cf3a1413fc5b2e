//! Run planning: the requested tasks and, depth first, everything they depend on, each
//! task after its prerequisites and none twice.

use crate::recipe::{
    clone_strings, strings_view, tasks_view, FailureMode, LiveDisplay, Recipe, RecipeView, Task, TaskName, TaskView,
};
use crate::selectors::{
    expand_selectors, expand_task_selectors, selector_parts, split_task_selectors,
};
use crate::text::{join3, str_equals};
use vstd::prelude::*;

verus! {

/// Index of the task named `name`; when several share it, the last one.
pub open spec fn lookup(ts: Seq<TaskView>, name: Seq<char>) -> Option<int>
    decreases ts.len(),
{
    if ts.len() == 0 {
        None
    } else if ts.last().name == name {
        Some(ts.len() - 1)
    } else {
        lookup(ts.drop_last(), name)
    }
}

/// Planning progress: the names already planned and the tasks (as indices) in plan order.
#[verifier::ext_equal]
pub struct PlanState {
    pub visited: Seq<Seq<char>>,
    pub order: Seq<int>,
}

/// Plans task `name` and its prerequisites, depth first, while the names in `visiting`
/// are being planned.
pub open spec fn visit(ts: Seq<TaskView>, name: Seq<char>, visiting: Seq<Seq<char>>, st: PlanState) -> Result<
    PlanState,
    Seq<char>,
>
    decreases ts.len() - visiting.len(), 0int,
{
    if st.visited.contains(name) {
        Ok(st)
    } else if visiting.contains(name) {
        Err("task dependency cycle detected at `"@ + name + "`"@)
    } else {
        match lookup(ts, name) {
            None => Err("task `"@ + name + "` not found"@),
            Some(k) => if visiting.len() >= ts.len() {
                // Bounds the recursion; never taken for the chains `visit` builds (see
                // `lemma_visiting_chain_shorter_than_recipe`).
                Err("task dependency cycle detected at `"@ + name + "`"@)
            } else {
                match visit_deps(ts, ts[k].dependencies, 0, visiting.push(name), st) {
                    Err(e) => Err(e),
                    Ok(done) => Ok(PlanState { visited: done.visited.push(name), order: done.order.push(k) }),
                }
            },
        }
    }
}

/// Plans the prerequisites `deps` from the `j`-th on.
pub open spec fn visit_deps(
    ts: Seq<TaskView>,
    deps: Seq<Seq<char>>,
    j: int,
    visiting: Seq<Seq<char>>,
    st: PlanState,
) -> Result<PlanState, Seq<char>>
    decreases ts.len() - visiting.len(), deps.len() - j + 1,
{
    if j < 0 || j >= deps.len() {
        Ok(st)
    } else {
        match visit(ts, deps[j], visiting, st) {
            Err(e) => Err(e),
            Ok(next) => visit_deps(ts, deps, j + 1, visiting, next),
        }
    }
}

/// Plans the requested names from the `i`-th on.
pub open spec fn plan_from(ts: Seq<TaskView>, names: Seq<Seq<char>>, i: int, st: PlanState) -> Result<
    PlanState,
    Seq<char>,
>
    decreases names.len() - i,
{
    if i < 0 || i >= names.len() {
        Ok(st)
    } else {
        match visit(ts, names[i], Seq::empty(), st) {
            Err(e) => Err(e),
            Ok(next) => plan_from(ts, names, i + 1, next),
        }
    }
}

/// The empty plan.
pub open spec fn empty_plan() -> PlanState {
    PlanState { visited: Seq::empty(), order: Seq::empty() }
}

/// The message for a request that names no task.
pub open spec fn usage_message() -> Seq<char> {
    "usage: nao [--list] [--config <path>] [task-name...]"@
}

/// The plan for command-line task arguments: the expanded requested names and the
/// planned tasks, or the first error.
pub open spec fn planned(ts: Seq<TaskView>, args: Seq<Seq<char>>) -> Result<
    (Seq<Seq<char>>, Seq<TaskView>),
    Seq<char>,
> {
    let selectors = selector_parts(args);
    if selectors.len() == 0 {
        Err(usage_message())
    } else {
        match expand_selectors(ts, selectors) {
            Err(e) => Err(e),
            Ok(names) => match plan_from(ts, names, 0, empty_plan()) {
                Err(e) => Err(e),
                Ok(st) => Ok((names, st.order.map_values(|k: int| ts[k]))),
            },
        }
    }
}

/// What every planning state reached satisfies: each planned name is the name of its
/// task, no name is planned twice, and every prerequisite of a planned task was planned
/// before it.
pub open spec fn plan_ok(ts: Seq<TaskView>, st: PlanState) -> bool {
    &&& st.visited.len() == st.order.len()
    &&& forall|p: int|
        0 <= p < st.order.len() ==> 0 <= #[trigger] st.order[p] < ts.len() && ts[st.order[p]].name
            == st.visited[p]
    &&& forall|p: int, q: int|
        0 <= p < q < st.visited.len() ==> #[trigger] st.visited[p] != #[trigger] st.visited[q]
    &&& forall|p: int, d: int|
        0 <= p < st.order.len() && 0 <= d < ts[st.order[p]].dependencies.len()
            ==> #[trigger] planned_before(ts, st, p, d)
}

/// Whether the `d`-th prerequisite of the `p`-th planned task is planned before it.
pub open spec fn planned_before(ts: Seq<TaskView>, st: PlanState, p: int, d: int) -> bool {
    exists|q: int| 0 <= q < p && st.visited[q] == ts[st.order[p]].dependencies[d]
}

/// `a` extends `b`.
pub open spec fn extends(a: PlanState, b: PlanState) -> bool {
    &&& b.visited.len() <= a.visited.len()
    &&& b.order.len() <= a.order.len()
    &&& a.visited.take(b.visited.len() as int) == b.visited
    &&& a.order.take(b.order.len() as int) == b.order
}

proof fn lemma_lookup(ts: Seq<TaskView>, name: Seq<char>)
    ensures
        match lookup(ts, name) {
            Some(k) => 0 <= k < ts.len() && ts[k].name == name,
            None => true,
        },
    decreases ts.len(),
{
    if ts.len() > 0 && ts.last().name != name {
        lemma_lookup(ts.drop_last(), name);
    }
}

proof fn lemma_extends_trans(a: PlanState, b: PlanState, c: PlanState)
    requires
        extends(a, b),
        extends(b, c),
    ensures
        extends(a, c),
{
    assert(a.visited.take(c.visited.len() as int) =~= b.visited.take(c.visited.len() as int));
    assert(a.order.take(c.order.len() as int) =~= b.order.take(c.order.len() as int));
}

/// A successful `visit` keeps the planning invariant, extends the state, plans `name`,
/// and plans nothing that is being visited.
proof fn lemma_visit(ts: Seq<TaskView>, name: Seq<char>, visiting: Seq<Seq<char>>, st: PlanState)
    requires
        plan_ok(ts, st),
    ensures
        visit(ts, name, visiting, st) matches Ok(r) ==> {
            &&& plan_ok(ts, r)
            &&& extends(r, st)
            &&& r.visited.contains(name)
            &&& forall|x: Seq<char>|
                visiting.contains(x) && !st.visited.contains(x) ==> !r.visited.contains(x)
        },
    decreases ts.len() - visiting.len(), 0int,
{
    assert(st.visited.take(st.visited.len() as int) =~= st.visited);
    assert(st.order.take(st.order.len() as int) =~= st.order);
    if st.visited.contains(name) {
    } else if visiting.contains(name) {
    } else {
        lemma_lookup(ts, name);
        match lookup(ts, name) {
            None => {},
            Some(k) => if visiting.len() < ts.len() {
                let inner = visiting.push(name);
                lemma_visit_deps(ts, ts[k].dependencies, 0, inner, st);
                match visit_deps(ts, ts[k].dependencies, 0, inner, st) {
                    Err(_) => {},
                    Ok(done) => {
                        let r = PlanState { visited: done.visited.push(name), order: done.order.push(k) };
                        assert(inner.contains(name)) by {
                            assert(inner[inner.len() - 1] == name);
                        }
                        assert(!done.visited.contains(name));
                        assert(r.visited.take(st.visited.len() as int) =~= done.visited.take(
                            st.visited.len() as int,
                        ));
                        assert(r.order.take(st.order.len() as int) =~= done.order.take(
                            st.order.len() as int,
                        ));
                        assert forall|p: int, q: int|
                            0 <= p < q < r.visited.len() implies #[trigger] r.visited[p]
                            != #[trigger] r.visited[q] by {
                            if q == r.visited.len() - 1 {
                                assert(done.visited[p] == r.visited[p]);
                                if r.visited[p] == name {
                                    assert(done.visited.contains(name));
                                }
                            } else {
                                assert(done.visited[p] == r.visited[p]);
                                assert(done.visited[q] == r.visited[q]);
                            }
                        }
                        assert forall|p: int, d: int|
                            0 <= p < r.order.len() && 0 <= d < ts[r.order[p]].dependencies.len()
                            implies #[trigger] planned_before(ts, r, p, d) by {
                            if p == r.order.len() - 1 {
                                let dep = ts[k].dependencies[d];
                                assert(done.visited.contains(dep));
                                let q = choose|q: int| 0 <= q < done.visited.len() && done.visited[q] == dep;
                                assert(r.visited[q] == dep);
                            } else {
                                assert(r.order[p] == done.order[p]);
                                assert(planned_before(ts, done, p, d));
                                let q = choose|q: int|
                                    0 <= q < p && done.visited[q] == ts[done.order[p]].dependencies[d];
                                assert(r.visited[q] == done.visited[q]);
                            }
                        }
                        assert forall|p: int| 0 <= p < r.order.len() implies 0 <= #[trigger] r.order[p]
                            < ts.len() && ts[r.order[p]].name == r.visited[p] by {
                            if p < r.order.len() - 1 {
                                assert(r.order[p] == done.order[p]);
                                assert(r.visited[p] == done.visited[p]);
                            }
                        }
                        assert(r.visited[r.visited.len() - 1] == name);
                        assert(r.visited.take(done.visited.len() as int) =~= done.visited);
                        assert(r.order.take(done.order.len() as int) =~= done.order);
                        lemma_extends_trans(r, done, st);
                        assert(plan_ok(ts, r));
                        assert(extends(r, st));
                        assert(r.visited.contains(name));
                        assert forall|x: Seq<char>|
                            visiting.contains(x) && !st.visited.contains(x) implies !r.visited.contains(x) by {
                            assert(inner.contains(x)) by {
                                let m = choose|m: int| 0 <= m < visiting.len() && visiting[m] == x;
                                assert(inner[m] == x);
                            }
                            if r.visited.contains(x) {
                                let m = choose|m: int| 0 <= m < r.visited.len() && r.visited[m] == x;
                                if m < r.visited.len() - 1 {
                                    assert(done.visited[m] == x);
                                } else {
                                    assert(x == name);
                                }
                            }
                        }
                    },
                }
            },
        }
    }
}

/// A successful `visit_deps` keeps the planning invariant, extends the state, plans
/// every remaining prerequisite, and plans nothing that is being visited.
proof fn lemma_visit_deps(
    ts: Seq<TaskView>,
    deps: Seq<Seq<char>>,
    j: int,
    visiting: Seq<Seq<char>>,
    st: PlanState,
)
    requires
        plan_ok(ts, st),
        0 <= j,
    ensures
        visit_deps(ts, deps, j, visiting, st) matches Ok(r) ==> {
            &&& plan_ok(ts, r)
            &&& extends(r, st)
            &&& forall|d: int| j <= d < deps.len() ==> r.visited.contains(#[trigger] deps[d])
            &&& forall|x: Seq<char>|
                visiting.contains(x) && !st.visited.contains(x) ==> !r.visited.contains(x)
        },
    decreases ts.len() - visiting.len(), deps.len() - j + 1,
{
    assert(st.visited.take(st.visited.len() as int) =~= st.visited);
    assert(st.order.take(st.order.len() as int) =~= st.order);
    if j < 0 || j >= deps.len() {
    } else {
        lemma_visit(ts, deps[j], visiting, st);
        match visit(ts, deps[j], visiting, st) {
            Err(_) => {},
            Ok(next) => {
                lemma_visit_deps(ts, deps, j + 1, visiting, next);
                match visit_deps(ts, deps, j + 1, visiting, next) {
                    Err(_) => {},
                    Ok(r) => {
                        lemma_extends_trans(r, next, st);
                        assert(r.visited.contains(deps[j])) by {
                            let m = choose|m: int| 0 <= m < next.visited.len() && next.visited[m] == deps[j];
                            assert(r.visited.take(next.visited.len() as int)[m] == deps[j]);
                        }
                        assert forall|x: Seq<char>|
                            visiting.contains(x) && !st.visited.contains(x) implies !r.visited.contains(x) by {
                            assert(!next.visited.contains(x));
                        }
                    },
                }
            },
        }
    }
}

/// Planning law: a successful plan lists every task at most once (no two planned tasks
/// share a name), every prerequisite of a planned task is planned before it, and every
/// requested name is planned.
pub proof fn lemma_plan_prerequisites_first(ts: Seq<TaskView>, names: Seq<Seq<char>>)
    ensures
        plan_from(ts, names, 0, empty_plan()) matches Ok(st) ==> {
            &&& plan_ok(ts, st)
            &&& forall|i: int| 0 <= i < names.len() ==> st.visited.contains(#[trigger] names[i])
        },
{
    lemma_plan_from(ts, names, 0, empty_plan());
}

proof fn lemma_plan_from(ts: Seq<TaskView>, names: Seq<Seq<char>>, i: int, st: PlanState)
    requires
        plan_ok(ts, st),
        0 <= i,
    ensures
        plan_from(ts, names, i, st) matches Ok(r) ==> {
            &&& plan_ok(ts, r)
            &&& extends(r, st)
            &&& forall|m: int| i <= m < names.len() ==> r.visited.contains(#[trigger] names[m])
        },
    decreases names.len() - i,
{
    assert(st.visited.take(st.visited.len() as int) =~= st.visited);
    assert(st.order.take(st.order.len() as int) =~= st.order);
    if i < names.len() {
        lemma_visit(ts, names[i], Seq::empty(), st);
        match visit(ts, names[i], Seq::empty(), st) {
            Err(_) => {},
            Ok(next) => {
                lemma_plan_from(ts, names, i + 1, next);
                match plan_from(ts, names, i + 1, next) {
                    Err(_) => {},
                    Ok(r) => {
                        lemma_extends_trans(r, next, st);
                        assert(r.visited.contains(names[i])) by {
                            let m = choose|m: int| 0 <= m < next.visited.len() && next.visited[m] == names[i];
                            assert(r.visited.take(next.visited.len() as int)[m] == names[i]);
                        }
                    },
                }
            },
        }
    }
}

/// Whether the `p`-th planned name is a prerequisite of a task planned after it.
pub open spec fn needed_later(ts: Seq<TaskView>, st: PlanState, p: int) -> bool {
    exists|q: int| p < q < st.order.len() && #[trigger] ts[st.order[q]].dependencies.contains(st.visited[p])
}

proof fn lemma_needed_later_extends(ts: Seq<TaskView>, a: PlanState, b: PlanState, p: int)
    requires
        needed_later(ts, a, p),
        extends(b, a),
        0 <= p < a.visited.len(),
    ensures
        needed_later(ts, b, p),
{
    let q = choose|q: int| p < q < a.order.len() && #[trigger] ts[a.order[q]].dependencies.contains(a.visited[p]);
    assert(b.order.take(a.order.len() as int)[q] == a.order[q]);
    assert(b.visited.take(a.visited.len() as int)[p] == a.visited[p]);
    assert(ts[b.order[q]].dependencies.contains(b.visited[p]));
}

/// Everything a successful `visit` adds is `name`, the task found for its name, or a
/// prerequisite of a task it adds later.
proof fn lemma_visit_needed(ts: Seq<TaskView>, name: Seq<char>, visiting: Seq<Seq<char>>, st: PlanState)
    requires
        plan_ok(ts, st),
    ensures
        visit(ts, name, visiting, st) matches Ok(r) ==> forall|p: int|
            st.visited.len() <= p < r.visited.len() ==> {
                &&& (r.visited[p] == name || needed_later(ts, r, p))
                &&& lookup(ts, #[trigger] r.visited[p]) == Some(r.order[p])
            },
    decreases ts.len() - visiting.len(), 0int,
{
    if st.visited.contains(name) {
    } else if visiting.contains(name) {
    } else {
        match lookup(ts, name) {
            None => {},
            Some(k) => if visiting.len() < ts.len() {
                let inner = visiting.push(name);
                lemma_visit_deps(ts, ts[k].dependencies, 0, inner, st);
                lemma_visit_deps_needed(ts, ts[k].dependencies, 0, inner, st);
                match visit_deps(ts, ts[k].dependencies, 0, inner, st) {
                    Err(_) => {},
                    Ok(done) => {
                        let r = PlanState { visited: done.visited.push(name), order: done.order.push(k) };
                        assert(r.visited.take(done.visited.len() as int) =~= done.visited);
                        assert(r.order.take(done.order.len() as int) =~= done.order);
                        let last = r.order.len() - 1;
                        assert forall|p: int| st.visited.len() <= p < r.visited.len() implies {
                            &&& (r.visited[p] == name || needed_later(ts, r, p))
                            &&& lookup(ts, #[trigger] r.visited[p]) == Some(r.order[p])
                        } by {
                            if p < last {
                                assert(r.visited[p] == done.visited[p]);
                                assert(r.order[p] == done.order[p]);
                                assert(lookup(ts, done.visited[p]) == Some(done.order[p]));
                                let deps = ts[k].dependencies;
                                if deps.subrange(0, deps.len() as int).contains(done.visited[p]) {
                                    assert(deps.subrange(0, deps.len() as int) =~= deps);
                                    assert(r.order[last] == k);
                                    assert(ts[r.order[last]].dependencies.contains(r.visited[p]));
                                } else {
                                    lemma_needed_later_extends(ts, done, r, p);
                                }
                            }
                        }
                    },
                }
            },
        }
    }
}

/// Everything a successful `visit_deps` adds is one of the remaining prerequisites, or a
/// prerequisite of a task it adds later; each with the task found for its name.
proof fn lemma_visit_deps_needed(
    ts: Seq<TaskView>,
    deps: Seq<Seq<char>>,
    j: int,
    visiting: Seq<Seq<char>>,
    st: PlanState,
)
    requires
        plan_ok(ts, st),
        0 <= j,
    ensures
        visit_deps(ts, deps, j, visiting, st) matches Ok(r) ==> forall|p: int|
            st.visited.len() <= p < r.visited.len() ==> {
                &&& (deps.subrange(j, deps.len() as int).contains(r.visited[p]) || needed_later(ts, r, p))
                &&& lookup(ts, #[trigger] r.visited[p]) == Some(r.order[p])
            },
    decreases ts.len() - visiting.len(), deps.len() - j + 1,
{
    if j < 0 || j >= deps.len() {
    } else {
        lemma_visit(ts, deps[j], visiting, st);
        lemma_visit_needed(ts, deps[j], visiting, st);
        match visit(ts, deps[j], visiting, st) {
            Err(_) => {},
            Ok(next) => {
                lemma_visit_deps(ts, deps, j + 1, visiting, next);
                lemma_visit_deps_needed(ts, deps, j + 1, visiting, next);
                match visit_deps(ts, deps, j + 1, visiting, next) {
                    Err(_) => {},
                    Ok(r) => {
                        assert forall|p: int| st.visited.len() <= p < r.visited.len() implies {
                            &&& (deps.subrange(j, deps.len() as int).contains(r.visited[p]) || needed_later(ts, r, p))
                            &&& lookup(ts, #[trigger] r.visited[p]) == Some(r.order[p])
                        } by {
                            if p < next.visited.len() {
                                assert(r.visited.take(next.visited.len() as int)[p] == next.visited[p]);
                                assert(r.order.take(next.order.len() as int)[p] == next.order[p]);
                                assert(lookup(ts, next.visited[p]) == Some(next.order[p]));
                                if next.visited[p] == deps[j] {
                                    assert(deps.subrange(j, deps.len() as int)[0] == deps[j]);
                                } else {
                                    lemma_needed_later_extends(ts, next, r, p);
                                }
                            } else {
                                if deps.subrange(j + 1, deps.len() as int).contains(r.visited[p]) {
                                    let tail = deps.subrange(j + 1, deps.len() as int);
                                    let m = choose|m: int| 0 <= m < tail.len() && #[trigger] tail[m] == r.visited[p];
                                    assert(deps.subrange(j, deps.len() as int)[m + 1] == r.visited[p]);
                                }
                            }
                        }
                    },
                }
            },
        }
    }
}

proof fn lemma_plan_from_needed(ts: Seq<TaskView>, names: Seq<Seq<char>>, i: int, st: PlanState)
    requires
        plan_ok(ts, st),
        0 <= i,
    ensures
        plan_from(ts, names, i, st) matches Ok(r) ==> forall|p: int|
            st.visited.len() <= p < r.visited.len() ==> {
                &&& (names.contains(r.visited[p]) || needed_later(ts, r, p))
                &&& lookup(ts, #[trigger] r.visited[p]) == Some(r.order[p])
            },
    decreases names.len() - i,
{
    if i < names.len() {
        lemma_visit(ts, names[i], Seq::empty(), st);
        lemma_visit_needed(ts, names[i], Seq::empty(), st);
        match visit(ts, names[i], Seq::empty(), st) {
            Err(_) => {},
            Ok(next) => {
                lemma_plan_from(ts, names, i + 1, next);
                lemma_plan_from_needed(ts, names, i + 1, next);
                match plan_from(ts, names, i + 1, next) {
                    Err(_) => {},
                    Ok(r) => {
                        assert forall|p: int| st.visited.len() <= p < r.visited.len() implies {
                            &&& (names.contains(r.visited[p]) || needed_later(ts, r, p))
                            &&& lookup(ts, #[trigger] r.visited[p]) == Some(r.order[p])
                        } by {
                            if p < next.visited.len() {
                                assert(r.visited.take(next.visited.len() as int)[p] == next.visited[p]);
                                assert(r.order.take(next.order.len() as int)[p] == next.order[p]);
                                assert(lookup(ts, next.visited[p]) == Some(next.order[p]));
                                if next.visited[p] != names[i] {
                                    lemma_needed_later_extends(ts, next, r, p);
                                }
                            }
                        }
                    },
                }
            },
        }
    }
}

/// Describes the tasks selected for a run request.
#[derive(Debug)]
pub struct PlannedRun {
    /// Top-level tasks requested by the caller.
    pub requested_tasks: Vec<TaskName>,
    /// Interactive live display mode selected by the recipe config.
    pub live_display: LiveDisplay,
    /// Whether failures stop scheduling at once or let unrelated work finish.
    pub failure_mode: FailureMode,
    /// Maximum number of task processes that may run at once.
    pub max_parallel_tasks: usize,
    /// Concrete tasks selected for the run, each after its prerequisites.
    pub tasks: Vec<Task>,
}

/// View of planning state kept in vectors.
pub open spec fn state_view(visited: Seq<String>, order: Seq<usize>) -> PlanState {
    PlanState { visited: strings_view(visited), order: order.map_values(|k: usize| k as int) }
}

fn contains_string(v: &Vec<String>, s: &str) -> (b: bool)
    ensures
        b == strings_view(v@).contains(s@),
{
    let ghost sv = strings_view(v@);
    let mut k: usize = 0;
    while k < v.len()
        invariant
            k <= v@.len(),
            sv == strings_view(v@),
            forall|m: int| 0 <= m < k ==> sv[m] != s@,
        decreases v@.len() - k,
    {
        if str_equals(v[k].as_str(), s) {
            assert(sv[k as int] == s@);
            return true;
        }
        k = k + 1;
    }
    false
}

fn lookup_exec(tasks: &Vec<Task>, name: &str) -> (r: Option<usize>)
    ensures
        match r {
            Some(k) => lookup(tasks_view(tasks@), name@) == Some(k as int) && k < tasks@.len(),
            None => lookup(tasks_view(tasks@), name@) is None,
        },
{
    let ghost tv = tasks_view(tasks@);
    let mut k: usize = tasks.len();
    assert(tv.take(k as int) =~= tv);
    while k > 0
        invariant
            k <= tasks@.len(),
            tv == tasks_view(tasks@),
            lookup(tv, name@) == lookup(tv.take(k as int), name@),
        decreases k,
    {
        assert(tv.take(k as int).drop_last() =~= tv.take(k - 1));
        assert(tv.take(k as int).last() == tasks@[k - 1]@);
        if str_equals(tasks[k - 1].name.as_str(), name) {
            return Some(k - 1);
        }
        k = k - 1;
    }
    None
}

fn visit_exec(
    tasks: &Vec<Task>,
    name: &str,
    visiting: &Vec<String>,
    visited: &mut Vec<String>,
    order: &mut Vec<usize>,
) -> (r: Result<(), String>)
    ensures
        match r {
            Ok(_) => visit(
                tasks_view(tasks@),
                name@,
                strings_view(visiting@),
                state_view(old(visited)@, old(order)@),
            ) == Ok::<PlanState, Seq<char>>(state_view(final(visited)@, final(order)@)),
            Err(e) => visit(
                tasks_view(tasks@),
                name@,
                strings_view(visiting@),
                state_view(old(visited)@, old(order)@),
            ) == Err::<PlanState, Seq<char>>(e@),
        },
    decreases tasks@.len() - visiting@.len(), 0int,
{
    if contains_string(visited, name) {
        return Ok(());
    }
    if contains_string(visiting, name) {
        return Err(join3("task dependency cycle detected at `", name, "`"));
    }
    let k = match lookup_exec(tasks, name) {
        None => return Err(join3("task `", name, "` not found")),
        Some(k) => k,
    };
    if visiting.len() >= tasks.len() {
        return Err(join3("task dependency cycle detected at `", name, "`"));
    }
    let mut next = clone_strings(visiting);
    next.push(name.to_string());
    assert(strings_view(next@) =~= strings_view(visiting@).push(name@));
    let task = &tasks[k];
    assert(tasks_view(tasks@)[k as int] == task@);
    match visit_deps_exec(tasks, task, 0, &next, visited, order) {
        Err(e) => return Err(e),
        Ok(_) => {},
    }
    let ghost before = state_view(visited@, order@);
    visited.push(name.to_string());
    order.push(k);
    assert(state_view(visited@, order@) =~= PlanState {
        visited: before.visited.push(name@),
        order: before.order.push(k as int),
    });
    Ok(())
}

fn visit_deps_exec(
    tasks: &Vec<Task>,
    task: &Task,
    j: usize,
    visiting: &Vec<String>,
    visited: &mut Vec<String>,
    order: &mut Vec<usize>,
) -> (r: Result<(), String>)
    requires
        j <= task.dependencies@.len(),
        visiting@.len() <= tasks@.len(),
    ensures
        match r {
            Ok(_) => visit_deps(
                tasks_view(tasks@),
                task@.dependencies,
                j as int,
                strings_view(visiting@),
                state_view(old(visited)@, old(order)@),
            ) == Ok::<PlanState, Seq<char>>(state_view(final(visited)@, final(order)@)),
            Err(e) => visit_deps(
                tasks_view(tasks@),
                task@.dependencies,
                j as int,
                strings_view(visiting@),
                state_view(old(visited)@, old(order)@),
            ) == Err::<PlanState, Seq<char>>(e@),
        },
    decreases tasks@.len() - visiting@.len(), task@.dependencies.len() - j + 1,
{
    if j >= task.dependencies.len() {
        return Ok(());
    }
    let dependency = &task.dependencies[j];
    assert(task@.dependencies[j as int] == dependency@);
    match visit_exec(tasks, dependency.as_str(), visiting, visited, order) {
        Err(e) => Err(e),
        Ok(_) => visit_deps_exec(tasks, task, j + 1, visiting, visited, order),
    }
}

/// Plans the tasks for command-line task arguments against the recipe: the requested
/// names (wildcards expanded) and each needed task once, after its prerequisites. The
/// maximum parallelism is the recipe's, or one when it sets none.
pub fn plan_recipe_run(recipe: &Recipe, task_names: &Vec<String>) -> (r: Result<PlannedRun, String>)
    ensures
        match r {
            Ok(plan) => planned(tasks_view(recipe.tasks@), strings_view(task_names@)) == Ok::<
                (Seq<Seq<char>>, Seq<TaskView>),
                Seq<char>,
            >(
                (
                    plan.requested_tasks@.map_values(|t: TaskName| t@),
                    tasks_view(plan.tasks@),
                ),
            ) && plan.live_display == recipe.config.live_display && plan.failure_mode
                == recipe.config.failure_mode && plan.max_parallel_tasks == (match recipe.config.max_parallel_tasks {
                Some(k) => k,
                None => 1,
            }),
            Err(e) => planned(tasks_view(recipe.tasks@), strings_view(task_names@)) == Err::<
                (Seq<Seq<char>>, Seq<TaskView>),
                Seq<char>,
            >(e@),
        },
{
    let selectors = split_task_selectors(task_names);
    if selectors.len() == 0 {
        return Err(String::from_str("usage: nao [--list] [--config <path>] [task-name...]"));
    }
    let names = match expand_task_selectors(&recipe.tasks, &selectors) {
        Ok(v) => v,
        Err(e) => return Err(e),
    };
    let ghost ts = tasks_view(recipe.tasks@);
    let ghost nv = strings_view(names@);
    let mut visited: Vec<String> = Vec::new();
    let mut order: Vec<usize> = Vec::new();
    let mut requested_tasks: Vec<TaskName> = Vec::new();
    assert(state_view(visited@, order@) =~= empty_plan());
    let mut i: usize = 0;
    while i < names.len()
        invariant
            i <= names@.len(),
            ts == tasks_view(recipe.tasks@),
            nv == strings_view(names@),
            selector_parts(strings_view(task_names@)).len() > 0,
            expand_selectors(ts, selector_parts(strings_view(task_names@))) == Ok::<
                Seq<Seq<char>>,
                Seq<char>,
            >(nv),
            plan_from(ts, nv, 0, empty_plan()) == plan_from(ts, nv, i as int, state_view(visited@, order@)),
            requested_tasks@.map_values(|t: TaskName| t@) == nv.take(i as int),
            plan_ok(ts, state_view(visited@, order@)),
        decreases names@.len() - i,
    {
        let ghost before = state_view(visited@, order@);
        let empty: Vec<String> = Vec::new();
        assert(strings_view(empty@) =~= Seq::<Seq<char>>::empty());
        let ghost prev_requested = requested_tasks@.map_values(|t: TaskName| t@);
        let requested_name = names[i].clone();
        assert(requested_name@ == nv[i as int]);
        requested_tasks.push(TaskName(requested_name));
        assert(requested_tasks@.map_values(|t: TaskName| t@) =~= prev_requested.push(nv[i as int]));
        assert(nv.take(i + 1) =~= nv.take(i as int).push(nv[i as int]));
        match visit_exec(&recipe.tasks, names[i].as_str(), &empty, &mut visited, &mut order) {
            Err(e) => return Err(e),
            Ok(_) => {},
        }
        proof {
            lemma_visit(ts, nv[i as int], Seq::empty(), before);
        }
        i = i + 1;
    }
    let mut tasks: Vec<Task> = Vec::new();
    let mut m: usize = 0;
    assert(forall|q: int| 0 <= q < order@.len() ==> state_view(visited@, order@).order[q] == order@[q] as int);
    while m < order.len()
        invariant
            m <= order@.len(),
            forall|q: int| 0 <= q < order@.len() ==> order@[q] < recipe.tasks@.len(),
            tasks_view(tasks@) == state_view(visited@, order@).order.take(m as int).map_values(
                |k: int| tasks_view(recipe.tasks@)[k],
            ),
        decreases order@.len() - m,
    {
        let ghost prev = tasks_view(tasks@);
        let ghost so = state_view(visited@, order@).order;
        let index = order[m];
        let task = recipe.tasks[index].clone();
        assert(task@ == tasks_view(recipe.tasks@)[index as int]);
        tasks.push(task);
        assert(tasks_view(tasks@) =~= prev.push(task@));
        assert(so[m as int] == index as int);
        assert(so.take(m + 1).map_values(|k: int| tasks_view(recipe.tasks@)[k]) =~= so.take(
            m as int,
        ).map_values(|k: int| tasks_view(recipe.tasks@)[k]).push(tasks_view(recipe.tasks@)[index as int]));
        m = m + 1;
    }
    assert(state_view(visited@, order@).order.take(order@.len() as int) =~= state_view(visited@, order@).order);
    assert(nv.take(names@.len() as int) =~= nv);
    Ok(
        PlannedRun {
            requested_tasks,
            live_display: recipe.config.live_display,
            failure_mode: recipe.config.failure_mode,
            max_parallel_tasks: match recipe.config.max_parallel_tasks {
                Some(k) => k,
                None => 1,
            },
            tasks,
        },
    )
}

} // verus!

verus! {

/// Whether one of the first `p` tasks is named `name`.
pub open spec fn named_before(tasks: Seq<TaskView>, p: int, name: Seq<char>) -> bool {
    exists|q: int| 0 <= q < p && tasks[q].name == name
}

/// Planning law, over the planned tasks: no two planned tasks share a name, every
/// prerequisite of a planned task is the name of a task planned before it, and every
/// requested name (after wildcard expansion) is the name of a planned task.
pub proof fn lemma_planned_tasks_respect_dependencies(ts: Seq<TaskView>, args: Seq<Seq<char>>)
    ensures
        planned(ts, args) is Ok ==> {
            let names = planned(ts, args)->Ok_0.0;
            let tasks = planned(ts, args)->Ok_0.1;
            &&& forall|p: int, q: int|
                0 <= p < q < tasks.len() ==> (#[trigger] tasks[p]).name != (#[trigger] tasks[q]).name
            &&& forall|p: int, d: int|
                0 <= p < tasks.len() && 0 <= d < tasks[p].dependencies.len() ==> #[trigger] named_before(
                    tasks,
                    p,
                    tasks[p].dependencies[d],
                )
            &&& forall|i: int| 0 <= i < names.len() ==> #[trigger] named_before(tasks, tasks.len() as int, names[i])
        },
{
    let selectors = selector_parts(args);
    if selectors.len() > 0 {
        match expand_selectors(ts, selectors) {
            Err(_) => {},
            Ok(names) => {
                lemma_plan_prerequisites_first(ts, names);
                match plan_from(ts, names, 0, empty_plan()) {
                    Err(_) => {},
                    Ok(st) => {
                        let tasks = st.order.map_values(|k: int| ts[k]);
                        assert forall|p: int| 0 <= p < tasks.len() implies (#[trigger] tasks[p]).name
                            == st.visited[p] by {
                            assert(0 <= st.order[p] < ts.len());
                        }
                        assert forall|p: int, q: int|
                            0 <= p < q < tasks.len() implies (#[trigger] tasks[p]).name
                            != (#[trigger] tasks[q]).name by {
                            assert(tasks[p].name == st.visited[p]);
                            assert(tasks[q].name == st.visited[q]);
                            assert(st.visited[p] != st.visited[q]);
                        }
                        assert forall|p: int, d: int|
                            0 <= p < tasks.len() && 0 <= d < tasks[p].dependencies.len() implies #[trigger] named_before(
                            tasks,
                            p,
                            tasks[p].dependencies[d],
                        ) by {
                            assert(0 <= st.order[p] < ts.len());
                            assert(planned_before(ts, st, p, d));
                            let q = choose|q: int| 0 <= q < p && st.visited[q] == ts[st.order[p]].dependencies[d];
                            assert(tasks[q].name == st.visited[q]);
                        }
                        assert forall|i: int| 0 <= i < names.len() implies #[trigger] named_before(
                            tasks,
                            tasks.len() as int,
                            names[i],
                        ) by {
                            assert(st.visited.contains(names[i]));
                            let p = choose|p: int| 0 <= p < st.visited.len() && st.visited[p] == names[i];
                            assert(tasks[p].name == st.visited[p]);
                        }
                        assert(planned(ts, args) == Ok::<(Seq<Seq<char>>, Seq<TaskView>), Seq<char>>(
                            (names, tasks),
                        ));

                    },
                }
            },
        }
    }
}

} // verus!

verus! {

/// Planning law, minimality: every planned task is a requested one (after wildcard
/// expansion) or a prerequisite of a task planned after it, so the plan is exactly the
/// requested tasks and what they transitively need; and each planned task is the
/// recipe's task of that name (the last one, where names repeat).
pub proof fn lemma_plan_holds_only_needed_tasks(ts: Seq<TaskView>, args: Seq<Seq<char>>)
    ensures
        planned(ts, args) is Ok ==> {
            let names = planned(ts, args)->Ok_0.0;
            let tasks = planned(ts, args)->Ok_0.1;
            &&& forall|p: int|
                0 <= p < tasks.len() ==> names.contains(#[trigger] tasks[p].name) || exists|q: int|
                    p < q < tasks.len() && tasks[q].dependencies.contains(tasks[p].name)
            &&& forall|p: int|
                0 <= p < tasks.len() ==> (lookup(ts, #[trigger] tasks[p].name) matches Some(k) && ts[k]
                    == tasks[p])
        },
{
    let selectors = selector_parts(args);
    if selectors.len() > 0 {
        match expand_selectors(ts, selectors) {
            Err(_) => {},
            Ok(names) => {
                lemma_plan_prerequisites_first(ts, names);
                lemma_plan_from_needed(ts, names, 0, empty_plan());
                match plan_from(ts, names, 0, empty_plan()) {
                    Err(_) => {},
                    Ok(st) => {
                        let tasks = st.order.map_values(|k: int| ts[k]);
                        assert(planned(ts, args) == Ok::<(Seq<Seq<char>>, Seq<TaskView>), Seq<char>>(
                            (names, tasks),
                        ));
                        assert forall|p: int| 0 <= p < tasks.len() implies names.contains(
                            #[trigger] tasks[p].name,
                        ) || exists|q: int| p < q < tasks.len() && tasks[q].dependencies.contains(tasks[p].name) by {
                            assert(0 <= st.order[p] < ts.len());
                            assert(tasks[p].name == st.visited[p]);
                            if !names.contains(st.visited[p]) {
                                assert(needed_later(ts, st, p));
                                let q = choose|q: int|
                                    p < q < st.order.len() && #[trigger] ts[st.order[q]].dependencies.contains(
                                        st.visited[p],
                                    );
                                assert(tasks[q] == ts[st.order[q]]);
                            }
                        }
                        assert forall|p: int| 0 <= p < tasks.len() implies (lookup(
                            ts,
                            #[trigger] tasks[p].name,
                        ) matches Some(k) && ts[k] == tasks[p]) by {
                            assert(0 <= st.order[p] < ts.len());
                            assert(tasks[p].name == st.visited[p]);
                            assert(lookup(ts, st.visited[p]) == Some(st.order[p]));
                        }
                    },
                }
            },
        }
    }
}

} // verus!

verus! {

/// Whether a message starts with `t`, as every message about tasks does.
pub open spec fn about_tasks(message: Seq<char>) -> bool {
    message.len() > 0 && message[0] == 't'
}

proof fn lemma_expand_errors_are_about_tasks(
    tasks: Seq<TaskView>,
    selectors: Seq<Seq<char>>,
    i: int,
    acc: Seq<Seq<char>>,
)
    ensures
        crate::selectors::expand_from(tasks, selectors, i, acc) matches Err(e) ==> about_tasks(e),
    decreases selectors.len() - i,
{
    reveal_strlit("task specifier `");
    if 0 <= i < selectors.len() {
        let selector = selectors[i];
        if crate::selectors::contains_char(selector, '_') {
            let found = crate::selectors::wildcard_matches(tasks, selector);
            if found.len() != 0 {
                lemma_expand_errors_are_about_tasks(tasks, selectors, i + 1, acc + found);
            }
        } else {
            lemma_expand_errors_are_about_tasks(tasks, selectors, i + 1, acc.push(selector));
        }
    }
}

proof fn lemma_visit_errors_are_about_tasks(ts: Seq<TaskView>, name: Seq<char>, visiting: Seq<Seq<char>>, st: PlanState)
    ensures
        visit(ts, name, visiting, st) matches Err(e) ==> about_tasks(e),
    decreases ts.len() - visiting.len(), 0int,
{
    reveal_strlit("task dependency cycle detected at `");
    reveal_strlit("task `");
    if !st.visited.contains(name) && !visiting.contains(name) {
        match lookup(ts, name) {
            None => {},
            Some(k) => if visiting.len() < ts.len() {
                lemma_visit_deps_errors_are_about_tasks(ts, ts[k].dependencies, 0, visiting.push(name), st);
            },
        }
    }
}

proof fn lemma_visit_deps_errors_are_about_tasks(
    ts: Seq<TaskView>,
    deps: Seq<Seq<char>>,
    j: int,
    visiting: Seq<Seq<char>>,
    st: PlanState,
)
    ensures
        visit_deps(ts, deps, j, visiting, st) matches Err(e) ==> about_tasks(e),
    decreases ts.len() - visiting.len(), deps.len() - j + 1,
{
    if 0 <= j < deps.len() {
        lemma_visit_errors_are_about_tasks(ts, deps[j], visiting, st);
        match visit(ts, deps[j], visiting, st) {
            Err(_) => {},
            Ok(next) => {
                lemma_visit_deps_errors_are_about_tasks(ts, deps, j + 1, visiting, next);
            },
        }
    }
}

proof fn lemma_plan_from_errors_are_about_tasks(ts: Seq<TaskView>, names: Seq<Seq<char>>, i: int, st: PlanState)
    ensures
        plan_from(ts, names, i, st) matches Err(e) ==> about_tasks(e),
    decreases names.len() - i,
{
    if 0 <= i < names.len() {
        lemma_visit_errors_are_about_tasks(ts, names[i], Seq::empty(), st);
        match visit(ts, names[i], Seq::empty(), st) {
            Err(_) => {},
            Ok(next) => {
                lemma_plan_from_errors_are_about_tasks(ts, names, i + 1, next);
            },
        }
    }
}

/// Planning law, usage: a request is answered with the usage message exactly when its
/// arguments name no task selector at all; every other planning error is about a task.
pub proof fn lemma_usage_error_exactly_without_selectors(ts: Seq<TaskView>, args: Seq<Seq<char>>)
    ensures
        planned(ts, args) == Err::<(Seq<Seq<char>>, Seq<TaskView>), Seq<char>>(usage_message()) <==> selector_parts(
            args,
        ).len() == 0,
        selector_parts(args).len() > 0 ==> (planned(ts, args) matches Err(e) ==> about_tasks(e)),
{
    reveal_strlit("usage: nao [--list] [--config <path>] [task-name...]");
    let selectors = selector_parts(args);
    if selectors.len() > 0 {
        lemma_expand_errors_are_about_tasks(ts, selectors, 0, Seq::empty());
        match expand_selectors(ts, selectors) {
            Err(_) => {},
            Ok(names) => {
                lemma_plan_from_errors_are_about_tasks(ts, names, 0, empty_plan());
            },
        }
        assert(!about_tasks(usage_message()));
    }
}

} // verus!

verus! {

/// A chain of distinct names of recipe tasks that does not hold `name`, itself the name
/// of a recipe task, is shorter than the recipe: so the length bound in `visit` is never
/// what stops a chain whose names were each found before being pushed.
pub proof fn lemma_visiting_chain_shorter_than_recipe(ts: Seq<TaskView>, visiting: Seq<Seq<char>>, name: Seq<char>)
    requires
        visiting.no_duplicates(),
        forall|i: int| 0 <= i < visiting.len() ==> lookup(ts, #[trigger] visiting[i]) is Some,
        lookup(ts, name) is Some,
        !visiting.contains(name),
    ensures
        visiting.len() < ts.len(),
{
    let chain = visiting.push(name);
    assert forall|i: int| 0 <= i < chain.len() implies lookup(ts, #[trigger] chain[i]) is Some by {
        if i < visiting.len() {
            assert(chain[i] == visiting[i]);
        }
    }
    let index = |x: Seq<char>| lookup(ts, x)->0;
    let positions = chain.map_values(index);
    assert forall|i: int, j: int| 0 <= i < j < positions.len() implies positions[i] != positions[j] by {
        lemma_lookup(ts, chain[i]);
        lemma_lookup(ts, chain[j]);
        if j < visiting.len() {
            assert(chain[i] == visiting[i] && chain[j] == visiting[j]);
        } else {
            assert(chain[j] == name);
            assert(chain[i] == visiting[i]);
        }
    }
    assert(positions.no_duplicates());
    positions.unique_seq_to_set();
    assert forall|k: int| positions.to_set().contains(k) implies vstd::set_lib::set_int_range(0, ts.len() as int).contains(
        k,
    ) by {
        let i = choose|i: int| 0 <= i < positions.len() && positions[i] == k;
        lemma_lookup(ts, chain[i]);
    }
    vstd::set_lib::lemma_int_range(0, ts.len() as int);
    vstd::set_lib::lemma_len_subset(positions.to_set(), vstd::set_lib::set_int_range(0, ts.len() as int));
}

} // verus!

verus! {

/// The message for a needed task that the recipe does not define.
pub open spec fn not_found_message(name: Seq<char>) -> Seq<char> {
    "task `"@ + name + "` not found"@
}

/// The message for a task found on a dependency cycle.
pub open spec fn cycle_message(name: Seq<char>) -> Seq<char> {
    "task dependency cycle detected at `"@ + name + "`"@
}

/// The message for a wildcard selector that matches no task.
pub open spec fn no_match_message(selector: Seq<char>) -> Seq<char> {
    "task specifier `"@ + selector + "` did not match any tasks"@
}

/// Whether the recipe task named `a` lists `b` among its prerequisites.
pub open spec fn depends_directly(ts: Seq<TaskView>, a: Seq<char>, b: Seq<char>) -> bool {
    lookup(ts, a) matches Some(k) && ts[k].dependencies.contains(b)
}

/// Whether each name of `path` lists the next one among its prerequisites.
pub open spec fn is_dependency_path(ts: Seq<TaskView>, path: Seq<Seq<char>>) -> bool {
    forall|i: int, j: int|
        0 <= i && j == i + 1 && j < path.len() ==> #[trigger] depends_directly(ts, path[i], path[j])
}

/// Whether task `name` depends, through its prerequisites, on itself.
pub open spec fn on_dependency_cycle(ts: Seq<TaskView>, name: Seq<char>) -> bool {
    exists|path: Seq<Seq<char>>|
        path.len() >= 2 && path[0] == name && path.last() == name && #[trigger] is_dependency_path(ts, path)
}

/// Whether task name `x` is one of `names` or a prerequisite, direct or not, of one.
pub open spec fn reachable(ts: Seq<TaskView>, names: Seq<Seq<char>>, x: Seq<char>) -> bool {
    exists|path: Seq<Seq<char>>|
        path.len() >= 1 && names.contains(path[0]) && path.last() == x && #[trigger] is_dependency_path(ts, path)
}

/// Whether `e` reports a task needed by `names` that the recipe lacks, or a task needed
/// by `names` that is on a dependency cycle.
pub open spec fn justified_task_error(ts: Seq<TaskView>, names: Seq<Seq<char>>, e: Seq<char>) -> bool {
    ||| exists|x: Seq<char>|
        #[trigger] not_found_message(x) == e && lookup(ts, x) is None && reachable(ts, names, x)
    ||| exists|x: Seq<char>|
        #[trigger] cycle_message(x) == e && on_dependency_cycle(ts, x) && reachable(ts, names, x)
}

proof fn lemma_visit_errors_justified(
    ts: Seq<TaskView>,
    names: Seq<Seq<char>>,
    name: Seq<char>,
    visiting: Seq<Seq<char>>,
    st: PlanState,
)
    requires
        visiting.no_duplicates(),
        forall|i: int| 0 <= i < visiting.len() ==> lookup(ts, #[trigger] visiting[i]) is Some,
        is_dependency_path(ts, visiting.push(name)),
        names.contains(visiting.push(name)[0]),
    ensures
        visit(ts, name, visiting, st) matches Err(e) ==> justified_task_error(ts, names, e),
    decreases ts.len() - visiting.len(), 0int,
{
    let chain = visiting.push(name);
    assert(chain.last() == name);
    assert(reachable(ts, names, name));
    if st.visited.contains(name) {
    } else if visiting.contains(name) {
        let m = choose|m: int| 0 <= m < visiting.len() && visiting[m] == name;
        let full = visiting.push(name);
        let path = full.subrange(m, full.len() as int);
        assert(path[0] == name);
        assert(path.last() == name);
        assert forall|i: int, j: int| 0 <= i && j == i + 1 && j < path.len() implies #[trigger] depends_directly(
            ts,
            path[i],
            path[j],
        ) by {
            assert(path[i] == full[m + i]);
            assert(path[j] == full[m + j]);
            assert(depends_directly(ts, full[m + i], full[m + j]));
        }
        assert(is_dependency_path(ts, path));
        assert(on_dependency_cycle(ts, name));
        assert(cycle_message(name) == "task dependency cycle detected at `"@ + name + "`"@);
    } else {
        match lookup(ts, name) {
            None => {
                assert(not_found_message(name) == "task `"@ + name + "` not found"@);
            },
            Some(k) => {
                if visiting.len() >= ts.len() {
                    lemma_visiting_chain_shorter_than_recipe(ts, visiting, name);
                } else {
                    let inner = visiting.push(name);
                    assert(inner.no_duplicates()) by {
                        assert forall|a: int, b: int| 0 <= a < b < inner.len() implies inner[a] != inner[b] by {
                            if b == visiting.len() {
                                assert(inner[a] == visiting[a]);
                                assert(visiting.contains(visiting[a]));
                            } else {
                                assert(inner[a] == visiting[a] && inner[b] == visiting[b]);
                            }
                        }
                    }
                    assert forall|i: int| 0 <= i < inner.len() implies lookup(ts, #[trigger] inner[i]) is Some by {
                        if i < visiting.len() {
                            assert(inner[i] == visiting[i]);
                        }
                    }
                    assert(inner.last() == name);
                    assert(inner[0] == chain[0]);
                    lemma_visit_deps_errors_justified(ts, names, ts[k].dependencies, 0, inner, st);
                }
            },
        }
    }
}

proof fn lemma_visit_deps_errors_justified(
    ts: Seq<TaskView>,
    names: Seq<Seq<char>>,
    deps: Seq<Seq<char>>,
    j: int,
    visiting: Seq<Seq<char>>,
    st: PlanState,
)
    requires
        0 <= j,
        visiting.len() > 0,
        names.contains(visiting[0]),
        visiting.no_duplicates(),
        forall|i: int| 0 <= i < visiting.len() ==> lookup(ts, #[trigger] visiting[i]) is Some,
        is_dependency_path(ts, visiting),
        lookup(ts, visiting.last()) matches Some(k) && ts[k].dependencies == deps,
    ensures
        visit_deps(ts, deps, j, visiting, st) matches Err(e) ==> justified_task_error(ts, names, e),
    decreases ts.len() - visiting.len(), deps.len() - j + 1,
{
    if j < deps.len() {
        let ext = visiting.push(deps[j]);
        let k = lookup(ts, visiting.last())->0;
        assert(ts[k].dependencies[j] == deps[j]);
        assert(depends_directly(ts, visiting.last(), deps[j]));
        assert forall|a: int, b: int| 0 <= a && b == a + 1 && b < ext.len() implies #[trigger] depends_directly(
            ts,
            ext[a],
            ext[b],
        ) by {
            if b < visiting.len() {
                assert(ext[a] == visiting[a] && ext[b] == visiting[b]);
                assert(depends_directly(ts, visiting[a], visiting[b]));
            } else {
                assert(ext[a] == visiting.last());
                assert(ext[b] == deps[j]);
            }
        }
        assert(ext[0] == visiting[0]);
        lemma_visit_errors_justified(ts, names, deps[j], visiting, st);
        match visit(ts, deps[j], visiting, st) {
            Err(_) => {},
            Ok(next) => {
                lemma_visit_deps_errors_justified(ts, names, deps, j + 1, visiting, next);
            },
        }
    }
}

proof fn lemma_plan_from_errors_justified(ts: Seq<TaskView>, names: Seq<Seq<char>>, i: int, st: PlanState)
    ensures
        plan_from(ts, names, i, st) matches Err(e) ==> justified_task_error(ts, names, e),
    decreases names.len() - i,
{
    if 0 <= i < names.len() {
        let empty = Seq::<Seq<char>>::empty();
        assert(empty.no_duplicates());
        assert(is_dependency_path(ts, empty.push(names[i])));
        assert(empty.push(names[i])[0] == names[i]);
        lemma_visit_errors_justified(ts, names, names[i], empty, st);
        match visit(ts, names[i], empty, st) {
            Err(_) => {},
            Ok(next) => {
                lemma_plan_from_errors_justified(ts, names, i + 1, next);
            },
        }
    }
}

proof fn lemma_expand_errors_justified(
    tasks: Seq<TaskView>,
    selectors: Seq<Seq<char>>,
    i: int,
    acc: Seq<Seq<char>>,
)
    ensures
        crate::selectors::expand_from(tasks, selectors, i, acc) matches Err(e) ==> exists|selector: Seq<char>|
            #[trigger] no_match_message(selector) == e && crate::selectors::wildcard_matches(tasks, selector).len()
                == 0,
    decreases selectors.len() - i,
{
    if 0 <= i < selectors.len() {
        let selector = selectors[i];
        if crate::selectors::contains_char(selector, '_') {
            let found = crate::selectors::wildcard_matches(tasks, selector);
            if found.len() != 0 {
                lemma_expand_errors_justified(tasks, selectors, i + 1, acc + found);
            } else {
                assert(no_match_message(selector) == "task specifier `"@ + selector + "` did not match any tasks"@);
            }
        } else {
            lemma_expand_errors_justified(tasks, selectors, i + 1, acc.push(selector));
        }
    }
}

/// Planning law, errors: a request that cannot be planned names no selector (the usage
/// message), or holds a wildcard selector that matches no task, or needs a task that the
/// recipe does not define, or needs a task that depends on itself through its
/// prerequisites; each message names the selector or task concerned.
pub proof fn lemma_planning_errors_are_justified(ts: Seq<TaskView>, args: Seq<Seq<char>>)
    ensures
        planned(ts, args) matches Err(e) ==> {
            ||| e == usage_message() && selector_parts(args).len() == 0
            ||| exists|selector: Seq<char>|
                #[trigger] no_match_message(selector) == e && crate::selectors::wildcard_matches(ts, selector).len()
                    == 0
            ||| expand_selectors(ts, selector_parts(args)) matches Ok(names) && justified_task_error(ts, names, e)
        },
{
    let selectors = selector_parts(args);
    if selectors.len() > 0 {
        lemma_expand_errors_justified(ts, selectors, 0, Seq::empty());
        match expand_selectors(ts, selectors) {
            Err(_) => {},
            Ok(names) => {
                lemma_plan_from_errors_justified(ts, names, 0, empty_plan());
            },
        }
    }
}

} // verus!

verus! {

proof fn lemma_unique_position(ts: Seq<TaskView>, st: PlanState, p: int, q: int)
    requires
        plan_ok(ts, st),
        0 <= p < st.visited.len(),
        0 <= q < st.visited.len(),
        st.visited[p] == st.visited[q],
    ensures
        p == q,
{
    if p < q {
        assert(st.visited[p] != st.visited[q]);
    } else if q < p {
        assert(st.visited[q] != st.visited[p]);
    }
}

/// Along a dependency path from a planned name, each next name is planned before.
proof fn lemma_path_planned_earlier(ts: Seq<TaskView>, st: PlanState, path: Seq<Seq<char>>, k: int, p0: int)
    requires
        plan_ok(ts, st),
        forall|p: int| 0 <= p < st.visited.len() ==> lookup(ts, #[trigger] st.visited[p]) == Some(st.order[p]),
        is_dependency_path(ts, path),
        0 <= p0 < st.visited.len(),
        path.len() > 0,
        st.visited[p0] == path[0],
        0 <= k < path.len(),
    ensures
        exists|q: int| 0 <= q <= p0 && st.visited[q] == path[k] && (k > 0 ==> q < p0),
    decreases k,
{
    if k > 0 {
        lemma_path_planned_earlier(ts, st, path, k - 1, p0);
        let q = choose|q: int| 0 <= q <= p0 && st.visited[q] == path[k - 1] && (k - 1 > 0 ==> q < p0);
        assert(depends_directly(ts, path[k - 1], path[k]));
        assert(lookup(ts, st.visited[q]) == Some(st.order[q]));
        let deps = ts[st.order[q]].dependencies;
        let d = choose|d: int| 0 <= d < deps.len() && deps[d] == path[k];
        assert(planned_before(ts, st, q, d));
        let r = choose|r: int| 0 <= r < q && st.visited[r] == ts[st.order[q]].dependencies[d];
        assert(st.visited[r] == path[k]);
    } else {
        assert(st.visited[p0] == path[0]);
    }
}

/// Planning law, success: a request's names plan without error exactly when every task
/// they need, directly or through prerequisites, is defined by the recipe and none of
/// them depends on itself; the error otherwise names such a task.
pub proof fn lemma_planning_succeeds_exactly_without_missing_or_cyclic_tasks(ts: Seq<TaskView>, names: Seq<Seq<char>>)
    ensures
        plan_from(ts, names, 0, empty_plan()) is Ok <==> forall|x: Seq<char>|
            #[trigger] reachable(ts, names, x) ==> lookup(ts, x) is Some && !on_dependency_cycle(ts, x),
{
    lemma_plan_from_errors_justified(ts, names, 0, empty_plan());
    lemma_plan_prerequisites_first(ts, names);
    lemma_plan_from_needed(ts, names, 0, empty_plan());
    match plan_from(ts, names, 0, empty_plan()) {
        Err(e) => {
            if exists|x: Seq<char>| #[trigger] not_found_message(x) == e && lookup(ts, x) is None && reachable(ts, names, x) {
                let x = choose|x: Seq<char>| #[trigger] not_found_message(x) == e && lookup(ts, x) is None && reachable(ts, names, x);
                assert(reachable(ts, names, x));
            } else {
                let x = choose|x: Seq<char>| #[trigger] cycle_message(x) == e && on_dependency_cycle(ts, x) && reachable(ts, names, x);
                assert(reachable(ts, names, x));
            }
        },
        Ok(st) => {
            assert forall|x: Seq<char>| #[trigger] reachable(ts, names, x) implies lookup(ts, x) is Some
                && !on_dependency_cycle(ts, x) by {
                let path = choose|path: Seq<Seq<char>>|
                    path.len() >= 1 && names.contains(path[0]) && path.last() == x && #[trigger] is_dependency_path(ts, path);
                let i0 = choose|i: int| 0 <= i < names.len() && names[i] == path[0];
                assert(st.visited.contains(names[i0]));
                let p0 = choose|p: int| 0 <= p < st.visited.len() && st.visited[p] == names[i0];
                lemma_path_planned_earlier(ts, st, path, path.len() - 1, p0);
                let q = choose|q: int| 0 <= q <= p0 && st.visited[q] == path[path.len() - 1];
                assert(lookup(ts, st.visited[q]) == Some(st.order[q]));
                if on_dependency_cycle(ts, x) {
                    let cyc = choose|c: Seq<Seq<char>>|
                        c.len() >= 2 && c[0] == x && c.last() == x && #[trigger] is_dependency_path(ts, c);
                    lemma_path_planned_earlier(ts, st, cyc, cyc.len() - 1, q);
                    let r = choose|r: int| 0 <= r <= q && st.visited[r] == cyc[cyc.len() - 1] && (cyc.len() - 1 > 0 ==> r < q);
                    lemma_unique_position(ts, st, r, q);
                }
            }
        },
    }
}

} // verus!

verus! {

/// Planning law, in one statement: a successful plan lists each task once, every task
/// after all of its prerequisites, every requested name (after wildcard expansion), and
/// nothing else but what the requested tasks need, directly or through prerequisites;
/// each planned task is the recipe's task of that name.
pub proof fn lemma_plan_is_the_requested_closure(ts: Seq<TaskView>, args: Seq<Seq<char>>)
    ensures
        planned(ts, args) is Ok ==> {
            let names = planned(ts, args)->Ok_0.0;
            let tasks = planned(ts, args)->Ok_0.1;
            &&& forall|p: int, q: int|
                0 <= p < q < tasks.len() ==> (#[trigger] tasks[p]).name != (#[trigger] tasks[q]).name
            &&& forall|p: int, d: int|
                0 <= p < tasks.len() && 0 <= d < tasks[p].dependencies.len() ==> #[trigger] named_before(
                    tasks,
                    p,
                    tasks[p].dependencies[d],
                )
            &&& forall|i: int| 0 <= i < names.len() ==> #[trigger] named_before(tasks, tasks.len() as int, names[i])
            &&& forall|p: int|
                0 <= p < tasks.len() ==> names.contains(#[trigger] tasks[p].name) || exists|q: int|
                    p < q < tasks.len() && tasks[q].dependencies.contains(tasks[p].name)
            &&& forall|p: int|
                0 <= p < tasks.len() ==> (lookup(ts, #[trigger] tasks[p].name) matches Some(k) && ts[k]
                    == tasks[p])
        },
{
    lemma_planned_tasks_respect_dependencies(ts, args);
    lemma_plan_holds_only_needed_tasks(ts, args);
}

} // verus!
