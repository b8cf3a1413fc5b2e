//! Scheduling decisions for one planned run.
//!
//! The scheduler is a state machine over the planned tasks. The caller asks it
//! which task to launch next, runs that task however it likes, and reports the
//! task's completion or failure back; the scheduler answers with the tasks that
//! become ready or are skipped.

use crate::recipe::{FailureMode, Task, TaskView, tasks_view};
use crate::text::{chars_equal, chars_of};
use std::collections::VecDeque;
use vstd::prelude::*;
use vstd::string::*;

verus! {

/// Tracks the scheduler-visible lifecycle state for one planned task.
#[derive(Debug, Clone, Copy, PartialEq, Eq, Structural)]
pub enum TaskRunState {
    /// The task cannot run yet because prerequisites are unfinished.
    Pending,
    /// The task is eligible to start once worker capacity is available.
    Ready,
    /// The task process has been launched and has not finished yet.
    Running,
    /// The task finished successfully.
    Completed,
    /// The task failed.
    Failed,
    /// The task never started because a prior failure made it ineligible to run.
    Skipped,
}

/// Index of the last task called `name`, or -1 when there is none.
pub open spec fn name_index(tasks: Seq<TaskView>, name: Seq<char>) -> int
    decreases tasks.len(),
{
    if tasks.len() == 0 {
        -1
    } else if tasks.last().name == name {
        tasks.len() - 1
    } else {
        name_index(tasks.drop_last(), name)
    }
}

/// Scans dependency names from task `p`, dependency `d` onwards, in plan order, and
/// returns the first one that names no task of the plan.
pub open spec fn scan_unknown(tasks: Seq<TaskView>, p: int, d: int) -> Option<Seq<char>>
    decreases tasks.len() - p, (if 0 <= p < tasks.len() { tasks[p].dependencies.len() - d } else { 0 }),
{
    if p < 0 || p >= tasks.len() {
        None
    } else if d < 0 || d >= tasks[p].dependencies.len() {
        scan_unknown(tasks, p + 1, 0)
    } else if name_index(tasks, tasks[p].dependencies[d]) < 0 {
        Some(tasks[p].dependencies[d])
    } else {
        scan_unknown(tasks, p, d + 1)
    }
}

/// The first dependency name of the plan that names no task, if any.
pub open spec fn unknown_prerequisite(tasks: Seq<TaskView>) -> Option<Seq<char>> {
    scan_unknown(tasks, 0, 0)
}

/// The prerequisite index lists that the plan's task names resolve to.
pub open spec fn resolves_prerequisites(tasks: Seq<TaskView>, prerequisites: Seq<Seq<usize>>) -> bool {
    &&& prerequisites.len() == tasks.len()
    &&& forall|p: int|
        0 <= p < tasks.len() ==> (#[trigger] prerequisites[p]).len() == tasks[p].dependencies.len()
    &&& forall|p: int, d: int|
        0 <= p < tasks.len() && 0 <= d < tasks[p].dependencies.len() ==> (
        #[trigger] prerequisites[p][d]) as int == name_index(tasks, tasks[p].dependencies[d])
}

proof fn lemma_name_index_bounds(tasks: Seq<TaskView>, name: Seq<char>)
    ensures
        -1 <= name_index(tasks, name) < tasks.len(),
        name_index(tasks, name) >= 0 ==> tasks[name_index(tasks, name)].name == name,
        name_index(tasks, name) < 0 ==> forall|i: int|
            0 <= i < tasks.len() ==> (#[trigger] tasks[i]).name != name,
    decreases tasks.len(),
{
    if tasks.len() > 0 {
        lemma_name_index_bounds(tasks.drop_last(), name);
        if tasks.last().name != name {
            assert forall|i: int| 0 <= i < tasks.len() - 1 implies tasks.drop_last()[i]
                == tasks[i] by {}
        }
    }
}

/// Finds the last task whose name is `name`.
fn find_task_index(tasks: &Vec<Task>, name: &[char]) -> (r: Option<usize>)
    ensures
        match r {
            Some(i) => i as int == name_index(tasks_view(tasks@), name@),
            None => name_index(tasks_view(tasks@), name@) < 0,
        },
{
    let ghost tv = tasks_view(tasks@);
    let mut i: usize = tasks.len();
    assert(tv.subrange(0, tv.len() as int) =~= tv);
    while i > 0
        invariant
            i <= tasks@.len(),
            tv == tasks_view(tasks@),
            name_index(tv, name@) == name_index(tv.subrange(0, i as int), name@),
        decreases i,
    {
        let candidate = chars_of(tasks[i - 1].name.as_str());
        if chars_equal(&candidate, name) {
            return Some(i - 1);
        }
        assert(tv.subrange(0, i as int).drop_last() =~= tv.subrange(0, i - 1));
        i = i - 1;
    }
    None
}

/// Resolves the dependency names of task `p`.
fn resolve_row(tasks: &Vec<Task>, p: usize) -> (r: Result<Vec<usize>, String>)
    requires
        p < tasks@.len(),
    ensures
        match r {
            Ok(row) => {
                &&& scan_unknown(tasks_view(tasks@), p as int, 0) == scan_unknown(
                    tasks_view(tasks@),
                    p + 1,
                    0,
                )
                &&& row@.len() == tasks_view(tasks@)[p as int].dependencies.len()
                &&& forall|d: int|
                    0 <= d < row@.len() ==> (#[trigger] row@[d]) as int == name_index(
                        tasks_view(tasks@),
                        tasks_view(tasks@)[p as int].dependencies[d],
                    )
            },
            Err(message) => {
                &&& scan_unknown(tasks_view(tasks@), p as int, 0) matches Some(name)
                &&& message@ == "task `"@ + name + "` not found"@
            },
        },
{
    let ghost tv = tasks_view(tasks@);
    let task = &tasks[p];
    let mut row: Vec<usize> = Vec::new();
    let mut d: usize = 0;
    while d < task.dependencies.len()
        invariant
            p < tasks@.len(),
            tv == tasks_view(tasks@),
            *task == tasks@[p as int],
            d <= task.dependencies@.len(),
            row@.len() == d,
            scan_unknown(tv, p as int, 0) == scan_unknown(tv, p as int, d as int),
            forall|e: int|
                0 <= e < d ==> (#[trigger] row@[e]) as int == name_index(
                    tv,
                    tv[p as int].dependencies[e],
                ),
        decreases task.dependencies@.len() - d,
    {
        let name = chars_of(task.dependencies[d].as_str());
        assert(tv[p as int].dependencies[d as int] == task.dependencies@[d as int]@);
        match find_task_index(tasks, &name) {
            Some(i) => {
                row.push(i);
            },
            None => {
                let mut message = String::from_str("task `");
                message.append(task.dependencies[d].as_str());
                message.append("` not found");
                return Err(message);
            },
        }
        d = d + 1;
    }
    Ok(row)
}

/// Resolves every task's dependency names to positions in the plan.
pub fn resolve_prerequisites(tasks: &Vec<Task>) -> (r: Result<Vec<Vec<usize>>, String>)
    ensures
        match r {
            Ok(prerequisites) => {
                &&& unknown_prerequisite(tasks_view(tasks@)) is None
                &&& resolves_prerequisites(
                    tasks_view(tasks@),
                    prerequisites@.map_values(|v: Vec<usize>| v@),
                )
            },
            Err(message) => {
                &&& unknown_prerequisite(tasks_view(tasks@)) matches Some(name)
                &&& message@ == "task `"@ + name + "` not found"@
            },
        },
{
    let ghost tv = tasks_view(tasks@);
    let mut result: Vec<Vec<usize>> = Vec::new();
    let mut p: usize = 0;
    while p < tasks.len()
        invariant
            p <= tasks@.len(),
            tv == tasks_view(tasks@),
            result@.len() == p,
            unknown_prerequisite(tv) == scan_unknown(tv, p as int, 0),
            forall|q: int| 0 <= q < p ==> (#[trigger] result@[q])@.len() == tv[q].dependencies.len(),
            forall|q: int, d: int|
                0 <= q < p && 0 <= d < tv[q].dependencies.len() ==> (#[trigger] result@[q]@[d]) as int
                    == name_index(tv, tv[q].dependencies[d]),
        decreases tasks@.len() - p,
    {
        let row = resolve_row(tasks, p);
        match row {
            Ok(row) => {
                result.push(row);
            },
            Err(message) => {
                return Err(message);
            },
        }
        p = p + 1;
    }
    proof {
        let pv = result@.map_values(|v: Vec<usize>| v@);
        assert forall|q: int| 0 <= q < tv.len() implies (#[trigger] pv[q]).len()
            == tv[q].dependencies.len() by {
            assert(pv[q] == result@[q]@);
        }
        assert forall|q: int, d: int|
            0 <= q < tv.len() && 0 <= d < tv[q].dependencies.len() implies (
            #[trigger] pv[q][d]) as int == name_index(tv, tv[q].dependencies[d]) by {
            assert(pv[q] == result@[q]@);
        }
    }
    Ok(result)
}


/// Number of positions in `states` holding `target`.
pub open spec fn count_state(states: Seq<TaskRunState>, target: TaskRunState) -> nat
    decreases states.len(),
{
    if states.len() == 0 {
        0
    } else {
        count_state(states.drop_last(), target) + (if states.last() == target { 1nat } else { 0nat })
    }
}

/// Number of entries of `prerequisites` whose task has not completed.
pub open spec fn count_unfinished(states: Seq<TaskRunState>, prerequisites: Seq<usize>) -> nat
    decreases prerequisites.len(),
{
    if prerequisites.len() == 0 {
        0
    } else {
        count_unfinished(states, prerequisites.drop_last()) + (if states[prerequisites.last() as int]
            == TaskRunState::Completed {
            0nat
        } else {
            1nat
        })
    }
}

/// Number of entries of `prerequisites` equal to `k`.
pub open spec fn occurrences(prerequisites: Seq<usize>, k: usize) -> nat
    decreases prerequisites.len(),
{
    if prerequisites.len() == 0 {
        0
    } else {
        occurrences(prerequisites.drop_last(), k) + (if prerequisites.last() == k {
            1nat
        } else {
            0nat
        })
    }
}

/// Whether a task in this state has a final record: completed, failed or skipped.
pub open spec fn is_recorded(state: TaskRunState) -> bool {
    state == TaskRunState::Completed || state == TaskRunState::Failed || state
        == TaskRunState::Skipped
}

/// Whether a task in this state may still be skipped: it has neither started nor been recorded.
pub open spec fn is_waiting(state: TaskRunState) -> bool {
    state == TaskRunState::Pending || state == TaskRunState::Ready
}

/// Whether a task in this state has been launched.
pub open spec fn has_started(state: TaskRunState) -> bool {
    state == TaskRunState::Running || state == TaskRunState::Completed || state
        == TaskRunState::Failed
}

/// Whether task `j` lists task `k` among its prerequisites.
pub open spec fn depends_on(prerequisites: Seq<Seq<usize>>, j: int, k: int) -> bool {
    exists|d: int| 0 <= d < prerequisites[j].len() && prerequisites[j][d] as int == k
}

/// Whether every prerequisite of `p` has completed.
pub open spec fn prerequisites_completed(
    states: Seq<TaskRunState>,
    prerequisites: Seq<Seq<usize>>,
    p: int,
) -> bool {
    forall|d: int|
        0 <= d < prerequisites[p].len() ==> states[#[trigger] prerequisites[p][d] as int]
            == TaskRunState::Completed
}

/// Whether every prerequisite of every task comes earlier in the plan.
pub open spec fn prerequisites_come_first(prerequisites: Seq<Seq<usize>>) -> bool {
    forall|p: int, d: int|
        0 <= p < prerequisites.len() && 0 <= d < prerequisites[p].len() ==> (
        #[trigger] prerequisites[p][d]) < p
}

/// Scheduling state for one planned run.
pub struct Scheduler {
    prerequisites: Vec<Vec<usize>>,
    states: Vec<TaskRunState>,
    remaining: Vec<usize>,
    ready_queue: VecDeque<usize>,
    running_count: usize,
    max_parallel_tasks: usize,
    failure_mode: FailureMode,
    stop_launching: bool,
    successful_task_count: usize,
}

impl Scheduler {
    /// Prerequisite positions of every task.
    pub closed spec fn prerequisites_view(&self) -> Seq<Seq<usize>> {
        self.prerequisites@.map_values(|v: Vec<usize>| v@)
    }

    /// Lifecycle state of every task.
    pub closed spec fn states_view(&self) -> Seq<TaskRunState> {
        self.states@
    }

    /// Tasks queued for launch, front first; entries may have been skipped since.
    pub closed spec fn queue_view(&self) -> Seq<usize> {
        self.ready_queue@
    }

    /// Number of launched tasks that have not finished.
    pub closed spec fn running_view(&self) -> nat {
        self.running_count as nat
    }

    /// Maximum number of tasks that may run at once.
    pub closed spec fn capacity_view(&self) -> nat {
        self.max_parallel_tasks as nat
    }

    /// The failure mode the run was planned with.
    pub closed spec fn failure_mode_view(&self) -> FailureMode {
        self.failure_mode
    }

    /// Whether launching has stopped after a failure.
    pub closed spec fn stopped_view(&self) -> bool {
        self.stop_launching
    }

    /// Number of tasks that completed successfully.
    pub closed spec fn successful_view(&self) -> nat {
        self.successful_task_count as nat
    }

    /// Number of planned tasks.
    pub open spec fn len_view(&self) -> nat {
        self.states_view().len()
    }

    /// Internal consistency of the scheduling state.
    pub closed spec fn wf(&self) -> bool {
        let n = self.states@.len();
        let pre = self.prerequisites_view();
        let st = self.states@;
        &&& pre.len() == n
        &&& n <= usize::MAX
        &&& self.remaining@.len() == n
        &&& forall|p: int, d: int|
            0 <= p < n && 0 <= d < pre[p].len() ==> (#[trigger] pre[p][d]) < n
        &&& forall|p: int|
            0 <= p < n ==> (#[trigger] self.remaining@[p]) as nat == count_unfinished(st, pre[p])
        &&& self.running_count as nat == count_state(st, TaskRunState::Running)
        &&& self.successful_task_count as nat == count_state(st, TaskRunState::Completed)
        &&& 1 <= self.max_parallel_tasks
        &&& self.running_count <= self.max_parallel_tasks
        &&& forall|q: int| 0 <= q < self.ready_queue@.len() ==> (#[trigger] self.ready_queue@[q]) < n
        &&& forall|i: int|
            0 <= i < n && st[i] == TaskRunState::Ready ==> #[trigger] self.ready_queue@.contains(
                i as usize,
            )
        &&& forall|i: int|
            0 <= i < n && (st[i] == TaskRunState::Ready || has_started(st[i]))
                ==> #[trigger] prerequisites_completed(st, pre, i)
        &&& self.stop_launching ==> self.failure_mode == FailureMode::FailEarly
        &&& !self.stop_launching ==> forall|i: int, d: int|
            0 <= i < n && is_waiting(st[i]) && 0 <= d < pre[i].len() ==> !(#[trigger] st[pre[i][d] as int]
                == TaskRunState::Failed || st[pre[i][d] as int] == TaskRunState::Skipped)
        &&& !self.stop_launching ==> forall|i: int|
            0 <= i < n && st[i] == TaskRunState::Pending ==> (#[trigger] self.remaining@[i]) > 0
    }
}

pub proof fn lemma_count_state_update(
    states: Seq<TaskRunState>,
    i: int,
    new: TaskRunState,
    target: TaskRunState,
)
    requires
        0 <= i < states.len(),
    ensures
        count_state(states.update(i, new), target) == count_state(states, target) - (if states[i]
            == target { 1int } else { 0int }) + (if new == target { 1int } else { 0int }),
        states[i] == target ==> count_state(states, target) >= 1,
    decreases states.len(),
{
    let u = states.update(i, new);
    if i == states.len() - 1 {
        assert(u.drop_last() =~= states.drop_last());
    } else {
        assert(u.drop_last() =~= states.drop_last().update(i, new));
        lemma_count_state_update(states.drop_last(), i, new, target);
    }
}

pub proof fn lemma_count_unfinished_same_completion(
    s1: Seq<TaskRunState>,
    s2: Seq<TaskRunState>,
    pre: Seq<usize>,
)
    requires
        s1.len() == s2.len(),
        forall|d: int| 0 <= d < pre.len() ==> (#[trigger] pre[d]) < s1.len(),
        forall|x: int|
            0 <= x < s1.len() ==> ((#[trigger] s1[x] == TaskRunState::Completed) == (s2[x]
                == TaskRunState::Completed)),
    ensures
        count_unfinished(s1, pre) == count_unfinished(s2, pre),
    decreases pre.len(),
{
    if pre.len() > 0 {
        lemma_count_unfinished_same_completion(s1, s2, pre.drop_last());
        assert(pre.last() == pre[pre.len() - 1]);
    }
}

pub proof fn lemma_count_unfinished_complete(
    states: Seq<TaskRunState>,
    pre: Seq<usize>,
    k: usize,
)
    requires
        k < states.len(),
        states[k as int] != TaskRunState::Completed,
        forall|d: int| 0 <= d < pre.len() ==> (#[trigger] pre[d]) < states.len(),
    ensures
        count_unfinished(states.update(k as int, TaskRunState::Completed), pre) + occurrences(
            pre,
            k,
        ) == count_unfinished(states, pre),
    decreases pre.len(),
{
    if pre.len() > 0 {
        lemma_count_unfinished_complete(states, pre.drop_last(), k);
        assert(pre.last() == pre[pre.len() - 1]);
        let x = pre.last();
        assert(states.update(k as int, TaskRunState::Completed)[x as int] == if x == k {
            TaskRunState::Completed
        } else {
            states[x as int]
        });
    }
}

pub proof fn lemma_count_unfinished_zero(states: Seq<TaskRunState>, pre: Seq<usize>)
    requires
        forall|d: int| 0 <= d < pre.len() ==> (#[trigger] pre[d]) < states.len(),
    ensures
        (count_unfinished(states, pre) == 0) == (forall|d: int|
            0 <= d < pre.len() ==> states[#[trigger] pre[d] as int] == TaskRunState::Completed),
    decreases pre.len(),
{
    if pre.len() > 0 {
        lemma_count_unfinished_zero(states, pre.drop_last());
        let last = pre.len() - 1;
        assert(pre.last() == pre[last]);
        if count_unfinished(states, pre) == 0 {
            assert forall|d: int| 0 <= d < pre.len() implies states[#[trigger] pre[d] as int]
                == TaskRunState::Completed by {
                if d < last {
                    assert(pre.drop_last()[d] == pre[d]);
                }
            }
        }
        if forall|d: int| 0 <= d < pre.len() ==> states[#[trigger] pre[d] as int]
            == TaskRunState::Completed {
            assert forall|d: int| 0 <= d < pre.drop_last().len() implies states[
                #[trigger] pre.drop_last()[d] as int] == TaskRunState::Completed by {
                assert(pre.drop_last()[d] == pre[d]);
            }
        }
    }
}

pub proof fn lemma_count_unfinished_all_waiting(states: Seq<TaskRunState>, pre: Seq<usize>)
    requires
        forall|d: int| 0 <= d < pre.len() ==> (#[trigger] pre[d]) < states.len(),
        forall|x: int| 0 <= x < states.len() ==> #[trigger] states[x] != TaskRunState::Completed,
    ensures
        count_unfinished(states, pre) == pre.len(),
    decreases pre.len(),
{
    if pre.len() > 0 {
        lemma_count_unfinished_all_waiting(states, pre.drop_last());
        assert(pre.last() == pre[pre.len() - 1]);
    }
}

pub proof fn lemma_occurrences_prefix(pre: Seq<usize>, d: int, k: usize)
    requires
        0 <= d < pre.len(),
    ensures
        occurrences(pre.subrange(0, d + 1), k) == occurrences(pre.subrange(0, d), k) + (if pre[d]
            == k { 1int } else { 0int }),
{
    assert(pre.subrange(0, d + 1).drop_last() =~= pre.subrange(0, d));
}

pub proof fn lemma_occurrences_contains(pre: Seq<usize>, k: usize)
    ensures
        (occurrences(pre, k) > 0) == (exists|d: int| 0 <= d < pre.len() && pre[d] == k),
    decreases pre.len(),
{
    if pre.len() > 0 {
        lemma_occurrences_contains(pre.drop_last(), k);
        if occurrences(pre, k) > 0 && pre.last() != k {
            let d = choose|d: int| 0 <= d < pre.drop_last().len() && pre.drop_last()[d] == k;
            assert(pre[d] == k);
        }
        if exists|d: int| 0 <= d < pre.len() && pre[d] == k {
            let d = choose|d: int| 0 <= d < pre.len() && pre[d] == k;
            if d < pre.len() - 1 {
                assert(pre.drop_last()[d] == k);
            }
        }
    }
}

pub proof fn lemma_count_state_zero(states: Seq<TaskRunState>, target: TaskRunState)
    ensures
        (count_state(states, target) == 0) == (forall|x: int|
            0 <= x < states.len() ==> #[trigger] states[x] != target),
    decreases states.len(),
{
    if states.len() > 0 {
        lemma_count_state_zero(states.drop_last(), target);
        if count_state(states, target) == 0 {
            assert forall|x: int| 0 <= x < states.len() implies #[trigger] states[x] != target by {
                if x < states.len() - 1 {
                    assert(states.drop_last()[x] == states[x]);
                }
            }
        }
        if forall|x: int| 0 <= x < states.len() ==> #[trigger] states[x] != target {
            assert forall|x: int| 0 <= x < states.drop_last().len() implies #[trigger] states.drop_last()[x]
                != target by {
                assert(states.drop_last()[x] == states[x]);
            }
        }
    }
}


/// Positions below `n` of the tasks without prerequisites, ascending.
pub open spec fn initially_ready(pre: Seq<Seq<usize>>, n: nat) -> Seq<usize>
    decreases n,
{
    if n == 0 {
        Seq::<usize>::empty()
    } else {
        let rest = initially_ready(pre, (n - 1) as nat);
        if pre[n - 1].len() == 0 {
            rest.push((n - 1) as usize)
        } else {
            rest
        }
    }
}

/// Initial lifecycle state: ready when the task has no prerequisites, pending otherwise.
pub open spec fn initial_state(pre: Seq<usize>) -> TaskRunState {
    if pre.len() == 0 {
        TaskRunState::Ready
    } else {
        TaskRunState::Pending
    }
}

proof fn lemma_initially_ready_members(pre: Seq<Seq<usize>>, n: nat)
    requires
        n <= pre.len(),
        n <= usize::MAX,
    ensures
        forall|q: int|
            0 <= q < initially_ready(pre, n).len() ==> (#[trigger] initially_ready(pre, n)[q]) < n,
        forall|i: int|
            0 <= i < n && pre[i].len() == 0 ==> #[trigger] initially_ready(pre, n).contains(
                i as usize,
            ),
    decreases n,
{
    if n > 0 {
        let m = (n - 1) as nat;
        lemma_initially_ready_members(pre, m);
        let rest = initially_ready(pre, m);
        assert forall|i: int| 0 <= i < m && pre[i].len() == 0 implies #[trigger] rest.contains(
            i as usize,
        ) by {
            assert(initially_ready(pre, m).contains(i as usize));
        }
        if pre[m as int].len() == 0 {
            let full = rest.push(m as usize);
            assert forall|i: int| 0 <= i < n && pre[i].len() == 0 implies #[trigger] full.contains(
                i as usize,
            ) by {
                if i < m {
                    assert(initially_ready(pre, m).contains(i as usize));
                    let q = choose|q: int| 0 <= q < rest.len() && rest[q] == i as usize;
                    assert(full[q] == i as usize);
                } else {
                    assert(full[rest.len() as int] == i as usize);
                }
            }
        }
    }
}

impl Scheduler {
    /// Builds the scheduling state for the planned tasks; fails when a dependency names no
    /// planned task.
    pub fn new(tasks: &Vec<Task>, failure_mode: FailureMode, max_parallel_tasks: usize) -> (r:
        Result<Scheduler, String>)
        ensures
            match r {
                Ok(s) => {
                    &&& s.wf()
                    &&& unknown_prerequisite(tasks_view(tasks@)) is None
                    &&& resolves_prerequisites(tasks_view(tasks@), s.prerequisites_view())
                    &&& s.len_view() == tasks@.len()
                    &&& forall|i: int|
                        0 <= i < tasks@.len() ==> (#[trigger] s.states_view()[i]) == initial_state(
                            s.prerequisites_view()[i],
                        )
                    &&& s.queue_view() == initially_ready(s.prerequisites_view(), tasks@.len())
                    &&& s.running_view() == 0
                    &&& s.successful_view() == 0
                    &&& !s.stopped_view()
                    &&& s.failure_mode_view() == failure_mode
                    &&& s.capacity_view() == if max_parallel_tasks == 0 {
                        1
                    } else {
                        max_parallel_tasks as nat
                    }
                },
                Err(message) => {
                    &&& unknown_prerequisite(tasks_view(tasks@)) matches Some(name)
                    &&& message@ == "task `"@ + name + "` not found"@
                },
            },
    {
        let prerequisites = match resolve_prerequisites(tasks) {
            Ok(p) => p,
            Err(e) => {
                return Err(e);
            },
        };
        let ghost pre = prerequisites@.map_values(|v: Vec<usize>| v@);
        let n = prerequisites.len();
        let mut states: Vec<TaskRunState> = Vec::new();
        let mut remaining: Vec<usize> = Vec::new();
        let mut ready_queue: VecDeque<usize> = VecDeque::new();
        let mut i: usize = 0;
        while i < n
            invariant
                n == prerequisites@.len(),
                pre == prerequisites@.map_values(|v: Vec<usize>| v@),
                i <= n,
                states@.len() == i,
                remaining@.len() == i,
                forall|j: int| 0 <= j < i ==> (#[trigger] states@[j]) == initial_state(pre[j]),
                forall|j: int| 0 <= j < i ==> (#[trigger] remaining@[j]) == pre[j].len(),
                ready_queue@ == initially_ready(pre, i as nat),
            decreases n - i,
        {
            let count = prerequisites[i].len();
            assert(pre[i as int] == prerequisites@[i as int]@);
            if count == 0 {
                states.push(TaskRunState::Ready);
                ready_queue.push_back(i);
            } else {
                states.push(TaskRunState::Pending);
            }
            remaining.push(count);
            i = i + 1;
        }
        let max_parallel_tasks = if max_parallel_tasks == 0 {
            1
        } else {
            max_parallel_tasks
        };
        assert(states@.len() == n);
        let s = Scheduler {
            prerequisites,
            states,
            remaining,
            ready_queue,
            running_count: 0,
            max_parallel_tasks,
            failure_mode,
            stop_launching: false,
            successful_task_count: 0,
        };
        proof {
            let st = s.states@;
            assert(pre == s.prerequisites_view());
            lemma_initially_ready_members(pre, n as nat);
            assert forall|x: int| 0 <= x < st.len() implies #[trigger] st[x]
                != TaskRunState::Completed by {
                assert(st[x] == initial_state(pre[x]));
            }
            assert forall|x: int| 0 <= x < st.len() implies #[trigger] st[x]
                != TaskRunState::Running by {
                assert(st[x] == initial_state(pre[x]));
            }
            lemma_count_state_zero(st, TaskRunState::Running);
            lemma_count_state_zero(st, TaskRunState::Completed);
            assert forall|p: int, d: int|
                0 <= p < n && 0 <= d < pre[p].len() implies (#[trigger] pre[p][d]) < n by {
                assert(pre[p][d] as int == name_index(tasks_view(tasks@), tasks_view(tasks@)[p].dependencies[d]));
                lemma_name_index_bounds(tasks_view(tasks@), tasks_view(tasks@)[p].dependencies[d]);
            }
            assert forall|p: int| 0 <= p < n implies (#[trigger] s.remaining@[p]) as nat
                == count_unfinished(st, pre[p]) by {
                lemma_count_unfinished_all_waiting(st, pre[p]);
            }
            assert forall|x: int|
                0 <= x < n && (st[x] == TaskRunState::Ready || has_started(st[x])) implies #[trigger] prerequisites_completed(
                st,
                pre,
                x,
            ) by {
                assert(st[x] == initial_state(pre[x]));
            }
            assert forall|x: int, d: int|
                0 <= x < n && is_waiting(st[x]) && 0 <= d < pre[x].len() implies !(
            #[trigger] st[pre[x][d] as int] == TaskRunState::Failed || st[pre[x][d] as int]
                == TaskRunState::Skipped) by {
                assert(st[pre[x][d] as int] == initial_state(pre[pre[x][d] as int]));
            }
            assert forall|x: int| 0 <= x < n && st[x] == TaskRunState::Pending implies (
            #[trigger] s.remaining@[x]) > 0 by {
                assert(st[x] == initial_state(pre[x]));
            }
        }
        Ok(s)
    }
}


/// Whether `after` is `before` once `next_launch` chose `r`: the first queued task that is
/// still ready, if capacity allows and launching has not stopped, now running; stale queue
/// entries dropped on the way.
pub open spec fn launch_step(before: Scheduler, after: Scheduler, r: Option<usize>) -> bool {
    &&& after.wf()
    &&& after.len_view() == before.len_view()
    &&& after.prerequisites_view() == before.prerequisites_view()
    &&& after.failure_mode_view() == before.failure_mode_view()
    &&& after.capacity_view() == before.capacity_view()
    &&& after.stopped_view() == before.stopped_view()
    &&& after.successful_view() == before.successful_view()
    &&& match r {
        None => {
            &&& after.states_view() == before.states_view()
            &&& after.running_view() == before.running_view()
            &&& if before.stopped_view() || before.running_view() >= before.capacity_view() {
                after.queue_view() == before.queue_view()
            } else {
                &&& after.queue_view().len() == 0
                &&& forall|q: int|
                    0 <= q < before.queue_view().len() ==> before.states_view()[#[trigger] before.queue_view()[q] as int] != TaskRunState::Ready
            }
        },
        Some(i) => {
            &&& !before.stopped_view()
            &&& before.running_view() < before.capacity_view()
            &&& exists|k: int|
                {
                    &&& 0 <= k < before.queue_view().len()
                    &&& before.queue_view()[k] == i
                    &&& forall|j: int|
                        0 <= j < k ==> before.states_view()[#[trigger] before.queue_view()[j] as int] != TaskRunState::Ready
                    &&& after.queue_view() == before.queue_view().subrange(
                        k + 1,
                        before.queue_view().len() as int,
                    )
                }
            &&& i < before.len_view()
            &&& before.states_view()[i as int] == TaskRunState::Ready
            &&& prerequisites_completed(
                before.states_view(),
                before.prerequisites_view(),
                i as int,
            )
            &&& after.states_view() == before.states_view().update(
                i as int,
                TaskRunState::Running,
            )
            &&& after.running_view() == before.running_view() + 1
        },
    }
}

/// Whether `after` is `before` once running task `task_index` completed: the tasks it
/// unblocks are ready and queued in plan order.
pub open spec fn completion_step(before: Scheduler, after: Scheduler, task_index: usize) -> bool {
    &&& after.wf()
    &&& after.len_view() == before.len_view()
    &&& after.prerequisites_view() == before.prerequisites_view()
    &&& after.failure_mode_view() == before.failure_mode_view()
    &&& after.capacity_view() == before.capacity_view()
    &&& after.stopped_view() == before.stopped_view()
    &&& after.running_view() + 1 == before.running_view()
    &&& after.successful_view() == before.successful_view() + 1
    &&& after.states_view() == states_after_completion(
        before.states_view(),
        before.prerequisites_view(),
        before.stopped_view(),
        task_index,
    )
    &&& after.queue_view() == before.queue_view() + newly_ready(
        before.states_view().update(task_index as int, TaskRunState::Completed),
        before.prerequisites_view(),
        before.stopped_view(),
        task_index,
        before.len_view(),
    )
}

/// The tasks, in plan order, among the first `m` that list task `k` as a prerequisite.
pub open spec fn dependents_upto(prerequisites: Seq<Seq<usize>>, k: int, m: nat) -> Seq<usize>
    decreases m,
{
    if m == 0 {
        Seq::empty()
    } else {
        let rest = dependents_upto(prerequisites, k, (m - 1) as nat);
        if depends_on(prerequisites, m - 1, k) {
            rest.push((m - 1) as usize)
        } else {
            rest
        }
    }
}

/// Number of tasks that have neither started nor been recorded.
pub open spec fn waiting_count(states: Seq<TaskRunState>) -> nat {
    count_state(states, TaskRunState::Pending) + count_state(states, TaskRunState::Ready)
}

/// The tasks skipped, in order, by a breadth-first walk over dependents that starts from
/// `queue`: each task taken from the front that still waits is skipped, and its
/// dependents, in plan order, join the back; a task that does not wait is passed over.
pub open spec fn skip_order(prerequisites: Seq<Seq<usize>>, states: Seq<TaskRunState>, queue: Seq<usize>) -> Seq<
    usize,
>
    decreases waiting_count(states), queue.len(),
{
    if queue.len() == 0 {
        Seq::empty()
    } else {
        let j = queue[0];
        if j < states.len() && is_waiting(states[j as int]) {
            proof {
                lemma_count_state_update(states, j as int, TaskRunState::Skipped, TaskRunState::Pending);
                lemma_count_state_update(states, j as int, TaskRunState::Skipped, TaskRunState::Ready);
            }
            seq![j] + skip_order(
                prerequisites,
                states.update(j as int, TaskRunState::Skipped),
                queue.drop_first() + dependents_upto(prerequisites, j as int, states.len()),
            )
        } else {
            skip_order(prerequisites, states, queue.drop_first())
        }
    }
}

/// Whether `after` is `before` once running task `task_index` failed, `skipped` being the
/// tasks skipped because of it, in the order they were skipped.
pub open spec fn failure_step(before: Scheduler, after: Scheduler, task_index: usize, skipped: Seq<usize>) -> bool {
    &&& after.wf()
    &&& after.len_view() == before.len_view()
    &&& after.prerequisites_view() == before.prerequisites_view()
    &&& after.failure_mode_view() == before.failure_mode_view()
    &&& after.capacity_view() == before.capacity_view()
    &&& after.running_view() + 1 == before.running_view()
    &&& after.successful_view() == before.successful_view()
    &&& after.queue_view() == before.queue_view()
    &&& ({
        let failed = before.states_view().update(task_index as int, TaskRunState::Failed);
        let pre = before.prerequisites_view();
        let n = before.len_view();
        if before.failure_mode_view() == FailureMode::FailEarly {
            &&& after.stopped_view()
            &&& skipped.len() == 0
            &&& after.states_view() == failed
        } else {
            &&& after.stopped_view() == before.stopped_view()
            &&& skipped == skip_order(pre, failed, dependents_upto(pre, task_index as int, n))
            &&& skipped.no_duplicates()
            &&& forall|p: int|
                0 <= p < skipped.len() ==> {
                    &&& (#[trigger] skipped[p]) < n
                    &&& is_waiting(failed[skipped[p] as int])
                    &&& (depends_on(pre, skipped[p] as int, task_index as int) || exists|
                        q: int,
                    |
                        0 <= q < p && depends_on(pre, skipped[p] as int, skipped[q] as int))
                }
            &&& forall|j: int|
                0 <= j < n && is_waiting(failed[j]) && depends_on(pre, j, task_index as int)
                    ==> #[trigger] skipped.contains(j as usize)
            &&& forall|j: int, k: int|
                0 <= j < n && is_waiting(failed[j]) && #[trigger] skipped.contains(k as usize)
                    && #[trigger] depends_on(pre, j, k) ==> skipped.contains(j as usize)
            &&& forall|x: int|
                0 <= x < n ==> #[trigger] after.states_view()[x] == if skipped.contains(
                    x as usize,
                ) {
                    TaskRunState::Skipped
                } else {
                    failed[x]
                }
        }
    })
}

impl Scheduler {
    /// Whether the scheduling loop must go on: tasks are running, or launching has not
    /// stopped and tasks are queued.
    pub fn is_active(&self) -> (r: bool)
        ensures
            r == (self.running_view() > 0 || (!self.stopped_view() && self.queue_view().len() > 0)),
    {
        self.running_count > 0 || (!self.stop_launching && self.ready_queue.len() > 0)
    }

    /// Number of launched tasks that have not finished.
    pub fn running_count(&self) -> (r: usize)
        ensures
            r == self.running_view(),
    {
        self.running_count
    }

    /// Number of tasks that completed successfully so far.
    pub fn successful_task_count(&self) -> (r: usize)
        ensures
            r == self.successful_view(),
    {
        self.successful_task_count
    }

    /// Current state of one task.
    pub fn state(&self, task_index: usize) -> (r: TaskRunState)
        requires
            task_index < self.len_view(),
        ensures
            r == self.states_view()[task_index as int],
    {
        self.states[task_index]
    }

    /// Number of planned tasks.
    pub fn len(&self) -> (r: usize)
        ensures
            r == self.len_view(),
    {
        self.states.len()
    }

    /// Chooses the next task to launch, if capacity allows and launching has not stopped.
    /// Queue entries that are no longer ready are dropped on the way.
    pub fn next_launch(&mut self) -> (r: Option<usize>)
        requires
            old(self).wf(),
        ensures
            launch_step(*old(self), *final(self), r),

    {
        if self.stop_launching || self.running_count >= self.max_parallel_tasks {
            return None;
        }
        let ghost q0 = self.ready_queue@;
        let ghost n = self.states@.len();
        let ghost pre = self.prerequisites_view();
        loop
            invariant
                self.wf(),
                !self.stop_launching,
                self.running_count < self.max_parallel_tasks,
                self.states@ == old(self).states@,
                self.running_count == old(self).running_count,
                self.prerequisites == old(self).prerequisites,
                self.remaining == old(self).remaining,
                self.max_parallel_tasks == old(self).max_parallel_tasks,
                self.failure_mode == old(self).failure_mode,
                self.stop_launching == old(self).stop_launching,
                self.successful_task_count == old(self).successful_task_count,
                q0 == old(self).ready_queue@,
                pre == self.prerequisites_view(),
                n == self.states@.len(),
                self.ready_queue@.len() <= q0.len(),
                self.ready_queue@ == q0.subrange(q0.len() - self.ready_queue@.len(), q0.len() as int),
                forall|j: int|
                    0 <= j < q0.len() - self.ready_queue@.len() ==> self.states@[#[trigger] q0[j] as int]
                        != TaskRunState::Ready,
            decreases self.ready_queue@.len(),
        {
            let ghost q1 = self.ready_queue@;
            let front = self.ready_queue.pop_front();
            match front {
                None => {
                    return None;
                },
                Some(i) => {
                    let ghost k = q0.len() - q1.len();
                    assert(q0[k] == i);
                    if self.states[i] == TaskRunState::Ready {
                        let ghost st = self.states@;
                        proof {
                            lemma_count_state_update(st, i as int, TaskRunState::Running, TaskRunState::Running);
                            lemma_count_state_update(st, i as int, TaskRunState::Running, TaskRunState::Completed);
                        }
                        self.states.set(i, TaskRunState::Running);
                        self.running_count = self.running_count + 1;
                        proof {
                            let st2 = self.states@;
                            assert(st2 == st.update(i as int, TaskRunState::Running));
                            assert forall|x: int| 0 <= x < st.len() implies ((#[trigger] st[x]
                                == TaskRunState::Completed) == (st2[x] == TaskRunState::Completed)) by {}
                            assert forall|p: int| 0 <= p < n implies (#[trigger] self.remaining@[p]) as nat
                                == count_unfinished(st2, pre[p]) by {
                                lemma_count_unfinished_same_completion(st, st2, pre[p]);
                            }
                            assert forall|x: int| 0 <= x < n && st2[x] == TaskRunState::Ready implies #[trigger] self.ready_queue@.contains(
                                x as usize,
                            ) by {
                                assert(x != i as int);
                                assert(st[x] == TaskRunState::Ready);
                                assert(q1.contains(x as usize));
                                let w = choose|w: int| 0 <= w < q1.len() && q1[w] == x as usize;
                                if w == 0 {
                                    assert(q1[0] == i);
                                    assert(x == i as int);
                                }
                                assert(self.ready_queue@[w - 1] == x as usize);
                            }
                            assert forall|x: int|
                                0 <= x < n && (st2[x] == TaskRunState::Ready || has_started(st2[x])) implies #[trigger] prerequisites_completed(
                                st2,
                                pre,
                                x,
                            ) by {
                                assert(prerequisites_completed(st, pre, x));
                                assert forall|d: int| 0 <= d < pre[x].len() implies st2[#[trigger] pre[x][d] as int]
                                    == TaskRunState::Completed by {
                                    assert(st[pre[x][d] as int] == TaskRunState::Completed);
                                }
                            }
                            assert forall|x: int, d: int|
                                0 <= x < n && is_waiting(st2[x]) && 0 <= d < pre[x].len() implies !(
                            #[trigger] st2[pre[x][d] as int] == TaskRunState::Failed || st2[pre[x][d] as int]
                                == TaskRunState::Skipped) by {
                                assert(is_waiting(st[x]));
                            }
                            assert forall|qq: int| 0 <= qq < self.ready_queue@.len() implies (#[trigger] self.ready_queue@[qq]) < n by {
                                assert(self.ready_queue@[qq] == q1[qq + 1]);
                            }
                            assert(self.ready_queue@ =~= q0.subrange(k + 1, q0.len() as int));
                            assert(prerequisites_completed(st, pre, i as int));
                        }
                        return Some(i);
                    }
                    proof {
                        let st = self.states@;
                        assert forall|x: int| 0 <= x < n && st[x] == TaskRunState::Ready implies #[trigger] self.ready_queue@.contains(
                            x as usize,
                        ) by {
                            assert(x != i as int);
                            assert(q1.contains(x as usize));
                            let w = choose|w: int| 0 <= w < q1.len() && q1[w] == x as usize;
                            if w == 0 {
                                assert(q1[0] == i);
                                assert(x == i as int);
                            }
                            assert(self.ready_queue@[w - 1] == x as usize);
                        }
                        assert forall|qq: int| 0 <= qq < self.ready_queue@.len() implies (#[trigger] self.ready_queue@[qq]) < n by {
                            assert(self.ready_queue@[qq] == q1[qq + 1]);
                        }
                        assert(self.ready_queue@ =~= q0.subrange(q0.len() - self.ready_queue@.len(), q0.len() as int));
                        assert forall|j: int|
                            0 <= j < q0.len() - self.ready_queue@.len() implies self.states@[#[trigger] q0[j] as int]
                                != TaskRunState::Ready by {
                            if j < k {
                            }
                        }
                    }
                },
            }
        }
    }
}


/// Whether task `p` turns ready once task `k` completes: it was pending, launching has not
/// stopped, it lists `k` as a prerequisite and no prerequisite remains unfinished.
pub open spec fn becomes_ready(
    states: Seq<TaskRunState>,
    pre: Seq<Seq<usize>>,
    stopped: bool,
    k: usize,
    p: int,
) -> bool {
    &&& states[p] == TaskRunState::Pending
    &&& !stopped
    &&& occurrences(pre[p], k) > 0
    &&& count_unfinished(states, pre[p]) == 0
}

/// The tasks below `n` that turn ready once `k` completes, ascending.
pub open spec fn newly_ready(
    states: Seq<TaskRunState>,
    pre: Seq<Seq<usize>>,
    stopped: bool,
    k: usize,
    n: nat,
) -> Seq<usize>
    decreases n,
{
    if n == 0 {
        Seq::<usize>::empty()
    } else {
        let rest = newly_ready(states, pre, stopped, k, (n - 1) as nat);
        if becomes_ready(states, pre, stopped, k, n - 1) {
            rest.push((n - 1) as usize)
        } else {
            rest
        }
    }
}

/// States after `k` completes: `k` is completed and the tasks it unblocks are ready.
pub open spec fn states_after_completion(
    states: Seq<TaskRunState>,
    pre: Seq<Seq<usize>>,
    stopped: bool,
    k: usize,
) -> Seq<TaskRunState> {
    let done = states.update(k as int, TaskRunState::Completed);
    Seq::new(
        states.len(),
        |p: int|
            if becomes_ready(done, pre, stopped, k, p) {
                TaskRunState::Ready
            } else {
                done[p]
            },
    )
}

impl Scheduler {
    /// Records that a running task finished successfully, and queues the tasks this unblocks.
    pub fn complete_task(&mut self, task_index: usize)
        requires
            old(self).wf(),
            task_index < old(self).len_view(),
            old(self).states_view()[task_index as int] == TaskRunState::Running,
        ensures
            completion_step(*old(self), *final(self), task_index),

    {
        let ghost st0 = self.states@;
        let ghost pre = self.prerequisites_view();
        let ghost n = st0.len();
        let ghost st1 = st0.update(task_index as int, TaskRunState::Completed);
        let ghost q0 = self.ready_queue@;
        let ghost rem0 = self.remaining@;
        proof {
            lemma_count_state_update(st0, task_index as int, TaskRunState::Completed, TaskRunState::Running);
            lemma_count_state_update(st0, task_index as int, TaskRunState::Completed, TaskRunState::Completed);
            lemma_count_state_le(st1, TaskRunState::Completed);
            assert(pre.len() == n);
        }
        self.states.set(task_index, TaskRunState::Completed);
        self.running_count = self.running_count - 1;
        self.successful_task_count = self.successful_task_count + 1;
        let n_exec = self.states.len();
        let mut p: usize = 0;
        while p < n_exec
            invariant
                n_exec == n,
                n == self.states@.len(),
                n == st0.len(),
                st0[task_index as int] == TaskRunState::Running,
                self.max_parallel_tasks == old(self).max_parallel_tasks,
                self.failure_mode == old(self).failure_mode,
                self.running_count == old(self).running_count - 1,
                self.successful_task_count == old(self).successful_task_count + 1,
                n <= usize::MAX,
                pre == self.prerequisites_view(),
                self.prerequisites == old(self).prerequisites,
                self.remaining@.len() == n,
                task_index < n,
                st1 == st0.update(task_index as int, TaskRunState::Completed),
                st0 == old(self).states@,
                rem0 == old(self).remaining@,
                q0 == old(self).ready_queue@,
                old(self).wf(),
                self.stop_launching == old(self).stop_launching,
                p <= n,
                forall|q: int|
                    0 <= q < p ==> (#[trigger] self.states@[q]) == (if becomes_ready(
                        st1,
                        pre,
                        self.stop_launching,
                        task_index,
                        q,
                    ) {
                        TaskRunState::Ready
                    } else {
                        st1[q]
                    }),
                forall|q: int| p <= q < n ==> (#[trigger] self.states@[q]) == st1[q],
                forall|q: int|
                    0 <= q < p ==> (#[trigger] self.remaining@[q]) as nat == count_unfinished(st1, pre[q]),
                forall|q: int| p <= q < n ==> (#[trigger] self.remaining@[q]) == rem0[q],
                self.ready_queue@ == q0 + newly_ready(st1, pre, self.stop_launching, task_index, p as nat),
                count_state(self.states@, TaskRunState::Running) == count_state(st1, TaskRunState::Running),
                count_state(self.states@, TaskRunState::Completed) == count_state(st1, TaskRunState::Completed),
            decreases n - p,
        {
            let ghost row = pre[p as int];
            proof {
                assert(pre.len() == n);
                assert(row == self.prerequisites@[p as int]@);
                assert forall|d: int| 0 <= d < row.len() implies (#[trigger] row[d]) < st0.len() by {
                    assert(pre[p as int][d] < n);
                }
                lemma_count_unfinished_complete(st0, row, task_index);
                assert(rem0[p as int] as nat == count_unfinished(st0, row));
            }
            let mut hit = false;
            let mut d: usize = 0;
            let plen = self.prerequisites[p].len();
            let ghost states_before = self.states@;
            let ghost queue_before = self.ready_queue@;
            while d < plen
                invariant
                    self.states@ == states_before,
                    self.ready_queue@ == queue_before,
                    self.max_parallel_tasks == old(self).max_parallel_tasks,
                    self.failure_mode == old(self).failure_mode,
                    self.stop_launching == old(self).stop_launching,
                    self.running_count == old(self).running_count - 1,
                    self.successful_task_count == old(self).successful_task_count + 1,
                    p < self.prerequisites@.len(),
                    plen == row.len(),
                    row == pre[p as int],
                    row == self.prerequisites@[p as int]@,
                    p < n,
                    n == self.remaining@.len(),
                    d <= plen,
                    forall|q: int| 0 <= q < n && q != p ==> (#[trigger] self.remaining@[q]) == old(self).remaining@[q] || q < p,
                    forall|q: int| 0 <= q < p ==> (#[trigger] self.remaining@[q]) as nat == count_unfinished(st1, pre[q]),
                    forall|q: int| p < q < n ==> (#[trigger] self.remaining@[q]) == rem0[q],
                    self.remaining@[p as int] as int == rem0[p as int] - occurrences(row.subrange(0, d as int), task_index),
                    occurrences(row.subrange(0, d as int), task_index) <= occurrences(row, task_index),
                    occurrences(row, task_index) <= rem0[p as int],
                    hit == (occurrences(row.subrange(0, d as int), task_index) > 0),
                    self.prerequisites == old(self).prerequisites,
                    pre == self.prerequisites_view(),
                decreases plen - d,
            {
                proof {
                    lemma_occurrences_prefix(row, d as int, task_index);
                    lemma_occurrences_bound(row, d as int + 1, task_index);
                }
                if self.prerequisites[p][d] == task_index {
                    let r = self.remaining[p];
                    self.remaining.set(p, r - 1);
                    hit = true;
                }
                d = d + 1;
            }
            proof {
                assert(row.subrange(0, plen as int) =~= row);
                lemma_count_unfinished_complete(st0, row, task_index);
            }
            let ready_now = hit && !self.stop_launching && self.remaining[p] == 0
                && self.states[p] == TaskRunState::Pending;
            if ready_now {
                proof {
                    lemma_count_state_update(self.states@, p as int, TaskRunState::Ready, TaskRunState::Running);
                    lemma_count_state_update(self.states@, p as int, TaskRunState::Ready, TaskRunState::Completed);
                }
                self.states.set(p, TaskRunState::Ready);
                self.ready_queue.push_back(p);
            }
            proof {
                assert(becomes_ready(st1, pre, self.stop_launching, task_index, p as int) == ready_now);
            }
            p = p + 1;
        }
        proof {
            let st2 = self.states@;
            let stopped = self.stop_launching;
            assert(st2 =~= states_after_completion(st0, pre, stopped, task_index));
            assert forall|x: int| 0 <= x < n implies ((#[trigger] st1[x] == TaskRunState::Completed)
                == (st2[x] == TaskRunState::Completed)) by {}
            assert forall|x: int| 0 <= x < n && #[trigger] st0[x] == TaskRunState::Completed implies st1[x]
                == TaskRunState::Completed by {}
            assert forall|q: int| 0 <= q < n implies (#[trigger] self.remaining@[q]) as nat
                == count_unfinished(st2, pre[q]) by {
                lemma_count_unfinished_same_completion(st1, st2, pre[q]);
            }
            assert forall|x: int| 0 <= x < n && st2[x] == TaskRunState::Ready implies #[trigger] self.ready_queue@.contains(
                x as usize,
            ) by {
                if st0[x] == TaskRunState::Ready {
                    assert(x != task_index as int);
                    assert(q0.contains(x as usize));
                    let w = choose|w: int| 0 <= w < q0.len() && q0[w] == x as usize;
                    assert(self.ready_queue@[w] == x as usize);
                } else {
                    assert(becomes_ready(st1, pre, stopped, task_index, x));
                    lemma_newly_ready_members(st1, pre, stopped, task_index, n);
                    let nr = newly_ready(st1, pre, stopped, task_index, n);
                    assert(nr.contains(x as usize));
                    let w = choose|w: int| 0 <= w < nr.len() && nr[w] == x as usize;
                    assert(self.ready_queue@[q0.len() + w] == x as usize);
                }
            }
            assert forall|qq: int| 0 <= qq < self.ready_queue@.len() implies (#[trigger] self.ready_queue@[qq]) < n by {
                if qq >= q0.len() {
                    lemma_newly_ready_members(st1, pre, stopped, task_index, n);
                    assert(self.ready_queue@[qq] == newly_ready(st1, pre, stopped, task_index, n)[qq - q0.len()]);
                }
            }
            assert forall|x: int|
                0 <= x < n && (st2[x] == TaskRunState::Ready || has_started(st2[x])) implies #[trigger] prerequisites_completed(
                st2,
                pre,
                x,
            ) by {
                if becomes_ready(st1, pre, stopped, task_index, x) {
                    lemma_count_unfinished_zero(st1, pre[x]);
                    assert forall|d: int| 0 <= d < pre[x].len() implies st2[#[trigger] pre[x][d] as int]
                        == TaskRunState::Completed by {
                        assert(st1[pre[x][d] as int] == TaskRunState::Completed);
                    }
                } else {
                    assert(st0[x] == TaskRunState::Ready || has_started(st0[x]));
                    assert(prerequisites_completed(st0, pre, x));
                    assert forall|d: int| 0 <= d < pre[x].len() implies st2[#[trigger] pre[x][d] as int]
                        == TaskRunState::Completed by {
                        assert(st0[pre[x][d] as int] == TaskRunState::Completed);
                    }
                }
            }
            if !stopped {
                assert forall|x: int, d: int|
                    0 <= x < n && is_waiting(st2[x]) && 0 <= d < pre[x].len() implies !(
                #[trigger] st2[pre[x][d] as int] == TaskRunState::Failed || st2[pre[x][d] as int]
                    == TaskRunState::Skipped) by {
                    assert(is_waiting(st0[x]));
                    assert(!(st0[pre[x][d] as int] == TaskRunState::Failed || st0[pre[x][d] as int]
                        == TaskRunState::Skipped));
                }
                assert forall|x: int| 0 <= x < n && st2[x] == TaskRunState::Pending implies (
                #[trigger] self.remaining@[x]) > 0 by {
                    assert(st0[x] == TaskRunState::Pending);
                    assert(rem0[x] > 0);
                    lemma_count_unfinished_complete(st0, pre[x], task_index);
                    lemma_occurrences_contains(pre[x], task_index);
                    if self.remaining@[x] == 0 {
                        assert(!becomes_ready(st1, pre, stopped, task_index, x));
                        assert(occurrences(pre[x], task_index) == 0);
                    }
                }
            }
        }
    }
}

proof fn lemma_count_state_le(states: Seq<TaskRunState>, target: TaskRunState)
    ensures
        count_state(states, target) <= states.len(),
    decreases states.len(),
{
    if states.len() > 0 {
        lemma_count_state_le(states.drop_last(), target);
    }
}

proof fn lemma_occurrences_bound(row: Seq<usize>, d: int, k: usize)
    requires
        0 <= d <= row.len(),
    ensures
        occurrences(row.subrange(0, d), k) <= occurrences(row, k),
    decreases row.len() - d,
{
    if d < row.len() {
        lemma_occurrences_bound(row, d + 1, k);
        lemma_occurrences_prefix(row, d, k);
    } else {
        assert(row.subrange(0, d) =~= row);
    }
}

proof fn lemma_newly_ready_members(
    states: Seq<TaskRunState>,
    pre: Seq<Seq<usize>>,
    stopped: bool,
    k: usize,
    n: nat,
)
    requires
        n <= usize::MAX,
    ensures
        forall|q: int|
            0 <= q < newly_ready(states, pre, stopped, k, n).len() ==> (#[trigger] newly_ready(
                states,
                pre,
                stopped,
                k,
                n,
            )[q]) < n,
        forall|x: int|
            0 <= x < n && becomes_ready(states, pre, stopped, k, x) ==> #[trigger] newly_ready(
                states,
                pre,
                stopped,
                k,
                n,
            ).contains(x as usize),
    decreases n,
{
    if n > 0 {
        let m = (n - 1) as nat;
        lemma_newly_ready_members(states, pre, stopped, k, m);
        let rest = newly_ready(states, pre, stopped, k, m);
        assert forall|x: int| 0 <= x < m && becomes_ready(states, pre, stopped, k, x) implies #[trigger] rest.contains(
            x as usize,
        ) by {
            assert(newly_ready(states, pre, stopped, k, m).contains(x as usize));
        }
        if becomes_ready(states, pre, stopped, k, m as int) {
            let full = rest.push(m as usize);
            assert forall|x: int| 0 <= x < n && becomes_ready(states, pre, stopped, k, x) implies #[trigger] full.contains(
                x as usize,
            ) by {
                if x < m {
                    assert(rest.contains(x as usize));
                    let w = choose|w: int| 0 <= w < rest.len() && rest[w] == x as usize;
                    assert(full[w] == x as usize);
                } else {
                    assert(full[rest.len() as int] == x as usize);
                }
            }
        }
    }
}


impl Scheduler {
    /// Records that a running task failed. Under fail-early, launching stops. Under fail-late,
    /// every waiting task that depends on the failed task, directly or through other skipped
    /// tasks, is skipped, breadth first from the failed task's dependents in plan order
    /// (`skip_order`); the skipped tasks are returned in the order they were skipped.
    pub fn fail_task(&mut self, task_index: usize) -> (skipped: Vec<usize>)
        requires
            old(self).wf(),
            task_index < old(self).len_view(),
            old(self).states_view()[task_index as int] == TaskRunState::Running,
        ensures
            failure_step(*old(self), *final(self), task_index, skipped@),

    {
        let ghost st0 = self.states@;
        let ghost pre = self.prerequisites_view();
        let ghost n = st0.len();
        let ghost st1 = st0.update(task_index as int, TaskRunState::Failed);
        proof {
            lemma_count_state_update(st0, task_index as int, TaskRunState::Failed, TaskRunState::Running);
            lemma_count_state_update(st0, task_index as int, TaskRunState::Failed, TaskRunState::Completed);
            assert forall|x: int| 0 <= x < n implies ((#[trigger] st0[x] == TaskRunState::Completed)
                == (st1[x] == TaskRunState::Completed)) by {}
            assert forall|q: int| 0 <= q < n implies (#[trigger] self.remaining@[q]) as nat
                == count_unfinished(st1, pre[q]) by {
                lemma_count_unfinished_same_completion(st0, st1, pre[q]);
            }
        }
        self.states.set(task_index, TaskRunState::Failed);
        self.running_count = self.running_count - 1;
        if self.failure_mode == FailureMode::FailEarly {
            self.stop_launching = true;
            proof {
                assert forall|x: int|
                    0 <= x < n && (st1[x] == TaskRunState::Ready || has_started(st1[x])) implies #[trigger] prerequisites_completed(
                    st1,
                    pre,
                    x,
                ) by {
                    assert(prerequisites_completed(st0, pre, x));
                    assert forall|d: int| 0 <= d < pre[x].len() implies st1[#[trigger] pre[x][d] as int]
                        == TaskRunState::Completed by {
                        assert(st0[pre[x][d] as int] == TaskRunState::Completed);
                    }
                }
                assert forall|x: int| 0 <= x < n && st1[x] == TaskRunState::Ready implies #[trigger] self.ready_queue@.contains(
                    x as usize,
                ) by {
                    assert(st0[x] == TaskRunState::Ready);
                }
            }
            return Vec::new();
        }
        let mut skipped: Vec<usize> = Vec::new();
        let mut queue: VecDeque<usize> = VecDeque::new();
        let first = dependents_in(&self.prerequisites, task_index);
        let mut f: usize = 0;
        while f < first.len()
            invariant
                f <= first@.len(),
                queue@ == first@.subrange(0, f as int),
            decreases first@.len() - f,
        {
            queue.push_back(first[f]);
            f = f + 1;
            assert(queue@ =~= first@.subrange(0, f as int));
        }
        assert(first@.subrange(0, first@.len() as int) =~= first@);
        // BFS over dependents
        loop
            invariant
                self.states@.len() == n,
                n == st0.len(),
                n <= usize::MAX,
                st1 == st0.update(task_index as int, TaskRunState::Failed),
                pre == self.prerequisites_view(),
                old(self).wf(),
                st0 == old(self).states@,
                self.prerequisites == old(self).prerequisites,
                self.remaining == old(self).remaining,
                self.ready_queue@ == old(self).ready_queue@,
                self.max_parallel_tasks == old(self).max_parallel_tasks,
                self.failure_mode == old(self).failure_mode,
                self.failure_mode == FailureMode::FailLate,
                self.stop_launching == old(self).stop_launching,
                self.running_count + 1 == old(self).running_count,
                self.successful_task_count == old(self).successful_task_count,
                task_index < n,
                forall|q: int| 0 <= q < n ==> (#[trigger] self.remaining@[q]) as nat == count_unfinished(st1, pre[q]),
                forall|x: int|
                    0 <= x < n ==> #[trigger] self.states@[x] == if skipped@.contains(x as usize) {
                        TaskRunState::Skipped
                    } else {
                        st1[x]
                    },
                skipped@.no_duplicates(),
                forall|p: int|
                    0 <= p < skipped@.len() ==> {
                        &&& (#[trigger] skipped@[p]) < n
                        &&& is_waiting(st1[skipped@[p] as int])
                        &&& (depends_on(pre, skipped@[p] as int, task_index as int) || exists|q: int|
                            0 <= q < p && depends_on(pre, skipped@[p] as int, skipped@[q] as int))
                    },
                forall|q: int|
                    0 <= q < queue@.len() ==> {
                        &&& (#[trigger] queue@[q]) < n
                        &&& (depends_on(pre, queue@[q] as int, task_index as int) || exists|w: int|
                            0 <= w < skipped@.len() && depends_on(pre, queue@[q] as int, skipped@[w] as int))
                    },
                forall|j: int|
                    0 <= j < n && is_waiting(st1[j]) && depends_on(pre, j, task_index as int) ==> (
                    #[trigger] skipped@.contains(j as usize) || queue@.contains(j as usize)),
                forall|j: int, k: int|
                    0 <= j < n && is_waiting(st1[j]) && #[trigger] skipped@.contains(k as usize)
                        && #[trigger] depends_on(pre, j, k) ==> (skipped@.contains(j as usize)
                        || queue@.contains(j as usize)),
                count_state(self.states@, TaskRunState::Running) == count_state(st1, TaskRunState::Running),
                count_state(self.states@, TaskRunState::Completed) == count_state(st1, TaskRunState::Completed),
                skip_order(pre, st1, first@) == skipped@ + skip_order(pre, self.states@, queue@),
            ensures
                queue@.len() == 0,
            decreases count_state(self.states@, TaskRunState::Pending) + count_state(
                self.states@,
                TaskRunState::Ready,
            ), queue@.len(),
        {
            let ghost q_before = queue@;
            let ghost s_before = skipped@;
            let ghost states_before = self.states@;
            let next = queue.pop_front();
            match next {
                None => {
                    break;
                },
                Some(j) => {
                    let state = self.states[j];
                    if state == TaskRunState::Pending || state == TaskRunState::Ready {
                        proof {
                            lemma_count_state_update(states_before, j as int, TaskRunState::Skipped, TaskRunState::Running);
                            lemma_count_state_update(states_before, j as int, TaskRunState::Skipped, TaskRunState::Completed);
                            lemma_count_state_update(states_before, j as int, TaskRunState::Skipped, TaskRunState::Pending);
                            lemma_count_state_update(states_before, j as int, TaskRunState::Skipped, TaskRunState::Ready);
                            assert(!s_before.contains(j));
                        }
                        self.states.set(j, TaskRunState::Skipped);
                        skipped.push(j);
                        let next_level = dependents_in(&self.prerequisites, j);
                        let mut e: usize = 0;
                        let ghost q_mid = queue@;
                        while e < next_level.len()
                            invariant
                                e <= next_level@.len(),
                                queue@ == q_mid + next_level@.subrange(0, e as int),
                            decreases next_level@.len() - e,
                        {
                            queue.push_back(next_level[e]);
                            e = e + 1;
                            assert(queue@ =~= q_mid + next_level@.subrange(0, e as int));
                        }
                        proof {
                            assert(next_level@.subrange(0, next_level@.len() as int) =~= next_level@);
                            let sk = skipped@;
                            assert(sk == s_before.push(j));
                            assert forall|x: int| 0 <= x < n implies #[trigger] self.states@[x]
                                == if sk.contains(x as usize) {
                                TaskRunState::Skipped
                            } else {
                                st1[x]
                            } by {
                                if x == j as int {
                                    assert(sk[s_before.len() as int] == j);
                                } else {
                                    if sk.contains(x as usize) {
                                        let w = choose|w: int| 0 <= w < sk.len() && sk[w] == x as usize;
                                        assert(s_before[w] == x as usize);
                                    }
                                    if s_before.contains(x as usize) {
                                        let w = choose|w: int| 0 <= w < s_before.len() && s_before[w] == x as usize;
                                        assert(sk[w] == x as usize);
                                    }
                                }
                            }
                            assert(is_waiting(st1[j as int])) by {
                                assert(!s_before.contains(j));
                            }
                            assert forall|p: int| 0 <= p < sk.len() implies {
                                &&& (#[trigger] sk[p]) < n
                                &&& is_waiting(st1[sk[p] as int])
                                &&& (depends_on(pre, sk[p] as int, task_index as int) || exists|q: int|
                                    0 <= q < p && depends_on(pre, sk[p] as int, sk[q] as int))
                            } by {
                                if p < s_before.len() {
                                    assert(sk[p] == s_before[p]);
                                    if !depends_on(pre, sk[p] as int, task_index as int) {
                                        let q = choose|q: int|
                                            0 <= q < p && depends_on(pre, s_before[p] as int, s_before[q] as int);
                                        assert(sk[q] == s_before[q]);
                                    }
                                } else {
                                    assert(q_before[0] == j);
                                    if !depends_on(pre, j as int, task_index as int) {
                                        let w = choose|w: int|
                                            0 <= w < s_before.len() && depends_on(pre, q_before[0] as int, s_before[w] as int);
                                        assert(sk[w] == s_before[w]);
                                    }
                                }
                            }
                            let qq = queue@;
                            assert forall|q: int| 0 <= q < qq.len() implies {
                                &&& (#[trigger] qq[q]) < n
                                &&& (depends_on(pre, qq[q] as int, task_index as int) || exists|w: int|
                                    0 <= w < sk.len() && depends_on(pre, qq[q] as int, sk[w] as int))
                            } by {
                                if q < q_mid.len() {
                                    assert(qq[q] == q_before[q + 1]);
                                    if !depends_on(pre, qq[q] as int, task_index as int) {
                                        let w = choose|w: int|
                                            0 <= w < s_before.len() && depends_on(pre, q_before[q + 1] as int, s_before[w] as int);
                                        assert(sk[w] == s_before[w]);
                                    }
                                } else {
                                    assert(qq[q] == next_level@[q - q_mid.len()]);
                                    assert(sk[s_before.len() as int] == j);
                                }
                            }
                            assert forall|x: int|
                                0 <= x < n && is_waiting(st1[x]) && depends_on(pre, x, task_index as int) implies (
                            #[trigger] sk.contains(x as usize) || qq.contains(x as usize)) by {
                                lemma_contains_after_pop_push(q_before, q_mid, next_level@, qq, s_before, sk, j, x as usize);
                            }
                            assert forall|x: int, k: int|
                                0 <= x < n && is_waiting(st1[x]) && #[trigger] sk.contains(k as usize)
                                    && #[trigger] depends_on(pre, x, k) implies (sk.contains(x as usize)
                                || qq.contains(x as usize)) by {
                                if k == j as int {
                                    assert(next_level@.contains(x as usize));
                                    let w = choose|w: int| 0 <= w < next_level@.len() && next_level@[w] == x as usize;
                                    assert(qq[q_mid.len() + w] == x as usize);
                                } else {
                                    let w = choose|w: int| 0 <= w < sk.len() && sk[w] == k as usize;
                                    assert(w < s_before.len());
                                    assert(s_before[w] == k as usize);
                                    assert(s_before.contains(k as usize));
                                    lemma_contains_after_pop_push(q_before, q_mid, next_level@, qq, s_before, sk, j, x as usize);
                                }
                            }
                        }
                    } else {
                        proof {
                            let qq = queue@;
                            let sk = skipped@;
                            assert forall|q: int| 0 <= q < qq.len() implies {
                                &&& (#[trigger] qq[q]) < n
                                &&& (depends_on(pre, qq[q] as int, task_index as int) || exists|w: int|
                                    0 <= w < sk.len() && depends_on(pre, qq[q] as int, sk[w] as int))
                            } by {
                                assert(qq[q] == q_before[q + 1]);
                            }
                            assert(sk == s_before);
                            assert(q_before[0] == j);
                            assert(!is_waiting(st1[j as int]) || sk.contains(j));
                            assert forall|x: int|
                                0 <= x < n && is_waiting(st1[x]) && depends_on(pre, x, task_index as int) implies (
                            #[trigger] sk.contains(x as usize) || qq.contains(x as usize)) by {
                                if !sk.contains(x as usize) {
                                    assert(s_before.contains(x as usize) || q_before.contains(x as usize));
                                    lemma_contains_after_pop(q_before, qq, x as usize);
                                }
                            }
                            assert forall|x: int, k: int|
                                0 <= x < n && is_waiting(st1[x]) && #[trigger] sk.contains(k as usize)
                                    && #[trigger] depends_on(pre, x, k) implies (sk.contains(x as usize)
                                || qq.contains(x as usize)) by {
                                if !sk.contains(x as usize) {
                                    assert(s_before.contains(k as usize));
                                    assert(s_before.contains(x as usize) || q_before.contains(x as usize));
                                    lemma_contains_after_pop(q_before, qq, x as usize);
                                }
                            }
                        }
                    }
                },
            }
        }
        proof {
            let st2 = self.states@;
            let sk = skipped@;
            assert forall|x: int| 0 <= x < n implies ((#[trigger] st1[x] == TaskRunState::Completed)
                == (st2[x] == TaskRunState::Completed)) by {}
            assert forall|q: int| 0 <= q < n implies (#[trigger] self.remaining@[q]) as nat
                == count_unfinished(st2, pre[q]) by {
                lemma_count_unfinished_same_completion(st1, st2, pre[q]);
            }
            assert forall|x: int| 0 <= x < n && st2[x] == TaskRunState::Ready implies #[trigger] self.ready_queue@.contains(
                x as usize,
            ) by {
                assert(st0[x] == TaskRunState::Ready);
            }
            assert forall|x: int|
                0 <= x < n && (st2[x] == TaskRunState::Ready || has_started(st2[x])) implies #[trigger] prerequisites_completed(
                st2,
                pre,
                x,
            ) by {
                assert(st0[x] == TaskRunState::Ready || has_started(st0[x]));
                assert(prerequisites_completed(st0, pre, x));
                assert forall|d: int| 0 <= d < pre[x].len() implies st2[#[trigger] pre[x][d] as int]
                    == TaskRunState::Completed by {
                    assert(st0[pre[x][d] as int] == TaskRunState::Completed);
                }
            }
            assert forall|x: int, d: int|
                0 <= x < n && is_waiting(st2[x]) && 0 <= d < pre[x].len() implies !(
            #[trigger] st2[pre[x][d] as int] == TaskRunState::Failed || st2[pre[x][d] as int]
                == TaskRunState::Skipped) by {
                let k = pre[x][d] as int;
                assert(depends_on(pre, x, k));
                assert(!sk.contains(x as usize));
                assert(is_waiting(st1[x]));
                if sk.contains(k as usize) {
                    assert(false);
                } else if k == task_index as int {
                    assert(false);
                } else {
                    assert(is_waiting(st0[x]));
                }
            }
            assert forall|x: int| 0 <= x < n && st2[x] == TaskRunState::Pending implies (
            #[trigger] self.remaining@[x]) > 0 by {
                assert(st0[x] == TaskRunState::Pending);
            }
        }
        skipped
    }
}


/// Lists, once each and ascending, the tasks that name `k` as a prerequisite.
fn dependents_in(prerequisites: &Vec<Vec<usize>>, k: usize) -> (r: Vec<usize>)
    ensures
        r@ == dependents_upto(prerequisites@.map_values(|v: Vec<usize>| v@), k as int, prerequisites@.len()),
        forall|q: int|
            0 <= q < r@.len() ==> (#[trigger] r@[q]) < prerequisites@.len() && depends_on(
                prerequisites@.map_values(|v: Vec<usize>| v@),
                r@[q] as int,
                k as int,
            ),
        forall|j: int|
            0 <= j < prerequisites@.len() && depends_on(
                prerequisites@.map_values(|v: Vec<usize>| v@),
                j,
                k as int,
            ) ==> #[trigger] r@.contains(j as usize),
{
    let ghost pre = prerequisites@.map_values(|v: Vec<usize>| v@);
    let n = prerequisites.len();
    let mut r: Vec<usize> = Vec::new();
    let mut j: usize = 0;
    while j < n
        invariant
            pre == prerequisites@.map_values(|v: Vec<usize>| v@),
            n == prerequisites@.len(),
            j <= n,
            r@ == dependents_upto(pre, k as int, j as nat),
            forall|q: int|
                0 <= q < r@.len() ==> (#[trigger] r@[q]) < j && depends_on(pre, r@[q] as int, k as int),
            forall|x: int| 0 <= x < j && depends_on(pre, x, k as int) ==> #[trigger] r@.contains(
                x as usize,
            ),
        decreases n - j,
    {
        let row = &prerequisites[j];
        assert(pre[j as int] == row@);
        let mut d: usize = 0;
        let mut found = false;
        while d < row.len()
            invariant
                d <= row@.len(),
                found == exists|e: int| 0 <= e < d && row@[e] == k,
            decreases row@.len() - d,
        {
            if row[d] == k {
                found = true;
            }
            d = d + 1;
        }
        let ghost r_before = r@;
        proof {
            if depends_on(pre, j as int, k as int) {
                let e = choose|e: int| 0 <= e < pre[j as int].len() && pre[j as int][e] as int == k as int;
                assert(row@[e] == k);
            }
        }
        if found {
            r.push(j);
        }
        proof {
            assert forall|x: int| 0 <= x < j + 1 && depends_on(pre, x, k as int) implies #[trigger] r@.contains(
                x as usize,
            ) by {
                if x < j {
                    assert(r_before.contains(x as usize));
                    let w = choose|w: int| 0 <= w < r_before.len() && r_before[w] == x as usize;
                    assert(r@[w] == x as usize);
                } else {
                    let e = choose|e: int| 0 <= e < pre[x].len() && pre[x][e] as int == k as int;
                    assert(row@[e] == k);
                    assert(r@[r_before.len() as int] == x as usize);
                }
            }
        }
        j = j + 1;
    }
    r
}

proof fn lemma_contains_after_pop(q_before: Seq<usize>, q_after: Seq<usize>, x: usize)
    requires
        q_before.len() > 0,
        q_after == q_before.subrange(1, q_before.len() as int),
        q_before.contains(x),
        q_before[0] != x,
    ensures
        q_after.contains(x),
{
    let w = choose|w: int| 0 <= w < q_before.len() && q_before[w] == x;
    assert(q_after[w - 1] == x);
}

proof fn lemma_contains_after_pop_push(
    q_before: Seq<usize>,
    q_mid: Seq<usize>,
    pushed: Seq<usize>,
    q_after: Seq<usize>,
    s_before: Seq<usize>,
    s_after: Seq<usize>,
    j: usize,
    x: usize,
)
    requires
        q_before.len() > 0,
        q_before[0] == j,
        q_mid == q_before.subrange(1, q_before.len() as int),
        q_after == q_mid + pushed,
        s_after == s_before.push(j),
        s_before.contains(x) || q_before.contains(x),
    ensures
        s_after.contains(x) || q_after.contains(x),
{
    if x == j {
        assert(s_after[s_before.len() as int] == j);
    } else if s_before.contains(x) {
        let w = choose|w: int| 0 <= w < s_before.len() && s_before[w] == x;
        assert(s_after[w] == x);
    } else {
        let w = choose|w: int| 0 <= w < q_before.len() && q_before[w] == x;
        assert(q_after[w - 1] == x);
    }
}


/// Positions below `n` whose state has no final record yet, ascending.
pub open spec fn unrecorded_positions(states: Seq<TaskRunState>, n: nat) -> Seq<usize>
    decreases n,
{
    if n == 0 {
        Seq::<usize>::empty()
    } else {
        let rest = unrecorded_positions(states, (n - 1) as nat);
        if !is_recorded(states[n - 1]) {
            rest.push((n - 1) as usize)
        } else {
            rest
        }
    }
}

impl Scheduler {
    /// After the scheduling loop, skips every task left without a record when launching
    /// stopped after a failure; returns those tasks in plan order.
    pub fn finish_remaining_skips(&mut self) -> (skipped: Vec<usize>)
        requires
            old(self).wf(),
            old(self).running_view() == 0,
        ensures
            final(self).wf(),
            final(self).prerequisites_view() == old(self).prerequisites_view(),
            final(self).failure_mode_view() == old(self).failure_mode_view(),
            final(self).capacity_view() == old(self).capacity_view(),
            final(self).stopped_view() == old(self).stopped_view(),
            final(self).running_view() == 0,
            final(self).successful_view() == old(self).successful_view(),
            final(self).queue_view() == old(self).queue_view(),
            if old(self).stopped_view() {
                &&& skipped@ == unrecorded_positions(old(self).states_view(), old(self).len_view())
                &&& forall|x: int|
                    0 <= x < old(self).len_view() ==> #[trigger] final(self).states_view()[x] == if is_recorded(
                        old(self).states_view()[x],
                    ) {
                        old(self).states_view()[x]
                    } else {
                        TaskRunState::Skipped
                    }
                &&& forall|x: int|
                    0 <= x < old(self).len_view() ==> is_recorded(#[trigger] final(self).states_view()[x])
            } else {
                &&& skipped@.len() == 0
                &&& final(self).states_view() == old(self).states_view()
            },
    {
        let mut skipped: Vec<usize> = Vec::new();
        if !self.stop_launching {
            return skipped;
        }
        let ghost st0 = self.states@;
        let ghost pre = self.prerequisites_view();
        let n = self.states.len();
        proof {
            lemma_count_state_zero(st0, TaskRunState::Running);
        }
        let mut i: usize = 0;
        while i < n
            invariant
                n == st0.len(),
                n == self.states@.len(),
                i <= n,
                st0 == old(self).states@,
                old(self).wf(),
                self.prerequisites == old(self).prerequisites,
                self.remaining == old(self).remaining,
                self.ready_queue@ == old(self).ready_queue@,
                self.max_parallel_tasks == old(self).max_parallel_tasks,
                self.failure_mode == old(self).failure_mode,
                self.stop_launching == old(self).stop_launching,
                self.running_count == old(self).running_count,
                self.successful_task_count == old(self).successful_task_count,
                self.stop_launching,
                forall|x: int| 0 <= x < n ==> #[trigger] st0[x] != TaskRunState::Running,
                forall|x: int|
                    0 <= x < i ==> #[trigger] self.states@[x] == if is_recorded(st0[x]) {
                        st0[x]
                    } else {
                        TaskRunState::Skipped
                    },
                forall|x: int| i <= x < n ==> #[trigger] self.states@[x] == st0[x],
                skipped@ == unrecorded_positions(st0, i as nat),
                count_state(self.states@, TaskRunState::Running) == count_state(st0, TaskRunState::Running),
                count_state(self.states@, TaskRunState::Completed) == count_state(st0, TaskRunState::Completed),
            decreases n - i,
        {
            let state = self.states[i];
            if !(state == TaskRunState::Completed || state == TaskRunState::Failed || state
                == TaskRunState::Skipped) {
                proof {
                    lemma_count_state_update(self.states@, i as int, TaskRunState::Skipped, TaskRunState::Running);
                    lemma_count_state_update(self.states@, i as int, TaskRunState::Skipped, TaskRunState::Completed);
                }
                self.states.set(i, TaskRunState::Skipped);
                skipped.push(i);
            }
            i = i + 1;
        }
        proof {
            let st2 = self.states@;
            assert forall|x: int| 0 <= x < n implies ((#[trigger] st0[x] == TaskRunState::Completed)
                == (st2[x] == TaskRunState::Completed)) by {}
            assert forall|q: int| 0 <= q < n implies (#[trigger] self.remaining@[q]) as nat
                == count_unfinished(st2, pre[q]) by {
                lemma_count_unfinished_same_completion(st0, st2, pre[q]);
            }
            assert forall|x: int|
                0 <= x < n && (st2[x] == TaskRunState::Ready || has_started(st2[x])) implies #[trigger] prerequisites_completed(
                st2,
                pre,
                x,
            ) by {
                assert(has_started(st0[x]));
                assert(prerequisites_completed(st0, pre, x));
                assert forall|d: int| 0 <= d < pre[x].len() implies st2[#[trigger] pre[x][d] as int]
                    == TaskRunState::Completed by {
                    assert(st0[pre[x][d] as int] == TaskRunState::Completed);
                }
            }
        }
        skipped
    }
}

impl Scheduler {
    /// Capacity law: never more tasks run at once than the plan allows.
    pub proof fn lemma_running_within_capacity(&self)
        requires
            self.wf(),
        ensures
            self.running_view() == count_state(self.states_view(), TaskRunState::Running),
            1 <= self.capacity_view(),
            self.running_view() <= self.capacity_view(),
    {
    }

    /// Every prerequisite is a planned task.
    pub proof fn lemma_prerequisites_are_planned(&self)
        requires
            self.wf(),
        ensures
            self.prerequisites_view().len() == self.len_view(),
            forall|p: int, d: int|
                0 <= p < self.len_view() && 0 <= d < self.prerequisites_view()[p].len()
                    ==> (#[trigger] self.prerequisites_view()[p][d]) < self.len_view(),
    {
    }

    /// Ordering law: a task that is ready, running or finished has every prerequisite
    /// completed.
    pub proof fn lemma_started_tasks_follow_prerequisites(&self, i: int)
        requires
            self.wf(),
            0 <= i < self.len_view(),
            self.states_view()[i] == TaskRunState::Ready || has_started(self.states_view()[i]),
        ensures
            prerequisites_completed(self.states_view(), self.prerequisites_view(), i),
    {
    }

    /// Progress law: once the scheduler is idle and launching never stopped, every planned
    /// task has a final record, provided every prerequisite comes earlier in the plan.
    pub proof fn lemma_idle_scheduler_recorded_every_task(&self, i: int)
        requires
            self.wf(),
            prerequisites_come_first(self.prerequisites_view()),
            self.running_view() == 0,
            self.queue_view().len() == 0,
            !self.stopped_view(),
            0 <= i < self.len_view(),
        ensures
            is_recorded(self.states_view()[i]),
        decreases i,
    {
        let st = self.states@;
        let pre = self.prerequisites_view();
        lemma_count_state_zero(st, TaskRunState::Running);
        assert(st[i] != TaskRunState::Running);
        if st[i] == TaskRunState::Ready {
            assert(self.ready_queue@.contains(i as usize));
        }
        if st[i] == TaskRunState::Pending {
            assert(self.remaining@[i] > 0);
            lemma_count_unfinished_zero(st, pre[i]);
            let d = choose|d: int|
                0 <= d < pre[i].len() && !(st[#[trigger] pre[i][d] as int] == TaskRunState::Completed);
            let k = pre[i][d] as int;
            assert(k < i);
            self.lemma_idle_scheduler_recorded_every_task(k);
            assert(!(st[k] == TaskRunState::Failed || st[k] == TaskRunState::Skipped));
        }
    }
}

} // verus!

verus! {

/// Lifecycle law: launching a task, completing a running task and failing a running task
/// leave every started task started and every final state as it was, so that each task
/// starts at most once and ends at most once; the tasks a failure skips had not started.
pub proof fn lemma_steps_keep_started_and_final_states(
    before: Scheduler,
    after: Scheduler,
    launched: Option<usize>,
    finished: usize,
    skipped: Seq<usize>,
)
    requires
        before.wf(),
        launch_step(before, after, launched) || (finished < before.len_view() && before.states_view()[finished as int]
            == TaskRunState::Running && (completion_step(before, after, finished) || failure_step(
            before,
            after,
            finished,
            skipped,
        ))),
    ensures
        forall|i: int|
            0 <= i < before.len_view() ==> (has_started(before.states_view()[i]) ==> has_started(
                #[trigger] after.states_view()[i],
            )) && (is_recorded(before.states_view()[i]) ==> after.states_view()[i] == before.states_view()[i]),
        failure_step(before, after, finished, skipped) ==> forall|p: int|
            0 <= p < skipped.len() ==> !has_started(before.states_view()[#[trigger] skipped[p] as int]),
{
    let st = before.states_view();
    if launch_step(before, after, launched) {
    } else if completion_step(before, after, finished) {
        assert forall|i: int| 0 <= i < before.len_view() implies (has_started(st[i]) ==> has_started(
            #[trigger] after.states_view()[i],
        )) && (is_recorded(st[i]) ==> after.states_view()[i] == st[i]) by {
            let done = st.update(finished as int, TaskRunState::Completed);
            assert(after.states_view()[i] == states_after_completion(st, before.prerequisites_view(), before.stopped_view(), finished)[i]);
        }
    }
    if failure_step(before, after, finished, skipped) {
        let failed = st.update(finished as int, TaskRunState::Failed);
        assert forall|p: int| 0 <= p < skipped.len() implies !has_started(st[#[trigger] skipped[p] as int]) by {
            if before.failure_mode_view() != FailureMode::FailEarly {
                assert(is_waiting(failed[skipped[p] as int]));
            }
        }
        if before.failure_mode_view() != FailureMode::FailEarly {
            assert forall|i: int| 0 <= i < before.len_view() implies (has_started(st[i]) ==> has_started(
                #[trigger] after.states_view()[i],
            )) && (is_recorded(st[i]) ==> after.states_view()[i] == st[i]) by {
                if skipped.contains(i as usize) {
                    let p = choose|p: int| 0 <= p < skipped.len() && skipped[p] == i as usize;
                    assert(is_waiting(failed[skipped[p] as int]));
                }
            }
        }
    }
}

} // verus!
