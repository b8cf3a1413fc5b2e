//! The launcher of the terminal UI: the goal tasks picked for the next run, which tasks a
//! run starts with, and what starting or restarting a run does.

use crate::ci_output::{chars_less, chars_lt, lemma_chars_lt_irreflexive, lemma_chars_lt_total, lemma_chars_lt_transitive};
use crate::text::str_equals;
use vstd::prelude::*;
use vstd::string::*;

verus! {

/// Whether names are in strictly increasing order, so that none occurs twice.
pub open spec fn strictly_sorted(names: Seq<Seq<char>>) -> bool {
    forall|i: int, j: int| 0 <= i < j < names.len() ==> chars_lt(#[trigger] names[i], #[trigger] names[j])
}

/// A set of names kept in name order without repetition, such as the goal tasks picked
/// in the launcher.
#[derive(Debug)]
pub struct NameSet {
    names: Vec<String>,
}

impl View for NameSet {
    type V = Seq<Seq<char>>;

    closed spec fn view(&self) -> Seq<Seq<char>> {
        self.names@.map_values(|s: String| s@)
    }
}

/// `names` with `name` added, when it was not there, or removed, when it was.
pub open spec fn toggled(names: Set<Seq<char>>, name: Seq<char>) -> Set<Seq<char>> {
    if names.contains(name) {
        names.remove(name)
    } else {
        names.insert(name)
    }
}

impl NameSet {
    /// The picked names are in strictly increasing order.
    pub open spec fn wf(&self) -> bool {
        strictly_sorted(self@)
    }

    /// The empty set.
    pub fn new() -> (s: NameSet)
        ensures
            s@ == Seq::<Seq<char>>::empty(),
            s.wf(),
    {
        let s = NameSet { names: Vec::new() };
        assert(s@ =~= Seq::<Seq<char>>::empty());
        s
    }

    /// Whether the set is empty.
    pub fn is_empty(&self) -> (b: bool)
        ensures
            b == (self@.len() == 0),
    {
        self.names.len() == 0
    }

    /// Whether `name` is in the set.
    pub fn contains(&self, name: &str) -> (b: bool)
        ensures
            b == self@.contains(name@),
    {
        let mut i: usize = 0;
        while i < self.names.len()
            invariant
                i <= self.names@.len(),
                self@ == self.names@.map_values(|s: String| s@),
                forall|k: int| 0 <= k < i ==> self@[k] != name@,
            decreases self.names@.len() - i,
        {
            if str_equals(self.names[i].as_str(), name) {
                assert(self@[i as int] == name@);
                return true;
            }
            i = i + 1;
        }
        false
    }

    /// The names, in name order.
    pub fn names(&self) -> (names: Vec<String>)
        ensures
            names@.map_values(|s: String| s@) == self@,
    {
        let mut out: Vec<String> = Vec::new();
        let mut i: usize = 0;
        while i < self.names.len()
            invariant
                i <= self.names@.len(),
                self@ == self.names@.map_values(|s: String| s@),
                out@.map_values(|s: String| s@) == self@.take(i as int),
            decreases self.names@.len() - i,
        {
            let ghost before = out@.map_values(|s: String| s@);
            let name = self.names[i].clone();
            out.push(name);
            assert(out@.map_values(|s: String| s@) =~= before.push(self@[i as int]));
            assert(self@.take(i + 1) =~= self@.take(i as int).push(self@[i as int]));
            i = i + 1;
        }
        assert(self@.take(self@.len() as int) =~= self@);
        out
    }

    /// Adds `name` when it is not in the set, and removes it when it is.
    pub fn toggle(&mut self, name: &str)
        requires
            old(self).wf(),
        ensures
            final(self).wf(),
            final(self)@.to_set() == toggled(old(self)@.to_set(), name@),
    {
        let ghost old_view = self@;
        let n = self.names.len();
        let mut pos: usize = 0;
        while pos < n && chars_less(self.names[pos].as_str(), name)
            invariant
                n == self.names@.len(),
                pos <= n,
                self@ == old_view,
                self@ == self.names@.map_values(|s: String| s@),
                strictly_sorted(self@),
                forall|k: int| 0 <= k < pos ==> chars_lt(#[trigger] self@[k], name@),
            decreases n - pos,
        {
            pos = pos + 1;
        }
        let ghost v = old_view;
        proof {
            if pos < n {
                assert(!chars_lt(v[pos as int], name@));
            }
        }
        if pos < n && str_equals(self.names[pos].as_str(), name) {
            self.names.remove(pos);
            proof {
                assert(self@ =~= v.subrange(0, pos as int) + v.subrange(pos + 1, n as int));
                assert forall|x: Seq<char>| self@.to_set().contains(x) <==> v.to_set().remove(name@).contains(x) by {
                    if v.to_set().remove(name@).contains(x) {
                        let w = choose|w: int| 0 <= w < v.len() && v[w] == x;
                        if w < pos {
                            assert(self@[w] == x);
                        } else if w > pos {
                            assert(self@[w - 1] == x);
                        }
                    }
                    if self@.to_set().contains(x) {
                        let w = choose|w: int| 0 <= w < self@.len() && self@[w] == x;
                        if w < pos {
                            assert(v[w] == x);
                            lemma_chars_lt_irreflexive(x);
                        } else {
                            assert(v[w + 1] == x);
                            if x == name@ {
                                assert(chars_lt(v[pos as int], v[w + 1]));
                                lemma_chars_lt_irreflexive(x);
                            }
                        }
                    }
                }
                assert(v.to_set().contains(name@)) by {
                    assert(v[pos as int] == name@);
                }
                assert(self@.to_set() =~= toggled(v.to_set(), name@));
            }
        } else {
            self.names.insert(pos, name.to_string());
            proof {
                assert(self@ =~= v.subrange(0, pos as int).push(name@) + v.subrange(pos as int, n as int));
                if pos < n {
                    lemma_chars_lt_total(v[pos as int], name@);
                    assert(chars_lt(name@, v[pos as int]));
                }
                assert forall|i: int, j: int| 0 <= i < j < self@.len() implies chars_lt(#[trigger] self@[i], #[trigger] self@[j]) by {
                    if i < pos && j < pos {
                        assert(self@[i] == v[i] && self@[j] == v[j]);
                    } else if i < pos && j == pos {
                        assert(self@[i] == v[i]);
                    } else if i < pos && j > pos {
                        assert(self@[i] == v[i] && self@[j] == v[j - 1]);
                    } else if i == pos {
                        assert(self@[j] == v[j - 1]);
                        if j - 1 > pos {
                            lemma_chars_lt_transitive(name@, v[pos as int], v[j - 1]);
                        }
                    } else {
                        assert(self@[i] == v[i - 1] && self@[j] == v[j - 1]);
                    }
                }
                assert(!v.to_set().contains(name@)) by {
                    if v.to_set().contains(name@) {
                        let w = choose|w: int| 0 <= w < v.len() && v[w] == name@;
                        if w < pos {
                            lemma_chars_lt_irreflexive(name@);
                        } else if w == pos {
                        } else {
                            assert(chars_lt(v[pos as int], v[w]));
                            lemma_chars_lt_transitive(name@, v[pos as int], v[w]);
                            lemma_chars_lt_irreflexive(name@);
                        }
                    }
                }
                assert forall|x: Seq<char>| self@.to_set().contains(x) <==> v.to_set().insert(name@).contains(x) by {
                    if v.to_set().insert(name@).contains(x) {
                        if x == name@ {
                            assert(self@[pos as int] == x);
                        } else {
                            let w = choose|w: int| 0 <= w < v.len() && v[w] == x;
                            if w < pos {
                                assert(self@[w] == x);
                            } else {
                                assert(self@[w + 1] == x);
                            }
                        }
                    }
                    if self@.to_set().contains(x) {
                        let w = choose|w: int| 0 <= w < self@.len() && self@[w] == x;
                        if w < pos {
                            assert(v[w] == x);
                        } else if w > pos {
                            assert(v[w - 1] == x);
                        }
                    }
                }
                assert(self@.to_set() =~= toggled(v.to_set(), name@));
            }
        }
    }

    /// Adds `name` to the set.
    pub fn insert(&mut self, name: &str)
        requires
            old(self).wf(),
        ensures
            final(self).wf(),
            final(self)@.to_set() == old(self)@.to_set().insert(name@),
    {
        if !self.contains(name) {
            self.toggle(name);
        } else {
            assert(self@.to_set().insert(name@) =~= self@.to_set());
        }
    }
}

/// Two names-in-order sequences with the same names are the same sequence.
pub proof fn lemma_strictly_sorted_unique(a: Seq<Seq<char>>, b: Seq<Seq<char>>)
    requires
        strictly_sorted(a),
        strictly_sorted(b),
        a.to_set() == b.to_set(),
    ensures
        a == b,
    decreases a.len(),
{
    if a.len() == 0 {
        if b.len() > 0 {
            assert(b.to_set().contains(b[0]));
        }
        assert(b.len() == 0);
        assert(a =~= b);
    } else {
        assert(a.to_set().contains(a[0]));
        assert(b.len() > 0);
        assert(b.to_set().contains(b[0]));
        if a[0] != b[0] {
            let k = choose|k: int| 0 <= k < b.len() && b[k] == a[0];
            let j = choose|j: int| 0 <= j < a.len() && a[j] == b[0];
            assert(k > 0 && j > 0);
            assert(chars_lt(b[0], b[k]));
            assert(chars_lt(a[0], a[j]));
            lemma_chars_lt_transitive(a[0], b[0], a[0]);
            lemma_chars_lt_irreflexive(a[0]);
        }
        let ra = a.drop_first();
        let rb = b.drop_first();
        assert(strictly_sorted(ra)) by {
            assert forall|i: int, j: int| 0 <= i < j < ra.len() implies chars_lt(#[trigger] ra[i], #[trigger] ra[j]) by {
                assert(ra[i] == a[i + 1] && ra[j] == a[j + 1]);
            }
        }
        assert(strictly_sorted(rb)) by {
            assert forall|i: int, j: int| 0 <= i < j < rb.len() implies chars_lt(#[trigger] rb[i], #[trigger] rb[j]) by {
                assert(rb[i] == b[i + 1] && rb[j] == b[j + 1]);
            }
        }
        assert forall|x: Seq<char>| ra.to_set().contains(x) <==> rb.to_set().contains(x) by {
            if ra.to_set().contains(x) {
                let w = choose|w: int| 0 <= w < ra.len() && ra[w] == x;
                assert(a[w + 1] == x);
                assert(chars_lt(a[0], x));
                assert(b.to_set().contains(x));
                let v = choose|v: int| 0 <= v < b.len() && b[v] == x;
                if v == 0 {
                    lemma_chars_lt_irreflexive(x);
                }
                assert(rb[v - 1] == x);
            }
            if rb.to_set().contains(x) {
                let w = choose|w: int| 0 <= w < rb.len() && rb[w] == x;
                assert(b[w + 1] == x);
                assert(chars_lt(b[0], x));
                assert(a.to_set().contains(x));
                let v = choose|v: int| 0 <= v < a.len() && a[v] == x;
                if v == 0 {
                    lemma_chars_lt_irreflexive(x);
                }
                assert(ra[v - 1] == x);
            }
        }
        assert(ra.to_set() =~= rb.to_set());
        lemma_strictly_sorted_unique(ra, rb);
        assert(a =~= seq![a[0]] + ra);
        assert(b =~= seq![b[0]] + rb);
    }
}

/// Picking a name and then unpicking it, or unpicking and then picking it again, leaves
/// the picked names as they were.
pub proof fn lemma_toggle_twice_restores(
    before: Seq<Seq<char>>,
    between: Seq<Seq<char>>,
    after: Seq<Seq<char>>,
    name: Seq<char>,
)
    requires
        strictly_sorted(before),
        strictly_sorted(after),
        between.to_set() == toggled(before.to_set(), name),
        after.to_set() == toggled(between.to_set(), name),
    ensures
        after == before,
{
    assert(after.to_set() =~= before.to_set());
    lemma_strictly_sorted_unique(after, before);
}

/// The goal tasks of the next launcher run: the picked ones, in name order, or else the
/// selected task, if there is one.
pub open spec fn launcher_goals(picked: Seq<Seq<char>>, tasks: Seq<Seq<char>>, selected: usize) -> Seq<Seq<char>> {
    if picked.len() > 0 {
        picked
    } else if selected < tasks.len() {
        seq![tasks[selected as int]]
    } else {
        Seq::empty()
    }
}

/// Returns the goal tasks of the next launcher run.
pub fn launcher_goal_tasks(picked: &NameSet, task_names: &Vec<String>, selected_task_index: usize) -> (goals:
    Vec<String>)
    ensures
        goals@.map_values(|s: String| s@) == launcher_goals(
            picked@,
            task_names@.map_values(|s: String| s@),
            selected_task_index,
        ),
{
    if !picked.is_empty() {
        return picked.names();
    }
    let mut goals: Vec<String> = Vec::new();
    if selected_task_index < task_names.len() {
        goals.push(task_names[selected_task_index].clone());
        assert(goals@.map_values(|s: String| s@) =~= seq![task_names@[selected_task_index as int]@]);
    } else {
        assert(goals@.map_values(|s: String| s@) =~= Seq::<Seq<char>>::empty());
    }
    goals
}

/// Why a launcher run does not start.
pub open spec fn start_refusal(run_active: bool, goal_count: nat) -> Option<Seq<char>> {
    if run_active {
        Some("a run is already active"@)
    } else if goal_count == 0 {
        Some("no task is available to run"@)
    } else {
        None
    }
}

/// The status message that keeps a launcher run from starting, if any: one run at a
/// time, and at least one goal task.
pub fn start_run_refusal(run_active: bool, goal_count: usize) -> (m: Option<&'static str>)
    ensures
        match m {
            Some(text) => start_refusal(run_active, goal_count as nat) == Some(text@),
            None => start_refusal(run_active, goal_count as nat) is None,
        },
{
    if run_active {
        Some("a run is already active")
    } else if goal_count == 0 {
        Some("no task is available to run")
    } else {
        None
    }
}

/// What a restart request does.
#[derive(Debug, Clone, Copy, PartialEq, Eq, Structural)]
pub enum RestartDecision {
    /// Cancel the active run and start its goal tasks again once it has stopped.
    CancelActiveRun,
    /// Start the goal tasks of the last run again.
    RestartLastRun,
    /// There is no run to restart.
    NothingToRestart,
}

/// What a restart request does, and the status message it shows.
pub open spec fn restart_outcome(run_active: bool, last_goal_count: nat) -> (RestartDecision, Seq<char>) {
    if run_active {
        (RestartDecision::CancelActiveRun, "restart requested"@)
    } else if last_goal_count > 0 {
        (RestartDecision::RestartLastRun, "run restarted"@)
    } else {
        (RestartDecision::NothingToRestart, "no run is available to restart"@)
    }
}

/// Decides what a restart request does: an active run is cancelled and restarted, else
/// the last run's goal tasks start again, else nothing can be restarted.
pub fn restart_decision(run_active: bool, last_goal_count: usize) -> (r: (RestartDecision, &'static str))
    ensures
        (r.0, r.1@) == restart_outcome(run_active, last_goal_count as nat),
{
    if run_active {
        (RestartDecision::CancelActiveRun, "restart requested")
    } else if last_goal_count > 0 {
        (RestartDecision::RestartLastRun, "run restarted")
    } else {
        (RestartDecision::NothingToRestart, "no run is available to restart")
    }
}

/// Whether the launcher shows a failed task's output: the open run failed and a failed
/// task is known.
pub fn show_launcher_failure_output(open_run_result: Option<&str>, failed_task_known: bool) -> (b: bool)
    ensures
        b == (match open_run_result {
            Some(result) => result@ == "failed"@ && failed_task_known,
            None => false,
        }),
{
    match open_run_result {
        Some(result) => str_equals(result, "failed") && failed_task_known,
        None => false,
    }
}

} // verus!
