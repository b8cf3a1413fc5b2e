//! The decisions of an executing run, one event at a time: which task starts next, what
//! becomes of a task that finished and of the tasks its failure skips, and the record of
//! every task once no task runs any more.

use crate::planning::{lemma_planned_tasks_respect_dependencies, named_before, planned};
use crate::recipe::{Task, TaskView};
use crate::run_outcome::{
    append_task_output, is_skipped_record, joined_outputs, skipped_task_record, LogLine,
    TaskArtifactRecord,
};
use crate::run_recording::{finished_record, recorder_step, RunRecorder, TaskExecutionResult};
use crate::scheduler::{
    completion_step, failure_step, is_recorded, is_waiting, launch_step, name_index, prerequisites_come_first, resolves_prerequisites,
    unrecorded_positions, Scheduler, TaskRunState,
};
use vstd::prelude::*;

verus! {

/// Whether `entry` is a record whose status is `status`.
pub open spec fn has_status(entry: Option<TaskArtifactRecord>, status: Seq<char>) -> bool {
    entry matches Some(r) && r.status@ == status
}

/// Whether some entry of `entries` is a record whose status is `status`.
pub open spec fn some_status(entries: Seq<Option<TaskArtifactRecord>>, status: Seq<char>) -> bool {
    exists|i: int| 0 <= i < entries.len() && #[trigger] has_status(entries[i], status)
}

/// Whether a record's status is one a task can end with: completed, failed or skipped.
pub open spec fn final_status(r: TaskArtifactRecord) -> bool {
    r.status@ == "completed"@ || r.status@ == "failed"@ || r.status@ == "skipped"@
}

/// An executing run: its scheduler, the first failure recorded so far, and the record and
/// output of every task that has one.
pub struct RunProgress {
    /// Task states, ready queue and capacity.
    pub scheduler: Scheduler,
    /// The run's status and failure message.
    pub recorder: RunRecorder,
    /// The record of each task, in plan order, once the task has one.
    pub records: Vec<Option<TaskArtifactRecord>>,
    /// The framed output of each task, in plan order.
    pub outputs: Vec<String>,
    /// The names of the planned tasks, in plan order.
    pub task_names: Ghost<Seq<Seq<char>>>,
}

/// The names of `tasks`, in order.
pub open spec fn names_of(tasks: Seq<Task>) -> Seq<Seq<char>> {
    tasks.map_values(|t: Task| t.name@)
}

impl RunProgress {
    /// The scheduler and the recorder are consistent, and a task has a record exactly when
    /// the scheduler has recorded how it ended; the run has failed exactly when some record
    /// failed, and a record is skipped, or launching stopped, only after a failure; each
    /// record bears its task's name, and a completed task has a completed record.
    pub open spec fn wf(&self) -> bool {
        &&& self.scheduler.wf()
        &&& self.recorder.consistent()
        &&& self.records@.len() == self.scheduler.len_view()
        &&& self.outputs@.len() == self.scheduler.len_view()
        &&& forall|i: int|
            0 <= i < self.records@.len() ==> ((#[trigger] self.records@[i]) is Some <==> is_recorded(
                self.scheduler.states_view()[i],
            ))
        &&& (self.recorder.has_failed() <==> some_status(self.records@, "failed"@))
        &&& (some_status(self.records@, "skipped"@) ==> self.recorder.has_failed())
        &&& (self.scheduler.stopped_view() ==> self.recorder.has_failed())
        &&& forall|i: int|
            0 <= i < self.records@.len() && (#[trigger] self.records@[i]) is Some ==> final_status(
                self.records@[i]->0,
            )
        &&& self.task_names@.len() == self.scheduler.len_view()
        &&& forall|i: int|
            0 <= i < self.records@.len() && (#[trigger] self.records@[i]) is Some ==> self.records@[i]->0.name@
                == self.task_names@[i]
        &&& forall|i: int|
            0 <= i < self.records@.len() && self.scheduler.states_view()[i] == TaskRunState::Completed
                ==> has_status(#[trigger] self.records@[i], "completed"@)
    }

    /// Starts a run on a scheduler that has recorded no task yet: no record, no output and
    /// no failure.
    pub fn start(scheduler: Scheduler, tasks: &Vec<Task>) -> (p: RunProgress)
        requires
            scheduler.wf(),
            tasks@.len() == scheduler.len_view(),
            !scheduler.stopped_view(),
            forall|i: int| 0 <= i < scheduler.len_view() ==> !is_recorded(#[trigger] scheduler.states_view()[i]),
        ensures
            p.wf(),
            p.scheduler == scheduler,
            p.task_names@ == names_of(tasks@),
            p.recorder.failure_message is None,
            p.recorder.status is Completed,
            forall|i: int| 0 <= i < p.records@.len() ==> (#[trigger] p.records@[i]) is None,
            forall|i: int| 0 <= i < p.outputs@.len() ==> (#[trigger] p.outputs@[i])@.len() == 0,
    {
        let n = scheduler.len();
        let mut records: Vec<Option<TaskArtifactRecord>> = Vec::new();
        let mut outputs: Vec<String> = Vec::new();
        let mut i: usize = 0;
        while i < n
            invariant
                i <= n,
                records@.len() == i,
                outputs@.len() == i,
                forall|j: int| 0 <= j < i ==> (#[trigger] records@[j]) is None,
                forall|j: int| 0 <= j < i ==> (#[trigger] outputs@[j])@.len() == 0,
            decreases n - i,
        {
            records.push(None);
            outputs.push(String::new());
            i = i + 1;
        }
        RunProgress { scheduler, recorder: RunRecorder::new(), records, outputs, task_names: Ghost(names_of(tasks@)) }
    }

    /// The next task to launch: none once the run is cancelled, else the scheduler's choice.
    pub fn next_launch(&mut self, cancelled: bool) -> (r: Option<usize>)
        requires
            old(self).wf(),
        ensures
            final(self).wf(),
            final(self).recorder == old(self).recorder,
            final(self).records@ == old(self).records@,
            final(self).outputs@ == old(self).outputs@,
            cancelled ==> r is None && final(self).scheduler == old(self).scheduler,
            !cancelled ==> launch_step(old(self).scheduler, final(self).scheduler, r),
    {
        if cancelled {
            return None;
        }
        let r = self.scheduler.next_launch();
        proof {
            if let Some(i) = r {
                assert forall|j: int| 0 <= j < self.records@.len() implies ((#[trigger] self.records@[j]) is Some
                    <==> is_recorded(self.scheduler.states_view()[j])) by {
                    if j == i {
                        assert(old(self).scheduler.states_view()[j] == TaskRunState::Ready);
                    }
                }
            }
        }
        r
    }

    /// Records that running task `task_index` finished with `execution`, after printing
    /// `output` framed and `log_lines`: its record, the run's first failure, and the
    /// scheduler's next state. The tasks that its failure skips get their records, dated
    /// `now`; an execution error is dated `now` too. Returns whether the task failed, and
    /// the skipped tasks in the order they were skipped.
    pub fn task_finished(
        &mut self,
        tasks: &Vec<Task>,
        task_index: usize,
        output: String,
        execution: TaskExecutionResult,
        log_lines: Vec<LogLine>,
        now: u128,
        run_started_at: u128,
    ) -> (r: (bool, Vec<usize>))
        requires
            old(self).wf(),
            tasks@.len() == old(self).scheduler.len_view(),
            names_of(tasks@) == old(self).task_names@,
            task_index < tasks@.len(),
            old(self).scheduler.states_view()[task_index as int] == TaskRunState::Running,
        ensures
            final(self).wf(),
            final(self).records@[task_index as int] matches Some(record) && finished_record(
                record,
                r.0,
                tasks@[task_index as int].name@,
                execution,
                log_lines@,
                now,
            ),
            recorder_step(
                old(self).recorder,
                final(self).recorder,
                r.0,
                tasks@[task_index as int].name@,
                execution,
                log_lines@,
                old(self).scheduler.successful_view() as usize,
                now,
                run_started_at,
            ),
            if r.0 {
                failure_step(old(self).scheduler, final(self).scheduler, task_index, r.1@)
            } else {
                completion_step(old(self).scheduler, final(self).scheduler, task_index) && r.1@.len() == 0
            },
            forall|p: int|
                0 <= p < r.1@.len() ==> (final(self).records@[#[trigger] r.1@[p] as int] matches Some(s)
                    && is_skipped_record(s, tasks@[r.1@[p] as int].name@, now)),
            forall|i: int|
                0 <= i < old(self).records@.len() && i != task_index && !r.1@.contains(i as usize) ==> (
                #[trigger] final(self).records@[i]) == old(self).records@[i],
            final(self).outputs@ == old(self).outputs@.update(task_index as int, output),
            old(self).records@[task_index as int] is None,
            forall|i: int|
                0 <= i < old(self).records@.len() && (#[trigger] old(self).records@[i]) is Some
                    ==> final(self).records@[i] == old(self).records@[i],
    {
        let task_count = tasks.len();
        let ghost st0 = self.scheduler.states_view();
        let ghost records0 = self.records@;
        let successful = self.scheduler.successful_task_count();
        let (record, failed) = self.recorder.record_task_finished(
            tasks[task_index].name.as_str(),
            execution,
            log_lines,
            successful,
            now,
            run_started_at,
        );
        self.outputs.set(task_index, output);
        let skipped = if failed {
            self.scheduler.fail_task(task_index)
        } else {
            self.scheduler.complete_task(task_index);
            Vec::new()
        };
        self.records.set(task_index, Some(record));
        let ghost st1 = self.scheduler.states_view();
        let ghost records1 = self.records@;
        let ghost scheduler1 = self.scheduler;
        let ghost recorder1 = self.recorder;
        let ghost outputs1 = self.outputs@;
        let ghost n = st0.len();
        proof {
            if failed {
                if self.scheduler.failure_mode_view() == crate::recipe::FailureMode::FailEarly {
                    assert(skipped@.len() == 0);
                } else {
                    assert(skipped@.no_duplicates());
                }
            } else {
                assert(skipped@ =~= Seq::<usize>::empty());
            }
        }
        let mut p: usize = 0;
        while p < skipped.len()
            invariant
                self.scheduler == scheduler1,
                self.task_names == old(self).task_names,
                names_of(tasks@) == old(self).task_names@,
                self.recorder == recorder1,
                self.outputs@ == outputs1,
                self.scheduler.wf(),
                self.scheduler.states_view() == st1,
                st0.len() == n,
                st1.len() == n,
                records1.len() == n,
                self.records@.len() == n,
                tasks@.len() == n,
                task_index < n,
                p <= skipped@.len(),
                skipped@.no_duplicates(),
                forall|q: int| 0 <= q < skipped@.len() ==> (#[trigger] skipped@[q]) < n,
                forall|q: int| 0 <= q < skipped@.len() ==> skipped@[q] != task_index,
                forall|q: int|
                    0 <= q < p ==> (self.records@[#[trigger] skipped@[q] as int] matches Some(s)
                        && is_skipped_record(s, tasks@[skipped@[q] as int].name@, now)),
                forall|i: int|
                    0 <= i < n && !skipped@.subrange(0, p as int).contains(i as usize) ==> (
                    #[trigger] self.records@[i]) == records1[i],
            decreases skipped@.len() - p,
        {
            let k = skipped[p];
            let skip_record = skipped_task_record(&tasks[k], now);
            self.records.set(k, Some(skip_record));
            proof {
                assert forall|i: int|
                    0 <= i < n && !skipped@.subrange(0, p + 1).contains(i as usize) implies (
                    #[trigger] self.records@[i]) == records1[i] by {
                    assert(skipped@.subrange(0, p + 1)[p as int] == k);
                    if skipped@.subrange(0, p as int).contains(i as usize) {
                        let w = choose|w: int| 0 <= w < p && skipped@.subrange(0, p as int)[w] == i as usize;
                        assert(skipped@.subrange(0, p + 1)[w] == i as usize);
                    }
                }
                assert forall|q: int| 0 <= q < p + 1 implies (self.records@[#[trigger] skipped@[q] as int] matches Some(
                    s,
                ) && is_skipped_record(s, tasks@[skipped@[q] as int].name@, now)) by {
                    if q < p {
                        assert(skipped@[q] != k);
                    }
                }
            }
            p = p + 1;
        }
        proof {
            assert(skipped@.subrange(0, skipped@.len() as int) =~= skipped@);
            assert(self.scheduler.states_view() == st1);
            assert(n == task_count);
            assert forall|i: int| 0 <= i < n && skipped@.contains(i as usize) implies (#[trigger] self.records@[i]) is Some
                && is_recorded(st1[i]) by {
                let q = choose|q: int| 0 <= q < skipped@.len() && skipped@[q] == i as usize;
                assert(skipped@[q] as int == i);
                assert(self.records@[skipped@[q] as int] is Some);
                assert(failed);
                assert(st1[i] == TaskRunState::Skipped);
            }
            assert(!skipped@.contains(task_index));
            assert(self.records@[task_index as int] == records1[task_index as int]);
            assert(records1[task_index as int] is Some);
            assert(is_recorded(st1[task_index as int]));
            assert forall|i: int| 0 <= i < n && !skipped@.contains(i as usize) && i != task_index implies ((
            #[trigger] self.records@[i]) is Some <==> is_recorded(st1[i])) by {
                assert(self.records@[i] == records1[i]);
                assert(records1[i] == records0[i]);
                assert(records0[i] is Some <==> is_recorded(st0[i]));
                if failed {
                    assert(st1[i] == st0[i]);
                } else {
                    let done = st0.update(task_index as int, TaskRunState::Completed);
                    assert(done[i] == st0[i]);
                    assert(st1[i] == st0[i] || (st1[i] == TaskRunState::Ready && st0[i] == TaskRunState::Pending));
                }
            }
            reveal_strlit("failed");
            reveal_strlit("skipped");
            reveal_strlit("completed");
            let recs = self.records@;
            let rec = records1[task_index as int]->0;
            assert(rec.status@ == "failed"@ <==> failed);
            assert(rec.status@ == "failed"@ || rec.status@ == "completed"@);
            assert("completed"@[0] != "skipped"@[0]);
            assert("failed"@[0] != "skipped"@[0]);
            assert(final_status(rec));
            assert(old(self).records@[task_index as int] is None);
            assert(self.recorder.has_failed() <==> (old(self).recorder.has_failed() || failed));
            assert forall|q: int| 0 <= q < skipped@.len() implies old(self).records@[#[trigger] skipped@[q] as int]
                is None by {
                assert(is_waiting(st0.update(task_index as int, TaskRunState::Failed)[skipped@[q] as int]));
            }
            // A record that was there before the task finished is still there.
            assert forall|i: int| 0 <= i < n && (#[trigger] old(self).records@[i]) is Some implies recs[i]
                == old(self).records@[i] by {
                if skipped@.contains(i as usize) {
                    let q = choose|q: int| 0 <= q < skipped@.len() && skipped@[q] == i as usize;
                    assert(old(self).records@[skipped@[q] as int] is None);
                }
            }
            // Every record now is the finished task's, a skipped task's, or an earlier one.
            assert forall|i: int| 0 <= i < n && (#[trigger] recs[i]) is Some && i != task_index
                && !skipped@.contains(i as usize) implies recs[i] == old(self).records@[i] by {}
            if failed {
                assert(has_status(recs[task_index as int], "failed"@));
                assert(some_status(recs, "failed"@));
            }
            if some_status(old(self).records@, "failed"@) {
                let w = choose|w: int| 0 <= w < n && #[trigger] has_status(old(self).records@[w], "failed"@);
                assert(has_status(recs[w], "failed"@));
                assert(some_status(recs, "failed"@));
            }
            if some_status(recs, "failed"@) {
                let w = choose|w: int| 0 <= w < n && #[trigger] has_status(recs[w], "failed"@);
                if w != task_index && !skipped@.contains(w as usize) {
                    assert(has_status(old(self).records@[w], "failed"@));
                }
                if skipped@.contains(w as usize) {
                    let q = choose|q: int| 0 <= q < skipped@.len() && skipped@[q] == w as usize;
                    assert(recs[skipped@[q] as int]->0.status@ == "skipped"@);
                }
            }
            if some_status(recs, "skipped"@) {
                let w = choose|w: int| 0 <= w < n && #[trigger] has_status(recs[w], "skipped"@);
                if w != task_index && !skipped@.contains(w as usize) {
                    assert(has_status(old(self).records@[w], "skipped"@));
                    assert(some_status(old(self).records@, "skipped"@));
                    assert(self.recorder.has_failed());
                } else if skipped@.contains(w as usize) {
                    assert(skipped@.len() > 0);
                    assert(failed);
                } else {
                    assert(recs[w] == records1[task_index as int]);
                    assert(rec.status@ != "skipped"@);
                }
            }
            assert forall|i: int| 0 <= i < n && (#[trigger] recs[i]) is Some implies final_status(recs[i]->0) by {
                if skipped@.contains(i as usize) {
                    let q = choose|q: int| 0 <= q < skipped@.len() && skipped@[q] == i as usize;
                    assert(recs[skipped@[q] as int]->0.status@ == "skipped"@);
                } else if i != task_index {
                    assert(recs[i] == old(self).records@[i]);
                }
            }
            assert(rec.name@ == tasks@[task_index as int].name@);
            assert forall|i: int| 0 <= i < n && (#[trigger] recs[i]) is Some implies recs[i]->0.name@
                == self.task_names@[i] by {
                assert(names_of(tasks@)[i] == tasks@[i].name@);
                if skipped@.contains(i as usize) {
                    let q = choose|q: int| 0 <= q < skipped@.len() && skipped@[q] == i as usize;
                    assert(is_skipped_record(recs[skipped@[q] as int]->0, tasks@[skipped@[q] as int].name@, now));
                } else if i != task_index {
                    assert(recs[i] == old(self).records@[i]);
                }
            }
            assert forall|i: int| 0 <= i < n && st1[i] == TaskRunState::Completed implies has_status(
                #[trigger] recs[i],
                "completed"@,
            ) by {
                if skipped@.contains(i as usize) {
                    assert(st1[i] == TaskRunState::Skipped);
                } else if i == task_index {
                    assert(!failed);
                } else {
                    assert(recs[i] == records1[i]);
                    assert(records1[i] == records0[i]);
                    if failed {
                        assert(st1[i] == st0[i]);
                    } else {
                        let done = st0.update(task_index as int, TaskRunState::Completed);
                        assert(done[i] == st0[i]);
                        assert(st1[i] == st0[i] || (st1[i] == TaskRunState::Ready && st0[i] == TaskRunState::Pending));
                    }
                }
            }
            assert(self.recorder.has_failed() <==> some_status(recs, "failed"@));
            assert(some_status(recs, "skipped"@) ==> self.recorder.has_failed());
            assert(self.scheduler.stopped_view() ==> self.recorder.has_failed());
        }
        (failed, skipped)
    }

    /// Ends the run once no task runs: every task without a record (launching stopped after
    /// a failure, or the run was cancelled) is skipped at `now`. Returns those tasks in plan
    /// order, the record of every task in plan order, the tasks' outputs joined in plan
    /// order, and the recorder.
    pub fn finish(self, tasks: &Vec<Task>, now: u128) -> (r: (Vec<usize>, Vec<TaskArtifactRecord>, String, RunRecorder))
        requires
            self.wf(),
            tasks@.len() == self.scheduler.len_view(),
            names_of(tasks@) == self.task_names@,
        ensures
            forall|i: int| 0 <= i < r.1@.len() ==> (#[trigger] r.1@[i]).name@ == tasks@[i].name@,
            r.0@ == unrecorded_positions(self.scheduler.states_view(), self.scheduler.len_view()),
            r.1@.len() == self.records@.len(),
            forall|i: int|
                0 <= i < self.records@.len() ==> match self.records@[i] {
                    Some(record) => #[trigger] r.1@[i] == record,
                    None => is_skipped_record(r.1@[i], tasks@[i].name@, now),
                },
            r.2@ == joined_outputs(self.outputs@.map_values(|o: String| o@)),
            r.3 == self.recorder,
            r.3.consistent(),
            forall|i: int| 0 <= i < r.1@.len() ==> final_status(#[trigger] r.1@[i]),
            r.3.has_failed() <==> exists|i: int| 0 <= i < r.1@.len() && (#[trigger] r.1@[i]).status@ == "failed"@,
            self.scheduler.running_view() == 0 && self.scheduler.queue_view().len() == 0
                && prerequisites_come_first(self.scheduler.prerequisites_view()) ==> ((exists|i: int|
                0 <= i < r.1@.len() && (#[trigger] r.1@[i]).status@ == "skipped"@) ==> r.3.has_failed()),
            self.scheduler.running_view() == 0 ==> forall|p: int|
                0 <= p < r.0@.len() ==> is_waiting(self.scheduler.states_view()[#[trigger] r.0@[p] as int]),
    {
        let ghost states = self.scheduler.states_view();
        let ghost records0 = self.records@;
        let ghost outs = self.outputs@.map_values(|o: String| o@);
        let ghost states_stopped = self.scheduler.stopped_view();
        let ghost idle = self.scheduler.running_view() == 0 && self.scheduler.queue_view().len() == 0
            && prerequisites_come_first(self.scheduler.prerequisites_view());
        proof {
            if idle && !states_stopped {
                lemma_uninterrupted_run_skips_nothing(self);
            }
            self.scheduler.lemma_running_within_capacity();
            crate::scheduler::lemma_count_state_zero(states, TaskRunState::Running);
        }
        let RunProgress { scheduler: _, recorder, records, outputs, task_names: _ } = self;
        let n = records.len();
        let mut remaining = records;
        let mut finished: Vec<TaskArtifactRecord> = Vec::new();
        let mut skipped: Vec<usize> = Vec::new();
        let mut i: usize = 0;
        while i < n
            invariant
                n == records0.len(),
                n == states.len(),
                tasks@.len() == n,
                i <= n,
                remaining@ == records0.subrange(i as int, n as int),
                finished@.len() == i,
                forall|j: int|
                    0 <= j < i ==> match records0[j] {
                        Some(record) => #[trigger] finished@[j] == record,
                        None => is_skipped_record(finished@[j], tasks@[j].name@, now),
                    },
                skipped@ == unrecorded_positions(states, i as nat),
                forall|j: int| 0 <= j < n ==> ((#[trigger] records0[j]) is Some <==> is_recorded(states[j])),
            decreases n - i,
        {
            let entry = remaining.remove(0);
            assert(entry == records0[i as int]);
            match entry {
                Some(record) => {
                    finished.push(record);
                },
                None => {
                    finished.push(skipped_task_record(&tasks[i], now));
                    skipped.push(i);
                },
            }
            assert(remaining@ =~= records0.subrange(i + 1, n as int));
            i = i + 1;
        }
        let mut output = String::new();
        let mut k: usize = 0;
        while k < outputs.len()
            invariant
                k <= outputs@.len(),
                outs == outputs@.map_values(|o: String| o@),
                output@ == joined_outputs(outs.take(k as int)),
            decreases outputs@.len() - k,
        {
            append_task_output(&mut output, outputs[k].as_str());
            assert(outs.take(k + 1).drop_last() =~= outs.take(k as int));
            k = k + 1;
        }
        assert(outs.take(outputs@.len() as int) =~= outs);
        proof {
            lemma_unrecorded_positions_members(states, n as nat);
            reveal_strlit("failed");
            reveal_strlit("skipped");
            assert("failed"@[0] != "skipped"@[0]);
            assert forall|i: int| 0 <= i < n implies final_status(#[trigger] finished@[i]) by {
                if records0[i] is None {
                    assert(is_skipped_record(finished@[i], tasks@[i].name@, now));
                }
            }
            if recorder.has_failed() {
                let w = choose|w: int| 0 <= w < n && #[trigger] has_status(records0[w], "failed"@);
                assert(finished@[w].status@ == "failed"@);
            }
            if exists|i: int| 0 <= i < n && (#[trigger] finished@[i]).status@ == "failed"@ {
                let w = choose|w: int| 0 <= w < n && (#[trigger] finished@[w]).status@ == "failed"@;
                if records0[w] is None {
                    assert(is_skipped_record(finished@[w], tasks@[w].name@, now));
                }
                assert(has_status(records0[w], "failed"@));
            }
            if exists|i: int| 0 <= i < n && (#[trigger] finished@[i]).status@ == "skipped"@ {
                let w = choose|w: int| 0 <= w < n && (#[trigger] finished@[w]).status@ == "skipped"@;
                if records0[w] is Some {
                    assert(has_status(records0[w], "skipped"@));
                } else if idle && !states_stopped {
                    assert(records0[w] is Some);
                }
            }
        }
        (skipped, finished, output, recorder)
    }
}


/// Every listed position below `m` is one without a record.
proof fn lemma_unrecorded_positions_members(states: Seq<TaskRunState>, m: nat)
    requires
        m <= states.len(),
        m <= usize::MAX,
    ensures
        forall|p: int|
            0 <= p < unrecorded_positions(states, m).len() ==> (#[trigger] unrecorded_positions(states, m)[p]) < m
                && !is_recorded(states[unrecorded_positions(states, m)[p] as int]),
    decreases m,
{
    if m > 0 {
        lemma_unrecorded_positions_members(states, (m - 1) as nat);
        let rest = unrecorded_positions(states, (m - 1) as nat);
        assert forall|p: int| 0 <= p < unrecorded_positions(states, m).len() implies (
        #[trigger] unrecorded_positions(states, m)[p]) < m && !is_recorded(
            states[unrecorded_positions(states, m)[p] as int],
        ) by {
            if !is_recorded(states[m - 1]) {
                assert(unrecorded_positions(states, m) == rest.push((m - 1) as usize));
                if p < rest.len() {
                    assert(unrecorded_positions(states, m)[p] == rest[p]);
                } else {
                    assert(unrecorded_positions(states, m)[p] == (m - 1) as usize);
                }
            } else {
                assert(unrecorded_positions(states, m) == rest);
            }
        }
    }
}

/// No position below `m` is left without a record when every state below `m` is recorded.
proof fn lemma_no_unrecorded_positions(states: Seq<TaskRunState>, m: nat)
    requires
        m <= states.len(),
        forall|i: int| 0 <= i < m ==> is_recorded(#[trigger] states[i]),
    ensures
        unrecorded_positions(states, m).len() == 0,
    decreases m,
{
    if m > 0 {
        lemma_no_unrecorded_positions(states, (m - 1) as nat);
    }
}

/// A run whose launching never stopped skips nothing at its end: once no task runs and
/// none is queued, every planned task has its own record, provided every prerequisite
/// comes earlier in the plan.
pub proof fn lemma_uninterrupted_run_skips_nothing(progress: RunProgress)
    requires
        progress.wf(),
        prerequisites_come_first(progress.scheduler.prerequisites_view()),
        progress.scheduler.running_view() == 0,
        progress.scheduler.queue_view().len() == 0,
        !progress.scheduler.stopped_view(),
    ensures
        forall|i: int| 0 <= i < progress.records@.len() ==> (#[trigger] progress.records@[i]) is Some,
        unrecorded_positions(progress.scheduler.states_view(), progress.scheduler.len_view()).len() == 0,
{
    let states = progress.scheduler.states_view();
    assert forall|i: int| 0 <= i < progress.scheduler.len_view() implies is_recorded(#[trigger] states[i]) by {
        progress.scheduler.lemma_idle_scheduler_recorded_every_task(i);
    }
    lemma_no_unrecorded_positions(states, progress.scheduler.len_view());
}


/// In a plan without repeated names, the last task with a task's name is that task.
proof fn lemma_name_index_of_unique(tasks: Seq<TaskView>, q: int)
    requires
        0 <= q < tasks.len(),
        forall|a: int, b: int| 0 <= a < b < tasks.len() ==> (#[trigger] tasks[a]).name != (#[trigger] tasks[b]).name,
    ensures
        name_index(tasks, tasks[q].name) == q,
    decreases tasks.len(),
{
    let last = tasks.len() - 1;
    if q < last {
        assert(tasks[q].name != tasks[last].name);
        let shorter = tasks.drop_last();
        assert forall|a: int, b: int| 0 <= a < b < shorter.len() implies (#[trigger] shorter[a]).name
            != (#[trigger] shorter[b]).name by {
            assert(shorter[a] == tasks[a] && shorter[b] == tasks[b]);
        }
        lemma_name_index_of_unique(shorter, q);
        assert(shorter[q] == tasks[q]);
    }
}

/// An uninterrupted run of a planned run records every planned task: once launching never
/// stopped and no task runs or is queued, every task of the plan has its own record and
/// nothing is left to skip.
pub proof fn lemma_planned_run_records_every_task(progress: RunProgress, ts: Seq<TaskView>, args: Seq<Seq<char>>)
    requires
        progress.wf(),
        planned(ts, args) is Ok,
        resolves_prerequisites(planned(ts, args)->Ok_0.1, progress.scheduler.prerequisites_view()),
        progress.scheduler.running_view() == 0,
        progress.scheduler.queue_view().len() == 0,
        !progress.scheduler.stopped_view(),
    ensures
        forall|i: int| 0 <= i < progress.records@.len() ==> (#[trigger] progress.records@[i]) is Some,
        unrecorded_positions(progress.scheduler.states_view(), progress.scheduler.len_view()).len() == 0,
{
    let tasks = planned(ts, args)->Ok_0.1;
    let pre = progress.scheduler.prerequisites_view();
    lemma_planned_tasks_respect_dependencies(ts, args);
    assert forall|p: int, d: int| 0 <= p < pre.len() && 0 <= d < pre[p].len() implies (
    #[trigger] pre[p][d]) < p by {
        assert(named_before(tasks, p, tasks[p].dependencies[d]));
        let q = choose|q: int| 0 <= q < p && tasks[q].name == tasks[p].dependencies[d];
        lemma_name_index_of_unique(tasks, q);
    }
    lemma_uninterrupted_run_skips_nothing(progress);
}

/// Ordering and capacity law, in every state a run reaches: a task that has started had
/// every prerequisite completed, each with a completed record, and no more tasks run at
/// once than the capacity allows.
pub proof fn lemma_started_tasks_had_completed_prerequisites(progress: RunProgress, i: int)
    requires
        progress.wf(),
        0 <= i < progress.scheduler.len_view(),
        crate::scheduler::has_started(progress.scheduler.states_view()[i]),
    ensures
        forall|d: int|
            0 <= d < progress.scheduler.prerequisites_view()[i].len() ==> {
                let k = #[trigger] progress.scheduler.prerequisites_view()[i][d] as int;
                &&& progress.scheduler.states_view()[k] == TaskRunState::Completed
                &&& has_status(progress.records@[k], "completed"@)
            },
        progress.scheduler.running_view() <= progress.scheduler.capacity_view(),
{
    progress.scheduler.lemma_started_tasks_follow_prerequisites(i);
    progress.scheduler.lemma_prerequisites_are_planned();
    progress.scheduler.lemma_running_within_capacity();
    assert forall|d: int| 0 <= d < progress.scheduler.prerequisites_view()[i].len() implies {
        let k = #[trigger] progress.scheduler.prerequisites_view()[i][d] as int;
        &&& progress.scheduler.states_view()[k] == TaskRunState::Completed
        &&& has_status(progress.records@[k], "completed"@)
    } by {
        let k = progress.scheduler.prerequisites_view()[i][d] as int;
        assert(progress.scheduler.states_view()[k] == TaskRunState::Completed);
        assert(has_status(progress.records@[k], "completed"@));
    }
}

} // verus!
