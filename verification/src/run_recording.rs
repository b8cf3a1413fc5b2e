//! What a run records when one of its tasks finishes: the task's artifact record and,
//! for the first failing task, the run's failure status and message.

use crate::run_outcome::{
    extract_task_outcome_message, line_texts, render_task_execution_error_message,
    render_task_failure_message, reported_outcome, task_count_text, task_elapsed_nanos,
    task_error_text, task_failure_text, task_output_omitted_line_count, task_output_tail_lines,
    LogLine, RunStatus, TaskArtifactRecord, TaskFailure, OUTPUT_TAIL_LINES,
};
use crate::artifacts::{sanitized, task_log_file_name};
use crate::file_path::{spec_join, FilePath};
use crate::planning::PlannedRun;
use crate::recipe::{opt_view, TaskName};
use crate::run_outcome::{goal_outcome, goal_outcome_message, record_duration_nanos, RunExecutionResult, RunTaskResult};
use vstd::prelude::*;
use vstd::string::*;

verus! {

/// What running a task's process produced.
#[derive(Debug, Clone, Copy, PartialEq, Eq, Structural)]
pub struct ProcessResult {
    /// The process exit code, when the process reported one.
    pub exit_code: Option<i32>,
    /// Monotonic time the process started, in nanoseconds.
    pub started_at: u128,
    /// Monotonic time the process finished, in nanoseconds.
    pub finished_at: u128,
}

/// How one task's execution ended.
#[derive(Debug)]
pub enum TaskExecutionResult {
    /// The task's process ran and exited.
    Exited(ProcessResult),
    /// The task's process could not be run; the error's text.
    Error(String),
}

/// Whether an exit code marks a failed task: any code but zero, or none at all.
pub open spec fn exit_failed(exit_code: Option<i32>) -> bool {
    match exit_code {
        Some(code) => code != 0,
        None => true,
    }
}

/// Whether a task whose process exited with `exit_code` failed.
pub fn task_exit_failed(exit_code: Option<i32>) -> (failed: bool)
    ensures
        failed == exit_failed(exit_code),
{
    match exit_code {
        Some(code) => code != 0,
        None => true,
    }
}

/// The exit code a failure reports: the process's own, or -1 when it reported none.
pub open spec fn reported_exit_code(exit_code: Option<i32>) -> int {
    match exit_code {
        Some(code) => code as int,
        None => -1,
    }
}

/// Elapsed nanoseconds from `from` to `to`, or zero when `to` is earlier.
pub open spec fn elapsed_between(from: u128, to: u128) -> nat {
    if to >= from {
        (to - from) as nat
    } else {
        0
    }
}

/// The number of leading output lines left out of a failure's tail.
pub open spec fn omitted_count(n: nat) -> nat {
    if n > OUTPUT_TAIL_LINES {
        (n - OUTPUT_TAIL_LINES) as nat
    } else {
        0
    }
}

/// Whether `failure` describes task `name` failing with `exit_code` after `elapsed`
/// nanoseconds, with `successful` tasks completed before it and `log_lines` as its output.
pub open spec fn describes_failure(
    failure: TaskFailure,
    name: Seq<char>,
    exit_code: int,
    elapsed: nat,
    successful: usize,
    log_lines: Seq<LogLine>,
) -> bool {
    &&& failure.task_name@ == name
    &&& failure.exit_code == exit_code
    &&& failure.elapsed_nanos == elapsed
    &&& failure.successful_task_count == successful
    &&& failure.omitted_output_line_count == omitted_count(log_lines.len())
    &&& failure.output_tail_lines@.map_values(|s: String| s@) == line_texts(log_lines).subrange(
        omitted_count(log_lines.len()) as int,
        log_lines.len() as int,
    )
}

/// The failure of a task whose process exited unsuccessfully.
pub fn exit_failure(
    task_name: &str,
    result: &ProcessResult,
    successful_task_count: usize,
    log_lines: &Vec<LogLine>,
) -> (failure: TaskFailure)
    ensures
        describes_failure(
            failure,
            task_name@,
            reported_exit_code(result.exit_code),
            elapsed_between(result.started_at, result.finished_at),
            successful_task_count,
            log_lines@,
        ),
{
    let exit_code: i32 = match result.exit_code {
        Some(code) => code,
        None => -1,
    };
    TaskFailure {
        task_name: task_name.to_string(),
        exit_code,
        elapsed_nanos: task_elapsed_nanos(result.started_at, result.finished_at),
        successful_task_count,
        omitted_output_line_count: task_output_omitted_line_count(log_lines),
        output_tail_lines: task_output_tail_lines(log_lines),
    }
}

/// The failure of a task whose process could not be run, `elapsed_nanos` into the run.
pub fn execution_error_failure(
    task_name: &str,
    elapsed_nanos: u128,
    successful_task_count: usize,
    log_lines: &Vec<LogLine>,
) -> (failure: TaskFailure)
    ensures
        describes_failure(failure, task_name@, -1, elapsed_nanos as nat, successful_task_count, log_lines@),
{
    TaskFailure {
        task_name: task_name.to_string(),
        exit_code: -1,
        elapsed_nanos,
        successful_task_count,
        omitted_output_line_count: task_output_omitted_line_count(log_lines),
        output_tail_lines: task_output_tail_lines(log_lines),
    }
}

/// The record of a task whose process exited: `completed` and `success` on exit code
/// zero, `failed` otherwise, with the process times, exit code and reported outcome.
pub fn exited_task_record(task_name: &str, result: &ProcessResult, log_lines: Vec<LogLine>) -> (r:
    TaskArtifactRecord)
    ensures
        r.name@ == task_name@,
        r.status@ == (if exit_failed(result.exit_code) {
            "failed"@
        } else {
            "completed"@
        }),
        r.result@ == (if exit_failed(result.exit_code) {
            "failed"@
        } else {
            "success"@
        }),
        r.started_at == Some(result.started_at),
        r.finished_at == Some(result.finished_at),
        r.exit_code == result.exit_code,
        opt_view(r.outcome_message) == reported_outcome(line_texts(log_lines@)),
        r.log_lines@ == log_lines@,
{
    let outcome_message = extract_task_outcome_message(&log_lines);
    let failed = task_exit_failed(result.exit_code);
    let status = if failed {
        String::from_str("failed")
    } else {
        String::from_str("completed")
    };
    let result_name = if failed {
        String::from_str("failed")
    } else {
        String::from_str("success")
    };
    TaskArtifactRecord {
        name: task_name.to_string(),
        status,
        result: result_name,
        started_at: Some(result.started_at),
        finished_at: Some(result.finished_at),
        exit_code: result.exit_code,
        outcome_message,
        log_lines,
    }
}

/// The record of a task whose process could not be run, noted as failed at `failed_at`.
pub fn errored_task_record(task_name: &str, failed_at: u128, log_lines: Vec<LogLine>) -> (r:
    TaskArtifactRecord)
    ensures
        r.name@ == task_name@,
        r.status@ == "failed"@,
        r.result@ == "failed"@,
        r.started_at is None,
        r.finished_at == Some(failed_at),
        r.exit_code is None,
        opt_view(r.outcome_message) == reported_outcome(line_texts(log_lines@)),
        r.log_lines@ == log_lines@,
{
    let outcome_message = extract_task_outcome_message(&log_lines);
    TaskArtifactRecord {
        name: task_name.to_string(),
        status: String::from_str("failed"),
        result: String::from_str("failed"),
        started_at: None,
        finished_at: Some(failed_at),
        exit_code: None,
        outcome_message,
        log_lines,
    }
}

/// The run-level outcome gathered while tasks finish: the status and the failure message
/// of the first task that failed.
#[derive(Debug)]
pub struct RunRecorder {
    /// Message describing the first task failure, if any task failed.
    pub failure_message: Option<String>,
    /// The run's status: `Failed` with the first task failure, if any.
    pub status: RunStatus,
}

/// Whether `r` is the record of task `task_name` whose execution ended with `execution`
/// and printed `log_lines`, and `failed` whether that execution failed; an execution
/// error is dated `now`.
pub open spec fn finished_record(
    r: TaskArtifactRecord,
    failed: bool,
    task_name: Seq<char>,
    execution: TaskExecutionResult,
    log_lines: Seq<LogLine>,
    now: u128,
) -> bool {
    &&& r.name@ == task_name
    &&& r.log_lines@ == log_lines
    &&& opt_view(r.outcome_message) == reported_outcome(line_texts(log_lines))
    &&& failed == (r.status@ == "failed"@)
    &&& match execution {
        TaskExecutionResult::Exited(result) => {
            &&& failed == exit_failed(result.exit_code)
            &&& r.status@ == (if failed {
                "failed"@
            } else {
                "completed"@
            })
            &&& r.result@ == (if failed {
                "failed"@
            } else {
                "success"@
            })
            &&& r.started_at == Some(result.started_at)
            &&& r.finished_at == Some(result.finished_at)
            &&& r.exit_code == result.exit_code
        },
        TaskExecutionResult::Error(_) => {
            &&& failed
            &&& r.status@ == "failed"@
            &&& r.result@ == "failed"@
            &&& r.started_at is None
            &&& r.finished_at == Some(now)
            &&& r.exit_code is None
        },
    }
}

/// Whether `after` is the recorder `before` once task `task_name` finished with
/// `execution`, `failed` telling whether it failed: the first failure of a run is kept,
/// with `successful_task_count` tasks completed before it; an execution error is dated
/// `now`, relative to `run_started_at`.
pub open spec fn recorder_step(
    before: RunRecorder,
    after: RunRecorder,
    failed: bool,
    task_name: Seq<char>,
    execution: TaskExecutionResult,
    log_lines: Seq<LogLine>,
    successful_task_count: usize,
    now: u128,
    run_started_at: u128,
) -> bool {
    &&& (before.consistent() ==> after.consistent())
    &&& match execution {
        TaskExecutionResult::Exited(result) => {
            &&& (!failed ==> after == before)
            &&& (failed && before.has_failed() ==> after == before)
            &&& (failed && !before.has_failed() ==> {
                &&& after.status matches RunStatus::Failed(f)
                &&& describes_failure(
                    f,
                    task_name,
                    reported_exit_code(result.exit_code),
                    elapsed_between(result.started_at, result.finished_at),
                    successful_task_count,
                    log_lines,
                )
                &&& after.failure_message matches Some(m)
                &&& m@ == task_failure_text(
                    task_name,
                    f.exit_code as int,
                    f.elapsed_nanos as nat,
                    successful_task_count as nat,
                )
            })
        },
        TaskExecutionResult::Error(error) => {
            &&& (before.has_failed() ==> after == before)
            &&& (!before.has_failed() ==> {
                &&& after.status matches RunStatus::Failed(f)
                &&& describes_failure(
                    f,
                    task_name,
                    -1,
                    elapsed_between(run_started_at, now),
                    successful_task_count,
                    log_lines,
                )
                &&& after.failure_message matches Some(m)
                &&& m@ == task_error_text(
                    task_name,
                    elapsed_between(run_started_at, now),
                    successful_task_count as nat,
                    error@,
                )
            })
        },
    }
}

impl RunRecorder {
    /// Whether a failure message is present exactly when the run has failed.
    pub open spec fn consistent(&self) -> bool {
        self.failure_message is Some <==> self.status is Failed
    }

    /// Whether a task failure has been recorded.
    pub open spec fn has_failed(&self) -> bool {
        self.failure_message is Some
    }

    /// A recorder for a run in which nothing has failed yet.
    pub fn new() -> (r: RunRecorder)
        ensures
            r.failure_message is None,
            r.status is Completed,
            r.consistent(),
    {
        RunRecorder { failure_message: None, status: RunStatus::Completed }
    }

    /// Records a task whose process exited unsuccessfully; only the first failure of a
    /// run is kept.
    pub fn record_exit_failure(
        &mut self,
        task_name: &str,
        result: &ProcessResult,
        successful_task_count: usize,
        log_lines: &Vec<LogLine>,
    )
        ensures
            old(self).has_failed() ==> *final(self) == *old(self),
            !old(self).has_failed() ==> {
                &&& final(self).status matches RunStatus::Failed(f)
                &&& describes_failure(
                    f,
                    task_name@,
                    reported_exit_code(result.exit_code),
                    elapsed_between(result.started_at, result.finished_at),
                    successful_task_count,
                    log_lines@,
                )
                &&& final(self).failure_message matches Some(m)
                &&& m@ == task_failure_text(
                    task_name@,
                    f.exit_code as int,
                    f.elapsed_nanos as nat,
                    successful_task_count as nat,
                )
            },
            old(self).consistent() ==> final(self).consistent(),
    {
        if self.failure_message.is_some() {
            return;
        }
        let failure = exit_failure(task_name, result, successful_task_count, log_lines);
        let message = render_task_failure_message(&failure);
        self.failure_message = Some(message);
        self.status = RunStatus::Failed(failure);
    }

    /// Records a task whose process could not be run, `elapsed_nanos` into the run;
    /// only the first failure of a run is kept.
    pub fn record_execution_error(
        &mut self,
        task_name: &str,
        elapsed_nanos: u128,
        successful_task_count: usize,
        error: &str,
        log_lines: &Vec<LogLine>,
    )
        ensures
            old(self).has_failed() ==> *final(self) == *old(self),
            !old(self).has_failed() ==> {
                &&& final(self).status matches RunStatus::Failed(f)
                &&& describes_failure(
                    f,
                    task_name@,
                    -1,
                    elapsed_nanos as nat,
                    successful_task_count,
                    log_lines@,
                )
                &&& final(self).failure_message matches Some(m)
                &&& m@ == task_error_text(
                    task_name@,
                    elapsed_nanos as nat,
                    successful_task_count as nat,
                    error@,
                )
            },
            old(self).consistent() ==> final(self).consistent(),
    {
        if self.failure_message.is_some() {
            return;
        }
        let failure = execution_error_failure(task_name, elapsed_nanos, successful_task_count, log_lines);
        let message = render_task_execution_error_message(
            task_name,
            elapsed_nanos,
            successful_task_count,
            error,
        );
        self.failure_message = Some(message);
        self.status = RunStatus::Failed(failure);
    }

    /// Records how one task's execution ended and returns the task's record together
    /// with whether the task failed. An execution error is noted at `now`, which also
    /// dates the failure relative to `run_started_at`.
    pub fn record_task_finished(
        &mut self,
        task_name: &str,
        execution: TaskExecutionResult,
        log_lines: Vec<LogLine>,
        successful_task_count: usize,
        now: u128,
        run_started_at: u128,
    ) -> (r: (TaskArtifactRecord, bool))
        ensures
            finished_record(r.0, r.1, task_name@, execution, log_lines@, now),
            recorder_step(
                *old(self),
                *final(self),
                r.1,
                task_name@,
                execution,
                log_lines@,
                successful_task_count,
                now,
                run_started_at,
            ),
            old(self).consistent() ==> final(self).consistent(),
    {
        proof {
            reveal_strlit("failed");
            reveal_strlit("completed");
            assert("completed"@.len() != "failed"@.len());
        }
        match execution {
            TaskExecutionResult::Exited(result) => {
                let failed = task_exit_failed(result.exit_code);
                if failed {
                    self.record_exit_failure(task_name, &result, successful_task_count, &log_lines);
                }
                let record = exited_task_record(task_name, &result, log_lines);
                (record, failed)
            },
            TaskExecutionResult::Error(error) => {
                let elapsed = task_elapsed_nanos(run_started_at, now);
                self.record_execution_error(
                    task_name,
                    elapsed,
                    successful_task_count,
                    error.as_str(),
                    &log_lines,
                );
                let record = errored_task_record(task_name, now, log_lines);
                (record, true)
            },
        }
    }
}

/// The overall result of a run with this status.
pub open spec fn overall_text(status: RunStatus) -> Seq<char> {
    match status {
        RunStatus::Failed(_) => "failed"@,
        RunStatus::Completed => "completed"@,
    }
}

/// The overall result a run records: `failed` when a task failed, else `completed`.
pub fn overall_result(status: &RunStatus) -> (s: &'static str)
    ensures
        s@ == overall_text(*status),
{
    match status {
        RunStatus::Failed(_) => "failed",
        RunStatus::Completed => "completed",
    }
}

/// The run time of a task that started and finished.
pub open spec fn record_duration(started_at: Option<u128>, finished_at: Option<u128>) -> Option<u128> {
    match (started_at, finished_at) {
        (Some(s), Some(f)) => Some(if f >= s { (f - s) as u128 } else { 0 }),
        _ => None,
    }
}

/// The result a run reports for one of its task records, with the path of its log file
/// in the run directory.
pub fn run_task_result(record: &TaskArtifactRecord, run_directory: &FilePath) -> (r: RunTaskResult)
    ensures
        r.name@ == record.name@,
        r.status@ == record.status@,
        r.result@ == record.result@,
        r.exit_code == record.exit_code,
        r.duration_nanos == record_duration(record.started_at, record.finished_at),
        opt_view(r.outcome_message) == opt_view(record.outcome_message),
        r.log_path@ == spec_join(run_directory@, sanitized(record.name@) + ".log"@),
{
    RunTaskResult {
        name: record.name.clone(),
        status: record.status.clone(),
        result: record.result.clone(),
        exit_code: record.exit_code,
        duration_nanos: record_duration_nanos(record.started_at, record.finished_at),
        outcome_message: match &record.outcome_message {
            Some(m) => Some(m.clone()),
            None => None,
        },
        log_path: run_directory.join(task_log_file_name(record.name.as_str()).as_str()),
    }
}

/// The result of an executed run: its output, goals and size, how long it took from
/// `run_started_at` to `run_finished_at`, one result per task record, the outcome its
/// single goal reported, and its status.
pub fn execution_result(
    output: String,
    plan: &PlannedRun,
    task_records: &Vec<TaskArtifactRecord>,
    run_started_at: u128,
    run_finished_at: u128,
    run_directory: FilePath,
    status: RunStatus,
) -> (r: RunExecutionResult)
    ensures
        r.output == output,
        r.goal_tasks@.map_values(|g: String| g@) == plan.requested_tasks@.map_values(|t: TaskName| t@),
        r.total_task_count == plan.tasks@.len(),
        r.duration_nanos == (if run_finished_at >= run_started_at { run_finished_at - run_started_at } else { 0 }),
        r.run_directory == run_directory,
        r.task_results@.len() == task_records@.len(),
        forall|i: int| 0 <= i < task_records@.len() ==> {
            let (t, rec) = (#[trigger] r.task_results@[i], task_records@[i]);
            &&& t.name@ == rec.name@
            &&& t.status@ == rec.status@
            &&& t.result@ == rec.result@
            &&& t.exit_code == rec.exit_code
            &&& t.duration_nanos == record_duration(rec.started_at, rec.finished_at)
            &&& opt_view(t.outcome_message) == opt_view(rec.outcome_message)
            &&& t.log_path@ == spec_join(run_directory@, sanitized(rec.name@) + ".log"@)
        },
        opt_view(r.goal_outcome_message) == goal_outcome(plan.requested_tasks@, task_records@),
        r.status == status,
{
    let mut goal_tasks: Vec<String> = Vec::new();
    let mut i: usize = 0;
    while i < plan.requested_tasks.len()
        invariant
            i <= plan.requested_tasks@.len(),
            goal_tasks@.map_values(|g: String| g@) == plan.requested_tasks@.map_values(|t: TaskName| t@).take(i as int),
        decreases plan.requested_tasks@.len() - i,
    {
        let ghost before = goal_tasks@.map_values(|g: String| g@);
        goal_tasks.push(plan.requested_tasks[i].0.clone());
        assert(goal_tasks@.map_values(|g: String| g@) =~= before.push(plan.requested_tasks@[i as int]@));
        assert(plan.requested_tasks@.map_values(|t: TaskName| t@).take(i + 1) =~= plan.requested_tasks@.map_values(
            |t: TaskName| t@,
        ).take(i as int).push(plan.requested_tasks@[i as int]@));
        i = i + 1;
    }
    assert(plan.requested_tasks@.map_values(|t: TaskName| t@).take(plan.requested_tasks@.len() as int)
        =~= plan.requested_tasks@.map_values(|t: TaskName| t@));
    let mut task_results: Vec<RunTaskResult> = Vec::new();
    let mut k: usize = 0;
    while k < task_records.len()
        invariant
            k <= task_records@.len(),
            task_results@.len() == k,
            forall|j: int| 0 <= j < k ==> {
                let (t, rec) = (#[trigger] task_results@[j], task_records@[j]);
                &&& t.name@ == rec.name@
                &&& t.status@ == rec.status@
                &&& t.result@ == rec.result@
                &&& t.exit_code == rec.exit_code
                &&& t.duration_nanos == record_duration(rec.started_at, rec.finished_at)
                &&& opt_view(t.outcome_message) == opt_view(rec.outcome_message)
                &&& t.log_path@ == spec_join(run_directory@, sanitized(rec.name@) + ".log"@)
            },
        decreases task_records@.len() - k,
    {
        task_results.push(run_task_result(&task_records[k], &run_directory));
        k = k + 1;
    }
    let goal_outcome_message = goal_outcome_message(&plan.requested_tasks, task_records);
    RunExecutionResult {
        output,
        goal_tasks,
        total_task_count: plan.tasks.len(),
        duration_nanos: if run_finished_at >= run_started_at { run_finished_at - run_started_at } else { 0 },
        run_directory,
        task_results,
        goal_outcome_message,
        status,
    }
}

} // verus!
