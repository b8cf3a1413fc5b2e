//! What a run records of its tasks, and the messages derived from those records: the
//! reported task outcome, failure messages and the output tail of a failed task.

use crate::duration::{pretty_duration, pretty_duration_spec};
use crate::file_path::FilePath;
use crate::recipe::{opt_view, Task, TaskName};
use crate::text::{
    chars_of, decimal, has_prefix, i64_to_string, join3, signed_decimal, starts_with_chars, str_equals,
    string_from_chars, trim, trim_chars, usize_to_string,
};
use vstd::prelude::*;
use vstd::string::*;

verus! {

/// A process output stream.
#[derive(Debug, Clone, Copy, PartialEq, Eq, Structural)]
pub enum OutputStream {
    Stdout,
    Stderr,
}

/// One line of task output with the time it was observed.
#[derive(Debug)]
pub struct LogLine {
    /// Monotonic observation time in nanoseconds.
    pub timestamp_nanos: u128,
    /// The stream the line was written to.
    pub stream: OutputStream,
    /// The line's text, without its line break.
    pub text: String,
}

/// The persisted outcome of one planned task.
#[derive(Debug)]
pub struct TaskArtifactRecord {
    /// Task name.
    pub name: String,
    /// Final task status.
    pub status: String,
    /// Final task result string.
    pub result: String,
    /// Task start time when the task started.
    pub started_at: Option<u128>,
    /// Task finish time when the task finished or was skipped.
    pub finished_at: Option<u128>,
    /// Process exit code when available.
    pub exit_code: Option<i32>,
    /// Final reported task outcome when available.
    pub outcome_message: Option<String>,
    /// Timestamped log lines emitted by the task.
    pub log_lines: Vec<LogLine>,
}

/// A task failure within an otherwise valid run.
#[derive(Debug)]
pub struct TaskFailure {
    /// Name of the task that failed.
    pub task_name: String,
    /// Process exit code reported for the failed task.
    pub exit_code: i32,
    /// Elapsed run time when the task failed.
    pub elapsed_nanos: u128,
    /// Number of tasks that completed successfully before the failure.
    pub successful_task_count: usize,
    /// Number of earlier task output lines omitted from the rendered tail.
    pub omitted_output_line_count: usize,
    /// Last task output lines without timestamps.
    pub output_tail_lines: Vec<String>,
}

/// Whether a run completed or stopped on a task failure.
#[derive(Debug)]
pub enum RunStatus {
    /// Every planned task completed successfully.
    Completed,
    /// A task exited unsuccessfully.
    Failed(TaskFailure),
}

/// The final recorded state of one task in a completed run.
#[derive(Debug)]
pub struct RunTaskResult {
    /// Task name.
    pub name: String,
    /// Final task status.
    pub status: String,
    /// Final task result string.
    pub result: String,
    /// Process exit code when available.
    pub exit_code: Option<i32>,
    /// Task duration when both start and finish times exist.
    pub duration_nanos: Option<u128>,
    /// Final reported task outcome when available.
    pub outcome_message: Option<String>,
    /// Path to the persisted task log file.
    pub log_path: FilePath,
}

/// The result of executing a planned run.
#[derive(Debug)]
pub struct RunExecutionResult {
    /// User-facing rendered output for the executed run.
    pub output: String,
    /// Goal tasks requested by the user.
    pub goal_tasks: Vec<String>,
    /// Total number of tasks in the planned run.
    pub total_task_count: usize,
    /// Total run duration in nanoseconds.
    pub duration_nanos: u128,
    /// Directory that stores the run artifacts.
    pub run_directory: FilePath,
    /// Final per-task execution results for the run.
    pub task_results: Vec<RunTaskResult>,
    /// Outcome reported by the single requested goal task when available.
    pub goal_outcome_message: Option<String>,
    /// Overall run status.
    pub status: RunStatus,
}

/// The prefix that marks a reported task outcome in task output.
pub open spec fn outcome_prefix() -> Seq<char> {
    "Task outcome: "@
}

/// The outcome that a single output line reports, if any: the rest of a line that begins
/// exactly with the prefix, trimmed, when not empty.
pub open spec fn line_outcome(line: Seq<char>) -> Option<Seq<char>> {
    if has_prefix(line, outcome_prefix()) {
        let message = trim(line.subrange(outcome_prefix().len() as int, line.len() as int));
        if message.len() > 0 {
            Some(message)
        } else {
            None
        }
    } else {
        None
    }
}

/// The outcome reported by a task's output: the one of the last line that reports one.
pub open spec fn reported_outcome(lines: Seq<Seq<char>>) -> Option<Seq<char>>
    decreases lines.len(),
{
    if lines.len() == 0 {
        None
    } else {
        match line_outcome(lines.last()) {
            Some(m) => Some(m),
            None => reported_outcome(lines.drop_last()),
        }
    }
}

/// The texts of log lines.
pub open spec fn line_texts(lines: Seq<LogLine>) -> Seq<Seq<char>> {
    lines.map_values(|l: LogLine| l.text@)
}

/// The outcome message reported by a task's log lines; the last report wins.
pub fn extract_task_outcome_message(log_lines: &Vec<LogLine>) -> (outcome: Option<String>)
    ensures
        opt_view(outcome) == reported_outcome(line_texts(log_lines@)),
{
    let ghost texts = line_texts(log_lines@);
    let prefix = chars_of("Task outcome: ");
    let mut latest: Option<String> = None;
    let mut i: usize = 0;
    while i < log_lines.len()
        invariant
            i <= log_lines@.len(),
            texts == line_texts(log_lines@),
            prefix@ == outcome_prefix(),
            opt_view(latest) == reported_outcome(texts.take(i as int)),
        decreases log_lines@.len() - i,
    {
        assert(texts.take(i + 1).drop_last() =~= texts.take(i as int));
        assert(texts.take(i + 1).last() == log_lines@[i as int].text@);
        let line = chars_of(log_lines[i].text.as_str());
        if starts_with_chars(&line, &prefix) {
            let rest = crate::source_location::source_slice(&line, prefix.len(), line.len());
            let message = trim_chars(&rest);
            if message.len() > 0 {
                latest = Some(string_from_chars(&message));
            }
        }
        i = i + 1;
    }
    assert(texts.take(log_lines@.len() as int) =~= texts);
    latest
}

/// The prefix that marks a task status update in task output.
pub open spec fn status_prefix() -> Seq<char> {
    "Task status: "@
}

/// The status update that a single output line reports, if any: the rest of a line that
/// begins exactly with the prefix, trimmed, when not empty.
pub open spec fn line_status(line: Seq<char>) -> Option<Seq<char>> {
    if has_prefix(line, status_prefix()) {
        let message = trim(line.subrange(status_prefix().len() as int, line.len() as int));
        if message.len() > 0 {
            Some(message)
        } else {
            None
        }
    } else {
        None
    }
}

/// The status update that a task output line reports, if any.
pub fn task_status_message(line: &str) -> (status: Option<String>)
    ensures
        opt_view(status) == line_status(line@),
{
    let prefix = chars_of("Task status: ");
    let chars = chars_of(line);
    if starts_with_chars(&chars, &prefix) {
        let rest = crate::source_location::source_slice(&chars, prefix.len(), chars.len());
        let message = trim_chars(&rest);
        if message.len() > 0 {
            return Some(string_from_chars(&message));
        }
    }
    None
}

/// The index of the first record named `goal` with status `completed`, from `i` on.
pub open spec fn first_completed(records: Seq<TaskArtifactRecord>, goal: Seq<char>, i: int) -> Option<int>
    decreases records.len() - i,
{
    if i < 0 || i >= records.len() {
        None
    } else if records[i].name@ == goal && records[i].status@ == "completed"@ {
        Some(i)
    } else {
        first_completed(records, goal, i + 1)
    }
}

/// The outcome message of the single goal task, when it completed and reported one.
pub open spec fn goal_outcome(goals: Seq<TaskName>, records: Seq<TaskArtifactRecord>) -> Option<Seq<char>> {
    if goals.len() != 1 {
        None
    } else {
        match first_completed(records, goals[0]@, 0) {
            Some(k) => opt_view(records[k].outcome_message),
            None => None,
        }
    }
}

/// The outcome reported by the requested task when exactly one was requested and it
/// completed.
pub fn goal_outcome_message(goal_tasks: &Vec<TaskName>, task_records: &Vec<TaskArtifactRecord>) -> (m:
    Option<String>)
    ensures
        opt_view(m) == goal_outcome(goal_tasks@, task_records@),
{
    if goal_tasks.len() != 1 {
        return None;
    }
    let goal = &goal_tasks[0];
    let mut i: usize = 0;
    proof {
        reveal_strlit("completed");
    }
    while i < task_records.len()
        invariant
            i <= task_records@.len(),
            goal_tasks@.len() == 1,
            goal@ == goal_tasks@[0]@,
            first_completed(task_records@, goal@, 0) == first_completed(task_records@, goal@, i as int),
        decreases task_records@.len() - i,
    {
        let record = &task_records[i];
        if str_equals(record.name.as_str(), goal.as_str()) && str_equals(record.status.as_str(), "completed") {
            return match &record.outcome_message {
                Some(message) => Some(message.clone()),
                None => None,
            };
        }
        i = i + 1;
    }
    None
}

/// `n` followed by `task` or `tasks`.
pub open spec fn task_count_text(n: nat) -> Seq<char> {
    decimal(n) + if n == 1 {
        " task"@
    } else {
        " tasks"@
    }
}

/// Renders a count of tasks, such as `1 task` or `3 tasks`.
pub fn render_completed_task_count(successful_task_count: usize) -> (s: String)
    ensures
        s@ == task_count_text(successful_task_count as nat),
{
    let count = usize_to_string(successful_task_count);
    let mut s = count;
    if successful_task_count == 1 {
        s.append(" task");
    } else {
        s.append(" tasks");
    }
    s
}

/// The message for a task that exited unsuccessfully.
pub open spec fn task_failure_text(name: Seq<char>, exit_code: int, elapsed: nat, successful: nat) -> Seq<
    char,
> {
    "task `"@ + name + "` failed with exit code "@ + signed_decimal(exit_code) + " after "@
        + pretty_duration_spec(elapsed) + " ("@ + task_count_text(successful)
        + " completed successfully)"@
}

/// Renders the message for a task that exited unsuccessfully.
pub fn render_task_failure_message(task_failure: &TaskFailure) -> (s: String)
    ensures
        s@ == task_failure_text(
            task_failure.task_name@,
            task_failure.exit_code as int,
            task_failure.elapsed_nanos as nat,
            task_failure.successful_task_count as nat,
        ),
{
    let mut s = join3("task `", task_failure.task_name.as_str(), "` failed with exit code ");
    s.append(i64_to_string(task_failure.exit_code as i64).as_str());
    s.append(" after ");
    s.append(pretty_duration(task_failure.elapsed_nanos).as_str());
    s.append(" (");
    s.append(render_completed_task_count(task_failure.successful_task_count).as_str());
    s.append(" completed successfully)");
    s
}

/// The message for a task that could not be run.
pub open spec fn task_error_text(name: Seq<char>, elapsed: nat, successful: nat, error: Seq<char>) -> Seq<
    char,
> {
    "task `"@ + name + "` failed after "@ + pretty_duration_spec(elapsed) + " ("@ + task_count_text(
        successful,
    ) + " completed successfully): "@ + error
}

/// Renders the message for a task whose process could not be run.
pub fn render_task_execution_error_message(
    task_name: &str,
    elapsed_nanos: u128,
    successful_task_count: usize,
    error: &str,
) -> (s: String)
    ensures
        s@ == task_error_text(task_name@, elapsed_nanos as nat, successful_task_count as nat, error@),
{
    let mut s = join3("task `", task_name, "` failed after ");
    s.append(pretty_duration(elapsed_nanos).as_str());
    s.append(" (");
    s.append(render_completed_task_count(successful_task_count).as_str());
    s.append(" completed successfully): ");
    s.append(error);
    s
}

/// How many lines of failed-task output are kept for display.
pub const OUTPUT_TAIL_LINES: usize = 200;

/// Number of log lines left out of the displayed tail.
pub fn task_output_omitted_line_count(log_lines: &Vec<LogLine>) -> (n: usize)
    ensures
        n == (if log_lines@.len() > OUTPUT_TAIL_LINES { log_lines@.len() - OUTPUT_TAIL_LINES } else { 0 }),
{
    if log_lines.len() > OUTPUT_TAIL_LINES {
        log_lines.len() - OUTPUT_TAIL_LINES
    } else {
        0
    }
}

/// The texts of the last lines of a task's output, at most `OUTPUT_TAIL_LINES` of them.
pub fn task_output_tail_lines(log_lines: &Vec<LogLine>) -> (tail: Vec<String>)
    ensures
        tail@.map_values(|s: String| s@) == line_texts(log_lines@).subrange(
            (if log_lines@.len() > OUTPUT_TAIL_LINES { log_lines@.len() - OUTPUT_TAIL_LINES } else { 0 }) as int,
            log_lines@.len() as int,
        ),
{
    let start = task_output_omitted_line_count(log_lines);
    let ghost texts = line_texts(log_lines@);
    let mut tail: Vec<String> = Vec::new();
    let mut i: usize = start;
    while i < log_lines.len()
        invariant
            start <= i <= log_lines@.len(),
            texts == line_texts(log_lines@),
            tail@.map_values(|s: String| s@) == texts.subrange(start as int, i as int),
        decreases log_lines@.len() - i,
    {
        let ghost prev = tail@.map_values(|s: String| s@);
        let text = log_lines[i].text.clone();
        assert(texts[i as int] == text@);
        tail.push(text);
        assert(tail@.map_values(|s: String| s@) =~= prev.push(texts[i as int]));
        assert(texts.subrange(start as int, i + 1) =~= texts.subrange(start as int, i as int).push(
            texts[i as int],
        ));
        i = i + 1;
    }
    tail
}

/// The run output after a task's output: unchanged when the task printed nothing, else
/// the task's output after a line break.
pub open spec fn appended_output(output: Seq<char>, task_output: Seq<char>) -> Seq<char> {
    if task_output.len() == 0 {
        output
    } else if output.len() == 0 {
        task_output
    } else {
        output + "\n"@ + task_output
    }
}

/// The run output made of the tasks' outputs in order.
pub open spec fn joined_outputs(outputs: Seq<Seq<char>>) -> Seq<char>
    decreases outputs.len(),
{
    if outputs.len() == 0 {
        Seq::empty()
    } else {
        appended_output(joined_outputs(outputs.drop_last()), outputs.last())
    }
}

/// Appends a task's output to the run output, separated by a line break.
pub fn append_task_output(output: &mut String, task_output: &str)
    ensures
        final(output)@ == appended_output(old(output)@, task_output@),
{
    let incoming = chars_of(task_output);
    if incoming.len() == 0 {
        return;
    }
    let existing = chars_of(output.as_str());
    if existing.len() > 0 {
        output.append("\n");
    } else {
        proof {
            reveal_strlit("");
        }
    }
    output.append(task_output);
    proof {
        if existing@.len() == 0 {
            assert(old(output)@ =~= Seq::<char>::empty());
            assert(final(output)@ =~= task_output@) by {
                assert(old(output)@ + task_output@ =~= task_output@);
            }
        }
    }
}

/// Time from `started_at` to `finished_at`, or zero when the clock went backwards.
pub fn task_elapsed_nanos(started_at: u128, finished_at: u128) -> (n: u128)
    ensures
        n == (if finished_at >= started_at { finished_at - started_at } else { 0 }),
{
    if finished_at >= started_at {
        finished_at - started_at
    } else {
        0
    }
}

/// Whether `r` is the record of task `name` skipped at `skipped_at`.
pub open spec fn is_skipped_record(r: TaskArtifactRecord, name: Seq<char>, skipped_at: u128) -> bool {
    &&& r.name@ == name
    &&& r.status@ == "skipped"@
    &&& r.result@ == "skipped"@
    &&& r.started_at is None
    &&& r.finished_at == Some(skipped_at)
    &&& r.exit_code is None
    &&& r.outcome_message is None
    &&& r.log_lines@.len() == 0
}

/// The record of a task that was skipped at `skipped_at`.
pub fn skipped_task_record(task: &Task, skipped_at: u128) -> (r: TaskArtifactRecord)
    ensures
        is_skipped_record(r, task.name@, skipped_at),
{
    TaskArtifactRecord {
        name: task.name.0.clone(),
        status: String::from_str("skipped"),
        result: String::from_str("skipped"),
        started_at: None,
        finished_at: Some(skipped_at),
        exit_code: None,
        outcome_message: None,
        log_lines: Vec::new(),
    }
}

/// The duration recorded for a task: from start to finish when both are known.
pub fn record_duration_nanos(started_at: Option<u128>, finished_at: Option<u128>) -> (d: Option<u128>)
    ensures
        d == (match (started_at, finished_at) {
            (Some(s), Some(f)) => Some(if f >= s { (f - s) as u128 } else { 0 }),
            _ => None,
        }),
{
    match (started_at, finished_at) {
        (Some(s), Some(f)) => Some(task_elapsed_nanos(s, f)),
        _ => None,
    }
}

} // verus!
