//! The contents of a run's artifact files: task log files, the events appended while a
//! run executes, and the summary written when it completes. Times are monotonic
//! nanoseconds, shown as wall-clock times relative to the run's start.

use crate::artifacts::{
    absolute_time_nanos, format_iso8601, iso8601_text, log_line_text, render_log_line, sanitized,
    task_log_file_name, utc_parts, MAX_UNIX_NANOS, MIN_UNIX_NANOS,
};
use crate::recipe::{clone_opt, opt_view, strings_view};
use crate::run_history::{
    apply_event, last_named, lemma_decimal_reads_back, parsed_u128, pending_record, task_records, with_event,
    EventView, SummaryFile, SummaryTask, TaskRecordView,
};
use crate::run_outcome::{LogLine, TaskArtifactRecord};
use crate::run_recording::{overall_text, record_duration, RunRecorder};
use crate::text::{decimal, u128_to_string};
use vstd::prelude::*;
use vstd::string::*;

verus! {

/// The wall-clock time (Unix nanoseconds) of monotonic `timestamp`, for a run that started
/// at `run_started_unix` on the wall clock and at `run_started_at` on the monotonic one.
pub open spec fn wall_time(run_started_unix: i128, run_started_at: u128, timestamp: u128) -> int {
    run_started_unix + (if timestamp >= run_started_at {
        if timestamp - run_started_at > u64::MAX {
            u64::MAX as int
        } else {
            timestamp - run_started_at
        }
    } else {
        0
    })
}

/// Whether the wall-clock time of `timestamp` is one that can be written as a date.
pub open spec fn writable_time(run_started_unix: i128, run_started_at: u128, timestamp: u128) -> bool {
    MIN_UNIX_NANOS <= wall_time(run_started_unix, run_started_at, timestamp) <= MAX_UNIX_NANOS
}

/// The text of the wall-clock time of `timestamp`.
pub open spec fn time_text(run_started_unix: i128, run_started_at: u128, timestamp: u128) -> Seq<char> {
    iso8601_text(utc_parts(wall_time(run_started_unix, run_started_at, timestamp) as i128)->Some_0)
}

/// Formats the wall-clock time of `timestamp`.
pub fn format_wall_time(run_started_unix: i128, run_started_at: u128, timestamp: u128) -> (s: String)
    requires
        writable_time(run_started_unix, run_started_at, timestamp),
    ensures
        s@ == time_text(run_started_unix, run_started_at, timestamp),
{
    let t = absolute_time_nanos(run_started_unix, run_started_at, timestamp);
    format_iso8601(t)
}

/// Whether every line of a log can have its time written.
pub open spec fn writable_lines(run_started_unix: i128, run_started_at: u128, lines: Seq<LogLine>) -> bool {
    forall|i: int| 0 <= i < lines.len() ==> writable_time(run_started_unix, run_started_at, #[trigger] lines[i].timestamp_nanos)
}

/// A task's log file: each line with its time and stream.
pub open spec fn task_log_text(run_started_unix: i128, run_started_at: u128, lines: Seq<LogLine>) -> Seq<char>
    decreases lines.len(),
{
    if lines.len() == 0 {
        Seq::empty()
    } else {
        task_log_text(run_started_unix, run_started_at, lines.drop_last()) + log_line_text(
            time_text(run_started_unix, run_started_at, lines.last().timestamp_nanos),
            lines.last().stream,
            lines.last().text@,
        )
    }
}

/// Renders a task's log file.
pub fn render_task_log(run_started_unix: i128, run_started_at: u128, log_lines: &Vec<LogLine>) -> (s: String)
    requires
        writable_lines(run_started_unix, run_started_at, log_lines@),
    ensures
        s@ == task_log_text(run_started_unix, run_started_at, log_lines@),
{
    let mut s = String::new();
    let mut i: usize = 0;
    while i < log_lines.len()
        invariant
            i <= log_lines@.len(),
            writable_lines(run_started_unix, run_started_at, log_lines@),
            s@ == task_log_text(run_started_unix, run_started_at, log_lines@.take(i as int)),
        decreases log_lines@.len() - i,
    {
        assert(log_lines@.take(i + 1).drop_last() =~= log_lines@.take(i as int));
        assert(log_lines@.take(i + 1).last() == log_lines@[i as int]);
        let line = &log_lines[i];
        let time = format_wall_time(run_started_unix, run_started_at, line.timestamp_nanos);
        let rendered = render_log_line(time.as_str(), line.stream, line.text.as_str());
        s.append(rendered.as_str());
        i = i + 1;
    }
    assert(log_lines@.take(log_lines@.len() as int) =~= log_lines@);
    s
}

/// The duration of a task that started and finished, as decimal text.
pub open spec fn duration_text(started_at: Option<u128>, finished_at: Option<u128>) -> Option<Seq<char>> {
    match (started_at, finished_at) {
        (Some(s), Some(f)) => Some(decimal(if f >= s { (f - s) as nat } else { 0 })),
        _ => None,
    }
}

fn duration_string(started_at: Option<u128>, finished_at: Option<u128>) -> (d: Option<String>)
    ensures
        opt_view(d) == duration_text(started_at, finished_at),
{
    match (started_at, finished_at) {
        (Some(s), Some(f)) => Some(u128_to_string(if f >= s { f - s } else { 0 })),
        _ => None,
    }
}

fn optional_time(run_started_unix: i128, run_started_at: u128, timestamp: Option<u128>) -> (t: Option<String>)
    requires
        timestamp matches Some(ts) ==> writable_time(run_started_unix, run_started_at, ts),
    ensures
        opt_view(t) == (match timestamp {
            Some(ts) => Some(time_text(run_started_unix, run_started_at, ts)),
            None => None,
        }),
{
    match timestamp {
        Some(ts) => Some(format_wall_time(run_started_unix, run_started_at, ts)),
        None => None,
    }
}

/// The `task_finished` event of a task.
#[derive(Debug)]
pub struct TaskFinishedEvent {
    pub timestamp: String,
    pub task: String,
    pub status: String,
    pub result: String,
    pub exit_code: Option<i32>,
    pub outcome_message: Option<String>,
    pub duration_nanos: Option<String>,
}

/// Whether `e` is the `task_finished` event of the task record `record`.
pub open spec fn is_finished_event(
    e: TaskFinishedEvent,
    record: TaskArtifactRecord,
    run_started_unix: i128,
    run_started_at: u128,
) -> bool {
    &&& e.timestamp@ == time_text(
        run_started_unix,
        run_started_at,
        match record.finished_at {
            Some(f) => f,
            None => run_started_at,
        },
    )
    &&& e.task@ == record.name@
    &&& e.status@ == record.status@
    &&& e.result@ == record.result@
    &&& e.exit_code == record.exit_code
    &&& opt_view(e.outcome_message) == opt_view(record.outcome_message)
    &&& opt_view(e.duration_nanos) == duration_text(record.started_at, record.finished_at)
}

/// The `task_finished` event of a task: dated at its finish, or at the run's start when it
/// never finished, with its duration when it both started and finished.
pub fn task_finished_event(record: &TaskArtifactRecord, run_started_unix: i128, run_started_at: u128) -> (e:
    TaskFinishedEvent)
    requires
        writable_time(
            run_started_unix,
            run_started_at,
            match record.finished_at {
                Some(f) => f,
                None => run_started_at,
            },
        ),
    ensures
        is_finished_event(e, *record, run_started_unix, run_started_at),
{
    let at = match record.finished_at {
        Some(f) => f,
        None => run_started_at,
    };
    TaskFinishedEvent {
        timestamp: format_wall_time(run_started_unix, run_started_at, at),
        task: record.name.clone(),
        status: record.status.clone(),
        result: record.result.clone(),
        exit_code: record.exit_code,
        outcome_message: clone_opt(&record.outcome_message),
        duration_nanos: duration_string(record.started_at, record.finished_at),
    }
}

/// A task's entry in a run's summary.
#[derive(Debug)]
pub struct TaskSummaryEntry {
    pub name: String,
    pub status: String,
    pub result: String,
    pub exit_code: Option<i32>,
    pub outcome_message: Option<String>,
    pub started_at: Option<String>,
    pub finished_at: Option<String>,
    pub duration_nanos: Option<String>,
    pub log_file: String,
}

/// Whether the times a task record holds can be written as dates.
pub open spec fn writable_record(run_started_unix: i128, run_started_at: u128, r: TaskArtifactRecord) -> bool {
    &&& (r.started_at matches Some(s) ==> writable_time(run_started_unix, run_started_at, s))
    &&& (r.finished_at matches Some(f) ==> writable_time(run_started_unix, run_started_at, f))
}

/// Whether `e` is the summary entry of task record `r`.
pub open spec fn is_summary_entry(e: TaskSummaryEntry, r: TaskArtifactRecord, run_started_unix: i128, run_started_at: u128) -> bool {
    &&& e.name@ == r.name@
    &&& e.status@ == r.status@
    &&& e.result@ == r.result@
    &&& e.exit_code == r.exit_code
    &&& opt_view(e.outcome_message) == opt_view(r.outcome_message)
    &&& opt_view(e.started_at) == (match r.started_at {
        Some(s) => Some(time_text(run_started_unix, run_started_at, s)),
        None => None,
    })
    &&& opt_view(e.finished_at) == (match r.finished_at {
        Some(f) => Some(time_text(run_started_unix, run_started_at, f)),
        None => None,
    })
    &&& opt_view(e.duration_nanos) == duration_text(r.started_at, r.finished_at)
    &&& e.log_file@ == sanitized(r.name@) + ".log"@
}

/// The summary entry of a task record.
pub fn task_summary_entry(record: &TaskArtifactRecord, run_started_unix: i128, run_started_at: u128) -> (e:
    TaskSummaryEntry)
    requires
        writable_record(run_started_unix, run_started_at, *record),
    ensures
        is_summary_entry(e, *record, run_started_unix, run_started_at),
{
    TaskSummaryEntry {
        name: record.name.clone(),
        status: record.status.clone(),
        result: record.result.clone(),
        exit_code: record.exit_code,
        outcome_message: clone_opt(&record.outcome_message),
        started_at: optional_time(run_started_unix, run_started_at, record.started_at),
        finished_at: optional_time(run_started_unix, run_started_at, record.finished_at),
        duration_nanos: duration_string(record.started_at, record.finished_at),
        log_file: task_log_file_name(record.name.as_str()),
    }
}

/// A run's summary, written when it completes.
#[derive(Debug)]
pub struct RunSummaryFile {
    pub result: String,
    pub failure_message: Option<String>,
    pub requested_tasks: Vec<String>,
    pub started_at: String,
    pub finished_at: String,
    pub duration_nanos: String,
    pub tasks: Vec<TaskSummaryEntry>,
}

/// Whether `f` is the summary of a run with these goal tasks and task records that
/// finished at `run_finished_at` with `overall_result` and `failure_message`.
pub open spec fn is_run_summary(
    f: RunSummaryFile,
    requested_tasks: Seq<String>,
    task_records: Seq<TaskArtifactRecord>,
    run_finished_at: u128,
    overall_result: Seq<char>,
    failure_message: Option<Seq<char>>,
    run_started_unix: i128,
    run_started_at: u128,
) -> bool {
    &&& f.result@ == overall_result
    &&& opt_view(f.failure_message) == failure_message
    &&& strings_view(f.requested_tasks@) == strings_view(requested_tasks)
    &&& f.started_at@ == time_text(run_started_unix, run_started_at, run_started_at)
    &&& f.finished_at@ == time_text(run_started_unix, run_started_at, run_finished_at)
    &&& f.duration_nanos@ == decimal(
        if run_finished_at >= run_started_at {
            (run_finished_at - run_started_at) as nat
        } else {
            0
        },
    )
    &&& f.tasks@.len() == task_records.len()
    &&& forall|i: int|
        0 <= i < task_records.len() ==> is_summary_entry(
            #[trigger] f.tasks@[i],
            task_records[i],
            run_started_unix,
            run_started_at,
        )
}

/// The summary of a run that finished at `run_finished_at` with `overall_result`: when it
/// started and finished, how long it took, and one entry per task record.
pub fn run_summary_file(
    requested_tasks: &Vec<String>,
    task_records: &Vec<TaskArtifactRecord>,
    run_finished_at: u128,
    overall_result: &str,
    failure_message: Option<&str>,
    run_started_unix: i128,
    run_started_at: u128,
) -> (f: RunSummaryFile)
    requires
        writable_time(run_started_unix, run_started_at, run_started_at),
        writable_time(run_started_unix, run_started_at, run_finished_at),
        forall|i: int| 0 <= i < task_records@.len() ==> writable_record(run_started_unix, run_started_at, #[trigger] task_records@[i]),
    ensures
        is_run_summary(
            f,
            requested_tasks@,
            task_records@,
            run_finished_at,
            overall_result@,
            match failure_message {
                Some(m) => Some(m@),
                None => None,
            },
            run_started_unix,
            run_started_at,
        ),
{
    let mut requested: Vec<String> = Vec::new();
    let mut i: usize = 0;
    while i < requested_tasks.len()
        invariant
            i <= requested_tasks@.len(),
            strings_view(requested@) == strings_view(requested_tasks@).take(i as int),
        decreases requested_tasks@.len() - i,
    {
        let ghost before = strings_view(requested@);
        requested.push(requested_tasks[i].clone());
        assert(strings_view(requested@) =~= before.push(requested_tasks@[i as int]@));
        assert(strings_view(requested_tasks@).take(i + 1) =~= strings_view(requested_tasks@).take(i as int).push(
            requested_tasks@[i as int]@,
        ));
        i = i + 1;
    }
    assert(strings_view(requested_tasks@).take(requested_tasks@.len() as int) =~= strings_view(requested_tasks@));
    let mut tasks: Vec<TaskSummaryEntry> = Vec::new();
    let mut k: usize = 0;
    while k < task_records.len()
        invariant
            k <= task_records@.len(),
            tasks@.len() == k,
            forall|j: int| 0 <= j < task_records@.len() ==> writable_record(run_started_unix, run_started_at, #[trigger] task_records@[j]),
            forall|j: int| 0 <= j < k ==> is_summary_entry(#[trigger] tasks@[j], task_records@[j], run_started_unix, run_started_at),
        decreases task_records@.len() - k,
    {
        let entry = task_summary_entry(&task_records[k], run_started_unix, run_started_at);
        tasks.push(entry);
        k = k + 1;
    }
    let duration = if run_finished_at >= run_started_at { run_finished_at - run_started_at } else { 0 };
    RunSummaryFile {
        result: overall_result.to_string(),
        failure_message: match failure_message {
            Some(m) => Some(m.to_string()),
            None => None,
        },
        requested_tasks: requested,
        started_at: format_wall_time(run_started_unix, run_started_at, run_started_at),
        finished_at: format_wall_time(run_started_unix, run_started_at, run_finished_at),
        duration_nanos: u128_to_string(duration),
        tasks,
    }
}


/// Summary law: the summary written at the end of a run says `failed`, and carries a
/// failure message, exactly when one of its task records failed, given the recorder and
/// records that ending the run gives (the recorder has failed exactly when a record did).
pub proof fn lemma_summary_says_failed_exactly_when_a_task_failed(
    f: RunSummaryFile,
    requested_tasks: Seq<String>,
    task_records: Seq<TaskArtifactRecord>,
    run_finished_at: u128,
    recorder: RunRecorder,
    run_started_unix: i128,
    run_started_at: u128,
)
    requires
        recorder.consistent(),
        recorder.has_failed() <==> exists|i: int|
            0 <= i < task_records.len() && (#[trigger] task_records[i]).status@ == "failed"@,
        is_run_summary(
            f,
            requested_tasks,
            task_records,
            run_finished_at,
            overall_text(recorder.status),
            opt_view(recorder.failure_message),
            run_started_unix,
            run_started_at,
        ),
    ensures
        f.result@ == "failed"@ <==> exists|i: int|
            0 <= i < task_records.len() && (#[trigger] task_records[i]).status@ == "failed"@,
        f.failure_message is Some <==> f.result@ == "failed"@,
        f.tasks@.len() == task_records.len(),
{
    reveal_strlit("failed");
    reveal_strlit("completed");
    assert("failed"@[0] != "completed"@[0]);
}

/// Whether `read` is what a reader decodes from the summary entry `written`: each field it
/// keeps, as it was written.
pub open spec fn reads_back_task(read: SummaryTask, written: TaskSummaryEntry) -> bool {
    &&& read.name@ == written.name@
    &&& read.status@ == written.status@
    &&& read.result@ == written.result@
    &&& read.exit_code == written.exit_code
    &&& opt_view(read.outcome_message) == opt_view(written.outcome_message)
    &&& opt_view(read.duration_nanos) == opt_view(written.duration_nanos)
    &&& read.log_file@ == written.log_file@
}

/// Whether `read` is what a reader decodes from the run summary `written`.
pub open spec fn reads_back_summary(read: SummaryFile, written: RunSummaryFile) -> bool {
    &&& read.result@ == written.result@
    &&& opt_view(read.failure_message) == opt_view(written.failure_message)
    &&& strings_view(read.requested_tasks@) == strings_view(written.requested_tasks@)
    &&& opt_view(read.duration_nanos) == Some(written.duration_nanos@)
    &&& read.tasks@.len() == written.tasks@.len()
    &&& forall|i: int|
        0 <= i < read.tasks@.len() ==> reads_back_task(#[trigger] read.tasks@[i], written.tasks@[i])
}

/// The record that the run detail shows for a task that a run recorded as `r`.
pub open spec fn recorded_task_view(r: TaskArtifactRecord) -> TaskRecordView {
    TaskRecordView {
        name: r.name@,
        status: r.status@,
        result: r.result@,
        exit_code: r.exit_code,
        outcome_message: opt_view(r.outcome_message),
        duration_nanos: record_duration(r.started_at, r.finished_at),
        log_file: sanitized(r.name@) + ".log"@,
    }
}

/// Reading back a finished run's summary gives what the run recorded: its result,
/// failure message and goal tasks, its duration in nanoseconds, and for every task its
/// name, status, result, exit code, outcome, duration and log file, in the same order.
pub proof fn lemma_summary_reads_back(
    written: RunSummaryFile,
    read: SummaryFile,
    requested_tasks: Seq<String>,
    records: Seq<TaskArtifactRecord>,
    run_finished_at: u128,
    overall_result: Seq<char>,
    failure_message: Option<Seq<char>>,
    run_started_unix: i128,
    run_started_at: u128,
    plan: Option<Seq<Seq<char>>>,
    events: Seq<EventView>,
)
    requires
        is_run_summary(
            written,
            requested_tasks,
            records,
            run_finished_at,
            overall_result,
            failure_message,
            run_started_unix,
            run_started_at,
        ),
        reads_back_summary(read, written),
    ensures
        read.result@ == overall_result,
        opt_view(read.failure_message) == failure_message,
        strings_view(read.requested_tasks@) == strings_view(requested_tasks),
        read.duration_nanos matches Some(d) && parsed_u128(d@) == Some(
            (if run_finished_at >= run_started_at {
                run_finished_at - run_started_at
            } else {
                0
            }) as u128,
        ),
        task_records(Some(read.tasks@), plan, events).len() == records.len(),
        forall|i: int|
            0 <= i < records.len() ==> #[trigger] task_records(Some(read.tasks@), plan, events)[i]
                == recorded_task_view(records[i]),
{
    let elapsed: u128 = (if run_finished_at >= run_started_at {
        run_finished_at - run_started_at
    } else {
        0
    }) as u128;
    lemma_decimal_reads_back(elapsed);
    assert forall|i: int| 0 <= i < records.len() implies #[trigger] task_records(
        Some(read.tasks@),
        plan,
        events,
    )[i] == recorded_task_view(records[i]) by {
        let r = records[i];
        let e = written.tasks@[i];
        let t = read.tasks@[i];
        assert(is_summary_entry(e, r, run_started_unix, run_started_at));
        assert(reads_back_task(t, e));
        match (r.started_at, r.finished_at) {
            (Some(s0), Some(f0)) => {
                let n: u128 = (if f0 >= s0 {
                    f0 - s0
                } else {
                    0
                }) as u128;
                lemma_decimal_reads_back(n);
            },
            _ => {},
        }
    }
}


/// Whether `read` is what a reader decodes from the `task_finished` event `written`.
pub open spec fn reads_back_finished_event(read: EventView, written: TaskFinishedEvent) -> bool {
    &&& read.event_type == "task_finished"@
    &&& read.timestamp == written.timestamp@
    &&& read.task_name == Some(written.task@)
    &&& read.status == Some(written.status@)
    &&& read.result == Some(written.result@)
    &&& read.exit_code == written.exit_code
    &&& read.outcome_message == opt_view(written.outcome_message)
    &&& read.duration_nanos == match opt_view(written.duration_nanos) {
        Some(d) => parsed_u128(d),
        None => None,
    }
}

/// Where the last record of a task is depends on the records' names alone.
proof fn lemma_last_named_by_names(a: Seq<TaskRecordView>, b: Seq<TaskRecordView>, name: Seq<char>, end: int)
    requires
        a.len() == b.len(),
        forall|i: int| 0 <= i < a.len() ==> (#[trigger] a[i]).name == b[i].name,
    ensures
        last_named(a, name, end) == last_named(b, name, end),
    decreases end,
{
    if 0 < end <= a.len() && a[end - 1].name != name {
        lemma_last_named_by_names(a, b, name, end - 1);
    }
}

/// The last record of a task is one with its name.
proof fn lemma_last_named_has_name(a: Seq<TaskRecordView>, name: Seq<char>, end: int)
    ensures
        last_named(a, name, end) matches Some(k) ==> 0 <= k < end && k < a.len() && a[k].name == name,
    decreases end,
{
    if 0 < end <= a.len() && a[end - 1].name != name {
        lemma_last_named_has_name(a, name, end - 1);
    }
}

/// A running run's detail reads back a finished task from its `task_finished` event:
/// whatever records the detail held before, afterwards the task's last record holds the
/// status, result, exit code, outcome and duration that the run recorded for it.
pub proof fn lemma_finished_event_reads_back(
    written: TaskFinishedEvent,
    read: EventView,
    record: TaskArtifactRecord,
    tasks: Seq<TaskRecordView>,
    run_started_unix: i128,
    run_started_at: u128,
)
    requires
        is_finished_event(written, record, run_started_unix, run_started_at),
        reads_back_finished_event(read, written),
    ensures
        ({
            let after = apply_event(tasks, read);
            &&& last_named(after, record.name@, after.len() as int) matches Some(k) && {
                &&& after[k].status == record.status@
                &&& after[k].result == record.result@
                &&& after[k].exit_code == record.exit_code
                &&& after[k].outcome_message == opt_view(record.outcome_message)
                &&& after[k].duration_nanos == record_duration(record.started_at, record.finished_at)
            }
        }),
{
    let name = record.name@;
    match (record.started_at, record.finished_at) {
        (Some(s0), Some(f0)) => {
            let n: u128 = (if f0 >= s0 {
                f0 - s0
            } else {
                0
            }) as u128;
            lemma_decimal_reads_back(n);
        },
        _ => {},
    }
    assert(read.duration_nanos == record_duration(record.started_at, record.finished_at));
    reveal_strlit("task_started");
    reveal_strlit("task_finished");
    assert("task_finished"@ != "task_started"@) by {
        assert("task_finished"@[5] != "task_started"@[5]);
    }
    lemma_last_named_has_name(tasks, name, tasks.len() as int);
    let after = apply_event(tasks, read);
    match last_named(tasks, name, tasks.len() as int) {
        Some(k) => {
            let w = with_event(tasks[k], read);
            assert(w.name == name);
            assert(after == tasks.update(k, w));
            assert forall|i: int| 0 <= i < tasks.len() implies (#[trigger] tasks[i]).name == after[i].name by {
                if i != k {
                    assert(after[i] == tasks[i]);
                }
            }
            lemma_last_named_by_names(tasks, after, name, tasks.len() as int);
            assert(last_named(after, name, after.len() as int) == Some(k));
            assert(after[k] == w);
        },
        None => {
            let w = with_event(pending_record(name), read);
            assert(after == tasks.push(w));
            assert(after[after.len() - 1] == w);
            assert(last_named(after, name, after.len() as int) == Some(tasks.len() as int));
        },
    }
}

} // verus!
