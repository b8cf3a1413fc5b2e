use nao::artifact_records::{format_wall_time, render_task_log, run_summary_file, task_finished_event, task_summary_entry};
use nao::file_path::FilePath;
use nao::run_history::{parse_u128, run_detail_record, PlanFile, RunEventRecord, SummaryFile, SummaryTask};
use nao::run_outcome::{LogLine, OutputStream, RunStatus, TaskArtifactRecord, TaskFailure};
use nao::run_recording::overall_result;

const START_UNIX: i128 = 1_773_921_600_000_000_000;
const START_AT: u128 = 500;

fn record(started_at: Option<u128>, finished_at: Option<u128>) -> TaskArtifactRecord {
    TaskArtifactRecord {
        name: "unit tests".to_owned(),
        status: "completed".to_owned(),
        result: "success".to_owned(),
        started_at,
        finished_at,
        exit_code: Some(0),
        outcome_message: Some("30 tests passed".to_owned()),
        log_lines: vec![
            LogLine { timestamp_nanos: 1_000_000_500, stream: OutputStream::Stdout, text: "compiling".to_owned() },
            LogLine { timestamp_nanos: 2_000_000_500, stream: OutputStream::Stderr, text: "warning".to_owned() },
        ],
    }
}

#[test]
fn dates_monotonic_times_from_the_run_start() {
    assert_eq!(format_wall_time(START_UNIX, START_AT, START_AT), "2026-03-19T12:00:00Z");
    assert_eq!(format_wall_time(START_UNIX, START_AT, 0), "2026-03-19T12:00:00Z");
    assert_eq!(format_wall_time(START_UNIX, START_AT, 61_000_000_500), "2026-03-19T12:01:01Z");
}

#[test]
fn renders_task_log_files() {
    let task = record(Some(500), Some(3_000_000_500));
    assert_eq!(
        render_task_log(START_UNIX, START_AT, &task.log_lines),
        "[2026-03-19T12:00:01Z] stdout: compiling\n[2026-03-19T12:00:02Z] stderr: warning\n"
    );
    assert_eq!(render_task_log(START_UNIX, START_AT, &Vec::new()), "");
}

#[test]
fn summarizes_finished_tasks() {
    let task = record(Some(500), Some(3_000_000_500));
    let entry = task_summary_entry(&task, START_UNIX, START_AT);
    assert_eq!(entry.started_at.as_deref(), Some("2026-03-19T12:00:00Z"));
    assert_eq!(entry.finished_at.as_deref(), Some("2026-03-19T12:00:03Z"));
    assert_eq!(entry.duration_nanos.as_deref(), Some("3000000000"));
    assert_eq!(entry.log_file, "unit_tests.log");
    let event = task_finished_event(&task, START_UNIX, START_AT);
    assert_eq!(event.timestamp, "2026-03-19T12:00:03Z");
    assert_eq!(event.outcome_message.as_deref(), Some("30 tests passed"));
    let skipped = record(None, Some(9_000_000_500));
    let skipped_entry = task_summary_entry(&skipped, START_UNIX, START_AT);
    assert_eq!(skipped_entry.started_at, None);
    assert_eq!(skipped_entry.duration_nanos, None);
    let never = task_finished_event(&record(None, None), START_UNIX, START_AT);
    assert_eq!(never.timestamp, "2026-03-19T12:00:00Z");
}

#[test]
fn summarizes_completed_runs() {
    let tasks = vec![record(Some(500), Some(3_000_000_500))];
    let summary = run_summary_file(
        &vec!["test".to_owned()],
        &tasks,
        10_000_000_500,
        "completed",
        None,
        START_UNIX,
        START_AT,
    );
    assert_eq!(summary.started_at, "2026-03-19T12:00:00Z");
    assert_eq!(summary.finished_at, "2026-03-19T12:00:10Z");
    assert_eq!(summary.duration_nanos, "10000000000");
    assert_eq!(summary.requested_tasks, vec!["test".to_owned()]);
    assert_eq!(summary.tasks.len(), 1);
    assert_eq!(summary.failure_message, None);
}

#[test]
fn run_detail_reads_back_the_written_summary() {
    let task = record(Some(500), Some(3_000_000_500));
    let written = run_summary_file(
        &vec!["unit tests".to_owned()],
        &vec![task],
        7_000_000_500,
        "completed",
        None,
        START_UNIX,
        START_AT,
    );
    let read = SummaryFile {
        result: written.result.clone(),
        failure_message: written.failure_message.clone(),
        requested_tasks: written.requested_tasks.clone(),
        duration_nanos: Some(written.duration_nanos.clone()),
        tasks: written
            .tasks
            .iter()
            .map(|entry| SummaryTask {
                name: entry.name.clone(),
                status: entry.status.clone(),
                result: entry.result.clone(),
                exit_code: entry.exit_code,
                outcome_message: entry.outcome_message.clone(),
                duration_nanos: entry.duration_nanos.clone(),
                log_file: entry.log_file.clone(),
            })
            .collect(),
    };
    let detail = run_detail_record(&FilePath::from_str(".nao/runs/run-1"), Some(&read), None, Vec::new());
    assert_eq!(detail.result, "completed");
    assert_eq!(detail.requested_tasks, vec!["unit tests".to_owned()]);
    assert_eq!(detail.duration_nanos, Some(7_000_000_000));
    assert_eq!(detail.failure_message, None);
    assert_eq!(detail.tasks.len(), 1);
    assert_eq!(detail.tasks[0].name, "unit tests");
    assert_eq!(detail.tasks[0].status, "completed");
    assert_eq!(detail.tasks[0].exit_code, Some(0));
    assert_eq!(detail.tasks[0].outcome_message.as_deref(), Some("30 tests passed"));
    assert_eq!(detail.tasks[0].duration_nanos, Some(3_000_000_000));
    assert_eq!(detail.tasks[0].log_file.as_str(), "unit_tests.log");
}

#[test]
fn running_run_detail_reads_back_a_finished_task_event() {
    let task = record(Some(500), Some(3_000_000_500));
    let written = task_finished_event(&task, START_UNIX, START_AT);
    let read = RunEventRecord {
        event_type: "task_finished".to_owned(),
        timestamp: written.timestamp.clone(),
        task_name: Some(written.task.clone()),
        status: Some(written.status.clone()),
        result: Some(written.result.clone()),
        exit_code: written.exit_code,
        outcome_message: written.outcome_message.clone(),
        duration_nanos: written.duration_nanos.as_deref().and_then(parse_u128),
    };
    let plan = PlanFile { requested_tasks: vec!["unit tests".to_owned()], task_names: vec!["unit tests".to_owned()] };
    let detail = run_detail_record(&FilePath::from_str(".nao/runs/run-2"), None, Some(&plan), vec![read]);
    assert_eq!(detail.tasks.len(), 1);
    assert_eq!(detail.tasks[0].status, "completed");
    assert_eq!(detail.tasks[0].result, "success");
    assert_eq!(detail.tasks[0].exit_code, Some(0));
    assert_eq!(detail.tasks[0].outcome_message.as_deref(), Some("30 tests passed"));
    assert_eq!(detail.tasks[0].duration_nanos, Some(3_000_000_000));
}

#[test]
fn a_summary_says_failed_when_a_task_failed() {
    let mut failed = record(Some(500), Some(3_000_000_500));
    failed.status = "failed".to_owned();
    failed.result = "failed".to_owned();
    let status = RunStatus::Failed(TaskFailure {
        task_name: "unit tests".to_owned(),
        exit_code: 1,
        elapsed_nanos: 3_000_000_000,
        successful_task_count: 0,
        omitted_output_line_count: 0,
        output_tail_lines: Vec::new(),
    });
    let summary = run_summary_file(
        &vec!["unit tests".to_owned()],
        &vec![failed],
        4_000_000_500,
        overall_result(&status),
        Some("task `unit tests` failed with exit code 1 after 3.0s (0 tasks completed successfully)"),
        START_UNIX,
        START_AT,
    );
    assert_eq!(summary.result, "failed");
    assert!(summary.failure_message.is_some());
    assert_eq!(overall_result(&RunStatus::Completed), "completed");
}
