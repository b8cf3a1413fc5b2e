use nao::run_outcome::{LogLine, OutputStream, RunStatus};
use nao::run_recording::{task_exit_failed, ProcessResult, RunRecorder, TaskExecutionResult};

fn lines(texts: &[&str]) -> Vec<LogLine> {
    texts
        .iter()
        .enumerate()
        .map(|(index, text)| LogLine {
            timestamp_nanos: index as u128,
            stream: OutputStream::Stdout,
            text: (*text).to_owned(),
        })
        .collect()
}

#[test]
fn exit_code_zero_is_the_only_success() {
    assert!(!task_exit_failed(Some(0)));
    assert!(task_exit_failed(Some(1)));
    assert!(task_exit_failed(Some(-3)));
    assert!(task_exit_failed(None));
}

#[test]
fn records_completed_task_without_failing_the_run() {
    let mut recorder = RunRecorder::new();
    let (record, failed) = recorder.record_task_finished(
        "build",
        TaskExecutionResult::Exited(ProcessResult { exit_code: Some(0), started_at: 10, finished_at: 14 }),
        lines(&["compiling", "Task outcome: build ready"]),
        0,
        20,
        0,
    );
    assert!(!failed);
    assert_eq!(record.status, "completed");
    assert_eq!(record.result, "success");
    assert_eq!(record.started_at, Some(10));
    assert_eq!(record.finished_at, Some(14));
    assert_eq!(record.exit_code, Some(0));
    assert_eq!(record.outcome_message.as_deref(), Some("build ready"));
    assert_eq!(record.log_lines.len(), 2);
    assert!(recorder.failure_message.is_none());
    assert!(matches!(recorder.status, RunStatus::Completed));
}

#[test]
fn first_failed_task_is_the_one_reported() {
    let mut recorder = RunRecorder::new();
    let (record, failed) = recorder.record_task_finished(
        "test",
        TaskExecutionResult::Exited(ProcessResult { exit_code: Some(2), started_at: 0, finished_at: 4 }),
        lines(&["boom"]),
        1,
        9,
        0,
    );
    assert!(failed);
    assert_eq!(record.status, "failed");
    assert_eq!(record.result, "failed");
    assert_eq!(
        recorder.failure_message.as_deref(),
        Some("task `test` failed with exit code 2 after 4ns (1 task completed successfully)")
    );
    let (_, failed_again) = recorder.record_task_finished(
        "lint",
        TaskExecutionResult::Exited(ProcessResult { exit_code: None, started_at: 0, finished_at: 5 }),
        Vec::new(),
        1,
        9,
        0,
    );
    assert!(failed_again);
    assert_eq!(
        recorder.failure_message.as_deref(),
        Some("task `test` failed with exit code 2 after 4ns (1 task completed successfully)")
    );
    match &recorder.status {
        RunStatus::Failed(failure) => {
            assert_eq!(failure.task_name, "test");
            assert_eq!(failure.exit_code, 2);
            assert_eq!(failure.elapsed_nanos, 4);
            assert_eq!(failure.successful_task_count, 1);
            assert_eq!(failure.output_tail_lines, vec!["boom".to_owned()]);
        }
        RunStatus::Completed => panic!("the run should have failed"),
    }
}

#[test]
fn missing_exit_code_is_reported_as_minus_one() {
    let mut recorder = RunRecorder::new();
    recorder.record_task_finished(
        "build",
        TaskExecutionResult::Exited(ProcessResult { exit_code: None, started_at: 3, finished_at: 1 }),
        Vec::new(),
        0,
        9,
        0,
    );
    match &recorder.status {
        RunStatus::Failed(failure) => {
            assert_eq!(failure.exit_code, -1);
            assert_eq!(failure.elapsed_nanos, 0);
        }
        RunStatus::Completed => panic!("the run should have failed"),
    }
}

#[test]
fn execution_error_fails_the_task_relative_to_run_start() {
    let mut recorder = RunRecorder::new();
    let (record, failed) = recorder.record_task_finished(
        "deploy",
        TaskExecutionResult::Error("executable not found".to_owned()),
        lines(&["Task outcome: nothing"]),
        2,
        1_500,
        500,
    );
    assert!(failed);
    assert_eq!(record.status, "failed");
    assert_eq!(record.result, "failed");
    assert_eq!(record.started_at, None);
    assert_eq!(record.finished_at, Some(1_500));
    assert_eq!(record.exit_code, None);
    assert_eq!(record.outcome_message.as_deref(), Some("nothing"));
    assert_eq!(
        recorder.failure_message.as_deref(),
        Some("task `deploy` failed after 1.0us (2 tasks completed successfully): executable not found")
    );
    match &recorder.status {
        RunStatus::Failed(failure) => {
            assert_eq!(failure.exit_code, -1);
            assert_eq!(failure.elapsed_nanos, 1_000);
        }
        RunStatus::Completed => panic!("the run should have failed"),
    }
}

use nao::file_path::FilePath;
use nao::planning::plan_recipe_run;
use nao::recipe_parse::parse_recipe;
use nao::run_recording::{execution_result, overall_result, run_task_result};

const RECIPE: &str = r#"
            recipe "default" {
              task "build" {
                run script="./scripts/build.sh"
              }
              task "test" {
                depends-on "build"
                run script="./scripts/test.sh"
              }
            }
            "#;

#[test]
fn assembles_the_result_of_an_executed_run() {
    let recipe = parse_recipe(RECIPE).unwrap();
    let plan = plan_recipe_run(&recipe, &vec!["test".to_owned()]).unwrap();
    let mut recorder = RunRecorder::new();
    let (build, _) = recorder.record_task_finished(
        "build",
        TaskExecutionResult::Exited(ProcessResult { exit_code: Some(0), started_at: 1, finished_at: 5 }),
        Vec::new(),
        0,
        9,
        0,
    );
    let (test, _) = recorder.record_task_finished(
        "test",
        TaskExecutionResult::Exited(ProcessResult { exit_code: Some(0), started_at: 5, finished_at: 9 }),
        lines(&["Task outcome: 3 tests passed"]),
        1,
        9,
        0,
    );
    let records = vec![build, test];
    assert_eq!(overall_result(&recorder.status), "completed");
    let result = execution_result(
        "output".to_owned(),
        &plan,
        &records,
        0,
        12,
        FilePath::from_str(".nao/runs/r"),
        recorder.status,
    );
    assert_eq!(result.goal_tasks, vec!["test".to_owned()]);
    assert_eq!(result.total_task_count, 2);
    assert_eq!(result.duration_nanos, 12);
    assert_eq!(result.task_results[1].duration_nanos, Some(4));
    assert_eq!(result.task_results[1].log_path.as_str(), ".nao/runs/r/test.log");
    assert_eq!(result.goal_outcome_message.as_deref(), Some("3 tests passed"));
    let skipped = run_task_result(&nao::run_outcome::TaskArtifactRecord {
        name: "lint all".to_owned(),
        status: "skipped".to_owned(),
        result: "skipped".to_owned(),
        started_at: None,
        finished_at: Some(3),
        exit_code: None,
        outcome_message: None,
        log_lines: Vec::new(),
    }, &FilePath::from_str(".nao/runs/r"));
    assert_eq!(skipped.duration_nanos, None);
    assert_eq!(skipped.log_path.as_str(), ".nao/runs/r/lint_all.log");
}
