use nao::ci_output::{chars_less, ci_log_order, render_ci_output};
use nao::file_path::FilePath;
use nao::run_outcome::{RunExecutionResult, RunStatus, RunTaskResult, TaskFailure};

fn task(name: &str, status: &str, exit_code: Option<i32>, duration: Option<u128>, outcome: Option<&str>) -> RunTaskResult {
    RunTaskResult {
        name: name.to_owned(),
        status: status.to_owned(),
        result: if status == "completed" { "success".to_owned() } else { status.to_owned() },
        exit_code,
        duration_nanos: duration,
        outcome_message: outcome.map(str::to_owned),
        log_path: FilePath::from_str(&format!("{name}.log")),
    }
}

fn result(tasks: Vec<RunTaskResult>, status: RunStatus) -> RunExecutionResult {
    RunExecutionResult {
        output: String::new(),
        goal_tasks: vec!["test".to_owned()],
        total_task_count: tasks.len(),
        duration_nanos: 0,
        run_directory: FilePath::from_str(".nao/runs/x"),
        task_results: tasks,
        goal_outcome_message: None,
        status,
    }
}

#[test]
fn compares_names_by_code_point() {
    assert!(chars_less("alpha", "zeta"));
    assert!(!chars_less("zeta", "alpha"));
    assert!(chars_less("a", "ab"));
    assert!(!chars_less("ab", "ab"));
    assert!(chars_less("B", "a"));
}

#[test]
fn orders_ci_logs_alphabetically_with_failures_last() {
    let run = result(
        vec![
            task("zeta", "completed", Some(0), Some(4), None),
            task("alpha", "failed", Some(7), Some(4), None),
            task("mid", "skipped", None, None, None),
            task("beta", "completed", Some(0), Some(4), None),
        ],
        RunStatus::Completed,
    );
    assert_eq!(ci_log_order(&run), vec![3, 0, 1]);
}

fn renders_ci_output_with_task_logs_and_summary_case() {
    let run = result(
        vec![
            task("build", "completed", Some(0), Some(4), Some("build ready")),
            task("test", "completed", Some(0), Some(4), Some("3 tests passed")),
        ],
        RunStatus::Completed,
    );
    let order = ci_log_order(&run);
    assert_eq!(order, vec![0, 1]);
    let logs = vec![
        "[1970-01-01T00:00:00Z] stdout: Task outcome: build ready\n".to_owned(),
        "[1970-01-01T00:00:00Z] stdout: test ok\n[1970-01-01T00:00:00Z] stdout: Task outcome: 3 tests passed\n".to_owned(),
    ];
    assert_eq!(
        render_ci_output(&run, &order, &logs),
        "Task logs\n== build (completed) ==\n[1970-01-01T00:00:00Z] stdout: Task outcome: build ready\n\n== test (completed) ==\n[1970-01-01T00:00:00Z] stdout: test ok\n[1970-01-01T00:00:00Z] stdout: Task outcome: 3 tests passed\n\nRun summary\n  completed  build  4ns  build ready\n  completed  test   4ns  3 tests passed\n\nOverall result: completed in 0ns\n"
    );
}

fn renders_ci_logs_in_alphabetical_order_with_failures_last_case() {
    let run = result(
        vec![
            task("zeta", "completed", Some(0), Some(4), None),
            task("alpha", "failed", Some(7), Some(4), None),
        ],
        RunStatus::Failed(TaskFailure {
            task_name: "alpha".to_owned(),
            exit_code: 7,
            elapsed_nanos: 4,
            successful_task_count: 1,
            omitted_output_line_count: 0,
            output_tail_lines: vec!["alpha boom".to_owned()],
        }),
    );
    let order = ci_log_order(&run);
    let logs = vec!["zeta ok\n".to_owned(), "alpha boom\n".to_owned()];
    let rendered = render_ci_output(&run, &order, &logs);
    let zeta_index = rendered.find("== zeta (completed) ==").unwrap();
    let alpha_index = rendered.find("== alpha (failed) ==").unwrap();
    assert!(zeta_index < alpha_index);
    assert!(rendered.contains("failed     alpha  4ns  exit 7"));
}

#[test]
fn renders_only_the_summary_when_no_task_ran() {
    let run = result(vec![task("build", "skipped", None, None, None)], RunStatus::Completed);
    let order = ci_log_order(&run);
    assert!(order.is_empty());
    assert_eq!(
        render_ci_output(&run, &order, &Vec::new()),
        "Run summary\n  skipped  build  -\n\nOverall result: completed in 0ns\n"
    );
}

use nao::observer::{ci_task_completed_line, ci_task_failed_line, ci_task_started_line, RunObserver};

#[test]
fn renders_ci_progress_lines() {
    assert_eq!(ci_task_started_line("build"), "Starting build");
    assert_eq!(ci_task_completed_line("build", 1_500, Some("ready")), "Completed build in 1.5us: ready");
    assert_eq!(ci_task_completed_line("build", 4, None), "Completed build in 4ns");
    assert_eq!(ci_task_failed_line("test", 2_000_000_000), "Failed test in 2.0s");
}

struct CountingObserver {
    started: usize,
}

impl RunObserver for CountingObserver {
    fn on_task_started(&mut self, _task_name: &str) {
        self.started += 1;
    }
}

#[test]
fn observer_methods_default_to_doing_nothing() {
    let mut observer = CountingObserver { started: 0 };
    observer.on_task_started("build");
    observer.on_task_completed("build", 1, None);
    observer.on_task_failed("test", 1, Some("boom"));
    observer.on_task_skipped("deploy");
    assert_eq!(observer.started, 1);
}

#[test]
fn runner_renders_ci_output_with_task_logs_and_summary() {
    renders_ci_output_with_task_logs_and_summary_case();
}

#[test]
fn mod_renders_ci_output_with_task_logs_and_summary() {
    renders_ci_output_with_task_logs_and_summary_case();
}

#[test]
fn runner_renders_ci_logs_in_alphabetical_order_with_failures_last() {
    renders_ci_logs_in_alphabetical_order_with_failures_last_case();
}

#[test]
fn mod_renders_ci_logs_in_alphabetical_order_with_failures_last() {
    renders_ci_logs_in_alphabetical_order_with_failures_last_case();
}
