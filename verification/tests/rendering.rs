use nao::duration::pretty_duration;
use nao::file_path::FilePath;
use nao::recipe::TaskName;
use nao::rendering::{
    render_ci_summary, render_failure_summary, render_line_per_task_display, render_live_task_status,
    line_per_task_frame, next_frame_index, render_running_line, render_running_line_body, render_single_line_display,
    render_success_summary, single_line_frame, style_bold_white, LiveTaskSnapshot, LiveTaskState, LiveTaskStatus,
};
use nao::run_outcome::{RunExecutionResult, RunStatus, RunTaskResult, TaskFailure};

fn unansi(text: &str) -> String {
    let mut out = String::new();
    let mut chars = text.chars().peekable();
    while let Some(c) = chars.next() {
        if c == '\u{1b}' {
            for next in chars.by_ref() {
                if next == 'm' {
                    break;
                }
            }
        } else {
            out.push(c);
        }
    }
    out
}

fn state(name: &str, status: LiveTaskStatus, elapsed: Option<u128>, outcome: Option<&str>) -> LiveTaskState {
    LiveTaskState {
        name: name.to_owned(),
        status,
        elapsed_nanos: elapsed,
        status_message: None,
        outcome_message: outcome.map(str::to_owned),
    }
}

fn failure(omitted: usize, lines: &[&str]) -> TaskFailure {
    TaskFailure {
        task_name: "fail3".to_owned(),
        exit_code: 1,
        elapsed_nanos: 2_500_000,
        successful_task_count: 2,
        omitted_output_line_count: omitted,
        output_tail_lines: lines.iter().map(|line| line.to_string()).collect(),
    }
}

#[test]
fn rendering_pretty_prints_durations() {
    assert_eq!(pretty_duration(4), "4ns");
    assert_eq!(pretty_duration(1_500), "1.5us");
    assert_eq!(pretty_duration(2_500_000), "2.5ms");
    assert_eq!(pretty_duration(3_000_000_000), "3.0s");
}

#[test]
fn runner_pretty_prints_durations() {
    assert_eq!(pretty_duration(4), "4ns");
    assert_eq!(pretty_duration(1_500), "1.5us");
    assert_eq!(pretty_duration(2_500_000), "2.5ms");
    assert_eq!(pretty_duration(3_000_000_000), "3.0s");
}

#[test]
fn rendering_renders_multiple_goal_tasks_with_bold_comma_joining() {
    let rendered = render_success_summary(&vec!["lint".to_owned(), "test".to_owned()], 5, 2_500_000, None);
    assert_eq!(unansi(&rendered), "✅ Succeeded lint,test in 2.5ms (5 tasks)\n");
    assert!(rendered.contains(&style_bold_white("lint,test")));
}

#[test]
fn runner_renders_multiple_goal_tasks_with_bold_comma_joining() {
    let rendered = render_success_summary(&vec!["lint".to_owned(), "test".to_owned()], 5, 2_500_000, None);
    assert_eq!(unansi(&rendered), "✅ Succeeded lint,test in 2.5ms (5 tasks)\n");
}

#[test]
fn rendering_renders_running_line_with_prerequisite_count() {
    let rendered = render_running_line(&render_running_line_body(
        &vec![TaskName("lint".to_owned()), TaskName("test".to_owned())],
        5,
    ));
    assert_eq!(unansi(&rendered), "🚀 Running lint,test and 3 prerequisite tasks\n");
}

#[test]
fn runner_renders_running_line_with_prerequisite_count() {
    let rendered = render_running_line(&render_running_line_body(
        &vec![TaskName("lint".to_owned()), TaskName("test".to_owned())],
        5,
    ));
    assert_eq!(unansi(&rendered), "🚀 Running lint,test and 3 prerequisite tasks\n");
}

#[test]
fn running_line_counts_one_prerequisite_and_never_less_than_none() {
    let one = render_running_line_body(&vec![TaskName("test".to_owned())], 2);
    assert_eq!(unansi(&one), "Running test and 1 prerequisite task");
    let none = render_running_line_body(&vec![TaskName("a".to_owned()), TaskName("b".to_owned())], 1);
    assert_eq!(unansi(&none), "Running a,b and 0 prerequisite tasks");
}

#[test]
fn rendering_renders_success_summary_with_goal_outcome() {
    let rendered = render_success_summary(&vec!["test".to_owned()], 2, 2_500_000, Some("30 tests succeeded"));
    assert_eq!(unansi(&rendered), "✅ Succeeded test in 2.5ms (2 tasks): 30 tests succeeded\n");
}

#[test]
fn runner_renders_success_summary_with_goal_outcome() {
    let rendered = render_success_summary(&vec!["test".to_owned()], 2, 2_500_000, Some("30 tests succeeded"));
    assert_eq!(unansi(&rendered), "✅ Succeeded test in 2.5ms (2 tasks): 30 tests succeeded\n");
}

#[test]
fn rendering_renders_failure_summary_for_multiple_completed_tasks() {
    let rendered = render_failure_summary(&vec!["fail5".to_owned()], &failure(0, &["line one", "line two"]));
    assert_eq!(
        unansi(&rendered),
        "╭───────── fail3 output: (0 lines omitted) ─────────╮\nline one\nline two\n╰───────── fail3 output: (0 lines omitted) ─────────╯\n\n❌ fail5 failed because fail3 failed with exit code 1 in 2.5ms after 2 tasks completed successfully\n"
    );
}

#[test]
fn runner_renders_failure_summary_for_multiple_completed_tasks() {
    let rendered = render_failure_summary(&vec!["fail5".to_owned()], &failure(0, &["line one", "line two"]));
    assert!(unansi(&rendered).starts_with("╭───────── fail3 output: (0 lines omitted) ─────────╮\nline one\n"));
}

#[test]
fn rendering_renders_failure_summary_with_omitted_line_notice() {
    let rendered = render_failure_summary(&vec!["fail5".to_owned()], &failure(23, &["kept line 1", "kept line 2"]));
    assert_eq!(
        unansi(&rendered),
        "╭───────── fail3 output: (23 lines omitted) ─────────╮\nkept line 1\nkept line 2\n╰───────── fail3 output: (23 lines omitted) ─────────╯\n\n❌ fail5 failed because fail3 failed with exit code 1 in 2.5ms after 2 tasks completed successfully\n"
    );
}

#[test]
fn runner_renders_failure_summary_with_omitted_line_notice() {
    let rendered = render_failure_summary(&vec!["fail5".to_owned()], &failure(23, &["kept line 1", "kept line 2"]));
    assert!(unansi(&rendered).contains("(23 lines omitted)"));
}

fn line_per_task_snapshot() -> LiveTaskSnapshot {
    LiveTaskSnapshot {
        header: "Running test and 1 prerequisite task".to_owned(),
        tasks: vec![
            state("build", LiveTaskStatus::Completed, Some(4_000_000), Some("build ready")),
            state("test", LiveTaskStatus::Running, None, None),
            state("lint", LiveTaskStatus::Running, None, None),
            state("publish", LiveTaskStatus::Skipped, None, None),
            state("cleanup", LiveTaskStatus::Failed, Some(12_345_678_901), Some("3 files uploaded")),
        ],
    }
}

const LINE_PER_TASK: &str = "🚀 Running test and 1 prerequisite task\n  ✅ build     0.004s  build ready     \n  ⠙  test     running\n  ⠙  lint     running\n  ⏭  publish\n  ❌ cleanup  12.346s  3 files uploaded\n";

#[test]
fn live_display_renders_line_per_task_display() {
    let rendered = render_line_per_task_display(line_per_task_snapshot(), "⠙");
    assert_eq!(unansi(&rendered), LINE_PER_TASK);
}

#[test]
fn a_line_per_task_frame_has_one_line_per_task_plus_the_header() {
    let snapshot = line_per_task_snapshot();
    let task_count = snapshot.tasks.len();
    let frame = render_line_per_task_display(snapshot, "⠋");
    assert_eq!(frame.matches('\n').count(), task_count + 1);
    assert!(frame.ends_with('\n'));
    assert!(frame.starts_with("🚀 "));
}

#[test]
fn runner_renders_line_per_task_display() {
    let rendered = render_line_per_task_display(line_per_task_snapshot(), "⠙");
    assert_eq!(unansi(&rendered), LINE_PER_TASK);
}

#[test]
fn line_per_task_display_renders_line_per_task_display() {
    let rendered = render_line_per_task_display(line_per_task_snapshot(), "⠙");
    assert_eq!(unansi(&rendered), LINE_PER_TASK);
}

fn single_line_snapshot() -> LiveTaskSnapshot {
    LiveTaskSnapshot {
        header: "Running test and 2 prerequisite tasks".to_owned(),
        tasks: vec![
            state("build", LiveTaskStatus::Completed, Some(4_000_000), None),
            state("lint", LiveTaskStatus::Running, None, None),
            state("test", LiveTaskStatus::Running, None, None),
            state("publish", LiveTaskStatus::Pending, None, None),
        ],
    }
}

#[test]
fn live_display_renders_single_line_display_with_concurrent_progress() {
    assert_eq!(
        unansi(&render_single_line_display(single_line_snapshot())),
        "Running test and 2 prerequisite tasks (running: 2, completed: 1, remaining: 1)"
    );
}

#[test]
fn single_line_display_renders_single_line_display_with_concurrent_progress() {
    let mut snapshot = single_line_snapshot();
    snapshot.tasks[1].status_message = Some("2/5".to_owned());
    assert_eq!(
        unansi(&render_single_line_display(snapshot)),
        "Running test and 2 prerequisite tasks (running: 2, completed: 1, remaining: 1) — lint: 2/5"
    );
}

#[test]
fn status_messages_of_running_tasks_are_joined_and_cleared_on_update() {
    let mut both = single_line_snapshot();
    assert!(both.set_status_message("lint", "2/5"));
    assert!(both.set_status_message("test", "compiling"));
    assert!(!both.set_status_message("deploy", "x"));
    assert_eq!(both.tasks[1].status_message.as_deref(), Some("2/5"));
    assert_eq!(
        unansi(&render_single_line_display(both)),
        "Running test and 2 prerequisite tasks (running: 2, completed: 1, remaining: 1) — lint: 2/5, test: compiling"
    );
    let mut updated = single_line_snapshot();
    assert!(updated.set_status_message("lint", "2/5"));
    assert!(updated.set_status_message("test", "compiling"));
    assert!(updated.update_task("lint", LiveTaskStatus::Completed, Some(1_000), None));
    assert_eq!(updated.tasks[1].status_message, None);
    assert_eq!(
        unansi(&render_single_line_display(updated)),
        "Running test and 2 prerequisite tasks (running: 1, completed: 2, remaining: 1) — test: compiling"
    );
}

#[test]
fn runner_renders_single_line_display_with_concurrent_progress() {
    assert_eq!(
        unansi(&render_single_line_display(single_line_snapshot())),
        "Running test and 2 prerequisite tasks (running: 2, completed: 1, remaining: 1)"
    );
}

#[test]
fn line_per_task_rows_show_outcomes_without_durations() {
    let snapshot = LiveTaskSnapshot {
        header: "h".to_owned(),
        tasks: vec![
            state("a", LiveTaskStatus::Pending, None, Some("queued")),
            state("bb", LiveTaskStatus::Completed, Some(1_500_000_000), None),
        ],
    };
    assert_eq!(
        unansi(&render_line_per_task_display(snapshot, "*")),
        "🚀 h\n  ○  a           queued\n  ✅ bb  1.500s\n"
    );
    assert_eq!(unansi(&render_live_task_status(LiveTaskStatus::Running, "⠋")), "⠋ ");
}

#[test]
fn renders_ci_summary_table() {
    let result = RunExecutionResult {
        output: String::new(),
        goal_tasks: vec!["test".to_owned()],
        total_task_count: 2,
        duration_nanos: 3_000_000_000,
        run_directory: FilePath::from_str(".nao/runs/x"),
        task_results: vec![
            RunTaskResult {
                name: "build".to_owned(),
                status: "completed".to_owned(),
                result: "success".to_owned(),
                exit_code: Some(0),
                duration_nanos: Some(2_500_000),
                outcome_message: Some("ready".to_owned()),
                log_path: FilePath::from_str("build.log"),
            },
            RunTaskResult {
                name: "test".to_owned(),
                status: "failed".to_owned(),
                result: "failure".to_owned(),
                exit_code: Some(2),
                duration_nanos: None,
                outcome_message: None,
                log_path: FilePath::from_str("test.log"),
            },
        ],
        goal_outcome_message: None,
        status: RunStatus::Failed(TaskFailure {
            task_name: "test".to_owned(),
            exit_code: 2,
            elapsed_nanos: 1,
            successful_task_count: 1,
            omitted_output_line_count: 0,
            output_tail_lines: Vec::new(),
        }),
    };
    assert_eq!(
        render_ci_summary(&result),
        "Run summary\n  completed  build  2.5ms  ready\n  failed     test       -  exit 2\n\nOverall result: failed in 3.0s\nFailure: test failed with exit code 2\n"
    );
}

#[test]
fn live_snapshot_updates_the_named_task() {
    let mut snapshot = LiveTaskSnapshot {
        header: "h".to_owned(),
        tasks: vec![
            state("build", LiveTaskStatus::Pending, None, None),
            state("test", LiveTaskStatus::Pending, None, None),
        ],
    };
    assert!(snapshot.update_task("test", LiveTaskStatus::Completed, Some(4_000_000), Some("ok")));
    assert_eq!(snapshot.tasks[1].status, LiveTaskStatus::Completed);
    assert_eq!(snapshot.tasks[1].elapsed_nanos, Some(4_000_000));
    assert_eq!(snapshot.tasks[1].outcome_message.as_deref(), Some("ok"));
    assert_eq!(snapshot.tasks[0].status, LiveTaskStatus::Pending);
    assert!(!snapshot.update_task("deploy", LiveTaskStatus::Running, None, None));
    assert_eq!(
        unansi(&render_single_line_display(snapshot)),
        "h (running: 0, completed: 1, remaining: 1)"
    );
}

#[test]
fn live_frames_redraw_over_the_previous_frame() {
    let first = line_per_task_frame(line_per_task_snapshot(), "⠙", true);
    assert_eq!(unansi(&first), LINE_PER_TASK);
    let later = line_per_task_frame(line_per_task_snapshot(), "⠙", false);
    assert!(later.starts_with("\u{1b}[6F\u{1b}[J🚀 "));
    let line = render_single_line_display(single_line_snapshot());
    let running = single_line_frame(single_line_snapshot(), "⠋", false);
    assert_eq!(running, format!("\r⠋ {line}\u{1b}[K"));
    let stopped = single_line_frame(single_line_snapshot(), "⠋", true);
    assert_eq!(stopped, format!("\r🚀 {line}\u{1b}[K\n"));
    assert_eq!(next_frame_index(3, 10), 4);
    assert_eq!(next_frame_index(9, 10), 0);
}
