use nao::file_path::FilePath;
use nao::recipe::LiveDisplay;
use nao::recipe_parse::parse_recipe;
use nao::run_outcome::{RunExecutionResult, RunStatus, TaskFailure};
use nao::runner::{live_progress, render_run_result, render_task_list, run_succeeded, LiveProgress};

const RECIPE: &str = r#"
            recipe "default" {
              task "build" description="Build the workspace" {
                run script="./scripts/build.sh"
              }

              task "test" description="Run the test suite" {
                depends-on "build"
                run script="./scripts/test.sh"
              }
            }
            "#;

fn unansi(text: &str) -> String {
    let mut out = String::new();
    let mut chars = text.chars();
    while let Some(c) = chars.next() {
        if c == '\u{1b}' {
            for next in chars.by_ref() {
                if next == 'm' {
                    break;
                }
            }
        } else {
            out.push(c);
        }
    }
    out
}

fn renders_task_list_case() {
    let tasks = parse_recipe(RECIPE).unwrap().tasks;
    assert_eq!(
        unansi(&render_task_list(&tasks, false)),
        "Available tasks:\n\n  build  Build the workspace\n  test   Run the test suite\n"
    );
}

#[test]
fn runner_renders_task_list() {
    renders_task_list_case();
}

#[test]
fn mod_renders_task_list() {
    renders_task_list_case();
}

fn renders_ansi_task_list_case() {
    let tasks = parse_recipe(RECIPE).unwrap().tasks;
    let listed = render_task_list(&tasks, true);
    assert!(listed.contains("\u{1b}[1m"));
    assert_eq!(unansi(&listed), "Available tasks:\n\n  build  Build the workspace\n  test   Run the test suite\n");
    assert!(!render_task_list(&tasks, false).contains('\u{1b}'));
}

#[test]
fn runner_renders_ansi_task_list_for_interactive_terminals() {
    renders_ansi_task_list_case();
}

#[test]
fn mod_renders_ansi_task_list_for_interactive_terminals() {
    renders_ansi_task_list_case();
}

#[test]
fn chooses_live_progress_by_terminal_and_recipe() {
    assert_eq!(live_progress(false, LiveDisplay::SingleLine), LiveProgress::Header);
    assert_eq!(live_progress(true, LiveDisplay::SingleLine), LiveProgress::SingleLine);
    assert_eq!(live_progress(true, LiveDisplay::LinePerTask), LiveProgress::LinePerTask);
}

fn result(status: RunStatus) -> RunExecutionResult {
    RunExecutionResult {
        output: String::new(),
        goal_tasks: vec!["test".to_owned()],
        total_task_count: 2,
        duration_nanos: 0,
        run_directory: FilePath::from_str(".nao/runs/x"),
        task_results: Vec::new(),
        goal_outcome_message: None,
        status,
    }
}

#[test]
fn completed_runs_exit_successfully_with_the_success_summary() {
    let run = result(RunStatus::Completed);
    assert_eq!(unansi(&render_run_result(&run)), "✅ Succeeded test in 0ns (2 tasks)\n");
    assert!(run_succeeded(&run.status));
}

#[test]
fn failed_runs_exit_unsuccessfully_with_the_failure_summary() {
    let run = result(RunStatus::Failed(TaskFailure {
        task_name: "test".to_owned(),
        exit_code: 1,
        elapsed_nanos: 4,
        successful_task_count: 1,
        omitted_output_line_count: 0,
        output_tail_lines: vec!["boom".to_owned()],
    }));
    assert!(!run_succeeded(&run.status));
    let rendered = unansi(&render_run_result(&run));
    assert!(rendered.contains("boom\n"));
    assert!(rendered.ends_with(
        "❌ test failed because test failed with exit code 1 in 4ns after 1 task completed successfully\n"
    ));
}
