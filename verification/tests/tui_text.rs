use nao::file_path::FilePath;
use nao::navigation::Focus;
use nao::run_history::{run_detail_record, RunDetailRecord, RunEventRecord, RunSummaryRecord, SummaryFile, SummaryTask};
use nao::launcher::NameSet;
use nao::recipe_parse::parse_recipe;
use nao::tui_text::{
    detail_footer, launcher_footer, launcher_task_details_lines, launcher_task_row_text,
    detail_event_line, detail_summary_lines, detail_task_row_text, failed_output_title, focus_label,
    history_details_lines, history_row, launcher_progress_lines, screen_header,
};

fn detail() -> RunDetailRecord {
    let summary = SummaryFile {
        result: "completed".to_owned(),
        failure_message: None,
        requested_tasks: vec!["test".to_owned()],
        duration_nanos: Some("10".to_owned()),
        tasks: vec![SummaryTask {
            name: "test".to_owned(),
            status: "completed".to_owned(),
            result: "success".to_owned(),
            exit_code: Some(0),
            outcome_message: Some("30 tests passed".to_owned()),
            duration_nanos: Some("10".to_owned()),
            log_file: "test.log".to_owned(),
        }],
    };
    run_detail_record(&FilePath::from_str(".nao/runs/2026-03-20T10-00-00Z-test"), Some(&summary), None, Vec::new())
}

fn launcher_progress_includes_task_outcomes_case() {
    let detail = detail();
    let rendered = launcher_progress_lines(Some(&detail), 0).join("\n");
    assert!(rendered.contains("30 tests passed"));
    assert_eq!(
        rendered,
        "run: 2026-03-20T10-00-00Z-test\nresult: completed\ngoals: test\n\n✅ test                  10ns  30 tests passed\n\n🏁 total 10ns"
    );
}

#[test]
fn launcher_progress_waits_for_run_data_and_marks_running_and_failed_tasks() {
    assert_eq!(launcher_progress_lines(None, 0), vec!["waiting for run data...".to_owned()]);
    let mut detail = detail();
    detail.result = "running".to_owned();
    detail.requested_tasks = Vec::new();
    detail.tasks[0].status = "running".to_owned();
    detail.tasks[0].duration_nanos = None;
    detail.tasks[0].outcome_message = None;
    let lines = launcher_progress_lines(Some(&detail), 1);
    assert_eq!(lines[2], "goals: -");
    assert_eq!(lines[4], "⠙  test                  running");
    assert_eq!(lines.len(), 5);
    detail.tasks[0].status = "failed".to_owned();
    detail.tasks[0].exit_code = Some(3);
    assert_eq!(launcher_progress_lines(Some(&detail), 0)[4], "❌ test                  exit 3");
    detail.tasks.clear();
    assert_eq!(launcher_progress_lines(Some(&detail), 0).last().map(String::as_str), Some("no tasks"));
}

#[test]
fn renders_history_entries() {
    let run = RunSummaryRecord {
        run_directory: FilePath::from_str(".nao/runs/r1"),
        run_id: "r1".to_owned(),
        requested_tasks: vec!["build".to_owned(), "test".to_owned()],
        result: "failed".to_owned(),
        failure_message: Some("boom".to_owned()),
        task_count: 2,
    };
    assert_eq!(history_row(&run), "r1   failed");
    assert_eq!(
        history_details_lines(Some(&run)),
        vec!["goals: build, test", "result: failed", "tasks: 2", "failure: boom"]
    );
    assert_eq!(history_details_lines(None), vec!["no runs"]);
}

#[test]
fn renders_run_detail_panes() {
    let detail = detail();
    assert_eq!(detail_task_row_text(&detail.tasks[0]), "test                 completed  exit 0 outcome: 30 tests passed");
    let event = RunEventRecord {
        event_type: "task_started".to_owned(),
        timestamp: "2026-03-20T10:00:01Z".to_owned(),
        task_name: Some("test".to_owned()),
        status: None,
        result: None,
        exit_code: None,
        outcome_message: None,
        duration_nanos: None,
    };
    assert_eq!(detail_event_line(&event), "2026-03-20T10:00:01Z task_started test");
    assert_eq!(
        detail_summary_lines(Some(&detail), 0, true),
        vec![
            "requested tasks: test",
            "result: completed",
            "failure: -",
            "selected task: test",
            "selected outcome: 30 tests passed",
            "auto-follow: on",
        ]
    );
    assert_eq!(detail_summary_lines(Some(&detail), 5, false)[3], "selected task: -");
    assert_eq!(detail_summary_lines(None, 0, false), vec!["no run selected"]);
    assert_eq!(focus_label(Focus::DetailOutput), "task output");
    assert_eq!(screen_header("Run Detail", "run: r1"), "nao TUI | screen: Run Detail | run: r1");
    assert_eq!(screen_header("Run History", ""), "nao TUI | screen: Run History");
    assert_eq!(failed_output_title(Some("build")), "Failed Task Output: build");
    assert_eq!(failed_output_title(None), "Failed Task Output");
}

#[test]
fn app_launcher_progress_includes_task_outcomes() {
    launcher_progress_includes_task_outcomes_case();
}

#[test]
fn tests_launcher_progress_includes_task_outcomes() {
    launcher_progress_includes_task_outcomes_case();
}

#[test]
fn renders_launcher_task_rows_details_and_footer() {
    let recipe = parse_recipe(
        r#"
            recipe "default" {
              task "build" description="Build" {
                run script="./scripts/build.sh"
              }
              task "test" {
                depends-on "build"
                run script="./scripts/test.sh"
              }
            }
            "#,
    )
    .unwrap();
    assert_eq!(launcher_task_row_text(&recipe.tasks[0], true), "[x] build                Build");
    assert_eq!(launcher_task_row_text(&recipe.tasks[1], false), "[ ] test                 -");
    assert_eq!(launcher_task_details_lines(Some(&recipe.tasks[1])), vec!["name: test", "deps: build", "description: -"]);
    assert_eq!(launcher_task_details_lines(Some(&recipe.tasks[0]))[1], "deps: -");
    assert_eq!(launcher_task_details_lines(None), vec!["no tasks"]);
    let mut picked = NameSet::new();
    assert!(launcher_footer(&picked).starts_with("Selected goals: - |"));
    picked.toggle("test");
    picked.toggle("build");
    assert!(launcher_footer(&picked).starts_with("Selected goals: build, test | Space toggle"));
    assert!(detail_footer(Focus::DetailEvents).starts_with("Focus events | Tab pane"));
}
