use nao::artifacts::render_log_line;
use nao::run_outcome::OutputStream;
use nao::file_path::FilePath;
use nao::run_history::{
    build_task_records, collect_event_lines, is_blank_line, live_result_from_events, newest_first_run_names,
    parse_u128, run_detail_record, run_id_from_directory, run_summary_from_summary, strip_log_metadata_prefix,
    task_log_display_lines, EventLine, PlanFile, RunEventRecord, SummaryFile, SummaryTask,
};

fn event(event_type: &str, task: Option<&str>) -> RunEventRecord {
    RunEventRecord {
        event_type: event_type.to_owned(),
        timestamp: "2026-03-19T12:00:01Z".to_owned(),
        task_name: task.map(str::to_owned),
        status: None,
        result: None,
        exit_code: None,
        outcome_message: None,
        duration_nanos: None,
    }
}

fn summary(result: &str, requested: &str, tasks: Vec<SummaryTask>) -> SummaryFile {
    SummaryFile {
        result: result.to_owned(),
        failure_message: None,
        requested_tasks: vec![requested.to_owned()],
        duration_nanos: Some("10".to_owned()),
        tasks,
    }
}

#[test]
fn parses_durations_like_str_parse() {
    assert_eq!(parse_u128("10"), Some(10));
    assert_eq!(parse_u128("+7"), Some(7));
    assert_eq!(parse_u128("340282366920938463463374607431768211455"), Some(u128::MAX));
    assert_eq!(parse_u128("340282366920938463463374607431768211456"), None);
    assert_eq!(parse_u128(""), None);
    assert_eq!(parse_u128("+"), None);
    assert_eq!(parse_u128("-1"), None);
    assert_eq!(parse_u128(" 1"), None);
    assert_eq!(parse_u128("1x"), None);
    for text in ["0", "42", "+0", "0099", "18446744073709551616"] {
        assert_eq!(parse_u128(text), text.parse::<u128>().ok());
    }
}

#[test]
fn discovers_runs_and_sorts_latest_first() {
    let names = vec![
        "2026-03-19T11-00-00Z-build".to_owned(),
        "2026-03-19T12-00-00Z-test".to_owned(),
        "2026-03-19T11-00-00Z-build".to_owned(),
    ];
    let ordered = newest_first_run_names(&names);
    assert_eq!(ordered, vec!["2026-03-19T12-00-00Z-test".to_owned(), "2026-03-19T11-00-00Z-build".to_owned()]);
    let newest = run_summary_from_summary(
        &FilePath::from_str(".nao/runs/2026-03-19T12-00-00Z-test"),
        &summary("completed", "test", Vec::new()),
    );
    let mut failed = summary("failed", "build", Vec::new());
    failed.failure_message = Some("boom".to_owned());
    let older = run_summary_from_summary(&FilePath::from_str(".nao/runs/2026-03-19T11-00-00Z-build"), &failed);
    let rendered = [newest, older]
        .iter()
        .map(|run| format!("{} {}", run.run_id, run.result))
        .collect::<Vec<_>>()
        .join("\n");
    assert_eq!(rendered, "2026-03-19T12-00-00Z-test completed\n2026-03-19T11-00-00Z-build failed");
}

#[test]
fn tolerates_partially_written_events_for_active_run() {
    let content = "{\"type\":\"run_started\",\"timestamp\":\"2026-03-19T12:00:00Z\",\"requested_tasks\":[\"test\"]}\n{\"type\":\"task_started\",\"timestamp\":\"2026-03-19T12:00:01Z\",\"task\":\"build\"}\n{\"type\":\"task_finished\"";
    let lines = vec![
        EventLine::Parsed(event("run_started", None)),
        EventLine::Parsed(event("task_started", Some("build"))),
        EventLine::Unparsable,
    ];
    let events = collect_event_lines(&lines, content.ends_with('\n')).unwrap();
    assert_eq!(events.len(), 2);
    let plan = PlanFile {
        requested_tasks: vec!["test".to_owned()],
        task_names: vec!["build".to_owned(), "test".to_owned()],
    };
    let detail = run_detail_record(
        &FilePath::from_str(".nao/runs/2026-03-19T12-00-00Z-test"),
        None,
        Some(&plan),
        events,
    );
    let rendered = detail
        .tasks
        .iter()
        .map(|task| format!("{} {}", task.name, task.status))
        .collect::<Vec<_>>()
        .join("\n");
    assert_eq!(rendered, "build running\ntest pending");
    assert_eq!(detail.result, "running");
    assert_eq!(detail.run_id, "2026-03-19T12-00-00Z-test");
    assert_eq!(detail.requested_tasks, vec!["test".to_owned()]);
}

#[test]
fn rejects_an_unparsable_line_that_is_not_being_written() {
    let lines = vec![EventLine::Unparsable, EventLine::Parsed(event("run_started", None))];
    assert_eq!(collect_event_lines(&lines, true).unwrap_err(), 0);
    let last = vec![EventLine::Blank, EventLine::Unparsable];
    assert_eq!(collect_event_lines(&last, true).unwrap_err(), 1);
    assert!(collect_event_lines(&last, false).unwrap().is_empty());
    assert!(is_blank_line("  \t"));
    assert!(!is_blank_line(" x "));
}

#[test]
fn loads_persisted_task_outcomes_from_summary_and_events() {
    let task = SummaryTask {
        name: "test".to_owned(),
        status: "completed".to_owned(),
        result: "success".to_owned(),
        exit_code: Some(0),
        outcome_message: Some("30 tests succeeded".to_owned()),
        duration_nanos: Some("10".to_owned()),
        log_file: "test.log".to_owned(),
    };
    let mut finished = event("task_finished", Some("test"));
    finished.status = Some("completed".to_owned());
    finished.result = Some("success".to_owned());
    finished.exit_code = Some(0);
    finished.outcome_message = Some("30 tests succeeded".to_owned());
    finished.duration_nanos = Some(10);
    let run = summary("completed", "test", vec![task]);
    let detail = run_detail_record(
        &FilePath::from_str(".nao/runs/2026-03-19T12-00-00Z-test"),
        Some(&run),
        None,
        vec![finished],
    );
    assert_eq!(detail.tasks[0].outcome_message.as_deref(), Some("30 tests succeeded"));
    assert_eq!(detail.tasks[0].duration_nanos, Some(10));
    assert_eq!(detail.tasks[0].log_file.as_str(), "test.log");
    assert_eq!(detail.events[0].outcome_message.as_deref(), Some("30 tests succeeded"));
    assert_eq!(detail.duration_nanos, Some(10));
    assert_eq!(detail.result, "completed");
}

#[test]
fn loads_task_logs() {
    let lines = task_log_display_lines("[2026-03-19T12:00:01Z] stdout: compiling\n[2026-03-19T12:00:02Z] stdout: linking\n");
    assert_eq!(lines.join("\n"), "compiling\nlinking");
}

#[test]
fn preserves_plain_log_lines_without_metadata_prefix() {
    let lines = task_log_display_lines("plain line\nstderr but no timestamp prefix\n");
    assert_eq!(lines.join("\n"), "plain line\nstderr but no timestamp prefix");
}

#[test]
fn strips_only_known_stream_labels() {
    assert_eq!(strip_log_metadata_prefix("[t] stderr: boom"), "boom");
    assert_eq!(strip_log_metadata_prefix("[t] other: boom"), "other: boom");
    assert_eq!(strip_log_metadata_prefix("[t] no label"), "no label");
    assert_eq!(strip_log_metadata_prefix("[t]no space"), "[t]no space");
    assert_eq!(strip_log_metadata_prefix(""), "");
}

#[test]
fn rebuilds_task_records_from_events() {
    let plan = vec!["build".to_owned()];
    let mut finished = event("task_finished", Some("build"));
    finished.exit_code = Some(2);
    let events = vec![
        event("task_started", Some("build")),
        finished,
        event("task_skipped", Some("deploy")),
        event("run_finished", None),
    ];
    let tasks = build_task_records(None, Some(&plan), &events);
    assert_eq!(tasks.len(), 2);
    assert_eq!(tasks[0].status, "completed");
    assert_eq!(tasks[0].result, "completed");
    assert_eq!(tasks[0].exit_code, Some(2));
    assert_eq!(tasks[1].name, "deploy");
    assert_eq!(tasks[1].status, "skipped");
    assert_eq!(tasks[1].log_file.as_str(), "deploy.log");
    assert_eq!(live_result_from_events(&events), "completed");
    assert_eq!(live_result_from_events(&Vec::new()), "unknown");
    assert_eq!(run_id_from_directory(&FilePath::from_str(".nao/runs/abc")), "abc");
}

#[test]
fn task_log_lines_read_back_as_written() {
    let written = render_log_line("2026-03-19T12:00:01Z", OutputStream::Stderr, "warning: unused: x");
    assert_eq!(written, "[2026-03-19T12:00:01Z] stderr: warning: unused: x\n");
    assert_eq!(strip_log_metadata_prefix(written.trim_end_matches('\n')), "warning: unused: x");
    let log = format!("{}{}", written, render_log_line("2026-03-19T12:00:02Z", OutputStream::Stdout, "done"));
    assert_eq!(task_log_display_lines(&log), vec!["warning: unused: x".to_owned(), "done".to_owned()]);
}

#[test]
fn event_records_keep_planned_tasks_first_and_add_new_names_once_in_order() {
    let plan = vec!["build".to_owned(), "test".to_owned()];
    let events = vec![
        event("task_started", Some("lint")),
        event("task_started", Some("test")),
        event("task_started", Some("docs")),
        event("task_skipped", Some("lint")),
    ];
    let tasks = build_task_records(None, Some(&plan), &events);
    let rows = tasks.iter().map(|task| format!("{} {}", task.name, task.status)).collect::<Vec<_>>();
    assert_eq!(rows, vec!["build pending", "test running", "lint skipped", "docs running"]);
    let partial = vec![EventLine::Parsed(event("run_started", None)), EventLine::Unparsable];
    assert_eq!(collect_event_lines(&partial, false).unwrap().len(), 1);
    assert_eq!(collect_event_lines(&partial, false).unwrap()[0].timestamp, "2026-03-19T12:00:01Z");
    assert_eq!(collect_event_lines(&partial, true).unwrap_err(), 1);
}
