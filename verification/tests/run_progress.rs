use nao::output_framer::{ProcessEvent, TaskOutputFramer};
use nao::planning::{plan_recipe_run, PlannedRun};
use nao::recipe_parse::parse_recipe;
use nao::run_outcome::{OutputStream, RunStatus, TaskArtifactRecord, TaskFailure};
use nao::run_progress::RunProgress;
use nao::run_recording::{ProcessResult, TaskExecutionResult};
use nao::scheduler::Scheduler;

const PACKAGE_CHAIN: &str = r#"
            recipe "default" {
              task "build" {
                run script="./scripts/build.sh"
              }

              task "test" {
                depends-on "build"
                run script="./scripts/test.sh"
              }

              task "package" {
                depends-on "test"
                run script="./scripts/package.sh"
              }
            }
            "#;

fn plan(source: &str, names: &[&str]) -> PlannedRun {
    let recipe = parse_recipe(source).unwrap();
    let names = names.iter().map(|name| name.to_string()).collect::<Vec<_>>();
    plan_recipe_run(&recipe, &names).unwrap()
}

/// What a scripted task prints and how it exits.
struct Script {
    name: &'static str,
    chunks: &'static [&'static [u8]],
    exit_code: i32,
}

/// The end of a scripted run: launch order, records, joined output, status, failure.
struct Outcome {
    launched: Vec<String>,
    skipped: Vec<String>,
    records: Vec<TaskArtifactRecord>,
    output: String,
    status: RunStatus,
    failure_message: Option<String>,
}

/// Runs the plan one task at a time: each task prints its chunks at 1ns, 2ns, ..., closes
/// its streams and exits at 4ns after starting at 0ns.
fn run_scripted(plan: &PlannedRun, scripts: &[Script]) -> Outcome {
    let scheduler = Scheduler::new(&plan.tasks, plan.failure_mode, plan.max_parallel_tasks).unwrap();
    let mut progress = RunProgress::start(scheduler, &plan.tasks);
    let mut launched = Vec::new();
    let mut skipped = Vec::new();
    while progress.scheduler.is_active() {
        let Some(task_index) = progress.next_launch(false) else {
            break;
        };
        let name = plan.tasks[task_index].name.as_str().to_owned();
        launched.push(name.clone());
        let script = scripts.iter().find(|script| script.name == name).unwrap();
        let mut framer = TaskOutputFramer::new();
        framer.push_task_heading(&name);
        for (position, chunk) in script.chunks.iter().enumerate() {
            framer.handle_event(ProcessEvent::Output {
                timestamp_nanos: position as u128 + 1,
                stream: OutputStream::Stdout,
                bytes: chunk.to_vec(),
            });
        }
        framer.handle_event(ProcessEvent::StreamClosed { timestamp_nanos: 3, stream: OutputStream::Stdout });
        framer.handle_event(ProcessEvent::StreamClosed { timestamp_nanos: 3, stream: OutputStream::Stderr });
        framer.handle_event(ProcessEvent::Exited { timestamp_nanos: 4, exit_code: Some(script.exit_code) });
        let (output, log_lines) = framer.into_parts();
        let result = TaskExecutionResult::Exited(ProcessResult {
            exit_code: Some(script.exit_code),
            started_at: 0,
            finished_at: 4,
        });
        let (_, newly_skipped) = progress.task_finished(&plan.tasks, task_index, output, result, log_lines, 4, 0);
        skipped.extend(newly_skipped.iter().map(|index| plan.tasks[*index].name.as_str().to_owned()));
    }
    let (finally_skipped, records, output, recorder) = progress.finish(&plan.tasks, 5);
    skipped.extend(finally_skipped.iter().map(|index| plan.tasks[*index].name.as_str().to_owned()));
    Outcome {
        launched,
        skipped,
        records,
        output,
        status: recorder.status,
        failure_message: recorder.failure_message,
    }
}

#[test]
fn executes_tasks_in_dependency_order() {
    let plan = plan(
        r#"
            recipe "default" {
              task "build" {
                run script="./scripts/build.sh"
              }

              task "test" {
                depends-on "build"
                run script="./scripts/test.sh"
              }
            }
            "#,
        &["test"],
    );
    let outcome = run_scripted(
        &plan,
        &[
            Script { name: "build", chunks: &[b"building\n"], exit_code: 0 },
            Script { name: "test", chunks: &[b"testing"], exit_code: 0 },
        ],
    );
    assert_eq!(outcome.launched, vec!["build".to_owned(), "test".to_owned()]);
    assert_eq!(
        outcome.output,
        "Running task `build`\n[1ns] stdout: building\n[4ns] process exited with code 0\n\nRunning task `test`\n[3ns] stdout: testing\n[4ns] process exited with code 0\n"
    );
    assert!(matches!(outcome.status, RunStatus::Completed));
    assert_eq!(outcome.failure_message, None);
    assert!(outcome.skipped.is_empty());
    assert_eq!(outcome.records.len(), 2);
    assert_eq!(outcome.records[1].status, "completed");
    assert_eq!(outcome.records[1].result, "success");
}

#[test]
fn writes_failed_run_summary_and_skipped_tasks() {
    let plan = plan(PACKAGE_CHAIN, &["package"]);
    let outcome = run_scripted(
        &plan,
        &[
            Script { name: "build", chunks: &[b"building\n"], exit_code: 0 },
            Script { name: "test", chunks: &[b"boom\n"], exit_code: 1 },
            Script { name: "package", chunks: &[], exit_code: 0 },
        ],
    );
    let RunStatus::Failed(TaskFailure {
        task_name,
        exit_code,
        elapsed_nanos,
        successful_task_count,
        omitted_output_line_count,
        output_tail_lines,
    }) = &outcome.status
    else {
        panic!("the run should have failed");
    };
    assert_eq!(task_name, "test");
    assert_eq!(*exit_code, 1);
    assert_eq!(*elapsed_nanos, 4);
    assert_eq!(*successful_task_count, 1);
    assert_eq!(*omitted_output_line_count, 0);
    assert_eq!(output_tail_lines, &vec!["boom".to_owned()]);
    assert_eq!(
        outcome.failure_message.as_deref(),
        Some("task `test` failed with exit code 1 after 4ns (1 task completed successfully)")
    );
    assert_eq!(outcome.launched, vec!["build".to_owned(), "test".to_owned()]);
    assert_eq!(outcome.skipped, vec!["package".to_owned()]);
    let statuses = outcome.records.iter().map(|record| record.status.as_str()).collect::<Vec<_>>();
    assert_eq!(statuses, vec!["completed", "failed", "skipped"]);
    assert_eq!(outcome.records[2].finished_at, Some(5));
}

#[test]
fn fail_late_runs_independent_tasks_and_skips_dependents_at_once() {
    let plan = plan(
        r#"
            recipe "default" {
              config failure-mode="fail-late"
              task "build" {
                run script="./scripts/build.sh"
              }
              task "lint" {
                run script="./scripts/lint.sh"
              }
              task "test" {
                depends-on "build"
                run script="./scripts/test.sh"
              }
            }
            "#,
        &["test", "lint"],
    );
    let outcome = run_scripted(
        &plan,
        &[
            Script { name: "build", chunks: &[b"broken\n"], exit_code: 2 },
            Script { name: "lint", chunks: &[b"clean\n"], exit_code: 0 },
            Script { name: "test", chunks: &[], exit_code: 0 },
        ],
    );
    assert_eq!(outcome.launched, vec!["build".to_owned(), "lint".to_owned()]);
    assert_eq!(outcome.skipped, vec!["test".to_owned()]);
    let statuses = outcome.records.iter().map(|record| record.status.as_str()).collect::<Vec<_>>();
    assert_eq!(statuses, vec!["failed", "skipped", "completed"]);
    assert_eq!(outcome.records[1].finished_at, Some(4));
    assert!(matches!(outcome.status, RunStatus::Failed(ref failure) if failure.task_name == "build"));
}

#[test]
fn a_cancelled_run_skips_every_task_that_did_not_end() {
    let plan = plan(PACKAGE_CHAIN, &["package"]);
    let scheduler = Scheduler::new(&plan.tasks, plan.failure_mode, plan.max_parallel_tasks).unwrap();
    let mut progress = RunProgress::start(scheduler, &plan.tasks);
    assert_eq!(progress.next_launch(true), None);
    let (skipped, records, output, recorder) = progress.finish(&plan.tasks, 9);
    assert_eq!(skipped, vec![0, 1, 2]);
    assert!(records.iter().all(|record| record.status == "skipped" && record.finished_at == Some(9)));
    assert_eq!(output, "");
    assert!(matches!(recorder.status, RunStatus::Completed));
}

#[test]
fn a_run_fails_exactly_when_some_record_failed() {
    let chain = plan(PACKAGE_CHAIN, &["package"]);
    let passing = run_scripted(
        &chain,
        &[
            Script { name: "build", chunks: &[], exit_code: 0 },
            Script { name: "test", chunks: &[], exit_code: 0 },
            Script { name: "package", chunks: &[], exit_code: 0 },
        ],
    );
    assert!(passing.records.iter().all(|record| record.status == "completed"));
    assert!(matches!(passing.status, RunStatus::Completed));
    assert!(passing.failure_message.is_none());
    let failing = run_scripted(
        &chain,
        &[
            Script { name: "build", chunks: &[], exit_code: 2 },
            Script { name: "test", chunks: &[], exit_code: 0 },
            Script { name: "package", chunks: &[], exit_code: 0 },
        ],
    );
    assert!(failing.records.iter().any(|record| record.status == "failed"));
    assert!(matches!(failing.status, RunStatus::Failed(_)));
    assert!(failing.failure_message.is_some());
    assert!(failing.records.iter().all(|record| ["completed", "failed", "skipped"].contains(&record.status.as_str())));
}

#[test]
fn a_plan_holds_only_the_requested_tasks_and_what_they_need() {
    let only_test = plan(PACKAGE_CHAIN, &["test"]);
    let names = only_test.tasks.iter().map(|task| task.name.as_str().to_owned()).collect::<Vec<_>>();
    assert_eq!(names, vec!["build".to_owned(), "test".to_owned()]);
    let everything = plan(PACKAGE_CHAIN, &["package", "build"]);
    let names = everything.tasks.iter().map(|task| task.name.as_str().to_owned()).collect::<Vec<_>>();
    assert_eq!(names, vec!["build".to_owned(), "test".to_owned(), "package".to_owned()]);
}

#[test]
fn a_request_for_a_missing_task_of_an_empty_recipe_is_not_found() {
    let recipe = parse_recipe(
        r#"
            recipe "empty" {
              config max-parallel-tasks=2
            }
            "#,
    )
    .unwrap();
    assert!(recipe.tasks.is_empty());
    let error = plan_recipe_run(&recipe, &vec!["build".to_owned()]).unwrap_err();
    assert_eq!(error, "task `build` not found");
}
