use nao::file_path::FilePath;
use nao::output_framer::{ProcessEvent, TaskOutputFramer};
use nao::planning::{plan_recipe_run, PlannedRun};
use nao::process_command::{build_bash_shell_script, build_process_command, ProcessEnvironmentVariable};
use nao::recipe::{ComposeRunSpec, ContainerRunSpec, EnvironmentSpec, FailureMode, LiveDisplay, RunSpec, Task, TaskName};
use nao::recipe_parse::{parse_recipe, with_default_parallelism};
use nao::run_outcome::{
    append_task_output, extract_task_outcome_message, goal_outcome_message, render_completed_task_count,
    render_task_execution_error_message, render_task_failure_message, task_output_omitted_line_count,
    task_output_tail_lines, LogLine, OutputStream, TaskArtifactRecord, TaskFailure,
};
use nao::selectors::{expand_task_selectors, split_task_selectors};

const TWO_TASKS: &str = r#"
            recipe "default" {
              task "build" description="Build the workspace" {
                run shell="cargo build --workspace --all-targets --all-features"
              }

              task "test" description="Run the test suite" {
                depends-on "build"
                run shell="cargo nextest run --workspace --all-targets --all-features"
              }
            }
            "#;

const THREE_TASKS: &str = r#"
            recipe "default" {
              task "build" {
                run script="./scripts/build.sh"
              }
              task "lint" {
                run script="./scripts/lint.sh"
              }
              task "test" {
                depends-on "build"
                run script="./scripts/test.sh"
              }
            }
            "#;

const SLOW_TASKS: &str = r#"
            recipe "default" {
              task "slow" {
                run script="./scripts/slow.sh"
              }

              task "slow1" {
                run script="./scripts/slow1.sh"
              }

              task "slowpoke" {
                run script="./scripts/slowpoke.sh"
              }

              task "fast" {
                run script="./scripts/fast.sh"
              }
            }
            "#;

fn plan(source: &str, names: &[&str]) -> Result<PlannedRun, String> {
    let recipe = parse_recipe(source).unwrap();
    let names = names.iter().map(|name| name.to_string()).collect::<Vec<_>>();
    plan_recipe_run(&recipe, &names)
}

fn render_plan(plan: &PlannedRun) -> String {
    format!(
        "requested={}\nplanned={}",
        plan.requested_tasks.iter().map(|task| task.as_str()).collect::<Vec<_>>().join(","),
        plan.tasks.iter().map(|task| task.name.as_str()).collect::<Vec<_>>().join(",")
    )
}

fn task(name: &str, run: RunSpec, environment: Vec<EnvironmentSpec>) -> Task {
    Task {
        name: TaskName(name.to_owned()),
        description: None,
        dependencies: Vec::new(),
        run,
        environment,
        artifacts: Vec::new(),
    }
}

fn line(text: &str) -> LogLine {
    LogLine { timestamp_nanos: 1, stream: OutputStream::Stdout, text: text.to_owned() }
}

#[test]
fn lists_recipe_tasks() {
    let tasks = parse_recipe(TWO_TASKS).unwrap().tasks;
    let task_names = tasks.iter().map(|task| task.name.as_str()).collect::<Vec<_>>().join("\n");
    assert_eq!(task_names, "build\ntest");
}

#[test]
fn plans_requested_tasks() {
    let plan = plan(TWO_TASKS, &["test"]).unwrap();
    assert_eq!(render_plan(&plan), "requested=test\nplanned=build,test");
    assert_eq!(plan.live_display, LiveDisplay::LinePerTask);
    assert_eq!(plan.failure_mode, FailureMode::FailEarly);
    assert_eq!(plan.max_parallel_tasks, 1);
}

#[test]
fn plans_requested_live_display_mode() {
    let plan = plan(
        r#"
            recipe "default" {
              config live-display="single-line"
              task "test" {
                run script="./scripts/test.sh"
              }
            }
            "#,
        &["test"],
    )
    .unwrap();
    assert_eq!(plan.live_display, LiveDisplay::SingleLine);
}

#[test]
fn plans_requested_max_parallel_tasks() {
    let plan = plan(
        r#"
            recipe "default" {
              config max-parallel-tasks=3
              task "test" {
                run script="./scripts/test.sh"
              }
            }
            "#,
        &["test"],
    )
    .unwrap();
    assert_eq!(plan.max_parallel_tasks, 3);
}

#[test]
fn plans_requested_failure_mode() {
    let plan = plan(
        r#"
            recipe "default" {
              config failure-mode="fail-late"
              task "test" {
                run script="./scripts/test.sh"
              }
            }
            "#,
        &["test"],
    )
    .unwrap();
    assert_eq!(plan.failure_mode, FailureMode::FailLate);
}

#[test]
fn defaults_planned_parallel_tasks_from_pal() {
    let recipe = parse_recipe(
        r#"
            recipe "default" {
              task "test" {
                run script="./scripts/test.sh"
              }
            }
            "#,
    )
    .unwrap();
    let recipe = with_default_parallelism(recipe, 6);
    let plan = plan_recipe_run(&recipe, &vec!["test".to_owned()]).unwrap();
    assert_eq!(plan.max_parallel_tasks, 6);
}

#[test]
fn plans_comma_separated_requested_tasks() {
    let plan = plan(THREE_TASKS, &["lint,test"]).unwrap();
    assert_eq!(render_plan(&plan), "requested=lint,test\nplanned=lint,build,test");
}

#[test]
fn plans_mixed_comma_separated_and_repeated_requested_tasks() {
    let plan = plan(THREE_TASKS, &["lint,test", "build"]).unwrap();
    assert_eq!(render_plan(&plan), "requested=lint,test,build\nplanned=lint,build,test");
}

#[test]
fn plans_wildcard_requested_tasks() {
    let plan = plan(SLOW_TASKS, &["slow_"]).unwrap();
    assert_eq!(render_plan(&plan), "requested=slow,slow1,slowpoke\nplanned=slow,slow1,slowpoke");
}

#[test]
fn plans_mixed_wildcard_and_comma_separated_requested_tasks() {
    let plan = plan(SLOW_TASKS, &["slow_,fast"]).unwrap();
    assert_eq!(
        render_plan(&plan),
        "requested=slow,slow1,slowpoke,fast\nplanned=slow,slow1,slowpoke,fast"
    );
}

#[test]
fn errors_when_wildcard_requested_tasks_match_nothing() {
    let error = plan(
        r#"
            recipe "default" {
              task "fast" {
                run script="./scripts/fast.sh"
              }
            }
            "#,
        &["slow_"],
    )
    .unwrap_err();
    assert!(error.contains("task specifier `slow_` did not match any tasks"));
}

#[test]
fn plan_rejects_empty_requests_unknown_tasks_and_cycles() {
    assert_eq!(
        plan(TWO_TASKS, &[" , "]).unwrap_err(),
        "usage: nao [--list] [--config <path>] [task-name...]"
    );
    assert_eq!(plan(TWO_TASKS, &["deploy"]).unwrap_err(), "task `deploy` not found");
    let recipe = nao::recipe::Recipe {
        name: "cyclic".to_owned(),
        config: nao::recipe::RecipeConfig::default(),
        tasks: vec![
            Task {
                name: TaskName("a".to_owned()),
                description: None,
                dependencies: vec![nao::recipe::DependencyName("b".to_owned())],
                run: RunSpec::Shell("true".to_owned()),
                environment: Vec::new(),
                artifacts: Vec::new(),
            },
            Task {
                name: TaskName("b".to_owned()),
                description: None,
                dependencies: vec![nao::recipe::DependencyName("a".to_owned())],
                run: RunSpec::Shell("true".to_owned()),
                environment: Vec::new(),
                artifacts: Vec::new(),
            },
        ],
    };
    assert_eq!(
        plan_recipe_run(&recipe, &vec!["a".to_owned()]).unwrap_err(),
        "task dependency cycle detected at `a`"
    );
}

#[test]
fn plan_lists_each_task_once_after_its_dependencies() {
    let plan = plan(
        r#"
            recipe "default" {
              task "a" {
                run shell="true"
              }
              task "b" {
                depends-on "a"
                run shell="true"
              }
              task "c" {
                depends-on "a"
                depends-on "b"
                run shell="true"
              }
            }
            "#,
        &["c", "b", "a"],
    )
    .unwrap();
    assert_eq!(render_plan(&plan), "requested=c,b,a\nplanned=a,b,c");
}

#[test]
fn splits_and_expands_selectors() {
    let selectors = split_task_selectors(&vec![" lint , test,,".to_owned(), "".to_owned(), "x_y".to_owned()]);
    assert_eq!(selectors, vec!["lint".to_owned(), "test".to_owned(), "x_y".to_owned()]);
    let recipe = parse_recipe(SLOW_TASKS).unwrap();
    let names = expand_task_selectors(&recipe.tasks, &vec!["_1".to_owned(), "s_e".to_owned()]).unwrap();
    assert_eq!(names, vec!["slow1".to_owned(), "slowpoke".to_owned()]);
    let names = expand_task_selectors(&recipe.tasks, &vec!["_".to_owned()]).unwrap();
    assert_eq!(names.len(), 4);
}

#[test]
fn builds_shell_tasks_with_strict_bash_flags() {
    let task = task("test", RunSpec::Shell("false\necho \"This should not be executed\"".to_owned()), Vec::new());
    let command = build_process_command(&FilePath::from_str("nao.kdl"), &task);
    assert_eq!(command.executable, "bash");
    assert_eq!(
        command.arguments,
        vec![
            "-o".to_owned(),
            "errexit".to_owned(),
            "-o".to_owned(),
            "nounset".to_owned(),
            "-o".to_owned(),
            "errtrace".to_owned(),
            "-o".to_owned(),
            "pipefail".to_owned(),
            "-c".to_owned(),
            build_bash_shell_script("false\necho \"This should not be executed\""),
        ]
    );
    assert_eq!(command.working_directory.as_ref().map(|d| d.as_str()), Some("."));
    assert!(command.environment.is_empty());
}

#[test]
fn builds_script_tasks_from_default_recipe_with_repository_root_working_directory() {
    let task = task("check-code", RunSpec::Script(FilePath::from_str("./scripts/check-code.sh")), Vec::new());
    let command = build_process_command(&FilePath::from_str(".nao/nao.kdl"), &task);
    assert_eq!(command.executable, "./scripts/check-code.sh");
    assert!(command.arguments.is_empty());
    assert_eq!(command.working_directory.as_ref().map(|d| d.as_str()), Some("."));
    assert!(command.environment.is_empty());
}

#[test]
fn builds_container_tasks_as_docker_run_commands() {
    let task = task(
        "image",
        RunSpec::Container(ContainerRunSpec {
            image: "alpine:3.22".to_owned(),
            args: vec!["sh".to_owned(), "-lc".to_owned(), "printf hello".to_owned()],
        }),
        vec![EnvironmentSpec { name: "RUST_LOG".to_owned(), value: "warn".to_owned() }],
    );
    let command = build_process_command(&FilePath::from_str(".nao/nao.kdl"), &task);
    assert_eq!(command.executable, "docker");
    assert_eq!(
        command.arguments,
        vec![
            "run", "--rm", "--volume", ".:/workspace", "--workdir", "/workspace", "--env", "RUST_LOG=warn",
            "alpine:3.22", "sh", "-lc", "printf hello",
        ]
        .into_iter()
        .map(str::to_owned)
        .collect::<Vec<_>>()
    );
    assert_eq!(command.working_directory.as_ref().map(|d| d.as_str()), Some("."));
    assert!(command.environment.is_empty());
}

#[test]
fn builds_compose_tasks_as_docker_compose_run_commands() {
    let task = task(
        "integration-test",
        RunSpec::Compose(ComposeRunSpec {
            directory: FilePath::from_str(".docker"),
            service: "rust".to_owned(),
            args: vec!["bash".to_owned(), "-lc".to_owned(), "printf hello".to_owned()],
        }),
        vec![EnvironmentSpec { name: "RUST_LOG".to_owned(), value: "warn".to_owned() }],
    );
    let command = build_process_command(&FilePath::from_str(".nao/nao.kdl"), &task);
    assert_eq!(command.executable, "docker");
    assert_eq!(
        command.arguments,
        vec![
            "compose", "-f", ".docker/docker-compose.yaml", "run", "--rm", "--env", "RUST_LOG=warn", "rust",
            "bash", "-lc", "printf hello",
        ]
        .into_iter()
        .map(str::to_owned)
        .collect::<Vec<_>>()
    );
    assert_eq!(command.working_directory.as_ref().map(|d| d.as_str()), Some("."));
    assert!(command.environment.is_empty());
}

#[test]
fn shell_tasks_keep_their_environment_and_run_next_to_other_recipes() {
    let task = task(
        "lint",
        RunSpec::Shell("true".to_owned()),
        vec![EnvironmentSpec { name: "A".to_owned(), value: "1".to_owned() }],
    );
    let command = build_process_command(&FilePath::from_str("configs/ci.kdl"), &task);
    assert_eq!(command.working_directory.as_ref().map(|d| d.as_str()), Some("configs"));
    assert_eq!(command.environment.len(), 1);
    let ProcessEnvironmentVariable { name, value } = &command.environment[0];
    assert_eq!((name.as_str(), value.as_str()), ("A", "1"));
}

#[test]
fn wraps_shell_tasks_with_err_trap_reporting() {
    let script = build_bash_shell_script("false\nprintf '%s\\n' \"$MISSING\"\ncat file | sort");
    assert_eq!(
        script,
        "trap 'rc=$?; printf \"nao: command failed (exit %d) at line %d: %s\\n\" \"$rc\" \"$LINENO\" \"$BASH_COMMAND\" >&2; exit \"$rc\"' ERR\nfalse\nprintf '%s\\n' \"$MISSING\"\ncat file | sort"
    );
}

#[test]
fn extracts_last_task_outcome_message() {
    let outcome = extract_task_outcome_message(&vec![
        line("Task outcome: discovering files"),
        line("ordinary output"),
        line("Task outcome: 30 tests succeeded"),
    ]);
    assert_eq!(outcome.as_deref(), Some("30 tests succeeded"));
}

#[test]
fn keeps_last_directly_reported_outcome_message() {
    let outcome = extract_task_outcome_message(&vec![
        line("Task outcome: starting"),
        line("Task outcome: 12 files formatted"),
        line("Task outcome:    "),
        line("task outcome: lowercase is ignored"),
    ]);
    assert_eq!(outcome.as_deref(), Some("12 files formatted"));
    assert_eq!(extract_task_outcome_message(&vec![line("nothing")]), None);
}

#[test]
fn goal_outcome_comes_from_the_single_completed_goal() {
    let record = |name: &str, status: &str, outcome: Option<&str>| TaskArtifactRecord {
        name: name.to_owned(),
        status: status.to_owned(),
        result: status.to_owned(),
        started_at: Some(1),
        finished_at: Some(2),
        exit_code: Some(0),
        outcome_message: outcome.map(str::to_owned),
        log_lines: Vec::new(),
    };
    let records = vec![record("build", "completed", Some("built")), record("test", "completed", Some("30 passed"))];
    assert_eq!(goal_outcome_message(&vec![TaskName("test".to_owned())], &records), Some("30 passed".to_owned()));
    assert_eq!(
        goal_outcome_message(&vec![TaskName("test".to_owned()), TaskName("build".to_owned())], &records),
        None
    );
    let failed = vec![record("test", "failed", Some("2 failed"))];
    assert_eq!(goal_outcome_message(&vec![TaskName("test".to_owned())], &failed), None);
}

#[test]
fn renders_failure_messages() {
    assert_eq!(render_completed_task_count(1), "1 task");
    assert_eq!(render_completed_task_count(3), "3 tasks");
    let failure = TaskFailure {
        task_name: "test".to_owned(),
        exit_code: 1,
        elapsed_nanos: 4,
        successful_task_count: 1,
        omitted_output_line_count: 0,
        output_tail_lines: Vec::new(),
    };
    assert_eq!(
        render_task_failure_message(&failure),
        "task `test` failed with exit code 1 after 4ns (1 task completed successfully)"
    );
    assert_eq!(
        render_task_execution_error_message("lint", 2_500_000, 0, "not found"),
        "task `lint` failed after 2.5ms (0 tasks completed successfully): not found"
    );
}

#[test]
fn keeps_the_last_two_hundred_output_lines() {
    let lines = (0..205).map(|i| line(&format!("line {i}"))).collect::<Vec<_>>();
    assert_eq!(task_output_omitted_line_count(&lines), 5);
    let tail = task_output_tail_lines(&lines);
    assert_eq!(tail.len(), 200);
    assert_eq!(tail[0], "line 5");
    assert_eq!(task_output_omitted_line_count(&lines[..3].iter().map(|l| line(&l.text)).collect()), 0);
}

#[test]
fn appends_task_output_with_separators() {
    let mut output = String::new();
    append_task_output(&mut output, "");
    assert_eq!(output, "");
    append_task_output(&mut output, "first");
    append_task_output(&mut output, "second");
    assert_eq!(output, "first\nsecond");
}

#[test]
fn frames_lines_from_raw_chunks() {
    let mut framer = TaskOutputFramer::new();
    framer.push_task_heading("build");
    framer.handle_event(ProcessEvent::Output {
        timestamp_nanos: 1,
        stream: OutputStream::Stdout,
        bytes: b"hello ".to_vec(),
    });
    framer.handle_event(ProcessEvent::Output {
        timestamp_nanos: 2,
        stream: OutputStream::Stdout,
        bytes: b"world\nagain".to_vec(),
    });
    framer.handle_event(ProcessEvent::StreamClosed { timestamp_nanos: 3, stream: OutputStream::Stdout });
    assert_eq!(
        framer.into_output(),
        "Running task `build`\n[2ns] stdout: hello world\n[3ns] stdout: again\n"
    );
}

#[test]
fn renders_exit_events() {
    let mut framer = TaskOutputFramer::new();
    framer.push_task_heading("test");
    framer.handle_event(ProcessEvent::Exited { timestamp_nanos: 7, exit_code: Some(1) });
    assert_eq!(framer.into_output(), "Running task `test`\n[7ns] process exited with code 1\n");
}

#[test]
fn framer_strips_carriage_returns_keeps_streams_apart_and_decodes_lossily() {
    let mut framer = TaskOutputFramer::new();
    framer.push_task_heading("a");
    framer.push_task_heading("b");
    framer.handle_event(ProcessEvent::Started);
    framer.handle_event(ProcessEvent::Output {
        timestamp_nanos: 5,
        stream: OutputStream::Stderr,
        bytes: b"warn\r\npart".to_vec(),
    });
    framer.handle_event(ProcessEvent::Output { timestamp_nanos: 6, stream: OutputStream::Stdout, bytes: vec![0xff, b'\n'] });
    framer.handle_event(ProcessEvent::StreamClosed { timestamp_nanos: 7, stream: OutputStream::Stdout });
    framer.handle_event(ProcessEvent::StreamClosed { timestamp_nanos: 8, stream: OutputStream::Stderr });
    framer.handle_event(ProcessEvent::Exited { timestamp_nanos: 9, exit_code: None });
    assert_eq!(
        framer.into_output(),
        "Running task `a`\n\nRunning task `b`\n[5ns] stderr: warn\n[6ns] stdout: \u{fffd}\n[8ns] stderr: part\n[9ns] process exited with code unknown\n"
    );
}

#[test]
fn framer_keeps_each_framed_line_with_its_time_and_stream() {
    let mut framer = TaskOutputFramer::new();
    framer.push_task_heading("build");
    framer.handle_event(ProcessEvent::Output {
        timestamp_nanos: 2,
        stream: OutputStream::Stdout,
        bytes: b"one\r\ntwo\n".to_vec(),
    });
    assert_eq!(framer.log_lines_len(), 2);
    framer.handle_event(ProcessEvent::Output { timestamp_nanos: 3, stream: OutputStream::Stderr, bytes: b"tail".to_vec() });
    framer.handle_event(ProcessEvent::StreamClosed { timestamp_nanos: 4, stream: OutputStream::Stderr });
    framer.handle_event(ProcessEvent::Exited { timestamp_nanos: 5, exit_code: Some(0) });
    assert_eq!(framer.log_lines()[2].text, "tail");
    let (output, lines) = framer.into_parts();
    assert!(output.ends_with("[5ns] process exited with code 0\n"));
    let summary = lines
        .iter()
        .map(|line| format!("{}:{:?}:{}", line.timestamp_nanos, line.stream, line.text))
        .collect::<Vec<_>>();
    assert_eq!(summary, vec!["2:Stdout:one", "2:Stdout:two", "4:Stderr:tail"]);
}

#[test]
fn reads_task_status_updates_from_output_lines() {
    assert_eq!(nao::run_outcome::task_status_message("Task status: 2/5 ").as_deref(), Some("2/5"));
    assert_eq!(nao::run_outcome::task_status_message("Task status:    "), None);
    assert_eq!(nao::run_outcome::task_status_message(" Task status: x"), None);
}

fn matches(name: &str, selector: &str) -> bool {
    let name: Vec<char> = name.chars().collect();
    let parts = nao::selectors::split_chars(&selector.chars().collect(), '_');
    nao::selectors::task_name_matches_selector(&name, &parts)
}

#[test]
fn each_wildcard_stands_for_any_text() {
    assert!(matches("abab", "a_b"));
    assert!(matches("slowpoke", "slow_"));
    assert!(!matches("fast", "slow_"));
    assert!(matches("test-unit", "_unit"));
    assert!(!matches("unit-test", "_unit"));
    assert!(matches("build", "b_i_d"));
    assert!(!matches("build", "b_x_d"));
    assert!(matches("build", "build"));
    assert!(!matches("build", "buil"));
}

#[test]
fn a_default_output_framer_is_empty() {
    let framer = TaskOutputFramer::default();
    assert_eq!(framer.log_lines_len(), 0);
    assert_eq!(framer.into_output(), "");
}
