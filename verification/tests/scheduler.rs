use nao::recipe::{DependencyName, FailureMode, RunSpec, Task, TaskName};
use nao::scheduler::{Scheduler, TaskRunState};

fn task(name: &str, deps: &[&str]) -> Task {
    Task {
        name: TaskName(name.to_owned()),
        description: None,
        dependencies: deps.iter().map(|d| DependencyName(d.to_string())).collect(),
        run: RunSpec::Shell("true".to_owned()),
        environment: Vec::new(),
        artifacts: Vec::new(),
    }
}

#[test]
fn starts_dependents_only_after_prerequisites_finish() {
    let tasks = vec![task("build", &[]), task("lint", &[]), task("test", &["build"])];
    let mut scheduler = Scheduler::new(&tasks, FailureMode::FailEarly, 4).unwrap();
    assert_eq!(scheduler.next_launch(), Some(0));
    assert_eq!(scheduler.next_launch(), Some(1));
    assert_eq!(scheduler.next_launch(), None);
    assert_eq!(scheduler.state(2), TaskRunState::Pending);
    scheduler.complete_task(0);
    assert_eq!(scheduler.state(2), TaskRunState::Ready);
    assert_eq!(scheduler.next_launch(), Some(2));
    scheduler.complete_task(1);
    scheduler.complete_task(2);
    assert!(!scheduler.is_active());
    assert_eq!(scheduler.successful_task_count(), 3);
}

#[test]
fn respects_the_parallelism_limit() {
    let tasks = vec![task("a", &[]), task("b", &[]), task("c", &[])];
    let mut scheduler = Scheduler::new(&tasks, FailureMode::FailEarly, 0).unwrap();
    assert_eq!(scheduler.next_launch(), Some(0));
    assert_eq!(scheduler.next_launch(), None);
    assert_eq!(scheduler.running_count(), 1);
    scheduler.complete_task(0);
    assert_eq!(scheduler.next_launch(), Some(1));
}

#[test]
fn stops_launching_new_tasks_after_concurrent_failure() {
    let tasks = vec![task("slow", &[]), task("fail", &[]), task("after-slow", &["slow"])];
    let mut scheduler = Scheduler::new(&tasks, FailureMode::FailEarly, 2).unwrap();
    assert_eq!(scheduler.next_launch(), Some(0));
    assert_eq!(scheduler.next_launch(), Some(1));
    let skipped = scheduler.fail_task(1);
    assert!(skipped.is_empty());
    scheduler.complete_task(0);
    assert_eq!(scheduler.next_launch(), None);
    assert!(!scheduler.is_active());
    let skipped = scheduler.finish_remaining_skips();
    assert_eq!(skipped, vec![2]);
    assert_eq!(scheduler.state(2), TaskRunState::Skipped);
}

#[test]
fn fail_late_continues_unrelated_tasks_and_skips_only_blocked_dependents() {
    let tasks = vec![task("lint", &[]), task("build", &[]), task("test", &["build"]), task("package", &["test"])];
    let mut scheduler = Scheduler::new(&tasks, FailureMode::FailLate, 1).unwrap();
    assert_eq!(scheduler.next_launch(), Some(0));
    scheduler.complete_task(0);
    assert_eq!(scheduler.next_launch(), Some(1));
    let skipped = scheduler.fail_task(1);
    assert_eq!(skipped, vec![2, 3]);
    assert_eq!(scheduler.state(3), TaskRunState::Skipped);
    assert_eq!(scheduler.next_launch(), None);
    assert!(scheduler.finish_remaining_skips().is_empty());
    assert_eq!(scheduler.state(0), TaskRunState::Completed);
}

#[test]
fn rejects_unknown_prerequisites() {
    let tasks = vec![task("test", &["build"])];
    assert_eq!(Scheduler::new(&tasks, FailureMode::FailEarly, 1).err(), Some("task `build` not found".to_owned()));
}

#[test]
fn fail_late_skips_dependents_breadth_first_in_plan_order() {
    let tasks = vec![
        task("root", &[]),
        task("left", &["root"]),
        task("right", &["root"]),
        task("left-leaf", &["left"]),
        task("right-leaf", &["right"]),
    ];
    let mut scheduler = Scheduler::new(&tasks, FailureMode::FailLate, 2).unwrap();
    assert_eq!(scheduler.next_launch(), Some(0));
    let skipped = scheduler.fail_task(0);
    assert_eq!(skipped, vec![1, 2, 3, 4]);
    assert_eq!(scheduler.state(3), TaskRunState::Skipped);
}
