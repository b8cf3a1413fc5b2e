use nao::file_path::FilePath;
use nao::refresh::{
    clamp_history_selection, clamp_selected_run_task, first_failed_task_index, is_open_run_active,
    next_spinner_frame, reload_everything, should_reload_launcher_failed_task_log, should_reload_open_run_detail,
    should_reload_selected_task_log, shown_log_changed, RefreshFlags,
};
use nao::run_history::RunTaskRecord;

const NO_FORCE: RefreshFlags = RefreshFlags {
    force_detail_reload: false,
    force_selected_task_log_reload: false,
    force_launcher_failed_log_reload: false,
};

/// The reads one refresh tick makes of an active open run whose selected task runs.
fn reads_at(tick: u64, auto_follow_log: bool) -> (bool, bool) {
    (
        should_reload_open_run_detail(NO_FORCE, true, tick),
        should_reload_selected_task_log(NO_FORCE, true, auto_follow_log, Some("running"), tick),
    )
}

#[test]
fn refresh_does_not_reread_completed_open_run() {
    for tick in 1..9 {
        assert!(!should_reload_open_run_detail(NO_FORCE, false, tick));
        assert!(!should_reload_selected_task_log(NO_FORCE, false, true, Some("running"), tick));
        assert!(!should_reload_launcher_failed_task_log(NO_FORCE, false, true, tick));
    }
}

#[test]
fn refresh_skips_active_run_rereads_on_non_poll_ticks() {
    assert_eq!(reads_at(1, true), (false, false));
}

#[test]
fn refresh_polls_only_selected_log_before_detail_reload() {
    assert_eq!(reads_at(1, true), (false, false));
    assert_eq!(reads_at(2, true), (false, true));
}

#[test]
fn refresh_reloads_active_run_detail_on_slower_interval() {
    assert_eq!(reads_at(3, true), (false, false));
    assert_eq!(reads_at(4, true), (true, true));
}

#[test]
fn refresh_skips_selected_log_polling_when_auto_follow_is_disabled() {
    assert_eq!(reads_at(1, false), (false, false));
    assert_eq!(reads_at(2, false), (false, false));
}

#[test]
fn forced_rereads_happen_whatever_the_tick() {
    let all = reload_everything();
    assert!(should_reload_open_run_detail(all, false, 1));
    assert!(should_reload_selected_task_log(all, false, false, None, 1));
    assert!(should_reload_launcher_failed_task_log(all, false, false, 1));
    assert!(!should_reload_selected_task_log(NO_FORCE, true, true, Some("completed"), 2));
    assert!(should_reload_selected_task_log(NO_FORCE, true, true, Some("failed"), 2));
    assert!(should_reload_launcher_failed_task_log(NO_FORCE, true, true, 2));
}

fn task(name: &str, status: &str) -> RunTaskRecord {
    RunTaskRecord {
        name: name.to_owned(),
        status: status.to_owned(),
        result: status.to_owned(),
        exit_code: None,
        outcome_message: None,
        duration_nanos: None,
        log_file: FilePath::from_str(&format!("{name}.log")),
    }
}

#[test]
fn finds_the_first_failed_task_and_clamps_selections() {
    let tasks = vec![task("a", "completed"), task("b", "failed"), task("c", "failed")];
    assert_eq!(first_failed_task_index(&tasks), Some(1));
    assert_eq!(first_failed_task_index(&tasks[..1].iter().map(|t| task(&t.name, &t.status)).collect()), None);
    assert_eq!(clamp_selected_run_task(5, 3), 2);
    assert_eq!(clamp_selected_run_task(1, 3), 1);
    assert_eq!(clamp_selected_run_task(4, 0), 0);
    assert_eq!(clamp_history_selection(7, 2), 1);
    assert_eq!(clamp_history_selection(7, 0), 7);
    assert_eq!(next_spinner_frame(9), 0);
    assert_eq!(next_spinner_frame(3), 4);
}

#[test]
fn compares_open_and_active_run_directories() {
    let a = FilePath::from_str(".nao/runs/a");
    let b = FilePath::from_str(".nao/runs/b");
    assert!(is_open_run_active(Some(&a), Some(&a)));
    assert!(!is_open_run_active(Some(&a), Some(&b)));
    assert!(!is_open_run_active(None, Some(&a)));
    assert!(shown_log_changed(Some(&a), Some(&b)));
    assert!(shown_log_changed(None, Some(&b)));
    assert!(!shown_log_changed(Some(&a), Some(&a)));
    assert!(!shown_log_changed(None, None));
}
