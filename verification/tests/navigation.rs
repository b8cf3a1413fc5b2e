use nao::cancellation::CancellationToken;
use nao::launcher::{
    launcher_goal_tasks, restart_decision, show_launcher_failure_output, start_run_refusal, NameSet,
    RestartDecision,
};
use nao::navigation::{cycle_focus, max_events_scroll, Focus, Key, KeyAction, KeyPress, Modifiers, Navigation, Screen};

fn press(key: Key) -> KeyPress {
    KeyPress { key, modifiers: Modifiers::NoModifier }
}

fn task_names() -> Vec<String> {
    vec!["build".to_owned(), "test".to_owned()]
}

/// Applies a key press the way the application does for goal toggling.
fn apply(nav: &mut Navigation, goals: &mut NameSet, names: &[String], key: KeyPress) -> KeyAction {
    let action = nav.handle_key(key);
    if action == KeyAction::ToggleSelectedGoal {
        goals.toggle(&names[nav.selected_task_index]);
    }
    action
}

fn launcher_keys_toggle_goals_and_switch_screens_case() {
    let names = task_names();
    let mut nav = Navigation::new(names.len(), 0);
    let mut goals = NameSet::new();
    apply(&mut nav, &mut goals, &names, press(Key::Down));
    apply(&mut nav, &mut goals, &names, press(Key::Char(' ')));
    apply(&mut nav, &mut goals, &names, press(Key::Char('3')));
    assert_eq!(nav.screen, Screen::RunHistory);
    assert_eq!(nav.focus, Focus::HistoryRuns);
    assert!(goals.contains("test"));
}

#[test]
fn app_launcher_keys_toggle_goals_and_switch_screens() {
    launcher_keys_toggle_goals_and_switch_screens_case();
}

#[test]
fn tests_launcher_keys_toggle_goals_and_switch_screens() {
    launcher_keys_toggle_goals_and_switch_screens_case();
}

#[test]
fn app_launcher_defaults_run_target_to_selected_task() {
    let goals = NameSet::new();
    assert_eq!(launcher_goal_tasks(&goals, &task_names(), 1), vec!["test".to_owned()]);
}

#[test]
fn tests_launcher_defaults_run_target_to_selected_task() {
    let goals = NameSet::new();
    assert_eq!(launcher_goal_tasks(&goals, &task_names(), 1), vec!["test".to_owned()]);
}

#[test]
fn app_launcher_prefers_explicit_goal_selection() {
    let mut goals = NameSet::new();
    goals.toggle("test");
    assert_eq!(launcher_goal_tasks(&goals, &task_names(), 0), vec!["test".to_owned()]);
}

#[test]
fn tests_launcher_prefers_explicit_goal_selection() {
    let mut goals = NameSet::new();
    goals.toggle("test");
    assert_eq!(launcher_goal_tasks(&goals, &task_names(), 0), vec!["test".to_owned()]);
}

#[test]
fn app_launching_keeps_the_launcher_screen_active() {
    let mut nav = Navigation::new(2, 0);
    assert_eq!(nav.handle_key(press(Key::Enter)), KeyAction::StartRun);
    assert_eq!(nav.screen, Screen::Launcher);
    assert_eq!(start_run_refusal(false, 1), None);
}

#[test]
fn tests_launching_keeps_the_launcher_screen_active() {
    let mut nav = Navigation::new(2, 0);
    assert_eq!(nav.handle_key(press(Key::Enter)), KeyAction::StartRun);
    assert_eq!(nav.screen, Screen::Launcher);
    assert_eq!(start_run_refusal(false, 1), None);
}

fn tab_cycles_run_detail_focus_case() {
    let mut nav = Navigation::new(2, 0);
    nav.screen = Screen::RunDetail;
    nav.focus = Focus::DetailTasks;
    nav.handle_key(press(Key::Tab));
    assert_eq!(nav.focus, Focus::DetailOutput);
    nav.handle_key(KeyPress { key: Key::BackTab, modifiers: Modifiers::Other });
    assert_eq!(nav.focus, Focus::DetailTasks);
}

#[test]
fn app_tab_cycles_run_detail_focus() {
    tab_cycles_run_detail_focus_case();
}

#[test]
fn tests_tab_cycles_run_detail_focus() {
    tab_cycles_run_detail_focus_case();
}

#[test]
fn app_hotkey_two_defaults_run_detail_to_output_focus() {
    let mut nav = Navigation::new(2, 0);
    nav.handle_key(press(Key::Char('2')));
    assert_eq!(nav.screen, Screen::RunDetail);
    assert_eq!(nav.focus, Focus::DetailOutput);
}

#[test]
fn tests_hotkey_two_defaults_run_detail_to_output_focus() {
    let mut nav = Navigation::new(2, 0);
    nav.handle_key(press(Key::Char('2')));
    assert_eq!(nav.screen, Screen::RunDetail);
    assert_eq!(nav.focus, Focus::DetailOutput);
}

#[test]
fn ctrl_r_requests_restart_for_active_run() {
    let mut nav = Navigation::new(2, 0);
    let action = nav.handle_key(KeyPress { key: Key::Char('r'), modifiers: Modifiers::ControlOnly });
    assert_eq!(action, KeyAction::Restart);
    let (decision, status) = restart_decision(true, 1);
    assert_eq!(decision, RestartDecision::CancelActiveRun);
    let token = CancellationToken::new();
    token.cancel();
    assert!(token.is_cancelled());
    assert_eq!(status, "restart requested");
}

#[test]
fn ctrl_r_without_restart_target_reports_status() {
    assert_eq!(restart_decision(false, 0), (RestartDecision::NothingToRestart, "no run is available to restart"));
}

#[test]
fn ctrl_r_restarts_last_goal_instead_of_current_launcher_selection() {
    let mut nav = Navigation::new(2, 0);
    nav.selected_task_index = 1;
    assert_eq!(
        nav.handle_key(KeyPress { key: Key::Char('r'), modifiers: Modifiers::ControlOnly }),
        KeyAction::Restart
    );
    assert_eq!(restart_decision(false, 1), (RestartDecision::RestartLastRun, "run restarted"));
}

#[test]
fn ctrl_r_is_global_across_tui_screens() {
    for (screen, focus) in [
        (Screen::Launcher, Focus::LauncherTasks),
        (Screen::RunDetail, Focus::DetailOutput),
        (Screen::RunHistory, Focus::HistoryRuns),
    ] {
        let mut nav = Navigation::new(2, 0);
        nav.screen = screen;
        nav.focus = focus;
        assert_eq!(
            nav.handle_key(KeyPress { key: Key::Char('r'), modifiers: Modifiers::ControlOnly }),
            KeyAction::Restart
        );
    }
}

#[test]
fn plain_r_in_launcher_switches_to_history() {
    let mut nav = Navigation::new(2, 3);
    assert_eq!(nav.handle_key(press(Key::Char('r'))), KeyAction::ReloadHistory);
    assert_eq!(nav.screen, Screen::RunHistory);
    assert_eq!(nav.focus, Focus::HistoryRuns);
}

#[test]
fn help_swallows_keys_until_closed() {
    let mut nav = Navigation::new(2, 0);
    nav.handle_key(press(Key::Char('?')));
    assert!(nav.help_visible);
    assert_eq!(nav.handle_key(press(Key::Char('2'))), KeyAction::Nothing);
    assert_eq!(nav.screen, Screen::Launcher);
    assert_eq!(nav.handle_key(press(Key::Char('q'))), KeyAction::Nothing);
    assert!(!nav.help_visible);
    assert_eq!(nav.handle_key(press(Key::Char('q'))), KeyAction::Quit);
}

#[test]
fn launcher_selection_stays_within_tasks() {
    let mut nav = Navigation::new(3, 0);
    nav.handle_key(press(Key::PageDown));
    assert_eq!(nav.selected_task_index, 2);
    nav.handle_key(press(Key::Char('k')));
    assert_eq!(nav.selected_task_index, 1);
    nav.handle_key(press(Key::PageUp));
    assert_eq!(nav.selected_task_index, 0);
    let mut empty = Navigation::new(0, 0);
    empty.handle_key(press(Key::Down));
    assert_eq!(empty.selected_task_index, 0);
    assert_eq!(empty.handle_key(press(Key::Char(' '))), KeyAction::Nothing);
}

#[test]
fn history_enter_opens_selected_run() {
    let mut nav = Navigation::new(1, 2);
    nav.handle_key(press(Key::Char('3')));
    nav.handle_key(press(Key::Char('j')));
    nav.handle_key(press(Key::Char('j')));
    assert_eq!(nav.selected_run_index, 1);
    assert_eq!(nav.handle_key(press(Key::Enter)), KeyAction::OpenRun(1));
    assert_eq!(nav.screen, Screen::RunDetail);
    assert_eq!(nav.focus, Focus::DetailOutput);
    let mut no_runs = Navigation::new(1, 0);
    no_runs.handle_key(press(Key::Char('3')));
    assert_eq!(no_runs.handle_key(press(Key::Enter)), KeyAction::Nothing);
    assert_eq!(no_runs.screen, Screen::RunHistory);
}

#[test]
fn detail_panes_scroll_and_select_tasks() {
    let mut nav = Navigation::new(1, 1);
    nav.screen = Screen::RunDetail;
    nav.focus = Focus::DetailOutput;
    nav.run_task_count = Some(3);
    nav.event_count = Some(5);
    assert_eq!(nav.handle_key(press(Key::Down)), KeyAction::ScrollTaskLog(1));
    assert!(!nav.auto_follow_log);
    nav.handle_key(press(Key::Char('L')));
    assert!(nav.auto_follow_log);
    nav.handle_key(press(Key::Char('e')));
    nav.handle_key(press(Key::PageDown));
    assert_eq!(nav.events_scroll, 4);
    nav.handle_key(press(Key::Char('g')));
    assert_eq!(nav.events_scroll, 0);
    nav.handle_key(press(Key::Char('s')));
    nav.handle_key(press(Key::End));
    assert_eq!(nav.summary_scroll, 32);
    nav.handle_key(press(Key::Char('t')));
    assert_eq!(nav.handle_key(press(Key::Char('G'))), KeyAction::SelectedRunTaskChanged);
    assert_eq!(nav.selected_run_task_index, 2);
    assert_eq!(nav.handle_key(press(Key::Down)), KeyAction::Nothing);
    assert_eq!(nav.handle_key(press(Key::Char('k'))), KeyAction::SelectedRunTaskChanged);
    assert_eq!(nav.selected_run_task_index, 1);
    assert_eq!(nav.handle_key(press(Key::Enter)), KeyAction::ReloadSelectedTaskLog);
}

#[test]
fn focus_cycles_within_each_screen() {
    assert_eq!(cycle_focus(Screen::Launcher, false, Focus::LauncherDetails, false), Focus::LauncherTasks);
    assert_eq!(cycle_focus(Screen::Launcher, true, Focus::LauncherDetails, false), Focus::LauncherFailureOutput);
    assert_eq!(cycle_focus(Screen::RunDetail, false, Focus::DetailTasks, true), Focus::DetailSummary);
    assert_eq!(cycle_focus(Screen::RunHistory, false, Focus::DetailEvents, false), Focus::HistoryDetails);
    for focus in [Focus::DetailTasks, Focus::DetailOutput, Focus::DetailEvents, Focus::DetailSummary] {
        let next = cycle_focus(Screen::RunDetail, false, focus, false);
        assert_eq!(cycle_focus(Screen::RunDetail, false, next, true), focus);
    }
}

#[test]
fn launcher_failure_output_focus_needs_a_failed_run() {
    assert!(show_launcher_failure_output(Some("failed"), true));
    assert!(!show_launcher_failure_output(Some("completed"), true));
    assert!(!show_launcher_failure_output(Some("failed"), false));
    assert!(!show_launcher_failure_output(None, true));
    let mut nav = Navigation::new(1, 0);
    nav.handle_key(press(Key::Char('o')));
    assert_eq!(nav.focus, Focus::LauncherTasks);
    nav.failure_output_shown = true;
    nav.handle_key(press(Key::Char('o')));
    assert_eq!(nav.focus, Focus::LauncherFailureOutput);
    assert_eq!(nav.handle_key(press(Key::Char('j'))), KeyAction::ScrollLauncherLog(1));
    assert_eq!(nav.handle_key(press(Key::End)), KeyAction::LauncherLogToBottom);
}

#[test]
fn goal_selection_toggles_and_keeps_name_order() {
    let mut goals = NameSet::new();
    goals.toggle("test");
    goals.toggle("build");
    goals.toggle("lint");
    assert_eq!(goals.names(), vec!["build".to_owned(), "lint".to_owned(), "test".to_owned()]);
    goals.toggle("lint");
    assert_eq!(goals.names(), vec!["build".to_owned(), "test".to_owned()]);
    assert!(!goals.contains("lint"));
    assert!(!goals.is_empty());
}

#[test]
fn events_scroll_reaches_the_last_event() {
    assert_eq!(max_events_scroll(None), 0);
    assert_eq!(max_events_scroll(Some(0)), 0);
    assert_eq!(max_events_scroll(Some(5)), 4);
    assert_eq!(max_events_scroll(Some(100_000)), u16::MAX);
    assert_eq!(start_run_refusal(true, 1), Some("a run is already active"));
    assert_eq!(start_run_refusal(false, 0), Some("no task is available to run"));
}
