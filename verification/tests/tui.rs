use nao::duration::pretty_duration;
use nao::tui::{adjust_scroll, render_task_state_emoji, spinner_frames};

#[test]
fn app_renders_task_state_emojis() {
    assert_eq!(render_task_state_emoji("pending", 0), "⚪");
    assert_eq!(render_task_state_emoji("running", 0), "⠋ ");
    assert_eq!(render_task_state_emoji("running", 1), "⠙ ");
    assert_eq!(render_task_state_emoji("completed", 0), "✅");
    assert_eq!(render_task_state_emoji("failed", 0), "❌");
    assert_eq!(render_task_state_emoji("skipped", 0), "⏭ ");
}

#[test]
fn tests_renders_task_state_emojis() {
    assert_eq!(render_task_state_emoji("pending", 0), "⚪");
    assert_eq!(render_task_state_emoji("running", 0), "⠋ ");
    assert_eq!(render_task_state_emoji("running", 1), "⠙ ");
    assert_eq!(render_task_state_emoji("completed", 0), "✅");
    assert_eq!(render_task_state_emoji("failed", 0), "❌");
    assert_eq!(render_task_state_emoji("skipped", 0), "⏭ ");
}

#[test]
fn spinner_wraps_and_unknown_states_look_pending() {
    assert_eq!(spinner_frames().len(), 10);
    assert_eq!(render_task_state_emoji("running", 11), "⠙ ");
    assert_eq!(render_task_state_emoji("unknown", 3), "⚪");
}

#[test]
fn app_formats_durations_for_progress_rows() {
    assert_eq!(pretty_duration(999), "999ns");
    assert_eq!(pretty_duration(1_200), "1.2us");
    assert_eq!(pretty_duration(2_500_000), "2.5ms");
    assert_eq!(pretty_duration(2_000_000_000), "2.0s");
}

#[test]
fn tests_formats_durations_for_progress_rows() {
    assert_eq!(pretty_duration(999), "999ns");
    assert_eq!(pretty_duration(1_200), "1.2us");
    assert_eq!(pretty_duration(2_500_000), "2.5ms");
    assert_eq!(pretty_duration(2_000_000_000), "2.0s");
}

#[test]
fn scroll_stays_within_bounds() {
    assert_eq!(adjust_scroll(3, -10, 20), 0);
    assert_eq!(adjust_scroll(3, 5, 20), 8);
    assert_eq!(adjust_scroll(18, 10, 20), 20);
}
