use nao::artifacts::{
    absolute_time_nanos, format_file_safe_iso8601, format_iso8601, preview_run_directory_for_time,
    render_log_line, reservation_candidate_time, reservation_step, run_root_directory_for_recipe_path,
    sanitize_file_component, task_log_file_name, ReservationStep,
};
use nao::file_path::FilePath;
use nao::run_outcome::OutputStream;

#[test]
fn places_runs_next_to_the_recipe() {
    assert_eq!(run_root_directory_for_recipe_path(&FilePath::from_str(".nao/nao.kdl")).as_str(), ".nao/runs");
    assert_eq!(run_root_directory_for_recipe_path(&FilePath::from_str("nao.kdl")).as_str(), ".nao/runs");
    assert_eq!(
        run_root_directory_for_recipe_path(&FilePath::from_str("configs/ci.kdl")).as_str(),
        "configs/.nao/runs"
    );
}

#[test]
fn sanitizes_file_components() {
    assert_eq!(sanitize_file_component("lint+fmt"), "lint+fmt");
    assert_eq!(sanitize_file_component("a b/c:d"), "a_b_c_d");
    assert_eq!(task_log_file_name("unit tests"), "unit_tests.log");
}

#[test]
fn formats_utc_timestamps() {
    assert_eq!(format_iso8601(0), "1970-01-01T00:00:00Z");
    assert_eq!(format_iso8601(10_000_000_000), "1970-01-01T00:00:10Z");
    assert_eq!(format_iso8601(1_774_102_931_000_000_000), "2026-03-21T14:22:11Z");
    assert_eq!(format_file_safe_iso8601(0), "1970-01-01T00-00-00Z");
}

#[test]
fn names_run_directories_after_time_and_requested_tasks() {
    let root = FilePath::from_str(".nao/runs");
    let names = vec!["lint".to_owned(), "fmt".to_owned()];
    assert_eq!(
        preview_run_directory_for_time(&root, &names, 0).as_str(),
        ".nao/runs/1970-01-01T00-00-00Z-lint+fmt"
    );
    assert_eq!(
        preview_run_directory_for_time(&root, &vec!["package".to_owned()], 10_000_000_000).as_str(),
        ".nao/runs/1970-01-01T00-00-10Z-package"
    );
}

#[test]
fn retries_run_directory_reservation_on_collision() {
    assert!(matches!(reservation_step(0, true), ReservationStep::Reserved));
    assert!(matches!(reservation_step(0, false), ReservationStep::Retry { next_attempt: 1 }));
    assert_eq!(reservation_candidate_time(0, 1), 1_000_000_000);
}

#[test]
fn errors_after_thirty_run_directory_collisions() {
    match reservation_step(29, false) {
        ReservationStep::GiveUp { message } => {
            assert_eq!(message, "Unable to reserve a unique run directory after 30 attempts")
        }
        _ => panic!("expected to give up"),
    }
}

#[test]
fn maps_monotonic_timestamps_to_wall_clock_time() {
    assert_eq!(absolute_time_nanos(1_000, 10, 15), 1_005);
    assert_eq!(absolute_time_nanos(1_000, 10, 5), 1_000);
    assert_eq!(render_log_line("1970-01-01T00:00:00Z", OutputStream::Stderr, "boom"), "[1970-01-01T00:00:00Z] stderr: boom\n");
}
