//! When the terminal UI rereads an open run's artifacts: on request, and while the run is
//! still executing, at fixed tick intervals.

use crate::file_path::FilePath;
use crate::run_history::RunTaskRecord;
use crate::text::str_equals;
use vstd::prelude::*;
use vstd::string::*;

verus! {

/// Pending forced rereads of the open run.
#[derive(Debug, Clone, Copy, PartialEq, Eq, Structural)]
pub struct RefreshFlags {
    /// Reread the run's detail at the next tick.
    pub force_detail_reload: bool,
    /// Reread the selected task's log at the next tick.
    pub force_selected_task_log_reload: bool,
    /// Reread the failed task's log at the next tick.
    pub force_launcher_failed_log_reload: bool,
}

/// Flags that reread everything: what opening a run asks for.
pub fn reload_everything() -> (f: RefreshFlags)
    ensures
        f.force_detail_reload && f.force_selected_task_log_reload && f.force_launcher_failed_log_reload,
{
    RefreshFlags { force_detail_reload: true, force_selected_task_log_reload: true, force_launcher_failed_log_reload: true }
}

/// Whether the open run is the one executing.
pub fn is_open_run_active(open_run_directory: Option<&FilePath>, active_run_directory: Option<&FilePath>) -> (b: bool)
    ensures
        b == (match (open_run_directory, active_run_directory) {
            (Some(open), Some(active)) => open.0@ == active.0@,
            _ => false,
        }),
{
    match (open_run_directory, active_run_directory) {
        (Some(open), Some(active)) => str_equals(open.as_str(), active.as_str()),
        _ => false,
    }
}

/// Whether a tick rereads the open run's detail: when forced, or every fourth tick while
/// the run executes.
pub fn should_reload_open_run_detail(flags: RefreshFlags, open_run_active: bool, tick: u64) -> (b: bool)
    ensures
        b == (flags.force_detail_reload || (open_run_active && tick % 4 == 0)),
{
    flags.force_detail_reload || (open_run_active && tick % 4 == 0)
}

/// Whether a task status is one whose log may still grow while the run executes.
pub open spec fn log_may_grow(status: Seq<char>) -> bool {
    status == "running"@ || status == "failed"@
}

/// Whether a tick rereads the selected task's log: when forced, or every second tick while
/// the run executes, the log follows new output, and the selected task is running or has
/// failed.
pub fn should_reload_selected_task_log(
    flags: RefreshFlags,
    open_run_active: bool,
    auto_follow_log: bool,
    selected_task_status: Option<&str>,
    tick: u64,
) -> (b: bool)
    ensures
        b == (flags.force_selected_task_log_reload || (open_run_active && auto_follow_log && match selected_task_status {
            Some(status) => log_may_grow(status@),
            None => false,
        } && tick % 2 == 0)),
{
    if flags.force_selected_task_log_reload {
        return true;
    }
    if !open_run_active || !auto_follow_log {
        return false;
    }
    proof {
        reveal_strlit("running");
        reveal_strlit("failed");
    }
    let active = match selected_task_status {
        Some(status) => str_equals(status, "running") || str_equals(status, "failed"),
        None => false,
    };
    active && tick % 2 == 0
}

/// Whether a tick rereads the failed task's log: when forced, or every second tick while
/// the run executes and the launcher shows the failed task's output.
pub fn should_reload_launcher_failed_task_log(
    flags: RefreshFlags,
    open_run_active: bool,
    failure_output_shown: bool,
    tick: u64,
) -> (b: bool)
    ensures
        b == (flags.force_launcher_failed_log_reload || (open_run_active && failure_output_shown && tick % 2 == 0)),
{
    flags.force_launcher_failed_log_reload || (open_run_active && failure_output_shown && tick % 2 == 0)
}

/// The first task of a run that failed.
pub open spec fn first_failed(tasks: Seq<RunTaskRecord>, from: int) -> Option<int>
    decreases tasks.len() - from,
{
    if from < 0 || from >= tasks.len() {
        None
    } else if tasks[from].status@ == "failed"@ {
        Some(from)
    } else {
        first_failed(tasks, from + 1)
    }
}

/// Returns the position of the first task of a run that failed.
pub fn first_failed_task_index(tasks: &Vec<RunTaskRecord>) -> (r: Option<usize>)
    ensures
        match r {
            Some(k) => first_failed(tasks@, 0) == Some(k as int) && k < tasks@.len(),
            None => first_failed(tasks@, 0) is None,
        },
{
    let mut i: usize = 0;
    proof {
        reveal_strlit("failed");
    }
    while i < tasks.len()
        invariant
            i <= tasks@.len(),
            first_failed(tasks@, 0) == first_failed(tasks@, i as int),
        decreases tasks@.len() - i,
    {
        if str_equals(tasks[i].status.as_str(), "failed") {
            return Some(i);
        }
        i = i + 1;
    }
    None
}

/// The run-task selection after the open run's detail was reread: kept within its tasks.
pub fn clamp_selected_run_task(index: usize, task_count: usize) -> (r: usize)
    ensures
        r == (if task_count == 0 {
            0
        } else if index < task_count {
            index
        } else {
            (task_count - 1) as usize
        }),
{
    if task_count == 0 {
        0
    } else if index < task_count {
        index
    } else {
        task_count - 1
    }
}

/// The history selection after the history was reread: the last run when it was past
/// the end, and unchanged otherwise.
pub fn clamp_history_selection(index: usize, run_count: usize) -> (r: usize)
    ensures
        r == (if index >= run_count && run_count > 0 {
            (run_count - 1) as usize
        } else {
            index
        }),
{
    if index >= run_count && run_count > 0 {
        run_count - 1
    } else {
        index
    }
}

/// Whether the log file shown for a task changed between two rereads.
pub fn shown_log_changed(before: Option<&FilePath>, after: Option<&FilePath>) -> (b: bool)
    ensures
        b == !(match (before, after) {
            (Some(x), Some(y)) => x.0@ == y.0@,
            (None, None) => true,
            _ => false,
        }),
{
    match (before, after) {
        (Some(x), Some(y)) => !str_equals(x.as_str(), y.as_str()),
        (None, None) => false,
        _ => true,
    }
}

/// The spinner frame after a tick.
pub fn next_spinner_frame(frame: usize) -> (r: usize)
    ensures
        r == (frame + 1) % 10,
{
    (frame % 10 + 1) % 10
}

} // verus!
