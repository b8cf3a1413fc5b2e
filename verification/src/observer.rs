//! Task lifecycle notifications during a run, and the lines that CI mode prints for them.

use crate::duration::{pretty_duration, pretty_duration_spec};
use crate::text::join2;
use vstd::prelude::*;

verus! {

/// Receives task lifecycle updates while a planned run is executing. Every method does
/// nothing unless an implementation says otherwise.
pub trait RunObserver {
    /// Called when a task begins execution.
    fn on_task_started(&mut self, task_name: &str) {
    }

    /// Called when a running task reports its status with a `Task status: ` line.
    fn on_task_status(&mut self, task_name: &str, status_message: &str) {
    }

    /// Called when a task exits successfully.
    fn on_task_completed(&mut self, task_name: &str, elapsed_nanos: u128, outcome_message: Option<&str>) {
    }

    /// Called when a task fails before the run stops.
    fn on_task_failed(&mut self, task_name: &str, elapsed_nanos: u128, outcome_message: Option<&str>) {
    }

    /// Called when a task is skipped because an earlier task failed.
    fn on_task_skipped(&mut self, task_name: &str) {
    }
}

/// The line CI mode prints when a task starts.
pub fn ci_task_started_line(task_name: &str) -> (s: String)
    ensures
        s@ == "Starting "@ + task_name@,
{
    join2("Starting ", task_name)
}

/// The line CI mode prints when a task completes: its name, how long it took and, when
/// it reported one, its outcome.
pub fn ci_task_completed_line(task_name: &str, elapsed_nanos: u128, outcome_message: Option<&str>) -> (s:
    String)
    ensures
        s@ == "Completed "@ + task_name@ + " in "@ + pretty_duration_spec(elapsed_nanos as nat) + match outcome_message {
            Some(m) => ": "@ + m@,
            None => Seq::empty(),
        },
{
    let mut s = join2("Completed ", task_name);
    s.append(" in ");
    s.append(pretty_duration(elapsed_nanos).as_str());
    match outcome_message {
        Some(m) => {
            s.append(": ");
            s.append(m);
        },
        None => {
            assert(s@ =~= s@ + Seq::<char>::empty());
        },
    }
    s
}

/// The line CI mode prints when a task fails: its name and how long it ran.
pub fn ci_task_failed_line(task_name: &str, elapsed_nanos: u128) -> (s: String)
    ensures
        s@ == "Failed "@ + task_name@ + " in "@ + pretty_duration_spec(elapsed_nanos as nat),
{
    let mut s = join2("Failed ", task_name);
    s.append(" in ");
    s.append(pretty_duration(elapsed_nanos).as_str());
    s
}

} // verus!
