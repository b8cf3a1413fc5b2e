//! What the command-line runner shows around a run: the task list, which live progress
//! display a run gets, and the closing summary with the run's exit status.

use crate::recipe::{opt_view, strings_view, LiveDisplay, Task};
use crate::rendering::{
    byte_len, byte_len_exec, failure_summary, max_nat, pad_right, push_padded_right,
    render_failure_summary, render_success_summary, success_summary,
};
use crate::run_outcome::{RunExecutionResult, RunStatus};
use crate::text::{extend_str, string_from_chars};
use vstd::prelude::*;
use vstd::string::*;

verus! {

/// Widest task name, in bytes.
pub open spec fn task_name_width(tasks: Seq<Task>) -> nat
    decreases tasks.len(),
{
    if tasks.len() == 0 {
        0
    } else {
        max_nat(task_name_width(tasks.drop_last()), byte_len(tasks.last().name@))
    }
}

/// One row of the task list: the name padded to the widest name (bold on a terminal),
/// and the description when there is one.
pub open spec fn task_list_row(task: Task, width: nat, interactive_terminal: bool) -> Seq<char> {
    let name = if interactive_terminal {
        "\u{1b}[1m"@ + pad_right(task.name@, width) + "\u{1b}[0m"@
    } else {
        pad_right(task.name@, width)
    };
    "  "@ + name + match task.description {
        Some(d) => "  "@ + d@,
        None => Seq::empty(),
    } + "\n"@
}

/// The rows of the task list.
pub open spec fn task_list_rows(tasks: Seq<Task>, width: nat, interactive_terminal: bool) -> Seq<char>
    decreases tasks.len(),
{
    if tasks.len() == 0 {
        Seq::empty()
    } else {
        task_list_rows(tasks.drop_last(), width, interactive_terminal) + task_list_row(
            tasks.last(),
            width,
            interactive_terminal,
        )
    }
}

/// The task list that `--list` prints.
pub open spec fn task_list_text(tasks: Seq<Task>, interactive_terminal: bool) -> Seq<char> {
    "Available tasks:\n\n"@ + task_list_rows(tasks, task_name_width(tasks), interactive_terminal)
}

fn task_name_width_exec(tasks: &Vec<Task>) -> (w: u128)
    ensures
        w == task_name_width(tasks@),
{
    let mut w: u128 = 0;
    let mut i: usize = 0;
    while i < tasks.len()
        invariant
            i <= tasks@.len(),
            w == task_name_width(tasks@.take(i as int)),
        decreases tasks@.len() - i,
    {
        assert(tasks@.take(i + 1).drop_last() =~= tasks@.take(i as int));
        assert(tasks@.take(i + 1).last() == tasks@[i as int]);
        let n = byte_len_exec(tasks[i].name.0.as_str());
        if w < n {
            w = n;
        }
        i = i + 1;
    }
    assert(tasks@.take(tasks@.len() as int) =~= tasks@);
    w
}

/// Renders the task list that `--list` prints.
pub fn render_task_list(tasks: &Vec<Task>, interactive_terminal: bool) -> (s: String)
    ensures
        s@ == task_list_text(tasks@, interactive_terminal),
{
    let width = task_name_width_exec(tasks);
    let mut out: Vec<char> = Vec::new();
    extend_str(&mut out, "Available tasks:\n\n");
    let ghost start = out@;
    let mut i: usize = 0;
    while i < tasks.len()
        invariant
            i <= tasks@.len(),
            width == task_name_width(tasks@),
            out@ == start + task_list_rows(tasks@.take(i as int), width as nat, interactive_terminal),
        decreases tasks@.len() - i,
    {
        assert(tasks@.take(i + 1).drop_last() =~= tasks@.take(i as int));
        assert(tasks@.take(i + 1).last() == tasks@[i as int]);
        let task = &tasks[i];
        let ghost before = out@;
        extend_str(&mut out, "  ");
        if interactive_terminal {
            extend_str(&mut out, "\u{1b}[1m");
            push_padded_right(&mut out, task.name.0.as_str(), width);
            extend_str(&mut out, "\u{1b}[0m");
        } else {
            push_padded_right(&mut out, task.name.0.as_str(), width);
        }
        match &task.description {
            Some(description) => {
                extend_str(&mut out, "  ");
                extend_str(&mut out, description.as_str());
            },
            None => {},
        }
        extend_str(&mut out, "\n");
        assert(out@ =~= before + task_list_row(*task, width as nat, interactive_terminal));
        i = i + 1;
    }
    assert(tasks@.take(tasks@.len() as int) =~= tasks@);
    string_from_chars(&out)
}

/// How a run shows its progress while it executes.
#[derive(Debug, Clone, Copy, PartialEq, Eq, Structural)]
pub enum LiveProgress {
    /// One line, rewritten in place, with the running, completed and remaining counts.
    SingleLine,
    /// One row per task, redrawn in place.
    LinePerTask,
    /// Only the running line, printed once: output is not a terminal.
    Header,
}

/// The progress display of a run: the recipe's live display on a terminal, and only the
/// running line elsewhere.
pub fn live_progress(interactive_terminal: bool, live_display: LiveDisplay) -> (p: LiveProgress)
    ensures
        p == (if !interactive_terminal {
            LiveProgress::Header
        } else {
            match live_display {
                LiveDisplay::SingleLine => LiveProgress::SingleLine,
                LiveDisplay::LinePerTask => LiveProgress::LinePerTask,
            }
        }),
{
    if !interactive_terminal {
        LiveProgress::Header
    } else {
        match live_display {
            LiveDisplay::SingleLine => LiveProgress::SingleLine,
            LiveDisplay::LinePerTask => LiveProgress::LinePerTask,
        }
    }
}

/// Whether a run ends with a successful exit status: exactly when every task completed.
pub fn run_succeeded(status: &RunStatus) -> (ok: bool)
    ensures
        ok == (*status is Completed),
{
    match status {
        RunStatus::Completed => true,
        RunStatus::Failed(_) => false,
    }
}

/// The summary printed after a run: the success summary when every task completed, the
/// failure summary of the failed task otherwise.
pub fn render_run_result(result: &RunExecutionResult) -> (s: String)
    ensures
        s@ == (match result.status {
            RunStatus::Completed => success_summary(
                strings_view(result.goal_tasks@),
                result.total_task_count as nat,
                result.duration_nanos as nat,
                opt_view(result.goal_outcome_message),
            ),
            RunStatus::Failed(f) => failure_summary(
                strings_view(result.goal_tasks@),
                f.task_name@,
                f.exit_code as int,
                f.elapsed_nanos as nat,
                f.successful_task_count as nat,
                f.omitted_output_line_count as nat,
                strings_view(f.output_tail_lines@),
            ),
        }),
{
    match &result.status {
        RunStatus::Completed => {
            let outcome: Option<&str> = match &result.goal_outcome_message {
                Some(m) => Some(m.as_str()),
                None => None,
            };
            render_success_summary(&result.goal_tasks, result.total_task_count, result.duration_nanos, outcome)
        },
        RunStatus::Failed(f) => render_failure_summary(&result.goal_tasks, f),
    }
}

} // verus!
