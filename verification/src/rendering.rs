//! Terminal rendering of runs: the running line, success and failure summaries, the CI
//! summary table and the live task displays.

use crate::duration::{format_live_task_runtime_seconds, in_units, pretty_duration, pretty_duration_spec};
use crate::recipe::{opt_view, Task, TaskName};
use crate::run_outcome::{
    render_completed_task_count, task_count_text, RunExecutionResult, RunStatus, RunTaskResult, TaskFailure,
};
use crate::recipe::strings_view;
use crate::source_location::utf8_len;
use crate::text::{chars_of, decimal, extend_chars, i64_to_string, join3, signed_decimal, usize_to_string};
use vstd::prelude::*;
use vstd::string::*;

verus! {

/// `text` in bold white.
pub open spec fn bold(text: Seq<char>) -> Seq<char> {
    "\u{1b}[1;37m"@ + text + "\u{1b}[0m"@
}

/// Wraps text in the escape codes for bold white.
pub fn style_bold_white(text: &str) -> (s: String)
    ensures
        s@ == bold(text@),
{
    join3("\u{1b}[1;37m", text, "\u{1b}[0m")
}

/// The line announcing a run.
pub fn render_running_line(line_body: &str) -> (s: String)
    ensures
        s@ == "🚀 "@ + line_body@ + "\n"@,
{
    join3("🚀 ", line_body, "\n")
}

/// The names joined with commas.
pub open spec fn joined_with_commas(names: Seq<Seq<char>>) -> Seq<char>
    decreases names.len(),
{
    if names.len() == 0 {
        Seq::empty()
    } else if names.len() == 1 {
        names[0]
    } else {
        joined_with_commas(names.drop_last()) + ","@ + names.last()
    }
}

/// Joins goal task names with commas.
pub fn join_goal_tasks(goal_tasks: &Vec<String>) -> (s: String)
    ensures
        s@ == joined_with_commas(strings_view(goal_tasks@)),
{
    let ghost sv = strings_view(goal_tasks@);
    let mut s = String::new();
    let mut i: usize = 0;
    assert(s@ =~= joined_with_commas(sv.take(0)));
    while i < goal_tasks.len()
        invariant
            i <= goal_tasks@.len(),
            sv == strings_view(goal_tasks@),
            s@ == joined_with_commas(sv.take(i as int)),
        decreases goal_tasks@.len() - i,
    {
        assert(sv.take(i + 1).drop_last() =~= sv.take(i as int));
        if i > 0 {
            s.append(",");
        }
        s.append(goal_tasks[i].as_str());
        proof {
            if i == 0 {
                assert(sv.take(1) =~= seq![sv[0]]);
                assert(s@ =~= sv[0]);
            }
        }
        i = i + 1;
    }
    assert(sv.take(goal_tasks@.len() as int) =~= sv);
    s
}

/// Joins task names with commas.
pub fn join_goal_task_names(goal_tasks: &Vec<TaskName>) -> (s: String)
    ensures
        s@ == joined_with_commas(goal_tasks@.map_values(|t: TaskName| t@)),
{
    let mut names: Vec<String> = Vec::new();
    let mut i: usize = 0;
    while i < goal_tasks.len()
        invariant
            i <= goal_tasks@.len(),
            strings_view(names@) == goal_tasks@.map_values(|t: TaskName| t@).take(i as int),
        decreases goal_tasks@.len() - i,
    {
        let ghost prev = strings_view(names@);
        let ghost goals = goal_tasks@.map_values(|t: TaskName| t@);
        let name = goal_tasks[i].0.clone();
        assert(name@ == goals[i as int]);
        names.push(name);
        assert(strings_view(names@) =~= prev.push(goals[i as int]));
        assert(goals.take(i + 1) =~= goals.take(i as int).push(goals[i as int]));
        i = i + 1;
    }
    assert(goal_tasks@.map_values(|t: TaskName| t@).take(goal_tasks@.len() as int)
        =~= goal_tasks@.map_values(|t: TaskName| t@));
    join_goal_tasks(&names)
}

/// The body of the running line: the goal tasks and how many prerequisites run.
pub open spec fn running_line_body(goals: Seq<Seq<char>>, total: nat) -> Seq<char> {
    let prerequisites = if total > goals.len() {
        (total - goals.len()) as nat
    } else {
        0
    };
    "Running "@ + bold(joined_with_commas(goals)) + " and "@ + decimal(prerequisites) + " prerequisite "@
        + if prerequisites == 1 {
        "task"@
    } else {
        "tasks"@
    }
}

/// Renders the body of the running line.
pub fn render_running_line_body(goal_tasks: &Vec<TaskName>, total_task_count: usize) -> (s: String)
    ensures
        s@ == running_line_body(goal_tasks@.map_values(|t: TaskName| t@), total_task_count as nat),
{
    let prerequisites: usize = if total_task_count > goal_tasks.len() {
        total_task_count - goal_tasks.len()
    } else {
        0
    };
    let goals = join_goal_task_names(goal_tasks);
    let mut s = String::from_str("Running ");
    s.append(style_bold_white(goals.as_str()).as_str());
    s.append(" and ");
    s.append(usize_to_string(prerequisites).as_str());
    s.append(" prerequisite ");
    if prerequisites == 1 {
        s.append("task");
    } else {
        s.append("tasks");
    }
    s
}

/// The summary of a successful run.
pub open spec fn success_summary(goals: Seq<Seq<char>>, total: nat, duration: nat, outcome: Option<Seq<char>>) -> Seq<
    char,
> {
    "✅ Succeeded "@ + bold(joined_with_commas(goals)) + " in "@ + bold(pretty_duration_spec(duration))
        + " ("@ + task_count_text(total) + ")"@ + match outcome {
        Some(m) => ": "@ + bold(m),
        None => ""@,
    } + "\n"@
}

/// Renders the summary of a successful run.
pub fn render_success_summary(
    goal_tasks: &Vec<String>,
    total_task_count: usize,
    duration_nanos: u128,
    goal_outcome_message: Option<&str>,
) -> (s: String)
    ensures
        s@ == success_summary(
            strings_view(goal_tasks@),
            total_task_count as nat,
            duration_nanos as nat,
            match goal_outcome_message {
                Some(m) => Some(m@),
                None => None,
            },
        ),
{
    let mut s = String::from_str("✅ Succeeded ");
    s.append(style_bold_white(join_goal_tasks(goal_tasks).as_str()).as_str());
    s.append(" in ");
    s.append(style_bold_white(pretty_duration(duration_nanos).as_str()).as_str());
    s.append(" (");
    s.append(render_completed_task_count(total_task_count).as_str());
    s.append(")");
    match goal_outcome_message {
        Some(message) => {
            s.append(": ");
            s.append(style_bold_white(message).as_str());
        },
        None => {
            proof {
                reveal_strlit("");
            }
        },
    }
    s.append("\n");
    s
}

/// The frame line of the failed task's output box.
pub open spec fn frame_line(left: Seq<char>, header: Seq<char>, right: Seq<char>) -> Seq<char> {
    left + "─────────"@ + " "@ + bold(header) + " "@ + "─────────"@ + right + "\n"@
}

/// The output lines, each followed by a line break.
pub open spec fn lines_text(lines: Seq<Seq<char>>) -> Seq<char>
    decreases lines.len(),
{
    if lines.len() == 0 {
        Seq::empty()
    } else {
        lines_text(lines.drop_last()) + lines.last() + "\n"@
    }
}

/// The summary of a failed run: the failed task's output tail in a box, then a line
/// naming the failed task, its exit code and time, and how many tasks completed.
pub open spec fn failure_summary(goals: Seq<Seq<char>>, name: Seq<char>, exit_code: int, elapsed: nat, successful: nat, omitted: nat, tail: Seq<Seq<char>>) -> Seq<char> {
    let header = name + " output: ("@ + decimal(omitted) + " lines omitted)"@;
    frame_line("╭"@, header, "╮"@) + lines_text(tail) + frame_line("╰"@, header, "╯"@) + "\n"@
        + "\u{1b}[1;31m❌\u{1b}[0m "@ + bold(joined_with_commas(goals)) + " failed because "@ + bold(name)
        + " failed with exit code "@ + bold(signed_decimal(exit_code)) + " in "@ + bold(
        pretty_duration_spec(elapsed),
    ) + " after "@ + bold(task_count_text(successful)) + " completed successfully\n"@
}

/// Renders the summary of a failed run.
pub fn render_failure_summary(goal_tasks: &Vec<String>, task_failure: &TaskFailure) -> (s: String)
    ensures
        s@ == failure_summary(
            strings_view(goal_tasks@),
            task_failure.task_name@,
            task_failure.exit_code as int,
            task_failure.elapsed_nanos as nat,
            task_failure.successful_task_count as nat,
            task_failure.omitted_output_line_count as nat,
            strings_view(task_failure.output_tail_lines@),
        ),
{
    let mut header = String::from_str(task_failure.task_name.as_str());
    header.append(" output: (");
    header.append(usize_to_string(task_failure.omitted_output_line_count).as_str());
    header.append(" lines omitted)");
    let bold_header = style_bold_white(header.as_str());
    let mut s = String::from_str("╭");
    s.append("─────────");
    s.append(" ");
    s.append(bold_header.as_str());
    s.append(" ");
    s.append("─────────");
    s.append("╮");
    s.append("\n");
    let ghost start = s@;
    let ghost tail = strings_view(task_failure.output_tail_lines@);
    let mut i: usize = 0;
    assert(start + lines_text(tail.take(0)) =~= start);
    while i < task_failure.output_tail_lines.len()
        invariant
            i <= task_failure.output_tail_lines@.len(),
            tail == strings_view(task_failure.output_tail_lines@),
            s@ == start + lines_text(tail.take(i as int)),
        decreases task_failure.output_tail_lines@.len() - i,
    {
        assert(tail.take(i + 1).drop_last() =~= tail.take(i as int));
        s.append(task_failure.output_tail_lines[i].as_str());
        s.append("\n");
        i = i + 1;
    }
    assert(tail.take(task_failure.output_tail_lines@.len() as int) =~= tail);
    s.append("╰");
    s.append("─────────");
    s.append(" ");
    s.append(bold_header.as_str());
    s.append(" ");
    s.append("─────────");
    s.append("╯");
    s.append("\n");
    s.append("\n");
    s.append("\u{1b}[1;31m❌\u{1b}[0m ");
    s.append(style_bold_white(join_goal_tasks(goal_tasks).as_str()).as_str());
    s.append(" failed because ");
    s.append(style_bold_white(task_failure.task_name.as_str()).as_str());
    s.append(" failed with exit code ");
    s.append(style_bold_white(i64_to_string(task_failure.exit_code as i64).as_str()).as_str());
    s.append(" in ");
    s.append(style_bold_white(pretty_duration(task_failure.elapsed_nanos).as_str()).as_str());
    s.append(" after ");
    s.append(
        style_bold_white(render_completed_task_count(task_failure.successful_task_count).as_str()).as_str(),
    );
    s.append(" completed successfully\n");
    s
}

} // verus!

verus! {

/// Number of bytes of `s` in UTF-8.
pub open spec fn byte_len(s: Seq<char>) -> nat
    decreases s.len(),
{
    if s.len() == 0 {
        0
    } else {
        byte_len(s.drop_last()) + utf8_len(s.last())
    }
}

/// Computes the UTF-8 byte length of `s`.
pub fn byte_len_exec(s: &str) -> (n: u128)
    ensures
        n == byte_len(s@),
{
    let chars = chars_of(s);
    let mut n: u128 = 0;
    let mut i: usize = 0;
    while i < chars.len()
        invariant
            i <= chars@.len(),
            chars@ == s@,
            n == byte_len(chars@.take(i as int)),
            n <= 4 * i,
        decreases chars@.len() - i,
    {
        assert(chars@.take(i + 1).drop_last() =~= chars@.take(i as int));
        let c = chars[i];
        let code = c as u32;
        let width: u128 = if code < 0x80 {
            1
        } else if code < 0x800 {
            2
        } else if code < 0x10000 {
            3
        } else {
            4
        };
        n = n + width;
        i = i + 1;
    }
    assert(chars@.take(chars@.len() as int) =~= chars@);
    n
}

/// `n` spaces.
pub open spec fn spaces(n: nat) -> Seq<char> {
    Seq::new(n, |i: int| ' ')
}

/// `s` padded with spaces on the right to `w` characters.
pub open spec fn pad_right(s: Seq<char>, w: nat) -> Seq<char> {
    if s.len() < w {
        s + spaces((w - s.len()) as nat)
    } else {
        s
    }
}

/// `s` padded with spaces on the left to `w` characters.
pub open spec fn pad_left(s: Seq<char>, w: nat) -> Seq<char> {
    if s.len() < w {
        spaces((w - s.len()) as nat) + s
    } else {
        s
    }
}

fn push_spaces(v: &mut Vec<char>, n: u128)
    ensures
        final(v)@ == old(v)@ + spaces(n as nat),
{
    let mut k: u128 = 0;
    while k < n
        invariant
            k <= n,
            v@ == old(v)@ + spaces(k as nat),
        decreases n - k,
    {
        v.push(' ');
        k = k + 1;
        assert(v@ =~= old(v)@ + spaces(k as nat));
    }
}

/// Appends `s` padded on the right to `w` characters.
pub(crate) fn push_padded_right(v: &mut Vec<char>, s: &str, w: u128)
    ensures
        final(v)@ == old(v)@ + pad_right(s@, w as nat),
{
    let chars = chars_of(s);
    extend_chars(v, &chars);
    if (chars.len() as u128) < w {
        push_spaces(v, w - chars.len() as u128);
    }
}

/// Appends `s` padded on the left to `w` characters.
fn push_padded_left(v: &mut Vec<char>, s: &str, w: u128)
    ensures
        final(v)@ == old(v)@ + pad_left(s@, w as nat),
{
    let chars = chars_of(s);
    if (chars.len() as u128) < w {
        push_spaces(v, w - chars.len() as u128);
    }
    extend_chars(v, &chars);
    assert(final(v)@ =~= old(v)@ + pad_left(s@, w as nat));
}

/// The state of a task in a live display.
#[derive(Debug, Clone, Copy, PartialEq, Eq, Structural)]
pub enum LiveTaskStatus {
    Pending,
    Running,
    Completed,
    Failed,
    Skipped,
}

/// One task row of a live display.
#[derive(Debug)]
pub struct LiveTaskState {
    /// Task name.
    pub name: String,
    /// Current state.
    pub status: LiveTaskStatus,
    /// Run time once known.
    pub elapsed_nanos: Option<u128>,
    /// Reported outcome once known.
    pub outcome_message: Option<String>,
    /// The last status the running task reported, if any.
    pub status_message: Option<String>,
}

/// What a live display shows: a header and one row per planned task.
#[derive(Debug)]
pub struct LiveTaskSnapshot {
    /// The header line.
    pub header: String,
    /// One row per planned task.
    pub tasks: Vec<LiveTaskState>,
}

/// The first row named `name`, from row `from` on.
pub open spec fn first_row_named(rows: Seq<LiveTaskState>, name: Seq<char>, from: int) -> Option<int>
    decreases rows.len() - from,
{
    if from < 0 || from >= rows.len() {
        None
    } else if rows[from].name@ == name {
        Some(from)
    } else {
        first_row_named(rows, name, from + 1)
    }
}

impl LiveTaskSnapshot {
    /// Sets the status, run time and outcome of the first row named `task_name` and clears
    /// its status report, and tells whether there is such a row; without one, nothing
    /// changes.
    pub fn update_task(
        &mut self,
        task_name: &str,
        status: LiveTaskStatus,
        elapsed_nanos: Option<u128>,
        outcome_message: Option<&str>,
    ) -> (found: bool)
        ensures
            final(self).header == old(self).header,
            final(self).tasks@.len() == old(self).tasks@.len(),
            match first_row_named(old(self).tasks@, task_name@, 0) {
                Some(k) => {
                    &&& found
                    &&& final(self).tasks@[k].name == old(self).tasks@[k].name
                    &&& final(self).tasks@[k].status == status
                    &&& final(self).tasks@[k].elapsed_nanos == elapsed_nanos
                    &&& opt_view(final(self).tasks@[k].outcome_message) == (match outcome_message {
                        Some(m) => Some(m@),
                        None => None,
                    })
                    &&& final(self).tasks@[k].status_message is None
                    &&& forall|j: int| 0 <= j < old(self).tasks@.len() && j != k ==> final(self).tasks@[j] == old(self).tasks@[j]
                },
                None => !found && final(self).tasks@ == old(self).tasks@,
            },
    {
        let mut i: usize = 0;
        let n = self.tasks.len();
        while i < n
            invariant
                n == self.tasks@.len(),
                self.tasks@ == old(self).tasks@,
                self.header == old(self).header,
                i <= n,
                first_row_named(self.tasks@, task_name@, 0) == first_row_named(self.tasks@, task_name@, i as int),
            decreases n - i,
        {
            if crate::text::str_equals(self.tasks[i].name.as_str(), task_name) {
                let ghost before = self.tasks@;
                let mut row = self.tasks.remove(i);
                row.status = status;
                row.elapsed_nanos = elapsed_nanos;
                row.outcome_message = match outcome_message {
                    Some(m) => Some(m.to_string()),
                    None => None,
                };
                row.status_message = None;
                self.tasks.insert(i, row);
                assert forall|j: int| 0 <= j < before.len() && j != i implies self.tasks@[j] == before[j] by {
                    if j < i {
                        assert(self.tasks@[j] == before[j]);
                    } else {
                        assert(self.tasks@[j] == before[j]);
                    }
                }
                return true;
            }
            i = i + 1;
        }
        false
    }

    /// Records `status_message` as the status report of the first row named `task_name`,
    /// and tells whether there is such a row; without one, nothing changes.
    pub fn set_status_message(&mut self, task_name: &str, status_message: &str) -> (found: bool)
        ensures
            final(self).header == old(self).header,
            final(self).tasks@.len() == old(self).tasks@.len(),
            match first_row_named(old(self).tasks@, task_name@, 0) {
                Some(k) => {
                    &&& found
                    &&& final(self).tasks@[k].name == old(self).tasks@[k].name
                    &&& final(self).tasks@[k].status == old(self).tasks@[k].status
                    &&& final(self).tasks@[k].elapsed_nanos == old(self).tasks@[k].elapsed_nanos
                    &&& final(self).tasks@[k].outcome_message == old(self).tasks@[k].outcome_message
                    &&& opt_view(final(self).tasks@[k].status_message) == Some(status_message@)
                    &&& forall|j: int| 0 <= j < old(self).tasks@.len() && j != k ==> final(self).tasks@[j] == old(self).tasks@[j]
                },
                None => !found && final(self).tasks@ == old(self).tasks@,
            },
    {
        let mut i: usize = 0;
        let n = self.tasks.len();
        while i < n
            invariant
                n == self.tasks@.len(),
                self.tasks@ == old(self).tasks@,
                self.header == old(self).header,
                i <= n,
                first_row_named(self.tasks@, task_name@, 0) == first_row_named(self.tasks@, task_name@, i as int),
            decreases n - i,
        {
            if crate::text::str_equals(self.tasks[i].name.as_str(), task_name) {
                let ghost before = self.tasks@;
                let mut row = self.tasks.remove(i);
                row.status_message = Some(status_message.to_string());
                self.tasks.insert(i, row);
                assert forall|j: int| 0 <= j < before.len() && j != i implies self.tasks@[j] == before[j] by {
                    if j < i {
                        assert(self.tasks@[j] == before[j]);
                    } else {
                        assert(self.tasks@[j] == before[j]);
                    }
                }
                return true;
            }
            i = i + 1;
        }
        false
    }
}

/// A snapshot with every task pending.
pub fn new_snapshot(header: String, tasks: &Vec<Task>) -> (s: LiveTaskSnapshot)
    ensures
        s.header@ == header@,
        s.tasks@.len() == tasks@.len(),
        forall|i: int|
            0 <= i < tasks@.len() ==> (#[trigger] s.tasks@[i]).name@ == tasks@[i].name@ && s.tasks@[i].status
                == LiveTaskStatus::Pending && s.tasks@[i].elapsed_nanos is None
                && s.tasks@[i].outcome_message is None && s.tasks@[i].status_message is None,
{
    let mut rows: Vec<LiveTaskState> = Vec::new();
    let mut i: usize = 0;
    while i < tasks.len()
        invariant
            i <= tasks@.len(),
            rows@.len() == i,
            forall|k: int|
                0 <= k < i ==> (#[trigger] rows@[k]).name@ == tasks@[k].name@ && rows@[k].status
                    == LiveTaskStatus::Pending && rows@[k].elapsed_nanos is None
                    && rows@[k].outcome_message is None && rows@[k].status_message is None,
        decreases tasks@.len() - i,
    {
        rows.push(
            LiveTaskState {
                name: tasks[i].name.0.clone(),
                status: LiveTaskStatus::Pending,
                elapsed_nanos: None,
                outcome_message: None,
                status_message: None,
            },
        );
        i = i + 1;
    }
    LiveTaskSnapshot { header, tasks: rows }
}

/// The status marker of a row.
pub open spec fn status_text(status: LiveTaskStatus, running_symbol: Seq<char>) -> Seq<char> {
    match status {
        LiveTaskStatus::Pending => "○ "@,
        LiveTaskStatus::Running => running_symbol + " "@,
        LiveTaskStatus::Completed => "✅"@,
        LiveTaskStatus::Failed => "\u{1b}[1;31m❌\u{1b}[0m"@,
        LiveTaskStatus::Skipped => "⏭ "@,
    }
}

/// Renders the status marker of a row.
pub fn render_live_task_status(status: LiveTaskStatus, running_symbol: &str) -> (s: String)
    ensures
        s@ == status_text(status, running_symbol@),
{
    match status {
        LiveTaskStatus::Pending => String::from_str("○ "),
        LiveTaskStatus::Running => crate::text::join2(running_symbol, " "),
        LiveTaskStatus::Completed => String::from_str("✅"),
        LiveTaskStatus::Failed => String::from_str("\u{1b}[1;31m❌\u{1b}[0m"),
        LiveTaskStatus::Skipped => String::from_str("⏭ "),
    }
}

/// A run time in seconds with three decimals, as the live display shows it.
pub open spec fn seconds_text(nanos: nat) -> Seq<char> {
    in_units(nanos, 1_000_000_000, 3) + seq!['s']
}

/// The larger of two numbers.
pub open spec fn max_nat(a: nat, b: nat) -> nat {
    if a < b {
        b
    } else {
        a
    }
}

/// Widest task name, in bytes.
pub open spec fn name_width(ts: Seq<LiveTaskState>) -> nat
    decreases ts.len(),
{
    if ts.len() == 0 {
        0
    } else {
        max_nat(name_width(ts.drop_last()), byte_len(ts.last().name@))
    }
}

/// Widest run time, in bytes.
pub open spec fn duration_width(ts: Seq<LiveTaskState>) -> nat
    decreases ts.len(),
{
    if ts.len() == 0 {
        0
    } else {
        match ts.last().elapsed_nanos {
            Some(e) => max_nat(duration_width(ts.drop_last()), byte_len(seconds_text(e as nat))),
            None => duration_width(ts.drop_last()),
        }
    }
}

/// Widest outcome, in bytes.
pub open spec fn outcome_width(ts: Seq<LiveTaskState>) -> nat
    decreases ts.len(),
{
    if ts.len() == 0 {
        0
    } else {
        match ts.last().outcome_message {
            Some(o) => max_nat(outcome_width(ts.drop_last()), byte_len(o@)),
            None => outcome_width(ts.drop_last()),
        }
    }
}

/// The run time column of a row: the run time, or `running` while it runs.
pub open spec fn duration_cell(t: LiveTaskState) -> Option<Seq<char>> {
    match t.elapsed_nanos {
        Some(e) => Some(seconds_text(e as nat)),
        None => if t.status == LiveTaskStatus::Running {
            Some("running"@)
        } else {
            None
        },
    }
}

/// One row of the line-per-task display.
pub open spec fn task_row(t: LiveTaskState, running_symbol: Seq<char>, nw: nat, dw: nat, ow: nat) -> Seq<
    char,
> {
    let head = "  "@ + status_text(t.status, running_symbol) + " "@ + pad_right(t.name@, nw);
    match (duration_cell(t), opt_view(t.outcome_message)) {
        (Some(d), Some(o)) => head + "  "@ + pad_left(d, dw) + "  "@ + pad_right(o, ow) + "\n"@,
        (Some(d), None) => head + "  "@ + pad_left(d, dw) + "\n"@,
        (None, Some(o)) => head + "  "@ + pad_right(""@, dw) + "  "@ + pad_right(o, ow) + "\n"@,
        (None, None) => head + "\n"@,
    }
}

/// The rows of the line-per-task display.
pub open spec fn task_rows(ts: Seq<LiveTaskState>, running_symbol: Seq<char>, nw: nat, dw: nat, ow: nat) -> Seq<
    char,
>
    decreases ts.len(),
{
    if ts.len() == 0 {
        Seq::empty()
    } else {
        task_rows(ts.drop_last(), running_symbol, nw, dw, ow) + task_row(ts.last(), running_symbol, nw, dw, ow)
    }
}

/// The line-per-task display: the header, then one aligned row per task.
pub open spec fn line_per_task_display(header: Seq<char>, ts: Seq<LiveTaskState>, running_symbol: Seq<char>) -> Seq<
    char,
> {
    "🚀 "@ + header + "\n"@ + task_rows(
        ts,
        running_symbol,
        name_width(ts),
        duration_width(ts),
        outcome_width(ts),
    )
}

fn live_widths(ts: &Vec<LiveTaskState>) -> (w: (u128, u128, u128))
    ensures
        w.0 == name_width(ts@),
        w.1 == duration_width(ts@),
        w.2 == outcome_width(ts@),
{
    let mut nw: u128 = 0;
    let mut dw: u128 = 0;
    let mut ow: u128 = 0;
    let mut i: usize = 0;
    while i < ts.len()
        invariant
            i <= ts@.len(),
            nw == name_width(ts@.take(i as int)),
            dw == duration_width(ts@.take(i as int)),
            ow == outcome_width(ts@.take(i as int)),
        decreases ts@.len() - i,
    {
        assert(ts@.take(i + 1).drop_last() =~= ts@.take(i as int));
        assert(ts@.take(i + 1).last() == ts@[i as int]);
        let t = &ts[i];
        let n = byte_len_exec(t.name.as_str());
        if nw < n {
            nw = n;
        }
        match t.elapsed_nanos {
            Some(e) => {
                let d = byte_len_exec(format_live_task_runtime_seconds(e).as_str());
                if dw < d {
                    dw = d;
                }
            },
            None => {},
        }
        match &t.outcome_message {
            Some(o) => {
                let b = byte_len_exec(o.as_str());
                if ow < b {
                    ow = b;
                }
            },
            None => {},
        }
        i = i + 1;
    }
    assert(ts@.take(ts@.len() as int) =~= ts@);
    (nw, dw, ow)
}

fn render_task_row(t: &LiveTaskState, running_symbol: &str, nw: u128, dw: u128, ow: u128) -> (row: Vec<char>)
    ensures
        row@ == task_row(*t, running_symbol@, nw as nat, dw as nat, ow as nat),
{
    let mut row: Vec<char> = Vec::new();
    crate::text::extend_str(&mut row, "  ");
    let status = render_live_task_status(t.status, running_symbol);
    crate::text::extend_str(&mut row, status.as_str());
    crate::text::extend_str(&mut row, " ");
    push_padded_right(&mut row, t.name.as_str(), nw);
    let ghost head = row@;
    let duration: Option<String> = match t.elapsed_nanos {
        Some(e) => Some(format_live_task_runtime_seconds(e)),
        None => if t.status == LiveTaskStatus::Running {
            Some(String::from_str("running"))
        } else {
            None
        },
    };
    proof {
        reveal_strlit("");
    }
    match (&duration, &t.outcome_message) {
        (Some(d), Some(o)) => {
            crate::text::extend_str(&mut row, "  ");
            push_padded_left(&mut row, d.as_str(), dw);
            crate::text::extend_str(&mut row, "  ");
            push_padded_right(&mut row, o.as_str(), ow);
            crate::text::extend_str(&mut row, "\n");
        },
        (Some(d), None) => {
            crate::text::extend_str(&mut row, "  ");
            push_padded_left(&mut row, d.as_str(), dw);
            crate::text::extend_str(&mut row, "\n");
        },
        (None, Some(o)) => {
            crate::text::extend_str(&mut row, "  ");
            push_padded_right(&mut row, "", dw);
            crate::text::extend_str(&mut row, "  ");
            push_padded_right(&mut row, o.as_str(), ow);
            crate::text::extend_str(&mut row, "\n");
        },
        (None, None) => {
            crate::text::extend_str(&mut row, "\n");
        },
    }
    assert(row@ =~= task_row(*t, running_symbol@, nw as nat, dw as nat, ow as nat));
    row
}

/// Renders the line-per-task display: a header line, then one row per task with its
/// status, its name, its run time and its outcome in aligned columns.
pub fn render_line_per_task_display(snapshot: LiveTaskSnapshot, running_symbol: &str) -> (s: String)
    ensures
        s@ == line_per_task_display(snapshot.header@, snapshot.tasks@, running_symbol@),
{
    let (nw, dw, ow) = live_widths(&snapshot.tasks);
    let mut out: Vec<char> = Vec::new();
    crate::text::extend_str(&mut out, "🚀 ");
    crate::text::extend_str(&mut out, snapshot.header.as_str());
    crate::text::extend_str(&mut out, "\n");
    let ghost start = out@;
    let ghost ts = snapshot.tasks@;
    let mut i: usize = 0;
    assert(start + task_rows(ts.take(0), running_symbol@, nw as nat, dw as nat, ow as nat) =~= start);
    while i < snapshot.tasks.len()
        invariant
            i <= ts.len(),
            ts == snapshot.tasks@,
            out@ == start + task_rows(ts.take(i as int), running_symbol@, nw as nat, dw as nat, ow as nat),
        decreases ts.len() - i,
    {
        assert(ts.take(i + 1).drop_last() =~= ts.take(i as int));
        assert(ts.take(i + 1).last() == ts[i as int]);
        let row = render_task_row(&snapshot.tasks[i], running_symbol, nw, dw, ow);
        extend_chars(&mut out, &row);
        i = i + 1;
    }
    assert(ts.take(ts.len() as int) =~= ts);
    crate::text::string_from_chars(&out)
}

/// Whether `s` holds no line break.
pub open spec fn single_line(s: Seq<char>) -> bool {
    forall|i: int| 0 <= i < s.len() ==> s[i] != '\n'
}

/// Number of line breaks in `s`.
pub open spec fn line_break_count(s: Seq<char>) -> nat
    decreases s.len(),
{
    if s.len() == 0 {
        0
    } else {
        line_break_count(s.drop_last()) + if s.last() == '\n' { 1nat } else { 0nat }
    }
}

proof fn lemma_line_breaks_concat(a: Seq<char>, b: Seq<char>)
    ensures
        line_break_count(a + b) == line_break_count(a) + line_break_count(b),
    decreases b.len(),
{
    if b.len() > 0 {
        assert((a + b).drop_last() =~= a + b.drop_last());
        lemma_line_breaks_concat(a, b.drop_last());
    } else {
        assert(a + b =~= a);
    }
}

proof fn lemma_single_line_has_no_breaks(s: Seq<char>)
    requires
        single_line(s),
    ensures
        line_break_count(s) == 0,
    decreases s.len(),
{
    if s.len() > 0 {
        lemma_single_line_has_no_breaks(s.drop_last());
    }
}

proof fn lemma_decimal_single_line(n: nat)
    ensures
        single_line(decimal(n)),
    decreases n,
{
    if n >= 10 {
        lemma_decimal_single_line(n / 10);
    }
}

proof fn lemma_low_digits_single_line(v: nat, places: nat)
    ensures
        single_line(crate::duration::low_digits(v, places)),
    decreases places,
{
    if places > 0 {
        lemma_low_digits_single_line(v / 10, (places - 1) as nat);
    }
}

proof fn lemma_row_cells_single_line(t: LiveTaskState, running_symbol: Seq<char>, nw: nat, dw: nat, ow: nat)
    requires
        single_line(t.name@),
        single_line(running_symbol),
        t.outcome_message is Some ==> single_line(opt_view(t.outcome_message)->0),
    ensures
        task_row(t, running_symbol, nw, dw, ow).len() > 0,
        task_row(t, running_symbol, nw, dw, ow).last() == '\n',
        single_line(task_row(t, running_symbol, nw, dw, ow).drop_last()),
{
    reveal_strlit("  ");
    reveal_strlit(" ");
    reveal_strlit("\n");
    reveal_strlit("running");
    reveal_strlit("");
    reveal_strlit("○ ");
    reveal_strlit("✅");
    reveal_strlit("\u{1b}[1;31m❌\u{1b}[0m");
    reveal_strlit("⏭ ");
    let st = status_text(t.status, running_symbol);
    assert(single_line(st));
    let head = "  "@ + st + " "@ + pad_right(t.name@, nw);
    assert(single_line(head));
    match t.elapsed_nanos {
        Some(e) => {
            let v = crate::duration::scaled_quotient(
                crate::duration::binary64_of(e as nat),
                1_000_000_000,
                crate::duration::pow10(3),
            );
            lemma_decimal_single_line(v / crate::duration::pow10(3));
            lemma_low_digits_single_line(v, 3);
        },
        None => {},
    }
    let body = task_row(t, running_symbol, nw, dw, ow).drop_last();
    match (duration_cell(t), opt_view(t.outcome_message)) {
        (Some(d), Some(o)) => {
            assert(single_line(d));
            assert(body =~= head + "  "@ + pad_left(d, dw) + "  "@ + pad_right(o, ow));
        },
        (Some(d), None) => {
            assert(single_line(d));
            assert(body =~= head + "  "@ + pad_left(d, dw));
        },
        (None, Some(o)) => {
            assert(body =~= head + "  "@ + pad_right(""@, dw) + "  "@ + pad_right(o, ow));
        },
        (None, None) => {
            assert(body =~= head);
        },
    }
}

proof fn lemma_task_rows_line_breaks(ts: Seq<LiveTaskState>, running_symbol: Seq<char>, nw: nat, dw: nat, ow: nat)
    requires
        single_line(running_symbol),
        forall|i: int| 0 <= i < ts.len() ==> single_line(#[trigger] ts[i].name@),
        forall|i: int| 0 <= i < ts.len() && ts[i].outcome_message is Some
            ==> single_line(opt_view(#[trigger] ts[i].outcome_message)->0),
    ensures
        line_break_count(task_rows(ts, running_symbol, nw, dw, ow)) == ts.len(),
        ts.len() > 0 ==> task_rows(ts, running_symbol, nw, dw, ow).last() == '\n',
    decreases ts.len(),
{
    if ts.len() > 0 {
        let t = ts.last();
        assert(t == ts[ts.len() - 1]);
        lemma_task_rows_line_breaks(ts.drop_last(), running_symbol, nw, dw, ow);
        lemma_row_cells_single_line(t, running_symbol, nw, dw, ow);
        let row = task_row(t, running_symbol, nw, dw, ow);
        assert(row =~= row.drop_last().push('\n'));
        lemma_single_line_has_no_breaks(row.drop_last());
        assert(line_break_count(row) == 1);
        lemma_line_breaks_concat(task_rows(ts.drop_last(), running_symbol, nw, dw, ow), row);
    }
}

/// A line-per-task frame is the header line and one line per task: where the header,
/// the running marker, the task names and their outcomes hold no line break, the frame
/// holds exactly one line break per task plus one, and ends with a line break, so that
/// moving the cursor up that many lines redraws exactly one frame.
pub proof fn lemma_line_per_task_frame_has_one_line_per_task(
    header: Seq<char>,
    ts: Seq<LiveTaskState>,
    running_symbol: Seq<char>,
)
    requires
        single_line(header),
        single_line(running_symbol),
        forall|i: int| 0 <= i < ts.len() ==> single_line(#[trigger] ts[i].name@),
        forall|i: int| 0 <= i < ts.len() && ts[i].outcome_message is Some
            ==> single_line(opt_view(#[trigger] ts[i].outcome_message)->0),
    ensures
        line_break_count(line_per_task_display(header, ts, running_symbol)) == ts.len() + 1,
        line_per_task_display(header, ts, running_symbol).last() == '\n',
{
    reveal_strlit("🚀 ");
    reveal_strlit("\n");
    let first = "🚀 "@ + header + "\n"@;
    let rows = task_rows(ts, running_symbol, name_width(ts), duration_width(ts), outcome_width(ts));
    lemma_task_rows_line_breaks(ts, running_symbol, name_width(ts), duration_width(ts), outcome_width(ts));
    assert(single_line("🚀 "@ + header));
    lemma_single_line_has_no_breaks("🚀 "@ + header);
    assert(first =~= ("🚀 "@ + header).push('\n'));
    assert(first.drop_last() =~= "🚀 "@ + header);
    assert(first.last() == '\n');
    assert(line_break_count(first) == 1);
    lemma_line_breaks_concat(first, rows);
    if ts.len() == 0 {
        assert(first + rows =~= first);
    }
}

/// The text of `rows` one after the other.
pub open spec fn concat_rows(rows: Seq<Seq<char>>) -> Seq<char>
    decreases rows.len(),
{
    if rows.len() == 0 {
        Seq::empty()
    } else {
        concat_rows(rows.drop_last()) + rows.last()
    }
}

/// The rows of the line-per-task display, one per task, in order.
pub open spec fn frame_rows(ts: Seq<LiveTaskState>, running_symbol: Seq<char>) -> Seq<Seq<char>> {
    Seq::new(
        ts.len(),
        |k: int| task_row(ts[k], running_symbol, name_width(ts), duration_width(ts), outcome_width(ts)),
    )
}

proof fn lemma_task_rows_concat(ts: Seq<LiveTaskState>, running_symbol: Seq<char>, nw: nat, dw: nat, ow: nat)
    ensures
        task_rows(ts, running_symbol, nw, dw, ow) == concat_rows(
            Seq::new(ts.len(), |k: int| task_row(ts[k], running_symbol, nw, dw, ow)),
        ),
    decreases ts.len(),
{
    let rows = Seq::new(ts.len(), |k: int| task_row(ts[k], running_symbol, nw, dw, ow));
    if ts.len() > 0 {
        lemma_task_rows_concat(ts.drop_last(), running_symbol, nw, dw, ow);
        assert(rows.drop_last() =~= Seq::new(
            ts.drop_last().len(),
            |k: int| task_row(ts.drop_last()[k], running_symbol, nw, dw, ow),
        ));
    } else {
        assert(rows =~= Seq::<Seq<char>>::empty());
    }
}

/// The line-per-task frame is its header line followed by one row per task, in order:
/// row `k` starts with the status marker and the name of task `k`, and, where the running
/// marker, the task names and their outcomes hold no line break, ends with the row's only
/// line break, so that line `k + 1` of the frame is task `k`'s row.
pub proof fn lemma_line_per_task_frame_rows_name_the_tasks(
    header: Seq<char>,
    ts: Seq<LiveTaskState>,
    running_symbol: Seq<char>,
)
    ensures
        line_per_task_display(header, ts, running_symbol) == "🚀 "@ + header + "\n"@ + concat_rows(
            frame_rows(ts, running_symbol),
        ),
        frame_rows(ts, running_symbol).len() == ts.len(),
        forall|k: int|
            0 <= k < ts.len() ==> {
                let lead = "  "@ + status_text(ts[k].status, running_symbol) + " "@ + ts[k].name@;
                (#[trigger] frame_rows(ts, running_symbol)[k]).take(lead.len() as int) == lead
            },
        single_line(running_symbol) && (forall|i: int| 0 <= i < ts.len() ==> single_line(#[trigger] ts[i].name@))
            && (forall|i: int| 0 <= i < ts.len() && ts[i].outcome_message is Some
                ==> single_line(opt_view(#[trigger] ts[i].outcome_message)->0)) ==> forall|k: int|
            0 <= k < ts.len() ==> {
                &&& (#[trigger] frame_rows(ts, running_symbol)[k]).len() > 0
                &&& frame_rows(ts, running_symbol)[k].last() == '\n'
                &&& single_line(frame_rows(ts, running_symbol)[k].drop_last())
            },
{
    let nw = name_width(ts);
    let dw = duration_width(ts);
    let ow = outcome_width(ts);
    lemma_task_rows_concat(ts, running_symbol, nw, dw, ow);
    assert(frame_rows(ts, running_symbol) =~= Seq::new(ts.len(), |k: int| task_row(ts[k], running_symbol, nw, dw, ow)));
    assert forall|k: int| 0 <= k < ts.len() implies {
        let lead = "  "@ + status_text(ts[k].status, running_symbol) + " "@ + ts[k].name@;
        (#[trigger] frame_rows(ts, running_symbol)[k]).take(lead.len() as int) == lead
    } by {
        let lead = "  "@ + status_text(ts[k].status, running_symbol) + " "@ + ts[k].name@;
        let row = frame_rows(ts, running_symbol)[k];
        let head = "  "@ + status_text(ts[k].status, running_symbol) + " "@ + pad_right(ts[k].name@, nw);
        assert(head.take(lead.len() as int) =~= lead);
        assert(row.take(head.len() as int) =~= head);
        assert(row.take(lead.len() as int) =~= lead);
    }
    if single_line(running_symbol) && (forall|i: int| 0 <= i < ts.len() ==> single_line(#[trigger] ts[i].name@))
        && (forall|i: int| 0 <= i < ts.len() && ts[i].outcome_message is Some
        ==> single_line(opt_view(#[trigger] ts[i].outcome_message)->0)) {
        assert forall|k: int| 0 <= k < ts.len() implies {
            &&& (#[trigger] frame_rows(ts, running_symbol)[k]).len() > 0
            &&& frame_rows(ts, running_symbol)[k].last() == '\n'
            &&& single_line(frame_rows(ts, running_symbol)[k].drop_last())
        } by {
            assert(single_line(ts[k].name@));
            lemma_row_cells_single_line(ts[k], running_symbol, nw, dw, ow);
        }
    }
}

/// Number of tasks in state `status`.
pub open spec fn count_status(ts: Seq<LiveTaskState>, status: LiveTaskStatus) -> nat
    decreases ts.len(),
{
    if ts.len() == 0 {
        0
    } else {
        count_status(ts.drop_last(), status) + if ts.last().status == status {
            1nat
        } else {
            0nat
        }
    }
}

fn count_status_exec(ts: &Vec<LiveTaskState>, status: LiveTaskStatus) -> (n: usize)
    ensures
        n == count_status(ts@, status),
{
    let mut n: usize = 0;
    let mut i: usize = 0;
    while i < ts.len()
        invariant
            i <= ts@.len(),
            n == count_status(ts@.take(i as int), status),
            n <= i,
        decreases ts@.len() - i,
    {
        assert(ts@.take(i + 1).drop_last() =~= ts@.take(i as int));
        assert(ts@.take(i + 1).last() == ts@[i as int]);
        if ts[i].status == status {
            n = n + 1;
        }
        i = i + 1;
    }
    assert(ts@.take(ts@.len() as int) =~= ts@);
    n
}

/// The status reports of the running tasks that made one, in row order, as
/// `name: status`.
pub open spec fn status_reports(ts: Seq<LiveTaskState>) -> Seq<Seq<char>>
    decreases ts.len(),
{
    if ts.len() == 0 {
        Seq::empty()
    } else {
        let rest = status_reports(ts.drop_last());
        let t = ts.last();
        match t.status_message {
            Some(m) => if t.status == LiveTaskStatus::Running {
                rest.push(t.name@ + ": "@ + m@)
            } else {
                rest
            },
            None => rest,
        }
    }
}

/// What follows the counts: ` — ` and the status reports separated by `, `, or nothing
/// when no running task reported a status.
pub open spec fn status_suffix(ts: Seq<LiveTaskState>) -> Seq<char> {
    let reports = status_reports(ts);
    if reports.len() == 0 {
        Seq::empty()
    } else {
        " — "@ + crate::text::joined(reports, ", "@)
    }
}

/// The single-line display: the header with the running, completed and remaining counts,
/// then the status reports of the running tasks.
pub open spec fn single_line_display(header: Seq<char>, ts: Seq<LiveTaskState>) -> Seq<char> {
    header + " (running: "@ + decimal(count_status(ts, LiveTaskStatus::Running)) + ", completed: "@
        + decimal(count_status(ts, LiveTaskStatus::Completed)) + ", remaining: "@ + decimal(
        count_status(ts, LiveTaskStatus::Pending),
    ) + ")"@ + status_suffix(ts)
}

fn status_reports_exec(ts: &Vec<LiveTaskState>) -> (reports: Vec<String>)
    ensures
        strings_view(reports@) == status_reports(ts@),
{
    let mut reports: Vec<String> = Vec::new();
    let mut i: usize = 0;
    while i < ts.len()
        invariant
            i <= ts@.len(),
            strings_view(reports@) == status_reports(ts@.take(i as int)),
        decreases ts@.len() - i,
    {
        assert(ts@.take(i + 1).drop_last() =~= ts@.take(i as int));
        assert(ts@.take(i + 1).last() == ts@[i as int]);
        let t = &ts[i];
        match &t.status_message {
            Some(m) => {
                if t.status == LiveTaskStatus::Running {
                    let ghost before = strings_view(reports@);
                    let report = join3(t.name.as_str(), ": ", m.as_str());
                    reports.push(report);
                    assert(strings_view(reports@) =~= before.push(t.name@ + ": "@ + m@));
                }
            },
            None => {},
        }
        i = i + 1;
    }
    assert(ts@.take(ts@.len() as int) =~= ts@);
    reports
}

/// Renders the single-line display.
pub fn render_single_line_display(snapshot: LiveTaskSnapshot) -> (s: String)
    ensures
        s@ == single_line_display(snapshot.header@, snapshot.tasks@),
{
    let running = count_status_exec(&snapshot.tasks, LiveTaskStatus::Running);
    let completed = count_status_exec(&snapshot.tasks, LiveTaskStatus::Completed);
    let remaining = count_status_exec(&snapshot.tasks, LiveTaskStatus::Pending);
    let mut s = String::from_str(snapshot.header.as_str());
    s.append(" (running: ");
    s.append(usize_to_string(running).as_str());
    s.append(", completed: ");
    s.append(usize_to_string(completed).as_str());
    s.append(", remaining: ");
    s.append(usize_to_string(remaining).as_str());
    s.append(")");
    let reports = status_reports_exec(&snapshot.tasks);
    if reports.len() > 0 {
        s.append(" — ");
        s.append(crate::artifacts::join_names(&reports, ", ").as_str());
    } else {
        proof {
            reveal_strlit("");
        }
        assert(s@ =~= s@ + Seq::<char>::empty());
    }
    s
}

} // verus!

verus! {

/// The detail column of a CI summary row: the outcome and a non-zero exit code.
pub open spec fn ci_detail(outcome: Option<Seq<char>>, exit_code: Option<i32>) -> Seq<char> {
    let exit = match exit_code {
        Some(c) => if c != 0 {
            Some("exit "@ + signed_decimal(c as int))
        } else {
            None
        },
        None => None,
    };
    match (outcome, exit) {
        (Some(o), Some(e)) => "  "@ + o + " | "@ + e,
        (Some(o), None) => "  "@ + o,
        (None, Some(e)) => "  "@ + e,
        (None, None) => Seq::empty(),
    }
}

/// Renders the detail column of a CI summary row.
pub fn render_ci_task_summary_detail(task: &RunTaskResult) -> (s: String)
    ensures
        s@ == ci_detail(opt_view(task.outcome_message), task.exit_code),
{
    let exit: Option<String> = match task.exit_code {
        Some(c) => if c != 0 {
            Some(crate::text::join2("exit ", i64_to_string(c as i64).as_str()))
        } else {
            None
        },
        None => None,
    };
    match (&task.outcome_message, &exit) {
        (Some(o), Some(e)) => {
            let mut s = join3("  ", o.as_str(), " | ");
            s.append(e.as_str());
            s
        },
        (Some(o), None) => crate::text::join2("  ", o.as_str()),
        (None, Some(e)) => crate::text::join2("  ", e.as_str()),
        (None, None) => String::new(),
    }
}

/// Widest CI task name, in bytes.
pub open spec fn ci_name_width(rs: Seq<RunTaskResult>) -> nat
    decreases rs.len(),
{
    if rs.len() == 0 {
        0
    } else {
        max_nat(ci_name_width(rs.drop_last()), byte_len(rs.last().name@))
    }
}

/// Widest CI status, in bytes.
pub open spec fn ci_status_width(rs: Seq<RunTaskResult>) -> nat
    decreases rs.len(),
{
    if rs.len() == 0 {
        0
    } else {
        max_nat(ci_status_width(rs.drop_last()), byte_len(rs.last().status@))
    }
}

/// Widest rendered CI duration, in bytes, when any task has one.
pub open spec fn ci_duration_max(rs: Seq<RunTaskResult>) -> Option<nat>
    decreases rs.len(),
{
    if rs.len() == 0 {
        None
    } else {
        let rest = ci_duration_max(rs.drop_last());
        match rs.last().duration_nanos {
            Some(d) => {
                let w = byte_len(pretty_duration_spec(d as nat));
                match rest {
                    Some(m) => Some(max_nat(m, w)),
                    None => Some(w),
                }
            },
            None => rest,
        }
    }
}

/// One row of the CI summary.
pub open spec fn ci_row(r: RunTaskResult, sw: nat, nw: nat, dw: nat) -> Seq<char> {
    "  "@ + pad_right(r.status@, sw) + "  "@ + pad_right(r.name@, nw) + "  "@ + pad_left(
        match r.duration_nanos {
            Some(d) => pretty_duration_spec(d as nat),
            None => "-"@,
        },
        dw,
    ) + ci_detail(opt_view(r.outcome_message), r.exit_code) + "\n"@
}

/// The rows of the CI summary.
pub open spec fn ci_rows(rs: Seq<RunTaskResult>, sw: nat, nw: nat, dw: nat) -> Seq<char>
    decreases rs.len(),
{
    if rs.len() == 0 {
        Seq::empty()
    } else {
        ci_rows(rs.drop_last(), sw, nw, dw) + ci_row(rs.last(), sw, nw, dw)
    }
}

/// The CI summary: one aligned row per task, the overall result and, for a failed run,
/// the failed task and its exit code.
pub open spec fn ci_summary(rs: Seq<RunTaskResult>, total: nat, status: RunStatus) -> Seq<char> {
    let dw = match ci_duration_max(rs) {
        Some(m) => m,
        None => 1,
    };
    "Run summary\n"@ + ci_rows(rs, ci_status_width(rs), ci_name_width(rs), dw) + "\nOverall result: "@
        + match status {
        RunStatus::Completed => "completed"@,
        RunStatus::Failed(_) => "failed"@,
    } + " in "@ + pretty_duration_spec(total) + "\n"@ + match status {
        RunStatus::Completed => Seq::empty(),
        RunStatus::Failed(f) => "Failure: "@ + f.task_name@ + " failed with exit code "@ + signed_decimal(
            f.exit_code as int,
        ) + "\n"@,
    }
}

fn ci_widths(rs: &Vec<RunTaskResult>) -> (w: (u128, u128, u128))
    ensures
        w.0 == ci_status_width(rs@),
        w.1 == ci_name_width(rs@),
        w.2 == (match ci_duration_max(rs@) {
            Some(m) => m,
            None => 1,
        }),
{
    let mut sw: u128 = 0;
    let mut nw: u128 = 0;
    let mut dw: Option<u128> = None;
    let mut i: usize = 0;
    while i < rs.len()
        invariant
            i <= rs@.len(),
            sw == ci_status_width(rs@.take(i as int)),
            nw == ci_name_width(rs@.take(i as int)),
            match dw {
                Some(m) => ci_duration_max(rs@.take(i as int)) == Some(m as nat),
                None => ci_duration_max(rs@.take(i as int)) is None,
            },
        decreases rs@.len() - i,
    {
        assert(rs@.take(i + 1).drop_last() =~= rs@.take(i as int));
        assert(rs@.take(i + 1).last() == rs@[i as int]);
        let r = &rs[i];
        let s = byte_len_exec(r.status.as_str());
        if sw < s {
            sw = s;
        }
        let n = byte_len_exec(r.name.as_str());
        if nw < n {
            nw = n;
        }
        match r.duration_nanos {
            Some(d) => {
                let w = byte_len_exec(pretty_duration(d).as_str());
                dw = match dw {
                    Some(m) => Some(if m < w { w } else { m }),
                    None => Some(w),
                };
            },
            None => {},
        }
        i = i + 1;
    }
    assert(rs@.take(rs@.len() as int) =~= rs@);
    let d = match dw {
        Some(m) => m,
        None => 1,
    };
    (sw, nw, d)
}

/// Renders the CI summary of a run.
#[verifier::rlimit(40)]
pub fn render_ci_summary(result: &RunExecutionResult) -> (s: String)
    ensures
        s@ == ci_summary(result.task_results@, result.duration_nanos as nat, result.status),
{
    let (sw, nw, dw) = ci_widths(&result.task_results);
    let mut out: Vec<char> = Vec::new();
    crate::text::extend_str(&mut out, "Run summary\n");
    let ghost start = out@;
    let ghost rs = result.task_results@;
    let mut i: usize = 0;
    assert(start + ci_rows(rs.take(0), sw as nat, nw as nat, dw as nat) =~= start);
    while i < result.task_results.len()
        invariant
            i <= rs.len(),
            rs == result.task_results@,
            out@ == start + ci_rows(rs.take(i as int), sw as nat, nw as nat, dw as nat),
        decreases rs.len() - i,
    {
        assert(rs.take(i + 1).drop_last() =~= rs.take(i as int));
        assert(rs.take(i + 1).last() == rs[i as int]);
        let r = &result.task_results[i];
        let ghost before = out@;
        crate::text::extend_str(&mut out, "  ");
        push_padded_right(&mut out, r.status.as_str(), sw);
        crate::text::extend_str(&mut out, "  ");
        push_padded_right(&mut out, r.name.as_str(), nw);
        crate::text::extend_str(&mut out, "  ");
        let duration = match r.duration_nanos {
            Some(d) => pretty_duration(d),
            None => String::from_str("-"),
        };
        push_padded_left(&mut out, duration.as_str(), dw);
        let detail = render_ci_task_summary_detail(r);
        crate::text::extend_str(&mut out, detail.as_str());
        crate::text::extend_str(&mut out, "\n");
        assert(out@ =~= before + ci_row(*r, sw as nat, nw as nat, dw as nat));
        i = i + 1;
    }
    assert(rs.take(rs.len() as int) =~= rs);
    crate::text::extend_str(&mut out, "\nOverall result: ");
    match &result.status {
        RunStatus::Completed => crate::text::extend_str(&mut out, "completed"),
        RunStatus::Failed(_) => crate::text::extend_str(&mut out, "failed"),
    }
    crate::text::extend_str(&mut out, " in ");
    crate::text::extend_str(&mut out, pretty_duration(result.duration_nanos).as_str());
    crate::text::extend_str(&mut out, "\n");
    let ghost before_failure = out@;
    match &result.status {
        RunStatus::Completed => {
            assert(out@ =~= before_failure + Seq::<char>::empty());
        },
        RunStatus::Failed(f) => {
            crate::text::extend_str(&mut out, "Failure: ");
            crate::text::extend_str(&mut out, f.task_name.as_str());
            crate::text::extend_str(&mut out, " failed with exit code ");
            crate::text::extend_str(&mut out, i64_to_string(f.exit_code as i64).as_str());
            crate::text::extend_str(&mut out, "\n");
        },
    }
    assert(out@ =~= ci_summary(result.task_results@, result.duration_nanos as nat, result.status));
    crate::text::string_from_chars(&out)
}

/// What the line-per-task display writes for one frame: the frame itself the first
/// time, and afterwards a cursor move up over the previous frame's lines (one per task
/// plus the header) and a clear, then the frame.
pub open spec fn line_per_task_frame_text(
    header: Seq<char>,
    ts: Seq<LiveTaskState>,
    running_symbol: Seq<char>,
    first: bool,
) -> Seq<char> {
    let frame = line_per_task_display(header, ts, running_symbol);
    if first {
        frame
    } else {
        "\u{1b}["@ + decimal(ts.len() + 1) + "F\u{1b}[J"@ + frame
    }
}

/// Renders what the line-per-task display writes for one frame with this spinner symbol.
pub fn line_per_task_frame(snapshot: LiveTaskSnapshot, running_symbol: &str, first: bool) -> (s: String)
    requires
        snapshot.tasks@.len() < usize::MAX,
    ensures
        s@ == line_per_task_frame_text(snapshot.header@, snapshot.tasks@, running_symbol@, first),
{
    let line_count = snapshot.tasks.len() + 1;
    let frame = render_line_per_task_display(snapshot, running_symbol);
    if first {
        frame
    } else {
        let mut s = join3("\u{1b}[", usize_to_string(line_count).as_str(), "F\u{1b}[J");
        s.append(frame.as_str());
        s
    }
}

/// What the single-line display writes for one frame: while it runs, a carriage return,
/// the spinner symbol and the line, clearing the rest of the terminal line; once it stops,
/// the line after a rocket, ended by a line break.
pub open spec fn single_line_frame_text(
    header: Seq<char>,
    ts: Seq<LiveTaskState>,
    running_symbol: Seq<char>,
    stopping: bool,
) -> Seq<char> {
    let line = single_line_display(header, ts);
    if stopping {
        "\r🚀 "@ + line + "\u{1b}[K\n"@
    } else {
        "\r"@ + running_symbol + " "@ + line + "\u{1b}[K"@
    }
}

/// Renders what the single-line display writes for one frame with this spinner symbol.
pub fn single_line_frame(snapshot: LiveTaskSnapshot, running_symbol: &str, stopping: bool) -> (s: String)
    ensures
        s@ == single_line_frame_text(snapshot.header@, snapshot.tasks@, running_symbol@, stopping),
{
    let line = render_single_line_display(snapshot);
    if stopping {
        join3("\r🚀 ", line.as_str(), "\u{1b}[K\n")
    } else {
        let mut s = join3("\r", running_symbol, " ");
        s.append(line.as_str());
        s.append("\u{1b}[K");
        s
    }
}

/// The spinner frame shown after `frame` among `count` frames: the next one, and the
/// first after the last.
pub fn next_frame_index(frame: usize, count: usize) -> (next: usize)
    requires
        frame < count,
    ensures
        next == (frame + 1) % (count as int),
{
    if frame + 1 == count {
        assert((count as int) % (count as int) == 0) by (nonlinear_arith)
            requires
                count > 0,
        ;
        0
    } else {
        assert((frame + 1) % (count as int) == frame + 1) by (nonlinear_arith)
            requires
                frame + 1 < count,
        ;
        frame + 1
    }
}

} // verus!
