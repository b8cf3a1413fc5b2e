//! The text that the terminal UI shows in its panes: run progress in the launcher, the
//! run history, and the tasks, events and summary of an open run.

use crate::duration::{pretty_duration, pretty_duration_spec};
use crate::navigation::Focus;
use crate::launcher::NameSet;
use crate::recipe::{opt_view, strings_view, DependencyName, Task};
use crate::rendering::{pad_right, push_padded_right};
use crate::run_history::{RunDetailRecord, RunEventRecord, RunSummaryRecord, RunTaskRecord};
use crate::artifacts::join_names;
use crate::text::{extend_str, i64_to_string, joined, signed_decimal, str_equals, string_from_chars, usize_to_string, decimal};
use crate::tui::{render_task_state_emoji, task_state_emoji};
use vstd::prelude::*;
use vstd::string::*;

verus! {

/// The width that task names are padded to in the terminal UI.
pub const TASK_NAME_COLUMN: u128 = 20;

/// The width that task statuses are padded to in the run detail.
pub const STATUS_COLUMN: u128 = 10;

/// One task row of the launcher's run progress: its state marker, its padded name, its run
/// time (or `running`), its exit code when it failed, and its outcome.
pub open spec fn progress_row(t: RunTaskRecord, spinner_frame: nat) -> Seq<char> {
    task_state_emoji(t.status@, spinner_frame) + " "@ + pad_right(t.name@, TASK_NAME_COLUMN as nat) + match t.duration_nanos {
        Some(d) => "  "@ + pretty_duration_spec(d as nat),
        None => if t.status@ == "running"@ {
            "  running"@
        } else {
            Seq::empty()
        },
    } + match t.exit_code {
        Some(code) => if t.status@ == "failed"@ {
            "  exit "@ + signed_decimal(code as int)
        } else {
            Seq::empty()
        },
        None => Seq::empty(),
    } + match t.outcome_message {
        Some(m) => "  "@ + m@,
        None => Seq::empty(),
    }
}

/// The goals line of the launcher's run progress.
pub open spec fn goals_text(requested: Seq<Seq<char>>) -> Seq<char> {
    if requested.len() == 0 {
        "-"@
    } else {
        joined(requested, ", "@)
    }
}

/// The launcher's run progress for the open run: its identifier, result and goals, one row
/// per task, the total run time once it is no longer running, and a note when it has no
/// tasks.
pub open spec fn progress_lines(detail: Option<RunDetailRecord>, spinner_frame: nat) -> Seq<Seq<char>> {
    match detail {
        None => seq!["waiting for run data..."@],
        Some(d) => seq![
            "run: "@ + d.run_id@,
            "result: "@ + d.result@,
            "goals: "@ + goals_text(strings_view(d.requested_tasks@)),
            Seq::<char>::empty(),
        ] + d.tasks@.map_values(|t: RunTaskRecord| progress_row(t, spinner_frame)) + (match d.duration_nanos {
            Some(total) => if d.result@ != "running"@ {
                seq![Seq::<char>::empty(), "🏁 total "@ + pretty_duration_spec(total as nat)]
            } else {
                Seq::empty()
            },
            None => Seq::empty(),
        }) + (if d.tasks@.len() == 0 {
            seq!["no tasks"@]
        } else {
            Seq::empty()
        }),
    }
}

fn progress_row_text(t: &RunTaskRecord, spinner_frame: usize) -> (s: String)
    ensures
        s@ == progress_row(*t, spinner_frame as nat),
{
    let mut out: Vec<char> = Vec::new();
    extend_str(&mut out, render_task_state_emoji(t.status.as_str(), spinner_frame));
    extend_str(&mut out, " ");
    push_padded_right(&mut out, t.name.as_str(), TASK_NAME_COLUMN);
    let ghost head = out@;
    match t.duration_nanos {
        Some(d) => {
            extend_str(&mut out, "  ");
            extend_str(&mut out, pretty_duration(d).as_str());
        },
        None => {
            if str_equals(t.status.as_str(), "running") {
                extend_str(&mut out, "  running");
            }
        },
    }
    let ghost with_time = out@;
    match t.exit_code {
        Some(code) => {
            if str_equals(t.status.as_str(), "failed") {
                extend_str(&mut out, "  exit ");
                extend_str(&mut out, i64_to_string(code as i64).as_str());
            }
        },
        None => {},
    }
    let ghost with_exit = out@;
    match &t.outcome_message {
        Some(m) => {
            extend_str(&mut out, "  ");
            extend_str(&mut out, m.as_str());
        },
        None => {},
    }
    proof {
        reveal_strlit("running");
        reveal_strlit("failed");
        assert(out@ =~= progress_row(*t, spinner_frame as nat));
    }
    string_from_chars(&out)
}

/// Returns the lines of the launcher's run progress.
pub fn launcher_progress_lines(detail: Option<&RunDetailRecord>, spinner_frame: usize) -> (lines: Vec<String>)
    ensures
        strings_view(lines@) == progress_lines(
            match detail {
                Some(d) => Some(*d),
                None => None,
            },
            spinner_frame as nat,
        ),
{
    let d = match detail {
        None => {
            let lines = vec![String::from_str("waiting for run data...")];
            assert(strings_view(lines@) =~= seq!["waiting for run data..."@]);
            return lines;
        },
        Some(d) => d,
    };
    let mut lines: Vec<String> = Vec::new();
    let mut run_line = String::from_str("run: ");
    run_line.append(d.run_id.as_str());
    lines.push(run_line);
    let mut result_line = String::from_str("result: ");
    result_line.append(d.result.as_str());
    lines.push(result_line);
    let mut goals_line = String::from_str("goals: ");
    if d.requested_tasks.len() == 0 {
        goals_line.append("-");
    } else {
        goals_line.append(join_names(&d.requested_tasks, ", ").as_str());
    }
    lines.push(goals_line);
    lines.push(String::new());
    let ghost header = seq![
        "run: "@ + d.run_id@,
        "result: "@ + d.result@,
        "goals: "@ + goals_text(strings_view(d.requested_tasks@)),
        Seq::<char>::empty(),
    ];
    assert(strings_view(lines@) =~= header);
    let ghost rows = d.tasks@.map_values(|t: RunTaskRecord| progress_row(t, spinner_frame as nat));
    let mut i: usize = 0;
    while i < d.tasks.len()
        invariant
            i <= d.tasks@.len(),
            rows == d.tasks@.map_values(|t: RunTaskRecord| progress_row(t, spinner_frame as nat)),
            strings_view(lines@) == header + rows.take(i as int),
        decreases d.tasks@.len() - i,
    {
        let ghost before = strings_view(lines@);
        let row = progress_row_text(&d.tasks[i], spinner_frame);
        lines.push(row);
        assert(strings_view(lines@) =~= before.push(rows[i as int]));
        assert(rows.take(i + 1) =~= rows.take(i as int).push(rows[i as int]));
        i = i + 1;
    }
    assert(rows.take(d.tasks@.len() as int) =~= rows);
    let ghost with_rows = strings_view(lines@);
    match d.duration_nanos {
        Some(total) => {
            if !str_equals(d.result.as_str(), "running") {
                lines.push(String::new());
                let mut total_line = String::from_str("🏁 total ");
                total_line.append(pretty_duration(total).as_str());
                lines.push(total_line);
            }
        },
        None => {},
    }
    let ghost with_total = strings_view(lines@);
    if d.tasks.len() == 0 {
        lines.push(String::from_str("no tasks"));
    }
    proof {
        reveal_strlit("running");
        let tail = match d.duration_nanos {
            Some(total) => if d.result@ != "running"@ {
                seq![Seq::<char>::empty(), "🏁 total "@ + pretty_duration_spec(total as nat)]
            } else {
                Seq::empty()
            },
            None => Seq::empty(),
        };
        assert(with_total =~= with_rows + tail);
        let last = if d.tasks@.len() == 0 {
            seq!["no tasks"@]
        } else {
            Seq::empty()
        };
        assert(strings_view(lines@) =~= with_total + last);
        assert(strings_view(lines@) =~= header + rows + tail + last);
    }
    lines
}

/// A run in the history list: its identifier and result.
pub fn history_row(run: &RunSummaryRecord) -> (s: String)
    ensures
        s@ == run.run_id@ + "   "@ + run.result@,
{
    let mut s = run.run_id.clone();
    s.append("   ");
    s.append(run.result.as_str());
    s
}

/// The details of the selected run in the history, or a note when there is none.
pub open spec fn history_details(run: Option<RunSummaryRecord>) -> Seq<Seq<char>> {
    match run {
        Some(r) => seq![
            "goals: "@ + joined(strings_view(r.requested_tasks@), ", "@),
            "result: "@ + r.result@,
            "tasks: "@ + decimal(r.task_count as nat),
            "failure: "@ + match r.failure_message {
                Some(m) => m@,
                None => "-"@,
            },
        ],
        None => seq!["no runs"@],
    }
}

/// Returns the details of the selected run in the history.
pub fn history_details_lines(run: Option<&RunSummaryRecord>) -> (lines: Vec<String>)
    ensures
        strings_view(lines@) == history_details(
            match run {
                Some(r) => Some(*r),
                None => None,
            },
        ),
{
    match run {
        None => {
            let lines = vec![String::from_str("no runs")];
            assert(strings_view(lines@) =~= seq!["no runs"@]);
            lines
        },
        Some(r) => {
            let mut goals = String::from_str("goals: ");
            goals.append(join_names(&r.requested_tasks, ", ").as_str());
            let mut result = String::from_str("result: ");
            result.append(r.result.as_str());
            let mut tasks = String::from_str("tasks: ");
            tasks.append(usize_to_string(r.task_count).as_str());
            let mut failure = String::from_str("failure: ");
            match &r.failure_message {
                Some(m) => failure.append(m.as_str()),
                None => failure.append("-"),
            }
            let lines = vec![goals, result, tasks, failure];
            assert(strings_view(lines@) =~= history_details(Some(*r)));
            lines
        },
    }
}

/// A task row of the run detail: padded name and status, exit code and outcome.
pub open spec fn detail_task_row(t: RunTaskRecord) -> Seq<char> {
    pad_right(t.name@, TASK_NAME_COLUMN as nat) + " "@ + pad_right(t.status@, STATUS_COLUMN as nat) + " "@
        + match t.exit_code {
        Some(code) => "exit "@ + signed_decimal(code as int),
        None => Seq::empty(),
    } + match t.outcome_message {
        Some(m) => " outcome: "@ + m@,
        None => Seq::empty(),
    }
}

/// Returns a task row of the run detail.
pub fn detail_task_row_text(t: &RunTaskRecord) -> (s: String)
    ensures
        s@ == detail_task_row(*t),
{
    let mut out: Vec<char> = Vec::new();
    push_padded_right(&mut out, t.name.as_str(), TASK_NAME_COLUMN);
    extend_str(&mut out, " ");
    push_padded_right(&mut out, t.status.as_str(), STATUS_COLUMN);
    extend_str(&mut out, " ");
    match t.exit_code {
        Some(code) => {
            extend_str(&mut out, "exit ");
            extend_str(&mut out, i64_to_string(code as i64).as_str());
        },
        None => {},
    }
    match &t.outcome_message {
        Some(m) => {
            extend_str(&mut out, " outcome: ");
            extend_str(&mut out, m.as_str());
        },
        None => {},
    }
    assert(out@ =~= detail_task_row(*t));
    string_from_chars(&out)
}

/// An event line of the run detail: its time and type, and its task when it has one.
pub fn detail_event_line(event: &RunEventRecord) -> (s: String)
    ensures
        s@ == event.timestamp@ + " "@ + event.event_type@ + match event.task_name {
            Some(task) => " "@ + task@,
            None => Seq::empty(),
        },
{
    let mut s = event.timestamp.clone();
    s.append(" ");
    s.append(event.event_type.as_str());
    match &event.task_name {
        Some(task) => {
            s.append(" ");
            s.append(task.as_str());
        },
        None => {
            assert(s@ =~= s@ + Seq::<char>::empty());
        },
    }
    s
}

/// The summary pane of the run detail, or a note when no run is open.
pub open spec fn detail_summary(detail: Option<RunDetailRecord>, selected: usize, auto_follow_log: bool) -> Seq<Seq<char>> {
    match detail {
        Some(d) => seq![
            "requested tasks: "@ + joined(strings_view(d.requested_tasks@), ", "@),
            "result: "@ + d.result@,
            "failure: "@ + match d.failure_message {
                Some(m) => m@,
                None => "-"@,
            },
            "selected task: "@ + if selected < d.tasks@.len() {
                d.tasks@[selected as int].name@
            } else {
                "-"@
            },
            "selected outcome: "@ + if selected < d.tasks@.len() {
                match d.tasks@[selected as int].outcome_message {
                    Some(m) => m@,
                    None => "-"@,
                }
            } else {
                "-"@
            },
            "auto-follow: "@ + if auto_follow_log {
                "on"@
            } else {
                "off"@
            },
        ],
        None => seq!["no run selected"@],
    }
}

/// Returns the summary pane of the run detail.
pub fn detail_summary_lines(detail: Option<&RunDetailRecord>, selected_run_task_index: usize, auto_follow_log: bool) -> (lines:
    Vec<String>)
    ensures
        strings_view(lines@) == detail_summary(
            match detail {
                Some(d) => Some(*d),
                None => None,
            },
            selected_run_task_index,
            auto_follow_log,
        ),
{
    match detail {
        None => {
            let lines = vec![String::from_str("no run selected")];
            assert(strings_view(lines@) =~= seq!["no run selected"@]);
            lines
        },
        Some(d) => {
            let mut requested = String::from_str("requested tasks: ");
            requested.append(join_names(&d.requested_tasks, ", ").as_str());
            let mut result = String::from_str("result: ");
            result.append(d.result.as_str());
            let mut failure = String::from_str("failure: ");
            match &d.failure_message {
                Some(m) => failure.append(m.as_str()),
                None => failure.append("-"),
            }
            let mut selected = String::from_str("selected task: ");
            let mut outcome = String::from_str("selected outcome: ");
            if selected_run_task_index < d.tasks.len() {
                let task = &d.tasks[selected_run_task_index];
                selected.append(task.name.as_str());
                match &task.outcome_message {
                    Some(m) => outcome.append(m.as_str()),
                    None => outcome.append("-"),
                }
            } else {
                selected.append("-");
                outcome.append("-");
            }
            let mut follow = String::from_str("auto-follow: ");
            if auto_follow_log {
                follow.append("on");
            } else {
                follow.append("off");
            }
            let lines = vec![requested, result, failure, selected, outcome, follow];
            assert(strings_view(lines@) =~= detail_summary(Some(*d), selected_run_task_index, auto_follow_log));
            lines
        },
    }
}

/// The name of a pane as the run detail's footer shows it.
pub open spec fn focus_label_text(focus: Focus) -> Seq<char> {
    match focus {
        Focus::LauncherTasks => "launcher tasks"@,
        Focus::LauncherDetails => "launcher details"@,
        Focus::LauncherFailureOutput => "launcher failed output"@,
        Focus::HistoryRuns => "history runs"@,
        Focus::HistoryDetails => "history details"@,
        Focus::DetailTasks => "detail tasks"@,
        Focus::DetailOutput => "task output"@,
        Focus::DetailEvents => "events"@,
        Focus::DetailSummary => "summary"@,
    }
}

/// Returns the name of a pane.
pub fn focus_label(focus: Focus) -> (label: &'static str)
    ensures
        label@ == focus_label_text(focus),
{
    match focus {
        Focus::LauncherTasks => "launcher tasks",
        Focus::LauncherDetails => "launcher details",
        Focus::LauncherFailureOutput => "launcher failed output",
        Focus::HistoryRuns => "history runs",
        Focus::HistoryDetails => "history details",
        Focus::DetailTasks => "detail tasks",
        Focus::DetailOutput => "task output",
        Focus::DetailEvents => "events",
        Focus::DetailSummary => "summary",
    }
}

/// The header line of a screen: its title, and a suffix when there is one.
pub fn screen_header(title: &str, suffix: &str) -> (s: String)
    ensures
        s@ == "nao TUI | screen: "@ + title@ + if suffix@.len() == 0 {
            Seq::empty()
        } else {
            " | "@ + suffix@
        },
{
    let mut s = String::from_str("nao TUI | screen: ");
    s.append(title);
    if suffix.unicode_len() > 0 {
        s.append(" | ");
        s.append(suffix);
    } else {
        assert(s@ =~= s@ + Seq::<char>::empty());
    }
    s
}

/// The title of the launcher's failed-task output pane.
pub fn failed_output_title(failed_task_name: Option<&str>) -> (s: String)
    ensures
        s@ == "Failed Task Output"@ + match failed_task_name {
            Some(name) => ": "@ + name@,
            None => Seq::empty(),
        },
{
    let mut s = String::from_str("Failed Task Output");
    match failed_task_name {
        Some(name) => {
            s.append(": ");
            s.append(name);
        },
        None => {
            assert(s@ =~= s@ + Seq::<char>::empty());
        },
    }
    s
}

/// A task row of the launcher: whether it is picked, its padded name, its description.
pub open spec fn launcher_task_row(task: Task, picked: bool) -> Seq<char> {
    (if picked {
        "[x]"@
    } else {
        "[ ]"@
    }) + " "@ + pad_right(task.name@, TASK_NAME_COLUMN as nat) + " "@ + match task.description {
        Some(d) => d@,
        None => "-"@,
    }
}

/// Returns a task row of the launcher.
pub fn launcher_task_row_text(task: &Task, picked: bool) -> (s: String)
    ensures
        s@ == launcher_task_row(*task, picked),
{
    let mut out: Vec<char> = Vec::new();
    if picked {
        extend_str(&mut out, "[x]");
    } else {
        extend_str(&mut out, "[ ]");
    }
    extend_str(&mut out, " ");
    push_padded_right(&mut out, task.name.0.as_str(), TASK_NAME_COLUMN);
    extend_str(&mut out, " ");
    match &task.description {
        Some(d) => extend_str(&mut out, d.as_str()),
        None => extend_str(&mut out, "-"),
    }
    assert(out@ =~= launcher_task_row(*task, picked));
    string_from_chars(&out)
}

/// The details of the selected launcher task: name, prerequisites and description, or a
/// note when there is no task.
pub open spec fn launcher_task_details(task: Option<Task>) -> Seq<Seq<char>> {
    match task {
        Some(t) => seq![
            "name: "@ + t.name@,
            "deps: "@ + if t.dependencies@.len() == 0 {
                "-"@
            } else {
                joined(t.dependencies@.map_values(|d: DependencyName| d@), ", "@)
            },
            "description: "@ + match t.description {
                Some(d) => d@,
                None => "-"@,
            },
        ],
        None => seq!["no tasks"@],
    }
}

/// Returns the details of the selected launcher task.
pub fn launcher_task_details_lines(task: Option<&Task>) -> (lines: Vec<String>)
    ensures
        strings_view(lines@) == launcher_task_details(
            match task {
                Some(t) => Some(*t),
                None => None,
            },
        ),
{
    match task {
        None => {
            let lines = vec![String::from_str("no tasks")];
            assert(strings_view(lines@) =~= seq!["no tasks"@]);
            lines
        },
        Some(t) => {
            let mut name = String::from_str("name: ");
            name.append(t.name.0.as_str());
            let mut deps = String::from_str("deps: ");
            if t.dependencies.len() == 0 {
                deps.append("-");
            } else {
                let ghost dv = t.dependencies@.map_values(|d: DependencyName| d@);
                let mut names: Vec<String> = Vec::new();
                let mut i: usize = 0;
                while i < t.dependencies.len()
                    invariant
                        i <= t.dependencies@.len(),
                        dv == t.dependencies@.map_values(|d: DependencyName| d@),
                        strings_view(names@) == dv.take(i as int),
                    decreases t.dependencies@.len() - i,
                {
                    let ghost before = strings_view(names@);
                    names.push(t.dependencies[i].0.clone());
                    assert(strings_view(names@) =~= before.push(dv[i as int]));
                    assert(dv.take(i + 1) =~= dv.take(i as int).push(dv[i as int]));
                    i = i + 1;
                }
                assert(dv.take(t.dependencies@.len() as int) =~= dv);
                deps.append(join_names(&names, ", ").as_str());
            }
            let mut description = String::from_str("description: ");
            match &t.description {
                Some(d) => description.append(d.as_str()),
                None => description.append("-"),
            }
            let lines = vec![name, deps, description];
            assert(strings_view(lines@) =~= launcher_task_details(Some(*t)));
            lines
        },
    }
}

/// The launcher's footer: the picked goal tasks, or `-`, and the keys it offers.
pub fn launcher_footer(picked: &NameSet) -> (s: String)
    ensures
        s@ == "Selected goals: "@ + (if picked@.len() == 0 {
            "-"@
        } else {
            joined(picked@, ", "@)
        }) + " | Space toggle | Enter start run | r history | o failed output | ? help | q quit"@,
{
    let mut s = String::from_str("Selected goals: ");
    if picked.is_empty() {
        s.append("-");
    } else {
        let names = picked.names();
        s.append(join_names(&names, ", ").as_str());
    }
    s.append(" | Space toggle | Enter start run | r history | o failed output | ? help | q quit");
    s
}

/// The run detail's footer, naming the focused pane.
pub fn detail_footer(focus: Focus) -> (s: String)
    ensures
        s@ == "Focus "@ + focus_label_text(focus)
            + " | Tab pane | j/k move | Enter follow task | t/o/e/s focus | r history | L auto-follow | ? help | q quit"@,
{
    let mut s = String::from_str("Focus ");
    s.append(focus_label(focus));
    s.append(" | Tab pane | j/k move | Enter follow task | t/o/e/s focus | r history | L auto-follow | ? help | q quit");
    s
}

} // verus!
