//! Recorded runs as the terminal UI reads them back: task records rebuilt from a run's
//! summary, plan and event stream, the run's result, and task log lines for display.

use crate::artifacts::{log_line_text, sanitized, task_log_file_name};
use crate::output_framer::stream_name;
use crate::run_outcome::OutputStream;
use crate::ci_output::chars_lt;
use crate::launcher::{strictly_sorted, NameSet};
use crate::cli::{split_lines, text_lines};
use crate::file_path::{spec_file_name, FilePath};
use crate::recipe::{clone_opt, clone_strings, opt_view, strings_view};
use crate::selectors::{find_from, find_from_exec};
use crate::source_location::source_slice;
use crate::text::{chars_of, decimal, digit_char, str_equals, string_from_chars, trim, trim_chars};
use vstd::prelude::*;
use vstd::string::*;

verus! {

/// Whether `c` is a decimal digit.
pub open spec fn is_digit(c: char) -> bool {
    '0' <= c && c <= '9'
}

/// The value of a sequence of decimal digits.
pub open spec fn digits_value(d: Seq<char>) -> nat
    decreases d.len(),
{
    if d.len() == 0 {
        0
    } else {
        digits_value(d.drop_last()) * 10 + ((d.last() as int) - ('0' as int)) as nat
    }
}

/// Whether every character of `d` is a decimal digit.
pub open spec fn all_digits(d: Seq<char>) -> bool {
    forall|i: int| 0 <= i < d.len() ==> is_digit(#[trigger] d[i])
}

/// What `str::parse::<u128>` gives: an optional `+` and at least one digit, all of them
/// decimal digits, with a value that fits.
pub open spec fn parsed_u128(s: Seq<char>) -> Option<u128> {
    let d = if s.len() > 0 && s[0] == '+' {
        s.drop_first()
    } else {
        s
    };
    if d.len() > 0 && all_digits(d) && digits_value(d) <= u128::MAX {
        Some(digits_value(d) as u128)
    } else {
        None
    }
}

proof fn lemma_digit_char_value(k: nat)
    requires
        k < 10,
    ensures
        is_digit(digit_char(k)),
        (digit_char(k) as int) - ('0' as int) == k,
{
}

proof fn lemma_decimal_digits(n: nat)
    ensures
        decimal(n).len() > 0,
        all_digits(decimal(n)),
        digits_value(decimal(n)) == n,
    decreases n,
{
    if n < 10 {
        lemma_digit_char_value(n);
        let d = decimal(n);
        assert(d.drop_last() =~= Seq::<char>::empty());
        assert(d.last() == digit_char(n));
        assert(digits_value(d) == digits_value(d.drop_last()) * 10 + ((d.last() as int) - ('0' as int)) as nat);
    } else {
        lemma_digit_char_value(n % 10);
        assert(n == (n / 10) * 10 + n % 10);
        lemma_decimal_digits(n / 10);
        let d = decimal(n);
        assert(d.drop_last() =~= decimal(n / 10));
        assert(d.last() == digit_char(n % 10));
        assert(digits_value(d) == digits_value(d.drop_last()) * 10 + ((d.last() as int) - ('0' as int)) as nat);
        assert forall|i: int| 0 <= i < d.len() implies is_digit(#[trigger] d[i]) by {
            if i < d.len() - 1 {
                assert(d[i] == decimal(n / 10)[i]);
            }
        }
    }
}

/// A number written in decimal, as run summaries and events write durations, reads back
/// as the same number.
pub proof fn lemma_decimal_reads_back(n: u128)
    ensures
        parsed_u128(decimal(n as nat)) == Some(n),
{
    lemma_decimal_digits(n as nat);
    let d = decimal(n as nat);
    assert(d[0] != '+') by {
        assert(is_digit(d[0]));
    }
}

/// Parses a decimal `u128` as `str::parse::<u128>` does.
#[verifier::rlimit(30)]
pub fn parse_u128(s: &str) -> (r: Option<u128>)
    ensures
        r == parsed_u128(s@),
{
    let chars = chars_of(s);
    let start: usize = if chars.len() > 0 && chars[0] == '+' {
        1
    } else {
        0
    };
    let ghost d = if s@.len() > 0 && s@[0] == '+' {
        s@.drop_first()
    } else {
        s@
    };
    assert(d =~= chars@.subrange(start as int, chars@.len() as int));
    if start == chars.len() {
        return None;
    }
    let mut value: u128 = 0;
    let mut overflow = false;
    let mut i: usize = start;
    while i < chars.len()
        invariant
            start <= i <= chars@.len(),
            chars@ == s@,
            d == chars@.subrange(start as int, chars@.len() as int),
            d == (if s@.len() > 0 && s@[0] == '+' {
                s@.drop_first()
            } else {
                s@
            }),
            forall|k: int| 0 <= k < i - start ==> is_digit(#[trigger] d[k]),
            !overflow ==> value == digits_value(d.take(i - start)),
            overflow ==> digits_value(d.take(i - start)) > u128::MAX,
        decreases chars@.len() - i,
    {
        let c = chars[i];
        assert(d[i - start] == c);
        if !('0' <= c && c <= '9') {
            assert(!is_digit(d[i - start]));
            assert(!all_digits(d));
            return None;
        }
        let digit: u128 = (c as u32 - '0' as u32) as u128;
        assert(d.take(i - start + 1).drop_last() =~= d.take(i - start));
        assert(d.take(i - start + 1).last() == c);
        if !overflow {
            if value > 34028236692093846346337460743176821145 || (value == 34028236692093846346337460743176821145
                && digit > 5) {
                overflow = true;
            } else {
                value = value * 10 + digit;
            }
        }
        i = i + 1;
    }
    assert(d.take(d.len() as int) =~= d);
    if overflow {
        None
    } else {
        Some(value)
    }
}

/// One task of a recorded run, as the run detail shows it.
#[derive(Debug)]
pub struct RunTaskRecord {
    pub name: String,
    pub status: String,
    pub result: String,
    pub exit_code: Option<i32>,
    pub outcome_message: Option<String>,
    pub duration_nanos: Option<u128>,
    /// The task's log file, relative to the run directory.
    pub log_file: FilePath,
}

/// The contents of a task record.
pub struct TaskRecordView {
    pub name: Seq<char>,
    pub status: Seq<char>,
    pub result: Seq<char>,
    pub exit_code: Option<i32>,
    pub outcome_message: Option<Seq<char>>,
    pub duration_nanos: Option<u128>,
    pub log_file: Seq<char>,
}

impl View for RunTaskRecord {
    type V = TaskRecordView;

    open spec fn view(&self) -> TaskRecordView {
        TaskRecordView {
            name: self.name@,
            status: self.status@,
            result: self.result@,
            exit_code: self.exit_code,
            outcome_message: opt_view(self.outcome_message),
            duration_nanos: self.duration_nanos,
            log_file: self.log_file.0@,
        }
    }
}

/// One event of a run's event stream.
#[derive(Debug)]
pub struct RunEventRecord {
    pub event_type: String,
    pub timestamp: String,
    pub task_name: Option<String>,
    pub status: Option<String>,
    pub result: Option<String>,
    pub exit_code: Option<i32>,
    pub outcome_message: Option<String>,
    pub duration_nanos: Option<u128>,
}

/// The contents of an event: its type and time, and what task records are rebuilt from.
pub struct EventView {
    pub event_type: Seq<char>,
    pub timestamp: Seq<char>,
    pub task_name: Option<Seq<char>>,
    pub status: Option<Seq<char>>,
    pub result: Option<Seq<char>>,
    pub exit_code: Option<i32>,
    pub outcome_message: Option<Seq<char>>,
    pub duration_nanos: Option<u128>,
}

impl View for RunEventRecord {
    type V = EventView;

    open spec fn view(&self) -> EventView {
        EventView {
            event_type: self.event_type@,
            timestamp: self.timestamp@,
            task_name: opt_view(self.task_name),
            status: opt_view(self.status),
            result: opt_view(self.result),
            exit_code: self.exit_code,
            outcome_message: opt_view(self.outcome_message),
            duration_nanos: self.duration_nanos,
        }
    }
}

/// A task as a run's summary records it; its duration is still text.
#[derive(Debug)]
pub struct SummaryTask {
    pub name: String,
    pub status: String,
    pub result: String,
    pub exit_code: Option<i32>,
    pub outcome_message: Option<String>,
    pub duration_nanos: Option<String>,
    pub log_file: String,
}

/// The record of a task from a run's summary; a duration that does not parse is dropped.
pub open spec fn summary_task_record(t: SummaryTask) -> TaskRecordView {
    TaskRecordView {
        name: t.name@,
        status: t.status@,
        result: t.result@,
        exit_code: t.exit_code,
        outcome_message: opt_view(t.outcome_message),
        duration_nanos: match t.duration_nanos {
            Some(d) => parsed_u128(d@),
            None => None,
        },
        log_file: t.log_file@,
    }
}

/// The record of a planned task that has not started.
pub open spec fn pending_record(name: Seq<char>) -> TaskRecordView {
    TaskRecordView {
        name,
        status: "pending"@,
        result: "pending"@,
        exit_code: None,
        outcome_message: None,
        duration_nanos: None,
        log_file: sanitized(name) + ".log"@,
    }
}

/// The last position of a record named `name` among the first `end` records.
pub open spec fn last_named(tasks: Seq<TaskRecordView>, name: Seq<char>, end: int) -> Option<int>
    decreases end,
{
    if end <= 0 || end > tasks.len() {
        None
    } else if tasks[end - 1].name == name {
        Some(end - 1)
    } else {
        last_named(tasks, name, end - 1)
    }
}

/// A task record after an event about it.
pub open spec fn with_event(r: TaskRecordView, e: EventView) -> TaskRecordView {
    if e.event_type == "task_started"@ {
        TaskRecordView { status: "running"@, result: "running"@, ..r }
    } else if e.event_type == "task_finished"@ {
        let status = match e.status {
            Some(s) => s,
            None => "completed"@,
        };
        TaskRecordView {
            status,
            result: match e.result {
                Some(res) => res,
                None => status,
            },
            exit_code: e.exit_code,
            outcome_message: e.outcome_message,
            duration_nanos: e.duration_nanos,
            ..r
        }
    } else if e.event_type == "task_skipped"@ {
        TaskRecordView { status: "skipped"@, result: "skipped"@, ..r }
    } else {
        r
    }
}

/// Task records after one event: the event updates the last record of its task, which
/// is first added as pending when there is none.
pub open spec fn apply_event(tasks: Seq<TaskRecordView>, e: EventView) -> Seq<TaskRecordView> {
    match e.task_name {
        None => tasks,
        Some(name) => match last_named(tasks, name, tasks.len() as int) {
            Some(k) => tasks.update(k, with_event(tasks[k], e)),
            None => tasks.push(with_event(pending_record(name), e)),
        },
    }
}

/// Task records after a sequence of events.
pub open spec fn apply_events(tasks: Seq<TaskRecordView>, events: Seq<EventView>) -> Seq<TaskRecordView>
    decreases events.len(),
{
    if events.len() == 0 {
        tasks
    } else {
        apply_event(apply_events(tasks, events.drop_last()), events.last())
    }
}

/// The task records of a run: those of its summary when it has one, else its planned
/// tasks (if any) updated by its events.
pub open spec fn task_records(
    summary: Option<Seq<SummaryTask>>,
    plan: Option<Seq<Seq<char>>>,
    events: Seq<EventView>,
) -> Seq<TaskRecordView> {
    match summary {
        Some(tasks) => tasks.map_values(|t: SummaryTask| summary_task_record(t)),
        None => apply_events(
            match plan {
                Some(names) => names.map_values(|n: Seq<char>| pending_record(n)),
                None => Seq::empty(),
            },
            events,
        ),
    }
}

/// Whether no two records share a name.
pub open spec fn distinct_names(tasks: Seq<TaskRecordView>) -> bool {
    forall|a: int, b: int| 0 <= a < b < tasks.len() ==> (#[trigger] tasks[a]).name != (#[trigger] tasks[b]).name
}

/// Whether some event among `events` is about task `name`.
pub open spec fn event_names(events: Seq<EventView>, name: Seq<char>) -> bool {
    exists|k: int| 0 <= k < events.len() && #[trigger] events[k].task_name == Some(name)
}

proof fn lemma_last_named(tasks: Seq<TaskRecordView>, name: Seq<char>, end: int)
    requires
        0 <= end <= tasks.len(),
    ensures
        last_named(tasks, name, end) matches Some(k) ==> 0 <= k < end && tasks[k].name == name,
        last_named(tasks, name, end) is None ==> forall|k: int| 0 <= k < end ==> (#[trigger] tasks[k]).name != name,
    decreases end,
{
    if end > 0 {
        lemma_last_named(tasks, name, end - 1);
    }
}

proof fn lemma_apply_event_shape(tasks: Seq<TaskRecordView>, e: EventView)
    ensures
        apply_event(tasks, e).len() >= tasks.len(),
        forall|i: int| 0 <= i < tasks.len() ==> (#[trigger] apply_event(tasks, e)[i]).name == tasks[i].name,
        distinct_names(tasks) ==> distinct_names(apply_event(tasks, e)),
        e.task_name matches Some(n) ==> exists|i: int|
            0 <= i < apply_event(tasks, e).len() && (#[trigger] apply_event(tasks, e)[i]).name == n,
        forall|i: int|
            tasks.len() <= i < apply_event(tasks, e).len() ==> e.task_name == Some(
                (#[trigger] apply_event(tasks, e)[i]).name,
            ),
{
    let r = apply_event(tasks, e);
    match e.task_name {
        None => {},
        Some(name) => {
            lemma_last_named(tasks, name, tasks.len() as int);
            match last_named(tasks, name, tasks.len() as int) {
                Some(k) => {
                    assert(r[k].name == name);
                },
                None => {
                    assert(r[tasks.len() as int].name == name);
                    assert forall|a: int, b: int| distinct_names(tasks) && 0 <= a < b < r.len() implies (
                    #[trigger] r[a]).name != (#[trigger] r[b]).name by {
                        if b == tasks.len() {
                            assert(r[a] == tasks[a]);
                        } else {
                            assert(r[a] == tasks[a] && r[b] == tasks[b]);
                        }
                    }
                },
            }
        },
    }
}

/// Rebuilding task records from events keeps the starting records in place and in order,
/// adds after them, in order of first appearance, one record per task that only the
/// events name, gives every task named by an event a record, and never gives two records
/// the same name when the starting records had distinct names.
pub proof fn lemma_event_records_extend_the_plan(tasks: Seq<TaskRecordView>, events: Seq<EventView>)
    ensures
        apply_events(tasks, events).len() >= tasks.len(),
        forall|i: int| 0 <= i < tasks.len() ==> (#[trigger] apply_events(tasks, events)[i]).name == tasks[i].name,
        distinct_names(tasks) ==> distinct_names(apply_events(tasks, events)),
        forall|k: int|
            0 <= k < events.len() && (#[trigger] events[k]).task_name is Some ==> exists|i: int|
                0 <= i < apply_events(tasks, events).len() && apply_events(tasks, events)[i].name
                    == events[k].task_name->0,
        forall|i: int|
            tasks.len() <= i < apply_events(tasks, events).len() ==> event_names(
                events,
                (#[trigger] apply_events(tasks, events)[i]).name,
            ),
    decreases events.len(),
{
    if events.len() > 0 {
        let prev = events.drop_last();
        let before = apply_events(tasks, prev);
        let e = events.last();
        lemma_event_records_extend_the_plan(tasks, prev);
        lemma_apply_event_shape(before, e);
        let after = apply_events(tasks, events);
        assert(after == apply_event(before, e));
        assert forall|i: int| 0 <= i < tasks.len() implies (#[trigger] after[i]).name == tasks[i].name by {
            assert(after[i].name == before[i].name);
        }
        assert forall|k: int|
            0 <= k < events.len() && (#[trigger] events[k]).task_name is Some implies exists|i: int|
                0 <= i < after.len() && after[i].name == events[k].task_name->0 by {
            if k < prev.len() {
                assert(prev[k] == events[k]);
                let i = choose|i: int| 0 <= i < before.len() && before[i].name == prev[k].task_name->0;
                assert(after[i].name == before[i].name);
            } else {
                assert(events[k] == e);
            }
        }
        assert forall|i: int| tasks.len() <= i < after.len() implies event_names(
            events,
            (#[trigger] after[i]).name,
        ) by {
            if i < before.len() {
                assert(after[i].name == before[i].name);
                assert(event_names(prev, before[i].name));
                let k = choose|k: int| 0 <= k < prev.len() && #[trigger] prev[k].task_name == Some(before[i].name);
                assert(events[k] == prev[k]);
            } else {
                assert(e.task_name == Some(after[i].name));
                assert(events[events.len() - 1] == e);
            }
        }
    }
}

/// The position of the first among the first `end` events that is about task `name`.
pub open spec fn first_naming(events: Seq<EventView>, name: Seq<char>, end: int) -> Option<int>
    decreases end,
{
    if end <= 0 || end > events.len() {
        None
    } else {
        match first_naming(events, name, end - 1) {
            Some(k) => Some(k),
            None => if events[end - 1].task_name == Some(name) {
                Some(end - 1)
            } else {
                None
            },
        }
    }
}

proof fn lemma_first_naming_found(events: Seq<EventView>, name: Seq<char>, end: int)
    requires
        0 <= end <= events.len(),
    ensures
        first_naming(events, name, end) matches Some(k) ==> 0 <= k < end && events[k].task_name == Some(name),
        first_naming(events, name, end) is None ==> forall|k: int|
            0 <= k < end ==> (#[trigger] events[k]).task_name != Some(name),
    decreases end,
{
    if end > 0 {
        lemma_first_naming_found(events, name, end - 1);
    }
}

proof fn lemma_first_naming_prefix(events: Seq<EventView>, prev: Seq<EventView>, name: Seq<char>, end: int)
    requires
        0 <= end <= prev.len() <= events.len(),
        forall|m: int| 0 <= m < prev.len() ==> #[trigger] prev[m] == events[m],
    ensures
        first_naming(events, name, end) == first_naming(prev, name, end),
    decreases end,
{
    if end > 0 {
        assert(prev[end - 1] == events[end - 1]);
        lemma_first_naming_prefix(events, prev, name, end - 1);
    }
}

/// Records that only the events name come after the starting records in the order in
/// which the events first name their tasks.
pub proof fn lemma_event_records_added_in_order_of_first_appearance(
    tasks: Seq<TaskRecordView>,
    events: Seq<EventView>,
)
    ensures
        forall|i: int|
            tasks.len() <= i < apply_events(tasks, events).len() ==> first_naming(
                events,
                (#[trigger] apply_events(tasks, events)[i]).name,
                events.len() as int,
            ) is Some,
        forall|i: int, j: int|
            tasks.len() <= i < j < apply_events(tasks, events).len() ==> first_naming(
                events,
                (#[trigger] apply_events(tasks, events)[i]).name,
                events.len() as int,
            )->0 < first_naming(events, (#[trigger] apply_events(tasks, events)[j]).name, events.len() as int)->0,
    decreases events.len(),
{
    if events.len() > 0 {
        let prev = events.drop_last();
        let e = events.last();
        let before = apply_events(tasks, prev);
        let after = apply_events(tasks, events);
        let len = events.len() as int;
        lemma_event_records_added_in_order_of_first_appearance(tasks, prev);
        lemma_event_records_extend_the_plan(tasks, prev);
        lemma_apply_event_shape(before, e);
        assert(after == apply_event(before, e));
        assert forall|m: int| 0 <= m < prev.len() implies #[trigger] prev[m] == events[m] by {}
        // Names of records already there keep their first event.
        assert forall|i: int| tasks.len() <= i < before.len() implies first_naming(events, (#[trigger] after[i]).name, len)
            == first_naming(prev, before[i].name, len - 1) && first_naming(prev, before[i].name, len - 1) is Some by {
            assert(after[i].name == before[i].name);
            lemma_first_naming_prefix(events, prev, before[i].name, len - 1);
            lemma_first_naming_found(prev, before[i].name, len - 1);
        }
        if after.len() > before.len() {
            let name = e.task_name->0;
            let last = before.len() as int;
            assert(after[last].name == name);
            lemma_last_named(before, name, before.len() as int);
            assert(last_named(before, name, before.len() as int) is None);
            lemma_first_naming_found(prev, name, len - 1);
            if first_naming(prev, name, len - 1) is Some {
                let k = first_naming(prev, name, len - 1)->0;
                assert(prev[k].task_name is Some);
                let w = choose|w: int| 0 <= w < before.len() && before[w].name == prev[k].task_name->0;
                assert(false);
            }
            lemma_first_naming_prefix(events, prev, name, len - 1);
            assert(events[len - 1] == e);
            assert(first_naming(events, name, len) == Some(len - 1));
            assert forall|i: int| tasks.len() <= i < before.len() implies first_naming(
                events,
                (#[trigger] after[i]).name,
                len,
            )->0 < len - 1 by {
                lemma_first_naming_found(prev, before[i].name, len - 1);
            }
        }
    }
}

/// A run's task records without a summary start with its planned tasks in plan order, and
/// with a summary are the summary's tasks, one for one and in order, whatever the events.
pub proof fn lemma_task_records_follow_summary_or_plan(
    summary: Option<Seq<SummaryTask>>,
    plan: Option<Seq<Seq<char>>>,
    events: Seq<EventView>,
)
    ensures
        summary matches Some(tasks) ==> {
            &&& task_records(summary, plan, events).len() == tasks.len()
            &&& forall|i: int|
                0 <= i < tasks.len() ==> #[trigger] task_records(summary, plan, events)[i] == summary_task_record(
                    tasks[i],
                )
        },
        summary is None ==> (plan matches Some(names) ==> {
            &&& task_records(summary, plan, events).len() >= names.len()
            &&& forall|i: int|
                0 <= i < names.len() ==> (#[trigger] task_records(summary, plan, events)[i]).name == names[i]
        }),
{
    if summary is None {
        let start = match plan {
            Some(names) => names.map_values(|n: Seq<char>| pending_record(n)),
            None => Seq::empty(),
        };
        lemma_event_records_extend_the_plan(start, events);
    }
}

/// Whether an event changes the status of its task: it started, finished or was skipped.
pub open spec fn is_status_event(e: EventView) -> bool {
    e.event_type == "task_started"@ || e.event_type == "task_finished"@ || e.event_type == "task_skipped"@
}

/// The status that a status event gives its task.
pub open spec fn event_status(e: EventView) -> Seq<char> {
    if e.event_type == "task_started"@ {
        "running"@
    } else if e.event_type == "task_finished"@ {
        match e.status {
            Some(s) => s,
            None => "completed"@,
        }
    } else {
        "skipped"@
    }
}

/// The position of the last status event about task `name` among the first `end` events.
pub open spec fn last_status_event(events: Seq<EventView>, name: Seq<char>, end: int) -> Option<int>
    decreases end,
{
    if end <= 0 || end > events.len() {
        None
    } else if events[end - 1].task_name == Some(name) && is_status_event(events[end - 1]) {
        Some(end - 1)
    } else {
        last_status_event(events, name, end - 1)
    }
}

proof fn lemma_last_named_unique(tasks: Seq<TaskRecordView>, i: int)
    requires
        distinct_names(tasks),
        0 <= i < tasks.len(),
    ensures
        last_named(tasks, tasks[i].name, tasks.len() as int) == Some(i),
{
    lemma_last_named(tasks, tasks[i].name, tasks.len() as int);
    if last_named(tasks, tasks[i].name, tasks.len() as int) is None {
    } else {
        let k = last_named(tasks, tasks[i].name, tasks.len() as int)->0;
        if k != i {
            if k < i {
                assert(tasks[k].name != tasks[i].name);
            } else {
                assert(tasks[i].name != tasks[k].name);
            }
        }
    }
}

proof fn lemma_with_event_status(r: TaskRecordView, e: EventView)
    ensures
        with_event(r, e).name == r.name,
        with_event(r, e).status == if is_status_event(e) {
            event_status(e)
        } else {
            r.status
        },
{
}

/// Rebuilding records from events gives each task the status of its last status event
/// (started: `running`; finished: the event's status, else `completed`; skipped:
/// `skipped`); a task without one keeps its starting status, or is `pending` when only
/// other events name it; provided the starting records have distinct names.
pub proof fn lemma_event_records_take_the_last_status(tasks: Seq<TaskRecordView>, events: Seq<EventView>)
    requires
        distinct_names(tasks),
    ensures
        forall|i: int|
            0 <= i < apply_events(tasks, events).len() ==> (#[trigger] apply_events(tasks, events)[i]).status
                == match last_status_event(events, apply_events(tasks, events)[i].name, events.len() as int) {
                Some(k) => event_status(events[k]),
                None => if i < tasks.len() {
                    tasks[i].status
                } else {
                    "pending"@
                },
            },
    decreases events.len(),
{
    if events.len() > 0 {
        let prev = events.drop_last();
        let e = events.last();
        let before = apply_events(tasks, prev);
        let after = apply_events(tasks, events);
        lemma_event_records_take_the_last_status(tasks, prev);
        lemma_event_records_extend_the_plan(tasks, prev);
        assert(after == apply_event(before, e));
        assert forall|i: int| 0 <= i < after.len() implies (#[trigger] after[i]).status == match last_status_event(
            events,
            after[i].name,
            events.len() as int,
        ) {
            Some(k) => event_status(events[k]),
            None => if i < tasks.len() {
                tasks[i].status
            } else {
                "pending"@
            },
        } by {
            let n = after[i].name;
            assert(events[events.len() - 1] == e);
            assert forall|m: int| 0 <= m < prev.len() implies #[trigger] prev[m] == events[m] by {}
            assert(last_status_event(events, n, prev.len() as int) == last_status_event(prev, n, prev.len() as int))
                by {
                lemma_last_status_event_prefix(events, prev, n, prev.len() as int);
            }
            assert(last_status_event(events, n, events.len() as int) == if e.task_name == Some(n) && is_status_event(e) {
                Some(events.len() - 1)
            } else {
                last_status_event(prev, n, prev.len() as int)
            });
            if i < before.len() {
                assert(before[i].status == match last_status_event(prev, before[i].name, prev.len() as int) {
                    Some(k) => event_status(prev[k]),
                    None => if i < tasks.len() {
                        tasks[i].status
                    } else {
                        "pending"@
                    },
                });
                if last_status_event(prev, before[i].name, prev.len() as int) is Some {
                    let k = last_status_event(prev, before[i].name, prev.len() as int)->0;
                    lemma_last_status_event_found(prev, before[i].name, prev.len() as int);
                    assert(prev[k] == events[k]);
                }
            }
            match e.task_name {
                None => {
                    assert(after[i] == before[i]);
                },
                Some(name) => {
                    lemma_last_named(before, name, before.len() as int);
                    match last_named(before, name, before.len() as int) {
                        Some(r) => {
                            if i == r {
                                assert(after[i] == with_event(before[r], e));
                                lemma_with_event_status(before[r], e);
                                assert(n == name);
                            } else {
                                assert(after[i] == before[i]);
                                lemma_last_named_unique(before, i);
                                assert(before[i].name != name);
                            }
                        },
                        None => {
                            if i < before.len() {
                                assert(after[i] == before[i]);
                                assert(before[i].name != name);
                            } else {
                                assert(after[i] == with_event(pending_record(name), e));
                                lemma_with_event_status(pending_record(name), e);
                                assert(n == name);
                                if last_status_event(prev, name, prev.len() as int) is Some {
                                    let k = last_status_event(prev, name, prev.len() as int)->0;
                                    lemma_last_status_event_found(prev, name, prev.len() as int);
                                    assert(prev[k].task_name == Some(name));
                                    let w = choose|w: int|
                                        0 <= w < before.len() && before[w].name == prev[k].task_name->0;
                                    assert(false);
                                }
                                assert(before.len() >= tasks.len());
                            }
                        },
                    }
                },
            }
        }
    }
}

proof fn lemma_last_status_event_prefix(events: Seq<EventView>, prev: Seq<EventView>, name: Seq<char>, end: int)
    requires
        0 <= end <= prev.len() <= events.len(),
        forall|m: int| 0 <= m < prev.len() ==> #[trigger] prev[m] == events[m],
    ensures
        last_status_event(events, name, end) == last_status_event(prev, name, end),
    decreases end,
{
    if end > 0 {
        assert(prev[end - 1] == events[end - 1]);
        lemma_last_status_event_prefix(events, prev, name, end - 1);
    }
}

proof fn lemma_last_status_event_found(events: Seq<EventView>, name: Seq<char>, end: int)
    requires
        0 <= end <= events.len(),
    ensures
        last_status_event(events, name, end) matches Some(k) ==> 0 <= k < end && events[k].task_name == Some(name)
            && is_status_event(events[k]),
    decreases end,
{
    if end > 0 {
        lemma_last_status_event_found(events, name, end - 1);
    }
}

fn pending_task_record(name: &str) -> (r: RunTaskRecord)
    ensures
        r@ == pending_record(name@),
{
    RunTaskRecord {
        name: name.to_string(),
        status: String::from_str("pending"),
        result: String::from_str("pending"),
        exit_code: None,
        outcome_message: None,
        duration_nanos: None,
        log_file: FilePath::from_str(task_log_file_name(name).as_str()),
    }
}

fn summary_task_to_record(t: &SummaryTask) -> (r: RunTaskRecord)
    ensures
        r@ == summary_task_record(*t),
{
    let duration_nanos = match &t.duration_nanos {
        Some(d) => parse_u128(d.as_str()),
        None => None,
    };
    RunTaskRecord {
        name: t.name.clone(),
        status: t.status.clone(),
        result: t.result.clone(),
        exit_code: t.exit_code,
        outcome_message: clone_opt(&t.outcome_message),
        duration_nanos,
        log_file: FilePath::from_str(t.log_file.as_str()),
    }
}

fn find_last_named(tasks: &Vec<RunTaskRecord>, name: &str) -> (r: Option<usize>)
    ensures
        match r {
            Some(k) => k < tasks@.len() && last_named(tasks@.map_values(|t: RunTaskRecord| t@), name@, tasks@.len() as int)
                == Some(k as int),
            None => last_named(tasks@.map_values(|t: RunTaskRecord| t@), name@, tasks@.len() as int) is None,
        },
{
    let ghost views = tasks@.map_values(|t: RunTaskRecord| t@);
    let mut end: usize = tasks.len();
    while end > 0
        invariant
            end <= tasks@.len(),
            views == tasks@.map_values(|t: RunTaskRecord| t@),
            last_named(views, name@, tasks@.len() as int) == last_named(views, name@, end as int),
        decreases end,
    {
        if str_equals(tasks[end - 1].name.as_str(), name) {
            assert(views[end - 1].name == name@);
            return Some(end - 1);
        }
        end = end - 1;
    }
    None
}

fn apply_event_to(record: &mut RunTaskRecord, event: &RunEventRecord)
    ensures
        final(record)@ == with_event(old(record)@, event@),
{
    proof {
        reveal_strlit("task_started");
        reveal_strlit("task_finished");
        reveal_strlit("task_skipped");
    }
    if str_equals(event.event_type.as_str(), "task_started") {
        record.status = String::from_str("running");
        record.result = String::from_str("running");
    } else if str_equals(event.event_type.as_str(), "task_finished") {
        let status = match &event.status {
            Some(s) => s.clone(),
            None => String::from_str("completed"),
        };
        let result = match &event.result {
            Some(r) => r.clone(),
            None => status.clone(),
        };
        record.status = status;
        record.result = result;
        record.exit_code = event.exit_code;
        record.outcome_message = clone_opt(&event.outcome_message);
        record.duration_nanos = event.duration_nanos;
    } else if str_equals(event.event_type.as_str(), "task_skipped") {
        record.status = String::from_str("skipped");
        record.result = String::from_str("skipped");
    }
}

/// Rebuilds the task records of a run from its summary tasks, or else from the names
/// of its planned tasks and its events.
pub fn build_task_records(
    summary: Option<&Vec<SummaryTask>>,
    plan: Option<&Vec<String>>,
    events: &Vec<RunEventRecord>,
) -> (tasks: Vec<RunTaskRecord>)
    ensures
        tasks@.map_values(|t: RunTaskRecord| t@) == task_records(
            match summary {
                Some(s) => Some(s@),
                None => None,
            },
            match plan {
                Some(p) => Some(p@.map_values(|n: String| n@)),
                None => None,
            },
            events@.map_values(|e: RunEventRecord| e@),
        ),
{
    let mut tasks: Vec<RunTaskRecord> = Vec::new();
    match summary {
        Some(summary_tasks) => {
            let mut i: usize = 0;
            while i < summary_tasks.len()
                invariant
                    i <= summary_tasks@.len(),
                    tasks@.map_values(|t: RunTaskRecord| t@) == summary_tasks@.take(i as int).map_values(
                        |t: SummaryTask| summary_task_record(t),
                    ),
                decreases summary_tasks@.len() - i,
            {
                let ghost before = tasks@.map_values(|t: RunTaskRecord| t@);
                let record = summary_task_to_record(&summary_tasks[i]);
                tasks.push(record);
                assert(tasks@.map_values(|t: RunTaskRecord| t@) =~= before.push(
                    summary_task_record(summary_tasks@[i as int]),
                ));
                assert(summary_tasks@.take(i + 1).map_values(|t: SummaryTask| summary_task_record(t))
                    =~= summary_tasks@.take(i as int).map_values(|t: SummaryTask| summary_task_record(t)).push(
                    summary_task_record(summary_tasks@[i as int]),
                ));
                i = i + 1;
            }
            assert(summary_tasks@.take(summary_tasks@.len() as int) =~= summary_tasks@);
            return tasks;
        },
        None => {},
    }
    let ghost initial: Seq<TaskRecordView> = match plan {
        Some(names) => names@.map_values(|n: String| n@).map_values(|n: Seq<char>| pending_record(n)),
        None => Seq::empty(),
    };
    match plan {
        Some(names) => {
            let mut i: usize = 0;
            while i < names.len()
                invariant
                    i <= names@.len(),
                    initial == names@.map_values(|n: String| n@).map_values(|n: Seq<char>| pending_record(n)),
                    tasks@.map_values(|t: RunTaskRecord| t@) == initial.take(i as int),
                decreases names@.len() - i,
            {
                let ghost before = tasks@.map_values(|t: RunTaskRecord| t@);
                let record = pending_task_record(names[i].as_str());
                tasks.push(record);
                assert(tasks@.map_values(|t: RunTaskRecord| t@) =~= before.push(initial[i as int]));
                assert(initial.take(i + 1) =~= initial.take(i as int).push(initial[i as int]));
                i = i + 1;
            }
            assert(initial.take(names@.len() as int) =~= initial);
        },
        None => {
            assert(tasks@.map_values(|t: RunTaskRecord| t@) =~= initial);
        },
    }
    let ghost evs = events@.map_values(|e: RunEventRecord| e@);
    let mut j: usize = 0;
    while j < events.len()
        invariant
            j <= events@.len(),
            evs == events@.map_values(|e: RunEventRecord| e@),
            tasks@.map_values(|t: RunTaskRecord| t@) == apply_events(initial, evs.take(j as int)),
        decreases events@.len() - j,
    {
        assert(evs.take(j + 1).drop_last() =~= evs.take(j as int));
        assert(evs.take(j + 1).last() == events@[j as int]@);
        let event = &events[j];
        let ghost before = tasks@.map_values(|t: RunTaskRecord| t@);
        match &event.task_name {
            None => {},
            Some(name) => {
                match find_last_named(&tasks, name.as_str()) {
                    Some(k) => {
                        let mut record = tasks.remove(k);
                        apply_event_to(&mut record, event);
                        tasks.insert(k, record);
                        assert(tasks@.map_values(|t: RunTaskRecord| t@) =~= before.update(
                            k as int,
                            with_event(before[k as int], event@),
                        ));
                    },
                    None => {
                        let mut record = pending_task_record(name.as_str());
                        apply_event_to(&mut record, event);
                        tasks.push(record);
                        assert(tasks@.map_values(|t: RunTaskRecord| t@) =~= before.push(
                            with_event(pending_record(name@), event@),
                        ));
                    },
                }
            },
        }
        j = j + 1;
    }
    assert(evs.take(events@.len() as int) =~= evs);
    tasks
}

/// The last `run_finished` event among the first `end` events.
pub open spec fn last_run_finished(events: Seq<EventView>, end: int) -> Option<int>
    decreases end,
{
    if end <= 0 || end > events.len() {
        None
    } else if events[end - 1].event_type == "run_finished"@ {
        Some(end - 1)
    } else {
        last_run_finished(events, end - 1)
    }
}

/// The result of a run that has no summary yet: that of its last `run_finished` event
/// (`completed` when the event gives none), else `unknown` with no events and `running`
/// with some.
pub open spec fn live_run_result(events: Seq<EventView>) -> Seq<char> {
    match last_run_finished(events, events.len() as int) {
        Some(k) => match events[k].result {
            Some(r) => r,
            None => "completed"@,
        },
        None => if events.len() == 0 {
            "unknown"@
        } else {
            "running"@
        },
    }
}

/// Returns the result of a run that has no summary yet.
pub fn live_result_from_events(events: &Vec<RunEventRecord>) -> (r: String)
    ensures
        r@ == live_run_result(events@.map_values(|e: RunEventRecord| e@)),
{
    let ghost evs = events@.map_values(|e: RunEventRecord| e@);
    let mut end: usize = events.len();
    proof {
        reveal_strlit("run_finished");
    }
    while end > 0
        invariant
            end <= events@.len(),
            evs == events@.map_values(|e: RunEventRecord| e@),
            last_run_finished(evs, events@.len() as int) == last_run_finished(evs, end as int),
        decreases end,
    {
        let event = &events[end - 1];
        if str_equals(event.event_type.as_str(), "run_finished") {
            assert(evs[end - 1].event_type == "run_finished"@);
            return match &event.result {
                Some(r) => r.clone(),
                None => String::from_str("completed"),
            };
        }
        end = end - 1;
    }
    if events.len() == 0 {
        String::from_str("unknown")
    } else {
        String::from_str("running")
    }
}

/// A log file line as the run detail shows it: without the `[time] ` prefix, and without
/// the `stdout: ` or `stderr: ` stream label that may follow it.
pub open spec fn log_display_line(line: Seq<char>) -> Seq<char> {
    if line.len() > 0 && line[0] == '[' {
        let rest = line.drop_first();
        match find_from(rest, "] "@, 0) {
            Some(k) => {
                let remainder = rest.subrange(k + 2, rest.len() as int);
                match find_from(remainder, ": "@, 0) {
                    Some(m) => {
                        let stream = remainder.subrange(0, m);
                        if stream == "stdout"@ || stream == "stderr"@ {
                            remainder.subrange(m + 2, remainder.len() as int)
                        } else {
                            remainder
                        }
                    },
                    None => remainder,
                }
            },
            None => line,
        }
    } else {
        line
    }
}

/// Returns a log file line as the run detail shows it.
pub fn strip_log_metadata_prefix(line: &str) -> (shown: String)
    ensures
        shown@ == log_display_line(line@),
{
    let chars = chars_of(line);
    if chars.len() == 0 || chars[0] != '[' {
        return line.to_string();
    }
    let close = chars_of("] ");
    let separator = chars_of(": ");
    proof {
        reveal_strlit("] ");
        reveal_strlit(": ");
        reveal_strlit("stdout");
        reveal_strlit("stderr");
        assert(chars@.subrange(1, chars@.len() as int) =~= chars@.drop_first());
    }
    match find_from_exec(&chars, 1, &close) {
        None => line.to_string(),
        Some(k) => {
            let start = k + 2;
            let ghost rest = chars@.drop_first();
            let ghost remainder = rest.subrange(k - 1 + 2, rest.len() as int);
            assert(remainder =~= chars@.subrange(start as int, chars@.len() as int));
            match find_from_exec(&chars, start, &separator) {
                None => string_from_chars(&source_slice(&chars, start, chars.len())),
                Some(m) => {
                    let stream = source_slice(&chars, start, m);
                    assert(stream@ =~= remainder.subrange(0, m - start));
                    let stream_text = string_from_chars(&stream);
                    if str_equals(stream_text.as_str(), "stdout") || str_equals(stream_text.as_str(), "stderr") {
                        let message = source_slice(&chars, m + 2, chars.len());
                        assert(message@ =~= remainder.subrange(m - start + 2, remainder.len() as int));
                        string_from_chars(&message)
                    } else {
                        string_from_chars(&source_slice(&chars, start, chars.len()))
                    }
                },
            }
        },
    }
}

/// The first occurrence of `p` from `from` on is at `q` when it occurs there and nowhere
/// between.
proof fn lemma_find_from_first(s: Seq<char>, p: Seq<char>, from: int, q: int)
    requires
        0 <= from <= q,
        q + p.len() <= s.len(),
        s.subrange(q, q + p.len()) == p,
        forall|j: int| from <= j < q ==> #[trigger] s.subrange(j, j + p.len()) != p,
    ensures
        find_from(s, p, from) == Some(q),
    decreases q - from,
{
    if from < q {
        assert(s.subrange(from, from + p.len()) != p);
        lemma_find_from_first(s, p, from + 1, q);
    }
}

/// A line of a task log reads back as the text that was written: the run detail shows it
/// without the time and stream label that the writer put before it, provided the time
/// holds no `]`.
pub proof fn lemma_log_line_reads_back(time: Seq<char>, stream: OutputStream, line: Seq<char>)
    requires
        !time.contains(']'),
    ensures
        log_display_line(log_line_text(time, stream, line).drop_last()) == line,
{
    reveal_strlit("[");
    reveal_strlit("] ");
    reveal_strlit(": ");
    reveal_strlit("\n");
    reveal_strlit("stdout");
    reveal_strlit("stderr");
    let name = stream_name(stream);
    let written = log_line_text(time, stream, line).drop_last();
    assert(written =~= "["@ + time + "] "@ + name + ": "@ + line);
    let rest = written.drop_first();
    assert(rest =~= time + "] "@ + name + ": "@ + line);
    let t = time.len() as int;
    assert(rest.subrange(t, t + 2) =~= "] "@);
    assert forall|j: int| 0 <= j < t implies #[trigger] rest.subrange(j, j + 2) != "] "@ by {
        assert(rest.subrange(j, j + 2)[0] == time[j]);
        if time[j] == ']' {
            assert(time.contains(']'));
        }
    }
    lemma_find_from_first(rest, "] "@, 0, t);
    let remainder = rest.subrange(t + 2, rest.len() as int);
    assert(remainder =~= name + ": "@ + line);
    assert(remainder.subrange(6, 8) =~= ": "@);
    assert forall|j: int| 0 <= j < 6 implies #[trigger] remainder.subrange(j, j + 2) != ": "@ by {
        assert(remainder.subrange(j, j + 2)[0] == name[j]);
    }
    lemma_find_from_first(remainder, ": "@, 0, 6);
    assert(remainder.subrange(0, 6) =~= name);
    assert(remainder.subrange(8, remainder.len() as int) =~= line);
}

/// The lines of a task log as the run detail shows them.
pub fn task_log_display_lines(content: &str) -> (lines: Vec<String>)
    ensures
        lines@.map_values(|l: String| l@) == text_lines(content@).map_values(|l: Seq<char>| log_display_line(l)),
{
    let raw = split_lines(content);
    let ghost rv = raw@.map_values(|p: Vec<char>| p@);
    let mut lines: Vec<String> = Vec::new();
    let mut i: usize = 0;
    while i < raw.len()
        invariant
            i <= raw@.len(),
            rv == raw@.map_values(|p: Vec<char>| p@),
            rv == text_lines(content@),
            lines@.map_values(|l: String| l@) == rv.take(i as int).map_values(|l: Seq<char>| log_display_line(l)),
        decreases raw@.len() - i,
    {
        let ghost before = lines@.map_values(|l: String| l@);
        let text = string_from_chars(&raw[i]);
        let shown = strip_log_metadata_prefix(text.as_str());
        lines.push(shown);
        assert(lines@.map_values(|l: String| l@) =~= before.push(log_display_line(rv[i as int])));
        assert(rv.take(i + 1).map_values(|l: Seq<char>| log_display_line(l)) =~= rv.take(i as int).map_values(
            |l: Seq<char>| log_display_line(l),
        ).push(log_display_line(rv[i as int])));
        i = i + 1;
    }
    assert(rv.take(raw@.len() as int) =~= rv);
    lines
}

/// The identifier of a run: the name of its directory, or nothing when the path has none.
pub fn run_id_from_directory(run_directory: &FilePath) -> (id: String)
    ensures
        id@ == (match spec_file_name(run_directory.0@) {
            Some(name) => name,
            None => Seq::empty(),
        }),
{
    match run_directory.file_name() {
        Some(name) => name,
        None => String::new(),
    }
}

/// One line of a run's event stream: blank, an event, or text that is not an event.
#[derive(Debug)]
pub enum EventLine {
    Blank,
    Parsed(RunEventRecord),
    Unparsable,
}

/// Whether an event-stream line is blank and skipped.
pub fn is_blank_line(line: &str) -> (b: bool)
    ensures
        b == (trim(line@).len() == 0),
{
    let chars = chars_of(line);
    trim_chars(&chars).len() == 0
}

/// The position of the first line from `from` on that is not an event.
pub open spec fn first_unparsable(lines: Seq<EventLine>, from: int) -> Option<int>
    decreases lines.len() - from,
{
    if from < 0 || from >= lines.len() {
        None
    } else if lines[from] is Unparsable {
        Some(from)
    } else {
        first_unparsable(lines, from + 1)
    }
}

/// The events among `lines`, in order.
pub open spec fn parsed_events(lines: Seq<EventLine>) -> Seq<EventView>
    decreases lines.len(),
{
    if lines.len() == 0 {
        Seq::empty()
    } else {
        let rest = parsed_events(lines.drop_last());
        match lines.last() {
            EventLine::Parsed(e) => rest.push(e@),
            _ => rest,
        }
    }
}

/// The events of an event stream, or the position of the line that is not an event. A
/// last line that is not an event and has no line break after it is being written and
/// is left out.
pub open spec fn read_event_lines(lines: Seq<EventLine>, ends_with_newline: bool) -> Result<Seq<EventView>, int> {
    match first_unparsable(lines, 0) {
        None => Ok(parsed_events(lines)),
        Some(u) => if u + 1 == lines.len() && !ends_with_newline {
            Ok(parsed_events(lines.take(u)))
        } else {
            Err(u)
        },
    }
}

proof fn lemma_first_unparsable_after_push(lines: Seq<EventLine>, last: EventLine, from: int)
    requires
        0 <= from <= lines.len(),
        first_unparsable(lines, from) is None,
        last is Unparsable,
    ensures
        first_unparsable(lines.push(last), from) == Some(lines.len() as int),
    decreases lines.len() - from,
{
    let longer = lines.push(last);
    if from < lines.len() {
        assert(longer[from] == lines[from]);
        lemma_first_unparsable_after_push(lines, last, from + 1);
    } else {
        assert(longer[from] == last);
    }
}

/// A partly written last line is tolerated: when every line before it is an event or
/// blank and the last line is not an event, the stream reads as the lines before it while
/// no line break follows the last line, and fails at that line once one does.
pub proof fn lemma_partly_written_last_line_is_left_out(lines: Seq<EventLine>, last: EventLine)
    requires
        first_unparsable(lines, 0) is None,
        last is Unparsable,
    ensures
        read_event_lines(lines.push(last), false) == Ok::<Seq<EventView>, int>(parsed_events(lines)),
        read_event_lines(lines.push(last), true) == Err::<Seq<EventView>, int>(lines.len() as int),
{
    lemma_first_unparsable_after_push(lines, last, 0);
    assert(lines.push(last).take(lines.len() as int) =~= lines);
}

fn clone_event(e: &RunEventRecord) -> (r: RunEventRecord)
    ensures
        r@ == e@,
{
    RunEventRecord {
        event_type: e.event_type.clone(),
        timestamp: e.timestamp.clone(),
        task_name: clone_opt(&e.task_name),
        status: clone_opt(&e.status),
        result: clone_opt(&e.result),
        exit_code: e.exit_code,
        outcome_message: clone_opt(&e.outcome_message),
        duration_nanos: e.duration_nanos,
    }
}

/// Collects the events of an event stream's lines, tolerating a partly written last line;
/// fails with the position of a line that is not an event.
pub fn collect_event_lines(lines: &Vec<EventLine>, ends_with_newline: bool) -> (r: Result<Vec<RunEventRecord>, usize>)
    ensures
        match r {
            Ok(events) => read_event_lines(lines@, ends_with_newline) == Ok::<Seq<EventView>, int>(
                events@.map_values(|e: RunEventRecord| e@),
            ),
            Err(u) => read_event_lines(lines@, ends_with_newline) == Err::<Seq<EventView>, int>(u as int),
        },
{
    let mut events: Vec<RunEventRecord> = Vec::new();
    let mut i: usize = 0;
    while i < lines.len()
        invariant
            i <= lines@.len(),
            first_unparsable(lines@, 0) == first_unparsable(lines@, i as int),
            events@.map_values(|e: RunEventRecord| e@) == parsed_events(lines@.take(i as int)),
        decreases lines@.len() - i,
    {
        assert(lines@.take(i + 1).drop_last() =~= lines@.take(i as int));
        match &lines[i] {
            EventLine::Blank => {},
            EventLine::Parsed(e) => {
                let ghost before = events@.map_values(|x: RunEventRecord| x@);
                events.push(clone_event(e));
                assert(events@.map_values(|x: RunEventRecord| x@) =~= before.push(e@));
            },
            EventLine::Unparsable => {
                if i + 1 == lines.len() && !ends_with_newline {
                    return Ok(events);
                }
                return Err(i);
            },
        }
        i = i + 1;
    }
    assert(lines@.take(lines@.len() as int) =~= lines@);
    Ok(events)
}

/// A run's summary as its `nao-summary.json` records it.
#[derive(Debug)]
pub struct SummaryFile {
    pub result: String,
    pub failure_message: Option<String>,
    pub requested_tasks: Vec<String>,
    /// The run's duration as text.
    pub duration_nanos: Option<String>,
    pub tasks: Vec<SummaryTask>,
}

/// A run's plan as its `nao-plan.json` records it.
#[derive(Debug)]
pub struct PlanFile {
    pub requested_tasks: Vec<String>,
    pub task_names: Vec<String>,
}

/// Everything the run detail screen shows of one run.
#[derive(Debug)]
pub struct RunDetailRecord {
    pub run_directory: FilePath,
    pub run_id: String,
    pub requested_tasks: Vec<String>,
    pub result: String,
    pub duration_nanos: Option<u128>,
    pub failure_message: Option<String>,
    pub tasks: Vec<RunTaskRecord>,
    pub events: Vec<RunEventRecord>,
}

/// One run of the history list.
#[derive(Debug)]
pub struct RunSummaryRecord {
    pub run_directory: FilePath,
    pub run_id: String,
    pub requested_tasks: Vec<String>,
    pub result: String,
    pub failure_message: Option<String>,
    pub task_count: usize,
}

/// The identifier of the run stored in `run_directory`.
pub open spec fn run_id_of(run_directory: Seq<char>) -> Seq<char> {
    match spec_file_name(run_directory) {
        Some(name) => name,
        None => Seq::empty(),
    }
}

/// Assembles the detail of the run stored in `run_directory` from what it recorded: its
/// summary once it finished, its plan, and its events.
pub fn run_detail_record(
    run_directory: &FilePath,
    summary: Option<&SummaryFile>,
    plan: Option<&PlanFile>,
    events: Vec<RunEventRecord>,
) -> (d: RunDetailRecord)
    ensures
        d.run_directory.0@ == run_directory.0@,
        d.run_id@ == run_id_of(run_directory.0@),
        strings_view(d.requested_tasks@) == (match summary {
            Some(s) => strings_view(s.requested_tasks@),
            None => match plan {
                Some(p) => strings_view(p.requested_tasks@),
                None => Seq::empty(),
            },
        }),
        d.result@ == (match summary {
            Some(s) => s.result@,
            None => live_run_result(events@.map_values(|e: RunEventRecord| e@)),
        }),
        opt_view(d.failure_message) == (match summary {
            Some(s) => opt_view(s.failure_message),
            None => None,
        }),
        d.duration_nanos == (match summary {
            Some(s) => match s.duration_nanos {
                Some(t) => parsed_u128(t@),
                None => None,
            },
            None => None,
        }),
        d.tasks@.map_values(|t: RunTaskRecord| t@) == task_records(
            match summary {
                Some(s) => Some(s.tasks@),
                None => None,
            },
            match plan {
                Some(p) => Some(strings_view(p.task_names@)),
                None => None,
            },
            events@.map_values(|e: RunEventRecord| e@),
        ),
        d.events@ == events@,
{
    let tasks = build_task_records(
        match summary {
            Some(s) => Some(&s.tasks),
            None => None,
        },
        match plan {
            Some(p) => Some(&p.task_names),
            None => None,
        },
        &events,
    );
    let requested_tasks = match summary {
        Some(s) => clone_strings(&s.requested_tasks),
        None => match plan {
            Some(p) => clone_strings(&p.requested_tasks),
            None => {
                let empty: Vec<String> = Vec::new();
                assert(strings_view(empty@) =~= Seq::<Seq<char>>::empty());
                empty
            },
        },
    };
    let result = match summary {
        Some(s) => s.result.clone(),
        None => live_result_from_events(&events),
    };
    let failure_message = match summary {
        Some(s) => clone_opt(&s.failure_message),
        None => None,
    };
    let duration_nanos = match summary {
        Some(s) => match &s.duration_nanos {
            Some(t) => parse_u128(t.as_str()),
            None => None,
        },
        None => None,
    };
    RunDetailRecord {
        run_directory: FilePath::from_str(run_directory.as_str()),
        run_id: run_id_from_directory(run_directory),
        requested_tasks,
        result,
        duration_nanos,
        failure_message,
        tasks,
        events,
    }
}

/// The history entry of a finished run, from its summary.
pub fn run_summary_from_summary(run_directory: &FilePath, summary: &SummaryFile) -> (r: RunSummaryRecord)
    ensures
        r.run_directory.0@ == run_directory.0@,
        r.run_id@ == run_id_of(run_directory.0@),
        strings_view(r.requested_tasks@) == strings_view(summary.requested_tasks@),
        r.result@ == summary.result@,
        opt_view(r.failure_message) == opt_view(summary.failure_message),
        r.task_count == summary.tasks@.len(),
{
    RunSummaryRecord {
        run_directory: FilePath::from_str(run_directory.as_str()),
        run_id: run_id_from_directory(run_directory),
        requested_tasks: clone_strings(&summary.requested_tasks),
        result: summary.result.clone(),
        failure_message: clone_opt(&summary.failure_message),
        task_count: summary.tasks.len(),
    }
}

/// The history entry of a run without a summary, from its detail.
pub fn run_summary_from_detail(detail: RunDetailRecord) -> (r: RunSummaryRecord)
    ensures
        r.run_directory == detail.run_directory,
        r.run_id == detail.run_id,
        r.requested_tasks == detail.requested_tasks,
        r.result == detail.result,
        r.failure_message == detail.failure_message,
        r.task_count == detail.tasks@.len(),
{
    let task_count = detail.tasks.len();
    RunSummaryRecord {
        run_directory: detail.run_directory,
        run_id: detail.run_id,
        requested_tasks: detail.requested_tasks,
        result: detail.result,
        failure_message: detail.failure_message,
        task_count,
    }
}

/// Whether names are in strictly decreasing order, so that none occurs twice.
pub open spec fn strictly_descending(names: Seq<Seq<char>>) -> bool {
    forall|i: int, j: int| 0 <= i < j < names.len() ==> chars_lt(#[trigger] names[j], #[trigger] names[i])
}

/// The distinct run directory names, newest first: run directories are named by the time
/// their run started, so the greatest name is the newest run.
pub fn newest_first_run_names(names: &Vec<String>) -> (r: Vec<String>)
    ensures
        strictly_descending(strings_view(r@)),
        strings_view(r@).to_set() == strings_view(names@).to_set(),
{
    let mut set = NameSet::new();
    let mut i: usize = 0;
    while i < names.len()
        invariant
            i <= names@.len(),
            set.wf(),
            set@.to_set() == strings_view(names@).take(i as int).to_set(),
        decreases names@.len() - i,
    {
        set.insert(names[i].as_str());
        assert(strings_view(names@).take(i + 1) =~= strings_view(names@).take(i as int).push(names@[i as int]@));
        proof {
            strings_view(names@).take(i as int).lemma_push_to_set_commute(names@[i as int]@);
        }
        i = i + 1;
    }
    assert(strings_view(names@).take(names@.len() as int) =~= strings_view(names@));
    let ascending = set.names();
    let ghost asc = strings_view(ascending@);
    let mut r: Vec<String> = Vec::new();
    let mut k: usize = ascending.len();
    while k > 0
        invariant
            k <= ascending@.len(),
            asc == strings_view(ascending@),
            strictly_sorted(asc),
            strings_view(r@) == asc.subrange(k as int, asc.len() as int).reverse(),
        decreases k,
    {
        let ghost before = strings_view(r@);
        r.push(ascending[k - 1].clone());
        assert(strings_view(r@) =~= before.push(asc[k - 1]));
        assert(asc.subrange(k - 1, asc.len() as int).reverse() =~= asc.subrange(k as int, asc.len() as int).reverse().push(
            asc[k - 1],
        ));
        k = k - 1;
    }
    assert(asc.subrange(0, asc.len() as int) =~= asc);
    proof {
        let rv = strings_view(r@);
        assert forall|i: int, j: int| 0 <= i < j < rv.len() implies chars_lt(#[trigger] rv[j], #[trigger] rv[i]) by {
            assert(rv[i] == asc[asc.len() - 1 - i]);
            assert(rv[j] == asc[asc.len() - 1 - j]);
        }
        assert forall|x: Seq<char>| rv.to_set().contains(x) <==> asc.to_set().contains(x) by {
            if rv.to_set().contains(x) {
                let w = choose|w: int| 0 <= w < rv.len() && rv[w] == x;
                assert(asc[asc.len() - 1 - w] == x);
            }
            if asc.to_set().contains(x) {
                let w = choose|w: int| 0 <= w < asc.len() && asc[w] == x;
                assert(rv[asc.len() - 1 - w] == x);
            }
        }
        assert(rv.to_set() =~= asc.to_set());
    }
    r
}

} // verus!
